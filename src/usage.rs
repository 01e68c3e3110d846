//! Per-path usage counters and their aggregate.
use vstd::prelude::*;
use crate::activity::{Event, State};

verus! {

/// Most distinct paths a counter set holds; keeps the aggregate within `u64`.
pub const MAX_PATHS: usize = 0xFFFF_FFFF;

/// A path's counter after one observation: +1 on open (saturating at the
/// largest `u8`), -1 on close (saturating at zero).
pub open spec fn step_count(c: u8, s: State) -> u8 {
    match s {
        State::InUse => if c == u8::MAX { u8::MAX } else { (c + 1) as u8 },
        State::NotInUse => if c == 0 { 0 } else { (c - 1) as u8 },
    }
}

/// The counters after folding one observation on the path at index `i`.
pub open spec fn apply(counts: Seq<u8>, i: int, s: State) -> Seq<u8> {
    counts.update(i, step_count(counts[i], s))
}

/// The counters after folding a sequence of (index, kind) observations in order.
pub open spec fn apply_all(counts: Seq<u8>, acts: Seq<(int, State)>) -> Seq<u8>
    decreases acts.len(),
{
    if acts.len() == 0 {
        counts
    } else {
        let prev = apply_all(counts, acts.drop_last());
        apply(prev, acts.last().0, acts.last().1)
    }
}

/// Sum of all counters.
pub open spec fn total(counts: Seq<u8>) -> int
    decreases counts.len(),
{
    if counts.len() == 0 {
        0
    } else {
        total(counts.drop_last()) + counts.last() as int
    }
}

/// Closes never drive a counter below zero: through any run of close
/// observations, every counter only falls or stays, and one that stood at
/// zero (no open before it) stays at zero.
pub proof fn lemma_closes_saturate(counts: Seq<u8>, acts: Seq<(int, State)>, p: int)
    requires
        0 <= p < counts.len(),
        counts[p] == 0,
        forall|k: int|
            0 <= k < acts.len() ==> acts[k].1 == State::NotInUse && 0 <= acts[k].0 < counts.len(),
    ensures
        apply_all(counts, acts).len() == counts.len(),
        apply_all(counts, acts)[p] == 0,
        forall|i: int| 0 <= i < counts.len() ==> apply_all(counts, acts)[i] <= counts[i],
    decreases acts.len(),
{
    if acts.len() > 0 {
        lemma_closes_saturate(counts, acts.drop_last(), p);
        assert(acts.last() == acts[acts.len() - 1]);
    }
}

proof fn lemma_total_bound(counts: Seq<u8>)
    ensures
        0 <= total(counts) <= 255 * counts.len(),
    decreases counts.len(),
{
    if counts.len() > 0 {
        lemma_total_bound(counts.drop_last());
    }
}

/// Usage counter of every watched path, keyed by path, each path once.
pub struct UsageCounter {
    paths: Vec<String>,
    counts: Vec<u8>,
}

impl UsageCounter {
    /// The watched paths, in the order the counters are kept.
    pub closed spec fn paths(&self) -> Seq<Seq<char>> {
        self.paths@.map_values(|p: String| p@)
    }

    /// The counters, index for index with `paths()`.
    pub closed spec fn counts(&self) -> Seq<u8> {
        self.counts@
    }

    pub open spec fn wf(&self) -> bool {
        &&& self.paths().len() == self.counts().len()
        &&& self.paths().len() <= MAX_PATHS
        &&& forall|i: int, j: int|
            0 <= i < j < self.paths().len() ==> self.paths()[i] != self.paths()[j]
    }

    /// Index of `p` among the watched paths, if it is watched.
    pub open spec fn index_of(&self, p: Seq<char>) -> Option<int> {
        if exists|i: int| 0 <= i < self.paths().len() && self.paths()[i] == p {
            Some(choose|i: int| 0 <= i < self.paths().len() && self.paths()[i] == p)
        } else {
            None
        }
    }

    /// A counter of zero for each distinct path of `paths`.
    pub fn new(paths: &Vec<String>) -> (r: UsageCounter)
        requires
            paths@.len() <= MAX_PATHS,
        ensures
            r.wf(),
            forall|i: int| 0 <= i < r.paths().len() ==> r.counts()[i] == 0,
            forall|p: Seq<char>|
                r.paths().contains(p) <==> exists|j: int| 0 <= j < paths@.len() && paths@[j]@ == p,
    {
        let mut r = UsageCounter { paths: Vec::new(), counts: Vec::new() };
        let mut k: usize = 0;
        while k < paths.len()
            invariant
                k <= paths@.len() <= MAX_PATHS,
                r.wf(),
                r.paths().len() <= k,
                forall|i: int| 0 <= i < r.paths().len() ==> r.counts()[i] == 0,
                forall|p: Seq<char>|
                    r.paths().contains(p) <==> exists|j: int| 0 <= j < k && paths@[j]@ == p,
            decreases paths@.len() - k,
        {
            let p = &paths[k];
            let ghost before = r.paths();
            assert(forall|q: Seq<char>|
                before.contains(q) <==> exists|j: int| 0 <= j < k && paths@[j]@ == q);
            let found = r.position(p);
            if found.is_none() {
                r.paths.push(p.clone());
                r.counts.push(0);
                assert(r.paths() == before.push(p@));
                assert forall|i: int, j: int| 0 <= i < j < r.paths().len() implies r.paths()[i]
                    != r.paths()[j] by {
                    if j == before.len() {
                        assert(before[i] == r.paths()[i]);
                    }
                }
            } else {
                let ix = found.unwrap();
                assert(before[ix as int] == p@);
            }
            assert forall|q: Seq<char>|
                r.paths().contains(q) <==> exists|j: int| 0 <= j < k + 1 && paths@[j]@ == q by {
                if q == p@ {
                    assert(paths@[k as int]@ == q);
                    if found.is_none() {
                        assert(r.paths()[before.len() as int] == q);
                    }
                } else {
                    if r.paths().contains(q) {
                        let i = choose|i: int| 0 <= i < r.paths().len() && r.paths()[i] == q;
                        assert(before[i] == q);
                        assert(before.contains(q));
                    }
                    if exists|j: int| 0 <= j < k + 1 && paths@[j]@ == q {
                        let j = choose|j: int| 0 <= j < k + 1 && paths@[j]@ == q;
                        assert(exists|j2: int| 0 <= j2 < k && paths@[j2]@ == q);
                        assert(before.contains(q));
                        let i = choose|i: int| 0 <= i < before.len() && before[i] == q;
                        assert(r.paths()[i] == q);
                    }
                }
            }
            k = k + 1;
        }
        r
    }

    /// Where `path` stands among the watched paths, if it is watched.
    pub fn position(&self, path: &String) -> (r: Option<usize>)
        requires
            self.wf(),
        ensures
            match self.index_of(path@) {
                Some(i) => r == Some(i as usize),
                None => r is None,
            },
    {
        let mut i: usize = 0;
        while i < self.paths.len()
            invariant
                self.wf(),
                i <= self.paths().len(),
                forall|j: int| 0 <= j < i ==> self.paths()[j] != path@,
            decreases self.paths().len() - i,
        {
            if self.paths[i] == *path {
                assert(self.paths()[i as int] == path@);
                assert(self.index_of(path@) == Some(i as int));
                return Some(i);
            }
            i = i + 1;
        }
        None
    }

    /// Whether `path` is one of the watched paths.
    pub fn watches(&self, path: &String) -> (r: bool)
        requires
            self.wf(),
        ensures
            r == self.paths().contains(path@),
    {
        let r = self.position(path).is_some();
        proof {
            if self.paths().contains(path@) {
                let i = choose|i: int| 0 <= i < self.paths().len() && self.paths()[i] == path@;
            }
        }
        r
    }

    /// Sum of all counters.
    pub fn aggregate(&self) -> (r: u64)
        requires
            self.wf(),
        ensures
            r == total(self.counts()),
    {
        let mut s: u64 = 0;
        let mut i: usize = 0;
        while i < self.counts.len()
            invariant
                self.wf(),
                i <= self.counts().len(),
                s == total(self.counts().take(i as int)),
            decreases self.counts().len() - i,
        {
            proof {
                assert(self.counts().take(i + 1).drop_last() == self.counts().take(i as int));
                lemma_total_bound(self.counts().take(i + 1));
            }
            s = s + self.counts[i] as u64;
            i = i + 1;
        }
        assert(self.counts().take(i as int) == self.counts());
        s
    }

    /// Folds one observation into the counter of its path and returns the
    /// aggregate count afterwards. Only watched paths are observed.
    pub fn fold(&mut self, event: &Event) -> (r: u64)
        requires
            old(self).wf(),
            old(self).paths().contains(event.path@),
        ensures
            final(self).wf(),
            final(self).paths() == old(self).paths(),
            old(self).index_of(event.path@) is Some,
            final(self).counts() == apply(
                old(self).counts(),
                old(self).index_of(event.path@)->Some_0,
                event.state,
            ),
            r == total(final(self).counts()),
    {
        let ghost p = self.paths();
        let i = match self.position(&event.path) {
            Some(i) => i,
            None => {
                proof {
                    let j = choose|j: int| 0 <= j < p.len() && p[j] == event.path@;
                }
                return self.aggregate();
            },
        };
        let c = self.counts[i];
        let n: u8 = match event.state {
            State::InUse => c.saturating_add(1),
            State::NotInUse => c.saturating_sub(1),
        };
        self.counts.set(i, n);
        self.aggregate()
    }
}

} // verus!
