//! Trailing-edge debounce of the aggregate count. At most one emission is
//! pending; a new value replaces it and restarts the delay, and a tick at or
//! after its due time fires it exactly once.
use vstd::prelude::*;

verus! {

/// The emission waiting to fire: its value and the time (in milliseconds)
/// from which it fires.
#[derive(Debug, Clone, Copy, PartialEq, Eq, Structural)]
pub struct Pending {
    pub value: u64,
    pub due: u64,
}

/// What a debouncer holds: its delay and the pending emission, if any.
pub struct GateView {
    pub delay: u64,
    pub pending: Option<Pending>,
}

/// One thing that happens to a debouncer: a new value arrives, or time passes.
pub enum GateInput {
    Value { value: u64, at: u64 },
    Tick { at: u64 },
}

/// The time `delay` after `now`, or the largest time if that does not fit.
pub open spec fn due_at(now: u64, delay: u64) -> u64 {
    if now + delay > u64::MAX {
        u64::MAX
    } else {
        (now + delay) as u64
    }
}

/// The debouncer after a new value: whatever was pending is dropped, and the new
/// value is due `delay` after `now`.
pub open spec fn offered(g: GateView, value: u64, now: u64) -> GateView {
    GateView { delay: g.delay, pending: Some(Pending { value, due: due_at(now, g.delay) }) }
}

/// The debouncer after time reaches `now`, and the value that fires then.
pub open spec fn ticked(g: GateView, now: u64) -> (GateView, Option<u64>) {
    match g.pending {
        Some(p) => if now >= p.due {
            (GateView { delay: g.delay, pending: None }, Some(p.value))
        } else {
            (g, None)
        },
        None => (g, None),
    }
}

pub open spec fn step(g: GateView, i: GateInput) -> (GateView, Option<u64>) {
    match i {
        GateInput::Value { value, at } => (offered(g, value, at), None),
        GateInput::Tick { at } => ticked(g, at),
    }
}

/// The debouncer after a sequence of inputs, and the values it emitted, in order.
pub open spec fn run(g: GateView, s: Seq<GateInput>) -> (GateView, Seq<u64>)
    decreases s.len(),
{
    if s.len() == 0 {
        (g, Seq::empty())
    } else {
        let (g1, out) = run(g, s.drop_last());
        let (g2, o) = step(g1, s.last());
        match o {
            Some(v) => (g2, out.push(v)),
            None => (g2, out),
        }
    }
}

pub open spec fn time_of(i: GateInput) -> u64 {
    match i {
        GateInput::Value { at, .. } => at,
        GateInput::Tick { at } => at,
    }
}

/// The last value input of `s`, with its time.
pub open spec fn last_value(s: Seq<GateInput>) -> Option<(u64, u64)>
    decreases s.len(),
{
    if s.len() == 0 {
        None
    } else {
        match s.last() {
            GateInput::Value { value, at } => Some((value, at)),
            GateInput::Tick { .. } => last_value(s.drop_last()),
        }
    }
}

proof fn lemma_burst_prefix(g: GateView, s: Seq<GateInput>, t0: u64)
    requires
        g.pending is None,
        forall|k: int| 0 <= k < s.len() ==> t0 <= time_of(#[trigger] s[k]) < due_at(t0, g.delay),
    ensures
        run(g, s).1 == Seq::<u64>::empty(),
        run(g, s).0.delay == g.delay,
        match last_value(s) {
            Some((v, t)) => t0 <= t && run(g, s).0.pending == Some(
                Pending { value: v, due: due_at(t, g.delay) },
            ),
            None => run(g, s).0.pending is None,
        },
    decreases s.len(),
{
    if s.len() > 0 {
        let d = s.drop_last();
        assert forall|k: int| 0 <= k < d.len() implies t0 <= time_of(#[trigger] d[k]) < due_at(
            t0,
            g.delay,
        ) by {
            assert(d[k] == s[k]);
        }
        lemma_burst_prefix(g, d, t0);
        assert(s.last() == s[s.len() - 1]);
        assert(t0 <= time_of(s[s.len() - 1]) < due_at(t0, g.delay));
    }
}

/// A burst collapses: when every input of `burst` (values and ticks alike)
/// falls within `delay` of the first time `t0`, and nothing was pending
/// before, nothing is emitted during the burst, and a later tick at `t`
/// emits exactly one value, the last of the burst, and only if `t` is at
/// least `delay` after that last value.
pub proof fn lemma_burst_collapses(g: GateView, burst: Seq<GateInput>, t0: u64, t: u64)
    requires
        g.pending is None,
        last_value(burst) is Some,
        forall|k: int|
            0 <= k < burst.len() ==> t0 <= time_of(#[trigger] burst[k]) < due_at(t0, g.delay),
    ensures
        run(g, burst).1 == Seq::<u64>::empty(),
        ({
            let (v, tl) = last_value(burst)->Some_0;
            run(g, burst.push(GateInput::Tick { at: t })).1 == if t >= due_at(tl, g.delay) {
                seq![v]
            } else {
                Seq::<u64>::empty()
            }
        }),
{
    lemma_burst_prefix(g, burst, t0);
    let s = burst.push(GateInput::Tick { at: t });
    assert(s.drop_last() == burst);
}

proof fn lemma_idle_prefix(g: GateView, s: Seq<GateInput>, v: u64, t0: u64, k: int)
    requires
        g.pending is None,
        1 <= k <= s.len(),
        s[0] == (GateInput::Value { value: v, at: t0 }),
        forall|i: int| 1 <= i < s.len() ==> s[i] is Tick,
    ensures
        run(g, s.take(k)).0.delay == g.delay,
        if exists|i: int| 1 <= i < k && time_of(s[i]) >= due_at(t0, g.delay) {
            run(g, s.take(k)).1 == seq![v] && run(g, s.take(k)).0.pending is None
        } else {
            run(g, s.take(k)).1 == Seq::<u64>::empty() && run(g, s.take(k)).0.pending == Some(
                Pending { value: v, due: due_at(t0, g.delay) },
            )
        },
    decreases k,
{
    if k == 1 {
        let p = s.take(1);
        assert(p.drop_last() == Seq::<GateInput>::empty());
        assert(run(g, p.drop_last()) == (g, Seq::<u64>::empty()));
    } else {
        lemma_idle_prefix(g, s, v, t0, k - 1);
        assert(s.take(k).drop_last() == s.take(k - 1));
        assert(s.take(k).last() == s[k - 1]);
        if exists|i: int| 1 <= i < k - 1 && time_of(s[i]) >= due_at(t0, g.delay) {
            let i = choose|i: int| 1 <= i < k - 1 && time_of(s[i]) >= due_at(t0, g.delay);
            assert(1 <= i < k && time_of(s[i]) >= due_at(t0, g.delay));
        } else if time_of(s[k - 1]) >= due_at(t0, g.delay) {
            assert(1 <= k - 1 < k && time_of(s[k - 1]) >= due_at(t0, g.delay));
        } else {
            assert forall|i: int| 1 <= i < k implies time_of(s[i]) < due_at(t0, g.delay) by {
                if i < k - 1 {
                    assert(!(1 <= i < k - 1 && time_of(s[i]) >= due_at(t0, g.delay)));
                }
            }
        }
    }
}

/// A lone value passes after silence: when a single value `v` at `t0` is
/// followed by ticks only, one of them at least `delay` after `t0`, exactly
/// one value is emitted, and it is `v`.
pub proof fn lemma_idle_pass(g: GateView, s: Seq<GateInput>, v: u64, t0: u64)
    requires
        g.pending is None,
        s.len() >= 1,
        s[0] == (GateInput::Value { value: v, at: t0 }),
        forall|i: int| 1 <= i < s.len() ==> s[i] is Tick,
        exists|i: int| 1 <= i < s.len() && time_of(s[i]) >= due_at(t0, g.delay),
    ensures
        run(g, s).1 == seq![v],
{
    lemma_idle_prefix(g, s, v, t0, s.len() as int);
    assert(s.take(s.len() as int) == s);
}

/// Debounce gate with a fixed delay in milliseconds and a single pending slot.
pub struct DebounceGate {
    delay: u64,
    pending: Option<Pending>,
}

impl View for DebounceGate {
    type V = GateView;

    closed spec fn view(&self) -> GateView {
        GateView { delay: self.delay, pending: self.pending }
    }
}

impl DebounceGate {
    /// A debouncer with nothing pending.
    pub fn new(delay: u64) -> (r: DebounceGate)
        ensures
            r@.delay == delay,
            r@.pending is None,
    {
        DebounceGate { delay, pending: None }
    }

    /// Takes a new value at time `now`: any pending emission is cancelled and
    /// `value` becomes due `delay` after `now`.
    pub fn offer(&mut self, value: u64, now: u64)
        ensures
            final(self)@ == offered(old(self)@, value, now),
    {
        self.pending = Some(Pending { value, due: now.saturating_add(self.delay) });
    }

    /// Lets time reach `now`: returns the pending value if it is due, and
    /// clears it; otherwise returns nothing and changes nothing.
    pub fn tick(&mut self, now: u64) -> (r: Option<u64>)
        ensures
            (final(self)@, r) == ticked(old(self)@, now),
    {
        match self.pending {
            Some(p) => {
                if now >= p.due {
                    self.pending = None;
                    Some(p.value)
                } else {
                    None
                }
            },
            None => None,
        }
    }

    /// The time at which the pending value is due, if one is pending.
    pub fn deadline(&self) -> (r: Option<u64>)
        ensures
            r == match self@.pending {
                Some(p) => Some(p.due),
                None => None::<u64>,
            },
    {
        match self.pending {
            Some(p) => Some(p.due),
            None => None,
        }
    }

    pub fn delay(&self) -> (r: u64)
        ensures
            r == self@.delay,
    {
        self.delay
    }
}

} // verus!
