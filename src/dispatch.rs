//! Turns debounced aggregate counts into command invocations, one per
//! change of the in-use state.
use vstd::prelude::*;
use crate::activity::State;

verus! {

/// Whether an aggregate count means the resource is in use.
pub open spec fn state_of_count(count: u64) -> State {
    if count > 0 {
        State::InUse
    } else {
        State::NotInUse
    }
}

/// The state that a count dispatches from `current`, if it differs.
pub open spec fn dispatched(current: State, count: u64) -> Option<State> {
    if state_of_count(count) == current {
        None
    } else {
        Some(state_of_count(count))
    }
}

/// The state after a sequence of debounced counts, and the states
/// dispatched on the way, in order.
pub open spec fn dispatch_all(current: State, counts: Seq<u64>) -> (State, Seq<State>)
    decreases counts.len(),
{
    if counts.len() == 0 {
        (current, Seq::empty())
    } else {
        let (s, out) = dispatch_all(current, counts.drop_last());
        match dispatched(s, counts.last()) {
            Some(n) => (n, out.push(n)),
            None => (s, out),
        }
    }
}

/// Invocations alternate: over any sequence of debounced counts, the first
/// dispatched state differs from the starting state, no two dispatched
/// states in a row are equal, and the state reached is the last one
/// dispatched.
pub proof fn lemma_transitions_alternate(current: State, counts: Seq<u64>)
    ensures
        ({
            let (end, out) = dispatch_all(current, counts);
            &&& out.len() > 0 ==> out[0] != current
            &&& forall|i: int| 0 <= i < out.len() - 1 ==> #[trigger] out[i] != out[i + 1]
            &&& end == if out.len() == 0 {
                current
            } else {
                out.last()
            }
        }),
    decreases counts.len(),
{
    if counts.len() > 0 {
        lemma_transitions_alternate(current, counts.drop_last());
    }
}

/// Re-delivering one state is idempotent: when every count of a non-empty
/// sequence means the same state `s`, exactly one invocation follows if `s`
/// differs from the starting state, and none if it does not.
pub proof fn lemma_repeat_is_noop(current: State, counts: Seq<u64>, s: State)
    requires
        counts.len() > 0,
        forall|i: int| 0 <= i < counts.len() ==> state_of_count(#[trigger] counts[i]) == s,
    ensures
        dispatch_all(current, counts).0 == s,
        dispatch_all(current, counts).1 == if s == current {
            Seq::<State>::empty()
        } else {
            seq![s]
        },
    decreases counts.len(),
{
    let d = counts.drop_last();
    assert(counts.last() == counts[counts.len() - 1]);
    if d.len() > 0 {
        assert forall|i: int| 0 <= i < d.len() implies state_of_count(#[trigger] d[i]) == s by {
            assert(d[i] == counts[i]);
        }
        lemma_repeat_is_noop(current, d, s);
    } else {
        assert(dispatch_all(current, d) == (current, Seq::<State>::empty()));
        assert(Seq::<State>::empty().push(s) =~= seq![s]);
    }
}

/// A command to run with one argument.
pub struct Invocation {
    pub program: String,
    pub arg: String,
}

/// The last dispatched in-use state, and the command with its two arguments.
pub struct Dispatcher {
    current: State,
    command: String,
    on: String,
    off: String,
}

impl Dispatcher {
    pub closed spec fn state(&self) -> State {
        self.current
    }

    pub closed spec fn command(&self) -> Seq<char> {
        self.command@
    }

    pub closed spec fn on_arg(&self) -> Seq<char> {
        self.on@
    }

    pub closed spec fn off_arg(&self) -> Seq<char> {
        self.off@
    }

    /// The argument passed on entering state `s`.
    pub open spec fn arg_for(&self, s: State) -> Seq<char> {
        match s {
            State::InUse => self.on_arg(),
            State::NotInUse => self.off_arg(),
        }
    }

    /// A dispatcher that has not dispatched anything: the resource counts as
    /// not in use.
    pub fn new(command: String, on: String, off: String) -> (r: Dispatcher)
        ensures
            r.state() == State::NotInUse,
            r.command() == command@,
            r.on_arg() == on@,
            r.off_arg() == off@,
    {
        Dispatcher { current: State::NotInUse, command, on, off }
    }

    /// Takes a debounced count. When its in-use state differs from the last
    /// one dispatched, records it and returns the command with the matching
    /// argument; otherwise returns nothing. The state is recorded before the
    /// command runs, so a command that fails to start is not retried.
    pub fn update(&mut self, count: u64) -> (r: Option<Invocation>)
        ensures
            final(self).command() == old(self).command(),
            final(self).on_arg() == old(self).on_arg(),
            final(self).off_arg() == old(self).off_arg(),
            match dispatched(old(self).state(), count) {
                Some(s) => {
                    &&& final(self).state() == s
                    &&& r is Some
                    &&& r->Some_0.program@ == old(self).command()
                    &&& r->Some_0.arg@ == old(self).arg_for(s)
                },
                None => final(self).state() == old(self).state() && r is None,
            },
    {
        let s = if count > 0 {
            State::InUse
        } else {
            State::NotInUse
        };
        if s == self.current {
            None
        } else {
            self.current = s;
            let arg = match s {
                State::InUse => self.on.clone(),
                State::NotInUse => self.off.clone(),
            };
            Some(Invocation { program: self.command.clone(), arg })
        }
    }

    /// The last dispatched in-use state.
    pub fn current(&self) -> (r: State)
        ensures
            r == self.state(),
    {
        self.current
    }
}

} // verus!
