//! The whole reduction from classified events to command invocations: each
//! event updates the counters and offers the aggregate to the debouncer;
//! each tick of the clock may fire the debouncer into the dispatcher.
use vstd::prelude::*;
use crate::activity::{Event, State};
use crate::debounce::{ticked, offered, DebounceGate, GateView};
use crate::dispatch::{dispatched, Dispatcher, Invocation};
use crate::usage::{apply, total, UsageCounter, MAX_PATHS};

verus! {

pub struct Monitor {
    usage: UsageCounter,
    gate: DebounceGate,
    dispatcher: Dispatcher,
}

impl Monitor {
    pub closed spec fn usage(&self) -> UsageCounter {
        self.usage
    }

    pub closed spec fn gate(&self) -> GateView {
        self.gate@
    }

    pub closed spec fn dispatcher(&self) -> Dispatcher {
        self.dispatcher
    }

    pub open spec fn wf(&self) -> bool {
        self.usage().wf()
    }

    /// A monitor of `paths`, all counters at zero, nothing pending, and the
    /// resource counted as not in use.
    pub fn new(paths: &Vec<String>, delay: u64, command: String, on: String, off: String) -> (r:
        Monitor)
        requires
            paths@.len() <= MAX_PATHS,
        ensures
            r.wf(),
            forall|i: int| 0 <= i < r.usage().paths().len() ==> r.usage().counts()[i] == 0,
            forall|p: Seq<char>|
                r.usage().paths().contains(p) <==> exists|j: int|
                    0 <= j < paths@.len() && paths@[j]@ == p,
            r.gate().delay == delay,
            r.gate().pending is None,
            r.dispatcher().state() == State::NotInUse,
            r.dispatcher().command() == command@,
            r.dispatcher().on_arg() == on@,
            r.dispatcher().off_arg() == off@,
    {
        Monitor {
            usage: UsageCounter::new(paths),
            gate: DebounceGate::new(delay),
            dispatcher: Dispatcher::new(command, on, off),
        }
    }

    /// Whether `path` is one of the watched paths.
    pub fn watches(&self, path: &String) -> (r: bool)
        requires
            self.wf(),
        ensures
            r == self.usage().paths().contains(path@),
    {
        self.usage.watches(path)
    }

    /// Folds an event on a watched path observed at `now` (milliseconds) into
    /// its counter, and offers the new aggregate count to the debouncer,
    /// cancelling whatever was pending. Returns the aggregate count.
    pub fn on_event(&mut self, event: &Event, now: u64) -> (r: u64)
        requires
            old(self).wf(),
            old(self).usage().paths().contains(event.path@),
        ensures
            final(self).wf(),
            final(self).usage().paths() == old(self).usage().paths(),
            final(self).usage().counts() == apply(
                old(self).usage().counts(),
                old(self).usage().index_of(event.path@)->Some_0,
                event.state,
            ),
            r == total(final(self).usage().counts()),
            final(self).gate() == offered(old(self).gate(), r, now),
            final(self).dispatcher() == old(self).dispatcher(),
    {
        let count = self.usage.fold(event);
        self.gate.offer(count, now);
        count
    }

    /// Lets time reach `now` (milliseconds). If the pending count is due, it
    /// fires into the dispatcher, and the invocation that the dispatcher
    /// decides on, if any, is returned.
    pub fn on_tick(&mut self, now: u64) -> (r: Option<Invocation>)
        requires
            old(self).wf(),
        ensures
            final(self).wf(),
            final(self).usage() == old(self).usage(),
            final(self).gate() == ticked(old(self).gate(), now).0,
            final(self).dispatcher().command() == old(self).dispatcher().command(),
            final(self).dispatcher().on_arg() == old(self).dispatcher().on_arg(),
            final(self).dispatcher().off_arg() == old(self).dispatcher().off_arg(),
            match ticked(old(self).gate(), now).1 {
                None => final(self).dispatcher().state() == old(self).dispatcher().state()
                    && r is None,
                Some(v) => match dispatched(old(self).dispatcher().state(), v) {
                    Some(s) => {
                        &&& final(self).dispatcher().state() == s
                        &&& r is Some
                        &&& r->Some_0.program@ == old(self).dispatcher().command()
                        &&& r->Some_0.arg@ == old(self).dispatcher().arg_for(s)
                    },
                    None => final(self).dispatcher().state() == old(self).dispatcher().state()
                        && r is None,
                },
            },
    {
        match self.gate.tick(now) {
            Some(v) => self.dispatcher.update(v),
            None => None,
        }
    }

    /// The time (milliseconds) at which the pending count is due, if any.
    pub fn deadline(&self) -> (r: Option<u64>)
        ensures
            r == match self.gate().pending {
                Some(p) => Some(p.due),
                None => None::<u64>,
            },
    {
        self.gate.deadline()
    }

    /// The last dispatched in-use state.
    pub fn current(&self) -> (r: State)
        ensures
            r == self.dispatcher().state(),
    {
        self.dispatcher.current()
    }
}

} // verus!
