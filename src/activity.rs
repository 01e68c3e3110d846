//! Classification of raw open/close notifications into typed events.
use vstd::prelude::*;

verus! {

#[verifier::external_type_specification]
#[verifier::external_body]
pub struct ExInstant(std::time::Instant);

/// Relies on `std::time::Instant::now`, which reads the monotonic clock.
/// Nothing is claimed of the instant it returns.
pub assume_specification[ std::time::Instant::now ]() -> std::time::Instant;

/// Whether an observation opened or closed a watched path.
#[derive(Debug, Clone, Copy, PartialEq, Eq, Structural)]
pub enum State {
    InUse,
    NotInUse,
}

/// One classified open/close observation on a watched path.
#[derive(Debug)]
pub struct Event {
    pub timestamp: std::time::Instant,
    pub state: State,
    pub path: String,
}

impl Event {
    /// An event of the given kind on `path`, stamped with the current instant.
    pub fn new(state: State, path: &String) -> (e: Event)
        ensures
            e.state == state,
            e.path@ == path@,
    {
        Event { timestamp: std::time::Instant::now(), state, path: path.clone() }
    }
}

/// Kernel inotify bit for "file was opened".
pub const IN_OPEN: u32 = 0x20;

/// Kernel inotify bit for "file opened for writing was closed".
pub const IN_CLOSE_WRITE: u32 = 0x08;

/// Kernel inotify bit for "file not opened for writing was closed".
pub const IN_CLOSE_NOWRITE: u32 = 0x10;

/// A notification whose mask is neither a single open nor a single close.
#[derive(Debug, Clone, Copy, PartialEq, Eq, Structural)]
pub struct UnrecognizedEventKind {
    pub mask: u32,
}

/// The kind that a notification mask stands for, if it is one of the three
/// recognised masks.
pub open spec fn kind_of_mask(mask: u32) -> Option<State> {
    if mask == IN_OPEN {
        Some(State::InUse)
    } else if mask == IN_CLOSE_WRITE || mask == IN_CLOSE_NOWRITE {
        Some(State::NotInUse)
    } else {
        None
    }
}

/// Classifies a raw notification on `path` by its event mask. Any mask
/// other than exactly open, close-after-write or close-without-write is
/// reported as unrecognised, never ignored.
pub fn classify(mask: u32, path: &String) -> (r: Result<Event, UnrecognizedEventKind>)
    ensures
        match kind_of_mask(mask) {
            Some(s) => r is Ok && r->Ok_0.state == s && r->Ok_0.path@ == path@,
            None => r == Err::<Event, UnrecognizedEventKind>(UnrecognizedEventKind { mask }),
        },
{
    if mask == IN_OPEN {
        Ok(Event::new(State::InUse, path))
    } else if mask == IN_CLOSE_WRITE || mask == IN_CLOSE_NOWRITE {
        Ok(Event::new(State::NotInUse, path))
    } else {
        Err(UnrecognizedEventKind { mask })
    }
}

} // verus!
