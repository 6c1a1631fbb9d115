//! Evidence sources and the signal they emit.

use vstd::prelude::*;

pub mod wifi;

verus! {

/// A context activity change, emitted by a trigger whenever its evidence
/// condition changes.
#[derive(Clone, Copy, Debug, PartialEq, Eq, Structural)]
pub enum Activity {
    /// The context is currently active.
    Active,
    /// The context is inactive.
    Inactive,
}

/// A context-based evidence source.
pub trait Trigger: Sized {
    /// The state of one run of listening.
    type Stream;

    /// Whether `stream` is the state in which a run of listening to this
    /// trigger starts: with nothing observed yet.
    spec fn starts(&self, stream: Self::Stream) -> bool;

    /// Starts listening for the context.  Every call gives a fresh stream;
    /// the owner feeds it the evidence and takes from it a signal whenever
    /// the context is entered or left.  The trigger stays as it is.
    fn listen(&mut self) -> (stream: Self::Stream)
        ensures
            old(self).starts(stream),
            *final(self) == *old(self),
    ;
}

/// Whether `events` signals each change once: active and inactive in turn,
/// active first.
pub open spec fn alternates(events: Seq<Activity>) -> bool {
    forall|i: int|
        0 <= i < events.len() ==> events[i] == if i % 2 == 0 {
            Activity::Active
        } else {
            Activity::Inactive
        }
}

} // verus!
