//! Events of a streaming run, and the final event that the waiter reports.
use vstd::prelude::*;
use vstd::string::*;
use crate::text::{lossy_utf8, utf8_lossy};

verus! {

/// One event in a runner's output stream.
#[derive(Debug, Clone, PartialEq, Eq)]
pub enum Event {
    /// A complete line from the child's stdout (no trailing newline).
    Stdout(String),
    /// A raw byte chunk from the child's stdout, decoded as UTF-8 (lossy).
    StdoutChunk(String),
    /// A complete line from the child's stderr (no trailing newline).
    Stderr(String),
    /// The child exited with the given status code; `-1` when it was
    /// terminated by a signal.
    Finished(i32),
    /// The runner failed to wait for the child; a human-readable description.
    Failed(String),
}

/// What waiting for a child gave, as the waiter thread sees it.
pub enum WaitOutcome {
    /// The child was reaped; its exit code, or `None` when a signal ended it.
    Exited(Option<i32>),
    /// Waiting failed; the error's description.
    WaitFailed(String),
    /// The child was already reaped elsewhere.
    AlreadyReaped,
}

impl Event {
    /// `Finished` and `Failed` end a run.
    pub open spec fn terminal(self) -> bool {
        self is Finished || self is Failed
    }

    /// Whether this event ends a run.
    pub fn is_terminal(&self) -> (b: bool)
        ensures
            b == self.terminal(),
    {
        match self {
            Event::Finished(_) => true,
            Event::Failed(_) => true,
            _ => false,
        }
    }

    /// The event that a chunk of raw stdout bytes becomes.
    pub fn from_chunk(bytes: &[u8]) -> (ev: Event)
        ensures
            ev is StdoutChunk,
            ev->StdoutChunk_0@ == lossy_utf8(bytes@),
    {
        Event::StdoutChunk(utf8_lossy(bytes))
    }
}

/// The event that the waiter sends once the child's output is drained.
pub fn exit_event(outcome: WaitOutcome) -> (ev: Event)
    ensures
        ev.terminal(),
        outcome matches WaitOutcome::Exited(Some(c)) ==> ev == Event::Finished(c),
        outcome matches WaitOutcome::Exited(None) ==> ev == Event::Finished(-1i32),
        outcome is AlreadyReaped ==> ev == Event::Finished(-1i32),
        outcome matches WaitOutcome::WaitFailed(e) ==> ev is Failed && ev->Failed_0@
            == "wait failed: "@ + e@,
{
    match outcome {
        WaitOutcome::Exited(Some(c)) => Event::Finished(c),
        WaitOutcome::Exited(None) => Event::Finished(-1),
        WaitOutcome::WaitFailed(e) => {
            let mut m = String::from_str("wait failed: ");
            m.append(e.as_str());
            Event::Failed(m)
        },
        WaitOutcome::AlreadyReaped => Event::Finished(-1),
    }
}

} // verus!
