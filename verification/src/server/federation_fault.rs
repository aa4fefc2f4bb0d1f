//! Typed outcomes of a federation tunnel and capture of the first of them.
//!
//! Faults race across the reader, the writer and the child watcher, and a
//! forced shutdown provokes secondary ones. The first cause recorded is the
//! one that is reported.

use vstd::prelude::*;

verus! {

/// The reason a federation tunnel terminated.
#[derive(Debug, Clone, Copy, PartialEq, Eq, Structural)]
pub enum TunnelExit {
    /// Orderly end of stream.
    PeerClosed,
    /// The outbound serializer failed or was closed mid-write.
    WriterFailed,
    /// The transport's child process exited.
    ChildExited,
    /// A supervised task panicked.
    TaskPanicked,
    /// A mirrored remote terminal closed.
    ServerTerminalClosed,
    /// An output subscriber lagged and lost bytes.
    Lagged,
    /// A bounded egress queue overflowed.
    EgressOverflow,
    /// A bounded local queue overflowed.
    LocalQueueOverflow,
    /// A frame carried a stale mount generation.
    GenerationMismatch,
    /// The event sequence has a gap.
    EventGap,
}

impl TunnelExit {
    /// Whether this outcome is a clean shutdown rather than a fault.
    pub fn is_clean(&self) -> (clean: bool)
        ensures
            clean == (*self == TunnelExit::PeerClosed),
    {
        matches!(self, TunnelExit::PeerClosed)
    }
}

/// Records the first [`TunnelExit`] and ignores every later one.
#[derive(Debug, Clone, Copy, PartialEq, Eq, Structural)]
pub struct FirstCauseCell {
    pub cause: Option<TunnelExit>,
}

impl FirstCauseCell {
    /// What the cell records after `causes` arrived in this order.
    pub open spec fn after_all(self, causes: Seq<TunnelExit>) -> FirstCauseCell {
        if self.cause is Some || causes.len() == 0 {
            self
        } else {
            FirstCauseCell { cause: Some(causes[0]) }
        }
    }

    pub fn new() -> (cell: FirstCauseCell)
        ensures
            cell.cause is None,
    {
        FirstCauseCell { cause: None }
    }

    /// Record `cause` if none is set yet. Returns whether this call won.
    pub fn set(&mut self, cause: TunnelExit) -> (won: bool)
        ensures
            won == (old(self).cause is None),
            *final(self) == old(self).after_all(seq![cause]),
    {
        if self.cause.is_none() {
            self.cause = Some(cause);
            true
        } else {
            false
        }
    }

    /// The winning cause, if any.
    pub fn get(&self) -> (cause: Option<TunnelExit>)
        ensures
            cause == self.cause,
    {
        self.cause
    }

    pub fn is_set(&self) -> (set: bool)
        ensures
            set == (self.cause is Some),
    {
        self.cause.is_some()
    }
}

impl Default for FirstCauseCell {
    fn default() -> (cell: Self)
        ensures
            cell.cause is None,
    {
        FirstCauseCell::new()
    }
}

/// However many causes arrive, one more leaves the cell as it was, unless it is
/// the very first: the initiating cause is never overwritten, and exactly the
/// first `set` wins.
pub proof fn law_first_cause_wins(
    cell: FirstCauseCell,
    causes: Seq<TunnelExit>,
    late: TunnelExit,
)
    ensures
        cell.after_all(causes).after_all(seq![late]) == cell.after_all(causes.push(late)),
        causes.len() > 0 ==> cell.after_all(causes.push(late)) == cell.after_all(causes),
        cell.cause is Some ==> cell.after_all(causes) == cell,
        cell.cause is None && causes.len() > 0 ==> cell.after_all(causes).cause == Some(
            causes[0],
        ),
{
}

/// The first cause is recorded and every later one is not; what is told is what
/// was recorded.
pub proof fn law_a_cause_is_recorded_once(
    cell: &mut FirstCauseCell,
    cause: TunnelExit,
    won: bool,
    told: Option<TunnelExit>,
    set: bool,
    clean: bool,
)
    ensures
        call_ensures(FirstCauseCell::set, (cell, cause), won) ==> {
            &&& won <==> old(cell).cause is None
            &&& won ==> final(cell).cause == Some(cause)
            &&& !won ==> final(cell).cause == old(cell).cause
        },
        call_ensures(FirstCauseCell::get, (&*old(cell),), told) ==> told == old(cell).cause,
        call_ensures(FirstCauseCell::is_set, (&*old(cell),), set) ==> (set <==> old(cell).cause
            is Some),
        call_ensures(TunnelExit::is_clean, (&cause,), clean) ==> (clean <==> cause is PeerClosed),
{
}

} // verus!
