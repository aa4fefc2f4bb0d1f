//! What the end of a terminal's byte source means.

use vstd::prelude::*;

verus! {

/// Whether the end of a source's reader is the death of its pane.
pub trait TerminalLifecyclePolicy {
    fn emits_pane_died_on_reader_exit(&self) -> bool;
}

/// A terminal whose bytes come from a local child: when the reader ends, the
/// child is gone, and so is the pane.
#[derive(Debug, Clone, Copy, PartialEq, Eq, Structural)]
pub struct LocalChild;

impl TerminalLifecyclePolicy for LocalChild {
    fn emits_pane_died_on_reader_exit(&self) -> (emits: bool)
        ensures
            emits,
    {
        true
    }
}

} // verus!
