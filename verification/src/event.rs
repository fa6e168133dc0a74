//! What a Session reports to its observers.

use vstd::prelude::*;

verus! {

#[derive(Clone, Copy, Debug, PartialEq, Eq, Hash, Structural)]
pub enum SessionEventKind {
    Snapshot,
    TurnStarted,
    TextDelta,
    ReasoningDelta,
    ToolStarted,
    ToolFinished,
    InputRequested,
    TurnFinished,
    ResyncRequired,
    Closed,
}

} // verus!
