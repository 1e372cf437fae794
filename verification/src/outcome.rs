//! How a run ends: the reason for a clean stop, the classes of fatal failure,
//! and the exit status that belongs to each.

use vstd::prelude::*;

verus! {

/// Why the pump stopped although nothing failed.
#[derive(Clone, Copy, Debug, PartialEq, Eq, Structural)]
pub enum StopReason {
    /// The cancellation signal was set.
    Cancelled,
    /// No batch arrived within the inactivity bound.
    Timeout,
}

/// The fatal failure classes. Each ends the run with a non-zero exit status.
#[derive(Clone, Copy, Debug, PartialEq, Eq, Structural)]
pub enum EngineError {
    /// No physical device satisfies the match rule.
    NotFound,
    /// The capabilities of the physical device could not be read.
    CapabilityQueryFailure,
    /// The synthetic device could not be created.
    CreationFailure,
    /// Exclusive access to the physical device was refused.
    GrabDenied,
    /// An event could not be written to the synthetic device.
    ForwardWriteError,
}

/// The result of a whole run.
#[derive(Clone, Copy, Debug, PartialEq, Eq, Structural)]
pub enum Outcome {
    Clean(StopReason),
    Failed(EngineError),
}

/// What the action dispatcher reports. A warning is for the log only.
#[derive(Debug)]
pub enum DispatchOutcome {
    Succeeded,
    Warning(String),
}

/// The mathematical value of a [`DispatchOutcome`].
pub enum DispatchOutcomeView {
    Succeeded,
    Warning(Seq<char>),
}

impl View for DispatchOutcome {
    type V = DispatchOutcomeView;

    open spec fn view(&self) -> DispatchOutcomeView {
        match self {
            DispatchOutcome::Succeeded => DispatchOutcomeView::Succeeded,
            DispatchOutcome::Warning(message) => DispatchOutcomeView::Warning(message@),
        }
    }
}

/// The exit status of a run: zero exactly for a clean stop.
pub open spec fn exit_status(outcome: Outcome) -> int {
    match outcome {
        Outcome::Clean(_) => 0,
        Outcome::Failed(_) => 1,
    }
}

impl Outcome {
    /// The process exit status for this outcome.
    pub fn exit_code(&self) -> (code: i32)
        ensures
            code == exit_status(*self),
    {
        match self {
            Outcome::Clean(_) => 0,
            Outcome::Failed(_) => 1,
        }
    }

    /// Whether the run stopped without a failure.
    pub fn is_clean(&self) -> (clean: bool)
        ensures
            clean == (*self is Clean),
    {
        match self {
            Outcome::Clean(_) => true,
            Outcome::Failed(_) => false,
        }
    }
}

} // verus!
