//! Terminal results of one supervised task execution.

use vstd::prelude::*;

verus! {

/// Why a task execution failed. The orchestrator treats every variant the
/// same way (the task is dropped, never resubmitted), but the variants stay
/// distinguishable for logging and for tests.
#[derive(Clone, Copy, Debug, PartialEq, Eq, Structural)]
pub enum FailureReason {
    /// The working directory could not be prepared; no process was launched.
    WorkspaceError,
    /// The subprocess could not be started.
    SpawnError,
    /// The subprocess exited with a failure status, or could not be waited on.
    ProcessError,
    /// The subprocess succeeded but its result artifact could not be read or
    /// decoded as text.
    ResultUnreadable,
    /// The subprocess outlived the configured timeout and was terminated.
    TimedOut,
    /// Shutdown was signaled while the subprocess ran; it was terminated.
    Cancelled,
}

/// The terminal outcome of one claimed task: produced exactly once by the
/// supervisor and consumed exactly once by the orchestrator.
#[derive(Clone, Debug, PartialEq)]
pub enum Outcome {
    /// The subprocess completed and its result artifact was read: the decoded
    /// text payload to submit to the coordinator.
    Success(String),
    /// The task failed; it is dropped without resubmission.
    Failure(FailureReason),
}

impl Outcome {
    /// True of the outcome that carries a payload for submission.
    pub open spec fn is_success(self) -> bool {
        self matches Outcome::Success(_)
    }
}

} // verus!
