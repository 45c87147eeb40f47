//! Supervision of one task's subprocess, as a state machine.
//!
//! The application drives one supervisor per claimed task: it performs the
//! returned [`SupervisorAction`] (prepare the working directory, spawn the
//! subprocess, poll its liveness, terminate it, read the result artifact),
//! translates what happened into a [`SupervisorEvent`], and feeds it back
//! into [`supervisor_step`]. Once the state is [`SupervisorState::Done`] it
//! reports the outcome on the completion channel and stops.
//!
//! The machine guarantees that exactly one terminal outcome is reached per
//! task, that a timed-out or cancelled subprocess is terminated before the
//! outcome is reported, and that a terminal state never changes again.

use vstd::prelude::*;

use crate::outcome::FailureReason;
use crate::outcome::Outcome;

verus! {

/// How long a subprocess may run before it is terminated and its task
/// resolves as timed out, in milliseconds.
pub const TASK_TIMEOUT_MS: u64 = 60000;

/// How long the application sleeps between two liveness polls of a running
/// subprocess, in milliseconds. Timeout and shutdown are observed with at
/// most this latency.
pub const POLL_INTERVAL_MS: u64 = 10;

/// The phase one supervised task execution is in.
#[derive(Clone, Debug, PartialEq)]
pub enum SupervisorState {
    /// The working directory is being prepared; nothing has been launched.
    Preparing,
    /// The working directory is ready; the subprocess is being started.
    Launching,
    /// The subprocess runs; its liveness is polled, racing the timeout timer
    /// and the shutdown signal.
    Running,
    /// The subprocess exited successfully; the result artifact is being read.
    Extracting,
    /// Terminal: the task resolved to exactly this outcome.
    Done(Outcome),
}

/// What the application observed while performing the previous action.
#[derive(Clone, Debug, PartialEq)]
pub enum SupervisorEvent {
    /// The working directory was prepared.
    WorkspaceReady,
    /// The working directory could not be prepared.
    WorkspaceFailed,
    /// The subprocess was started.
    SpawnOk,
    /// The subprocess could not be started.
    SpawnFailed,
    /// The shutdown signal was seen while the subprocess ran.
    ShutdownSignaled,
    /// The subprocess exited on its own, with or without success, or could
    /// not be waited on (reported as `success: false`).
    ProcessExited { success: bool },
    /// The subprocess was still alive at the last poll.
    StillRunning,
    /// The timeout timer armed at task start expired.
    TimeoutExpired,
    /// The result artifact was read and decoded: its text.
    ArtifactRead(String),
    /// The result artifact could not be read or decoded.
    ArtifactUnreadable,
}

/// What the application must do next.
#[derive(Clone, Copy, Debug, PartialEq, Eq, Structural)]
pub enum SupervisorAction {
    /// Prepare the task's working directory.
    PrepareWorkspace,
    /// Start the subprocess in the prepared directory.
    SpawnProcess,
    /// Sleep one poll interval, then check shutdown, subprocess exit and
    /// timeout, in that order.
    PollProcess,
    /// Forcibly terminate the subprocess and wait for it to release its
    /// resources, then report the outcome.
    TerminateProcess,
    /// Read the result artifact from the working directory.
    ReadArtifact,
    /// The state is terminal: deliver the outcome on the completion channel.
    Report,
}

/// The action a state is waiting on; returned again when an event does not
/// belong to the current state.
pub open spec fn spec_pending_action(s: SupervisorState) -> SupervisorAction {
    match s {
        SupervisorState::Preparing => SupervisorAction::PrepareWorkspace,
        SupervisorState::Launching => SupervisorAction::SpawnProcess,
        SupervisorState::Running => SupervisorAction::PollProcess,
        SupervisorState::Extracting => SupervisorAction::ReadArtifact,
        SupervisorState::Done(_) => SupervisorAction::Report,
    }
}

/// The transition relation of the supervisor. An event that does not belong
/// to the current state leaves the state unchanged and repeats its pending
/// action; a terminal state absorbs every event.
pub open spec fn spec_supervisor_step(s: SupervisorState, e: SupervisorEvent) -> (SupervisorState, SupervisorAction) {
    match (s, e) {
        (SupervisorState::Preparing, SupervisorEvent::WorkspaceReady) => (
            SupervisorState::Launching,
            SupervisorAction::SpawnProcess,
        ),
        (SupervisorState::Preparing, SupervisorEvent::WorkspaceFailed) => (
            SupervisorState::Done(Outcome::Failure(FailureReason::WorkspaceError)),
            SupervisorAction::Report,
        ),
        (SupervisorState::Launching, SupervisorEvent::SpawnOk) => (
            SupervisorState::Running,
            SupervisorAction::PollProcess,
        ),
        (SupervisorState::Launching, SupervisorEvent::SpawnFailed) => (
            SupervisorState::Done(Outcome::Failure(FailureReason::SpawnError)),
            SupervisorAction::Report,
        ),
        (SupervisorState::Running, SupervisorEvent::ShutdownSignaled) => (
            SupervisorState::Done(Outcome::Failure(FailureReason::Cancelled)),
            SupervisorAction::TerminateProcess,
        ),
        (SupervisorState::Running, SupervisorEvent::ProcessExited { success }) => (
            if success {
                (SupervisorState::Extracting, SupervisorAction::ReadArtifact)
            } else {
                (
                    SupervisorState::Done(Outcome::Failure(FailureReason::ProcessError)),
                    SupervisorAction::Report,
                )
            }
        ),
        (SupervisorState::Running, SupervisorEvent::StillRunning) => (
            SupervisorState::Running,
            SupervisorAction::PollProcess,
        ),
        (SupervisorState::Running, SupervisorEvent::TimeoutExpired) => (
            SupervisorState::Done(Outcome::Failure(FailureReason::TimedOut)),
            SupervisorAction::TerminateProcess,
        ),
        (SupervisorState::Extracting, SupervisorEvent::ArtifactRead(payload)) => (
            SupervisorState::Done(Outcome::Success(payload)),
            SupervisorAction::Report,
        ),
        (SupervisorState::Extracting, SupervisorEvent::ArtifactUnreadable) => (
            SupervisorState::Done(Outcome::Failure(FailureReason::ResultUnreadable)),
            SupervisorAction::Report,
        ),
        (s2, _) => (s2, spec_pending_action(s2)),
    }
}

/// One step of the supervisor: from the current state and the observed event
/// to the next state and the next action to perform.
pub fn supervisor_step(s: SupervisorState, e: SupervisorEvent) -> (r: (SupervisorState, SupervisorAction))
    ensures
        r == spec_supervisor_step(s, e),
{
    match (s, e) {
        (SupervisorState::Preparing, SupervisorEvent::WorkspaceReady) => (
            SupervisorState::Launching,
            SupervisorAction::SpawnProcess,
        ),
        (SupervisorState::Preparing, SupervisorEvent::WorkspaceFailed) => (
            SupervisorState::Done(Outcome::Failure(FailureReason::WorkspaceError)),
            SupervisorAction::Report,
        ),
        (SupervisorState::Launching, SupervisorEvent::SpawnOk) => (
            SupervisorState::Running,
            SupervisorAction::PollProcess,
        ),
        (SupervisorState::Launching, SupervisorEvent::SpawnFailed) => (
            SupervisorState::Done(Outcome::Failure(FailureReason::SpawnError)),
            SupervisorAction::Report,
        ),
        (SupervisorState::Running, SupervisorEvent::ShutdownSignaled) => (
            SupervisorState::Done(Outcome::Failure(FailureReason::Cancelled)),
            SupervisorAction::TerminateProcess,
        ),
        (SupervisorState::Running, SupervisorEvent::ProcessExited { success }) => {
            if success {
                (SupervisorState::Extracting, SupervisorAction::ReadArtifact)
            } else {
                (
                    SupervisorState::Done(Outcome::Failure(FailureReason::ProcessError)),
                    SupervisorAction::Report,
                )
            }
        },
        (SupervisorState::Running, SupervisorEvent::StillRunning) => (
            SupervisorState::Running,
            SupervisorAction::PollProcess,
        ),
        (SupervisorState::Running, SupervisorEvent::TimeoutExpired) => (
            SupervisorState::Done(Outcome::Failure(FailureReason::TimedOut)),
            SupervisorAction::TerminateProcess,
        ),
        (SupervisorState::Extracting, SupervisorEvent::ArtifactRead(payload)) => (
            SupervisorState::Done(Outcome::Success(payload)),
            SupervisorAction::Report,
        ),
        (SupervisorState::Extracting, SupervisorEvent::ArtifactUnreadable) => (
            SupervisorState::Done(Outcome::Failure(FailureReason::ResultUnreadable)),
            SupervisorAction::Report,
        ),
        (s2, _) => {
            let a = match &s2 {
                SupervisorState::Preparing => SupervisorAction::PrepareWorkspace,
                SupervisorState::Launching => SupervisorAction::SpawnProcess,
                SupervisorState::Running => SupervisorAction::PollProcess,
                SupervisorState::Extracting => SupervisorAction::ReadArtifact,
                SupervisorState::Done(_) => SupervisorAction::Report,
            };
            (s2, a)
        },
    }
}

/// The state after feeding a whole sequence of events into the machine.
pub open spec fn spec_run(s: SupervisorState, events: Seq<SupervisorEvent>) -> SupervisorState
    decreases events.len(),
{
    if events.len() == 0 {
        s
    } else {
        spec_run(spec_supervisor_step(s, events[0]).0, events.drop_first())
    }
}

/// A terminal state absorbs every single event: its outcome never changes.
pub proof fn lemma_done_is_stable(o: Outcome, e: SupervisorEvent)
    ensures
        spec_supervisor_step(SupervisorState::Done(o), e).0 == SupervisorState::Done(o),
{
}

/// A claimed task resolves to at most one terminal outcome: once the machine
/// is done with outcome `o`, no sequence of later events leads it anywhere
/// else.
pub proof fn lemma_outcome_is_unique(o: Outcome, events: Seq<SupervisorEvent>)
    ensures
        spec_run(SupervisorState::Done(o), events) == SupervisorState::Done(o),
    decreases events.len(),
{
    if events.len() > 0 {
        lemma_done_is_stable(o, events[0]);
        lemma_outcome_is_unique(o, events.drop_first());
    }
}

/// A subprocess that outlives its timeout is forcibly terminated and its
/// task resolves as timed out — and can never resolve as a success later.
pub proof fn lemma_timeout_resolves_timed_out()
    ensures
        spec_supervisor_step(SupervisorState::Running, SupervisorEvent::TimeoutExpired) == (
            SupervisorState::Done(Outcome::Failure(FailureReason::TimedOut)),
            SupervisorAction::TerminateProcess,
        ),
        forall|events: Seq<SupervisorEvent>|
            !(#[trigger] spec_run(
                SupervisorState::Done(Outcome::Failure(FailureReason::TimedOut)),
                events,
            ) matches SupervisorState::Done(Outcome::Success(_))),
{
    assert forall|events: Seq<SupervisorEvent>|
        !(#[trigger] spec_run(
            SupervisorState::Done(Outcome::Failure(FailureReason::TimedOut)),
            events,
        ) matches SupervisorState::Done(Outcome::Success(_))) by {
        lemma_outcome_is_unique(Outcome::Failure(FailureReason::TimedOut), events);
    }
}

/// Shutdown observed while the subprocess runs terminates it and resolves
/// the task as cancelled, so every in-flight task still reports back and the
/// drain can complete.
pub proof fn lemma_shutdown_resolves_cancelled()
    ensures
        spec_supervisor_step(SupervisorState::Running, SupervisorEvent::ShutdownSignaled) == (
            SupervisorState::Done(Outcome::Failure(FailureReason::Cancelled)),
            SupervisorAction::TerminateProcess,
        ),
{
}

} // verus!
