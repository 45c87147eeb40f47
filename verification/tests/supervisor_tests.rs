use spicy_garden::outcome::FailureReason;
use spicy_garden::outcome::Outcome;
use spicy_garden::supervisor::supervisor_step;
use spicy_garden::supervisor::SupervisorAction;
use spicy_garden::supervisor::SupervisorEvent;
use spicy_garden::supervisor::SupervisorState;

#[test]
fn happy_path_reaches_success() {
    let (s, a) = supervisor_step(SupervisorState::Preparing, SupervisorEvent::WorkspaceReady);
    assert_eq!(s, SupervisorState::Launching);
    assert_eq!(a, SupervisorAction::SpawnProcess);
    let (s, a) = supervisor_step(s, SupervisorEvent::SpawnOk);
    assert_eq!(s, SupervisorState::Running);
    assert_eq!(a, SupervisorAction::PollProcess);
    let (s, a) = supervisor_step(s, SupervisorEvent::StillRunning);
    assert_eq!(s, SupervisorState::Running);
    assert_eq!(a, SupervisorAction::PollProcess);
    let (s, a) = supervisor_step(s, SupervisorEvent::ProcessExited { success: true });
    assert_eq!(s, SupervisorState::Extracting);
    assert_eq!(a, SupervisorAction::ReadArtifact);
    let (s, a) = supervisor_step(s, SupervisorEvent::ArtifactRead("data".to_string()));
    assert_eq!(s, SupervisorState::Done(Outcome::Success("data".to_string())));
    assert_eq!(a, SupervisorAction::Report);
}

#[test]
fn long_running_subprocess_times_out_and_never_succeeds() {
    // The subprocess outlives the timeout: several polls find it alive,
    // then the timer expires. It is terminated and the task resolves as
    // timed out, not as a success.
    let mut s = SupervisorState::Running;
    for _ in 0..5 {
        let (next, a) = supervisor_step(s, SupervisorEvent::StillRunning);
        assert_eq!(a, SupervisorAction::PollProcess);
        s = next;
    }
    let (s, a) = supervisor_step(s, SupervisorEvent::TimeoutExpired);
    assert_eq!(s, SupervisorState::Done(Outcome::Failure(FailureReason::TimedOut)));
    assert_eq!(a, SupervisorAction::TerminateProcess);
    assert!(!matches!(s, SupervisorState::Done(Outcome::Success(_))));
    // Even a late exit report changes nothing.
    let (s, a) = supervisor_step(s, SupervisorEvent::ProcessExited { success: true });
    assert_eq!(s, SupervisorState::Done(Outcome::Failure(FailureReason::TimedOut)));
    assert_eq!(a, SupervisorAction::Report);
}

#[test]
fn workspace_failure_resolves_without_a_launch() {
    let (s, a) = supervisor_step(SupervisorState::Preparing, SupervisorEvent::WorkspaceFailed);
    assert_eq!(s, SupervisorState::Done(Outcome::Failure(FailureReason::WorkspaceError)));
    assert_eq!(a, SupervisorAction::Report);
}

#[test]
fn spawn_failure_resolves_as_spawn_error() {
    let (s, a) = supervisor_step(SupervisorState::Launching, SupervisorEvent::SpawnFailed);
    assert_eq!(s, SupervisorState::Done(Outcome::Failure(FailureReason::SpawnError)));
    assert_eq!(a, SupervisorAction::Report);
}

#[test]
fn failing_exit_resolves_as_process_error() {
    let (s, a) = supervisor_step(
        SupervisorState::Running,
        SupervisorEvent::ProcessExited { success: false },
    );
    assert_eq!(s, SupervisorState::Done(Outcome::Failure(FailureReason::ProcessError)));
    assert_eq!(a, SupervisorAction::Report);
}

#[test]
fn unreadable_artifact_resolves_as_result_unreadable() {
    let (s, a) = supervisor_step(SupervisorState::Extracting, SupervisorEvent::ArtifactUnreadable);
    assert_eq!(s, SupervisorState::Done(Outcome::Failure(FailureReason::ResultUnreadable)));
    assert_eq!(a, SupervisorAction::Report);
}

#[test]
fn shutdown_terminates_and_resolves_as_cancelled() {
    let (s, a) = supervisor_step(SupervisorState::Running, SupervisorEvent::ShutdownSignaled);
    assert_eq!(s, SupervisorState::Done(Outcome::Failure(FailureReason::Cancelled)));
    assert_eq!(a, SupervisorAction::TerminateProcess);
}

#[test]
fn terminal_state_absorbs_every_event() {
    let done = SupervisorState::Done(Outcome::Success("kept".to_string()));
    let events = [
        SupervisorEvent::WorkspaceReady,
        SupervisorEvent::SpawnFailed,
        SupervisorEvent::ShutdownSignaled,
        SupervisorEvent::TimeoutExpired,
        SupervisorEvent::ArtifactUnreadable,
    ];
    let mut s = done.clone();
    for e in events {
        let (next, a) = supervisor_step(s, e);
        assert_eq!(next, done);
        assert_eq!(a, SupervisorAction::Report);
        s = next;
    }
}

#[test]
fn stray_event_repeats_the_pending_action() {
    // An event that does not belong to the current state changes nothing
    // and asks the application to redo what the state was waiting on.
    let (s, a) = supervisor_step(SupervisorState::Preparing, SupervisorEvent::TimeoutExpired);
    assert_eq!(s, SupervisorState::Preparing);
    assert_eq!(a, SupervisorAction::PrepareWorkspace);
    let (s, a) = supervisor_step(SupervisorState::Extracting, SupervisorEvent::SpawnOk);
    assert_eq!(s, SupervisorState::Extracting);
    assert_eq!(a, SupervisorAction::ReadArtifact);
}
