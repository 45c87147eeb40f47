use spicy_garden::outcome::FailureReason;
use spicy_garden::outcome::Outcome;
use spicy_garden::pool::Orchestrator;
use spicy_garden::pool::SlotState;

fn tokens(list: &[&str]) -> Vec<String> {
    list.iter().map(|t| t.to_string()).collect()
}

#[test]
fn busy_slots_never_exceed_slot_count() {
    let mut o = Orchestrator::new(2);
    assert_eq!(o.busy_slots(), 0);
    o.add_tokens(tokens(&["a", "b", "c", "d"]));
    assert!(o.claim_next().is_some());
    assert!(o.busy_slots() <= 2);
    assert!(o.claim_next().is_some());
    assert!(o.busy_slots() <= 2);
    // Both slots are busy and two tokens are still buffered: no third claim.
    assert!(o.claim_next().is_none());
    assert_eq!(o.busy_slots(), 2);
    o.on_completion(0, Outcome::Failure(FailureReason::ProcessError));
    assert!(o.busy_slots() <= 2);
    assert_eq!(o.busy_slots(), 1);
}

#[test]
fn claim_takes_newest_token_and_lowest_idle_slot() {
    let mut o = Orchestrator::new(2);
    o.add_tokens(tokens(&["a", "b"]));
    let (slot_b, tok_b) = o.claim_next().unwrap();
    assert_eq!((slot_b, tok_b.as_str()), (0, "b"));
    let (slot_a, tok_a) = o.claim_next().unwrap();
    assert_eq!((slot_a, tok_a.as_str()), (1, "a"));
    assert_eq!(o.slots[0], SlotState::Busy("b".to_string()));
    assert_eq!(o.slots[1], SlotState::Busy("a".to_string()));
}

#[test]
fn claimed_task_is_never_claimed_twice() {
    let mut o = Orchestrator::new(3);
    o.add_tokens(tokens(&["only"]));
    let (slot, tok) = o.claim_next().unwrap();
    assert_eq!((slot, tok.as_str()), (0, "only"));
    // The token is owned by slot 0 now; nothing is left to claim.
    assert!(o.claim_next().is_none());
    assert_eq!(o.busy_slots(), 1);
}

#[test]
fn two_tasks_resolve_independently_and_slots_are_reused() {
    // Two slots, tokens "a" and "b"; "a" resolves first, its submission is
    // queued while "b" is still in flight, and the freed slot takes a newly
    // fetched token "c" before "b" resolves.
    let mut o = Orchestrator::new(2);
    o.add_tokens(tokens(&["b", "a"]));
    let (slot_a, tok_a) = o.claim_next().unwrap();
    let (slot_b, tok_b) = o.claim_next().unwrap();
    assert_eq!(tok_a.as_str(), "a");
    assert_eq!(tok_b.as_str(), "b");
    assert_ne!(slot_a, slot_b);

    o.on_completion(slot_a, Outcome::Success("result-a".to_string()));
    let next = o.next_submission().unwrap();
    assert_eq!(next.token.as_str(), "a");
    assert_eq!(next.payload.as_str(), "result-a");
    // "b" is still in flight.
    assert_eq!(o.slots[slot_b], SlotState::Busy("b".to_string()));

    o.add_tokens(tokens(&["c"]));
    let (slot_c, tok_c) = o.claim_next().unwrap();
    assert_eq!(tok_c.as_str(), "c");
    assert_eq!(slot_c, slot_a);
    assert_eq!(o.slots[slot_b], SlotState::Busy("b".to_string()));
}

#[test]
fn replenish_asks_for_the_missing_tokens_only() {
    let mut o = Orchestrator::new(3);
    assert_eq!(o.replenish_amount(), 3);
    o.add_tokens(tokens(&["a"]));
    assert_eq!(o.replenish_amount(), 2);
    o.add_tokens(tokens(&["b", "c"]));
    assert_eq!(o.replenish_amount(), 0);
}

#[test]
fn failed_fetches_leave_the_loop_able_to_continue() {
    // Three consecutive fetch failures: the loop neither dispatches beyond
    // its buffer nor loses state; it keeps asking until a fetch succeeds.
    let mut o = Orchestrator::new(2);
    o.add_tokens(tokens(&["a"]));
    for _ in 0..3 {
        let want = o.replenish_amount();
        assert_eq!(want, 1);
        // The fetch failed: no tokens arrive, nothing else changes.
    }
    let (_, tok) = o.claim_next().unwrap();
    assert_eq!(tok.as_str(), "a");
    // The buffer is empty now; further claims wait for a successful fetch.
    assert!(o.claim_next().is_none());
    assert_eq!(o.replenish_amount(), 2);
    o.add_tokens(tokens(&["d", "e"]));
    let (_, tok2) = o.claim_next().unwrap();
    assert_eq!(tok2.as_str(), "e");
}

#[test]
fn rejected_submission_is_retried_verbatim() {
    let mut o = Orchestrator::new(1);
    o.add_tokens(tokens(&["s1"]));
    let (slot, _) = o.claim_next().unwrap();
    o.on_completion(slot, Outcome::Success("payload-1".to_string()));

    let first = o.next_submission().unwrap();
    assert_eq!(first.token.as_str(), "s1");
    assert_eq!(first.payload.as_str(), "payload-1");

    // The coordinator answered with something other than 204: keep it.
    o.on_submit_outcome(false);
    let second = o.next_submission().unwrap();
    assert_eq!(second.token.as_str(), "s1");
    assert_eq!(second.payload.as_str(), "payload-1");
    assert_eq!(o.submitted_count, 0);

    // Acknowledged: gone, and counted as progress.
    o.on_submit_outcome(true);
    assert!(o.next_submission().is_none());
    assert_eq!(o.submitted_count, 1);
}

#[test]
fn failures_are_dropped_without_resubmission() {
    let mut o = Orchestrator::new(1);
    o.add_tokens(tokens(&["f"]));
    let (slot, _) = o.claim_next().unwrap();
    o.on_completion(slot, Outcome::Failure(FailureReason::TimedOut));
    assert!(o.next_submission().is_none());
    assert_eq!(o.busy_slots(), 0);
}

#[test]
fn shutdown_stops_claims_and_run_terminates_only_when_drained() {
    let mut o = Orchestrator::new(2);
    o.add_tokens(tokens(&["a", "b", "c"]));
    assert!(o.claim_next().is_some());
    assert!(o.claim_next().is_some());

    o.request_shutdown();
    assert_eq!(o.replenish_amount(), 0);
    // No new task is claimed after shutdown, buffered or not.
    assert!(o.claim_next().is_none());
    // Two tasks are still in flight: the run must not terminate yet.
    assert!(!o.should_terminate());
    o.on_completion(0, Outcome::Failure(FailureReason::Cancelled));
    assert!(!o.should_terminate());
    o.on_completion(1, Outcome::Success("late".to_string()));
    assert!(o.should_terminate());
}

#[test]
fn shutdown_is_idempotent() {
    let mut o = Orchestrator::new(1);
    o.request_shutdown();
    assert!(o.shutdown);
    o.request_shutdown();
    assert!(o.shutdown);
    assert!(o.should_terminate());
}
