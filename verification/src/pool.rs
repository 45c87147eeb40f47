//! The slot pool and the orchestrator's scheduling decisions.
//!
//! The application runs the control loop; every decision in it is made here:
//! how many tokens to request from the coordinator, which buffered token to
//! claim into which idle slot, what to do with a completed task's outcome,
//! which pending result to submit next, what a submission outcome means for
//! the pending set, and when a shutting-down run may terminate.
//!
//! Exactly `slot_count` slots exist for the lifetime of a run. A slot is
//! busy exactly while a claimed task's subprocess execution is in flight, so
//! the number of busy slots never exceeds `slot_count` (see
//! [`lemma_busy_at_most_slot_count`]).

use vstd::prelude::*;
use vstd::multiset::Multiset;

use crate::outcome::Outcome;

verus! {

/// How long the application waits after a failed coordinator request before
/// the next loop iteration retries it, in milliseconds.
pub const FETCH_RETRY_DELAY_MS: u64 = 3000;

/// One of the `slot_count` fixed execution slots.
#[derive(Clone, Debug, PartialEq)]
pub enum SlotState {
    /// The slot holds no task.
    Idle,
    /// The slot owns the task with this token; its execution is in flight.
    Busy(String),
}

impl SlotState {
    /// True while the slot owns a task.
    pub open spec fn is_busy(self) -> bool {
        self is Busy
    }
}

/// A resolved success that still has to be reported to the coordinator:
/// kept, token and payload unchanged, until a submission is acknowledged.
#[derive(Clone, Debug, PartialEq)]
pub struct PendingResult {
    /// The token of the task that produced the payload.
    pub token: String,
    /// The raw result payload, submitted verbatim.
    pub payload: String,
}

/// The number of busy slots.
pub open spec fn count_busy(s: Seq<SlotState>) -> nat
    decreases s.len(),
{
    if s.len() == 0 {
        0
    } else {
        count_busy(s.drop_last()) + (if s.last().is_busy() {
            1nat
        } else {
            0nat
        })
    }
}

/// True when at least one slot is idle.
pub open spec fn has_idle(s: Seq<SlotState>) -> bool {
    exists|i: int| 0 <= i < s.len() && !(#[trigger] s[i].is_busy())
}

/// There cannot be more busy slots than slots.
pub proof fn lemma_count_busy_le_len(s: Seq<SlotState>)
    ensures
        count_busy(s) <= s.len(),
    decreases s.len(),
{
    if s.len() > 0 {
        lemma_count_busy_le_len(s.drop_last());
    }
}

/// Appending a slot adds its own contribution to the busy count.
pub proof fn lemma_count_busy_push(s: Seq<SlotState>, v: SlotState)
    ensures
        count_busy(s.push(v)) == count_busy(s) + (if v.is_busy() {
            1nat
        } else {
            0nat
        }),
{
    assert(s.push(v).drop_last() =~= s);
    assert(s.push(v).last() == v);
}

/// Replacing one slot changes the busy count by the difference of the old
/// and the new slot's contributions.
pub proof fn lemma_count_busy_update(s: Seq<SlotState>, i: int, v: SlotState)
    requires
        0 <= i < s.len(),
    ensures
        count_busy(s.update(i, v)) == count_busy(s) - (if s[i].is_busy() {
            1nat
        } else {
            0nat
        }) + (if v.is_busy() {
            1nat
        } else {
            0nat
        }),
    decreases s.len(),
{
    if i == s.len() - 1 {
        assert(s.update(i, v).drop_last() =~= s.drop_last());
        assert(s.update(i, v).last() == v);
    } else {
        assert(s.update(i, v).drop_last() =~= s.drop_last().update(i, v));
        assert(s.update(i, v).last() == s.last());
        lemma_count_busy_update(s.drop_last(), i, v);
    }
}

/// The pool state owned by the single orchestrator loop. Supervisor
/// executions never touch it: they only deliver an [`Outcome`] on the
/// completion channel, which the loop feeds into [`Orchestrator::on_completion`].
pub struct Orchestrator {
    /// The fixed number of slots, chosen at start.
    pub slot_count: usize,
    /// The slots; exactly `slot_count` of them, for the lifetime of the run.
    pub slots: Vec<SlotState>,
    /// Buffered unclaimed tokens; claims take the most recently fetched one.
    pub buffer: Vec<String>,
    /// Resolved successes not yet acknowledged by the coordinator.
    pub pending: Vec<PendingResult>,
    /// The process-wide shutdown signal: set at most once, never reset.
    pub shutdown: bool,
    /// How many results the coordinator has acknowledged; observable
    /// progress for the front-end. Saturates instead of overflowing.
    pub submitted_count: u64,
}

impl Orchestrator {
    /// The pool's invariant: the slot vector never changes length.
    pub open spec fn wf(self) -> bool {
        self.slots@.len() == self.slot_count
    }

    /// A fresh pool: every slot idle, nothing buffered, nothing pending,
    /// shutdown not signaled.
    pub fn new(slot_count: usize) -> (o: Orchestrator)
        ensures
            o.wf(),
            o.slot_count == slot_count,
            forall|i: int| 0 <= i < o.slots@.len() ==> !(#[trigger] o.slots@[i].is_busy()),
            count_busy(o.slots@) == 0,
            o.buffer@.len() == 0,
            o.pending@.len() == 0,
            !o.shutdown,
            o.submitted_count == 0,
    {
        let mut slots: Vec<SlotState> = Vec::new();
        let mut i: usize = 0;
        while i < slot_count
            invariant
                i <= slot_count,
                slots@.len() == i,
                forall|j: int| 0 <= j < i ==> !(#[trigger] slots@[j].is_busy()),
                count_busy(slots@) == 0,
            decreases slot_count - i,
        {
            proof {
                lemma_count_busy_push(slots@, SlotState::Idle);
            }
            slots.push(SlotState::Idle);
            i = i + 1;
        }
        Orchestrator {
            slot_count,
            slots,
            buffer: Vec::new(),
            pending: Vec::new(),
            shutdown: false,
            submitted_count: 0,
        }
    }

    /// Asserts the shutdown signal. Idempotent: the signal only ever moves
    /// from false to true, and nothing else changes.
    pub fn request_shutdown(&mut self)
        ensures
            final(self).shutdown,
            final(self).slot_count == old(self).slot_count,
            final(self).slots == old(self).slots,
            final(self).buffer == old(self).buffer,
            final(self).pending == old(self).pending,
            final(self).submitted_count == old(self).submitted_count,
    {
        self.shutdown = true;
    }

    /// How many new tokens this iteration should request from the
    /// coordinator: enough to refill the buffer up to the slot count, and
    /// none at all once shutdown is asserted.
    pub fn replenish_amount(&self) -> (n: usize)
        ensures
            self.shutdown ==> n == 0,
            !self.shutdown && self.buffer@.len() < self.slot_count ==> n == self.slot_count
                - self.buffer@.len(),
            !self.shutdown && self.buffer@.len() >= self.slot_count ==> n == 0,
    {
        if self.shutdown {
            0
        } else if self.buffer.len() < self.slot_count {
            self.slot_count - self.buffer.len()
        } else {
            0
        }
    }

    /// Adds freshly fetched tokens to the back of the buffer; everything
    /// else is untouched.
    pub fn add_tokens(&mut self, tokens: Vec<String>)
        ensures
            final(self).buffer@ == old(self).buffer@ + tokens@,
            final(self).slot_count == old(self).slot_count,
            final(self).slots == old(self).slots,
            final(self).pending == old(self).pending,
            final(self).shutdown == old(self).shutdown,
            final(self).submitted_count == old(self).submitted_count,
    {
        let mut tokens = tokens;
        self.buffer.append(&mut tokens);
    }

    /// Claims one buffered task, if any may be claimed: the most recently
    /// fetched token goes to the lowest idle slot, which becomes busy at
    /// once, so the same task can never be handed out twice. After shutdown
    /// nothing is claimed and nothing changes.
    pub fn claim_next(&mut self) -> (r: Option<(usize, String)>)
        requires
            old(self).wf(),
        ensures
            final(self).wf(),
            final(self).slot_count == old(self).slot_count,
            final(self).shutdown == old(self).shutdown,
            final(self).pending == old(self).pending,
            final(self).submitted_count == old(self).submitted_count,
            r is Some <==> (!old(self).shutdown && old(self).buffer@.len() > 0 && has_idle(
                old(self).slots@,
            )),
            r is None ==> *final(self) == *old(self),
            r matches Some((slot, token)) ==> {
                &&& (slot as int) < old(self).slots@.len()
                &&& !old(self).slots@[slot as int].is_busy()
                &&& forall|j: int| 0 <= j < slot ==> (#[trigger] old(self).slots@[j].is_busy())
                &&& token == old(self).buffer@.last()
                &&& final(self).buffer@ == old(self).buffer@.drop_last()
                &&& final(self).slots@ == old(self).slots@.update(
                    slot as int,
                    SlotState::Busy(token),
                )
                &&& count_busy(final(self).slots@) == count_busy(old(self).slots@) + 1
            },
    {
        if self.shutdown {
            return None;
        }
        if self.buffer.len() == 0 {
            return None;
        }
        let n = self.slots.len();
        let mut i: usize = 0;
        while i < n
            invariant
                old(self).wf(),
                !old(self).shutdown,
                old(self).buffer@.len() > 0,
                *self == *old(self),
                i <= n,
                n == self.slots@.len(),
                forall|j: int| 0 <= j < i ==> (#[trigger] self.slots@[j].is_busy()),
            decreases n - i,
        {
            let idle = match &self.slots[i] {
                SlotState::Idle => true,
                SlotState::Busy(_) => false,
            };
            if idle {
                let token = match self.buffer.pop() {
                    Some(t) => t,
                    None => {
                        proof {
                            assert(false);
                        }
                        String::new()
                    },
                };
                let claimed = token.clone();
                proof {
                    lemma_count_busy_update(
                        old(self).slots@,
                        i as int,
                        SlotState::Busy(claimed),
                    );
                }
                self.slots[i] = SlotState::Busy(token);
                proof {
                    assert(!(old(self).slots@[i as int].is_busy()));
                    assert(has_idle(old(self).slots@));
                }
                return Some((i, claimed));
            }
            i = i + 1;
        }
        proof {
            assert(forall|j: int|
                0 <= j < self.slots@.len() ==> (#[trigger] self.slots@[j].is_busy()));
            assert(!has_idle(self.slots@));
        }
        None
    }

    /// Consumes the outcome a supervisor delivered for the task owned by
    /// `slot`: the slot becomes idle again, a success joins the pending
    /// submissions under the very token the slot owned, and a failure is
    /// dropped without resubmission.
    pub fn on_completion(&mut self, slot: usize, outcome: Outcome)
        requires
            old(self).wf(),
            (slot as int) < old(self).slots@.len(),
            old(self).slots@[slot as int].is_busy(),
        ensures
            final(self).wf(),
            final(self).slot_count == old(self).slot_count,
            final(self).shutdown == old(self).shutdown,
            final(self).buffer == old(self).buffer,
            final(self).submitted_count == old(self).submitted_count,
            final(self).slots@ == old(self).slots@.update(slot as int, SlotState::Idle),
            count_busy(final(self).slots@) == count_busy(old(self).slots@) - 1,
            outcome matches Outcome::Success(payload) ==> final(self).pending@ == old(
                self,
            ).pending@.push(
                (PendingResult { token: old(self).slots@[slot as int]->Busy_0, payload }),
            ),
            outcome is Failure ==> final(self).pending == old(self).pending,
    {
        let token = match &self.slots[slot] {
            SlotState::Busy(t) => t.clone(),
            SlotState::Idle => {
                proof {
                    assert(false);
                }
                String::new()
            },
        };
        proof {
            lemma_count_busy_update(old(self).slots@, slot as int, SlotState::Idle);
        }
        self.slots[slot] = SlotState::Idle;
        match outcome {
            Outcome::Success(payload) => {
                self.pending.push(PendingResult { token, payload });
            },
            Outcome::Failure(_) => {},
        }
    }

    /// The submission the current cycle will attempt, if any: the most
    /// recently queued pending result, token and payload exactly as stored.
    pub open spec fn spec_next_submission(self) -> Option<PendingResult> {
        if self.pending@.len() == 0 {
            None
        } else {
            Some(self.pending@.last())
        }
    }

    /// The submission this iteration should attempt: the most recently
    /// queued pending result, token and payload exactly as stored.
    pub fn next_submission(&self) -> (r: Option<PendingResult>)
        ensures
            r == self.spec_next_submission(),
    {
        if self.pending.len() == 0 {
            None
        } else {
            let p = &self.pending[self.pending.len() - 1];
            Some(PendingResult { token: p.token.clone(), payload: p.payload.clone() })
        }
    }

    /// Records what the coordinator said to the submission returned by
    /// [`Self::next_submission`]. An acknowledged result leaves the pending
    /// set and counts as progress; a rejected one is kept unchanged, so the
    /// same token and payload are offered again on a later cycle.
    pub fn on_submit_outcome(&mut self, accepted: bool)
        requires
            old(self).pending@.len() > 0,
        ensures
            final(self).slot_count == old(self).slot_count,
            final(self).slots == old(self).slots,
            final(self).buffer == old(self).buffer,
            final(self).shutdown == old(self).shutdown,
            final(self).pending@ == spec_pending_after_submit(old(self).pending@, accepted),
            accepted ==> final(self).submitted_count == (if old(self).submitted_count
                < u64::MAX {
                old(self).submitted_count + 1
            } else {
                old(self).submitted_count as int
            }),
            !accepted ==> *final(self) == *old(self),
    {
        if accepted {
            self.pending.pop();
            if self.submitted_count < u64::MAX {
                self.submitted_count = self.submitted_count + 1;
            }
        }
    }

    /// The number of busy slots right now.
    pub fn busy_slots(&self) -> (n: usize)
        ensures
            n == count_busy(self.slots@),
    {
        let len = self.slots.len();
        let mut n: usize = 0;
        let mut i: usize = 0;
        proof {
            assert(self.slots@.subrange(0, 0) =~= Seq::<SlotState>::empty());
        }
        while i < len
            invariant
                i <= len,
                len == self.slots@.len(),
                n == count_busy(self.slots@.subrange(0, i as int)),
                n <= i,
            decreases len - i,
        {
            let busy = match &self.slots[i] {
                SlotState::Busy(_) => true,
                SlotState::Idle => false,
            };
            proof {
                lemma_count_busy_push(self.slots@.subrange(0, i as int), self.slots@[i as int]);
                assert(self.slots@.subrange(0, i as int).push(self.slots@[i as int])
                    =~= self.slots@.subrange(0, i as int + 1));
            }
            if busy {
                n = n + 1;
            }
            i = i + 1;
        }
        proof {
            assert(self.slots@.subrange(0, len as int) =~= self.slots@);
        }
        n
    }

    /// True exactly when the run may stop: shutdown has been asserted and
    /// every in-flight task has resolved.
    pub fn should_terminate(&self) -> (r: bool)
        ensures
            r == (self.shutdown && count_busy(self.slots@) == 0),
    {
        if !self.shutdown {
            return false;
        }
        let busy = self.busy_slots();
        busy == 0
    }
}

/// The pending set after one submission attempt was answered: an
/// acknowledged submission removes the offered result, a rejected one
/// changes nothing.
pub open spec fn spec_pending_after_submit(pending: Seq<PendingResult>, accepted: bool) -> Seq<
    PendingResult,
> {
    if accepted {
        pending.drop_last()
    } else {
        pending
    }
}

/// A successful submit removes the submitted outcome from the pending set;
/// a failed submit keeps the set unchanged, so the next cycle offers the
/// very same token and payload again.
pub proof fn lemma_submit_retries_verbatim(pending: Seq<PendingResult>)
    requires
        pending.len() > 0,
    ensures
        spec_pending_after_submit(pending, true) == pending.drop_last(),
        spec_pending_after_submit(pending, false) == pending,
        spec_pending_after_submit(pending, false).last() == pending.last(),
{
}

/// The texts of the buffered tokens, in buffer order.
pub open spec fn token_views(buffer: Seq<String>) -> Seq<Seq<char>> {
    buffer.map_values(|t: String| t@)
}

/// The tokens in flight: one instance for each busy slot that owns it.
pub open spec fn busy_token_multiset(slots: Seq<SlotState>) -> Multiset<Seq<char>>
    decreases slots.len(),
{
    if slots.len() == 0 {
        Multiset::empty()
    } else {
        let rest = busy_token_multiset(slots.drop_last());
        match slots.last() {
            SlotState::Busy(t) => rest.insert(t@),
            SlotState::Idle => rest,
        }
    }
}

/// Every token the pool is answerable for: the buffered ones together with
/// those in flight.
pub open spec fn owned_tokens(slots: Seq<SlotState>, buffer: Seq<String>) -> Multiset<Seq<char>> {
    busy_token_multiset(slots).add(token_views(buffer).to_multiset())
}

proof fn lemma_busy_tokens_update_insert(slots: Seq<SlotState>, i: int, token: String)
    requires
        0 <= i < slots.len(),
        !slots[i].is_busy(),
    ensures
        busy_token_multiset(slots.update(i, SlotState::Busy(token))) =~= busy_token_multiset(
            slots,
        ).insert(token@),
    decreases slots.len(),
{
    broadcast use vstd::multiset::group_multiset_axioms;

    let updated = slots.update(i, SlotState::Busy(token));
    if i == slots.len() - 1 {
        assert(updated.drop_last() =~= slots.drop_last());
        assert(updated.last() == SlotState::Busy(token));
    } else {
        assert(updated.drop_last() =~= slots.drop_last().update(i, SlotState::Busy(token)));
        assert(updated.last() == slots.last());
        lemma_busy_tokens_update_insert(slots.drop_last(), i, token);
    }
}

/// Resolving the task owned by a busy slot releases exactly one instance of
/// its token from the in-flight stock; every other slot's claim stands.
pub proof fn lemma_completion_releases_token(slots: Seq<SlotState>, slot: int)
    requires
        0 <= slot < slots.len(),
        slots[slot].is_busy(),
    ensures
        busy_token_multiset(slots) =~= busy_token_multiset(
            slots.update(slot, SlotState::Idle),
        ).insert(slots[slot]->Busy_0@),
    decreases slots.len(),
{
    broadcast use vstd::multiset::group_multiset_axioms;

    let updated = slots.update(slot, SlotState::Idle);
    if slot == slots.len() - 1 {
        assert(updated.drop_last() =~= slots.drop_last());
        assert(updated.last() == SlotState::Idle);
    } else {
        assert(updated.drop_last() =~= slots.drop_last().update(slot, SlotState::Idle));
        assert(updated.last() == slots.last());
        lemma_completion_releases_token(slots.drop_last(), slot);
    }
}

/// No task is claimed twice concurrently: a claim moves the newest buffered
/// token into exactly one previously idle slot, and the pool's combined
/// stock of tokens — buffered plus in flight — is preserved exactly, so a
/// claim can neither duplicate a task nor lose one.
pub proof fn lemma_claim_conserves_tokens(slots: Seq<SlotState>, buffer: Seq<String>, slot: int)
    requires
        0 <= slot < slots.len(),
        !slots[slot].is_busy(),
        buffer.len() > 0,
    ensures
        owned_tokens(slots.update(slot, SlotState::Busy(buffer.last())), buffer.drop_last())
            =~= owned_tokens(slots, buffer),
{
    broadcast use vstd::multiset::group_multiset_axioms;
    broadcast use vstd::seq_lib::group_to_multiset_ensures;

    lemma_busy_tokens_update_insert(slots, slot, buffer.last());
    assert(token_views(buffer.drop_last()).push(buffer.last()@) =~= token_views(buffer));
}

/// At every observation point the number of busy slots is at most the slot
/// count: a well-formed pool cannot have more tasks in flight than slots.
pub proof fn lemma_busy_at_most_slot_count(o: Orchestrator)
    requires
        o.wf(),
    ensures
        count_busy(o.slots@) <= o.slot_count,
{
    lemma_count_busy_le_len(o.slots@);
}

} // verus!
