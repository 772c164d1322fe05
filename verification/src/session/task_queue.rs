//! Session task queue: the FIFO mailbox behind every session.
//!
//! This module holds the queue's data model and its pure state transitions: whether new
//! work is queued, promoted or refused, and how a finished run settles the queue (pop the
//! head, promote the next item, halt, or clear). Persisting the queue and starting runs is
//! done by the caller; the decisions here are total functions of their arguments.
//!
//! Well-formed queue: only the head may be `Running`; every later item is `Queued`.

use vstd::prelude::*;

use crate::text::str_eq;

verus! {

/// Queue capacity of a main (human-driven) session.
pub const MAIN_CAP: usize = 10;

/// Queue capacity of a member (model-driven) session.
pub const MEMBER_CAP: usize = 3;

/// Kind of a work item: the next user turn, or a dispatched agent task.
#[derive(Debug, Clone, Copy, PartialEq, Eq, Structural)]
pub enum TaskKind {
    UserMessage,
    AgentTask,
}

/// Status of a work item: the head is `Running` while a run is in flight.
#[derive(Debug, Clone, Copy, PartialEq, Eq, Structural)]
pub enum TaskStatus {
    Running,
    Queued,
}

/// One queued work item.
#[derive(Debug, PartialEq, Eq)]
pub struct SessionTaskItem {
    pub item_id: String,
    pub kind: TaskKind,
    /// Message text (`UserMessage`) or task description (`AgentTask`).
    pub payload: String,
    /// Tool call that an `AgentTask` fills in when it finishes.
    pub tool_call_id: Option<String>,
    pub parent_session_id: Option<String>,
    pub status: TaskStatus,
    pub enqueued_at: String,
}

fn clone_opt_string(o: &Option<String>) -> (r: Option<String>)
    ensures
        r == *o,
{
    match o {
        Some(s) => Some(s.clone()),
        None => None,
    }
}

impl Clone for SessionTaskItem {
    fn clone(&self) -> (r: Self)
        ensures
            r == *self,
    {
        SessionTaskItem {
            item_id: self.item_id.clone(),
            kind: self.kind,
            payload: self.payload.clone(),
            tool_call_id: clone_opt_string(&self.tool_call_id),
            parent_session_id: clone_opt_string(&self.parent_session_id),
            status: self.status,
            enqueued_at: self.enqueued_at.clone(),
        }
    }
}

/// How new work relates to the current queue.
#[derive(Debug, Clone, Copy, PartialEq, Eq, Structural)]
pub enum EnqueueOutcome {
    /// Idle: promote the queue head now.
    PromoteNow,
    /// Busy and below capacity: wait at the tail.
    Queued,
    /// Busy and at capacity: refuse.
    Overflow,
}

/// How a finished run drains the queue (by item kind and finish reason).
#[derive(Debug, Clone, Copy, PartialEq, Eq, Structural)]
pub enum DrainAction {
    /// Completed: pop the head and promote the next item.
    PopAndPromote,
    /// Failed agent task or cancelled run: clear the whole queue.
    DrainAll,
    /// Failed user message: pop the failed head, keep the rest queued, stop draining.
    HaltAndHold,
    /// Paused or parked: leave the queue alone.
    Noop,
}

/// How a run ended, for settling its queue.
#[derive(Debug, Clone, Copy, PartialEq, Eq, Structural)]
pub enum SettleOutcome {
    Completed,
    Failed,
    Cancelled,
    Rejected,
    Interrupted,
}

/// What the caller must do after an enqueue.
#[derive(Debug)]
pub enum EnqueueResult {
    /// Start a run for this item (already marked `Running` at the head).
    Promote(SessionTaskItem),
    /// Enqueued behind the running head.
    Queued,
    /// Refused: the queue is full.
    Overflow,
}

/// What the caller must do after a run finished.
#[derive(Debug)]
pub enum DrainNext {
    /// Start a run for this item (already marked `Running` at the head).
    Promote(SessionTaskItem),
    /// Nothing to run next.
    Idle,
}

// ---------------------------------------------------------------- model

/// The item with its status replaced.
pub open spec fn with_status(i: SessionTaskItem, st: TaskStatus) -> SessionTaskItem {
    SessionTaskItem { status: st, ..i }
}

/// The queue head is in flight.
pub open spec fn spec_head_running(s: Seq<SessionTaskItem>) -> bool {
    s.len() > 0 && s[0].status == TaskStatus::Running
}

/// Only the head may be `Running`.
pub open spec fn queue_wf(s: Seq<SessionTaskItem>) -> bool {
    forall|i: int| 1 <= i < s.len() ==> #[trigger] s[i].status == TaskStatus::Queued
}

/// Drop the head and mark the new head `Running`; the promoted item, if any.
pub open spec fn pop_and_promote(s: Seq<SessionTaskItem>) -> (Seq<SessionTaskItem>, Option<SessionTaskItem>) {
    let rest = s.drop_first();
    if rest.len() > 0 {
        let h = with_status(rest[0], TaskStatus::Running);
        (rest.update(0, h), Some(h))
    } else {
        (rest, None)
    }
}

pub open spec fn spec_cap_for(is_member: bool) -> usize {
    if is_member { MEMBER_CAP } else { MAIN_CAP }
}

pub open spec fn spec_reset_orphaned_head(s: Seq<SessionTaskItem>) -> (Seq<SessionTaskItem>, Option<SessionTaskItem>) {
    if !spec_head_running(s) {
        (s, None)
    } else {
        pop_and_promote(s)
    }
}

pub open spec fn spec_decide_enqueue(len: nat, cap: usize, is_busy: bool) -> EnqueueOutcome {
    if !is_busy {
        EnqueueOutcome::PromoteNow
    } else if len >= cap {
        EnqueueOutcome::Overflow
    } else {
        EnqueueOutcome::Queued
    }
}

pub open spec fn spec_drain_decision(kind: TaskKind, reason: Seq<char>) -> DrainAction {
    if reason == "paused"@ || reason == "parked"@ {
        DrainAction::Noop
    } else if reason == "completed"@ {
        DrainAction::PopAndPromote
    } else if reason == "failed"@ {
        match kind {
            TaskKind::AgentTask => DrainAction::DrainAll,
            TaskKind::UserMessage => DrainAction::HaltAndHold,
        }
    } else if reason == "cancelled"@ {
        DrainAction::DrainAll
    } else {
        DrainAction::Noop
    }
}

pub open spec fn spec_settle_queue(s: Seq<SessionTaskItem>, outcome: SettleOutcome) -> (Seq<SessionTaskItem>, Option<SessionTaskItem>) {
    if s.len() == 0 {
        (s, None)
    } else {
        match outcome {
            SettleOutcome::Completed => pop_and_promote(s),
            SettleOutcome::Failed => match s[0].kind {
                TaskKind::UserMessage => (s.drop_first(), None),
                TaskKind::AgentTask => (Seq::empty(), None),
            },
            SettleOutcome::Cancelled | SettleOutcome::Rejected => (Seq::empty(), None),
            SettleOutcome::Interrupted => if spec_head_running(s) {
                (s.drop_first(), None)
            } else {
                (s, None)
            },
        }
    }
}

/// The queue after an enqueue and the caller's next step.
pub open spec fn spec_enqueue(s: Seq<SessionTaskItem>, item: SessionTaskItem, cap: usize, is_busy: bool) -> (Seq<SessionTaskItem>, EnqueueResult) {
    match spec_decide_enqueue(s.len(), cap, is_busy) {
        EnqueueOutcome::Overflow => (s, EnqueueResult::Overflow),
        EnqueueOutcome::Queued => (s.push(with_status(item, TaskStatus::Queued)), EnqueueResult::Queued),
        EnqueueOutcome::PromoteNow => {
            let t = s.push(with_status(item, TaskStatus::Queued));
            let h = with_status(t[0], TaskStatus::Running);
            (t.update(0, h), EnqueueResult::Promote(h))
        },
    }
}

/// The queue after a run finished for `reason`, and the caller's next step.
pub open spec fn spec_drain(s: Seq<SessionTaskItem>, reason: Seq<char>) -> (Seq<SessionTaskItem>, DrainNext) {
    if s.len() == 0 {
        (s, DrainNext::Idle)
    } else {
        match spec_drain_decision(s[0].kind, reason) {
            DrainAction::Noop => (s, DrainNext::Idle),
            DrainAction::PopAndPromote => {
                let (t, p) = pop_and_promote(s);
                match p {
                    Some(h) => (t, DrainNext::Promote(h)),
                    None => (t, DrainNext::Idle),
                }
            },
            DrainAction::HaltAndHold => (s.drop_first(), DrainNext::Idle),
            DrainAction::DrainAll => (Seq::empty(), DrainNext::Idle),
        }
    }
}

// ---------------------------------------------------------------- operations

/// Capacity by session kind: tight for member sessions, wide for the main session.
pub fn cap_for(is_member: bool) -> (c: usize)
    ensures
        c == spec_cap_for(is_member),
{
    if is_member {
        MEMBER_CAP
    } else {
        MAIN_CAP
    }
}

/// Whether the queue head is in flight.
pub fn head_running(items: &[SessionTaskItem]) -> (r: bool)
    ensures
        r == spec_head_running(items@),
{
    items.len() > 0 && items[0].status == TaskStatus::Running
}

/// Drops the head of `items` and marks the new head `Running`, returning it.
fn pop_head_and_promote(items: &mut Vec<SessionTaskItem>) -> (r: Option<SessionTaskItem>)
    requires
        old(items).len() > 0,
    ensures
        (final(items)@, r) == pop_and_promote(old(items)@),
{
    let ghost rest = old(items)@.drop_first();
    items.remove(0);
    assert(items@ =~= rest);
    if items.len() > 0 {
        let mut next = items.remove(0);
        next.status = TaskStatus::Running;
        let promoted = next.clone();
        items.insert(0, next);
        assert(items@ =~= rest.update(0, with_status(rest[0], TaskStatus::Running)));
        Some(promoted)
    } else {
        None
    }
}

/// Startup recovery of a ghost `Running` head (left behind by a killed process): drop it
/// and promote the next item, which is returned; a non-running head is left alone.
pub fn reset_orphaned_head(items: &mut Vec<SessionTaskItem>) -> (r: Option<SessionTaskItem>)
    ensures
        (final(items)@, r) == spec_reset_orphaned_head(old(items)@),
{
    if !head_running(items) {
        return None;
    }
    pop_head_and_promote(items)
}

/// Enqueue decision: idle promotes, busy and full overflows, busy otherwise queues.
/// Busyness is the caller's run lock, never the persisted head status.
pub fn decide_enqueue(items: &[SessionTaskItem], cap: usize, is_busy: bool) -> (r: EnqueueOutcome)
    ensures
        r == spec_decide_enqueue(items@.len(), cap, is_busy),
{
    if !is_busy {
        EnqueueOutcome::PromoteNow
    } else if items.len() >= cap {
        EnqueueOutcome::Overflow
    } else {
        EnqueueOutcome::Queued
    }
}

/// Drain decision by the head's kind and the run's finish reason.
pub fn drain_decision(kind: TaskKind, reason: &str) -> (r: DrainAction)
    ensures
        r == spec_drain_decision(kind, reason@),
{
    if str_eq(reason, "paused") || str_eq(reason, "parked") {
        DrainAction::Noop
    } else if str_eq(reason, "completed") {
        DrainAction::PopAndPromote
    } else if str_eq(reason, "failed") {
        match kind {
            TaskKind::AgentTask => DrainAction::DrainAll,
            TaskKind::UserMessage => DrainAction::HaltAndHold,
        }
    } else if str_eq(reason, "cancelled") {
        DrainAction::DrainAll
    } else {
        DrainAction::Noop
    }
}

/// Settles the queue for a run's terminal outcome; returns the item to run next (only
/// `Completed` promotes one).
pub fn settle_queue(items: &mut Vec<SessionTaskItem>, outcome: SettleOutcome) -> (r: Option<SessionTaskItem>)
    ensures
        (final(items)@, r) == spec_settle_queue(old(items)@, outcome),
{
    if items.len() == 0 {
        return None;
    }
    match outcome {
        SettleOutcome::Completed => pop_head_and_promote(items),
        SettleOutcome::Failed => {
            match items[0].kind {
                TaskKind::UserMessage => {
                    items.remove(0);
                },
                TaskKind::AgentTask => {
                    items.clear();
                },
            }
            None
        },
        SettleOutcome::Cancelled | SettleOutcome::Rejected => {
            items.clear();
            None
        },
        SettleOutcome::Interrupted => {
            if head_running(items) {
                items.remove(0);
            }
            None
        },
    }
}

/// Removes the queued item with the given id; a running head or an unknown id is refused.
pub fn remove_queued(items: &mut Vec<SessionTaskItem>, item_id: &str) -> (r: bool)
    ensures
        r == exists|i: int|
            0 <= i < old(items)@.len() && old(items)@[i].item_id@ == item_id@
                && old(items)@[i].status == TaskStatus::Queued,
        r ==> {
            let p = first_queued_with_id(old(items)@, item_id@);
            &&& 0 <= p < old(items)@.len()
            &&& final(items)@ == old(items)@.remove(p)
        },
        !r ==> final(items)@ == old(items)@,
{
    let mut i: usize = 0;
    while i < items.len()
        invariant
            i <= items.len(),
            items@ == old(items)@,
            forall|j: int|
                0 <= j < i ==> !(#[trigger] items@[j].item_id@ == item_id@ && items@[j].status
                    == TaskStatus::Queued),
        decreases items.len() - i,
    {
        if str_eq(items[i].item_id.as_str(), item_id) && items[i].status == TaskStatus::Queued {
            proof {
                lemma_first_queued_with_id(items@, item_id@, i as int);
            }
            assert(old(items)@[i as int].item_id@ == item_id@);
            items.remove(i);
            return true;
        }
        i = i + 1;
    }
    false
}

/// Index of the first queued item carrying `id` (the length when there is none).
pub open spec fn first_queued_with_id(s: Seq<SessionTaskItem>, id: Seq<char>) -> int
    decreases s.len(),
{
    if s.len() == 0 {
        0
    } else if s[0].item_id@ == id && s[0].status == TaskStatus::Queued {
        0
    } else {
        1 + first_queued_with_id(s.drop_first(), id)
    }
}

proof fn lemma_first_queued_with_id(s: Seq<SessionTaskItem>, id: Seq<char>, i: int)
    requires
        0 <= i < s.len(),
        s[i].item_id@ == id && s[i].status == TaskStatus::Queued,
        forall|j: int| 0 <= j < i ==> !(#[trigger] s[j].item_id@ == id && s[j].status == TaskStatus::Queued),
    ensures
        first_queued_with_id(s, id) == i,
    decreases i,
{
    if i > 0 {
        assert(!(s[0].item_id@ == id && s[0].status == TaskStatus::Queued));
        assert forall|j: int| 0 <= j < i - 1 implies !(#[trigger] s.drop_first()[j].item_id@ == id
            && s.drop_first()[j].status == TaskStatus::Queued) by {
            assert(s.drop_first()[j] == s[j + 1]);
        }
        lemma_first_queued_with_id(s.drop_first(), id, i - 1);
    }
}

/// Enqueues `item` into the session's queue (the read-modify-write core of a store
/// enqueue): overflow leaves the queue as it is; otherwise the item is appended as
/// `Queued`, and when idle the head is promoted and returned.
pub fn enqueue_item(items: &mut Vec<SessionTaskItem>, item: SessionTaskItem, is_member: bool, is_busy: bool) -> (r: EnqueueResult)
    ensures
        (final(items)@, r) == spec_enqueue(old(items)@, item, spec_cap_for(is_member), is_busy),
{
    let mut item = item;
    match decide_enqueue(items.as_slice(), cap_for(is_member), is_busy) {
        EnqueueOutcome::Overflow => EnqueueResult::Overflow,
        EnqueueOutcome::Queued => {
            item.status = TaskStatus::Queued;
            items.push(item);
            EnqueueResult::Queued
        },
        EnqueueOutcome::PromoteNow => {
            item.status = TaskStatus::Queued;
            items.push(item);
            let mut head = items.remove(0);
            head.status = TaskStatus::Running;
            let promoted = head.clone();
            items.insert(0, head);
            EnqueueResult::Promote(promoted)
        },
    }
}

/// Drains the queue after a run finished for `reason` (the core of a store drain):
/// dispatches on the head's kind and the reason, and returns the item to run next.
pub fn drain_queue(items: &mut Vec<SessionTaskItem>, reason: &str) -> (r: DrainNext)
    ensures
        (final(items)@, r) == spec_drain(old(items)@, reason@),
{
    if items.len() == 0 {
        return DrainNext::Idle;
    }
    match drain_decision(items[0].kind, reason) {
        DrainAction::Noop => DrainNext::Idle,
        DrainAction::PopAndPromote => match pop_head_and_promote(items) {
            Some(h) => DrainNext::Promote(h),
            None => DrainNext::Idle,
        },
        DrainAction::HaltAndHold => {
            items.remove(0);
            DrainNext::Idle
        },
        DrainAction::DrainAll => {
            items.clear();
            DrainNext::Idle
        },
    }
}

// ---------------------------------------------------------------- laws

/// Settling a well-formed queue never leaves a `Running` head behind, except when a
/// completed run promotes its successor.
pub proof fn law_settle_never_leaves_running_head(s: Seq<SessionTaskItem>, outcome: SettleOutcome)
    requires
        queue_wf(s),
        !(outcome == SettleOutcome::Completed && s.len() > 1),
    ensures
        !spec_head_running(spec_settle_queue(s, outcome).0),
{
    if s.len() > 1 {
        assert(s[1].status == TaskStatus::Queued);
        assert(s.drop_first()[0] == s[1]);
    }
}

/// Settling keeps a well-formed queue well-formed.
pub proof fn law_settle_preserves_wf(s: Seq<SessionTaskItem>, outcome: SettleOutcome)
    requires
        queue_wf(s),
    ensures
        queue_wf(spec_settle_queue(s, outcome).0),
{
    let r = spec_settle_queue(s, outcome).0;
    if s.len() > 0 && r != s {
        assert forall|i: int| 1 <= i < r.len() implies #[trigger] r[i].status == TaskStatus::Queued by {
            assert(r.len() <= s.len() - 1);
            assert(s.drop_first()[i] == s[i + 1]);
        }
    }
}

/// A completed run pops its head and promotes the next item: the rest keeps its order,
/// the new head is `Running`, and it is the item handed back.
pub proof fn law_completed_pops_and_promotes(s: Seq<SessionTaskItem>)
    requires
        s.len() > 1,
    ensures
        ({
            let (t, p) = spec_settle_queue(s, SettleOutcome::Completed);
            &&& t.len() == s.len() - 1
            &&& spec_head_running(t)
            &&& p == Some(t[0])
            &&& t[0] == with_status(s[1], TaskStatus::Running)
            &&& forall|i: int| 1 <= i < t.len() ==> #[trigger] t[i] == s[i + 1]
        }),
{
}

/// Recovering a ghost running head is the same queue transition as completing it, and on
/// a queue holding only that head it agrees with settling an interrupted run.
pub proof fn law_orphan_reset_agrees_with_settle(s: Seq<SessionTaskItem>)
    requires
        spec_head_running(s),
    ensures
        spec_reset_orphaned_head(s) == spec_settle_queue(s, SettleOutcome::Completed),
        s.len() == 1 ==> spec_reset_orphaned_head(s).0 == spec_settle_queue(s, SettleOutcome::Interrupted).0,
{
}

/// Draining by finish reason agrees with settling by the matching outcome.
pub proof fn law_drain_agrees_with_settle(s: Seq<SessionTaskItem>)
    requires
        s.len() > 0,
    ensures
        spec_drain(s, "completed"@).0 == spec_settle_queue(s, SettleOutcome::Completed).0,
        spec_drain(s, "failed"@).0 == spec_settle_queue(s, SettleOutcome::Failed).0,
        spec_drain(s, "cancelled"@).0 == spec_settle_queue(s, SettleOutcome::Cancelled).0,
        spec_drain(s, "paused"@).0 == s,
        spec_drain(s, "parked"@).0 == s,
{
    reveal_strlit("completed");
    reveal_strlit("failed");
    reveal_strlit("cancelled");
    reveal_strlit("paused");
    reveal_strlit("parked");
    assert("completed"@.len() == 9 && "paused"@.len() == 6 && "parked"@.len() == 6);
    assert("failed"@.len() == 6 && "cancelled"@.len() == 9);
    assert("failed"@[0] != "paused"@[0] && "failed"@[0] != "parked"@[0]);
    assert("cancelled"@[1] != "completed"@[1]);
    assert("completed"@ != "paused"@ && "completed"@ != "parked"@);
    assert("failed"@ != "paused"@ && "failed"@ != "parked"@ && "failed"@ != "completed"@);
    assert(spec_drain_decision(s[0].kind, "completed"@) == DrainAction::PopAndPromote);
}

/// Enqueueing is FIFO: earlier items keep their place (only the head's status may change
/// on promotion), the new item goes last as `Queued`, and well-formedness is kept.
pub proof fn law_enqueue_is_fifo(s: Seq<SessionTaskItem>, item: SessionTaskItem, cap: usize, is_busy: bool)
    requires
        queue_wf(s),
    ensures
        ({
            let (t, r) = spec_enqueue(s, item, cap, is_busy);
            &&& queue_wf(t)
            &&& (r is Overflow <==> (is_busy && s.len() >= cap))
            &&& r is Overflow ==> t == s
            &&& !(r is Overflow) ==> {
                &&& t.len() == s.len() + 1
                &&& t[s.len() as int] == with_status(item, TaskStatus::Queued) || s.len() == 0
                &&& forall|i: int| 1 <= i < s.len() ==> #[trigger] t[i] == s[i]
                &&& s.len() > 0 ==> t[0] == s[0] || t[0] == with_status(s[0], TaskStatus::Running)
            }
            &&& (r matches EnqueueResult::Promote(h) ==> h == t[0] && spec_head_running(t))
        }),
{
}

/// Once a run is stopped (failed, cancelled, rejected or interrupted) and its lock is
/// released, the next message promotes the oldest remaining item instead of queueing.
pub proof fn law_settled_queue_promotes_next_message(
    s: Seq<SessionTaskItem>,
    outcome: SettleOutcome,
    item: SessionTaskItem,
    cap: usize,
)
    requires
        queue_wf(s),
        outcome != SettleOutcome::Completed,
    ensures
        ({
            let settled = spec_settle_queue(s, outcome).0;
            let (t, r) = spec_enqueue(settled, item, cap, false);
            &&& !spec_head_running(settled)
            &&& r == EnqueueResult::Promote(t[0])
            &&& settled.len() > 0 ==> t[0] == with_status(settled[0], TaskStatus::Running)
            &&& settled.len() == 0 ==> t[0] == with_status(item, TaskStatus::Running)
        }),
{
    law_settle_never_leaves_running_head(s, outcome);
}

/// Stopping is idempotent: settling a well-formed queue a second time for a stop
/// (cancelled, rejected or interrupted) leaves it as the first settling left it, so the
/// several stop paths that converge on one session never pop more than once.
pub proof fn law_stop_settling_is_idempotent(s: Seq<SessionTaskItem>, outcome: SettleOutcome)
    requires
        queue_wf(s),
        outcome == SettleOutcome::Cancelled || outcome == SettleOutcome::Rejected || outcome
            == SettleOutcome::Interrupted,
    ensures
        spec_settle_queue(spec_settle_queue(s, outcome).0, outcome).0 == spec_settle_queue(s, outcome).0,
{
    law_settle_never_leaves_running_head(s, outcome);
}

} // verus!
