//! Decisions of the run coordinator: how a run ended, what follows a child's end, when a
//! failed child is retried, and how a parent's collect advances. Threads, the engine and
//! the stores stay with the caller.

use vstd::prelude::*;

use crate::json::{jget, jstr, jview, jviews, lemma_jviews, Json, JsonView};
use crate::session::task_queue::{spec_drain_decision, DrainAction, EnqueueResult, SettleOutcome, TaskKind};
use crate::text::{chars_of, extend_chars, owned, str_eq, string_of, trim, trim_bounds, sviews};

verus! {

/// Children to start now: only the first in `"serial"` mode, all of them otherwise.
pub fn select_child_start_batch(mode: &str, child_ids: Vec<String>) -> (r: Vec<String>)
    ensures
        mode@ == "serial"@ ==> r@ == child_ids@.take(if child_ids@.len() > 0 { 1int } else { 0int }),
        mode@ != "serial"@ ==> r@ == child_ids@,
{
    if str_eq(mode, "serial") {
        let mut child_ids = child_ids;
        child_ids.truncate(1);
        child_ids
    } else {
        child_ids
    }
}


// ---------------------------------------------------------------- serial dispatch

/// What scheduling reads of one child of a parent: whether it runs in the background,
/// whether a thread runs it, whether its run has ended, the tool call that dispatched it,
/// and whether that call already has a result.
#[derive(Debug, Clone, PartialEq, Eq)]
pub struct ChildSlot {
    pub id: String,
    pub background: bool,
    pub running: bool,
    pub ended: bool,
    pub tool_call_id: Option<String>,
    pub answered: bool,
}

/// A child that waits for its turn: of the given kind (background or not), not ended, not
/// running, dispatched by a tool call, and (for a foreground child) whose call has no
/// result yet.
pub open spec fn waits_for_turn(c: ChildSlot, background: bool) -> bool {
    c.background == background && !c.ended && !c.running && c.tool_call_id is Some && (background
        || !c.answered)
}

pub open spec fn spec_pending_children(cs: Seq<ChildSlot>, background: bool) -> Seq<Seq<char>>
    decreases cs.len(),
{
    if cs.len() == 0 {
        Seq::empty()
    } else {
        let rest = spec_pending_children(cs.drop_last(), background);
        if waits_for_turn(cs.last(), background) {
            rest.push(cs.last().id@)
        } else {
            rest
        }
    }
}

/// The children of one kind waiting for their turn, in dispatch order.
pub fn pending_child_queue(children: &Vec<ChildSlot>, background: bool) -> (r: Vec<String>)
    ensures
        sviews(r@) == spec_pending_children(children@, background),
{
    let mut r: Vec<String> = Vec::new();
    let mut i: usize = 0;
    while i < children.len()
        invariant
            i <= children.len(),
            sviews(r@) == spec_pending_children(children@.take(i as int), background),
        decreases children.len() - i,
    {
        let c = &children[i];
        assert(children@.take(i + 1).drop_last() =~= children@.take(i as int));
        if c.background == background && !c.ended && !c.running && c.tool_call_id.is_some() && (background
            || !c.answered) {
            let ghost r0 = sviews(r@);
            r.push(c.id.clone());
            assert(sviews(r@) =~= r0.push(c.id@));
        }
        i = i + 1;
    }
    assert(children@.take(children.len() as int) =~= children@);
    r
}

pub open spec fn spec_has_running_child(cs: Seq<ChildSlot>, background: bool) -> bool {
    exists|i: int| 0 <= i < cs.len() && #[trigger] cs[i].running && cs[i].background == background
}

/// Whether a child of the given kind runs.
pub fn has_running_child(children: &Vec<ChildSlot>, background: bool) -> (r: bool)
    ensures
        r == spec_has_running_child(children@, background),
{
    let mut i: usize = 0;
    while i < children.len()
        invariant
            i <= children.len(),
            forall|j: int| 0 <= j < i ==> !(#[trigger] children@[j].running && children@[j].background == background),
        decreases children.len() - i,
    {
        if children[i].running && children[i].background == background {
            return true;
        }
        i = i + 1;
    }
    false
}

pub open spec fn spec_next_pending_child(serial: bool, cs: Seq<ChildSlot>, background: bool) -> Option<Seq<char>> {
    if !serial || spec_has_running_child(cs, background) || spec_pending_children(cs, background).len() == 0 {
        None
    } else {
        Some(spec_pending_children(cs, background)[0])
    }
}

/// The child to start when a child of the given kind ends: in serial mode, when none of
/// that kind runs any more, the first that waits for its turn; in parallel mode, none (all
/// were started at once).
pub fn next_pending_child(serial: bool, children: &Vec<ChildSlot>, background: bool) -> (r: Option<String>)
    ensures
        match r {
            Some(id) => spec_next_pending_child(serial, children@, background) == Some(id@),
            None => spec_next_pending_child(serial, children@, background) is None,
        },
{
    if !serial || has_running_child(children, background) {
        return None;
    }
    let mut q = pending_child_queue(children, background);
    if q.len() == 0 {
        None
    } else {
        assert(sviews(q@)[0] == q@[0]@);
        Some(q.swap_remove(0))
    }
}

pub open spec fn spec_start_child_now(serial: bool, child_id: Seq<char>, cs: Seq<ChildSlot>, background: bool) -> bool {
    !serial || (!spec_has_running_child(cs, background) && spec_pending_children(cs, background).len() > 0
        && spec_pending_children(cs, background)[0] == child_id)
}

/// Whether a child asked to start (of the given kind) starts now: always in parallel mode;
/// in serial mode only when no child of its kind runs and it heads the children waiting for
/// their turn. A child that does not start now is started later, when the one before it ends.
pub fn start_child_now(serial: bool, child_id: &str, children: &Vec<ChildSlot>, background: bool) -> (r: bool)
    ensures
        r == spec_start_child_now(serial, child_id@, children@, background),
{
    if !serial {
        return true;
    }
    if has_running_child(children, background) {
        return false;
    }
    let q = pending_child_queue(children, background);
    if q.len() > 0 {
        assert(sviews(q@)[0] == q@[0]@);
        str_eq(q[0].as_str(), child_id)
    } else {
        false
    }
}

/// In serial mode, asking a child to start and the end of the child before it agree: the
/// child that starts on request is the one the end of its predecessor would start, and no
/// child starts while another of its kind runs.
pub proof fn law_serial_children_start_one_at_a_time(child_id: Seq<char>, children: Seq<ChildSlot>, background: bool)
    ensures
        spec_start_child_now(true, child_id, children, background) <==> spec_next_pending_child(true, children, background)
            == Some(child_id),
        spec_start_child_now(true, child_id, children, background) ==> !spec_has_running_child(children, background),
{
}

/// What one engine resume returned.
#[derive(Debug, Clone, Copy, PartialEq, Eq, Structural)]
pub enum EngineOutcome {
    /// Paused on a batch of child runs (the parent parks).
    Dispatched,
    /// Paused on a permission, question or plan.
    Paused,
    /// Returned without anything pending.
    Done,
    /// Returned an error.
    Error,
}

/// The end reason of a top-level run. The stop flag is read after the engine returned: a
/// run stopped at a checkpoint also returns without anything pending.
pub open spec fn spec_main_run_reason(o: EngineOutcome, cancelled: bool) -> Seq<char> {
    match o {
        EngineOutcome::Dispatched => "parked"@,
        EngineOutcome::Paused => "paused"@,
        EngineOutcome::Done => if cancelled { "cancelled"@ } else { "completed"@ },
        EngineOutcome::Error => "failed"@,
    }
}

pub fn main_run_reason(o: EngineOutcome, cancelled: bool) -> (r: &'static str)
    ensures
        r@ == spec_main_run_reason(o, cancelled),
{
    match o {
        EngineOutcome::Dispatched => "parked",
        EngineOutcome::Paused => "paused",
        EngineOutcome::Done => if cancelled { "cancelled" } else { "completed" },
        EngineOutcome::Error => "failed",
    }
}

/// The end reason of a child run; a stopped child that errored counts as cancelled.
pub open spec fn spec_child_run_reason(o: EngineOutcome, cancelled: bool) -> Seq<char> {
    match o {
        EngineOutcome::Dispatched | EngineOutcome::Paused => "paused"@,
        EngineOutcome::Done => if cancelled { "cancelled"@ } else { "completed"@ },
        EngineOutcome::Error => if cancelled { "cancelled"@ } else { "failed"@ },
    }
}

pub fn child_run_reason(o: EngineOutcome, cancelled: bool) -> (r: &'static str)
    ensures
        r@ == spec_child_run_reason(o, cancelled),
{
    match o {
        EngineOutcome::Dispatched | EngineOutcome::Paused => "paused",
        EngineOutcome::Done => if cancelled { "cancelled" } else { "completed" },
        EngineOutcome::Error => if cancelled { "cancelled" } else { "failed" },
    }
}

/// A child whose stop flag is set never ends as completed or failed, so its parent never
/// goes on as if it had finished: a child that returned or failed after the stop ends
/// cancelled and is recorded so; one that stopped at an interaction stays paused. A child
/// without the flag is never recorded as cancelled.
pub proof fn law_stopped_child_is_not_completed(o: EngineOutcome)
    ensures
        spec_child_run_reason(o, true) != "completed"@,
        spec_child_run_reason(o, true) != "failed"@,
        (o is Done || o is Error) ==> spec_child_run_reason(o, true) == "cancelled"@
            && spec_child_outcome(spec_child_run_reason(o, true)) == "cancelled"@,
        spec_child_run_reason(o, false) != "cancelled"@,
{
    reveal_strlit("paused");
    reveal_strlit("cancelled");
    reveal_strlit("completed");
    reveal_strlit("failed");
    assert("paused"@.len() != "completed"@.len() && "failed"@.len() != "completed"@.len());
    assert("cancelled"@[1] != "completed"@[1]);
    assert("paused"@[0] != "failed"@[0] && "cancelled"@.len() != "failed"@.len());
    assert("paused"@.len() != "cancelled"@.len());
}

/// The outcome recorded on a child that ended for `reason`.
pub open spec fn spec_child_outcome(reason: Seq<char>) -> Seq<char> {
    if reason == "failed"@ {
        "failed"@
    } else if reason == "cancelled"@ {
        "cancelled"@
    } else {
        "done"@
    }
}

pub fn child_outcome(reason: &str) -> (r: &'static str)
    ensures
        r@ == spec_child_outcome(reason@),
{
    if str_eq(reason, "failed") {
        "failed"
    } else if str_eq(reason, "cancelled") {
        "cancelled"
    } else {
        "done"
    }
}

/// Next-step suggestions follow a completed local run that nobody stopped.
pub open spec fn spec_should_suggest(reason: Seq<char>, remote: bool, stop_flag: bool) -> bool {
    reason == "completed"@ && !remote && !stop_flag
}

pub fn should_suggest(reason: &str, remote: bool, stop_flag: bool) -> (r: bool)
    ensures
        r == spec_should_suggest(reason@, remote, stop_flag),
{
    str_eq(reason, "completed") && !remote && !stop_flag
}

/// A run the user stopped never lets its session queue move on to the next item, and
/// never triggers suggestions.
pub proof fn law_stopped_run_does_not_continue(o: EngineOutcome, kind: TaskKind, remote: bool)
    ensures
        spec_drain_decision(kind, spec_main_run_reason(o, true)) != DrainAction::PopAndPromote,
        !spec_should_suggest(spec_main_run_reason(o, true), remote, true),
        !spec_should_suggest(spec_main_run_reason(o, true), remote, false),
{
    reveal_strlit("parked");
    reveal_strlit("paused");
    reveal_strlit("cancelled");
    reveal_strlit("completed");
    reveal_strlit("failed");
    assert("parked"@.len() != "completed"@.len());
    assert("paused"@.len() != "completed"@.len());
    assert("failed"@.len() != "completed"@.len());
    assert("cancelled"@[1] != "completed"@[1]);
}

/// How many times a failed child is run again.
pub const MAX_CHILD_RETRIES: u32 = 1;

/// Whether a child that ended for `reason` is run again, given the attempts already
/// counted for its dispatch: only failures are retried, up to `MAX_CHILD_RETRIES` times.
/// The new count is returned (it only grows for failures).
pub fn retry_decision(reason: &str, attempts: u32) -> (r: (bool, u32))
    requires
        reason@ == "failed"@ ==> attempts < u32::MAX,
    ensures
        reason@ == "failed"@ ==> r == (attempts + 1 <= MAX_CHILD_RETRIES, (attempts + 1) as u32),
        reason@ != "failed"@ ==> r == (false, attempts),
{
    if str_eq(reason, "failed") {
        let next = attempts + 1;
        (next <= MAX_CHILD_RETRIES, next)
    } else {
        (false, attempts)
    }
}

/// The result written back to the parent's dispatch when a child ends: what the child
/// last said, or a note when it said nothing; a cancelled child says it was cancelled.
/// Failed and cancelled children are written as `failed`.
pub open spec fn spec_child_result(reason: Seq<char>, last_text: Option<Seq<char>>) -> (Seq<char>, Seq<char>) {
    let status = if reason == "failed"@ || reason == "cancelled"@ { "failed"@ } else { "done"@ };
    let summary = if reason == "cancelled"@ {
        let partial = match last_text {
            Some(t) => t,
            None => Seq::empty(),
        };
        if trim(partial).len() == 0 {
            "（用户已取消该子代理，无产出）"@
        } else {
            "（用户已取消该子代理）此前进展：\n"@ + partial
        }
    } else {
        match last_text {
            Some(t) => t,
            None => "（子运行无文本产出）"@,
        }
    };
    (summary, status)
}

pub fn child_result(reason: &str, last_text: Option<String>) -> (r: (String, &'static str))
    ensures
        (r.0@, r.1@) == spec_child_result(reason@, match last_text {
            Some(t) => Some(t@),
            None => None,
        }),
{
    let status = if str_eq(reason, "failed") || str_eq(reason, "cancelled") { "failed" } else { "done" };
    if str_eq(reason, "cancelled") {
        let partial = match last_text {
            Some(t) => t,
            None => String::new(),
        };
        let v = chars_of(partial.as_str());
        let (a, b) = trim_bounds(&v, 0, v.len());
        assert(v@.subrange(0, v@.len() as int) =~= v@);
        if a == b {
            (owned("（用户已取消该子代理，无产出）"), status)
        } else {
            let mut out = chars_of("（用户已取消该子代理）此前进展：\n");
            extend_chars(&mut out, &v);
            (string_of(&out), status)
        }
    } else {
        match last_text {
            Some(t) => (t, status),
            None => (owned("（子运行无文本产出）"), status),
        }
    }
}

/// What follows writing a foreground child's result into its parent.
#[derive(Debug, Clone, Copy, PartialEq, Eq, Structural)]
pub enum AfterChild {
    /// Other children of the batch have no result yet: start the next pending one (serial
    /// mode) and keep the parent parked.
    StartNextPending,
    /// Unpark the parent but leave it stopped: the user stopped it.
    UnparkOnly,
    /// Unpark the parent and resume its run.
    ResumeParent,
}

pub fn after_child_result(remaining: usize, parent_stopped: bool) -> (r: AfterChild)
    ensures
        r == (if remaining > 0 {
            AfterChild::StartNextPending
        } else if parent_stopped {
            AfterChild::UnparkOnly
        } else {
            AfterChild::ResumeParent
        }),
{
    if remaining > 0 {
        AfterChild::StartNextPending
    } else if parent_stopped {
        AfterChild::UnparkOnly
    } else {
        AfterChild::ResumeParent
    }
}

/// The target of a parked collect: the collect call id and the handles it waits for.
pub open spec fn str_elems(xs: Seq<JsonView>) -> Seq<Seq<char>>
    decreases xs.len(),
{
    if xs.len() == 0 {
        Seq::empty()
    } else {
        let rest = str_elems(xs.drop_last());
        match jstr(xs.last()) {
            Some(t) => rest.push(t),
            None => rest,
        }
    }
}

pub open spec fn collect_call_id(v: JsonView) -> Seq<char> {
    match jget(v, "collectCallId"@) {
        Some(x) => match jstr(x) {
            Some(s) => s,
            None => Seq::empty(),
        },
        None => Seq::empty(),
    }
}

pub open spec fn collect_handles(v: JsonView) -> Seq<Seq<char>> {
    match jget(v, "handles"@) {
        Some(JsonView::Array(xs)) => str_elems(xs),
        _ => Seq::empty(),
    }
}


/// Reads a parked collect state; nothing to do when its call id or its handles are missing.
pub fn collect_target(v: &Json) -> (r: Option<(String, Vec<String>)>)
    ensures
        match r {
            Some((id, hs)) => id@ == collect_call_id(v@) && sviews(hs@) == collect_handles(v@) && id@.len() > 0
                && hs@.len() > 0,
            None => collect_call_id(v@).len() == 0 || collect_handles(v@).len() == 0,
        },
{
    let id = match v.get("collectCallId") {
        Some(x) => match x.as_str() {
            Some(s) => owned(s),
            None => String::new(),
        },
        None => String::new(),
    };
    let mut hs: Vec<String> = Vec::new();
    match v.get("handles") {
        Some(x) => match x.as_array() {
            Some(xs) => {
                let ghost xv = jviews(xs@);
                proof {
                    lemma_jviews(xs@);
                }
                assert(xv.take(0) =~= Seq::<JsonView>::empty());
                let mut i: usize = 0;
                while i < xs.len()
                    invariant
                        i <= xs.len(),
                        xv == jviews(xs@),
                        xv.len() == xs.len(),
                        forall|q: int| 0 <= q < xs.len() ==> #[trigger] xv[q] == jview(xs@[q]),
                        sviews(hs@) == str_elems(xv.take(i as int)),
                    decreases xs.len() - i,
                {
                    assert(xv.take(i + 1).drop_last() =~= xv.take(i as int));
                    assert(xv.take(i + 1).last() == xv[i as int]);
                    if let Some(t) = xs[i].as_str() {
                        let ghost before = sviews(hs@);
                        let o = owned(t);
                        let ghost ov = o@;
                        hs.push(o);
                        assert(sviews(hs@) =~= before.push(ov));
                    }
                    i = i + 1;
                }
                assert(xv.take(xs.len() as int) =~= xv);
            },
            None => {},
        },
        None => {},
    }
    if id.as_str().unicode_len() == 0 || hs.len() == 0 {
        return None;
    }
    Some((id, hs))
}

/// The next step of a parked collect.
#[derive(Debug, Clone, Copy, PartialEq, Eq, Structural)]
pub enum CollectStep {
    /// The parent was stopped: clear the parked collect and the awaited child, stop.
    ClearStopped,
    /// Nothing is parked, or the parked state names no call or no handle.
    Nothing,
    /// Some awaited child still runs.
    Wait,
    /// The collect result is already written: only clear the parked collect.
    ClearOnly,
    /// Mark the finished children collected, write the summary as the collect result,
    /// unpark and resume the parent.
    Deliver,
}

pub fn collect_step(parent_stopped: bool, has_target: bool, running: usize, result_written: bool) -> (s: CollectStep)
    ensures
        s == (if parent_stopped {
            CollectStep::ClearStopped
        } else if !has_target {
            CollectStep::Nothing
        } else if running > 0 {
            CollectStep::Wait
        } else if result_written {
            CollectStep::ClearOnly
        } else {
            CollectStep::Deliver
        }),
{
    if parent_stopped {
        CollectStep::ClearStopped
    } else if !has_target {
        CollectStep::Nothing
    } else if running > 0 {
        CollectStep::Wait
    } else if result_written {
        CollectStep::ClearOnly
    } else {
        CollectStep::Deliver
    }
}


// ---------------------------------------------------------------- settling a session

/// The marker a settled session gets in its feed.
#[derive(Debug, Clone, Copy, PartialEq, Eq, Structural)]
pub enum FeedMarker {
    /// "Stopped by the user".
    Stopped,
    /// "The last round did not finish because the process exited".
    Interrupted,
    NoMarker,
}

/// What settling a session does besides settling its queue: the result written for a
/// dangling tool call (stops only), the marker, and whether a `run_finished(cancelled)`
/// event is sent (stops only; a finished run sent its own).
pub struct SettleEffects {
    pub settle_text: Option<&'static str>,
    pub marker: FeedMarker,
    pub finished_event: bool,
}

pub fn settle_effects(outcome: SettleOutcome) -> (e: SettleEffects)
    ensures
        match outcome {
            SettleOutcome::Rejected => (e.settle_text matches Some(t) && t@ == "用户拒绝了该操作，已停止会话。"@)
                && e.marker == FeedMarker::Stopped && e.finished_event,
            SettleOutcome::Cancelled => (e.settle_text matches Some(t) && t@ == "会话已停止，未执行该操作。"@)
                && e.marker == FeedMarker::Stopped && e.finished_event,
            SettleOutcome::Interrupted => (e.settle_text matches Some(t) && t@ == "上一轮因进程退出未完成。"@)
                && e.marker == FeedMarker::Interrupted && e.finished_event,
            SettleOutcome::Completed | SettleOutcome::Failed => e.settle_text is None && e.marker == FeedMarker::NoMarker
                && !e.finished_event,
        },
{
    match outcome {
        SettleOutcome::Rejected => SettleEffects {
            settle_text: Some("用户拒绝了该操作，已停止会话。"),
            marker: FeedMarker::Stopped,
            finished_event: true,
        },
        SettleOutcome::Cancelled => SettleEffects {
            settle_text: Some("会话已停止，未执行该操作。"),
            marker: FeedMarker::Stopped,
            finished_event: true,
        },
        SettleOutcome::Interrupted => SettleEffects {
            settle_text: Some("上一轮因进程退出未完成。"),
            marker: FeedMarker::Interrupted,
            finished_event: true,
        },
        SettleOutcome::Completed | SettleOutcome::Failed => SettleEffects {
            settle_text: None,
            marker: FeedMarker::NoMarker,
            finished_event: false,
        },
    }
}

/// Which end reasons are settled through the single settling point: completed and failed
/// runs; a cancelled run already sent its own event and marker, and a paused or parked
/// one leaves its queue alone.
pub fn settle_for_reason(reason: &str) -> (r: Option<SettleOutcome>)
    ensures
        r == (if reason@ == "completed"@ {
            Some(SettleOutcome::Completed)
        } else if reason@ == "failed"@ {
            Some(SettleOutcome::Failed)
        } else {
            None
        }),
{
    if str_eq(reason, "completed") {
        Some(SettleOutcome::Completed)
    } else if str_eq(reason, "failed") {
        Some(SettleOutcome::Failed)
    } else {
        None
    }
}

/// The answer to a user message after enqueueing it: `true` when it waits in the queue,
/// `false` when it starts now; a full queue refuses it.
pub fn enqueue_answer(r: &EnqueueResult) -> (a: Result<bool, String>)
    ensures
        match r {
            EnqueueResult::Overflow => a matches Err(e) && e@ == "队列已满，请稍候再发送。"@,
            EnqueueResult::Queued => a == Ok::<bool, String>(true),
            EnqueueResult::Promote(_) => a == Ok::<bool, String>(false),
        },
{
    match r {
        EnqueueResult::Overflow => Err(owned("队列已满，请稍候再发送。")),
        EnqueueResult::Queued => Ok(true),
        EnqueueResult::Promote(_) => Ok(false),
    }
}

/// The tool result written for a plan decision, and the working mode the session switches
/// to: approval returns to normal mode; a rejection carries the user's comment and keeps
/// the plan mode.
pub fn plan_decision_result(approved: bool, comment: Option<String>) -> (r: (String, Option<&'static str>))
    ensures
        approved ==> r.0@ == "[计划已批准] 用户已批准你的计划。现在已切换到执行模式，请按计划逐步实施。"@
            && (r.1 matches Some(m) && m@ == "normal"@),
        !approved ==> r.0@ == "[用户评论] "@ + (match comment {
            Some(c) => c@,
            None => Seq::empty(),
        }) + "\n请保持计划模式，据此修订计划并再次调用 propose_plan。"@ && r.1 is None,
{
    if approved {
        (owned("[计划已批准] 用户已批准你的计划。现在已切换到执行模式，请按计划逐步实施。"), Some("normal"))
    } else {
        let c = match comment {
            Some(c) => c,
            None => String::new(),
        };
        let mut out = chars_of("[用户评论] ");
        extend_chars(&mut out, &chars_of(c.as_str()));
        extend_chars(&mut out, &chars_of("\n请保持计划模式，据此修订计划并再次调用 propose_plan。"));
        (string_of(&out), None)
    }
}

/// A stopped session does not come back to life through a decision on a card still shown:
/// the decision settles its tool call with this text instead of resuming the run.
pub const STOPPED_DECISION_TEXT: &'static str = "会话已停止，未执行该操作。";

/// The text written when the user rejects a permission: the session stops there.
pub const PERMISSION_REJECTED_TEXT: &'static str = "用户拒绝了该操作，已停止会话。";

/// The text written when the user cancels a question: the session stops there.
pub const ASK_CANCELLED_TEXT: &'static str = "用户取消了本次提问并停止了会话。";

} // verus!
