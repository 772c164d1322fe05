use silicon_agent::json::Json;
use silicon_agent::run::coordinator::{
    after_child_result, child_outcome, child_result, child_run_reason, collect_step, collect_target,
    enqueue_answer, main_run_reason, plan_decision_result, retry_decision, settle_effects, settle_for_reason,
    should_suggest, AfterChild, CollectStep, EngineOutcome, FeedMarker,
};
use silicon_agent::run::coordinator::{has_running_child, next_pending_child, pending_child_queue, start_child_now, ChildSlot};
use silicon_agent::scheduler::runner::{execution_status, finish_notice, run_title, session_binding, TaskRunOutcome};
use silicon_agent::scheduler::types::ScheduledTask;
use silicon_agent::session::feed::{
    collect_summary, first_dangling_tool_call, pending_tool_name, tool_call_anchor, CollectChild,
};
use silicon_agent::session::task_queue::{drain_decision, DrainAction, EnqueueResult, SettleOutcome, TaskKind};
use silicon_agent::session::types::Message;

fn s(x: &str) -> Json {
    Json::Str(x.to_string())
}

fn obj(entries: Vec<(&str, Json)>) -> Json {
    Json::Object(entries.into_iter().map(|(k, v)| (k.to_string(), v)).collect())
}

#[test]
fn run_reasons() {
    assert_eq!(main_run_reason(EngineOutcome::Dispatched, false), "parked");
    assert_eq!(main_run_reason(EngineOutcome::Paused, true), "paused");
    assert_eq!(main_run_reason(EngineOutcome::Done, false), "completed");
    assert_eq!(main_run_reason(EngineOutcome::Done, true), "cancelled");
    assert_eq!(main_run_reason(EngineOutcome::Error, true), "failed");
    assert_eq!(child_run_reason(EngineOutcome::Error, true), "cancelled");
    assert_eq!(child_run_reason(EngineOutcome::Error, false), "failed");
    assert_eq!(child_run_reason(EngineOutcome::Paused, false), "paused");
    assert_eq!(child_outcome("completed"), "done");
    assert_eq!(child_outcome("failed"), "failed");
    assert_eq!(child_outcome("cancelled"), "cancelled");
}

#[test]
fn stopped_run_neither_continues_nor_suggests() {
    for o in [EngineOutcome::Dispatched, EngineOutcome::Paused, EngineOutcome::Done, EngineOutcome::Error] {
        let r = main_run_reason(o, true);
        assert_ne!(drain_decision(TaskKind::UserMessage, r), DrainAction::PopAndPromote);
        assert!(!should_suggest(r, false, true));
    }
    assert!(should_suggest("completed", false, false));
    assert!(!should_suggest("completed", true, false));
}

#[test]
fn child_retry_and_result() {
    assert_eq!(retry_decision("failed", 0), (true, 1));
    assert_eq!(retry_decision("failed", 1), (false, 2));
    assert_eq!(retry_decision("cancelled", 0), (false, 0));
    assert_eq!(retry_decision("completed", 0), (false, 0));
    assert_eq!(child_result("completed", Some("ok".into())), ("ok".to_string(), "done"));
    assert_eq!(child_result("completed", None), ("（子运行无文本产出）".to_string(), "done"));
    assert_eq!(child_result("failed", None).1, "failed");
    assert_eq!(child_result("cancelled", Some("  ".into())), ("（用户已取消该子代理，无产出）".to_string(), "failed"));
    assert_eq!(
        child_result("cancelled", Some("half".into())).0,
        "（用户已取消该子代理）此前进展：\nhalf"
    );
    assert_eq!(after_child_result(2, false), AfterChild::StartNextPending);
    assert_eq!(after_child_result(0, true), AfterChild::UnparkOnly);
    assert_eq!(after_child_result(0, false), AfterChild::ResumeParent);
}

#[test]
fn collect_advancing() {
    let v = obj(vec![("collectCallId", s("c1")), ("handles", Json::Array(vec![s("h1"), Json::UInt(3), s("h2")]))]);
    let (id, hs) = collect_target(&v).unwrap();
    assert_eq!(id, "c1");
    assert_eq!(hs, vec!["h1".to_string(), "h2".to_string()]);
    assert!(collect_target(&obj(vec![("collectCallId", s("c1")), ("handles", Json::Array(vec![]))])).is_none());
    assert!(collect_target(&obj(vec![("handles", Json::Array(vec![s("h")]))])).is_none());
    assert_eq!(collect_step(true, true, 1, false), CollectStep::ClearStopped);
    assert_eq!(collect_step(false, false, 0, false), CollectStep::Nothing);
    assert_eq!(collect_step(false, true, 1, false), CollectStep::Wait);
    assert_eq!(collect_step(false, true, 0, true), CollectStep::ClearOnly);
    assert_eq!(collect_step(false, true, 0, false), CollectStep::Deliver);
}

fn msg(role: &str, calls: Option<&str>) -> Message {
    Message {
        id: "m".into(),
        session_id: "s".into(),
        role: role.into(),
        content: String::new(),
        reasoning: None,
        tool_calls_json: calls.map(String::from),
        tool_call_id: None,
        tool_name: None,
        tool_status: None,
        compacted: false,
        created_at: "0".into(),
    }
}

#[test]
fn feed_reading() {
    let msgs = vec![msg("assistant", Some("[1]")), msg("assistant", Some("  ")), msg("tool", None), msg("user", None)];
    assert_eq!(tool_call_anchor(&msgs), Some(0));
    assert_eq!(tool_call_anchor(&vec![msg("user", None)]), None);
    let calls = Json::Array(vec![
        obj(vec![("id", s("")), ("name", s("skip"))]),
        obj(vec![("id", s("t1")), ("name", s("bash"))]),
        obj(vec![("id", s("t2")), ("name", s("write"))]),
    ]);
    assert_eq!(pending_tool_name(&calls, "t2").as_deref(), Some("write"));
    assert_eq!(pending_tool_name(&calls, "t9"), None);
    assert_eq!(pending_tool_name(&Json::Null, "t1"), None);
    assert_eq!(
        first_dangling_tool_call(&calls, &vec!["t1".to_string()]),
        Some(("t2".to_string(), "write".to_string()))
    );
    assert_eq!(first_dangling_tool_call(&calls, &vec!["t1".to_string(), "t2".to_string()]), None);
}

#[test]
fn collect_summary_blocks() {
    let handles = vec!["h1".to_string(), "h2".to_string(), "h3".to_string()];
    let children = vec![
        CollectChild::Finished {
            child_id: "c1".into(),
            expert_name: Some("研究员".into()),
            outcome: "failed".into(),
            last_text: None,
        },
        CollectChild::Missing,
        CollectChild::Running { child_id: "c3".into(), expert_name: None },
    ];
    let (text, done, running) = collect_summary(&handles, &children);
    assert_eq!(
        text,
        "【研究员】(失败)\n（无文本产出）\n\n---\n\n【handle=h2】未找到对应子代理。\n\n---\n\n【专家】仍在运行（handle=h3）。"
    );
    assert_eq!(done, vec!["c1".to_string()]);
    assert_eq!(running, vec!["c3".to_string()]);
}

fn task() -> ScheduledTask {
    ScheduledTask {
        id: "t".into(),
        name: "日报".into(),
        prompt: "p".into(),
        schedule_spec: "0 0 9 * * *".into(),
        schedule_display: None,
        working_dir: Some("/w".into()),
        project_id: None,
        agent_id: Some("a1".into()),
        role_kind: Some(" ".into()),
        role_id: Some("r".into()),
        permission_mode: None,
        model_id: None,
        enabled: true,
        next_run_at: None,
        last_run_at: None,
        created_at: 0,
        updated_at: 0,
        execution_count: 0,
        last_status: None,
    }
}

#[test]
fn task_runner_decisions() {
    assert_eq!(execution_status(TaskRunOutcome::NeedsUser), ("needs_attention", None));
    assert_eq!(execution_status(TaskRunOutcome::Finished), ("completed", None));
    assert_eq!(execution_status(TaskRunOutcome::Failed("x".into())), ("failed", Some("x".to_string())));
    assert_eq!(execution_status(TaskRunOutcome::Panicked), ("failed", Some("引擎线程 panic".to_string())));
    assert_eq!(finish_notice("日报", "completed"), ("定时任务完成", "✓ 日报 已完成".to_string()));
    assert_eq!(finish_notice("日报", "skipped"), ("定时任务", "日报：skipped".to_string()));
    assert_eq!(run_title("日报", "05-01 09:00"), "日报 · 05-01 09:00");
    let b = session_binding(&task());
    assert_eq!(b.project_id, None);
    assert_eq!(b.agent_id.as_deref(), Some("a1"));
    assert_eq!(b.role_kind, None);
    assert_eq!(b.working_dir.as_deref(), Some("/w"));
    let mut t = task();
    t.project_id = Some("p1".into());
    t.role_kind = Some("expert".into());
    let b = session_binding(&t);
    assert_eq!((b.project_id.as_deref(), b.agent_id, b.working_dir), (Some("p1"), None, None));
    assert_eq!((b.role_kind.as_deref(), b.role_id.as_deref()), (Some("expert"), Some("r")));
}

#[test]
fn settling_effects_per_outcome() {
    let e = settle_effects(SettleOutcome::Rejected);
    assert_eq!(e.settle_text, Some("用户拒绝了该操作，已停止会话。"));
    assert_eq!(e.marker, FeedMarker::Stopped);
    assert!(e.finished_event);
    let e = settle_effects(SettleOutcome::Cancelled);
    assert_eq!(e.settle_text, Some("会话已停止，未执行该操作。"));
    assert_eq!(e.marker, FeedMarker::Stopped);
    assert!(e.finished_event);
    let e = settle_effects(SettleOutcome::Interrupted);
    assert_eq!(e.settle_text, Some("上一轮因进程退出未完成。"));
    assert_eq!(e.marker, FeedMarker::Interrupted);
    assert!(e.finished_event);
    for o in [SettleOutcome::Completed, SettleOutcome::Failed] {
        let e = settle_effects(o);
        assert_eq!(e.settle_text, None);
        assert_eq!(e.marker, FeedMarker::NoMarker);
        assert!(!e.finished_event);
    }
}

#[test]
fn only_finished_runs_settle_through_the_end_of_run() {
    assert_eq!(settle_for_reason("completed"), Some(SettleOutcome::Completed));
    assert_eq!(settle_for_reason("failed"), Some(SettleOutcome::Failed));
    assert_eq!(settle_for_reason("cancelled"), None);
    assert_eq!(settle_for_reason("parked"), None);
    assert_eq!(settle_for_reason("paused"), None);
}

#[test]
fn enqueue_answers() {
    assert_eq!(enqueue_answer(&EnqueueResult::Queued), Ok(true));
    assert_eq!(enqueue_answer(&EnqueueResult::Overflow), Err("队列已满，请稍候再发送。".to_string()));
}

#[test]
fn plan_decisions() {
    let (text, mode) = plan_decision_result(true, Some("ignored".to_string()));
    assert_eq!(text, "[计划已批准] 用户已批准你的计划。现在已切换到执行模式，请按计划逐步实施。");
    assert_eq!(mode, Some("normal"));
    let (text, mode) = plan_decision_result(false, Some("再细化第二步".to_string()));
    assert_eq!(text, "[用户评论] 再细化第二步\n请保持计划模式，据此修订计划并再次调用 propose_plan。");
    assert_eq!(mode, None);
    let (text, _) = plan_decision_result(false, None);
    assert_eq!(text, "[用户评论] \n请保持计划模式，据此修订计划并再次调用 propose_plan。");
}

fn slot(id: &str, background: bool, running: bool, ended: bool, tc: Option<&str>, answered: bool) -> ChildSlot {
    ChildSlot { id: id.into(), background, running, ended, tool_call_id: tc.map(String::from), answered }
}

#[test]
fn serial_children_wait_for_their_turn() {
    let children = vec![
        slot("done", false, false, true, Some("t0"), true),
        slot("a", false, false, false, Some("t1"), false),
        slot("answered", false, false, false, Some("t2"), true),
        slot("bg", true, false, false, Some("t3"), true),
        slot("untied", false, false, false, None, false),
        slot("b", false, false, false, Some("t4"), false),
    ];
    assert_eq!(pending_child_queue(&children, false), vec!["a", "b"]);
    assert_eq!(pending_child_queue(&children, true), vec!["bg"]);
    assert!(!has_running_child(&children, false));
    assert_eq!(next_pending_child(true, &children, false).as_deref(), Some("a"));
    assert_eq!(next_pending_child(false, &children, false), None);
    assert!(start_child_now(true, "a", &children, false));
    assert!(!start_child_now(true, "b", &children, false));
    assert!(start_child_now(false, "b", &children, false));

    let mut busy = children.clone();
    busy[1].running = true;
    assert!(has_running_child(&busy, false));
    assert!(!has_running_child(&busy, true));
    assert_eq!(next_pending_child(true, &busy, false), None);
    assert!(!start_child_now(true, "b", &busy, false));
    assert_eq!(pending_child_queue(&busy, false), vec!["b"]);
    assert_eq!(next_pending_child(true, &busy, true).as_deref(), Some("bg"));
}
