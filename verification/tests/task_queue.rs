use silicon_agent::session::task_queue::{
    decide_enqueue, drain_queue, enqueue_item, head_running, remove_queued, reset_orphaned_head,
    settle_queue, DrainNext, EnqueueOutcome, EnqueueResult, SessionTaskItem, SettleOutcome,
    TaskKind, TaskStatus, MAIN_CAP,
};

fn item_k(id: &str, kind: TaskKind, status: TaskStatus) -> SessionTaskItem {
    SessionTaskItem {
        item_id: id.into(),
        kind,
        payload: id.into(),
        tool_call_id: None,
        parent_session_id: None,
        status,
        enqueued_at: "0".into(),
    }
}

fn running_then_queued(n: usize) -> Vec<SessionTaskItem> {
    let mut v = vec![item_k("h", TaskKind::UserMessage, TaskStatus::Running)];
    for i in 0..n {
        v.push(item_k(&format!("q{i}"), TaskKind::UserMessage, TaskStatus::Queued));
    }
    v
}

fn item(id: &str, status: TaskStatus) -> SessionTaskItem {
    SessionTaskItem {
        item_id: id.into(),
        kind: TaskKind::UserMessage,
        payload: id.into(),
        tool_call_id: None,
        parent_session_id: None,
        status,
        enqueued_at: "1".into(),
    }
}

#[test]
fn completed_pops_head_and_promotes_next() {
    let mut v = running_then_queued(2);
    let next = settle_queue(&mut v, SettleOutcome::Completed);
    assert_eq!(v.len(), 2);
    assert!(head_running(&v));
    assert_eq!(next.unwrap().item_id, v[0].item_id);
}

#[test]
fn completed_on_single_clears_queue() {
    let mut v = running_then_queued(0);
    let next = settle_queue(&mut v, SettleOutcome::Completed);
    assert!(v.is_empty());
    assert!(next.is_none());
    assert!(!head_running(&v));
}

#[test]
fn cancelled_and_rejected_clear_running_head_no_promote() {
    for oc in [SettleOutcome::Cancelled, SettleOutcome::Rejected] {
        let mut v = running_then_queued(2);
        let next = settle_queue(&mut v, oc);
        assert!(!head_running(&v), "{oc:?}: head must not stay Running");
        assert!(next.is_none(), "{oc:?}: terminal stop never auto-promotes");
    }
}

#[test]
fn interrupted_clears_running_head() {
    let mut v = running_then_queued(1);
    let next = settle_queue(&mut v, SettleOutcome::Interrupted);
    assert!(!head_running(&v));
    assert!(next.is_none());
}

#[test]
fn failed_user_message_halts_holds_rest_no_running_head() {
    let mut v = running_then_queued(2);
    let next = settle_queue(&mut v, SettleOutcome::Failed);
    assert!(!head_running(&v));
    assert!(next.is_none());
}

#[test]
fn enqueue_busy_source_is_explicit_not_head_status() {
    let cap = 10;
    let mut stuck = vec![item_k("h", TaskKind::UserMessage, TaskStatus::Running)];
    assert_eq!(decide_enqueue(&stuck, cap, false), EnqueueOutcome::PromoteNow);
    assert_eq!(decide_enqueue(&stuck, cap, true), EnqueueOutcome::Queued);
    for i in 0..cap {
        stuck.push(item_k(&format!("q{i}"), TaskKind::UserMessage, TaskStatus::Queued));
    }
    assert_eq!(decide_enqueue(&stuck, cap, true), EnqueueOutcome::Overflow);
    assert_eq!(decide_enqueue(&stuck, cap, false), EnqueueOutcome::PromoteNow);
}

#[test]
fn settled_head_lets_next_message_promote_not_queue() {
    let stop_outcomes = [
        SettleOutcome::Cancelled,
        SettleOutcome::Rejected,
        SettleOutcome::Interrupted,
    ];
    for oc in stop_outcomes {
        let mut items = vec![
            item_k("h", TaskKind::UserMessage, TaskStatus::Running),
            item_k("q0", TaskKind::UserMessage, TaskStatus::Queued),
        ];
        settle_queue(&mut items, oc);
        assert!(!head_running(&items), "{oc:?}: head must not stay Running after settling");
        let enqueue_decision = decide_enqueue(&items, MAIN_CAP, false);
        assert_eq!(
            enqueue_decision,
            EnqueueOutcome::PromoteNow,
            "{oc:?}: a new message after settling must promote"
        );
    }
    {
        let mut items = vec![
            item_k("h", TaskKind::UserMessage, TaskStatus::Running),
            item_k("q0", TaskKind::UserMessage, TaskStatus::Queued),
        ];
        settle_queue(&mut items, SettleOutcome::Failed);
        assert!(!head_running(&items), "Failed: head must not stay Running after settling");
        assert_eq!(
            decide_enqueue(&items, MAIN_CAP, false),
            EnqueueOutcome::PromoteNow,
            "Failed(halt-and-hold): lock released, a new message must promote"
        );
    }
    {
        let mut items_settle = vec![item_k("h", TaskKind::UserMessage, TaskStatus::Running)];
        settle_queue(&mut items_settle, SettleOutcome::Interrupted);
        let mut items_orphan = vec![item_k("h", TaskKind::UserMessage, TaskStatus::Running)];
        reset_orphaned_head(&mut items_orphan);
        assert_eq!(
            items_settle, items_orphan,
            "single head Interrupted: settle_queue and reset_orphaned_head must agree"
        );
    }
}

#[test]
fn invariant_terminal_outcome_never_leaves_running_head() {
    let kinds = [TaskKind::UserMessage, TaskKind::AgentTask];
    let outcomes = [
        SettleOutcome::Completed,
        SettleOutcome::Failed,
        SettleOutcome::Cancelled,
        SettleOutcome::Rejected,
        SettleOutcome::Interrupted,
    ];
    for n in 0..=4usize {
        for head_running_init in [true, false] {
            for k in kinds {
                for oc in outcomes {
                    let mut v: Vec<SessionTaskItem> = (0..n)
                        .map(|i| {
                            let st = if i == 0 && head_running_init {
                                TaskStatus::Running
                            } else {
                                TaskStatus::Queued
                            };
                            item_k(&format!("i{i}"), k, st)
                        })
                        .collect();
                    let had_more = v.len() > 1;
                    settle_queue(&mut v, oc);
                    if oc == SettleOutcome::Completed && had_more {
                        continue;
                    }
                    assert!(
                        !head_running(&v),
                        "invariant broken: n={n} head_running_init={head_running_init} kind={k:?} outcome={oc:?}"
                    );
                }
            }
        }
    }
}

#[test]
fn reset_orphaned_head_pops_and_promotes_next() {
    let mut items = vec![
        item("dead", TaskStatus::Running),
        item("next", TaskStatus::Queued),
        item("tail", TaskStatus::Queued),
    ];
    let promoted = reset_orphaned_head(&mut items);
    assert_eq!(promoted.as_ref().map(|i| i.item_id.as_str()), Some("next"));
    assert_eq!(items.len(), 2);
    assert_eq!(items[0].item_id, "next");
    assert_eq!(items[0].status, TaskStatus::Running);
    assert_eq!(items[1].status, TaskStatus::Queued);
}

#[test]
fn reset_orphaned_head_clears_when_only_head() {
    let mut items = vec![item("dead", TaskStatus::Running)];
    assert!(reset_orphaned_head(&mut items).is_none());
    assert!(items.is_empty());
}

#[test]
fn reset_orphaned_head_noop_when_head_not_running() {
    let mut items = vec![item("q", TaskStatus::Queued)];
    assert!(reset_orphaned_head(&mut items).is_none());
    assert_eq!(items.len(), 1);
}

#[test]
fn remove_queued_removes_only_queued_items() {
    let mut items = vec![
        item("h", TaskStatus::Running),
        item("a", TaskStatus::Queued),
        item("b", TaskStatus::Queued),
    ];
    assert!(!remove_queued(&mut items, "h"));
    assert!(!remove_queued(&mut items, "zzz"));
    assert!(remove_queued(&mut items, "a"));
    assert_eq!(items.len(), 2);
    assert_eq!(items[1].item_id, "b");
}

#[test]
fn enqueue_idle_promotes_oldest_head() {
    let mut items = vec![item("held", TaskStatus::Queued)];
    match enqueue_item(&mut items, item("new", TaskStatus::Running), false, false) {
        EnqueueResult::Promote(h) => assert_eq!(h.item_id, "held"),
        other => panic!("expected Promote, got {other:?}"),
    }
    assert_eq!(items[0].status, TaskStatus::Running);
    assert_eq!(items[1].item_id, "new");
    assert_eq!(items[1].status, TaskStatus::Queued);
}

#[test]
fn enqueue_busy_member_overflows_at_three() {
    let mut items = vec![
        item("h", TaskStatus::Running),
        item("a", TaskStatus::Queued),
        item("b", TaskStatus::Queued),
    ];
    assert!(matches!(
        enqueue_item(&mut items, item("c", TaskStatus::Queued), true, true),
        EnqueueResult::Overflow
    ));
    assert_eq!(items.len(), 3);
    assert!(matches!(
        enqueue_item(&mut items, item("c", TaskStatus::Queued), false, true),
        EnqueueResult::Queued
    ));
    assert_eq!(items.len(), 4);
}

#[test]
fn drain_reasons_follow_kind() {
    let mut v = running_then_queued(2);
    assert!(matches!(drain_queue(&mut v, "paused"), DrainNext::Idle));
    assert_eq!(v.len(), 3);
    match drain_queue(&mut v, "completed") {
        DrainNext::Promote(h) => assert_eq!(h.item_id, "q0"),
        other => panic!("expected Promote, got {other:?}"),
    }
    assert!(matches!(drain_queue(&mut v, "failed"), DrainNext::Idle));
    assert_eq!(v.len(), 1);
    assert_eq!(v[0].item_id, "q1");
    let mut agent = vec![
        item_k("a", TaskKind::AgentTask, TaskStatus::Running),
        item_k("b", TaskKind::AgentTask, TaskStatus::Queued),
    ];
    assert!(matches!(drain_queue(&mut agent, "failed"), DrainNext::Idle));
    assert!(agent.is_empty());
}

#[test]
fn stopping_twice_settles_once() {
    for outcome in [SettleOutcome::Interrupted, SettleOutcome::Cancelled, SettleOutcome::Rejected] {
        let mut q = running_then_queued(2);
        settle_queue(&mut q, outcome);
        let once: Vec<String> = q.iter().map(|i| i.item_id.clone()).collect();
        let again = settle_queue(&mut q, outcome);
        assert!(again.is_none());
        assert_eq!(q.iter().map(|i| i.item_id.clone()).collect::<Vec<_>>(), once);
    }
    let mut q = running_then_queued(2);
    settle_queue(&mut q, SettleOutcome::Interrupted);
    assert_eq!(q.len(), 2);
    assert!(!head_running(&q));
}
