use silicon_agent::run::coordinator::select_child_start_batch;
use silicon_agent::run::reconcile::{classify_reconcile, ReconcileAction, ReconcileInputs};
use silicon_agent::run::watchdog::sessions_to_reconcile;

fn base() -> ReconcileInputs {
    ReconcileInputs {
        is_live: false,
        any_child_live: false,
        awaiting_or_collect: false,
        stop_requested: false,
        pending_interaction: false,
        dangling_noninteraction: false,
        head_running: false,
    }
}

#[test]
fn live_session_is_never_touched() {
    let i = ReconcileInputs {
        is_live: true,
        head_running: true,
        ..base()
    };
    assert_eq!(classify_reconcile(i), ReconcileAction::Skip);
}

#[test]
fn parked_with_live_child_stays_parked() {
    let i = ReconcileInputs {
        awaiting_or_collect: true,
        any_child_live: true,
        ..base()
    };
    assert_eq!(classify_reconcile(i), ReconcileAction::Skip);
}

#[test]
fn parked_with_no_live_child_converges() {
    let i = ReconcileInputs {
        awaiting_or_collect: true,
        any_child_live: false,
        ..base()
    };
    assert_eq!(classify_reconcile(i), ReconcileAction::ConvergeParked);
}

#[test]
fn paused_waits_unless_stopped() {
    let i = ReconcileInputs {
        pending_interaction: true,
        ..base()
    };
    assert_eq!(classify_reconcile(i), ReconcileAction::Skip);
    let stopped = ReconcileInputs {
        pending_interaction: true,
        stop_requested: true,
        ..base()
    };
    assert_eq!(classify_reconcile(stopped), ReconcileAction::SettlePaused);
}

#[test]
fn orphan_head_or_dangling_converges() {
    assert_eq!(
        classify_reconcile(ReconcileInputs {
            head_running: true,
            ..base()
        }),
        ReconcileAction::ConvergeOrphan
    );
    assert_eq!(
        classify_reconcile(ReconcileInputs {
            dangling_noninteraction: true,
            ..base()
        }),
        ReconcileAction::ConvergeOrphan
    );
}

#[test]
fn clean_idle_is_noop() {
    assert_eq!(classify_reconcile(base()), ReconcileAction::Skip);
}

#[test]
fn dedups_stale_and_parked() {
    let r = sessions_to_reconcile(vec!["a".into(), "b".into()], vec!["b".into(), "c".into()]);
    assert_eq!(r, vec!["a".to_string(), "b".to_string(), "c".to_string()]);
}

#[test]
fn empty_inputs_empty_output() {
    assert!(sessions_to_reconcile(vec![], vec![]).is_empty());
}

#[test]
fn parked_orphans_dedup_among_themselves() {
    let r = sessions_to_reconcile(vec![], vec!["x".into(), "x".into(), "y".into()]);
    assert_eq!(r, vec!["x".to_string(), "y".to_string()]);
}

#[test]
fn child_start_batch_uses_all_children_in_parallel_mode() {
    let child_ids = vec!["c1".to_string(), "c2".to_string(), "c3".to_string()];
    assert_eq!(select_child_start_batch("parallel", child_ids.clone()), child_ids);
}

#[test]
fn child_start_batch_uses_only_first_child_in_serial_mode() {
    let child_ids = vec!["c1".to_string(), "c2".to_string(), "c3".to_string()];
    assert_eq!(select_child_start_batch("serial", child_ids), vec!["c1".to_string()]);
}

#[test]
fn child_start_batch_serial_with_no_children() {
    assert!(select_child_start_batch("serial", vec![]).is_empty());
}

#[test]
fn repeated_stale_sessions_are_listed_once() {
    let r = sessions_to_reconcile(vec!["a".into(), "a".into(), "b".into()], vec!["b".into(), "a".into(), "c".into()]);
    assert_eq!(r, vec!["a".to_string(), "b".to_string(), "c".to_string()]);
}
