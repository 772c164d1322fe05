use silicon_agent::session::permission::{
    needs_confirmation, resolve_effective_mode, PermissionMode, RiskLevel,
};

#[test]
fn parse_falls_back_to_manual() {
    assert_eq!(PermissionMode::parse("auto"), PermissionMode::Auto);
    assert_eq!(PermissionMode::parse("full"), PermissionMode::Full);
    assert_eq!(PermissionMode::parse("manual"), PermissionMode::Manual);
    assert_eq!(PermissionMode::parse("garbage"), PermissionMode::Manual);
    assert_eq!(PermissionMode::parse(""), PermissionMode::Manual);
}

#[test]
fn mode_spelling_round_trips() {
    for m in [PermissionMode::Manual, PermissionMode::Auto, PermissionMode::Full] {
        assert_eq!(PermissionMode::parse(m.as_str()), m);
    }
}

#[test]
fn manual_confirms_low_and_high_until_granted() {
    let m = PermissionMode::Manual;
    assert!(needs_confirmation(RiskLevel::Low, m, false));
    assert!(needs_confirmation(RiskLevel::High, m, false));
    assert!(!needs_confirmation(RiskLevel::Safe, m, false));
    assert!(!needs_confirmation(RiskLevel::Low, m, true));
}

#[test]
fn auto_runs_low_confirms_high() {
    let a = PermissionMode::Auto;
    assert!(!needs_confirmation(RiskLevel::Low, a, false));
    assert!(needs_confirmation(RiskLevel::High, a, false));
    assert!(!needs_confirmation(RiskLevel::High, a, true));
    assert!(!needs_confirmation(RiskLevel::Safe, a, false));
}

#[test]
fn full_confirms_nothing() {
    let f = PermissionMode::Full;
    assert!(!needs_confirmation(RiskLevel::Low, f, false));
    assert!(!needs_confirmation(RiskLevel::High, f, false));
    assert!(!needs_confirmation(RiskLevel::Safe, f, false));
}

#[test]
fn effective_mode_session_overrides_global() {
    assert_eq!(resolve_effective_mode(None, Some("manual".into())), "manual");
    assert_eq!(resolve_effective_mode(None, Some("auto".into())), "auto");
    assert_eq!(resolve_effective_mode(Some("full".into()), Some("auto".into())), "full");
}

#[test]
fn effective_mode_without_app_settings_falls_back_to_manual() {
    assert_eq!(resolve_effective_mode(None, None), "manual");
    assert_eq!(resolve_effective_mode(Some("auto".into()), None), "auto");
}
