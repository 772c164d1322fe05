use silicon_agent::team::import::{detect_package_kind, is_zip, normalize_rel, PackageKind};
use silicon_agent::team::model::{TeamMember, TeamRecord, TeamSource};
use silicon_agent::team::types::{member_look, team_detail, TeamSummary};

#[test]
fn legacy_plugin_source_maps_to_imported() {
    assert_eq!(TeamSource::from_str("plugin"), TeamSource::Imported);
    assert_eq!(TeamSource::from_str("imported"), TeamSource::Imported);
    assert_eq!(TeamSource::from_str("builtin"), TeamSource::Builtin);
    assert_eq!(TeamSource::from_str("whatever"), TeamSource::User);
}

#[test]
fn unknown_source_falls_back_to_user() {
    assert_eq!(TeamSource::from_str("nonsense"), TeamSource::User);
}

#[test]
fn team_source_round_trips() {
    for s in [TeamSource::User, TeamSource::Imported, TeamSource::Builtin] {
        assert_eq!(TeamSource::from_str(s.as_str()), s);
    }
}

fn member(name: &str) -> TeamMember {
    TeamMember {
        plugin_id: String::new(),
        team_id: "t1".into(),
        name: name.into(),
        role: "member".into(),
        display_name: None,
        profession: None,
        avatar: None,
    }
}

#[test]
fn summary_counts_members_without_lead() {
    let r = TeamRecord {
        id: "t1".into(),
        source: TeamSource::Imported,
        name: "research".into(),
        display_name: "调研团队".into(),
        description: "d".into(),
        lead: Some(member("coord")),
        members: vec![member("a"), member("b")],
        avatar: Some("x.png".into()),
        category: None,
        quick_prompts: vec!["go".into()],
        enabled: true,
        installed_at: "1".into(),
        updated_at: "2".into(),
        catalog_id: Some("cat".into()),
        group_id: None,
    };
    let s = TeamSummary::from_record(&r);
    assert_eq!(s.member_count, 2);
    assert_eq!(s.id, "t1");
    assert_eq!(s.source, TeamSource::Imported);
    assert_eq!(s.display_name, "调研团队");
    assert_eq!(s.avatar.as_deref(), Some("x.png"));
    assert_eq!(s.catalog_id.as_deref(), Some("cat"));
    assert_eq!(s.group_id, None);
}

#[test]
fn package_kind_order() {
    assert_eq!(detect_package_kind(true, true, false), PackageKind::Team);
    assert_eq!(detect_package_kind(false, true, true), PackageKind::Expert);
    assert_eq!(detect_package_kind(false, false, true), PackageKind::Team);
    assert_eq!(detect_package_kind(false, false, false), PackageKind::Plugin);
}

#[test]
fn relative_paths_are_normalized() {
    assert_eq!(normalize_rel("./agents/lead-x.md"), "agents/lead-x.md");
    assert_eq!(normalize_rel("  ././skills/kb "), "skills/kb");
    assert_eq!(normalize_rel("skills/kb"), "skills/kb");
    assert_eq!(normalize_rel("../up"), "../up");
}

#[test]
fn zip_is_detected_by_extension() {
    assert!(is_zip("pkg.zip"));
    assert!(is_zip("PKG.ZIP"));
    assert!(is_zip("a.tar.zip"));
    assert!(!is_zip("pkg.zip.bak"));
    assert!(!is_zip(".zip"));
    assert!(!is_zip("zip"));
    assert!(!is_zip("pkg."));
}

#[test]
fn team_detail_holds_summary_prompts_and_resolved_members() {
    let r = TeamRecord {
        id: "t1".into(),
        source: TeamSource::User,
        name: "research".into(),
        display_name: "调研团队".into(),
        description: "d".into(),
        lead: Some(member("coord")),
        members: vec![member("a"), member("b"), member("gone")],
        avatar: None,
        category: Some("work".into()),
        quick_prompts: vec!["做个调研".into()],
        enabled: false,
        installed_at: "1".into(),
        updated_at: "2".into(),
        catalog_id: None,
        group_id: Some("g".into()),
    };
    let d = team_detail(r, Some("coord"), vec!["a", "b"]);
    assert_eq!(d.team.member_count, 3);
    assert_eq!(d.team.name, "research");
    assert_eq!(d.team.category.as_deref(), Some("work"));
    assert_eq!(d.lead, Some("coord"));
    assert_eq!(d.members, vec!["a", "b"]);
    assert_eq!(d.quick_prompts, vec!["做个调研".to_string()]);
    assert!(d.skills.is_empty());
}

#[test]
fn member_look_prefers_the_team_s_own() {
    let mut m = member("a");
    m.display_name = Some("司远".into());
    let base = (Some("lead-x".to_string()), Some("总监".to_string()), Some("a.png".to_string()));
    assert_eq!(
        member_look(&m, base.0.clone(), base.1.clone(), base.2.clone()),
        (Some("司远".to_string()), Some("总监".to_string()), Some("a.png".to_string()))
    );
    assert_eq!(member_look(&member("b"), None, None, None), (None, None, None));
}
