use silicon_agent::team::import::{ImportedTeam, MemberDisplay};
use silicon_agent::team::service::{check_import_name, check_new_team, imported_roster, model_tier};

#[test]
fn team_names_are_checked() {
    assert_eq!(check_new_team("  团队 ", true, 0), Ok("团队".to_string()));
    assert_eq!(check_new_team("   ", true, 1), Err("团队 name 不能为空".to_string()));
    assert_eq!(check_new_team("a/b", true, 1), Err("团队 name 含非法字符".to_string()));
    assert_eq!(check_new_team("a..b", true, 1), Err("团队 name 含非法字符".to_string()));
    assert_eq!(check_new_team("ok", false, 0), Err("团队至少要有一名成员或主理人".to_string()));
    assert!(check_import_name("team-1").is_ok());
    assert_eq!(check_import_name("..\\x"), Err("团队 name 含非法字符".to_string()));
    assert_eq!(model_tier("main"), "main");
    assert_eq!(model_tier("MAIN"), "aux");
}

fn display(name: &str) -> MemberDisplay {
    MemberDisplay { display_name: Some(name.into()), profession: None, avatar: Some("a.png".into()) }
}

#[test]
fn imported_roster_keeps_indexed_members_without_lead() {
    let team = ImportedTeam {
        name: "t".into(),
        display_name: "t".into(),
        description: String::new(),
        agents: vec![],
        skills: vec![],
        lead: Some("lead-x".into()),
        member_names: vec!["copy".into(), "lead-x".into(), "ghost".into(), "art".into()],
        member_display: vec![
            ("copy".into(), display("旧名")),
            ("lead-x".into(), display("司远")),
            ("copy".into(), display("笔澜")),
        ],
        quick_prompts: vec![],
    };
    let indexed = vec!["lead-x".to_string(), "copy".to_string(), "art".to_string()];
    let (lead, members) = imported_roster(&team, &indexed, "team1");
    let lead = lead.unwrap();
    assert_eq!((lead.name.as_str(), lead.role.as_str(), lead.team_id.as_str()), ("lead-x", "lead", "team1"));
    assert_eq!(lead.display_name.as_deref(), Some("司远"));
    let names: Vec<&str> = members.iter().map(|m| m.name.as_str()).collect();
    assert_eq!(names, vec!["copy", "art"]);
    assert_eq!(members[0].display_name.as_deref(), Some("笔澜"));
    assert_eq!(members[0].role, "member");
    assert_eq!(members[0].plugin_id, "");
    assert_eq!(members[1].display_name, None);
    assert!(lead.plugin_id.is_empty() || lead.team_id.is_empty());
    assert!(members.iter().all(|m| m.plugin_id.is_empty() || m.team_id.is_empty()));
    let (no_lead, _) = imported_roster(&team, &vec!["copy".to_string()], "team1");
    assert!(no_lead.is_none());
}
