use silicon_agent::json::Json;
use silicon_agent::team::import::{
    detect_package_kind, locate_expert_manifest, locate_manifest, locate_team_manifest, manifest_places, package_root,
    parse_expert_value, parse_team_manifest, parse_value, parse_value_as_team, PackageKind,
};

fn to_json(v: &serde_json::Value) -> Json {
    match v {
        serde_json::Value::Null => Json::Null,
        serde_json::Value::Bool(b) => Json::Bool(*b),
        serde_json::Value::Number(n) => match (n.as_u64(), n.as_i64()) {
            (Some(u), _) => Json::UInt(u),
            (None, Some(i)) => Json::Int(i),
            _ => Json::Float,
        },
        serde_json::Value::String(s) => Json::Str(s.clone()),
        serde_json::Value::Array(a) => Json::Array(a.iter().map(to_json).collect()),
        serde_json::Value::Object(o) => {
            Json::Object(o.iter().map(|(k, x)| (k.clone(), to_json(x))).collect())
        }
    }
}

fn parse(raw: &str) -> Json {
    to_json(&serde_json::from_str::<serde_json::Value>(raw).unwrap())
}

#[test]
fn parses_codebuddy_team_dialect() {
    let raw = r#"{
        "name": "ai-content-creator-team",
        "displayName": { "en": "Content Team", "zh": "内容创作专家团" },
        "displayDescription": { "zh": "多模态内容生产" },
        "expertType": "team",
        "agentName": "lead-x",
        "agents": ["./agents/lead-x.md", "./agents/copy.md"],
        "skills": ["./skills/kb"],
        "teamInfo": { "leadAgent": "lead-x", "memberAgents": ["copy"] },
        "members": [
            { "id": "lead-x", "name": {"zh":"司远"}, "profession": {"zh":"创意总监"}, "avatar": "a.png", "role": "lead" },
            { "id": "copy", "name": {"zh":"笔澜"}, "profession": {"zh":"文案"}, "role": "member" }
        ],
        "quickPrompts": [ {"zh":"做个情绪板"}, {"zh":"写条文案"} ],
        "defaultInitPrompt": {"zh":"帮我策划"}
    }"#;
    let t = parse_value(&parse(raw)).expect("parse");
    assert_eq!(t.name, "ai-content-creator-team");
    assert_eq!(t.display_name, "内容创作专家团");
    assert_eq!(t.description, "多模态内容生产");
    assert_eq!(t.agents, vec!["agents/lead-x.md", "agents/copy.md"]);
    assert_eq!(t.skills, vec!["skills/kb"]);
    assert_eq!(t.lead.as_deref(), Some("lead-x"));
    assert_eq!(t.member_names, vec!["copy"]);
    let copy = t.member_display.iter().rev().find(|(id, _)| id == "copy").unwrap();
    assert_eq!(copy.1.display_name.as_deref(), Some("笔澜"));
    assert_eq!(t.quick_prompts, vec!["做个情绪板", "写条文案", "帮我策划"]);
}

#[test]
fn parses_native_team_dialect() {
    let raw = r#"{
        "name": "research-team",
        "displayName": "调研团队",
        "kind": "team",
        "agents": ["agents/coord.md", "agents/r.md"],
        "team": { "lead": "coord", "members": ["r"] }
    }"#;
    let t = parse_value(&parse(raw)).expect("parse");
    assert_eq!(t.lead.as_deref(), Some("coord"));
    assert_eq!(t.member_names, vec!["r"]);
    assert_eq!(t.display_name, "调研团队");
}

#[test]
fn rejects_non_team_package() {
    let raw = r#"{ "name": "toolbox", "kind": "suite", "skills": ["skills/a"] }"#;
    assert!(parse_value(&parse(raw)).is_err());
}

#[test]
fn team_json_needs_no_marker_but_refuses_mcp() {
    let raw = r#"{ "name": "t", "agents": ["./agents/l.md"] }"#;
    let t = parse_value_as_team(&parse(raw)).unwrap();
    assert_eq!(t.display_name, "t");
    assert_eq!(t.description, "");
    assert_eq!(t.member_names, Vec::<String>::new());
    let with_mcp = r#"{"name":"t","team":{"lead":"l","members":[]},"mcpServers":{"figma":{"url":"https://mcp.figma.com/mcp"}}}"#;
    let err = parse_team_manifest(&parse(with_mcp)).err().unwrap();
    assert!(err.contains("mcpServers"));
    assert!(parse_team_manifest(&parse(raw)).is_ok());
}

#[test]
fn missing_name_and_i18n_fallbacks() {
    assert_eq!(
        parse_value(&parse(r#"{"kind":"team"}"#)).err().unwrap(),
        "plugin.json 缺少 name"
    );
    let raw = r#"{"name":" n ","kind":"team","displayName":{"fr":"  ","de":"Team"},
                 "description":"  d  ","quickPrompts":["a", "  ", {"en":"b"}],"defaultInitPrompt":"a"}"#;
    let t = parse_value(&parse(raw)).unwrap();
    assert_eq!(t.name, "n");
    assert_eq!(t.display_name, "Team");
    assert_eq!(t.description, "d");
    assert_eq!(t.quick_prompts, vec!["a", "b"]);
    assert_eq!(t.lead, None);
}

#[test]
fn expert_package_reading() {
    let raw = r#"{"agentName":"writer","name":"pkg","agents":["./agents/w.md","./agents/x.md"],
                 "skills":["./skills/s"],"profession":{"zh":"作家"},"avatar":"w.png"}"#;
    let e = parse_expert_value(&parse(raw), true).unwrap();
    assert_eq!(e.name, "writer");
    assert_eq!(e.display_name, "writer");
    assert_eq!(e.expert_rel, "agents/w.md");
    assert_eq!(e.skills, vec!["skills/s"]);
    assert_eq!(e.profession.as_deref(), Some("作家"));
    assert_eq!(e.avatar.as_deref(), Some("w.png"));
    let team = r#"{"name":"t","teamInfo":{},"agents":["a.md"]}"#;
    assert_eq!(
        parse_expert_value(&parse(team), false).err().unwrap(),
        "该包是团队结构，请从「团队」导入"
    );
    assert!(parse_expert_value(&parse(team), true).is_ok());
    assert_eq!(
        parse_expert_value(&parse(r#"{"name":"x"}"#), true).err().unwrap(),
        "该包未声明 agents，不是 agent 包"
    );
    assert_eq!(
        parse_expert_value(&parse(r#"{"agents":["a.md"]}"#), true).err().unwrap(),
        "plugin.json 缺少 agentName/name"
    );
}

fn strs(v: &[&str]) -> Vec<String> {
    v.iter().map(|x| x.to_string()).collect()
}

#[test]
fn manifests_are_found_at_their_places() {
    assert_eq!(manifest_places().len(), 6);
    assert_eq!(manifest_places()[0], "team.json");
    let dialects = strs(&[".qoder-plugin/plugin.json", ".codebuddy-plugin/plugin.json"]);
    assert_eq!(locate_manifest(&dialects), Some(".codebuddy-plugin/plugin.json"));
    assert_eq!(locate_manifest(&strs(&["plugin.json", ".codex-plugin/plugin.json"])), Some("plugin.json"));
    assert_eq!(locate_manifest(&strs(&["team.json"])), None);
    assert_eq!(locate_team_manifest(&strs(&["team.json"])), Some("team.json"));
    assert_eq!(locate_team_manifest(&dialects), None);
    assert_eq!(locate_expert_manifest(&strs(&["expert.json"])), Some("expert.json"));
    assert_eq!(locate_expert_manifest(&strs(&["team.json"])), None);
}

#[test]
fn the_package_is_the_root_or_its_only_subdirectory() {
    let none: Vec<String> = vec![];
    assert_eq!(package_root(&strs(&["expert.json"]), &vec![strs(&["team.json"])]), Ok(None));
    assert_eq!(package_root(&none, &vec![strs(&[".codex-plugin/plugin.json"])]), Ok(Some(0)));
    let missing = Err("未找到清单（team.json / expert.json / plugin.json，需在根目录或唯一顶层子目录内）".to_string());
    assert_eq!(package_root(&none, &vec![strs(&["team.json"]), none.clone()]), missing);
    assert_eq!(package_root(&none, &vec![none.clone()]), missing);
    assert_eq!(package_root(&none, &vec![]), missing);
}

/// The kind of a package holding `manifests` (place, text), read as the staging code does.
fn kind_of(manifests: &[(&str, &str)]) -> PackageKind {
    let present: Vec<String> = manifests.iter().map(|(p, _)| p.to_string()).collect();
    let has_team = locate_team_manifest(&present).is_some();
    let has_expert = locate_expert_manifest(&present).is_some();
    let dialect_team = !has_team
        && !has_expert
        && locate_manifest(&present)
            .and_then(|place| manifests.iter().find(|(p, _)| *p == place))
            .map(|(_, body)| parse_value(&parse(body)).is_ok())
            .unwrap_or(false);
    detect_package_kind(has_team, has_expert, dialect_team)
}

#[test]
fn detect_package_kind_by_manifest_filename() {
    assert_eq!(
        kind_of(&[("team.json", r#"{"name":"t","agents":["./agents/lead.md"],"team":{"lead":"lead","members":["m1"]}}"#)]),
        PackageKind::Team
    );
    assert_eq!(
        kind_of(&[("expert.json", r#"{"name":"e","agents":["./agents/e.md"],"skills":["./skills/s"]}"#)]),
        PackageKind::Expert
    );
    assert_eq!(
        kind_of(&[("plugin.json", r#"{"name":"c","skills":["./skills/a"],"mcpServers":{"x":{"url":"https://e/mcp"}}}"#)]),
        PackageKind::Plugin
    );
    assert_eq!(
        kind_of(&[("plugin.json", r#"{"name":"t2","teamInfo":{"leadAgent":"lead","memberAgents":["m1"]}}"#)]),
        PackageKind::Team
    );
    assert_eq!(
        kind_of(&[
            ("plugin.json", r#"{"name":"b"}"#),
            ("team.json", r#"{"name":"b","agents":["./agents/l.md"],"team":{"lead":"l","members":[]}}"#),
        ]),
        PackageKind::Team
    );
}

#[test]
fn team_json_rejects_mcp_servers() {
    let body = r#"{"name":"t","agents":["./agents/l.md"],"team":{"lead":"l","members":[]},
                "mcpServers":{"figma":{"url":"https://mcp.figma.com/mcp"}}}"#;
    let err = parse_team_manifest(&parse(body)).expect_err("team.json with mcpServers is refused");
    assert!(err.contains("mcpServers"), "{err}");
}
