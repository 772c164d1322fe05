use silicon_agent::skill::frontmatter::Frontmatter;
use silicon_agent::skill::model::{SkillRecord, SkillSource};
use silicon_agent::skill::service::{
    base64_encode, binary_preview, check_uninstall, image_mime, image_preview, listed_on_skills_page, locate_skill_root,
    reference_listing, reference_path, reference_text, MAX_REFERENCE_BYTES,
    orphan_ids, plan_install, preview_kind, scanned_record, substitute_vars, text_preview,
    to_ascii_lowercase, validate_skill_name, PreviewKind,
};
use silicon_agent::skill::types::SkillSummary;
use silicon_agent::text::{sort_strings, str_le};

fn record(id: &str, name: &str, source: SkillSource) -> SkillRecord {
    SkillRecord {
        id: id.into(),
        source,
        name: name.into(),
        description: "d".into(),
        dir_name: name.into(),
        enabled: false,
        installed_at: "100".into(),
        updated_at: "100".into(),
        plugin_id: None,
        team_id: None,
        expert_id: None,
        user_invocable: true,
        argument_hint: None,
        group_id: Some("g".into()),
    }
}

fn fm(name: &str) -> Frontmatter {
    Frontmatter {
        name: name.into(),
        description: "new desc".into(),
        user_invocable: false,
        argument_hint: Some("hint".into()),
        version: None,
    }
}

#[test]
fn skill_source_round_trips_and_falls_back_to_user() {
    for s in [SkillSource::Builtin, SkillSource::User] {
        assert_eq!(SkillSource::from_str(s.as_str()), s);
    }
    assert_eq!(SkillSource::Builtin.as_str(), "builtin");
    assert_eq!(SkillSource::User.as_str(), "user");
    assert_eq!(SkillSource::from_str("plugin"), SkillSource::User);
}

#[test]
fn summary_copies_the_record_fields() {
    let s: SkillSummary = record("id1", "n", SkillSource::Builtin).into();
    assert_eq!(s.id, "id1");
    assert_eq!(s.source, SkillSource::Builtin);
    assert_eq!(s.name, "n");
    assert!(!s.enabled);
    assert_eq!(s.group_id.as_deref(), Some("g"));
}

#[test]
fn skill_names_that_escape_are_refused() {
    assert!(validate_skill_name("pdf").is_ok());
    assert!(validate_skill_name("a.b").is_ok());
    for bad in ["", ".", "..", "../evil", "a/b", "a\\b"] {
        assert_eq!(validate_skill_name(bad), Err(format!("非法技能名：{bad}")));
    }
}

#[test]
fn template_variables_are_filled() {
    let out = substitute_vars(
        "run node {{.SkillDir}}/x.js in ~/{{.DataDirName}}; {{.SkillDir}}",
        "/home/u/skills/skd",
    );
    assert_eq!(out, "run node /home/u/skills/skd/x.js in ~/.siliconagent; /home/u/skills/skd");
    assert_eq!(substitute_vars("plain", "/d"), "plain");
    assert_eq!(substitute_vars("{{.SkillDir", "/d"), "{{.SkillDir");
}

#[test]
fn base64_known_vectors() {
    assert_eq!(base64_encode(b""), "");
    assert_eq!(base64_encode(b"M"), "TQ==");
    assert_eq!(base64_encode(b"Ma"), "TWE=");
    assert_eq!(base64_encode(b"Man"), "TWFu");
    assert_eq!(base64_encode(b"hello world"), "aGVsbG8gd29ybGQ=");
    assert_eq!(base64_encode(&[0xff, 0xfe, 0xfd]), "//79");
}

#[test]
fn preview_kind_by_extension_and_size() {
    assert_eq!(preview_kind("PNG", 10), PreviewKind::Image);
    assert_eq!(preview_kind("png", 5 * 1024 * 1024 + 1), PreviewKind::Binary);
    assert_eq!(preview_kind("md", 10), PreviewKind::Markdown);
    assert_eq!(preview_kind("Markdown", 10), PreviewKind::Markdown);
    assert_eq!(preview_kind("rs", 512 * 1024), PreviewKind::Text);
    assert_eq!(preview_kind("rs", 512 * 1024 + 1), PreviewKind::Binary);
    assert_eq!(preview_kind("exe", 1), PreviewKind::Binary);
    assert_eq!(preview_kind("", 1), PreviewKind::Binary);
}

#[test]
fn previews_carry_their_payload() {
    assert_eq!(image_mime("jpeg"), "image/jpeg");
    assert_eq!(image_mime("svg"), "image/svg+xml");
    assert_eq!(image_mime("tiff"), "application/octet-stream");
    let p = image_preview("PNG", b"Man", "a.png");
    assert_eq!(p.kind, "image");
    assert_eq!(p.data_url.as_deref(), Some("data:image/png;base64,TWFu"));
    assert_eq!(p.text, None);
    assert_eq!(p.name, "a.png");
    let t = text_preview(true, "# hi".into(), "r.md");
    assert_eq!((t.kind.as_str(), t.text.as_deref()), ("markdown", Some("# hi")));
    assert_eq!(text_preview(false, "x".into(), "r.txt").kind, "text");
    let b = binary_preview("x.bin");
    assert_eq!((b.kind.as_str(), b.text, b.data_url), ("binary", None, None));
    assert_eq!(to_ascii_lowercase("AbÇ1"), "abÇ1");
}

#[test]
fn install_refusals() {
    let builtin = record("b", "docx", SkillSource::Builtin);
    assert_eq!(
        plan_install(Some(builtin), true, true, fm("docx"), "200".into(), "new".into()).err(),
        Some("内置技能不可覆盖".to_string())
    );
    let user = record("u", "mine", SkillSource::User);
    assert_eq!(
        plan_install(Some(user), false, true, fm("mine"), "200".into(), "new".into()).err(),
        Some("技能名已存在（如需更新请允许覆盖）".to_string())
    );
    assert_eq!(
        plan_install(None, true, true, fm("mine"), "200".into(), "new".into()).err(),
        Some("技能名已存在".to_string())
    );
}

#[test]
fn install_update_keeps_identity_fresh_install_starts_enabled() {
    let user = record("u", "mine", SkillSource::User);
    let r = plan_install(Some(user), true, true, fm("mine"), "200".into(), "new".into()).unwrap();
    assert_eq!((r.id.as_str(), r.enabled, r.installed_at.as_str()), ("u", false, "100"));
    assert_eq!((r.updated_at.as_str(), r.description.as_str()), ("200", "new desc"));
    assert_eq!(r.group_id.as_deref(), Some("g"));
    assert_eq!(r.argument_hint.as_deref(), Some("hint"));
    let f = plan_install(None, false, false, fm("fresh"), "300".into(), "n1".into()).unwrap();
    assert_eq!((f.id.as_str(), f.enabled, f.installed_at.as_str()), ("n1", true, "300"));
    assert_eq!((f.name.as_str(), f.dir_name.as_str()), ("fresh", "fresh"));
    assert_eq!(f.source, SkillSource::User);
    assert_eq!(f.group_id, None);
}

#[test]
fn sync_marks_builtins_and_finds_orphans() {
    let names = vec!["docx".to_string(), "find-skills".to_string()];
    let r = scanned_record(fm("docx"), "docx".into(), &names, "i".into(), "5".into());
    assert_eq!(r.source, SkillSource::Builtin);
    assert!(r.enabled);
    let u = scanned_record(fm("mine"), "mine".into(), &names, "i".into(), "5".into());
    assert_eq!(u.source, SkillSource::User);

    let mut plugin = record("p", "gone-plugin", SkillSource::User);
    plugin.plugin_id = Some("plug".into());
    let mut team = record("t", "gone-team", SkillSource::User);
    team.team_id = Some("team".into());
    let recs = vec![
        record("a", "kept", SkillSource::User),
        record("b", "gone", SkillSource::User),
        plugin,
        team,
        record("c", "gone2", SkillSource::Builtin),
    ];
    let seen = vec!["kept".to_string()];
    assert_eq!(orphan_ids(&recs, &seen), vec!["b".to_string(), "c".to_string()]);
    assert!(listed_on_skills_page(&recs[0]));
    assert!(!listed_on_skills_page(&recs[3]));
    assert_eq!(check_uninstall(&recs[4]), Err("内置技能不可卸载".to_string()));
    assert!(check_uninstall(&recs[0]).is_ok());
}

#[test]
fn the_skill_is_the_root_or_its_only_subdirectory() {
    assert_eq!(locate_skill_root(true, &vec![true, true]), Ok(None));
    assert_eq!(locate_skill_root(false, &vec![true]), Ok(Some(0)));
    let missing = Err("安装包未找到 SKILL.md（需在根目录或唯一顶层子目录内）".to_string());
    assert_eq!(locate_skill_root(false, &vec![false]), missing);
    assert_eq!(locate_skill_root(false, &vec![true, true]), missing);
    assert_eq!(locate_skill_root(false, &vec![]), missing);
}

#[test]
fn strings_sort_as_str_does() {
    let v: Vec<String> = vec!["b", "a/x.md", "B", "a", "中文", "ab", "a"].into_iter().map(String::from).collect();
    let mut expected = v.clone();
    expected.sort();
    assert_eq!(sort_strings(v), expected);
    assert!(str_le("a", "ab"));
    assert!(!str_le("ab", "a"));
    assert!(str_le("B", "a"));
    assert!(str_le("", ""));
}

#[test]
fn reference_listing_drops_skill_md_sorts_and_caps() {
    let files: Vec<String> = vec!["scripts/run.sh", "SKILL.md", "README.md", "docs/a.md"]
        .into_iter()
        .map(String::from)
        .collect();
    assert_eq!(reference_listing(files), vec!["README.md", "docs/a.md", "scripts/run.sh"]);
    let many: Vec<String> = (0..70).rev().map(|i| format!("f{i:02}.txt")).collect();
    let listed = reference_listing(many);
    assert_eq!(listed.len(), 50);
    assert_eq!(listed[0], "f00.txt");
    assert_eq!(listed[49], "f49.txt");
}

#[test]
fn reference_paths_are_confined() {
    assert_eq!(reference_path("  ./docs/a.md "), Ok("docs/a.md".to_string()));
    assert_eq!(reference_path("././x"), Ok("x".to_string()));
    let bad = Err("非法的技能文件路径".to_string());
    assert_eq!(reference_path("   "), bad);
    assert_eq!(reference_path("./"), bad);
    assert_eq!(reference_path("../secret"), bad);
    assert_eq!(reference_path("a/../../b"), bad);
}

#[test]
fn reference_text_is_cut_between_characters() {
    let short = "脚本在 {{.SkillDir}}/scripts/index.js".to_string();
    assert_eq!(reference_text(short.clone()), short);
    let exact = "a".repeat(MAX_REFERENCE_BYTES);
    assert_eq!(reference_text(exact.clone()), exact);
    let long = "a".repeat(MAX_REFERENCE_BYTES + 1);
    assert_eq!(reference_text(long), format!("{}\n…（已截断）", "a".repeat(MAX_REFERENCE_BYTES)));
    // A three-byte character that would straddle the limit is left out whole.
    let straddling = format!("{}中中", "a".repeat(MAX_REFERENCE_BYTES - 2));
    assert_eq!(reference_text(straddling), format!("{}\n…（已截断）", "a".repeat(MAX_REFERENCE_BYTES - 2)));
}
