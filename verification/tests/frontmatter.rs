use silicon_agent::skill::frontmatter::{parse_frontmatter, strip_frontmatter};

#[test]
fn folded_block_scalar_description_is_parsed() {
    let md = "---\n\
              name: 合规审查\n\
              displayName: 合规审查\n\
              description: >\n  \
                按领域逐项检查个人信息保护、广告合规、资质牌照。\n  \
                当用户要求\"合规审查\"、\"数据出境评估\"时触发此技能。\n\
              argument-hint: \"输入需要审查的业务事项\"\n\
              ---\n\n\
              # 正文\n\n\
              > 这是 Markdown 引用块，**不得**被当成 YAML 折叠。\n";
    let fm = parse_frontmatter(md).expect("应解析成功");
    assert_eq!(fm.name, "合规审查");
    assert_ne!(fm.description, ">", "描述不得是字面的 >");
    assert!(
        fm.description.contains("个人信息保护") && fm.description.contains("数据出境评估"),
        "折行的两段都要在：{}",
        fm.description
    );
    assert_eq!(
        fm.argument_hint.as_deref(),
        Some("输入需要审查的业务事项"),
        "块标量后的普通字段不能被吃掉"
    );
}

#[test]
fn plain_single_line_description_unchanged() {
    let md = "---\nname: a\ndescription: 一句话说明\n---\n正文\n";
    let fm = parse_frontmatter(md).expect("解析");
    assert_eq!(fm.description, "一句话说明");
}

#[test]
fn folded_lines_are_joined_with_spaces() {
    let md = "---\nname: x\ndescription: |\n  first\n\n  second\nversion: 1.2\n---\nbody\n";
    let fm = parse_frontmatter(md).unwrap();
    assert_eq!(fm.description, "first second");
    assert_eq!(fm.version.as_deref(), Some("1.2"));
}

#[test]
fn missing_opening_fence_is_an_error() {
    let err = parse_frontmatter("name: a\n---\n").err().unwrap();
    assert_eq!(err, "SKILL.md 缺少 YAML frontmatter（需以 --- 开头）");
    assert_eq!(
        parse_frontmatter("").err().unwrap(),
        "SKILL.md 缺少 YAML frontmatter（需以 --- 开头）"
    );
}

#[test]
fn missing_closing_fence_is_an_error() {
    let err = parse_frontmatter("---\nname: a\ndescription: b\n").err().unwrap();
    assert_eq!(err, "SKILL.md 的 frontmatter 未正确闭合（缺少结束 ---）");
}

#[test]
fn missing_or_empty_name_is_an_error() {
    assert_eq!(
        parse_frontmatter("---\ndescription: b\n---\n").err().unwrap(),
        "SKILL.md frontmatter 缺少 name"
    );
    assert_eq!(
        parse_frontmatter("---\nname: \"\"\n---\n").err().unwrap(),
        "SKILL.md frontmatter 缺少 name"
    );
}

#[test]
fn chinese_description_preferred_and_flags_read() {
    let md = "---\nname: 'n'\ndescription: en\ndescription_zh: 中文\nuser-invocable: FALSE\nargument-hint:   \nversion: \"\"\n---\n";
    let fm = parse_frontmatter(md).unwrap();
    assert_eq!(fm.name, "n");
    assert_eq!(fm.description, "中文");
    assert!(!fm.user_invocable);
    assert_eq!(fm.argument_hint, None);
    assert_eq!(fm.version, None);
    let fm2 = parse_frontmatter("---\nname: n\nuser-invocable: no\n---\n").unwrap();
    assert!(fm2.user_invocable);
    assert_eq!(fm2.description, "");
}

#[test]
fn strip_keeps_body_and_final_newline() {
    assert_eq!(strip_frontmatter("---\nname: a\n---\nline1\nline2\n"), "line1\nline2\n");
    assert_eq!(strip_frontmatter("---\nname: a\n---\nonly"), "only");
    assert_eq!(strip_frontmatter("---\nname: a\n---\n"), "");
}

#[test]
fn strip_without_frontmatter_returns_content() {
    assert_eq!(strip_frontmatter("# title\nbody\n"), "# title\nbody\n");
    assert_eq!(strip_frontmatter("---\nname: a\nno close\n"), "---\nname: a\nno close\n");
    assert_eq!(strip_frontmatter("---x\nname\n---\n"), "---x\nname\n---\n");
}
