use silicon_agent::remote::format::{
    parse_choice, parse_yes_no, render_ask_question, render_permission, render_plan,
    segment_text, should_emit_progress, truncate_chars,
};
use silicon_agent::session::types::{AskQuestion, PendingPermission};

#[test]
fn segment_short_text_single_chunk() {
    assert_eq!(segment_text("hello", 10), vec!["hello".to_string()]);
}

#[test]
fn segment_long_text_by_char_count() {
    let s = "一二三四五六七八九十";
    let chunks = segment_text(s, 4);
    assert_eq!(chunks, vec!["一二三四", "五六七八", "九十"]);
}

#[test]
fn segment_empty_yields_empty_vec() {
    assert!(segment_text("", 10).is_empty());
}

#[test]
fn segment_zero_max_counts_as_one() {
    assert_eq!(segment_text("ab", 0), vec!["a".to_string(), "b".to_string()]);
}

#[test]
fn segments_rejoin_to_text() {
    let s = "a一b二c三d";
    let joined: String = segment_text(s, 3).concat();
    assert_eq!(joined, s);
}

#[test]
fn throttle_allows_first_then_blocks_within_window() {
    assert!(should_emit_progress(None, 1000, 3000));
    assert!(!should_emit_progress(Some(1000), 3000, 3000));
    assert!(should_emit_progress(Some(1000), 4000, 3000));
    assert!(should_emit_progress(Some(1000), 6000, 3000));
}

#[test]
fn throttle_clock_going_back_blocks() {
    assert!(!should_emit_progress(Some(5000), 1000, 1));
    assert!(should_emit_progress(Some(5000), 1000, 0));
}

#[test]
fn render_permission_prompt_numbered() {
    let p = PendingPermission {
        session_id: "sess1".into(),
        tool_call_id: "tc1".into(),
        tool_name: "command_tool".into(),
        input: "{\"command\":\"rm -rf ./tmp\"}".into(),
    };
    let out = render_permission(&p);
    assert!(out.contains("需要确认操作"));
    assert!(out.contains("command_tool"));
    assert!(out.contains("rm -rf ./tmp"));
    assert!(out.contains("1 批准"));
    assert!(out.contains("2 拒绝"));
}

#[test]
fn render_permission_exact_text() {
    let p = PendingPermission {
        session_id: "s".into(),
        tool_call_id: "t".into(),
        tool_name: "write".into(),
        input: "{}".into(),
    };
    assert_eq!(
        render_permission(&p),
        "⚠️ 需要确认操作\n工具：write\n参数：{}\n回复 1 批准 / 2 拒绝"
    );
}

#[test]
fn render_ask_question_lists_options() {
    let q = AskQuestion {
        header: "环境".into(),
        question: "部署到哪个环境？".into(),
        multi_select: false,
        options: vec!["生产".into(), "预发".into()],
    };
    let out = render_ask_question(&q, 0, 1);
    assert!(out.contains("部署到哪个环境？"));
    assert!(out.contains("1. 生产"));
    assert!(out.contains("2. 预发"));
}

#[test]
fn render_ask_question_exact_multi_page() {
    let q = AskQuestion {
        header: "".into(),
        question: "选哪些？".into(),
        multi_select: true,
        options: vec!["a".into(), "b".into()],
    };
    assert_eq!(
        render_ask_question(&q, 1, 3),
        "（第 2/3 题）\n选哪些？\n1. a\n2. b\n可多选，用逗号分隔（如 1,3）。回复编号："
    );
}

#[test]
fn render_plan_prompt_numbered() {
    let out = render_plan("先读配置，再改三处，最后跑测试。");
    assert!(out.contains("先读配置"));
    assert!(out.contains("1 批准执行"));
    assert!(out.contains("2 拒绝"));
}

#[test]
fn truncate_appends_ellipsis_only_when_longer() {
    assert_eq!(truncate_chars("一二三", 3), "一二三");
    assert_eq!(truncate_chars("一二三四", 3), "一二三…");
}

#[test]
fn parse_yes_no_reply() {
    assert_eq!(parse_yes_no("1"), Some(true));
    assert_eq!(parse_yes_no("/y"), Some(true));
    assert_eq!(parse_yes_no(" 2 "), Some(false));
    assert_eq!(parse_yes_no("/n"), Some(false));
    assert_eq!(parse_yes_no("批准吧"), None);
    assert_eq!(parse_yes_no("3"), None);
}

#[test]
fn parse_choice_single_and_multi() {
    assert_eq!(parse_choice("2", 4, false), Some(vec![1]));
    assert_eq!(parse_choice("1,3", 4, true), Some(vec![0, 2]));
    assert_eq!(parse_choice("5", 4, false), None);
    assert_eq!(parse_choice("1,2", 4, false), None);
    assert_eq!(parse_choice("是", 4, false), None);
}

#[test]
fn parse_choice_edge_cases() {
    assert_eq!(parse_choice(" 1 , ,+2 ", 4, true), Some(vec![0, 1]));
    assert_eq!(parse_choice("0", 4, false), None);
    assert_eq!(parse_choice("  ", 4, true), None);
    assert_eq!(parse_choice("99999999999999999999999", 4, false), None);
}
