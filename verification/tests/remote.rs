use std::sync::Arc;

use silicon_agent::json::Json;
use silicon_agent::remote::channels::dingtalk::{
    bot_message_to_inbound, frame_fields, topic_kind, DingTalk, TopicKind, API_BASE, BOT_TOPIC,
};
use silicon_agent::remote::channels::feishu::{
    build_ack, event_content, event_payload, event_to_inbound, parse_service_id, ping_frame, Feishu, Frame,
    Header, DOMAIN, FRAME_CONTROL, FRAME_DATA,
};
use silicon_agent::remote::channels::telegram::{chat_id_number, read_updates as tg_updates, Telegram};
use silicon_agent::remote::channels::wechat_clawbot::{
    b64_bytes, extract_text, gen_uin, read_pair_status, read_qrcode, read_updates as wx_updates, PairStatus,
    QrCode, WechatClawbot, DEFAULT_BASE_URL,
};
use silicon_agent::remote::http::{HttpClient, MockHttp, UreqHttp};
use silicon_agent::remote::hub::{event_reply, pairing_step, plan_text, EventReply, PairPoll, PairStep};
use silicon_agent::remote::router::{
    command_action, command_reply, pending_action, route_inbound, CommandAction, InboundRoute, PendingAction,
};
use silicon_agent::remote::store::{
    clean_account_name, generated_account_name, resolve_account_name, shorten_peer_id, status_enabled,
    switch_status,
};

use silicon_agent::remote::commands::{
        dingtalk_credentials, feishu_credentials, secret_change, telegram_token, SecretChange,
    };
use silicon_agent::remote::format::{render_ask_question, render_permission, render_plan};
use silicon_agent::remote::hub::{pending_payload, pending_prompt};
use silicon_agent::remote::router::RemotePending;
use silicon_agent::session::types::{AskQuestion, PendingPermission};
use silicon_agent::remote::channels::dingtalk::{
    read_access_token, read_connection, read_send_answer as dingtalk_send_answer,
};
use silicon_agent::remote::channels::feishu::{read_endpoint, read_send_answer as feishu_send_answer, read_tenant_token};
use silicon_agent::remote::channels::telegram::read_send_answer as telegram_send_answer;
use silicon_agent::remote::channels::wechat_clawbot::read_send_answer as wechat_send_answer;
use silicon_agent::remote::channels::{fresh_token, token_expiry};
use silicon_agent::remote::channels::dingtalk::{frame_reply, FrameReply};
use silicon_agent::remote::hub::{event_goes_remote, RemoteRuns};
fn to_json(v: &serde_json::Value) -> Json {
    match v {
        serde_json::Value::Null => Json::Null,
        serde_json::Value::Bool(b) => Json::Bool(*b),
        serde_json::Value::Number(n) => match (n.as_u64(), n.as_i64()) {
            (Some(u), _) => Json::UInt(u),
            (None, Some(i)) => Json::Int(i),
            _ => Json::Float,
        },
        serde_json::Value::String(s) => Json::Str(s.clone()),
        serde_json::Value::Array(a) => Json::Array(a.iter().map(to_json).collect()),
        serde_json::Value::Object(o) => {
            Json::Object(o.iter().map(|(k, x)| (k.clone(), to_json(x))).collect())
        }
    }
}

fn parse(raw: &str) -> Json {
    to_json(&serde_json::from_str::<serde_json::Value>(raw).unwrap())
}

#[test]
fn mock_returns_preset_body() {
    let mock = MockHttp::new(vec![("getUpdates".into(), "{\"ok\":true}".into())]);
    let body = mock.post_json("https://x/getUpdates", "{}", &[("h", "v")]).unwrap();
    assert_eq!(body, "{\"ok\":true}");
}

#[test]
fn mock_get_routes_by_url() {
    let mock = MockHttp::new(vec![("get_bot_qrcode".into(), "{\"qrcode\":\"q1\"}".into())]);
    let body = mock
        .get_json("https://x/ilink/bot/get_bot_qrcode?bot_type=3", &[("h", "v")])
        .unwrap();
    assert_eq!(body, "{\"qrcode\":\"q1\"}");
}

#[test]
fn mock_without_route_names_the_url() {
    let mock = MockHttp::new(vec![("a".into(), "1".into()), ("b".into(), "2".into())]);
    assert_eq!(mock.get_json("xbx", &[]).unwrap(), "2");
    assert_eq!(mock.get_json("ab", &[]).unwrap(), "1");
    assert_eq!(mock.get_json("zzz", &[]).err().unwrap(), "mock: no route for zzz");
    assert_eq!(UreqHttp::new(45_000).read_timeout_ms, 45_000);
}

#[test]
fn b64_known_vectors() {
    assert_eq!(b64_bytes(&b"M".to_vec()), "TQ==");
    assert_eq!(b64_bytes(&b"Ma".to_vec()), "TWE=");
    assert_eq!(b64_bytes(&b"Man".to_vec()), "TWFu");
}

#[test]
fn uin_is_base64_of_a_decimal() {
    let u = gen_uin();
    assert!(!u.is_empty());
    assert_eq!(u.len() % 4, 0);
}

fn data_event_frame(event_json: &str) -> Frame {
    Frame {
        seq_id: 7,
        log_id: 9,
        service: 100,
        method: FRAME_DATA,
        headers: vec![
            Header { key: "type".into(), value: "event".into() },
            Header { key: "message_id".into(), value: "m1".into() },
            Header { key: "sum".into(), value: "1".into() },
            Header { key: "seq".into(), value: "0".into() },
        ],
        payload_encoding: None,
        payload_type: None,
        payload: Some(event_json.as_bytes().to_vec()),
        log_id_new: None,
    }
}

#[test]
fn frame_roundtrip_and_ack() {
    let decoded = data_event_frame("{}");
    assert_eq!(decoded.method, FRAME_DATA);
    assert_eq!(decoded.header("type"), Some("event"));
    assert_eq!(decoded.header("message_id"), Some("m1"));
    let ack = build_ack(&decoded);
    assert_eq!(ack.header("message_id"), Some("m1"));
    assert_eq!(ack.payload.as_deref(), Some(&b"{\"code\":200}"[..]));
    assert_eq!((ack.seq_id, ack.log_id, ack.service, ack.method), (7, 9, 100, FRAME_DATA));
}

#[test]
fn ping_frame_is_control_ping() {
    let f = ping_frame(42);
    assert_eq!(f.method, FRAME_CONTROL);
    assert_eq!(f.service, 42);
    assert_eq!(f.header("type"), Some("ping"));
    assert!(f.payload.is_none());
}

#[test]
fn parse_service_id_from_url() {
    assert_eq!(parse_service_id("wss://h/ws?device_id=d&service_id=88&x=1"), 88);
    assert_eq!(parse_service_id("wss://h/ws?device_id=d"), 1);
    assert_eq!(parse_service_id("wss://h/ws?service_id=-5"), -5);
    assert_eq!(parse_service_id("wss://h/ws?service_id=abc&service_id=7"), 1);
    assert_eq!(parse_service_id("wss://h/ws?service_id=99999999999"), 1);
}

#[test]
fn feishu_event_to_inbound_extracts_text() {
    let event = r#"{
        "schema":"2.0",
        "header":{"event_type":"im.message.receive_v1"},
        "event":{
            "sender":{"sender_id":{"open_id":"ou_abc"}},
            "message":{"chat_id":"oc_1","message_type":"text","content":"{\"text\":\" 你好 \"}"}
        }
    }"#;
    let frame = data_event_frame(event);
    let payload = event_payload(&frame).unwrap();
    let v = parse(std::str::from_utf8(payload).unwrap());
    let content = event_content(&v).unwrap();
    let m = event_to_inbound(&v, &parse(&content), "t").unwrap();
    assert_eq!(m.peer_id, "ou_abc");
    assert_eq!(m.text, "你好");
    assert_eq!(m.account.as_deref(), Some("oc_1"));
    assert_eq!(m.channel, "feishu");
    let img = parse(r#"{"header":{"event_type":"im.message.receive_v1"},"event":{"sender":{"sender_id":{"open_id":"o"}},"message":{"message_type":"image","content":"{}"}}}"#);
    assert!(event_content(&img).is_none());
    let mut multi = data_event_frame("{}");
    multi.headers[2].value = "2".into();
    assert!(event_payload(&multi).is_none());
    let _f = Feishu::new(Arc::new(MockHttp::new(vec![])), DOMAIN.into(), "id".into(), "secret".into());
}

#[test]
fn telegram_updates_advance_offset() {
    let v = parse(
        r#"{"ok":true,"result":[
            {"update_id":10,"message":{"chat":{"id":-42},"from":{"username":"bob"},"text":"hi"}},
            {"update_id":12,"edited_message":{"chat":{"id":1},"text":"x"}},
            {"update_id":11,"message":{"chat":{"id":7},"sticker":{}}}
        ]}"#,
    );
    let (msgs, next) = tg_updates(&v, 0, "now").unwrap();
    assert_eq!(next, 13);
    assert_eq!(msgs.len(), 1);
    assert_eq!(msgs[0].peer_id, "-42");
    assert_eq!(msgs[0].peer_name.as_deref(), Some("bob"));
    assert_eq!(msgs[0].text, "hi");
    assert_eq!(msgs[0].channel, "telegram");
    let (none, same) = tg_updates(&parse(r#"{"ok":true,"result":[]}"#), 5, "now").unwrap();
    assert!(none.is_empty());
    assert_eq!(same, 5);
    assert!(tg_updates(&parse(r#"{"ok":false}"#), 5, "now").is_none());
    assert_eq!(chat_id_number("-1001"), Some(-1001));
    assert_eq!(chat_id_number("@chan"), None);
    let t = Telegram::new(Arc::new(MockHttp::new(vec![])), "https://api".into(), "TK".into());
    assert_eq!(t.api_url("getUpdates"), "https://api/botTK/getUpdates");
}

#[test]
fn wechat_answers_are_read() {
    let v = parse(
        r#"{"msgs":[
            {"from_user_id":"u1","context_token":"c1","item_list":[{"type":2},{"text_item":{"text":""}},{"text_item":{"text":"你好"}}]},
            {"from_user_id":"","item_list":[{"text_item":{"text":"x"}}]},
            {"from_user_id":"u2","item_list":[{"image_item":{}}]}
        ],"get_updates_buf":"CUR"}"#,
    );
    let (msgs, cursor) = wx_updates(&v, "acct", "now");
    assert_eq!(cursor.as_deref(), Some("CUR"));
    assert_eq!(msgs.len(), 1);
    assert_eq!(msgs[0].peer_id, "u1");
    assert_eq!(msgs[0].text, "你好");
    assert_eq!(msgs[0].context_token.as_deref(), Some("c1"));
    assert_eq!(msgs[0].account.as_deref(), Some("acct"));
    assert_eq!(extract_text(&parse(r#"{"item_list":[]}"#)), None);

    let q = read_qrcode(&parse(r#"{"qrcode":"QR1","qrcode_img_content":"https://l/q","ret":0}"#)).unwrap();
    assert_eq!(q, QrCode { qrcode: "QR1".into(), qr_content: "https://l/q".into() });
    let nested = read_qrcode(&parse(r#"{"data":{"qrcode":"Q","qrcode_img_content":"C"}}"#)).unwrap();
    assert_eq!(nested.qrcode, "Q");
    assert_eq!(read_qrcode(&parse(r#"{"ret":-2}"#)).err().unwrap(), "get_bot_qrcode 失败 ret=-2");
    assert_eq!(
        read_qrcode(&parse(r#"{"qrcode":"Q"}"#)).err().unwrap(),
        "get_bot_qrcode：缺少 qrcode_img_content 字段"
    );

    assert_eq!(read_pair_status(&parse(r#"{"status":"wait"}"#)).unwrap(), PairStatus::Wait);
    assert_eq!(read_pair_status(&parse(r#"{"status":"SCANED"}"#)).unwrap(), PairStatus::Scanned);
    assert_eq!(read_pair_status(&parse(r#"{"data":{"status":"expired"}}"#)).unwrap(), PairStatus::Expired);
    assert_eq!(
        read_pair_status(&parse(r#"{"status":"confirmed","bot_token":"T","baseurl":"https://b"}"#)).unwrap(),
        PairStatus::Confirmed { bot_token: "T".into(), ilink_bot_id: None, base_url: Some("https://b".into()) }
    );
    assert_eq!(
        read_pair_status(&parse(r#"{"status":"confirmed"}"#)).err().unwrap(),
        "confirmed：缺少 bot_token"
    );
    let w = WechatClawbot::with_token(Arc::new(MockHttp::new(vec![])), DEFAULT_BASE_URL.into(), "TOK".into(), "a".into());
    assert_eq!(w.bearer, "Bearer TOK");
    let h = w.headers();
    assert_eq!(h[0], ("AuthorizationType", "ilink_bot_token"));
    assert_eq!(h[1], ("Authorization", "Bearer TOK"));
}

#[test]
fn dingtalk_frames_are_read() {
    let inner = r#"{"senderStaffId":"u1","conversationId":"c1","senderNick":"小明","msgtype":"text","text":{"content":" 你好 "}}"#;
    let frame = Json::Object(vec![
        ("type".to_string(), Json::Str("CALLBACK".into())),
        (
            "headers".to_string(),
            Json::Object(vec![
                ("topic".to_string(), Json::Str(BOT_TOPIC.into())),
                ("messageId".to_string(), Json::Str("m2".into())),
            ]),
        ),
        ("data".to_string(), Json::Str(inner.into())),
    ]);
    let (topic, id, data) = frame_fields(&frame);
    assert_eq!(topic_kind(&topic), TopicKind::Bot);
    assert_eq!(id, "m2");
    let m = bot_message_to_inbound(&parse(&data), "now").unwrap();
    assert_eq!(m.peer_id, "u1");
    assert_eq!(m.text, "你好");
    assert_eq!(m.account.as_deref(), Some("c1"));
    assert_eq!(m.peer_name.as_deref(), Some("小明"));
    assert_eq!(m.channel, "dingtalk");
    assert!(bot_message_to_inbound(&parse(r#"{"senderStaffId":"u1","msgtype":"image"}"#), "now").is_none());
    assert_eq!(topic_kind("ping"), TopicKind::Ping);
    assert_eq!(topic_kind("x"), TopicKind::Other);
    let d = DingTalk::new(Arc::new(MockHttp::new(vec![])), API_BASE.into(), "ak".into(), "as".into(), "rc".into());
    assert_eq!(d.robot_code, "rc");
}

#[test]
fn routing_of_inbound_messages() {
    assert_eq!(route_inbound(false, false, false, "hi", None), InboundRoute::Reject);
    assert_eq!(route_inbound(false, true, false, " hi ", None), InboundRoute::Drive("hi".into()));
    assert_eq!(route_inbound(true, false, true, "hi", None), InboundRoute::Paused);
    assert_eq!(route_inbound(true, false, false, " /new ", Some("ask")), InboundRoute::Command("new".into()));
    assert_eq!(
        route_inbound(true, false, false, " 1 ", Some("permission")),
        InboundRoute::PendingReply("permission".into(), "1".into())
    );
    assert_eq!(command_action("new"), CommandAction::NewSession);
    assert_eq!(command_action("  help me"), CommandAction::Help);
    assert_eq!(command_action(""), CommandAction::Help);
    assert_eq!(command_action("foo"), CommandAction::Unknown);
    assert_eq!(command_action("newer"), CommandAction::Unknown);
    assert_eq!(command_reply(CommandAction::Unknown), "未知命令，发 /help 看可用命令。");
}

#[test]
fn pending_replies_drive_or_reprompt() {
    let p = parse(r#"{"toolCallId":"tc1"}"#);
    match pending_action("permission", "1", &p) {
        PendingAction::Permission { tool_call_id, approved } => {
            assert_eq!(tool_call_id, "tc1");
            assert!(approved);
        }
        other => panic!("unexpected {other:?}"),
    }
    match pending_action("permission", "maybe", &p) {
        PendingAction::Reprompt(t) => assert_eq!(t, "请回复 1 批准 / 2 拒绝。"),
        other => panic!("unexpected {other:?}"),
    }
    match pending_action("plan", "2", &p) {
        PendingAction::Plan { approved, .. } => assert!(!approved),
        other => panic!("unexpected {other:?}"),
    }
    let ask = parse(r#"{"toolCallId":"tc2","options":3,"multi":true,"labels":["A","B","C"]}"#);
    match pending_action("ask", "1,3", &ask) {
        PendingAction::Ask { tool_call_id, answers } => {
            assert_eq!(tool_call_id, "tc2");
            assert_eq!(answers, vec![vec!["A".to_string(), "C".to_string()]]);
        }
        other => panic!("unexpected {other:?}"),
    }
    match pending_action("ask", "9", &ask) {
        PendingAction::Reprompt(t) => assert_eq!(t, "请回复选项编号（多选用逗号分隔）。"),
        other => panic!("unexpected {other:?}"),
    }
    assert!(matches!(pending_action("other", "1", &p), PendingAction::ClearOnly));
}

#[test]
fn hub_replies_for_engine_events() {
    match event_reply("message_completed", Some("abcdef"), None, None, None, 0, 4) {
        EventReply::Answer(v) => assert_eq!(v, vec!["abcd".to_string(), "ef".to_string()]),
        other => panic!("unexpected {other:?}"),
    }
    assert!(matches!(event_reply("message_completed", Some("  "), None, None, None, 0, 4), EventReply::Nothing));
    match event_reply("tool_call", None, None, Some("bash"), Some(1000), 4000, 10) {
        EventReply::Progress(t) => assert_eq!(t, "🔧 bash…"),
        other => panic!("unexpected {other:?}"),
    }
    assert!(matches!(event_reply("tool_call", None, Some("l"), None, Some(1000), 3999, 10), EventReply::Nothing));
    match event_reply("tool_call", None, None, None, None, 0, 10) {
        EventReply::Progress(t) => assert_eq!(t, "🔧 处理中…"),
        other => panic!("unexpected {other:?}"),
    }
    match event_reply("message_failed", None, None, None, None, 0, 10) {
        EventReply::Failure(t) => assert_eq!(t, "⚠️ 执行失败"),
        other => panic!("unexpected {other:?}"),
    }
    assert_eq!(plan_text("  ".into(), "sum".into()), "sum");
    assert_eq!(plan_text("# plan".into(), "sum".into()), "# plan");
}

#[test]
fn pairing_steps() {
    assert!(matches!(pairing_step(PairPoll::Wait, "b".into()), PairStep::Continue));
    assert!(matches!(pairing_step(PairPoll::Failed, "b".into()), PairStep::Continue));
    assert!(matches!(pairing_step(PairPoll::Scanned, "b".into()), PairStep::Scanned));
    assert!(matches!(pairing_step(PairPoll::Expired, "b".into()), PairStep::Expired));
    match pairing_step(PairPoll::Confirmed { bot_token: "t".into(), base_url: None }, "b".into()) {
        PairStep::Confirm { bot_token, base_url } => assert_eq!((bot_token.as_str(), base_url.as_str()), ("t", "b")),
        other => panic!("unexpected {other:?}"),
    }
}

#[test]
fn account_names() {
    assert_eq!(shorten_peer_id("abcdefgh"), "abcdefgh");
    assert_eq!(shorten_peer_id("abcdefghij"), "abcd…ij");
    assert_eq!(generated_account_name("wechat", "o9cq800KNYTMVEsA"), "微信 o9cq…sA");
    assert_eq!(generated_account_name("slack", "u1"), "slack u1");
    assert_eq!(clean_account_name(Some("  ")), None);
    assert_eq!(clean_account_name(None), None);
    assert_eq!(clean_account_name(Some(" 张三 ")).as_deref(), Some("张三"));
    assert_eq!(clean_account_name(Some(&"x".repeat(70))).unwrap().chars().count(), 64);
    assert_eq!(resolve_account_name("telegram", "p", Some(" new "), Some("old"), Some("lab")), "new");
    assert_eq!(resolve_account_name("telegram", "p", Some(" "), Some("old"), Some("lab")), "old");
    assert_eq!(resolve_account_name("telegram", "p", None, None, Some("lab")), "lab");
    assert_eq!(resolve_account_name("feishu", "p", None, Some(""), None), "飞书 p");
    assert!(status_enabled("connecting") && status_enabled("connected") && status_enabled("error"));
    assert!(!status_enabled("paused") && !status_enabled("disconnected"));
    assert_eq!(switch_status(true), "connected");
    assert_eq!(switch_status(false), "disconnected");
}

fn frame_to_inbound(frame: &Frame) -> Option<silicon_agent::remote::connector::InboundMessage> {
    let payload = event_payload(frame)?;
    let v = parse(std::str::from_utf8(payload).ok()?);
    let content = event_content(&v)?;
    event_to_inbound(&v, &parse(&content), "now")
}

#[test]
fn event_to_inbound_extracts_text() {
    let event = r#"{
        "schema":"2.0",
        "header":{"event_type":"im.message.receive_v1"},
        "event":{
            "sender":{"sender_id":{"open_id":"ou_abc"}},
            "message":{"chat_id":"oc_1","message_type":"text","content":"{\"text\":\"你好\"}"}
        }
    }"#;
    let m = frame_to_inbound(&data_event_frame(event)).unwrap();
    assert_eq!(m.peer_id, "ou_abc");
    assert_eq!(m.text, "你好");
    assert_eq!(m.account.as_deref(), Some("oc_1"));
    assert_eq!(m.channel, "feishu");
}

#[test]
fn event_to_inbound_skips_non_text_and_other_events() {
    let img = r#"{"header":{"event_type":"im.message.receive_v1"},"event":{"sender":{"sender_id":{"open_id":"o"}},"message":{"message_type":"image","content":"{}"}}}"#;
    assert!(frame_to_inbound(&data_event_frame(img)).is_none());
    let other = r#"{"header":{"event_type":"im.chat.updated_v1"},"event":{}}"#;
    assert!(frame_to_inbound(&data_event_frame(other)).is_none());
}

#[test]
fn data_frame_acks_only_text_event() {
    let f = data_event_frame(
        r#"{"header":{"event_type":"im.message.receive_v1"},"event":{"sender":{"sender_id":{"open_id":"o"}},"message":{"chat_id":"c","message_type":"text","content":"{\"text\":\"hi\"}"}}}"#,
    );
    assert!(frame_to_inbound(&f).is_some());
}

#[test]
fn poll_parses_message_and_advances_offset() {
    let body = parse(
        r#"{"ok":true,"result":[
            {"update_id":100,"message":{"chat":{"id":42},"from":{"username":"alice"},"text":"你好"}}
        ]}"#,
    );
    let (msgs, next) = tg_updates(&body, 0, "now").unwrap();
    assert_eq!(msgs.len(), 1);
    assert_eq!(msgs[0].peer_id, "42");
    assert_eq!(msgs[0].text, "你好");
    assert_eq!(msgs[0].peer_name.as_deref(), Some("alice"));
    assert_eq!(msgs[0].channel, "telegram");
    assert_eq!(next, 101);
}

#[test]
fn poll_skips_non_text_updates() {
    let body = parse(
        r#"{"ok":true,"result":[
            {"update_id":7,"edited_message":{"chat":{"id":1},"text":"x"}},
            {"update_id":8,"message":{"chat":{"id":1}}}
        ]}"#,
    );
    let (msgs, next) = tg_updates(&body, 0, "now").unwrap();
    assert!(msgs.is_empty());
    assert_eq!(next, 9);
}

#[test]
fn request_qrcode_parses_real_response_shape() {
    let body = parse(
        r#"{"qrcode":"QR1","qrcode_img_content":"https://liteapp.weixin.qq.com/q/7GiQu1?qrcode=QR1&bot_type=3","ret":0}"#,
    );
    let q = read_qrcode(&body).unwrap();
    assert_eq!(q.qrcode, "QR1");
    assert_eq!(q.qr_content, "https://liteapp.weixin.qq.com/q/7GiQu1?qrcode=QR1&bot_type=3");
}

#[test]
fn request_qrcode_errors_on_nonzero_ret() {
    assert!(read_qrcode(&parse(r#"{"ret":1,"msg":"bad"}"#)).is_err());
}

#[test]
fn poll_status_maps_states() {
    match read_pair_status(&parse(r#"{"status":"confirmed","bot_token":"BT","ilink_bot_id":"id1"}"#)).unwrap() {
        PairStatus::Confirmed { bot_token, ilink_bot_id, .. } => {
            assert_eq!(bot_token, "BT");
            assert_eq!(ilink_bot_id.as_deref(), Some("id1"));
        }
        other => panic!("expected Confirmed, got {other:?}"),
    }
    assert_eq!(read_pair_status(&parse(r#"{"status":"wait"}"#)).unwrap(), PairStatus::Wait);
    assert_eq!(read_pair_status(&parse(r#"{"status":"scaned"}"#)).unwrap(), PairStatus::Scanned);
}

#[test]
fn poll_parses_real_msgs_shape() {
    let body = parse(
        r#"{
            "msgs":[{
                "from_user_id":"u1@im.wechat",
                "context_token":"c1",
                "message_type":1,
                "item_list":[{"type":1,"text_item":{"text":"你好"}}]
            }],
            "get_updates_buf":"BUF1"
        }"#,
    );
    let (msgs, cursor) = wx_updates(&body, "acct", "now");
    assert_eq!(msgs.len(), 1);
    assert_eq!(msgs[0].peer_id, "u1@im.wechat");
    assert_eq!(msgs[0].text, "你好");
    assert_eq!(msgs[0].context_token.as_deref(), Some("c1"));
    assert_eq!(msgs[0].channel, "wechat");
    assert_eq!(cursor.as_deref(), Some("BUF1"));
}

#[test]
fn poll_skips_non_text_msgs() {
    let body = parse(r#"{"msgs":[{"from_user_id":"u1","item_list":[{"type":2}]}],"get_updates_buf":"B"}"#);
    let (msgs, _) = wx_updates(&body, "acct", "now");
    assert!(msgs.is_empty());
}

#[test]
fn connection_credentials_are_trimmed_and_required() {
    assert_eq!(telegram_token("  123:abc \n"), Ok("123:abc".to_string()));
    assert_eq!(telegram_token("   "), Err("请填写 Telegram bot token".to_string()));
    assert_eq!(dingtalk_credentials(" ak ", " as"), Ok(("ak".to_string(), "as".to_string())));
    assert_eq!(dingtalk_credentials("ak", " "), Err("请填写钉钉 AppKey 和 AppSecret".to_string()));
    assert_eq!(feishu_credentials("", "s"), Err("请填写飞书 AppID 和 AppSecret".to_string()));
    assert_eq!(feishu_credentials("cli_1", "s "), Ok(("cli_1".to_string(), "s".to_string())));
    assert_eq!(secret_change(None), SecretChange::Keep);
    assert_eq!(secret_change(Some("  ".into())), SecretChange::Clear);
    assert_eq!(secret_change(Some(" tok ".into())), SecretChange::Store(" tok ".into()));
}

#[test]
fn pending_prompts_render_the_first_question() {
    let perm = RemotePending::Permission {
        tool_call_id: "t1".into(),
        tool_name: "bash".into(),
        input: "rm -rf /tmp/x".into(),
    };
    let expected = render_permission(&PendingPermission {
        session_id: "s".into(),
        tool_call_id: "t1".into(),
        tool_name: "bash".into(),
        input: "rm -rf /tmp/x".into(),
    });
    assert_eq!(pending_prompt("s", &perm), ("permission", expected));
    let plan = RemotePending::Plan { tool_call_id: "t2".into(), plan_text: "1. 读代码".into() };
    assert_eq!(pending_prompt("s", &plan), ("plan", render_plan("1. 读代码")));
    let q1 = AskQuestion {
        header: "语言".into(),
        question: "用哪种语言？".into(),
        multi_select: false,
        options: vec!["Rust".into(), "Go".into()],
    };
    let q2 = AskQuestion { header: "h".into(), question: "q".into(), multi_select: true, options: vec![] };
    let ask = RemotePending::Ask { tool_call_id: "t3".into(), questions: vec![q1.clone(), q2] };
    let (kind, text) = pending_prompt("s", &ask);
    assert_eq!(kind, "ask");
    assert_eq!(text, render_ask_question(&q1, 0, 2));
    assert!(text.contains("用哪种语言？"));
}

#[test]
fn send_posts_chat_id_and_text() {
    let body = "{\"ok\":true}";
    assert_eq!(telegram_send_answer(Some(&parse(body)), body), Ok(()));
    assert_eq!(chat_id_number("42"), Some(42));
}

#[test]
fn send_errors_when_not_ok() {
    let body = "{\"ok\":false,\"description\":\"bad\"}";
    assert_eq!(telegram_send_answer(Some(&parse(body)), body), Err(format!("sendMessage 失败：{body}")));
    assert_eq!(telegram_send_answer(None, "<html>"), Ok(()));
}

#[test]
fn send_builds_request_and_succeeds() {
    assert_eq!(wechat_send_answer(Some(&parse("{\"ok\":true}"))), Ok(()));
    assert_eq!(wechat_send_answer(Some(&parse("{\"ret\":-2}"))), Err("sendmessage 失败 ret=-2".to_string()));
    assert_eq!(wechat_send_answer(None), Ok(()));
}

#[test]
fn send_builds_batchsend_and_succeeds() {
    let token = "{\"accessToken\":\"AT\",\"expireIn\":7200}";
    assert_eq!(read_access_token(&parse(token), token), Ok(("AT".to_string(), 7200)));
    let sent = "{\"processQueryKey\":\"k\"}";
    assert_eq!(dingtalk_send_answer(Some(&parse(sent)), sent), Ok(()));
    let refused = "{\"code\":\"invalidParameter\"}";
    assert_eq!(dingtalk_send_answer(Some(&parse(refused)), refused), Err(format!("钉钉 batchSend 失败：{refused}")));
}

#[test]
fn open_api_answers_are_read() {
    let ok = r#"{"code":0,"data":{"URL":"wss://x/ws?service_id=3"}}"#;
    assert_eq!(read_endpoint(&parse(ok), ok), Ok("wss://x/ws?service_id=3".to_string()));
    let bad = r#"{"code":1000040345,"msg":"no"}"#;
    assert_eq!(read_endpoint(&parse(bad), bad), Err(format!("ws/endpoint 失败：{bad}")));
    let no_code = r#"{"data":{"URL":"wss://x"}}"#;
    assert_eq!(read_endpoint(&parse(no_code), no_code), Err(format!("ws/endpoint 失败：{no_code}")));
    let no_url = r#"{"code":0,"data":{}}"#;
    assert_eq!(read_endpoint(&parse(no_url), no_url), Err(format!("ws/endpoint 无 URL：{no_url}")));
    let tok = r#"{"tenant_access_token":"t-1"}"#;
    assert_eq!(read_tenant_token(&parse(tok), tok), Ok(("t-1".to_string(), 7200)));
    let tok2 = r#"{"tenant_access_token":"t-2","expire":60}"#;
    assert_eq!(read_tenant_token(&parse(tok2), tok2), Ok(("t-2".to_string(), 60)));
    let none = r#"{"code":99991663}"#;
    assert_eq!(read_tenant_token(&parse(none), none), Err(format!("tenant_access_token 响应异常：{none}")));
    assert_eq!(feishu_send_answer(Some(&parse(r#"{"code":0}"#)), "x"), Ok(()));
    assert_eq!(feishu_send_answer(Some(&parse(r#"{"code":230002}"#)), "x"), Err("飞书 send 失败：x".to_string()));
    let conn = r#"{"endpoint":"wss://d/connect","ticket":"T"}"#;
    assert_eq!(read_connection(&parse(conn), conn), Ok(("wss://d/connect".to_string(), "T".to_string())));
    let half = r#"{"endpoint":"wss://d/connect"}"#;
    assert_eq!(read_connection(&parse(half), half), Err(format!("connections/open 无 ticket：{half}")));
    assert_eq!(read_connection(&parse("{}"), "{}"), Err("connections/open 无 endpoint：{}".to_string()));
    let at = r#"{"message":"x"}"#;
    assert_eq!(read_access_token(&parse(at), at), Err(format!("accessToken 响应异常：{at}")));
}

#[test]
fn tokens_are_reused_until_a_minute_before_expiry() {
    let cache = Some(("T".to_string(), 1_000_000u64));
    assert_eq!(fresh_token(&cache, 939_999).as_deref(), Some("T"));
    assert_eq!(fresh_token(&cache, 940_000), None);
    assert_eq!(fresh_token(&None, 0), None);
    assert_eq!(fresh_token(&Some(("T".to_string(), 10)), 0), None);
    assert_eq!(token_expiry(1_000, 7200), 7_201_000);
    assert_eq!(token_expiry(u64::MAX - 5, 1), u64::MAX);
}

fn dingtalk_frame(topic: &str, message_id: &str, data: &str) -> Json {
    Json::Object(vec![
        ("type".to_string(), Json::Str("CALLBACK".into())),
        (
            "headers".to_string(),
            Json::Object(vec![
                ("topic".to_string(), Json::Str(topic.into())),
                ("messageId".to_string(), Json::Str(message_id.into())),
            ]),
        ),
        ("data".to_string(), Json::Str(data.into())),
    ])
}

#[test]
fn ping_frame_acks_with_opaque() {
    let frame = parse(r#"{"type":"SYSTEM","headers":{"topic":"ping","messageId":"m1"},"data":"{\"opaque\":\"abc\"}"}"#);
    let (topic, id, data) = frame_fields(&frame);
    match frame_reply(&topic, id, Some(&parse(&data)), "now") {
        FrameReply::Pong { message_id, opaque } => {
            assert_eq!(message_id, "m1");
            assert_eq!(opaque, "abc");
        }
        other => panic!("expected Pong, got {other:?}"),
    }
}

#[test]
fn bot_text_frame_yields_inbound_and_ack() {
    let inner = r#"{"senderStaffId":"u1","conversationId":"c1","senderNick":"小明","msgtype":"text","text":{"content":"你好"}}"#;
    let (topic, id, data) = frame_fields(&dingtalk_frame(BOT_TOPIC, "m2", inner));
    match frame_reply(&topic, id, Some(&parse(&data)), "now") {
        FrameReply::Bot { message_id, message: Some(m) } => {
            assert_eq!(message_id, "m2");
            assert_eq!(m.peer_id, "u1");
            assert_eq!(m.text, "你好");
            assert_eq!(m.account.as_deref(), Some("c1"));
            assert_eq!(m.peer_name.as_deref(), Some("小明"));
            assert_eq!(m.channel, "dingtalk");
        }
        other => panic!("expected Bot with a message, got {other:?}"),
    }
}

#[test]
fn bot_non_text_frame_acks_without_inbound() {
    let (topic, id, data) = frame_fields(&dingtalk_frame(BOT_TOPIC, "m3", r#"{"senderStaffId":"u1","msgtype":"image"}"#));
    assert!(matches!(frame_reply(&topic, id, Some(&parse(&data)), "now"), FrameReply::Bot { message: None, .. }));
    assert!(matches!(frame_reply("other", "m4".into(), None, "now"), FrameReply::Other { .. }));
    assert!(matches!(frame_reply("ping", "m5".into(), None, "now"), FrameReply::Pong { opaque, .. } if opaque.is_empty()));
}

#[test]
fn local_run_for_bound_session_does_not_send_remote_reply() {
    let runs = RemoteRuns::new();
    assert!(!event_goes_remote(&runs, "sess-local", true, true));
}

#[test]
fn remote_run_for_bound_session_sends_remote_reply() {
    let mut runs = RemoteRuns::new();
    runs.begin("sess-remote");
    assert!(event_goes_remote(&runs, "sess-remote", true, true));
    match event_reply("message_completed", Some("远程回复"), None, None, None, 0, 4096) {
        EventReply::Answer(parts) => assert_eq!(parts, vec!["远程回复".to_string()]),
        other => panic!("expected an answer, got {other:?}"),
    }
    assert!(!event_goes_remote(&runs, "sess-remote", false, true));
    assert!(!event_goes_remote(&runs, "sess-remote", true, false));
}

#[test]
fn remote_runs_begin_and_end() {
    let mut runs = RemoteRuns::new();
    runs.begin("a");
    runs.begin("a");
    runs.begin("b");
    assert!(runs.contains("a") && runs.contains("b"));
    runs.end("a");
    assert!(!runs.contains("a"));
    assert!(runs.contains("b"));
    runs.end("zzz");
    assert!(runs.contains("b"));
}

#[test]
fn stored_payload_is_read_back_by_the_reply() {
    let perm = RemotePending::Permission {
        tool_call_id: "t1".into(),
        tool_name: "bash".into(),
        input: "ls".into(),
    };
    let stored = pending_payload(&perm);
    match &stored {
        Json::Object(es) => {
            assert_eq!(es.len(), 1);
            assert_eq!(es[0].0, "toolCallId");
        }
        other => panic!("unexpected {other:?}"),
    }
    match pending_action("permission", "1", &stored) {
        PendingAction::Permission { tool_call_id, approved } => {
            assert_eq!(tool_call_id, "t1");
            assert!(approved);
        }
        other => panic!("unexpected {other:?}"),
    }
    let plan = RemotePending::Plan { tool_call_id: "t2".into(), plan_text: "p".into() };
    match pending_action("plan", "2", &pending_payload(&plan)) {
        PendingAction::Plan { tool_call_id, approved } => {
            assert_eq!(tool_call_id, "t2");
            assert!(!approved);
        }
        other => panic!("unexpected {other:?}"),
    }
    let q = AskQuestion {
        header: "h".into(),
        question: "q".into(),
        multi_select: true,
        options: vec!["Rust".into(), "Go".into(), "Zig".into()],
    };
    let ask = RemotePending::Ask { tool_call_id: "t3".into(), questions: vec![q] };
    let stored = pending_payload(&ask);
    match &stored {
        Json::Object(es) => {
            let keys: Vec<&str> = es.iter().map(|(k, _)| k.as_str()).collect();
            assert_eq!(keys, vec!["labels", "multi", "options", "toolCallId"]);
            assert!(matches!(es[2].1, Json::UInt(3)));
            assert!(matches!(es[1].1, Json::Bool(true)));
        }
        other => panic!("unexpected {other:?}"),
    }
    match pending_action("ask", "1,3", &stored) {
        PendingAction::Ask { tool_call_id, answers } => {
            assert_eq!(tool_call_id, "t3");
            assert_eq!(answers, vec![vec!["Rust".to_string(), "Zig".to_string()]]);
        }
        other => panic!("unexpected {other:?}"),
    }
    match pending_action("ask", "4", &stored) {
        PendingAction::Reprompt(t) => assert_eq!(t, "请回复选项编号（多选用逗号分隔）。"),
        other => panic!("unexpected {other:?}"),
    }
}
