//! DingTalk Stream mode: JSON frames over a WebSocket, every frame acknowledged, replies
//! through the robot batch-send API.

use std::sync::{Arc, Mutex};

use vstd::prelude::*;

use crate::json::{jget, jstr, jstr_at, ju64_at_or, Json, JsonView};
use crate::remote::channels::new_lock;
use crate::remote::connector::InboundMessage;
use crate::remote::http::HttpClient;
use crate::text::{chars_of, extend_chars, owned, slice_chars, str_eq, string_of, trim, trim_bounds};

verus! {

/// The open API endpoint.
pub const API_BASE: &'static str = "https://api.dingtalk.com";

/// The topic of robot messages.
pub const BOT_TOPIC: &'static str = "/v1.0/im/bot/messages/get";

/// A DingTalk robot connection.
pub struct DingTalk<H: ?Sized + HttpClient> {
    pub http: Arc<H>,
    pub api_base: String,
    pub app_key: String,
    pub app_secret: String,
    /// The robot code used by batch-send (usually the app key).
    pub robot_code: String,
    /// The access token and the millisecond it expires at.
    pub token: Mutex<Option<(String, u64)>>,
}

impl<H: ?Sized + HttpClient> DingTalk<H> {
    pub fn new(http: Arc<H>, api_base: String, app_key: String, app_secret: String, robot_code: String) -> (d: DingTalk<H>)
        ensures
            d.http == http,
            d.api_base == api_base,
            d.app_key == app_key,
            d.app_secret == app_secret,
            d.robot_code == robot_code,
    {
        DingTalk { http, api_base, app_key, app_secret, robot_code, token: new_lock(None) }
    }
}

/// What to do with one frame.
#[derive(Debug)]
pub enum FrameAction {
    /// Send back this acknowledgement; nothing arrived (a heartbeat).
    Ack(String),
    /// Send back the acknowledgement and hand over the message.
    Message(String, InboundMessage),
    /// Ignore the frame.
    Ignore,
}

/// The kind of frame, by its `headers.topic`.
#[derive(Debug, Clone, Copy, PartialEq, Eq, Structural)]
pub enum TopicKind {
    /// `ping`: acknowledged with the `opaque` value echoed.
    Ping,
    /// A robot message.
    Bot,
    /// Anything else: acknowledged so that it is not sent again.
    Other,
}

pub fn topic_kind(topic: &str) -> (k: TopicKind)
    ensures
        k == (if topic@ == "ping"@ {
            TopicKind::Ping
        } else if topic@ == BOT_TOPIC@ {
            TopicKind::Bot
        } else {
            TopicKind::Other
        }),
{
    if str_eq(topic, "ping") {
        TopicKind::Ping
    } else if str_eq(topic, BOT_TOPIC) {
        TopicKind::Bot
    } else {
        TopicKind::Other
    }
}

pub open spec fn opt_str(o: Option<JsonView>) -> Option<Seq<char>> {
    match o {
        Some(x) => jstr(x),
        None => None,
    }
}

pub open spec fn str_or_empty(o: Option<JsonView>) -> Seq<char> {
    match opt_str(o) {
        Some(s) => s,
        None => Seq::empty(),
    }
}

pub open spec fn in_headers(v: JsonView, key: Seq<char>) -> Option<JsonView> {
    match jget(v, "headers"@) {
        Some(h) => jget(h, key),
        None => None,
    }
}

fn str_or_empty_exec(o: Option<&Json>) -> (r: String)
    ensures
        r@ == str_or_empty(match o {
            Some(x) => Some(x@),
            None => None,
        }),
{
    match o {
        Some(x) => match x.as_str() {
            Some(s) => owned(s),
            None => String::new(),
        },
        None => String::new(),
    }
}

/// The topic, message id and data text of a frame (empty when absent).
pub fn frame_fields(v: &Json) -> (r: (String, String, String))
    ensures
        r.0@ == str_or_empty(in_headers(v@, "topic"@)),
        r.1@ == str_or_empty(in_headers(v@, "messageId"@)),
        r.2@ == str_or_empty(jget(v@, "data"@)),
{
    let h = v.get("headers");
    let topic = match h {
        Some(h) => str_or_empty_exec(h.get("topic")),
        None => String::new(),
    };
    let message_id = match h {
        Some(h) => str_or_empty_exec(h.get("messageId")),
        None => String::new(),
    };
    (topic, message_id, str_or_empty_exec(v.get("data")))
}

pub open spec fn opt_string(o: Option<String>) -> Option<Seq<char>> {
    match o {
        Some(s) => Some(s@),
        None => None,
    }
}

/// The inbound message of a robot message (the frame's `data`, read as JSON): a
/// non-empty `senderStaffId` and a non-blank `text.content`, trimmed.
pub open spec fn spec_bot_message(v: JsonView) -> Option<(Seq<char>, Seq<char>, Option<Seq<char>>, Option<Seq<char>>)> {
    match opt_str(jget(v, "senderStaffId"@)) {
        None => None,
        Some(peer) => if peer.len() == 0 {
            None
        } else {
            let text = match jget(v, "text"@) {
                Some(t) => opt_str(jget(t, "content"@)),
                None => None,
            };
            match text {
                None => None,
                Some(t) => if trim(t).len() == 0 {
                    None
                } else {
                    Some((peer, trim(t), opt_str(jget(v, "conversationId"@)), opt_str(jget(v, "senderNick"@))))
                },
            }
        },
    }
}

fn get_string(v: &Json, key: &str) -> (r: Option<String>)
    ensures
        opt_string(r) == opt_str(jget(v@, key@)),
{
    match v.get(key) {
        Some(x) => match x.as_str() {
            Some(s) => Some(owned(s)),
            None => None,
        },
        None => None,
    }
}

pub fn bot_message_to_inbound(v: &Json, now: &str) -> (r: Option<InboundMessage>)
    ensures
        match spec_bot_message(v@) {
            None => r is None,
            Some(x) => r matches Some(m) && m.channel@ == "dingtalk"@ && m.peer_id@ == x.0 && m.text@ == x.1
                && opt_string(m.account) == x.2 && opt_string(m.peer_name) == x.3 && m.kind@ == "text"@
                && m.context_token is None && m.received_at@ == now@,
        },
{
    let peer = match get_string(v, "senderStaffId") {
        Some(p) => p,
        None => return None,
    };
    if peer.as_str().unicode_len() == 0 {
        return None;
    }
    let text = match v.get("text") {
        Some(t) => get_string(t, "content"),
        None => None,
    };
    let text = match text {
        Some(t) => t,
        None => return None,
    };
    let tv = chars_of(text.as_str());
    let (a, b) = trim_bounds(&tv, 0, tv.len());
    assert(tv@.subrange(0, tv@.len() as int) =~= tv@);
    if a == b {
        return None;
    }
    Some(
        InboundMessage {
            channel: owned("dingtalk"),
            account: get_string(v, "conversationId"),
            peer_id: peer,
            peer_name: get_string(v, "senderNick"),
            text: string_of(&slice_chars(&tv, a, b)),
            kind: owned("text"),
            context_token: None,
            received_at: owned(now),
        },
    )
}

/// The message `m` carries what `spec_bot_message` read, received at `now`.
pub open spec fn is_bot_inbound(
    m: InboundMessage,
    x: (Seq<char>, Seq<char>, Option<Seq<char>>, Option<Seq<char>>),
    now: Seq<char>,
) -> bool {
    m.channel@ == "dingtalk"@ && m.peer_id@ == x.0 && m.text@ == x.1 && opt_string(m.account) == x.2 && opt_string(
        m.peer_name,
    ) == x.3 && m.kind@ == "text"@ && m.context_token is None && m.received_at@ == now
}

/// How a frame of the stream is answered.
#[derive(Debug)]
pub enum FrameReply {
    /// A heartbeat: acknowledged with its `opaque` value echoed (empty when absent).
    Pong { message_id: String, opaque: String },
    /// A robot message: acknowledged as a success; the message it carries, when it is a
    /// text from a sender.
    Bot { message_id: String, message: Option<InboundMessage> },
    /// Any other topic: acknowledged with an empty object, so that it is not sent again.
    Other { message_id: String },
}

/// The answer to a frame whose topic, message id and data text are `frame_fields`; `data`
/// is the data text as parsed (`None` when it is not JSON).
pub fn frame_reply(topic: &str, message_id: String, data: Option<&Json>, now: &str) -> (r: FrameReply)
    ensures
        topic@ == "ping"@ ==> (r matches FrameReply::Pong { message_id: id, opaque } && id@ == message_id@
            && opaque@ == match data {
                Some(d) => str_or_empty(jget(d@, "opaque"@)),
                None => Seq::empty(),
            }),
        topic@ != "ping"@ && topic@ == BOT_TOPIC@ ==> (r matches FrameReply::Bot { message_id: id, message }
            && id@ == message_id@ && match data {
                Some(d) => match spec_bot_message(d@) {
                    Some(x) => message matches Some(m) && is_bot_inbound(m, x, now@),
                    None => message is None,
                },
                None => message is None,
            }),
        topic@ != "ping"@ && topic@ != BOT_TOPIC@ ==> (r matches FrameReply::Other { message_id: id }
            && id@ == message_id@),
{
    match topic_kind(topic) {
        TopicKind::Ping => {
            let opaque = match data {
                Some(d) => str_or_empty_exec(d.get("opaque")),
                None => String::new(),
            };
            FrameReply::Pong { message_id, opaque }
        },
        TopicKind::Bot => {
            let message = match data {
                Some(d) => bot_message_to_inbound(d, now),
                None => None,
            };
            FrameReply::Bot { message_id, message }
        },
        TopicKind::Other => FrameReply::Other { message_id },
    }
}

// ---------------------------------------------------------------- replies of the open API

/// `prefix` and `raw`.
fn quote(prefix: &str, raw: &str) -> (r: String)
    ensures
        r@ == prefix@ + raw@,
{
    let mut v = chars_of(prefix);
    extend_chars(&mut v, &chars_of(raw));
    string_of(&v)
}

pub open spec fn spec_read_connection(v: JsonView, raw: Seq<char>) -> Result<(Seq<char>, Seq<char>), Seq<char>> {
    match jstr_at(v, "endpoint"@) {
        None => Err("connections/open 无 endpoint："@ + raw),
        Some(e) => match jstr_at(v, "ticket"@) {
            None => Err("connections/open 无 ticket："@ + raw),
            Some(t) => Ok((e, t)),
        },
    }
}

/// The stream endpoint and its ticket in a `gateway/connections/open` answer `v` (whose
/// text is `raw`).
pub fn read_connection(v: &Json, raw: &str) -> (r: Result<(String, String), String>)
    ensures
        match r {
            Ok((e, t)) => spec_read_connection(v@, raw@) == Ok::<(Seq<char>, Seq<char>), Seq<char>>((e@, t@)),
            Err(e) => spec_read_connection(v@, raw@) == Err::<(Seq<char>, Seq<char>), Seq<char>>(e@),
        },
{
    let endpoint = match v.str_at("endpoint") {
        Some(e) => e,
        None => return Err(quote("connections/open 无 endpoint：", raw)),
    };
    match v.str_at("ticket") {
        Some(t) => Ok((endpoint, t)),
        None => Err(quote("connections/open 无 ticket：", raw)),
    }
}

pub open spec fn spec_read_access_token(v: JsonView, raw: Seq<char>) -> Result<(Seq<char>, u64), Seq<char>> {
    match jstr_at(v, "accessToken"@) {
        Some(t) => Ok((t, ju64_at_or(v, "expireIn"@, 7200))),
        None => Err("accessToken 响应异常："@ + raw),
    }
}

/// The access token in an `oauth2/accessToken` answer `v` (whose text is `raw`) and its
/// lifetime in seconds (`expireIn`, 7200 when absent).
pub fn read_access_token(v: &Json, raw: &str) -> (r: Result<(String, u64), String>)
    ensures
        match r {
            Ok((t, e)) => spec_read_access_token(v@, raw@) == Ok::<(Seq<char>, u64), Seq<char>>((t@, e)),
            Err(e) => spec_read_access_token(v@, raw@) == Err::<(Seq<char>, u64), Seq<char>>(e@),
        },
{
    match v.str_at("accessToken") {
        Some(t) => Ok((t, v.u64_at_or("expireIn", 7200))),
        None => Err(quote("accessToken 响应异常：", raw)),
    }
}

/// Whether a batch send succeeded: an answer holding a `code` but no `processQueryKey`
/// fails; an answer that is not JSON (`None`) is taken as sent.
pub fn read_send_answer(v: Option<&Json>, raw: &str) -> (r: Result<(), String>)
    ensures
        match v {
            Some(j) => if jget(j@, "code"@) is Some && jget(j@, "processQueryKey"@) is None {
                r matches Err(e) && e@ == "钉钉 batchSend 失败："@ + raw@
            } else {
                r is Ok
            },
            None => r is Ok,
        },
{
    match v {
        Some(j) => if j.get("code").is_some() && j.get("processQueryKey").is_none() {
            Err(quote("钉钉 batchSend 失败：", raw))
        } else {
            Ok(())
        },
        None => Ok(()),
    }
}

} // verus!
