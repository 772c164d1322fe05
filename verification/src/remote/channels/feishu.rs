//! Feishu / Lark long connection: protobuf frames over a WebSocket, events as JSON.
//! Frames are held here as plain values; the caller encodes and decodes them.

use std::sync::{Arc, Mutex};

use vstd::prelude::*;

use crate::json::{jget, ji64_at_or, jstr, jstr_at, ju64_at_or, Json, JsonView};
use crate::remote::channels::new_lock;
use crate::remote::connector::InboundMessage;
use crate::remote::http::HttpClient;
use crate::text::{
    chars_of, extend_chars, owned, parse_signed, parse_signed_chars, slice_chars, split_char, split_chars, starts_with,
    starts_with_at, str_eq, string_of, trim, trim_bounds, cviews,
};

verus! {

/// The Feishu open platform.
pub const DOMAIN: &'static str = "https://open.feishu.cn";

/// Frame type of control frames (ping/pong).
pub const FRAME_CONTROL: i32 = 0;

/// Frame type of data frames (events).
pub const FRAME_DATA: i32 = 1;

/// A frame header.
#[derive(Debug)]
pub struct Header {
    pub key: String,
    pub value: String,
}

/// A frame of the long connection (`pbbp2.Frame`).
#[derive(Debug)]
pub struct Frame {
    pub seq_id: u64,
    pub log_id: u64,
    pub service: i32,
    pub method: i32,
    pub headers: Vec<Header>,
    pub payload_encoding: Option<String>,
    pub payload_type: Option<String>,
    pub payload: Option<Vec<u8>>,
    pub log_id_new: Option<String>,
}

pub open spec fn header_views(h: Seq<Header>) -> Seq<(Seq<char>, Seq<char>)> {
    h.map_values(|x: Header| (x.key@, x.value@))
}

/// The value of the first header named `key`.
pub open spec fn header_lookup(h: Seq<(Seq<char>, Seq<char>)>, key: Seq<char>) -> Option<Seq<char>>
    decreases h.len(),
{
    if h.len() == 0 {
        None
    } else if h[0].0 == key {
        Some(h[0].1)
    } else {
        header_lookup(h.drop_first(), key)
    }
}

pub open spec fn opt_str_view(o: Option<&str>) -> Option<Seq<char>> {
    match o {
        Some(s) => Some(s@),
        None => None,
    }
}

impl Frame {
    /// The value of header `key`.
    pub fn header(&self, key: &str) -> (r: Option<&str>)
        ensures
            opt_str_view(r) == header_lookup(header_views(self.headers@), key@),
    {
        let ghost hv = header_views(self.headers@);
        assert(hv.skip(0) =~= hv);
        let mut i: usize = 0;
        while i < self.headers.len()
            invariant
                i <= self.headers.len(),
                hv == header_views(self.headers@),
                header_lookup(hv, key@) == header_lookup(hv.skip(i as int), key@),
            decreases self.headers.len() - i,
        {
            assert(hv.skip(i as int)[0] == hv[i as int]);
            assert(hv.skip(i as int).drop_first() =~= hv.skip(i + 1));
            if str_eq(self.headers[i].key.as_str(), key) {
                return Some(self.headers[i].value.as_str());
            }
            i = i + 1;
        }
        None
    }
}

fn copy_opt(o: &Option<String>) -> (r: Option<String>)
    ensures
        r == *o,
{
    match o {
        Some(s) => Some(s.clone()),
        None => None,
    }
}

/// The payload of an acknowledgement.
pub open spec fn ack_payload() -> Seq<u8> {
    seq![123u8, 34u8, 99u8, 111u8, 100u8, 101u8, 34u8, 58u8, 50u8, 48u8, 48u8, 125u8]
}

/// The acknowledgement of a data frame: the same frame, headers included, with the
/// payload `{"code":200}`. Every data frame is acknowledged, or the server sends it again.
pub fn build_ack(frame: &Frame) -> (a: Frame)
    ensures
        a.seq_id == frame.seq_id,
        a.log_id == frame.log_id,
        a.service == frame.service,
        a.method == frame.method,
        header_views(a.headers@) == header_views(frame.headers@),
        a.payload_encoding == frame.payload_encoding,
        a.payload_type == frame.payload_type,
        a.payload matches Some(p) && p@ == ack_payload(),
        a.log_id_new == frame.log_id_new,
{
    let mut headers: Vec<Header> = Vec::new();
    let mut i: usize = 0;
    while i < frame.headers.len()
        invariant
            i <= frame.headers.len(),
            header_views(headers@) == header_views(frame.headers@).take(i as int),
        decreases frame.headers.len() - i,
    {
        let h = &frame.headers[i];
        let ghost before = header_views(headers@);
        let copy = Header { key: h.key.clone(), value: h.value.clone() };
        assert((copy.key@, copy.value@) == header_views(frame.headers@)[i as int]);
        headers.push(copy);
        assert(header_views(headers@) =~= before.push(header_views(frame.headers@)[i as int]));
        i = i + 1;
        assert(header_views(headers@) =~= header_views(frame.headers@).take(i as int));
    }
    assert(header_views(frame.headers@).take(frame.headers.len() as int) =~= header_views(frame.headers@));
    // `{"code":200}`
    let payload: Vec<u8> = vec![123u8, 34u8, 99u8, 111u8, 100u8, 101u8, 34u8, 58u8, 50u8, 48u8, 48u8, 125u8];
    Frame {
        seq_id: frame.seq_id,
        log_id: frame.log_id,
        service: frame.service,
        method: frame.method,
        headers,
        payload_encoding: copy_opt(&frame.payload_encoding),
        payload_type: copy_opt(&frame.payload_type),
        payload: Some(payload),
        log_id_new: copy_opt(&frame.log_id_new),
    }
}

/// The keep-alive frame: a control frame for `service_id` with the header `type: ping`.
pub fn ping_frame(service_id: i32) -> (f: Frame)
    ensures
        f.seq_id == 0 && f.log_id == 0,
        f.service == service_id,
        f.method == FRAME_CONTROL,
        header_views(f.headers@) == seq![("type"@, "ping"@)],
        f.payload_encoding is None && f.payload_type is None && f.payload is None && f.log_id_new is None,
{
    let mut headers: Vec<Header> = Vec::new();
    headers.push(Header { key: owned("type"), value: owned("ping") });
    assert(header_views(headers@) =~= seq![("type"@, "ping"@)]);
    Frame {
        seq_id: 0,
        log_id: 0,
        service: service_id,
        method: FRAME_CONTROL,
        headers,
        payload_encoding: None,
        payload_type: None,
        payload: None,
        log_id_new: None,
    }
}

/// `s` with every `?` turned into `&`.
pub open spec fn amp_for_qmark(s: Seq<char>) -> Seq<char> {
    s.map_values(|c: char| if c == '?' { '&' } else { c })
}

/// The first piece of the URL, split at `?` and `&`, that starts with `service_id=`.
pub open spec fn first_service_piece(p: Seq<Seq<char>>) -> Option<Seq<char>>
    decreases p.len(),
{
    if p.len() == 0 {
        None
    } else if starts_with(p[0], "service_id="@) {
        Some(p[0].skip(11))
    } else {
        first_service_piece(p.drop_first())
    }
}

/// The `service_id` of the connection URL's query, 1 when absent or not a 32-bit integer.
pub open spec fn spec_service_id(url: Seq<char>) -> i32 {
    match first_service_piece(split_char(amp_for_qmark(url), '&')) {
        Some(v) => match parse_signed(v, -0x8000_0000int, 0x7fff_ffffint) {
            Some(n) => n as i32,
            None => 1,
        },
        None => 1,
    }
}

pub fn parse_service_id(url: &str) -> (r: i32)
    ensures
        r == spec_service_id(url@),
{
    proof {
        reveal_strlit("service_id=");
    }
    let v = chars_of(url);
    let mut m: Vec<char> = Vec::new();
    let mut i: usize = 0;
    while i < v.len()
        invariant
            i <= v.len(),
            m@ == amp_for_qmark(v@.take(i as int)),
        decreases v.len() - i,
    {
        m.push(if v[i] == '?' { '&' } else { v[i] });
        i = i + 1;
        assert(m@ =~= amp_for_qmark(v@.take(i as int)));
    }
    assert(v@.take(v.len() as int) =~= v@);
    let pieces = split_chars(&m, '&');
    let ghost pv = cviews(pieces@);
    assert(m@ == amp_for_qmark(url@));
    assert(pv.skip(0) =~= pv);
    let mut k: usize = 0;
    while k < pieces.len()
        invariant
            k <= pieces.len(),
            pv == cviews(pieces@),
            pv == split_char(amp_for_qmark(url@), '&'),
            first_service_piece(pv) == first_service_piece(pv.skip(k as int)),
        decreases pieces.len() - k,
    {
        proof {
            reveal_strlit("service_id=");
        }
        let piece = &pieces[k];
        assert(pv.skip(k as int)[0] == piece@);
        assert(pv.skip(k as int).drop_first() =~= pv.skip(k + 1));
        assert(piece@.skip(0) =~= piece@);
        if starts_with_at(piece, 0, "service_id=") {
            assert(piece@.subrange(11, piece@.len() as int) =~= piece@.skip(11));
            assert(first_service_piece(pv) == Some(piece@.skip(11)));
            let parsed = parse_signed_chars(piece, 11, piece.len(), 0x8000_0000u64, 0x7fff_ffffu64);
            match parsed {
                Some(n) => {
                    let ghost sv = parse_signed(piece@.skip(11), -0x8000_0000int, 0x7fff_ffffint);
                    assert(sv is Some);
                    assert(-0x8000_0000int <= sv->0 <= 0x7fff_ffffint);
                    assert(n as int == sv->0);
                    return n as i32;
                },
                None => {
                    return 1;
                },
            }
        }
        k = k + 1;
    }
    1
}

/// A Feishu app connection.
pub struct Feishu<H: ?Sized + HttpClient> {
    pub http: Arc<H>,
    pub domain: String,
    pub app_id: String,
    pub app_secret: String,
    /// The tenant access token and the millisecond it expires at.
    pub token: Mutex<Option<(String, u64)>>,
}

impl<H: ?Sized + HttpClient> Feishu<H> {
    pub fn new(http: Arc<H>, domain: String, app_id: String, app_secret: String) -> (f: Feishu<H>)
        ensures
            f.http == http,
            f.domain == domain,
            f.app_id == app_id,
            f.app_secret == app_secret,
    {
        Feishu { http, domain, app_id, app_secret, token: new_lock(None) }
    }
}

/// What a data frame yields: the event payload of a single-part `event` frame. A frame
/// split in parts (`sum` > 1) is skipped.
pub open spec fn spec_event_payload(frame: Frame) -> Option<Seq<u8>> {
    let hv = header_views(frame.headers@);
    if header_lookup(hv, "type"@) != Some("event"@) {
        None
    } else {
        let sum = match header_lookup(hv, "sum"@) {
            Some(s) => match parse_signed(s, -0x8000_0000int, 0x7fff_ffffint) {
                Some(n) => n,
                None => 1,
            },
            None => 1,
        };
        if sum > 1 {
            None
        } else {
            match frame.payload {
                Some(p) => Some(p@),
                None => None,
            }
        }
    }
}

pub fn event_payload(frame: &Frame) -> (r: Option<&Vec<u8>>)
    ensures
        match r {
            Some(p) => spec_event_payload(*frame) == Some(p@),
            None => spec_event_payload(*frame) is None,
        },
{
    match frame.header("type") {
        Some(t) => if !str_eq(t, "event") {
            return None;
        },
        None => return None,
    }
    let sum: i64 = match frame.header("sum") {
        Some(s) => {
            let v = chars_of(s);
            assert(v@.subrange(0, v@.len() as int) =~= v@);
            match parse_signed_chars(&v, 0, v.len(), 0x8000_0000u64, 0x7fff_ffffu64) {
                Some(n) => n,
                None => 1,
            }
        },
        None => 1,
    };
    if sum > 1 {
        return None;
    }
    match &frame.payload {
        Some(p) => Some(p),
        None => None,
    }
}

pub open spec fn opt_str(o: Option<JsonView>) -> Option<Seq<char>> {
    match o {
        Some(x) => jstr(x),
        None => None,
    }
}

pub open spec fn jpath(j: JsonView, path: Seq<Seq<char>>) -> Option<JsonView>
    decreases path.len(),
{
    if path.len() == 0 {
        Some(j)
    } else {
        match jget(j, path[0]) {
            Some(x) => jpath(x, path.drop_first()),
            None => None,
        }
    }
}

/// The message of a text `im.message.receive_v1` event.
pub open spec fn text_message(v: JsonView) -> Option<JsonView> {
    if opt_str(jpath(v, seq!["header"@, "event_type"@])) != Some("im.message.receive_v1"@) {
        None
    } else {
        match jpath(v, seq!["event"@, "message"@]) {
            Some(m) => if opt_str(jget(m, "message_type"@)) == Some("text"@) { Some(m) } else { None },
            None => None,
        }
    }
}

/// The JSON text in the `content` of a text message event; the caller reads it as JSON.
pub open spec fn spec_event_content(v: JsonView) -> Option<Seq<char>> {
    match text_message(v) {
        Some(m) => opt_str(jget(m, "content"@)),
        None => None,
    }
}

fn path2<'a>(v: &'a Json, a: &str, b: &str) -> (r: Option<&'a Json>)
    ensures
        match r {
            Some(x) => jpath(v@, seq![a@, b@]) == Some(x@),
            None => jpath(v@, seq![a@, b@]) is None,
        },
{
    assert(seq![a@, b@].drop_first() =~= seq![b@]);
    assert(seq![b@].drop_first() =~= Seq::<Seq<char>>::empty());
    proof {
        reveal_with_fuel(jpath, 3);
    }
    match v.get(a) {
        Some(x) => x.get(b),
        None => None,
    }
}

fn text_message_exec(v: &Json) -> (r: Option<&Json>)
    ensures
        match r {
            Some(m) => text_message(v@) == Some(m@),
            None => text_message(v@) is None,
        },
{
    let et = match path2(v, "header", "event_type") {
        Some(x) => x.as_str(),
        None => None,
    };
    match et {
        Some(e) => if !str_eq(e, "im.message.receive_v1") {
            return None;
        },
        None => return None,
    }
    let m = match path2(v, "event", "message") {
        Some(m) => m,
        None => return None,
    };
    let mt = match m.get("message_type") {
        Some(x) => x.as_str(),
        None => None,
    };
    match mt {
        Some(t) => if str_eq(t, "text") { Some(m) } else { None },
        None => None,
    }
}

pub fn event_content(v: &Json) -> (r: Option<String>)
    ensures
        match r {
            Some(c) => spec_event_content(v@) == Some(c@),
            None => spec_event_content(v@) is None,
        },
{
    match text_message_exec(v) {
        Some(m) => match m.get("content") {
            Some(c) => match c.as_str() {
                Some(s) => Some(owned(s)),
                None => None,
            },
            None => None,
        },
        None => None,
    }
}

pub open spec fn opt_string(o: Option<String>) -> Option<Seq<char>> {
    match o {
        Some(s) => Some(s@),
        None => None,
    }
}

/// The inbound message of a text event whose `content` reads as `content`: its `text`,
/// trimmed and non-blank, from the sender's `open_id`, in the event's chat.
pub open spec fn spec_event_inbound(v: JsonView, content: JsonView) -> Option<(Seq<char>, Seq<char>, Option<Seq<char>>)> {
    match text_message(v) {
        None => None,
        Some(m) => match opt_str(jget(content, "text"@)) {
            None => None,
            Some(t) => if trim(t).len() == 0 {
                None
            } else {
                match opt_str(jpath(v, seq!["event"@, "sender"@, "sender_id"@, "open_id"@])) {
                    None => None,
                    Some(open_id) => Some((open_id, trim(t), opt_str(jget(m, "chat_id"@)))),
                }
            },
        },
    }
}

pub fn event_to_inbound(v: &Json, content: &Json, now: &str) -> (r: Option<InboundMessage>)
    ensures
        match spec_event_inbound(v@, content@) {
            None => r is None,
            Some(x) => r matches Some(m) && m.channel@ == "feishu"@ && m.peer_id@ == x.0 && m.text@ == x.1
                && opt_string(m.account) == x.2 && m.peer_name is None && m.kind@ == "text"@
                && m.context_token is None && m.received_at@ == now@,
        },
{
    let m = match text_message_exec(v) {
        Some(m) => m,
        None => return None,
    };
    let t = match content.get("text") {
        Some(x) => match x.as_str() {
            Some(t) => t,
            None => return None,
        },
        None => return None,
    };
    let tv = chars_of(t);
    let (a, b) = trim_bounds(&tv, 0, tv.len());
    assert(tv@.subrange(0, tv@.len() as int) =~= tv@);
    if a == b {
        return None;
    }
    let ghost path: Seq<Seq<char>> = seq!["event"@, "sender"@, "sender_id"@, "open_id"@];
    assert(path.drop_first() =~= seq!["sender"@, "sender_id"@, "open_id"@]);
    assert(path.drop_first().drop_first() =~= seq!["sender_id"@, "open_id"@]);
    assert(path.drop_first().drop_first().drop_first() =~= seq!["open_id"@]);
    assert(path.drop_first().drop_first().drop_first().drop_first() =~= Seq::<Seq<char>>::empty());
    proof {
        reveal_with_fuel(jpath, 5);
    }
    let open_id = match v.get("event") {
        Some(e) => match e.get("sender") {
            Some(s) => match s.get("sender_id") {
                Some(si) => match si.get("open_id") {
                    Some(o) => o.as_str(),
                    None => None,
                },
                None => None,
            },
            None => None,
        },
        None => None,
    };
    let open_id = match open_id {
        Some(o) => o,
        None => return None,
    };
    let account = match m.get("chat_id") {
        Some(c) => match c.as_str() {
            Some(s) => Some(owned(s)),
            None => None,
        },
        None => None,
    };
    Some(
        InboundMessage {
            channel: owned("feishu"),
            account,
            peer_id: owned(open_id),
            peer_name: None,
            text: string_of(&slice_chars(&tv, a, b)),
            kind: owned("text"),
            context_token: None,
            received_at: owned(now),
        },
    )
}

// ---------------------------------------------------------------- replies of the open API

/// `prefix` and `raw`.
fn quote(prefix: &str, raw: &str) -> (r: String)
    ensures
        r@ == prefix@ + raw@,
{
    let mut v = chars_of(prefix);
    extend_chars(&mut v, &chars_of(raw));
    string_of(&v)
}

pub open spec fn spec_read_endpoint(v: JsonView, raw: Seq<char>) -> Result<Seq<char>, Seq<char>> {
    if ji64_at_or(v, "code"@, -1i64) != 0 {
        Err("ws/endpoint 失败："@ + raw)
    } else {
        match jget(v, "data"@) {
            Some(d) => match jstr_at(d, "URL"@) {
                Some(u) => Ok(u),
                None => Err("ws/endpoint 无 URL："@ + raw),
            },
            None => Err("ws/endpoint 无 URL："@ + raw),
        }
    }
}

/// The long-connection URL in a `callback/ws/endpoint` answer `v` (whose text is `raw`):
/// its `code` must be 0 (a missing one counts as -1) and `data.URL` a string.
pub fn read_endpoint(v: &Json, raw: &str) -> (r: Result<String, String>)
    ensures
        match r {
            Ok(u) => spec_read_endpoint(v@, raw@) == Ok::<Seq<char>, Seq<char>>(u@),
            Err(e) => spec_read_endpoint(v@, raw@) == Err::<Seq<char>, Seq<char>>(e@),
        },
{
    if v.i64_at_or("code", -1) != 0 {
        return Err(quote("ws/endpoint 失败：", raw));
    }
    match v.get("data") {
        Some(d) => match d.str_at("URL") {
            Some(u) => Ok(u),
            None => Err(quote("ws/endpoint 无 URL：", raw)),
        },
        None => Err(quote("ws/endpoint 无 URL：", raw)),
    }
}

pub open spec fn spec_read_tenant_token(v: JsonView, raw: Seq<char>) -> Result<(Seq<char>, u64), Seq<char>> {
    match jstr_at(v, "tenant_access_token"@) {
        Some(t) => Ok((t, ju64_at_or(v, "expire"@, 7200))),
        None => Err("tenant_access_token 响应异常："@ + raw),
    }
}

/// The tenant access token in an answer `v` (whose text is `raw`) and its lifetime in
/// seconds (`expire`, 7200 when absent).
pub fn read_tenant_token(v: &Json, raw: &str) -> (r: Result<(String, u64), String>)
    ensures
        match r {
            Ok((t, e)) => spec_read_tenant_token(v@, raw@) == Ok::<(Seq<char>, u64), Seq<char>>((t@, e)),
            Err(e) => spec_read_tenant_token(v@, raw@) == Err::<(Seq<char>, u64), Seq<char>>(e@),
        },
{
    match v.str_at("tenant_access_token") {
        Some(t) => Ok((t, v.u64_at_or("expire", 7200))),
        None => Err(quote("tenant_access_token 响应异常：", raw)),
    }
}

/// Whether a message was sent, by the answer of the messages API: a non-zero `code` (a
/// missing one counts as 0) fails; an answer that is not JSON (`None`) is taken as sent.
pub fn read_send_answer(v: Option<&Json>, raw: &str) -> (r: Result<(), String>)
    ensures
        match v {
            Some(j) => if ji64_at_or(j@, "code"@, 0) != 0 {
                r matches Err(e) && e@ == "飞书 send 失败："@ + raw@
            } else {
                r is Ok
            },
            None => r is Ok,
        },
{
    match v {
        Some(j) => if j.i64_at_or("code", 0) != 0 {
            Err(quote("飞书 send 失败：", raw))
        } else {
            Ok(())
        },
        None => Ok(()),
    }
}

} // verus!
