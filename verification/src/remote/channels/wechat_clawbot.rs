//! WeChat ClawBot (iLink): QR-code pairing, long-polled `getupdates`, and the
//! per-connector `X-WECHAT-UIN` header.

use std::sync::{Arc, Mutex};

use vstd::prelude::*;

use crate::clock::{duration_subsec_nanos, since_epoch, system_now};
use crate::json::{ji64, jget, jstr, jview, jviews, lemma_jviews, Json, JsonView};
use crate::remote::channels::new_lock;
use crate::remote::connector::InboundMessage;
use crate::remote::http::HttpClient;
use crate::skill::service::{b64, b64_char, b64_group};
use crate::text::{chars_of, contains_at, contains_str, decimal, extend_chars, i64_to_string, owned, signed_decimal, string_of, u64_to_string};

verus! {

/// The default iLink endpoint.
pub const DEFAULT_BASE_URL: &'static str = "https://ilinkai.weixin.qq.com";

/// A pairing code: the id to poll with and the deep link to show as a QR image.
#[derive(Debug, PartialEq, Eq)]
pub struct QrCode {
    pub qrcode: String,
    pub qr_content: String,
}

/// Where a pairing stands.
#[derive(Debug, PartialEq, Eq)]
pub enum PairStatus {
    Wait,
    Scanned,
    Expired,
    Confirmed { bot_token: String, ilink_bot_id: Option<String>, base_url: Option<String> },
}

/// A paired WeChat bot.
pub struct WechatClawbot<H: ?Sized + HttpClient> {
    pub http: Arc<H>,
    pub base_url: String,
    pub account: String,
    /// `Bearer <bot_token>`, the `Authorization` header of every request.
    pub bearer: String,
    /// `X-WECHAT-UIN`, fixed for the connector's lifetime.
    pub uin: String,
    /// The `getupdates` cursor (`get_updates_buf` of the last answer).
    pub cursor: Mutex<String>,
}

// ---------------------------------------------------------------- the UIN header

/// One group of up to three bytes (`k` real) as base64, computed byte by byte.
pub open spec fn ilink_group(b0: u8, b1: u8, b2: u8, k: nat) -> Seq<char> {
    seq![
        b64_char((b0 >> 2u8) as u32),
        b64_char((((b0 & 3u8) << 4u8) | (b1 >> 4u8)) as u32),
        if k > 1 { b64_char((((b1 & 15u8) << 2u8) | (b2 >> 6u8)) as u32) } else { '=' },
        if k > 2 { b64_char((b2 & 63u8) as u32) } else { '=' },
    ]
}

/// Base64 with padding, group by group.
pub open spec fn ilink_b64(s: Seq<u8>) -> Seq<char>
    decreases s.len(),
{
    if s.len() == 0 {
        Seq::empty()
    } else if s.len() == 1 {
        ilink_group(s[0], 0, 0, 1)
    } else if s.len() == 2 {
        ilink_group(s[0], s[1], 0, 2)
    } else {
        ilink_group(s[0], s[1], s[2], 3) + ilink_b64(s.skip(3))
    }
}

proof fn lemma_group_agrees(b0: u8, b1: u8, b2: u8, k: nat)
    ensures
        ilink_group(b0, b1, b2, k) == b64_group(b0, b1, b2, k),
{
    let n: u32 = ((b0 as u32) << 16u32) | ((b1 as u32) << 8u32) | (b2 as u32);
    assert(((b0 >> 2u8) as u32) & 63 == (n >> 18u32) & 63) by (bit_vector)
        requires
            n == ((b0 as u32) << 16u32) | ((b1 as u32) << 8u32) | (b2 as u32),
    ;
    assert(((((b0 & 3u8) << 4u8) | (b1 >> 4u8)) as u32) & 63 == (n >> 12u32) & 63) by (bit_vector)
        requires
            n == ((b0 as u32) << 16u32) | ((b1 as u32) << 8u32) | (b2 as u32),
    ;
    assert(((((b1 & 15u8) << 2u8) | (b2 >> 6u8)) as u32) & 63 == (n >> 6u32) & 63) by (bit_vector)
        requires
            n == ((b0 as u32) << 16u32) | ((b1 as u32) << 8u32) | (b2 as u32),
    ;
    assert(((b2 & 63u8) as u32) & 63 == n & 63) by (bit_vector)
        requires
            n == ((b0 as u32) << 16u32) | ((b1 as u32) << 8u32) | (b2 as u32),
    ;
    assert(ilink_group(b0, b1, b2, k) =~= b64_group(b0, b1, b2, k));
}

/// The connector's byte-by-byte base64 and the skill previews' 24-bit-group base64 give
/// the same text for every input.
pub proof fn law_uin_base64_is_standard_base64(s: Seq<u8>)
    ensures
        ilink_b64(s) == b64(s),
    decreases s.len(),
{
    if s.len() == 1 {
        lemma_group_agrees(s[0], 0, 0, 1);
    } else if s.len() == 2 {
        lemma_group_agrees(s[0], s[1], 0, 2);
    } else if s.len() >= 3 {
        lemma_group_agrees(s[0], s[1], s[2], 3);
        law_uin_base64_is_standard_base64(s.skip(3));
    }
}

fn ilink_digit(i: u8) -> (c: char)
    requires
        i < 64,
    ensures
        c == b64_char(i as u32),
{
    assert((i as u32) & 63 == i as u32) by (bit_vector)
        requires
            i < 64,
    ;
    if i < 26 {
        (65 + i) as char
    } else if i < 52 {
        (97 + i - 26) as char
    } else if i < 62 {
        (48 + i - 52) as char
    } else if i == 62 {
        '+'
    } else {
        '/'
    }
}

/// Base64 of a short byte string (the UIN header).
pub fn b64_bytes(input: &Vec<u8>) -> (r: String)
    ensures
        r@ == ilink_b64(input@),
{
    let mut out: Vec<char> = Vec::new();
    let mut i: usize = 0;
    assert(input@.skip(0) =~= input@);
    while i < input.len()
        invariant
            i <= input.len(),
            out@ + ilink_b64(input@.skip(i as int)) == ilink_b64(input@),
        decreases input.len() - i,
    {
        let ghost rest = input@.skip(i as int);
        let ghost before = out@;
        let k = input.len() - i;
        let b0 = input[i];
        let b1 = if k > 1 { input[i + 1] } else { 0 };
        let b2 = if k > 2 { input[i + 2] } else { 0 };
        assert(b0 >> 2u8 < 64) by (bit_vector);
        assert(((b0 & 3u8) << 4u8) | (b1 >> 4u8) < 64) by (bit_vector);
        assert(((b1 & 15u8) << 2u8) | (b2 >> 6u8) < 64) by (bit_vector);
        assert(b2 & 63u8 < 64) by (bit_vector);
        out.push(ilink_digit(b0 >> 2u8));
        out.push(ilink_digit(((b0 & 3u8) << 4u8) | (b1 >> 4u8)));
        out.push(if k > 1 { ilink_digit(((b1 & 15u8) << 2u8) | (b2 >> 6u8)) } else { '=' });
        out.push(if k > 2 { ilink_digit(b2 & 63u8) } else { '=' });
        if k > 2 {
            assert(rest.skip(3) =~= input@.skip(i + 3));
            assert(out@ + ilink_b64(input@.skip(i + 3)) =~= before + ilink_b64(rest));
            i = i + 3;
        } else {
            assert(out@ =~= before + ilink_b64(rest));
            assert(input@.skip(input.len() as int) =~= Seq::<u8>::empty());
            assert(out@ + ilink_b64(input@.skip(input.len() as int)) =~= out@);
            i = input.len();
        }
    }
    assert(input@.skip(i as int) =~= Seq::<u8>::empty());
    assert(out@ + Seq::<char>::empty() =~= out@);
    string_of(&out)
}

/// The ASCII bytes of a string of ASCII characters.
pub open spec fn ascii_bytes(s: Seq<char>) -> Seq<u8> {
    s.map_values(|c: char| c as u8)
}

/// `X-WECHAT-UIN`: base64 of the decimal spelling of the clock's sub-second nanoseconds,
/// a number below one billion that differs between connectors.
pub fn gen_uin() -> (r: String)
    ensures
        exists|n: u32| n < 1_000_000_000 && #[trigger] r@ == ilink_b64(ascii_bytes(decimal(n as nat))),
{
    let n: u32 = match since_epoch(&system_now()) {
        Some(d) => duration_subsec_nanos(&d),
        None => 0,
    };
    let digits = chars_of(u64_to_string(n as u64).as_str());
    let mut bytes: Vec<u8> = Vec::new();
    let mut i: usize = 0;
    while i < digits.len()
        invariant
            i <= digits.len(),
            bytes@ == ascii_bytes(digits@.take(i as int)),
        decreases digits.len() - i,
    {
        bytes.push(digits[i] as u8);
        i = i + 1;
        assert(bytes@ =~= ascii_bytes(digits@.take(i as int)));
    }
    assert(digits@.take(digits.len() as int) =~= digits@);
    let r = b64_bytes(&bytes);
    assert(r@ == ilink_b64(ascii_bytes(decimal(n as nat))));
    r
}

impl<H: ?Sized + HttpClient> WechatClawbot<H> {
    /// A connector for the bot token obtained by pairing.
    pub fn with_token(http: Arc<H>, base_url: String, bot_token: String, account: String) -> (w: WechatClawbot<H>)
        ensures
            w.http == http,
            w.base_url == base_url,
            w.account == account,
            w.bearer@ == "Bearer "@ + bot_token@,
    {
        let mut b = chars_of("Bearer ");
        extend_chars(&mut b, &chars_of(bot_token.as_str()));
        WechatClawbot { http, base_url, account, bearer: string_of(&b), uin: gen_uin(), cursor: new_lock(String::new()) }
    }

    /// The headers of every business request.
    pub fn headers(&self) -> (h: Vec<(&str, &str)>)
        ensures
            h@.len() == 3,
            h@[0].0@ == "AuthorizationType"@ && h@[0].1@ == "ilink_bot_token"@,
            h@[1].0@ == "Authorization"@ && h@[1].1@ == self.bearer@,
            h@[2].0@ == "X-WECHAT-UIN"@ && h@[2].1@ == self.uin@,
    {
        let mut h: Vec<(&str, &str)> = Vec::new();
        h.push(("AuthorizationType", "ilink_bot_token"));
        h.push(("Authorization", self.bearer.as_str()));
        h.push(("X-WECHAT-UIN", self.uin.as_str()));
        h
    }
}

// ---------------------------------------------------------------- reading iLink answers

pub open spec fn opt_str(o: Option<JsonView>) -> Option<Seq<char>> {
    match o {
        Some(x) => jstr(x),
        None => None,
    }
}

pub open spec fn jpath(j: JsonView, a: Seq<char>, b: Seq<char>) -> Option<JsonView> {
    match jget(j, a) {
        Some(x) => jget(x, b),
        None => None,
    }
}

/// A field read at the top level, else under `data`.
pub open spec fn str_at(v: JsonView, key: Seq<char>) -> Option<Seq<char>> {
    match opt_str(jget(v, key)) {
        Some(s) => Some(s),
        None => opt_str(jpath(v, "data"@, key)),
    }
}

fn get_str<'a>(v: &'a Json, key: &str) -> (r: Option<&'a str>)
    ensures
        match r {
            Some(s) => opt_str(jget(v@, key@)) == Some(s@),
            None => opt_str(jget(v@, key@)) is None,
        },
{
    match v.get(key) {
        Some(x) => x.as_str(),
        None => None,
    }
}

fn str_at_exec(v: &Json, key: &str) -> (r: Option<String>)
    ensures
        match r {
            Some(s) => str_at(v@, key@) == Some(s@),
            None => str_at(v@, key@) is None,
        },
{
    if let Some(s) = get_str(v, key) {
        return Some(owned(s));
    }
    match v.get("data") {
        Some(d) => match get_str(d, key) {
            Some(s) => Some(owned(s)),
            None => None,
        },
        None => None,
    }
}

/// The first non-empty `text_item.text` of a message's `item_list`.
pub open spec fn first_text(items: Seq<JsonView>) -> Option<Seq<char>>
    decreases items.len(),
{
    if items.len() == 0 {
        None
    } else {
        match opt_str(jpath(items[0], "text_item"@, "text"@)) {
            Some(t) => if t.len() > 0 { Some(t) } else { first_text(items.drop_first()) },
            None => first_text(items.drop_first()),
        }
    }
}

pub open spec fn spec_extract_text(msg: JsonView) -> Option<Seq<char>> {
    match jget(msg, "item_list"@) {
        Some(JsonView::Array(items)) => first_text(items),
        _ => None,
    }
}

pub fn extract_text(msg: &Json) -> (r: Option<String>)
    ensures
        match r {
            Some(s) => spec_extract_text(msg@) == Some(s@),
            None => spec_extract_text(msg@) is None,
        },
{
    let items = match msg.get("item_list") {
        Some(x) => match x.as_array() {
            Some(a) => a,
            None => return None,
        },
        None => return None,
    };
    let ghost iv = jviews(items@);
    proof {
        lemma_jviews(items@);
    }
    assert(iv.skip(0) =~= iv);
    let mut i: usize = 0;
    while i < items.len()
        invariant
            i <= items.len(),
            iv == jviews(items@),
            iv.len() == items.len(),
            forall|q: int| 0 <= q < items.len() ==> #[trigger] iv[q] == jview(items@[q]),
            spec_extract_text(msg@) == first_text(iv.skip(i as int)),
        decreases items.len() - i,
    {
        assert(iv.skip(i as int)[0] == iv[i as int]);
        assert(iv.skip(i as int).drop_first() =~= iv.skip(i + 1));
        let t = match items[i].get("text_item") {
            Some(ti) => get_str(ti, "text"),
            None => None,
        };
        if let Some(t) = t {
            if chars_of(t).len() > 0 {
                return Some(owned(t));
            }
        }
        i = i + 1;
    }
    None
}

/// The message a `getupdates` entry yields: one with a sender and some text.
pub open spec fn wechat_message(m: JsonView) -> Option<(Seq<char>, Seq<char>, Option<Seq<char>>)> {
    let peer = match opt_str(jget(m, "from_user_id"@)) {
        Some(p) => p,
        None => Seq::empty(),
    };
    if peer.len() == 0 {
        None
    } else {
        match spec_extract_text(m) {
            Some(t) => Some((peer, t, opt_str(jget(m, "context_token"@)))),
            None => None,
        }
    }
}

pub open spec fn wechat_messages(ms: Seq<JsonView>) -> Seq<(Seq<char>, Seq<char>, Option<Seq<char>>)>
    decreases ms.len(),
{
    if ms.len() == 0 {
        Seq::empty()
    } else {
        let rest = wechat_messages(ms.drop_last());
        match wechat_message(ms.last()) {
            Some(x) => rest.push(x),
            None => rest,
        }
    }
}

pub open spec fn opt_string(o: Option<String>) -> Option<Seq<char>> {
    match o {
        Some(s) => Some(s@),
        None => None,
    }
}

/// An inbound WeChat message as the router sees it.
pub open spec fn wechat_inbound(m: InboundMessage, x: (Seq<char>, Seq<char>, Option<Seq<char>>), account: Seq<char>, now: Seq<char>) -> bool {
    &&& m.channel@ == "wechat"@
    &&& opt_string(m.account) == Some(account)
    &&& m.peer_id@ == x.0
    &&& m.peer_name is None
    &&& m.text@ == x.1
    &&& m.kind@ == "text"@
    &&& opt_string(m.context_token) == x.2
    &&& m.received_at@ == now
}

pub open spec fn msg_list(v: JsonView) -> Seq<JsonView> {
    match jget(v, "msgs"@) {
        Some(JsonView::Array(ms)) => ms,
        _ => Seq::empty(),
    }
}

/// Reads a `getupdates` answer: the new cursor (`get_updates_buf`, when given) and the
/// text messages with a sender, in order; media-only messages are skipped.
pub fn read_updates(v: &Json, account: &str, now: &str) -> (r: (Vec<InboundMessage>, Option<String>))
    ensures
        opt_string(r.1) == opt_str(jget(v@, "get_updates_buf"@)),
        r.0.len() == wechat_messages(msg_list(v@)).len(),
        forall|i: int| 0 <= i < r.0.len() ==> wechat_inbound(#[trigger] r.0@[i], wechat_messages(msg_list(v@))[i], account@, now@),
{
    let cursor = match get_str(v, "get_updates_buf") {
        Some(s) => Some(owned(s)),
        None => None,
    };
    let mut out: Vec<InboundMessage> = Vec::new();
    let ghost ms = msg_list(v@);
    match v.get("msgs") {
        Some(x) => match x.as_array() {
            Some(arr) => {
                proof {
                    lemma_jviews(arr@);
                }
                assert(ms == jviews(arr@));
                assert(ms.take(0) =~= Seq::<JsonView>::empty());
                let mut i: usize = 0;
                while i < arr.len()
                    invariant
                        i <= arr.len(),
                        ms == jviews(arr@),
                        ms.len() == arr.len(),
                        forall|q: int| 0 <= q < arr.len() ==> #[trigger] ms[q] == jview(arr@[q]),
                        out.len() == wechat_messages(ms.take(i as int)).len(),
                        forall|q: int| 0 <= q < out.len() ==> wechat_inbound(#[trigger] out@[q], wechat_messages(ms.take(i as int))[q], account@, now@),
                    decreases arr.len() - i,
                {
                    assert(ms.take(i + 1).drop_last() =~= ms.take(i as int));
                    assert(ms.take(i + 1).last() == ms[i as int]);
                    let m = &arr[i];
                    assert(ms[i as int] == m@);
                    proof {
                        reveal_strlit("");
                    }
                    let peer = match get_str(m, "from_user_id") {
                        Some(p) => p,
                        None => "",
                    };
                    let ghost before = out@;
                    if chars_of(peer).len() > 0 {
                        if let Some(text) = extract_text(m) {
                            let ctx = match get_str(m, "context_token") {
                                Some(c) => Some(owned(c)),
                                None => None,
                            };
                            let msg = InboundMessage {
                                channel: owned("wechat"),
                                account: Some(owned(account)),
                                peer_id: owned(peer),
                                peer_name: None,
                                text,
                                kind: owned("text"),
                                context_token: ctx,
                                received_at: owned(now),
                            };
                            assert(wechat_message(m@) == Some((msg.peer_id@, msg.text@, opt_string(msg.context_token))));
                            assert(wechat_inbound(msg, wechat_message(m@)->0, account@, now@));
                            out.push(msg);
                            assert(wechat_messages(ms.take(i + 1)) == wechat_messages(ms.take(i as int)).push(wechat_message(m@)->0));
                        } else {
                            assert(wechat_message(m@) is None);
                        }
                    } else {
                        assert(wechat_message(m@) is None);
                    }
                    i = i + 1;
                }
                assert(ms.take(arr.len() as int) =~= ms);
            },
            None => {
                assert(ms =~= Seq::<JsonView>::empty());
            },
        },
        None => {
            assert(ms =~= Seq::<JsonView>::empty());
        },
    }
    (out, cursor)
}

/// The `ret` code of an answer (0 when absent or not an integer).
pub open spec fn ret_code(v: JsonView) -> i64 {
    match jget(v, "ret"@) {
        Some(x) => match ji64(x) {
            Some(n) => n,
            None => 0,
        },
        None => 0,
    }
}

fn ret_of(v: &Json) -> (r: i64)
    ensures
        r == ret_code(v@),
{
    match v.get("ret") {
        Some(x) => match x.as_i64() {
            Some(n) => n,
            None => 0,
        },
        None => 0,
    }
}

pub open spec fn qr_result_view(r: Result<QrCode, String>) -> Result<(Seq<char>, Seq<char>), Seq<char>> {
    match r {
        Ok(q) => Ok((q.qrcode@, q.qr_content@)),
        Err(e) => Err(e@),
    }
}

/// Reads a `get_bot_qrcode` answer: a non-zero `ret` fails; the polling id (`qrcode`) and
/// the deep link (`qrcode_img_content`) are read at the top level or under `data`.
pub open spec fn spec_qrcode(v: JsonView) -> Result<(Seq<char>, Seq<char>), Seq<char>> {
    if ret_code(v) != 0 {
        Err("get_bot_qrcode 失败 ret="@ + signed_decimal(ret_code(v) as int))
    } else {
        match str_at(v, "qrcode"@) {
            None => Err("get_bot_qrcode：缺少 qrcode 字段"@),
            Some(q) => match str_at(v, "qrcode_img_content"@) {
                None => Err("get_bot_qrcode：缺少 qrcode_img_content 字段"@),
                Some(c) => Ok((q, c)),
            },
        }
    }
}

pub fn read_qrcode(v: &Json) -> (r: Result<QrCode, String>)
    ensures
        qr_result_view(r) == spec_qrcode(v@),
{
    let ret = ret_of(v);
    if ret != 0 {
        let mut e = chars_of("get_bot_qrcode 失败 ret=");
        extend_chars(&mut e, &chars_of(i64_to_string(ret).as_str()));
        return Err(string_of(&e));
    }
    let qrcode = match str_at_exec(v, "qrcode") {
        Some(q) => q,
        None => return Err(owned("get_bot_qrcode：缺少 qrcode 字段")),
    };
    let qr_content = match str_at_exec(v, "qrcode_img_content") {
        Some(c) => c,
        None => return Err(owned("get_bot_qrcode：缺少 qrcode_img_content 字段")),
    };
    Ok(QrCode { qrcode, qr_content })
}

/// `str::to_lowercase` (Unicode lower case); its result is named, as Unicode case
/// mapping takes tables to state.
pub uninterp spec fn lowercase(s: Seq<char>) -> Seq<char>;

/// `str::to_lowercase`: the result equals `lowercase` of the argument.
#[verifier::external_body]
fn to_lowercase(s: &str) -> (r: String)
    ensures
        r@ == lowercase(s@),
{
    s.to_lowercase()
}

pub enum PairStatusView {
    Wait,
    Scanned,
    Expired,
    Confirmed(Seq<char>, Option<Seq<char>>, Option<Seq<char>>),
}

pub open spec fn status_result_view(r: Result<PairStatus, String>) -> Result<PairStatusView, Seq<char>> {
    match r {
        Ok(PairStatus::Wait) => Ok(PairStatusView::Wait),
        Ok(PairStatus::Scanned) => Ok(PairStatusView::Scanned),
        Ok(PairStatus::Expired) => Ok(PairStatusView::Expired),
        Ok(PairStatus::Confirmed { bot_token, ilink_bot_id, base_url }) => Ok(
            PairStatusView::Confirmed(bot_token@, opt_string(ilink_bot_id), opt_string(base_url)),
        ),
        Err(e) => Err(e@),
    }
}

/// Reads a `get_qrcode_status` answer by substring of its lower-cased `status`:
/// `confirm` (which must carry `bot_token`), then `scan`, then `expire`, else waiting.
pub open spec fn spec_pair_status(v: JsonView) -> Result<PairStatusView, Seq<char>> {
    let st = lowercase(
        match str_at(v, "status"@) {
            Some(s) => s,
            None => Seq::empty(),
        },
    );
    if contains_at(st, "confirm"@) {
        match str_at(v, "bot_token"@) {
            None => Err("confirmed：缺少 bot_token"@),
            Some(t) => Ok(PairStatusView::Confirmed(t, str_at(v, "ilink_bot_id"@), str_at(v, "baseurl"@))),
        }
    } else if contains_at(st, "scan"@) {
        Ok(PairStatusView::Scanned)
    } else if contains_at(st, "expire"@) {
        Ok(PairStatusView::Expired)
    } else {
        Ok(PairStatusView::Wait)
    }
}

pub fn read_pair_status(v: &Json) -> (r: Result<PairStatus, String>)
    ensures
        status_result_view(r) == spec_pair_status(v@),
{
    let raw = match str_at_exec(v, "status") {
        Some(s) => s,
        None => String::new(),
    };
    let st = chars_of(to_lowercase(raw.as_str()).as_str());
    if contains_str(&st, "confirm") {
        match str_at_exec(v, "bot_token") {
            None => Err(owned("confirmed：缺少 bot_token")),
            Some(bot_token) => Ok(
                PairStatus::Confirmed {
                    bot_token,
                    ilink_bot_id: str_at_exec(v, "ilink_bot_id"),
                    base_url: str_at_exec(v, "baseurl"),
                },
            ),
        }
    } else if contains_str(&st, "scan") {
        Ok(PairStatus::Scanned)
    } else if contains_str(&st, "expire") {
        Ok(PairStatus::Expired)
    } else {
        Ok(PairStatus::Wait)
    }
}

/// Whether a `sendmessage` went through: a non-zero `ret` fails; an answer that is not
/// JSON (`None`) is taken as sent.
pub fn read_send_answer(v: Option<&Json>) -> (r: Result<(), String>)
    ensures
        match v {
            Some(j) => if ret_code(j@) != 0 {
                r matches Err(e) && e@ == "sendmessage 失败 ret="@ + signed_decimal(ret_code(j@) as int)
            } else {
                r is Ok
            },
            None => r is Ok,
        },
{
    match v {
        Some(j) => {
            let ret = ret_of(j);
            if ret != 0 {
                let mut e = chars_of("sendmessage 失败 ret=");
                extend_chars(&mut e, &chars_of(i64_to_string(ret).as_str()));
                Err(string_of(&e))
            } else {
                Ok(())
            }
        },
        None => Ok(()),
    }
}

} // verus!
