//! Telegram Bot API: long-polled `getUpdates`, replies by `sendMessage`.

use std::sync::{Arc, Mutex};

use vstd::prelude::*;

use crate::json::{ji64, jget, jstr, jview, jviews, lemma_jviews, Json, JsonView};
use crate::remote::channels::new_lock;
use crate::remote::connector::InboundMessage;
use crate::remote::http::HttpClient;
use crate::text::{chars_of, extend_chars, i64_to_string, owned, parse_signed, parse_signed_chars, signed_decimal, string_of};

verus! {

/// The Bot API endpoint.
pub const DEFAULT_BASE_URL: &'static str = "https://api.telegram.org";

/// A Telegram bot.
pub struct Telegram<H: ?Sized + HttpClient> {
    pub http: Arc<H>,
    pub base_url: String,
    pub token: String,
    /// The next `getUpdates` offset: one past the largest update id seen.
    pub offset: Mutex<i64>,
}

impl<H: ?Sized + HttpClient> Telegram<H> {
    pub fn new(http: Arc<H>, base_url: String, token: String) -> (t: Telegram<H>)
        ensures
            t.http == http,
            t.base_url == base_url,
            t.token == token,
    {
        Telegram { http, base_url, token, offset: new_lock(0i64) }
    }

    /// `{base}/bot{token}/{method}`.
    pub fn api_url(&self, method: &str) -> (r: String)
        ensures
            r@ == self.base_url@ + "/bot"@ + self.token@ + "/"@ + method@,
    {
        let mut out = chars_of(self.base_url.as_str());
        extend_chars(&mut out, &chars_of("/bot"));
        extend_chars(&mut out, &chars_of(self.token.as_str()));
        extend_chars(&mut out, &chars_of("/"));
        extend_chars(&mut out, &chars_of(method));
        string_of(&out)
    }
}

pub open spec fn jpath(j: JsonView, a: Seq<char>, b: Seq<char>) -> Option<JsonView> {
    match jget(j, a) {
        Some(x) => jget(x, b),
        None => None,
    }
}

pub open spec fn opt_i64(o: Option<JsonView>) -> Option<i64> {
    match o {
        Some(x) => ji64(x),
        None => None,
    }
}

pub open spec fn opt_str(o: Option<JsonView>) -> Option<Seq<char>> {
    match o {
        Some(x) => jstr(x),
        None => None,
    }
}

/// The fields read from one update: the chat id and text of a text message, and the
/// sender's user name.
pub struct UpdateText {
    pub chat_id: i64,
    pub text: Seq<char>,
    pub username: Option<Seq<char>>,
}

/// An update carries a message with a numeric `chat.id` and a `text`; anything else
/// (edits, callbacks, media) is skipped.
pub open spec fn update_text(u: JsonView) -> Option<UpdateText> {
    match jget(u, "message"@) {
        Some(m) => match opt_i64(jpath(m, "chat"@, "id"@)) {
            Some(chat_id) => match opt_str(jget(m, "text"@)) {
                Some(text) => Some(UpdateText { chat_id, text, username: opt_str(jpath(m, "from"@, "username"@)) }),
                None => None,
            },
            None => None,
        },
        None => None,
    }
}

/// The largest update id among `us`, starting from `m`.
pub open spec fn max_update(us: Seq<JsonView>, m: int) -> int
    decreases us.len(),
{
    if us.len() == 0 {
        m
    } else {
        let prev = max_update(us.drop_last(), m);
        match opt_i64(jget(us.last(), "update_id"@)) {
            Some(id) => if id > prev { id as int } else { prev },
            None => prev,
        }
    }
}

/// The messages of a batch of updates, in order.
pub open spec fn update_messages(us: Seq<JsonView>) -> Seq<UpdateText>
    decreases us.len(),
{
    if us.len() == 0 {
        Seq::empty()
    } else {
        let rest = update_messages(us.drop_last());
        match update_text(us.last()) {
            Some(t) => rest.push(t),
            None => rest,
        }
    }
}

pub open spec fn update_list(v: JsonView) -> Seq<JsonView> {
    match jget(v, "result"@) {
        Some(JsonView::Array(us)) => us,
        _ => Seq::empty(),
    }
}

pub open spec fn opt_string(o: Option<String>) -> Option<Seq<char>> {
    match o {
        Some(s) => Some(s@),
        None => None,
    }
}

/// An inbound Telegram message as the router sees it.
pub open spec fn telegram_inbound(m: InboundMessage, t: UpdateText, now: Seq<char>) -> bool {
    &&& m.channel@ == "telegram"@
    &&& m.account is None
    &&& m.peer_id@ == signed_decimal(t.chat_id as int)
    &&& opt_string(m.peer_name) == t.username
    &&& m.text@ == t.text
    &&& m.kind@ == "text"@
    &&& m.context_token is None
    &&& m.received_at@ == now
}

/// Reads a `getUpdates` answer polled with `offset`: `None` unless it says `ok`; else the
/// text messages and the next offset, one past the largest update id seen (the offset
/// stays when the batch is empty).
pub fn read_updates(v: &Json, offset: i64, now: &str) -> (r: Option<(Vec<InboundMessage>, i64)>)
    requires
        offset > i64::MIN,
        max_update(update_list(v@), offset - 1) < i64::MAX,
    ensures
        match jget(v@, "ok"@) {
            Some(JsonView::Bool(true)) => r matches Some((msgs, next)) && next == max_update(update_list(v@), offset - 1) + 1
                && msgs.len() == update_messages(update_list(v@)).len()
                && forall|i: int| 0 <= i < msgs.len() ==> telegram_inbound(#[trigger] msgs@[i], update_messages(update_list(v@))[i], now@),
            _ => r is None,
        },
{
    match v.get("ok") {
        Some(x) => match x.as_bool() {
            Some(true) => {},
            _ => return None,
        },
        None => return None,
    }
    let mut out: Vec<InboundMessage> = Vec::new();
    let mut max_seen: i64 = offset - 1;
    let ghost us = update_list(v@);
    match v.get("result") {
        Some(x) => match x.as_array() {
            Some(arr) => {
                proof {
                    lemma_jviews(arr@);
                }
                assert(us == jviews(arr@));
                assert(us.take(0) =~= Seq::<JsonView>::empty());
                let mut i: usize = 0;
                while i < arr.len()
                    invariant
                        i <= arr.len(),
                        us == jviews(arr@),
                        us.len() == arr.len(),
                        forall|q: int| 0 <= q < arr.len() ==> #[trigger] us[q] == jview(arr@[q]),
                        max_seen == max_update(us.take(i as int), offset - 1),
                        max_update(us, offset - 1) < i64::MAX,
                        out.len() == update_messages(us.take(i as int)).len(),
                        forall|q: int| 0 <= q < out.len() ==> telegram_inbound(#[trigger] out@[q], update_messages(us.take(i as int))[q], now@),
                    decreases arr.len() - i,
                {
                    let ghost prefix = us.take(i + 1);
                    assert(prefix.drop_last() =~= us.take(i as int));
                    assert(prefix.last() == us[i as int]);
                    let u = &arr[i];
                    match u.get("update_id") {
                        Some(idv) => match idv.as_i64() {
                            Some(id) => if id > max_seen {
                                max_seen = id;
                            },
                            None => {},
                        },
                        None => {},
                    }
                    proof {
                        lemma_max_update_prefix(us, offset - 1, i + 1);
                    }
                    let msg = match u.get("message") {
                        Some(m) => {
                            let chat = match m.get("chat") {
                                Some(c) => match c.get("id") {
                                    Some(idv) => idv.as_i64(),
                                    None => None,
                                },
                                None => None,
                            };
                            let text = match m.get("text") {
                                Some(t) => t.as_str(),
                                None => None,
                            };
                            match (chat, text) {
                                (Some(chat_id), Some(text)) => {
                                    let username = match m.get("from") {
                                        Some(f) => match f.get("username") {
                                            Some(n) => match n.as_str() {
                                                Some(s) => Some(owned(s)),
                                                None => None,
                                            },
                                            None => None,
                                        },
                                        None => None,
                                    };
                                    Some(InboundMessage {
                                        channel: owned("telegram"),
                                        account: None,
                                        peer_id: i64_to_string(chat_id),
                                        peer_name: username,
                                        text: owned(text),
                                        kind: owned("text"),
                                        context_token: None,
                                        received_at: owned(now),
                                    })
                                },
                                _ => None,
                            }
                        },
                        None => None,
                    };
                    match msg {
                        Some(m) => {
                            assert(update_text(us[i as int]) is Some);
                            out.push(m);
                        },
                        None => {
                            assert(update_text(us[i as int]) is None);
                        },
                    }
                    i = i + 1;
                }
                assert(us.take(arr.len() as int) =~= us);
            },
            None => {
                assert(us =~= Seq::<JsonView>::empty());
            },
        },
        None => {
            assert(us =~= Seq::<JsonView>::empty());
        },
    }
    Some((out, max_seen + 1))
}

proof fn lemma_max_update_prefix(us: Seq<JsonView>, m: int, k: int)
    requires
        0 <= k <= us.len(),
    ensures
        max_update(us.take(k), m) <= max_update(us, m),
        m <= max_update(us.take(k), m),
    decreases us.len(),
{
    lemma_max_update_ge(us.take(k), m);
    if k < us.len() {
        assert(us.drop_last().take(k) =~= us.take(k));
        lemma_max_update_prefix(us.drop_last(), m, k);
    } else {
        assert(us.take(k) =~= us);
    }
}

proof fn lemma_max_update_ge(us: Seq<JsonView>, m: int)
    ensures
        m <= max_update(us, m),
    decreases us.len(),
{
    if us.len() > 0 {
        lemma_max_update_ge(us.drop_last(), m);
    }
}

/// The chat id of a reply: a number when the peer id spells one (`parse::<i64>`), else
/// the peer id as text (a `@username`).
pub fn chat_id_number(peer_id: &str) -> (r: Option<i64>)
    ensures
        r == match parse_signed(peer_id@, -0x8000_0000_0000_0000int, 0x7fff_ffff_ffff_ffffint) {
            Some(n) => Some(n as i64),
            None => None::<i64>,
        },
{
    let v = chars_of(peer_id);
    assert(v@.subrange(0, v@.len() as int) =~= v@);
    parse_signed_chars(&v, 0, v.len(), 0x8000_0000_0000_0000u64, 0x7fff_ffff_ffff_ffffu64)
}


/// Whether `read_updates` can take this answer: the next offset it computes fits in 64
/// bits (it does unless some update id is the largest 64-bit integer).
pub fn updates_in_range(v: &Json, offset: i64) -> (r: bool)
    ensures
        r == (offset > i64::MIN && max_update(update_list(v@), offset - 1) < i64::MAX),
{
    if offset == i64::MIN {
        return false;
    }
    let mut m: i64 = offset - 1;
    let ghost us = update_list(v@);
    match v.get("result") {
        Some(x) => match x.as_array() {
            Some(arr) => {
                proof {
                    lemma_jviews(arr@);
                }
                assert(us == jviews(arr@));
                assert(us.take(0) =~= Seq::<JsonView>::empty());
                let mut i: usize = 0;
                while i < arr.len()
                    invariant
                        i <= arr.len(),
                        us == jviews(arr@),
                        us.len() == arr.len(),
                        forall|q: int| 0 <= q < arr.len() ==> #[trigger] us[q] == jview(arr@[q]),
                        m == max_update(us.take(i as int), offset - 1),
                    decreases arr.len() - i,
                {
                    assert(us.take(i + 1).drop_last() =~= us.take(i as int));
                    assert(us.take(i + 1).last() == us[i as int]);
                    match arr[i].get("update_id") {
                        Some(idv) => match idv.as_i64() {
                            Some(id) => if id > m {
                                m = id;
                            },
                            None => {},
                        },
                        None => {},
                    }
                    i = i + 1;
                }
                assert(us.take(arr.len() as int) =~= us);
            },
            None => {
                assert(us =~= Seq::<JsonView>::empty());
            },
        },
        None => {
            assert(us =~= Seq::<JsonView>::empty());
        },
    }
    m < i64::MAX
}

/// Whether a `sendMessage` went through: the answer's `ok` must be `true`; an answer that
/// is not JSON (`None`) is taken as sent. `raw` is the answer's text, quoted in the error.
pub fn read_send_answer(v: Option<&Json>, raw: &str) -> (r: Result<(), String>)
    ensures
        match v {
            Some(j) => if jget(j@, "ok"@) == Some(JsonView::Bool(true)) {
                r is Ok
            } else {
                r matches Err(e) && e@ == "sendMessage 失败："@ + raw@
            },
            None => r is Ok,
        },
{
    match v {
        Some(j) => {
            let ok = match j.get("ok") {
                Some(x) => match x.as_bool() {
                    Some(b) => b,
                    None => false,
                },
                None => false,
            };
            if ok {
                Ok(())
            } else {
                let mut e = chars_of("sendMessage 失败：");
                extend_chars(&mut e, &chars_of(raw));
                Err(string_of(&e))
            }
        },
        None => Ok(()),
    }
}

} // verus!
