//! Rows of the remote-access tables and the rules that name a bound account and derive a
//! channel's enabled flag from its status.

use vstd::prelude::*;

use crate::text::{chars_of, extend_chars, owned, slice_chars, str_eq, string_of, trim, trim_bounds};

verus! {

/// An allow-list entry: only these `(channel, peer_id)` pairs may drive the agent.
#[derive(Debug)]
pub struct AllowedPeer {
    pub channel: String,
    pub peer_id: String,
    pub label: Option<String>,
    pub created_at: String,
}

/// The session a `(channel, peer)` pair is bound to, with its paused state.
#[derive(Debug)]
pub struct RemoteBinding {
    pub channel: String,
    pub peer_id: String,
    pub account: Option<String>,
    pub account_name: Option<String>,
    pub session_id: String,
    pub context_token: Option<String>,
    pub pending_kind: Option<String>,
    pub pending_payload: Option<String>,
    pub updated_at: String,
}

/// A platform's on/off state and its non-secret configuration.
#[derive(Debug)]
pub struct RemoteChannelConfig {
    pub channel: String,
    pub enabled: bool,
    pub status: String,
    pub config_json: Option<String>,
    pub last_error: Option<String>,
    pub updated_at: String,
}

/// Longest account name kept, in characters.
pub const ACCOUNT_NAME_MAX_CHARS: usize = 64;

/// A usable account name: trimmed, non-empty, cut to `ACCOUNT_NAME_MAX_CHARS` characters.
pub open spec fn spec_clean_account_name(v: Option<Seq<char>>) -> Option<Seq<char>> {
    match v {
        Some(s) => {
            let t = trim(s);
            if t.len() == 0 {
                None
            } else if t.len() <= ACCOUNT_NAME_MAX_CHARS {
                Some(t)
            } else {
                Some(t.take(ACCOUNT_NAME_MAX_CHARS as int))
            }
        },
        None => None,
    }
}

pub open spec fn opt_str_view(v: Option<&str>) -> Option<Seq<char>> {
    match v {
        Some(s) => Some(s@),
        None => None,
    }
}

pub open spec fn opt_string_view(v: Option<String>) -> Option<Seq<char>> {
    match v {
        Some(s) => Some(s@),
        None => None,
    }
}

pub fn clean_account_name(value: Option<&str>) -> (r: Option<String>)
    ensures
        opt_string_view(r) == spec_clean_account_name(opt_str_view(value)),
{
    match value {
        None => None,
        Some(s) => {
            let v = chars_of(s);
            let (a, b) = trim_bounds(&v, 0, v.len());
            assert(v@.subrange(0, v@.len() as int) =~= v@);
            if a == b {
                None
            } else if b - a <= ACCOUNT_NAME_MAX_CHARS {
                Some(string_of(&slice_chars(&v, a, b)))
            } else {
                let r = slice_chars(&v, a, a + ACCOUNT_NAME_MAX_CHARS);
                assert(r@ =~= v@.subrange(a as int, b as int).take(ACCOUNT_NAME_MAX_CHARS as int));
                Some(string_of(&r))
            }
        },
    }
}

/// A peer id short enough to show: up to eight characters as they are, longer ones as
/// their first four and last two characters around an ellipsis.
pub open spec fn spec_shorten_peer_id(p: Seq<char>) -> Seq<char> {
    if p.len() <= 8 {
        p
    } else {
        p.take(4) + seq!['…'] + p.skip(p.len() - 2)
    }
}

pub fn shorten_peer_id(peer_id: &str) -> (r: String)
    ensures
        r@ == spec_shorten_peer_id(peer_id@),
{
    let v = chars_of(peer_id);
    if v.len() <= 8 {
        return owned(peer_id);
    }
    let mut out = slice_chars(&v, 0, 4);
    out.push('…');
    extend_chars(&mut out, &slice_chars(&v, v.len() - 2, v.len()));
    assert(out@ =~= spec_shorten_peer_id(peer_id@));
    string_of(&out)
}

/// How a channel is named to the user.
pub open spec fn channel_label(channel: Seq<char>) -> Seq<char> {
    if channel == "wechat"@ {
        "微信"@
    } else if channel == "telegram"@ {
        "Telegram"@
    } else if channel == "dingtalk"@ {
        "钉钉"@
    } else if channel == "feishu"@ {
        "飞书"@
    } else {
        channel
    }
}

/// The name given to an account nobody named: channel label, a space, the short peer id.
pub open spec fn spec_generated_account_name(channel: Seq<char>, peer_id: Seq<char>) -> Seq<char> {
    channel_label(channel) + " "@ + spec_shorten_peer_id(peer_id)
}

pub fn generated_account_name(channel: &str, peer_id: &str) -> (r: String)
    ensures
        r@ == spec_generated_account_name(channel@, peer_id@),
{
    let label = if str_eq(channel, "wechat") {
        "微信"
    } else if str_eq(channel, "telegram") {
        "Telegram"
    } else if str_eq(channel, "dingtalk") {
        "钉钉"
    } else if str_eq(channel, "feishu") {
        "飞书"
    } else {
        channel
    };
    let mut out = chars_of(label);
    extend_chars(&mut out, &chars_of(" "));
    let short = shorten_peer_id(peer_id);
    extend_chars(&mut out, &chars_of(short.as_str()));
    string_of(&out)
}

/// The account name stored with a binding: the incoming name, else the one already stored,
/// else the allow-list label, else a generated one; each candidate is cleaned first and
/// skipped when nothing usable is left.
pub open spec fn spec_resolve_account_name(
    channel: Seq<char>,
    peer_id: Seq<char>,
    incoming: Option<Seq<char>>,
    existing: Option<Seq<char>>,
    label: Option<Seq<char>>,
) -> Seq<char> {
    match spec_clean_account_name(incoming) {
        Some(n) => n,
        None => match spec_clean_account_name(existing) {
            Some(n) => n,
            None => match spec_clean_account_name(label) {
                Some(n) => n,
                None => spec_generated_account_name(channel, peer_id),
            },
        },
    }
}

pub fn resolve_account_name(
    channel: &str,
    peer_id: &str,
    incoming: Option<&str>,
    existing: Option<&str>,
    label: Option<&str>,
) -> (r: String)
    ensures
        r@ == spec_resolve_account_name(
            channel@,
            peer_id@,
            opt_str_view(incoming),
            opt_str_view(existing),
            opt_str_view(label),
        ),
{
    if let Some(n) = clean_account_name(incoming) {
        return n;
    }
    if let Some(n) = clean_account_name(existing) {
        return n;
    }
    if let Some(n) = clean_account_name(label) {
        return n;
    }
    generated_account_name(channel, peer_id)
}

/// A channel counts as enabled while it is connecting, connected or in error.
pub open spec fn spec_status_enabled(status: Seq<char>) -> bool {
    status == "connecting"@ || status == "connected"@ || status == "error"@
}

pub fn status_enabled(status: &str) -> (r: bool)
    ensures
        r == spec_status_enabled(status@),
{
    str_eq(status, "connecting") || str_eq(status, "connected") || str_eq(status, "error")
}

/// The status written when a channel is switched on or off.
pub fn switch_status(enabled: bool) -> (r: &'static str)
    ensures
        r@ == (if enabled { "connected"@ } else { "disconnected"@ }),
        spec_status_enabled(r@) == enabled,
{
    proof {
        reveal_strlit("connected");
        reveal_strlit("disconnected");
        reveal_strlit("connecting");
        reveal_strlit("error");
    }
    if enabled {
        "connected"
    } else {
        assert("disconnected"@.len() != "connecting"@.len());
        assert("disconnected"@.len() != "connected"@.len());
        assert("disconnected"@.len() != "error"@.len());
        "disconnected"
    }
}

} // verus!
