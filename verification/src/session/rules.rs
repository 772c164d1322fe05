//! What the session store accepts and normalises before it writes: working modes, run
//! roles, owning agents, the titles of child sessions and changes to session groups.

use vstd::prelude::*;

use crate::text::{chars_of, extend_chars, nonempty_trim, ostr, owned, str_eq, string_of, trim, trimmed_nonempty};

verus! {

/// The working mode of a session as stored: a blank or missing value reads as `normal`.
pub fn session_mode(stored: Option<String>) -> (r: String)
    ensures
        r@ == (match stored {
            Some(s) => if trim(s@).len() > 0 { s@ } else { "normal"@ },
            None => "normal"@,
        }),
{
    match stored {
        Some(s) => {
            if trimmed_nonempty(s.as_str()).is_some() {
                s
            } else {
                owned("normal")
            }
        },
        None => owned("normal"),
    }
}

/// A working mode the store accepts: `normal` or `plan`.
pub fn check_session_mode(mode: &str) -> (r: Result<(), String>)
    ensures
        (mode@ == "normal"@ || mode@ == "plan"@) ==> r is Ok,
        !(mode@ == "normal"@ || mode@ == "plan"@) ==> (r matches Err(e) && e@ == "非法会话模式："@ + mode@
            + "（仅支持 normal | plan）"@),
{
    if str_eq(mode, "normal") || str_eq(mode, "plan") {
        Ok(())
    } else {
        let mut out = chars_of("非法会话模式：");
        extend_chars(&mut out, &chars_of(mode));
        extend_chars(&mut out, &chars_of("（仅支持 normal | plan）"));
        Err(string_of(&out))
    }
}

pub open spec fn opt_trim(o: Option<&str>) -> Option<Seq<char>> {
    match o {
        Some(s) => nonempty_trim(s@),
        None => None,
    }
}

fn opt_trimmed(o: Option<&str>) -> (r: Option<String>)
    ensures
        ostr(r) == opt_trim(o),
{
    match o {
        Some(s) => trimmed_nonempty(s),
        None => None,
    }
}

/// The run role of a session: a kind and an id, both trimmed. Unless both are given the
/// role is cleared (`None`); a kind other than `expert` or `team` is refused.
pub fn normalize_role(kind: Option<&str>, id: Option<&str>) -> (r: Result<Option<(String, String)>, String>)
    ensures
        match (opt_trim(kind), opt_trim(id)) {
            (Some(k), Some(i)) => if k == "expert"@ || k == "team"@ {
                r matches Ok(Some((rk, ri))) && rk@ == k && ri@ == i
            } else {
                r matches Err(e) && e@ == "非法角色类型："@ + k
            },
            _ => r matches Ok(None),
        },
{
    let k = opt_trimmed(kind);
    let i = opt_trimmed(id);
    match (k, i) {
        (Some(k), Some(i)) => {
            if str_eq(k.as_str(), "expert") || str_eq(k.as_str(), "team") {
                Ok(Some((k, i)))
            } else {
                let mut out = chars_of("非法角色类型：");
                extend_chars(&mut out, &chars_of(k.as_str()));
                Err(string_of(&out))
            }
        },
        _ => Ok(None),
    }
}

/// The agent that owns a session: trimmed; a blank one clears the owner.
pub fn normalize_agent_id(agent_id: Option<&str>) -> (r: Option<String>)
    ensures
        ostr(r) == opt_trim(agent_id),
{
    opt_trimmed(agent_id)
}

/// The title of a child session: `专家·` and the expert's display name (trimmed), or its
/// name when it has no display name.
pub fn child_session_title(display_name: Option<&str>, expert_name: &str) -> (r: String)
    ensures
        r@ == "专家·"@ + match opt_trim(display_name) {
            Some(d) => d,
            None => expert_name@,
        },
{
    let label = match opt_trimmed(display_name) {
        Some(d) => d,
        None => owned(expert_name),
    };
    let mut out = chars_of("专家·");
    extend_chars(&mut out, &chars_of(label.as_str()));
    string_of(&out)
}

/// Whether a session group may be edited (or deleted): a built-in group may not; a group
/// that does not exist (`None`) is left to the store.
pub fn check_group_change(built_in: Option<bool>, deleting: bool) -> (r: Result<(), String>)
    ensures
        built_in == Some(true) && !deleting ==> (r matches Err(e) && e@ == "内建分组不可编辑"@),
        built_in == Some(true) && deleting ==> (r matches Err(e) && e@ == "内建分组不可删除"@),
        built_in != Some(true) ==> r is Ok,
{
    match built_in {
        Some(true) => if deleting {
            Err(owned("内建分组不可删除"))
        } else {
            Err(owned("内建分组不可编辑"))
        },
        _ => Ok(()),
    }
}

} // verus!
