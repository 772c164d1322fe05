//! The rules of the channel settings: which credentials a connection needs, and what a
//! secret given with the settings does to the stored one.

use vstd::prelude::*;

use crate::text::{string_of, trim, trimmed_chars};

verus! {

/// The bot token a Telegram connection stores: the given one, trimmed; a blank one is
/// refused.
pub fn telegram_token(token: &str) -> (r: Result<String, String>)
    ensures
        trim(token@).len() == 0 ==> (r matches Err(e) && e@ == "请填写 Telegram bot token"@),
        trim(token@).len() > 0 ==> (r matches Ok(t) && t@ == trim(token@)),
{
    let t = trimmed_chars(token);
    if t.len() == 0 {
        Err(String::from_str("请填写 Telegram bot token"))
    } else {
        Ok(string_of(&t))
    }
}

/// An application key and its secret, trimmed; both must be given, else `missing` is the
/// answer.
fn key_and_secret(key: &str, secret: &str, missing: &str) -> (r: Result<(String, String), String>)
    ensures
        (trim(key@).len() == 0 || trim(secret@).len() == 0) ==> (r matches Err(e) && e@ == missing@),
        (trim(key@).len() > 0 && trim(secret@).len() > 0) ==> (r matches Ok((k, s)) && k@ == trim(key@)
            && s@ == trim(secret@)),
{
    let k = trimmed_chars(key);
    let s = trimmed_chars(secret);
    if k.len() == 0 || s.len() == 0 {
        Err(String::from_str(missing))
    } else {
        Ok((string_of(&k), string_of(&s)))
    }
}

/// The AppKey and AppSecret of a DingTalk connection (the AppKey is its robot code too).
pub fn dingtalk_credentials(app_key: &str, app_secret: &str) -> (r: Result<(String, String), String>)
    ensures
        (trim(app_key@).len() == 0 || trim(app_secret@).len() == 0) ==> (r matches Err(e)
            && e@ == "请填写钉钉 AppKey 和 AppSecret"@),
        (trim(app_key@).len() > 0 && trim(app_secret@).len() > 0) ==> (r matches Ok((k, s))
            && k@ == trim(app_key@) && s@ == trim(app_secret@)),
{
    key_and_secret(app_key, app_secret, "请填写钉钉 AppKey 和 AppSecret")
}

/// The AppID and AppSecret of a Feishu connection.
pub fn feishu_credentials(app_id: &str, app_secret: &str) -> (r: Result<(String, String), String>)
    ensures
        (trim(app_id@).len() == 0 || trim(app_secret@).len() == 0) ==> (r matches Err(e)
            && e@ == "请填写飞书 AppID 和 AppSecret"@),
        (trim(app_id@).len() > 0 && trim(app_secret@).len() > 0) ==> (r matches Ok((k, s))
            && k@ == trim(app_id@) && s@ == trim(app_secret@)),
{
    key_and_secret(app_id, app_secret, "请填写飞书 AppID 和 AppSecret")
}

/// What saving a channel's settings does to its stored secret.
#[derive(Debug, PartialEq, Eq)]
pub enum SecretChange {
    /// No secret was given: the stored one stays.
    Keep,
    /// A blank secret was given: the stored one is removed.
    Clear,
    /// The secret to store, as given.
    Store(String),
}

pub fn secret_change(secret: Option<String>) -> (r: SecretChange)
    ensures
        match secret {
            None => r is Keep,
            Some(t) => if trim(t@).len() == 0 {
                r is Clear
            } else {
                r matches SecretChange::Store(s) && s@ == t@
            },
        },
{
    match secret {
        None => SecretChange::Keep,
        Some(t) => {
            let v = trimmed_chars(t.as_str());
            if v.len() == 0 {
                SecretChange::Clear
            } else {
                SecretChange::Store(t)
            }
        },
    }
}

} // verus!
