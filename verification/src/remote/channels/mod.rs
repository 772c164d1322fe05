//! The platform connectors: their configuration and what they read out of and build for
//! each platform's messages. The network loops that call these live with the caller.

use std::sync::Mutex;

use vstd::prelude::*;

pub mod dingtalk;
pub mod feishu;
pub mod telegram;
pub mod wechat_clawbot;

verus! {

/// `std::sync::Mutex`, held by a connector for state shared with its receive thread.
#[verifier::external_type_specification]
#[verifier::external_body]
#[verifier::reject_recursive_types(T)]
pub struct ExMutex<T: ?Sized>(Mutex<T>);

/// `Mutex::new`: a lock holding `value`. Nothing is stated of the lock's contents, which
/// only the receive loops read.
#[verifier::external_body]
pub(crate) fn new_lock<T>(value: T) -> Mutex<T> {
    Mutex::new(value)
}

/// An access token cached with its expiry (milliseconds since the epoch) is reused while
/// more than a minute of it is left.
pub open spec fn token_fresh(now_ms: u64, expires_ms: u64) -> bool {
    now_ms + 60_000 < expires_ms
}

/// The cached token, when it is still fresh at `now_ms`.
pub fn fresh_token(cache: &Option<(String, u64)>, now_ms: u64) -> (r: Option<String>)
    ensures
        match cache {
            Some((t, exp)) => if token_fresh(now_ms, *exp) {
                r matches Some(x) && x@ == t@
            } else {
                r is None
            },
            None => r is None,
        },
{
    match cache {
        Some((t, exp)) => {
            if *exp > 60_000 && now_ms < *exp - 60_000 {
                Some(t.clone())
            } else {
                None
            }
        },
        None => None,
    }
}

/// When a token fetched at `now_ms` that lives `expire_secs` seconds expires, in
/// milliseconds since the epoch (saturated at the largest value).
pub fn token_expiry(now_ms: u64, expire_secs: u64) -> (r: u64)
    ensures
        r == (if now_ms + expire_secs * 1000 <= u64::MAX { (now_ms + expire_secs * 1000) as u64 } else { u64::MAX }),
{
    if expire_secs > (u64::MAX - now_ms) / 1000 {
        u64::MAX
    } else {
        now_ms + expire_secs * 1000
    }
}

} // verus!
