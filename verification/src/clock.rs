//! Wall-clock readings. What they return depends on the machine's clock, so the
//! contracts only state what holds of every reading.

use vstd::prelude::*;

verus! {

#[verifier::external_type_specification]
#[verifier::external_body]
pub struct ExSystemTime(std::time::SystemTime);

/// `SystemTime::now()`: the current wall-clock time.
#[verifier::external_body]
pub(crate) fn system_now() -> std::time::SystemTime {
    std::time::SystemTime::now()
}

/// `t.duration_since(UNIX_EPOCH)`: the time since the Unix epoch, `None` when `t` lies
/// before the epoch.
#[verifier::external_body]
pub(crate) fn since_epoch(t: &std::time::SystemTime) -> Option<std::time::Duration> {
    t.duration_since(std::time::UNIX_EPOCH).ok()
}

/// `Duration::as_secs`: whole seconds of a duration.
#[verifier::external_body]
pub(crate) fn duration_secs(d: &std::time::Duration) -> u64 {
    d.as_secs()
}

/// `Duration::as_millis`: whole milliseconds of a duration.
#[verifier::external_body]
pub(crate) fn duration_millis(d: &std::time::Duration) -> u128 {
    d.as_millis()
}

/// `Duration::as_nanos`: whole nanoseconds of a duration.
#[verifier::external_body]
pub(crate) fn duration_nanos(d: &std::time::Duration) -> u128 {
    d.as_nanos()
}

/// `Duration::subsec_nanos`: the fractional part of a duration in nanoseconds, which
/// the documentation bounds below one second.
#[verifier::external_body]
pub(crate) fn duration_subsec_nanos(d: &std::time::Duration) -> (r: u32)
    ensures
        r < 1_000_000_000,
{
    d.subsec_nanos()
}

/// Milliseconds since the Unix epoch (0 when the clock reads before it; saturated at
/// `u64::MAX`).
pub fn now_ms() -> u64 {
    match since_epoch(&system_now()) {
        Some(d) => {
            let ms = duration_millis(&d);
            if ms > u64::MAX as u128 {
                u64::MAX
            } else {
                ms as u64
            }
        },
        None => 0,
    }
}

/// Nanoseconds since the Unix epoch (0 when the clock reads before it).
pub fn now_nanos() -> u128 {
    match since_epoch(&system_now()) {
        Some(d) => duration_nanos(&d),
        None => 0,
    }
}

} // verus!
