//! Clock reading and the production (local time zone) startup plan.

use vstd::prelude::*;

use crate::clock::{duration_secs, since_epoch, system_now};
use crate::scheduler::schedule::cron_parse_error;
use crate::scheduler::timing::{needs_next, next_after_local, plan_with_next, spec_needs_next, StartupPlan, UTC_MAX_SECS, UTC_MIN_SECS};

verus! {

/// Current epoch seconds (0 when the clock reads before the epoch or beyond `i64`).
pub fn now_secs() -> (r: i64)
    ensures
        r >= 0,
{
    match since_epoch(&system_now()) {
        Some(d) => {
            let s = duration_secs(&d);
            if s <= i64::MAX as u64 {
                s as i64
            } else {
                0
            }
        },
        None => 0,
    }
}

/// Startup plan in the machine's local time zone (same decisions as `plan_startup_one`):
/// a task whose slot lies ahead keeps it; otherwise the local search gives the new slot,
/// and the task fires when it was due (never on first enable). The slot the search gives
/// rests on the time zone and is not stated.
pub fn plan_startup_one_local(spec: &str, current_next: Option<i64>, now: i64) -> (r: Result<StartupPlan, String>)
    requires
        spec_needs_next(current_next, now) ==> UTC_MIN_SECS + 172800 <= now <= UTC_MAX_SECS - 172800,
    ensures
        !spec_needs_next(current_next, now) ==> r == Ok::<StartupPlan, String>(
            StartupPlan { fire: false, new_next: current_next->0 },
        ),
        spec_needs_next(current_next, now) ==> (r matches Ok(p) ==> p.fire == current_next is Some),
        spec_needs_next(current_next, now) ==> match cron_parse_error(spec@) {
            Some(m) => r matches Err(e) && e@ == "cron 解析失败："@ + m,
            None => true,
        },
{
    if needs_next(current_next, now) {
        let next = next_after_local(spec, now)?;
        Ok(plan_with_next(current_next, now, next))
    } else {
        Ok(plan_with_next(current_next, now, 0))
    }
}

} // verus!
