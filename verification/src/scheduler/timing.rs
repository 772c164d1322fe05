//! Next-fire computation and the startup plan of a scheduled task.
//!
//! The cron arithmetic is the `cron` crate's (on `chrono` date-times); this module decides
//! what to do with its answer.

use std::str::FromStr;

use chrono::TimeZone;
use vstd::prelude::*;

use crate::scheduler::schedule::cron_parse_error;

verus! {

/// Largest epoch second that `chrono` represents (262142-12-31T23:59:59 UTC): one second
/// later does not exist, so the cron search (which starts one second after its argument)
/// cannot start there.
pub const UTC_MAX_SECS: i64 = 8210266876799;

/// Smallest epoch second that `chrono` represents (-262143-01-01T00:00:00 UTC).
pub const UTC_MIN_SECS: i64 = -8334601228800;

/// The next fire time (epoch seconds) strictly after `after` of the cron expression
/// `spec`, evaluated in UTC by the `cron` crate; `None` when the expression does not
/// parse, `after` is not a representable time, or no later slot exists.
pub uninterp spec fn cron_next_utc(spec: Seq<char>, after: int) -> Option<int>;

/// What the UTC search answers: a start outside chrono's range is refused first, then
/// an expression the `cron` crate does not parse (with the crate's message), then a search
/// that finds no later slot; otherwise the slot found.
pub open spec fn spec_next_after_utc(spec: Seq<char>, after: int) -> Result<int, Seq<char>> {
    if !(UTC_MIN_SECS <= after <= UTC_MAX_SECS) {
        Err("after 时间戳非法"@)
    } else {
        match cron_parse_error(spec) {
            Some(m) => Err("cron 解析失败："@ + m),
            None => match cron_next_utc(spec, after) {
                Some(v) => Ok(v),
                None => Err("无下一个触发时间"@),
            },
        }
    }
}

pub open spec fn int_result_view(r: Result<i64, String>) -> Result<int, Seq<char>> {
    match r {
        Ok(v) => Ok(v as int),
        Err(e) => Err(e@),
    }
}

/// `Utc.timestamp_opt(after_secs, 0)` of `chrono` (a single time exactly within
/// `UTC_MIN_SECS..=UTC_MAX_SECS`), `Schedule::from_str(spec)` of the `cron` crate (its
/// refusal named `cron_parse_error`), the search `Schedule::after(&t).next()` (named
/// `cron_next_utc`) and the `timestamp()` of what it finds. The search starts one second
/// after `after`, so a found slot lies strictly after it.
#[verifier::external_body]
pub fn next_after_utc(spec: &str, after_secs: i64) -> (r: Result<i64, String>)
    requires
        after_secs != UTC_MAX_SECS,
    ensures
        int_result_view(r) == spec_next_after_utc(spec@, after_secs as int),
        r matches Ok(v) ==> cron_next_utc(spec@, after_secs as int) == Some(v as int) && v > after_secs,
{
    let after = chrono::Utc.timestamp_opt(after_secs, 0).single().ok_or("after 时间戳非法")?;
    let schedule = cron::Schedule::from_str(spec).map_err(|e| format!("cron 解析失败：{e}"))?;
    schedule.after(&after).next().map(|dt| dt.timestamp()).ok_or_else(|| "无下一个触发时间".into())
}

/// The same search in the machine's local time zone (a preset "09:00" means 9 o'clock
/// local time): `Local.timestamp_opt(after_secs, 0)` (a single time inside the margin
/// required), then `Schedule::from_str(spec)` and the search. An expression the `cron`
/// crate does not parse is refused with the crate's message, whatever the time zone. Of
/// the slot found nothing is stated, not even its order: across a fall-back of daylight
/// saving time the crate answers the earlier instant of an ambiguous local time, which
/// can lie before `after`.
#[verifier::external_body]
pub fn next_after_local(spec: &str, after_secs: i64) -> (r: Result<i64, String>)
    requires
        UTC_MIN_SECS + 172800 <= after_secs <= UTC_MAX_SECS - 172800,
    ensures
        match cron_parse_error(spec@) {
            Some(m) => r matches Err(e) && e@ == "cron 解析失败："@ + m,
            None => true,
        },
{
    let after = chrono::Local.timestamp_opt(after_secs, 0).single().ok_or("after 时间戳非法")?;
    let schedule = cron::Schedule::from_str(spec).map_err(|e| format!("cron 解析失败：{e}"))?;
    schedule.after(&after).next().map(|dt| dt.timestamp()).ok_or_else(|| "无下一个触发时间".into())
}

/// The startup plan of one task.
#[derive(Debug, Clone, PartialEq, Eq)]
pub struct StartupPlan {
    /// Fire once now (a missed slot is made up once, however many were missed).
    pub fire: bool,
    /// The recomputed `next_run_at` (epoch seconds).
    pub new_next: i64,
}

/// Whether the task needs a new `next_run_at`: it has none yet, or it is due.
pub open spec fn spec_needs_next(current_next: Option<i64>, now: i64) -> bool {
    match current_next {
        None => true,
        Some(next) => next <= now,
    }
}

/// Whether startup must recompute the next fire time of a task.
pub fn needs_next(current_next: Option<i64>, now: i64) -> (r: bool)
    ensures
        r == spec_needs_next(current_next, now),
{
    match current_next {
        None => true,
        Some(next) => next <= now,
    }
}

/// The plan once the next slot after `now` is known (`next` is used only when
/// `needs_next` holds): a first enable never fires; a due task fires once and is
/// rescheduled; a future task keeps its slot.
pub fn plan_with_next(current_next: Option<i64>, now: i64, next: i64) -> (r: StartupPlan)
    ensures
        r == (match current_next {
            None => StartupPlan { fire: false, new_next: next },
            Some(n) => if n <= now {
                StartupPlan { fire: true, new_next: next }
            } else {
                StartupPlan { fire: false, new_next: n }
            },
        }),
{
    match current_next {
        None => StartupPlan { fire: false, new_next: next },
        Some(n) => if n <= now {
            StartupPlan { fire: true, new_next: next }
        } else {
            StartupPlan { fire: false, new_next: n }
        },
    }
}

/// Startup plan in UTC. `current_next` is `None` on first enable.
pub fn plan_startup_one(spec: &str, current_next: Option<i64>, now: i64) -> (r: Result<StartupPlan, String>)
    requires
        spec_needs_next(current_next, now) ==> now != UTC_MAX_SECS,
    ensures
        !spec_needs_next(current_next, now) ==> r == Ok::<StartupPlan, String>(
            StartupPlan { fire: false, new_next: current_next->0 },
        ),
        spec_needs_next(current_next, now) ==> match spec_next_after_utc(spec@, now as int) {
            Ok(v) => r matches Ok(p) && p.fire == current_next is Some && p.new_next == v,
            Err(e) => r matches Err(x) && x@ == e,
        },
        r matches Ok(p) ==> (spec_needs_next(current_next, now) ==> p.new_next > now),
{
    if needs_next(current_next, now) {
        let next = next_after_utc(spec, now)?;
        Ok(plan_with_next(current_next, now, next))
    } else {
        Ok(plan_with_next(current_next, now, 0))
    }
}

/// A due task is never left due: after a startup plan the next fire time lies after
/// `now`, and the task fires exactly when it was due (never on first enable).
pub proof fn law_startup_plan_reschedules_past_now(current_next: Option<i64>, now: i64, next: i64)
    requires
        spec_needs_next(current_next, now) ==> next > now,
    ensures
        ({
            let p = match current_next {
                None => StartupPlan { fire: false, new_next: next },
                Some(n) => if n <= now {
                    StartupPlan { fire: true, new_next: next }
                } else {
                    StartupPlan { fire: false, new_next: n }
                },
            };
            &&& p.new_next > now
            &&& p.fire == (current_next is Some && current_next->0 <= now)
        }),
{
}

} // verus!
