use silicon_agent::scheduler::schedule::{
    normalize_to_cron, parse_hhmm, Every, IntervalUnit, PresetKind, ScheduleInput,
};
use silicon_agent::scheduler::startup::{now_secs, plan_startup_one_local};
use silicon_agent::scheduler::timing::{
    next_after_utc, plan_startup_one, plan_with_next, StartupPlan, UTC_MAX_SECS, UTC_MIN_SECS,
};

#[test]
fn next_after_advances_to_next_slot() {
    let spec = "0 0 9 * * *";
    let after = 1767254400;
    let next = next_after_utc(spec, after).unwrap();
    assert_eq!(next, 1767258000);
}

#[test]
fn next_after_skips_to_following_day_when_past() {
    let spec = "0 0 9 * * *";
    let after = 1767261600;
    let next = next_after_utc(spec, after).unwrap();
    assert_eq!(next, 1767344400);
}

#[test]
fn startup_plan_fires_once_for_missed_and_reschedules() {
    let now = 1767261600;
    let plan = plan_startup_one("0 0 9 * * *", Some(1767258000), now).unwrap();
    assert!(plan.fire, "a missed slot fires once");
    assert_eq!(plan.new_next, 1767344400, "rescheduled to the next slot after now");
}

#[test]
fn startup_plan_does_not_fire_when_future() {
    let now = 1767254400;
    let plan = plan_startup_one("0 0 9 * * *", Some(1767258000), now).unwrap();
    assert!(!plan.fire, "a future slot does not fire");
    assert_eq!(plan.new_next, 1767258000, "the slot is kept");
}

#[test]
fn startup_plan_initializes_null_next() {
    let now = 1767254400;
    let plan = plan_startup_one("0 0 9 * * *", None, now).unwrap();
    assert!(!plan.fire, "first enable does not fire");
    assert_eq!(plan.new_next, 1767258000, "first next computed from now");
}

#[test]
fn startup_plan_with_invalid_spec_errors_only_when_recomputing() {
    assert!(plan_startup_one("nope", None, 100).is_err());
    assert_eq!(
        plan_startup_one("nope", Some(200), 100).unwrap(),
        StartupPlan { fire: false, new_next: 200 }
    );
}

#[test]
fn plan_with_next_exact() {
    assert_eq!(plan_with_next(None, 10, 20), StartupPlan { fire: false, new_next: 20 });
    assert_eq!(plan_with_next(Some(10), 10, 20), StartupPlan { fire: true, new_next: 20 });
    assert_eq!(plan_with_next(Some(11), 10, 20), StartupPlan { fire: false, new_next: 11 });
}

#[test]
fn next_after_rejects_invalid_spec() {
    assert!(next_after_utc("not a cron", 0).is_err(), "an invalid cron expression is an error");
}

#[test]
fn next_after_rejects_overflow_timestamp() {
    assert!(next_after_utc("0 0 9 * * *", i64::MAX).is_err(), "an overflowing timestamp is an error");
}

#[test]
fn utc_bounds_match_chrono() {
    assert!(chrono::DateTime::from_timestamp(UTC_MAX_SECS, 0).is_some());
    assert!(chrono::DateTime::from_timestamp(UTC_MAX_SECS + 1, 0).is_none());
    assert!(chrono::DateTime::from_timestamp(UTC_MIN_SECS, 0).is_some());
    assert!(chrono::DateTime::from_timestamp(UTC_MIN_SECS - 1, 0).is_none());
}

#[test]
fn local_plan_keeps_future_slot_and_moves_due_one_forward() {
    let now = now_secs();
    assert!(now > 1_700_000_000);
    let keep = plan_startup_one_local("0 0 9 * * *", Some(now + 1000), now).unwrap();
    assert_eq!(keep, StartupPlan { fire: false, new_next: now + 1000 });
    let due = plan_startup_one_local("0 0 9 * * *", Some(now - 10), now).unwrap();
    assert!(due.fire);
    assert!(due.new_next > now);
}

fn preset(kind: PresetKind, time: &str, weekdays: Vec<u32>, every: Option<Every>) -> ScheduleInput {
    ScheduleInput::Preset {
        preset: kind,
        time: time.into(),
        weekdays,
        every,
    }
}

#[test]
fn daily_preset_compiles_to_six_field_cron() {
    let input = preset(PresetKind::Daily, "09:00", vec![], None);
    assert_eq!(normalize_to_cron(&input).unwrap(), "0 0 9 * * *");
}

#[test]
fn weekly_preset_uses_weekday_names() {
    let input = preset(PresetKind::Weekly, "09:30", vec![1, 5], None);
    assert_eq!(normalize_to_cron(&input).unwrap(), "0 30 9 * * MON,FRI");
}

#[test]
fn interval_minutes_preset() {
    let input = preset(
        PresetKind::Interval,
        "",
        vec![],
        Some(Every {
            value: 30,
            unit: IntervalUnit::Minutes,
        }),
    );
    assert_eq!(normalize_to_cron(&input).unwrap(), "0 */30 * * * *");
}

#[test]
fn interval_hours_preset() {
    let input = preset(
        PresetKind::Interval,
        "",
        vec![],
        Some(Every {
            value: 2,
            unit: IntervalUnit::Hours,
        }),
    );
    assert_eq!(normalize_to_cron(&input).unwrap(), "0 0 */2 * * *");
}

#[test]
fn raw_cron_five_field_gets_seconds_prefix() {
    let input = ScheduleInput::Cron {
        expr: "30 9 * * 1-5".into(),
    };
    assert_eq!(normalize_to_cron(&input).unwrap(), "0 30 9 * * 1-5");
}

#[test]
fn raw_cron_six_field_passthrough() {
    let input = ScheduleInput::Cron {
        expr: "0 30 9 * * 1-5".into(),
    };
    assert_eq!(normalize_to_cron(&input).unwrap(), "0 30 9 * * 1-5");
}

#[test]
fn invalid_cron_is_rejected() {
    let input = ScheduleInput::Cron {
        expr: "not a cron".into(),
    };
    assert!(normalize_to_cron(&input).is_err());
}

#[test]
fn weekday_out_of_range_rejected() {
    let input = preset(PresetKind::Weekly, "09:30", vec![8], None);
    assert!(normalize_to_cron(&input).is_err());
}

#[test]
fn weekday_zero_rejected() {
    let input = preset(PresetKind::Weekly, "09:30", vec![0], None);
    assert!(normalize_to_cron(&input).is_err());
}

#[test]
fn daily_time_out_of_range_rejected() {
    let input = preset(PresetKind::Daily, "24:00", vec![], None);
    assert!(normalize_to_cron(&input).is_err());
}

#[test]
fn interval_minutes_too_large_rejected() {
    let input = preset(
        PresetKind::Interval,
        "",
        vec![],
        Some(Every {
            value: 90,
            unit: IntervalUnit::Minutes,
        }),
    );
    assert!(normalize_to_cron(&input).is_err());
}

#[test]
fn interval_hours_too_large_rejected() {
    let input = preset(
        PresetKind::Interval,
        "",
        vec![],
        Some(Every {
            value: 24,
            unit: IntervalUnit::Hours,
        }),
    );
    assert!(normalize_to_cron(&input).is_err());
}

#[test]
fn weekly_without_days_and_interval_without_every_rejected() {
    assert!(normalize_to_cron(&preset(PresetKind::Weekly, "09:30", vec![], None)).is_err());
    assert!(normalize_to_cron(&preset(PresetKind::Interval, "", vec![], None)).is_err());
}

#[test]
fn raw_cron_wrong_field_count_rejected() {
    assert!(normalize_to_cron(&ScheduleInput::Cron { expr: "* * * *".into() }).is_err());
}

#[test]
fn parse_hhmm_cases() {
    assert_eq!(parse_hhmm("09:05").unwrap(), (9, 5));
    assert_eq!(parse_hhmm("+9:+5").unwrap(), (9, 5));
    assert!(parse_hhmm("0905").is_err());
    assert!(parse_hhmm("23:60").is_err());
    assert!(parse_hhmm("9:00:00").is_err());
}

#[test]
fn schedule_errors_say_what_is_wrong() {
    let err = |input: ScheduleInput| normalize_to_cron(&input).unwrap_err();
    assert_eq!(err(ScheduleInput::Cron { expr: " * * * * ".into() }), "cron 字段数非法：4（需 5 或 6 字段）");
    assert_eq!(err(preset(PresetKind::Interval, "", vec![], None)), "interval 预设缺少 every");
    let every = |value, unit| Some(Every { value, unit });
    assert_eq!(err(preset(PresetKind::Interval, "", vec![], every(0, IntervalUnit::Minutes))), "间隔分钟须在 1..=59");
    assert_eq!(err(preset(PresetKind::Interval, "", vec![], every(24, IntervalUnit::Hours))), "间隔小时须在 1..=23");
    assert_eq!(err(preset(PresetKind::Daily, "0930", vec![], None)), "时间格式应为 HH:MM：0930");
    assert_eq!(err(preset(PresetKind::Daily, "x:30", vec![], None)), "小时非法：x:30");
    assert_eq!(err(preset(PresetKind::Daily, "9:", vec![], None)), "分钟非法：9:");
    assert_eq!(err(preset(PresetKind::Daily, "24:00", vec![], None)), "时间越界：24:00");
    assert_eq!(err(preset(PresetKind::Weekly, "09:30", vec![], None)), "weekly 预设须至少选一个星期几");
    assert_eq!(err(preset(PresetKind::Weekly, "09:30", vec![1, 8, 0], None)), "weekday 越界：8（需 1..=7）");
    assert!(err(ScheduleInput::Cron { expr: "0 0 99 * * *".into() }).starts_with("cron 解析失败："));
    assert_eq!(parse_hhmm("23:60").unwrap_err(), "时间越界：23:60");
}

#[test]
fn a_future_slot_is_kept_without_a_search_at_any_time() {
    let keep = plan_startup_one("0 0 9 * * *", Some(UTC_MAX_SECS + 5), UTC_MAX_SECS).unwrap();
    assert_eq!(keep, StartupPlan { fire: false, new_next: UTC_MAX_SECS + 5 });
    let far = i64::MAX - 1;
    let keep = plan_startup_one_local("0 0 9 * * *", Some(i64::MAX), far).unwrap();
    assert_eq!(keep, StartupPlan { fire: false, new_next: i64::MAX });
}

#[test]
fn search_errors_say_which_step_failed() {
    assert_eq!(next_after_utc("0 0 9 * * *", UTC_MAX_SECS + 1).unwrap_err(), "after 时间戳非法");
    assert_eq!(next_after_utc("0 0 9 * * *", UTC_MIN_SECS - 1).unwrap_err(), "after 时间戳非法");
    assert!(next_after_utc("nope", 0).unwrap_err().starts_with("cron 解析失败："));
    // February 30th never comes.
    assert_eq!(next_after_utc("0 0 0 30 2 *", 0).unwrap_err(), "无下一个触发时间");
    assert!(plan_startup_one("nope", None, 100).unwrap_err().starts_with("cron 解析失败："));
    let now = now_secs();
    assert!(plan_startup_one_local("nope", None, now).unwrap_err().starts_with("cron 解析失败："));
}
