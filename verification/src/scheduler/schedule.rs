//! Normalizing a schedule description (preset or raw cron) into a 6-field cron string
//! (`sec min hour dom month dow`) that the `cron` crate accepts.

use std::str::FromStr;

use vstd::prelude::*;

use crate::text::{
    append_str, chars_of, find_char, first_index_of, owned, decimal, is_whitespace, is_ws, parse_unsigned, parse_unsigned_chars,
    ostr, string_of, trim, trimmed_chars, u64_to_string,
};

verus! {

/// A schedule as the front end describes it.
#[derive(Debug, Clone, PartialEq, Eq)]
pub enum ScheduleInput {
    Preset {
        preset: PresetKind,
        /// `"HH:MM"` (ignored by `Interval`).
        time: String,
        /// 1 = Monday .. 7 = Sunday (used by `Weekly`).
        weekdays: Vec<u32>,
        /// Used by `Interval`.
        every: Option<Every>,
    },
    Cron { expr: String },
}

#[derive(Debug, Clone, Copy, PartialEq, Eq, Structural)]
pub enum PresetKind {
    Interval,
    Daily,
    Weekly,
}

#[derive(Debug, Clone, Copy, PartialEq, Eq, Structural)]
pub struct Every {
    pub value: u32,
    pub unit: IntervalUnit,
}

#[derive(Debug, Clone, Copy, PartialEq, Eq, Structural)]
pub enum IntervalUnit {
    Minutes,
    Hours,
}

/// What `cron::Schedule::from_str(spec)` answers: `None` when the `cron` crate parses
/// `spec`, else the text of its error. Its grammar and messages are the crate's, so the
/// answer is named.
pub uninterp spec fn cron_parse_error(spec: Seq<char>) -> Option<Seq<char>>;

/// `cron::Schedule::from_str(spec)`, its error shown as text; the answer is named
/// `cron_parse_error`.
#[verifier::external_body]
fn cron_check(spec: &str) -> (r: Option<String>)
    ensures
        ostr(r) == cron_parse_error(spec@),
{
    cron::Schedule::from_str(spec).err().map(|e| e.to_string())
}

// ---------------------------------------------------------------- model

/// Number of white-space separated fields (`split_whitespace().count()`).
pub open spec fn count_fields(s: Seq<char>) -> nat
    decreases s.len(),
{
    if s.len() == 0 {
        0
    } else if is_ws(s.last()) {
        count_fields(s.drop_last())
    } else if s.len() == 1 || is_ws(s[s.len() - 2]) {
        count_fields(s.drop_last()) + 1
    } else {
        count_fields(s.drop_last())
    }
}

/// `"HH:MM"` split at the first `':'`, both parts `u32` numbers, hour ≤ 23, minute ≤ 59;
/// each way to fail has its own answer, which quotes the text.
pub open spec fn spec_parse_hhmm(time: Seq<char>) -> Result<(u32, u32), Seq<char>> {
    match find_char(time, ':') {
        None => Err("时间格式应为 HH:MM："@ + time),
        Some(i) => match parse_unsigned(time.take(i), u32::MAX as nat) {
            None => Err("小时非法："@ + time),
            Some(h) => match parse_unsigned(time.skip(i + 1), u32::MAX as nat) {
                None => Err("分钟非法："@ + time),
                Some(m) => if h <= 23 && m <= 59 {
                    Ok((h as u32, m as u32))
                } else {
                    Err("时间越界："@ + time)
                },
            },
        },
    }
}

pub open spec fn spec_weekday_name(i: int) -> Seq<char> {
    if i == 0 {
        "MON"@
    } else if i == 1 {
        "TUE"@
    } else if i == 2 {
        "WED"@
    } else if i == 3 {
        "THU"@
    } else if i == 4 {
        "FRI"@
    } else if i == 5 {
        "SAT"@
    } else {
        "SUN"@
    }
}

/// Weekday `w` (1 = Monday .. 7 = Sunday) is named by cron's spelling of that day, and no
/// two weekdays share a name: the cron text of a weekly preset lists exactly the chosen
/// days, in the order they were given.
pub proof fn law_weekdays_name_monday_to_sunday(days: Seq<u32>)
    ensures
        forall|w: int| 1 <= w <= 7 ==> #[trigger] spec_weekday_name(w - 1)
            == seq!["MON"@, "TUE"@, "WED"@, "THU"@, "FRI"@, "SAT"@, "SUN"@][w - 1],
        forall|a: int, b: int|
            0 <= a < 7 && 0 <= b < 7 && a != b ==> #[trigger] spec_weekday_name(a) != #[trigger] spec_weekday_name(b),
        (forall|k: int| 0 <= k < days.len() ==> 1 <= #[trigger] days[k] <= 7) ==> (weekday_names(days) matches Ok(names)
            && names.len() == days.len()
            && forall|k: int| 0 <= k < days.len() ==> #[trigger] names[k] == spec_weekday_name(days[k] - 1)),
    decreases days.len(),
{
    reveal_strlit("MON");
    reveal_strlit("TUE");
    reveal_strlit("WED");
    reveal_strlit("THU");
    reveal_strlit("FRI");
    reveal_strlit("SAT");
    reveal_strlit("SUN");
    assert("MON"@[0] == 'M' && "TUE"@[0] == 'T' && "WED"@[0] == 'W' && "THU"@[0] == 'T');
    assert("FRI"@[0] == 'F' && "SAT"@[0] == 'S' && "SUN"@[0] == 'S');
    assert("TUE"@[1] == 'U' && "THU"@[1] == 'H' && "SAT"@[1] == 'A' && "SUN"@[1] == 'U');
    if days.len() > 0 {
        law_weekdays_name_monday_to_sunday(days.drop_last());
        if forall|k: int| 0 <= k < days.len() ==> 1 <= #[trigger] days[k] <= 7 {
            assert forall|k: int| 0 <= k < days.drop_last().len() implies 1 <= #[trigger] days.drop_last()[k] <= 7 by {
                assert(days.drop_last()[k] == days[k]);
            }
            assert(1 <= days[days.len() - 1] <= 7);
        }
    }
}

/// Day names of 1-based weekdays, or the first day outside `1..=7`.
pub open spec fn weekday_names(days: Seq<u32>) -> Result<Seq<Seq<char>>, u32>
    decreases days.len(),
{
    if days.len() == 0 {
        Ok(Seq::empty())
    } else {
        match weekday_names(days.drop_last()) {
            Ok(prev) => if 1 <= days.last() <= 7 {
                Ok(prev.push(spec_weekday_name(days.last() - 1)))
            } else {
                Err(days.last())
            },
            Err(w) => Err(w),
        }
    }
}

/// Pieces joined with `','`.
pub open spec fn join_comma(p: Seq<Seq<char>>) -> Seq<char>
    decreases p.len(),
{
    if p.len() == 0 {
        Seq::empty()
    } else if p.len() == 1 {
        p[0]
    } else {
        join_comma(p.drop_last()) + ","@ + p.last()
    }
}

/// The cron text a schedule input stands for, before the `cron` crate checks it, or why
/// the input itself is refused.
pub open spec fn spec_cron_text(input: ScheduleInput) -> Result<Seq<char>, Seq<char>> {
    match input {
        ScheduleInput::Cron { expr } => {
            let t = trim(expr@);
            let n = count_fields(t);
            if n == 5 {
                Ok("0 "@ + t)
            } else if n == 6 {
                Ok(t)
            } else {
                Err("cron 字段数非法："@ + decimal(n) + "（需 5 或 6 字段）"@)
            }
        },
        ScheduleInput::Preset { preset, time, weekdays, every } => match preset {
            PresetKind::Interval => match every {
                None => Err("interval 预设缺少 every"@),
                Some(e) => match e.unit {
                    IntervalUnit::Minutes => if 1 <= e.value <= 59 {
                        Ok("0 */"@ + decimal(e.value as nat) + " * * * *"@)
                    } else {
                        Err("间隔分钟须在 1..=59"@)
                    },
                    IntervalUnit::Hours => if 1 <= e.value <= 23 {
                        Ok("0 0 */"@ + decimal(e.value as nat) + " * * *"@)
                    } else {
                        Err("间隔小时须在 1..=23"@)
                    },
                },
            },
            PresetKind::Daily => match spec_parse_hhmm(time@) {
                Ok((h, m)) => Ok("0 "@ + decimal(m as nat) + " "@ + decimal(h as nat) + " * * *"@),
                Err(e) => Err(e),
            },
            PresetKind::Weekly => match spec_parse_hhmm(time@) {
                Ok((h, m)) => if weekdays@.len() == 0 {
                    Err("weekly 预设须至少选一个星期几"@)
                } else {
                    match weekday_names(weekdays@) {
                        Ok(names) => Ok(
                            "0 "@ + decimal(m as nat) + " "@ + decimal(h as nat) + " * * "@ + join_comma(names),
                        ),
                        Err(w) => Err("weekday 越界："@ + decimal(w as nat) + "（需 1..=7）"@),
                    }
                },
                Err(e) => Err(e),
            },
        },
    }
}

/// The normalized cron text of a schedule, or why it is refused: the input's own checks
/// first, then the `cron` crate's.
pub open spec fn spec_normalize_to_cron(input: ScheduleInput) -> Result<Seq<char>, Seq<char>> {
    match spec_cron_text(input) {
        Err(e) => Err(e),
        Ok(t) => match cron_parse_error(t) {
            None => Ok(t),
            Some(msg) => Err("cron 解析失败："@ + msg),
        },
    }
}

// ---------------------------------------------------------------- operations

fn count_fields_chars(v: &Vec<char>) -> (n: usize)
    ensures
        n == count_fields(v@),
{
    let mut n: usize = 0;
    let mut i: usize = 0;
    assert(v@.take(0) =~= Seq::<char>::empty());
    while i < v.len()
        invariant
            i <= v.len(),
            n == count_fields(v@.take(i as int)),
            n <= i,
        decreases v.len() - i,
    {
        let ghost t = v@.take(i + 1);
        assert(t.drop_last() =~= v@.take(i as int));
        assert(t.last() == v@[i as int]);
        if i > 0 {
            assert(t[t.len() - 2] == v@[i - 1]);
        }
        if !is_whitespace(v[i]) && (i == 0 || is_whitespace(v[i - 1])) {
            n = n + 1;
        }
        i = i + 1;
    }
    assert(v@.take(v.len() as int) =~= v@);
    n
}

/// `prefix` followed by `text`.
fn quoted(prefix: &str, text: &str) -> (r: String)
    ensures
        r@ == prefix@ + text@,
{
    let mut s = owned(prefix);
    append_str(&mut s, text);
    s
}

pub open spec fn hhmm_result_view(r: Result<(u32, u32), String>) -> Result<(u32, u32), Seq<char>> {
    match r {
        Ok(hm) => Ok(hm),
        Err(e) => Err(e@),
    }
}

/// Parses `"HH:MM"` into `(hour, minute)`.
pub fn parse_hhmm(time: &str) -> (r: Result<(u32, u32), String>)
    ensures
        hhmm_result_view(r) == spec_parse_hhmm(time@),
{
    let v = chars_of(time);
    let i = first_index_of(&v, ':');
    if i == v.len() {
        return Err(quoted("时间格式应为 HH:MM：", time));
    }
    assert(v@.subrange(0, i as int) =~= v@.take(i as int));
    assert(v@.subrange(i + 1, v.len() as int) =~= v@.skip(i + 1));
    let h = match parse_unsigned_chars(&v, 0, i, u32::MAX as u64) {
        Some(h) => h,
        None => return Err(quoted("小时非法：", time)),
    };
    let m = match parse_unsigned_chars(&v, i + 1, v.len(), u32::MAX as u64) {
        Some(m) => m,
        None => return Err(quoted("分钟非法：", time)),
    };
    if h > 23 || m > 59 {
        return Err(quoted("时间越界：", time));
    }
    Ok((h as u32, m as u32))
}

fn weekday_name(i: u32) -> (s: &'static str)
    requires
        i < 7,
    ensures
        s@ == spec_weekday_name(i as int),
{
    match i {
        0 => "MON",
        1 => "TUE",
        2 => "WED",
        3 => "THU",
        4 => "FRI",
        5 => "SAT",
        _ => "SUN",
    }
}

fn hm_prefix(h: u32, m: u32) -> (s: String)
    ensures
        s@ == "0 "@ + decimal(m as nat) + " "@ + decimal(h as nat),
{
    let mut s = owned("0 ");
    let ms = u64_to_string(m as u64);
    append_str(&mut s, ms.as_str());
    append_str(&mut s, " ");
    let hs = u64_to_string(h as u64);
    append_str(&mut s, hs.as_str());
    s
}

/// `prefix`, a number and `suffix`.
fn with_number(prefix: &str, n: u64, suffix: &str) -> (r: String)
    ensures
        r@ == prefix@ + decimal(n as nat) + suffix@,
{
    let mut s = owned(prefix);
    let ns = u64_to_string(n);
    append_str(&mut s, ns.as_str());
    append_str(&mut s, suffix);
    s
}

pub open spec fn text_result_view(r: Result<String, String>) -> Result<Seq<char>, Seq<char>> {
    match r {
        Ok(t) => Ok(t@),
        Err(e) => Err(e@),
    }
}

/// The cron text for the input, before the `cron` crate checks it.
fn cron_text(input: &ScheduleInput) -> (r: Result<String, String>)
    ensures
        text_result_view(r) == spec_cron_text(*input),
{
    match input {
        ScheduleInput::Cron { expr } => {
            let t = trimmed_chars(expr.as_str());
            let n = count_fields_chars(&t);
            if n == 5 {
                let mut s = owned("0 ");
                let ts = string_of(&t);
                append_str(&mut s, ts.as_str());
                Ok(s)
            } else if n == 6 {
                Ok(string_of(&t))
            } else {
                Err(with_number("cron 字段数非法：", n as u64, "（需 5 或 6 字段）"))
            }
        },
        ScheduleInput::Preset { preset, time, weekdays, every } => match preset {
            PresetKind::Interval => match every {
                None => Err(owned("interval 预设缺少 every")),
                Some(e) => match e.unit {
                    IntervalUnit::Minutes => if 1 <= e.value && e.value <= 59 {
                        Ok(with_number("0 */", e.value as u64, " * * * *"))
                    } else {
                        Err(owned("间隔分钟须在 1..=59"))
                    },
                    IntervalUnit::Hours => if 1 <= e.value && e.value <= 23 {
                        Ok(with_number("0 0 */", e.value as u64, " * * *"))
                    } else {
                        Err(owned("间隔小时须在 1..=23"))
                    },
                },
            },
            PresetKind::Daily => match parse_hhmm(time.as_str()) {
                Ok((h, m)) => {
                    let mut s = hm_prefix(h, m);
                    append_str(&mut s, " * * *");
                    Ok(s)
                },
                Err(e) => Err(e),
            },
            PresetKind::Weekly => match parse_hhmm(time.as_str()) {
                Ok((h, m)) => {
                    if weekdays.len() == 0 {
                        return Err(owned("weekly 预设须至少选一个星期几"));
                    }
                    let mut s = hm_prefix(h, m);
                    append_str(&mut s, " * * ");
                    let ghost base = s@;
                    let mut k: usize = 0;
                    let ghost days = weekdays@;
                    assert(days.take(0) =~= Seq::<u32>::empty());
                    while k < weekdays.len()
                        invariant
                            spec_cron_text(*input) == (match weekday_names(days) {
                                Ok(names) => Ok(base + join_comma(names)),
                                Err(w) => Err("weekday 越界："@ + decimal(w as nat) + "（需 1..=7）"@),
                            }),
                            k <= weekdays.len(),
                            days == weekdays@,
                            days.len() > 0,
                            weekday_names(days.take(k as int)) is Ok,
                            s@ == base + join_comma(weekday_names(days.take(k as int))->Ok_0),
                        decreases weekdays.len() - k,
                    {
                        let w = weekdays[k];
                        let ghost prev = weekday_names(days.take(k as int))->Ok_0;
                        assert(days.take(k + 1).drop_last() =~= days.take(k as int));
                        assert(days.take(k + 1).last() == w);
                        if w < 1 || w > 7 {
                            proof {
                                lemma_weekday_names_err_extends(days, k as int + 1, w);
                            }
                            return Err(with_number("weekday 越界：", w as u64, "（需 1..=7）"));
                        }
                        if k > 0 {
                            append_str(&mut s, ",");
                        }
                        let name = weekday_name(w - 1);
                        append_str(&mut s, name);
                        proof {
                            let names = weekday_names(days.take(k + 1))->Ok_0;
                            assert(names == prev.push(spec_weekday_name(w - 1)));
                            assert(prev.len() == k) by {
                                lemma_weekday_names_len(days.take(k as int));
                            }
                            if k > 0 {
                                assert(names.drop_last() == prev);
                            } else {
                                assert(names =~= seq![spec_weekday_name(w - 1)]);
                            }
                        }
                        k = k + 1;
                    }
                    assert(days.take(weekdays.len() as int) =~= days);
                    Ok(s)
                },
                Err(e) => Err(e),
            },
        },
    }
}

proof fn lemma_weekday_names_len(days: Seq<u32>)
    requires
        weekday_names(days) is Ok,
    ensures
        weekday_names(days)->Ok_0.len() == days.len(),
    decreases days.len(),
{
    if days.len() > 0 {
        lemma_weekday_names_len(days.drop_last());
    }
}

proof fn lemma_weekday_names_err_extends(days: Seq<u32>, k: int, w: u32)
    requires
        0 <= k <= days.len(),
        weekday_names(days.take(k)) == Err::<Seq<Seq<char>>, u32>(w),
    ensures
        weekday_names(days) == Err::<Seq<Seq<char>>, u32>(w),
    decreases days.len() - k,
{
    if k < days.len() {
        assert(days.take(k + 1).drop_last() =~= days.take(k));
        lemma_weekday_names_err_extends(days, k + 1, w);
    } else {
        assert(days.take(k) =~= days);
    }
}

/// Normalizes a schedule into a 6-field cron string: a 5-field cron gets a leading
/// seconds field `0`, a 6-field one is kept; presets compile to their cron form. The
/// result must also parse with the `cron` crate.
pub fn normalize_to_cron(input: &ScheduleInput) -> (r: Result<String, String>)
    ensures
        text_result_view(r) == spec_normalize_to_cron(*input),
{
    match cron_text(input) {
        Err(e) => Err(e),
        Ok(spec) => match cron_check(spec.as_str()) {
            None => Ok(spec),
            Some(msg) => Err(quoted("cron 解析失败：", msg.as_str())),
        },
    }
}

} // verus!
