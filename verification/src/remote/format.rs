//! Remote output formatting and reply parsing: segmenting, progress throttling,
//! human-in-the-loop prompts and numbered replies.

use vstd::prelude::*;

use crate::session::types::{AskQuestion, PendingPermission};
use crate::text::{
    append_str, chars_eq, chars_of, nonempty_trimmed, cviews, decimal, parse_unsigned, parse_unsigned_chars, push_char,
    slice_chars, split_char, split_chars, string_of, string_of_range, sviews, trim, trim_bounds,
    trimmed_chars, u64_to_string,
};

verus! {

/// `s` cut into consecutive pieces of `m` characters (the last one may be shorter).
pub open spec fn chunks(s: Seq<char>, m: nat) -> Seq<Seq<char>>
    decreases s.len(),
{
    if s.len() == 0 || m == 0 {
        Seq::empty()
    } else {
        let k = if m < s.len() { m } else { s.len() };
        seq![s.take(k as int)] + chunks(s.skip(k as int), m)
    }
}

pub open spec fn spec_segment_text(text: Seq<char>, max_len: usize) -> Seq<Seq<char>> {
    chunks(text, if max_len == 0 { 1nat } else { max_len as nat })
}

/// Cuts text into pieces of at most `max_len` characters (never inside a character);
/// an empty text gives no pieces. A `max_len` of 0 counts as 1.
pub fn segment_text(text: &str, max_len: usize) -> (r: Vec<String>)
    ensures
        sviews(r@) == spec_segment_text(text@, max_len),
{
    let v = chars_of(text);
    let m: usize = if max_len == 0 { 1 } else { max_len };
    let ghost mn = m as nat;
    let mut out: Vec<String> = Vec::new();
    let mut pos: usize = 0;
    assert(v@.skip(0) =~= v@);
    while pos < v.len()
        invariant
            pos <= v.len(),
            m >= 1,
            mn == m as nat,
            sviews(out@) + chunks(v@.skip(pos as int), mn) == chunks(v@, mn),
        decreases v.len() - pos,
    {
        let end: usize = if v.len() - pos > m { pos + m } else { v.len() };
        let piece = string_of_range(&v, pos, end);
        let ghost rest = v@.skip(pos as int);
        assert(rest.take((end - pos) as int) =~= v@.subrange(pos as int, end as int));
        assert(rest.skip((end - pos) as int) =~= v@.skip(end as int));
        assert(chunks(rest, mn) == seq![rest.take((end - pos) as int)] + chunks(rest.skip((end - pos) as int), mn));
        let ghost before = sviews(out@);
        out.push(piece);
        assert(sviews(out@) =~= before.push(piece@));
        assert(sviews(out@) + chunks(v@.skip(end as int), mn) =~= before + chunks(rest, mn));
        pos = end;
    }
    assert(v@.skip(v.len() as int) =~= Seq::<char>::empty());
    assert(sviews(out@) + Seq::<Seq<char>>::empty() =~= sviews(out@));
    out
}

/// Concatenation of pieces.
pub open spec fn concat_all(p: Seq<Seq<char>>) -> Seq<char>
    decreases p.len(),
{
    if p.len() == 0 {
        Seq::empty()
    } else {
        p[0] + concat_all(p.drop_first())
    }
}

/// Segmenting loses nothing and cuts nothing too long: the pieces joined give the text
/// back, and every piece holds between 1 and `max_len` characters.
pub proof fn law_segments_rejoin(s: Seq<char>, m: nat)
    requires
        m >= 1,
    ensures
        concat_all(chunks(s, m)) == s,
        forall|i: int| 0 <= i < chunks(s, m).len() ==> 1 <= #[trigger] chunks(s, m)[i].len() <= m,
    decreases s.len(),
{
    if s.len() > 0 {
        let k = if m < s.len() { m } else { s.len() };
        law_segments_rejoin(s.skip(k as int), m);
        let c = chunks(s, m);
        assert(c.drop_first() =~= chunks(s.skip(k as int), m));
        assert(s.take(k as int) + s.skip(k as int) =~= s);
        assert forall|i: int| 0 <= i < c.len() implies 1 <= #[trigger] c[i].len() <= m by {
            if i > 0 {
                assert(c[i] == chunks(s.skip(k as int), m)[i - 1]);
            }
        }
    }
}

/// Progress throttling: the first event of a session passes; later ones pass once at
/// least `window_ms` has elapsed since the last emitted one.
pub fn should_emit_progress(last_emit_ms: Option<u64>, now_ms: u64, window_ms: u64) -> (r: bool)
    ensures
        r == match last_emit_ms {
            None => true,
            Some(last) => (if now_ms >= last { now_ms - last } else { 0 }) >= window_ms,
        },
{
    match last_emit_ms {
        None => true,
        Some(last) => now_ms.saturating_sub(last) >= window_ms,
    }
}

pub open spec fn spec_truncate_chars(s: Seq<char>, max: usize) -> Seq<char> {
    if s.len() <= max {
        s
    } else {
        s.take(max as int).push('…')
    }
}

/// The first `max` characters followed by `'…'` when the text is longer.
pub fn truncate_chars(s: &str, max: usize) -> (r: String)
    ensures
        r@ == spec_truncate_chars(s@, max),
{
    let v = chars_of(s);
    if v.len() <= max {
        string_of(&v)
    } else {
        let mut t = string_of_range(&v, 0, max);
        push_char(&mut t, '…');
        assert(v@.subrange(0, max as int) =~= v@.take(max as int));
        t
    }
}

pub open spec fn spec_render_permission(tool_name: Seq<char>, input: Seq<char>) -> Seq<char> {
    "⚠️ 需要确认操作\n工具："@ + tool_name + "\n参数："@ + spec_truncate_chars(input, 500)
        + "\n回复 1 批准 / 2 拒绝"@
}

/// Confirmation prompt for a risky tool call; the JSON arguments are shown verbatim
/// (cut after 500 characters).
pub fn render_permission(p: &PendingPermission) -> (r: String)
    ensures
        r@ == spec_render_permission(p.tool_name@, p.input@),
{
    let arg = truncate_chars(p.input.as_str(), 500);
    let mut out = String::from_str("⚠️ 需要确认操作\n工具：");
    append_str(&mut out, p.tool_name.as_str());
    append_str(&mut out, "\n参数：");
    append_str(&mut out, arg.as_str());
    append_str(&mut out, "\n回复 1 批准 / 2 拒绝");
    out
}

/// Numbered option lines `"1. a\n2. b\n…"`.
pub open spec fn option_lines(opts: Seq<Seq<char>>) -> Seq<char>
    decreases opts.len(),
{
    if opts.len() == 0 {
        Seq::empty()
    } else {
        option_lines(opts.drop_last()) + decimal(opts.len()) + ". "@ + opts.last() + "\n"@
    }
}

pub open spec fn spec_render_ask_question(
    header: Seq<char>,
    question: Seq<char>,
    multi_select: bool,
    options: Seq<Seq<char>>,
    idx: usize,
    total: usize,
) -> Seq<char> {
    let progress = if total > 1 {
        "（第 "@ + decimal(idx as nat + 1) + "/"@ + decimal(total as nat) + " 题）"@ + "\n"@
    } else {
        Seq::empty()
    };
    let head = if header.len() > 0 { "["@ + header + "] "@ } else { Seq::empty() };
    let tail = if multi_select { "可多选，用逗号分隔（如 1,3）。回复编号："@ } else { "回复编号："@ };
    progress + head + question + "\n"@ + option_lines(options) + tail
}

/// Question `idx` (0-based) of `total`, with options numbered from 1.
pub fn render_ask_question(q: &AskQuestion, idx: usize, total: usize) -> (r: String)
    requires
        total > 1 ==> idx < u64::MAX,
    ensures
        r@ == spec_render_ask_question(q.header@, q.question@, q.multi_select, sviews(q.options@), idx, total),
{
    let mut out = String::new();
    if total > 1 {
        append_str(&mut out, "（第 ");
        let a = u64_to_string(idx as u64 + 1);
        append_str(&mut out, a.as_str());
        append_str(&mut out, "/");
        let b = u64_to_string(total as u64);
        append_str(&mut out, b.as_str());
        append_str(&mut out, " 题）");
        append_str(&mut out, "\n");
    }
    let ghost progress = out@;
    if q.header.as_str().unicode_len() > 0 {
        append_str(&mut out, "[");
        append_str(&mut out, q.header.as_str());
        append_str(&mut out, "] ");
    }
    append_str(&mut out, q.question.as_str());
    append_str(&mut out, "\n");
    let ghost before_opts = out@;
    let mut i: usize = 0;
    while i < q.options.len()
        invariant
            i <= q.options.len(),
            out@ == before_opts + option_lines(sviews(q.options@).take(i as int)),
        decreases q.options.len() - i,
    {
        let n = u64_to_string(i as u64 + 1);
        append_str(&mut out, n.as_str());
        append_str(&mut out, ". ");
        append_str(&mut out, q.options[i].as_str());
        append_str(&mut out, "\n");
        let ghost o = sviews(q.options@);
        assert(o.take(i + 1).drop_last() =~= o.take(i as int));
        assert(o.take(i + 1).last() == q.options@[i as int]@);
        i = i + 1;
    }
    assert(sviews(q.options@).take(q.options.len() as int) =~= sviews(q.options@));
    if q.multi_select {
        append_str(&mut out, "可多选，用逗号分隔（如 1,3）。回复编号：");
    } else {
        append_str(&mut out, "回复编号：");
    }
    out
}

pub open spec fn spec_render_plan(plan_text: Seq<char>) -> Seq<char> {
    "📋 待批准计划\n"@ + spec_truncate_chars(plan_text, 1500) + "\n回复 1 批准执行 / 2 拒绝"@
}

/// Plan approval prompt (the plan is cut after 1500 characters).
pub fn render_plan(plan_text: &str) -> (r: String)
    ensures
        r@ == spec_render_plan(plan_text@),
{
    let t = truncate_chars(plan_text, 1500);
    let mut out = String::from_str("📋 待批准计划\n");
    append_str(&mut out, t.as_str());
    append_str(&mut out, "\n回复 1 批准执行 / 2 拒绝");
    out
}

pub open spec fn spec_parse_yes_no(reply: Seq<char>) -> Option<bool> {
    let t = trim(reply);
    if t == "1"@ || t == "/y"@ {
        Some(true)
    } else if t == "2"@ || t == "/n"@ {
        Some(false)
    } else {
        None
    }
}

/// Approve/reject reply: only `1`, `/y` (approve) and `2`, `/n` (reject) count.
pub fn parse_yes_no(reply: &str) -> (r: Option<bool>)
    ensures
        r == spec_parse_yes_no(reply@),
{
    let t = trimmed_chars(reply);
    let one = chars_of("1");
    let y = chars_of("/y");
    let two = chars_of("2");
    let n = chars_of("/n");
    if chars_eq(&t, &one) || chars_eq(&t, &y) {
        Some(true)
    } else if chars_eq(&t, &two) || chars_eq(&t, &n) {
        Some(false)
    } else {
        None
    }
}

/// The comma-separated parts of a choice reply.
pub open spec fn choice_parts(reply: Seq<char>) -> Seq<Seq<char>> {
    nonempty_trimmed(split_char(trim(reply), ','))
}

/// 0-based indices of the parts, when each part is a number in `1..=count`.
pub open spec fn choice_indices(parts: Seq<Seq<char>>, count: usize) -> Option<Seq<usize>>
    decreases parts.len(),
{
    if parts.len() == 0 {
        Some(Seq::empty())
    } else {
        match (choice_indices(parts.drop_last(), count), parse_unsigned(parts.last(), usize::MAX as nat)) {
            (Some(prev), Some(n)) => if 1 <= n <= count {
                Some(prev.push((n - 1) as usize))
            } else {
                None
            },
            _ => None,
        }
    }
}

pub open spec fn spec_parse_choice(reply: Seq<char>, option_count: usize, multi: bool) -> Option<Seq<usize>> {
    let parts = choice_parts(reply);
    if parts.len() == 0 {
        None
    } else if !multi && parts.len() > 1 {
        None
    } else {
        choice_indices(parts, option_count)
    }
}

/// Numbered choice reply (`"2"` or `"1,3"`) as 0-based option indices; an out-of-range or
/// non-numeric part, or several parts for a single-choice question, gives `None`.
pub fn parse_choice(reply: &str, option_count: usize, multi: bool) -> (r: Option<Vec<usize>>)
    ensures
        match r {
            Some(v) => spec_parse_choice(reply@, option_count, multi) == Some(v@),
            None => spec_parse_choice(reply@, option_count, multi).is_none(),
        },
{
    let t = trimmed_chars(reply);
    let pieces = split_chars(&t, ',');
    let mut parts: Vec<Vec<char>> = Vec::new();
    let mut i: usize = 0;
    assert(cviews(pieces@).take(0) =~= Seq::<Seq<char>>::empty());
    while i < pieces.len()
        invariant
            i <= pieces.len(),
            cviews(parts@) == nonempty_trimmed(cviews(pieces@).take(i as int)),
        decreases pieces.len() - i,
    {
        let piece = &pieces[i];
        let (a, b) = trim_bounds(piece, 0, piece.len());
        assert(piece@.subrange(0, piece@.len() as int) =~= piece@);
        let ghost pv = cviews(pieces@);
        assert(pv.take(i + 1).drop_last() =~= pv.take(i as int));
        assert(pv.take(i + 1).last() == piece@);
        if a < b {
            let tp = slice_chars(piece, a, b);
            let ghost before = cviews(parts@);
            parts.push(tp);
            assert(cviews(parts@) =~= before.push(tp@));
        }
        i = i + 1;
    }
    assert(cviews(pieces@).take(pieces.len() as int) =~= cviews(pieces@));
    let ghost ps = cviews(parts@);
    assert(ps == choice_parts(reply@));
    if parts.len() == 0 {
        return None;
    }
    if !multi && parts.len() > 1 {
        return None;
    }
    let mut out: Vec<usize> = Vec::new();
    let mut j: usize = 0;
    assert(ps.take(0) =~= Seq::<Seq<char>>::empty());
    while j < parts.len()
        invariant
            j <= parts.len(),
            ps == cviews(parts@),
            ps == choice_parts(reply@),
            ps.len() > 0,
            multi || ps.len() <= 1,
            choice_indices(ps.take(j as int), option_count) == Some(out@),
        decreases parts.len() - j,
    {
        let part = &parts[j];
        assert(ps.take(j + 1).drop_last() =~= ps.take(j as int));
        assert(ps.take(j + 1).last() == part@);
        assert(part@.subrange(0, part@.len() as int) =~= part@);
        let n = match parse_unsigned_chars(part, 0, part.len(), usize::MAX as u64) {
            Some(n) => n,
            None => {
                proof {
                    lemma_choice_indices_none_extends(ps, j as int + 1, option_count);
                }
                return None;
            },
        };
        if n == 0 || n > option_count as u64 {
            proof {
                lemma_choice_indices_none_extends(ps, j as int + 1, option_count);
            }
            return None;
        }
        out.push((n - 1) as usize);
        j = j + 1;
    }
    assert(ps.take(parts.len() as int) =~= ps);
    Some(out)
}

/// Once a prefix of the parts fails, every longer prefix fails too.
proof fn lemma_choice_indices_none_extends(ps: Seq<Seq<char>>, k: int, count: usize)
    requires
        0 <= k <= ps.len(),
        choice_indices(ps.take(k), count).is_none(),
    ensures
        choice_indices(ps, count).is_none(),
    decreases ps.len() - k,
{
    if k < ps.len() {
        assert(ps.take(k + 1).drop_last() =~= ps.take(k));
        lemma_choice_indices_none_extends(ps, k + 1, count);
    } else {
        assert(ps.take(k) =~= ps);
    }
}

} // verus!
