//! Minimal YAML frontmatter of a `SKILL.md`: only flat keys are read (`name`,
//! `description`, `description_zh`, `user-invocable`, `argument-hint`, `version`).
//!
//! The file must start with a `---` line; the frontmatter runs up to the next `---` line
//! and the body follows. Block scalars (`key: >` / `key: |` followed by indented lines)
//! are folded into one line first, so a folded description is not read as a literal `>`.

use vstd::prelude::*;

use crate::text::{
    chars_eq, chars_of, cviews, lemma_find_char, extend_chars, lemma_split_char_nonempty, find_char, find_str, find_str_from, first_index_of,
    is_whitespace, is_ws, join_chars, join_with, lines, lines_of, nonempty_trimmed, owned,
    slice_chars, split_char, split_chars, starts_with, starts_with_at, string_of, trim,
    trim_bounds, trim_char, trim_char_bounds, trim_start, trim_start_index,
};

verus! {

/// What a frontmatter declares.
#[derive(Debug, Clone, PartialEq, Eq)]
pub struct Frontmatter {
    pub name: String,
    pub description: String,
    /// Shown to the user and invocable (default true); `false` marks an internal skill.
    pub user_invocable: bool,
    /// Input hint for the mention menu.
    pub argument_hint: Option<String>,
    /// Skill version (tracked only).
    pub version: Option<String>,
}

// ---------------------------------------------------------------- value cleaning

/// A value with surrounding white space and one pair of matching quotes removed.
pub open spec fn spec_clean_value(raw: Seq<char>) -> Seq<char> {
    let t = trim(raw);
    if t.len() >= 2 && ((t[0] == '"' && t.last() == '"') || (t[0] == '\'' && t.last() == '\'')) {
        t.subrange(1, t.len() - 1)
    } else {
        t
    }
}

/// The cleaned value of `v[from..to]`.
fn clean_value(v: &Vec<char>, from: usize, to: usize) -> (r: Vec<char>)
    requires
        from <= to <= v.len(),
    ensures
        r@ == spec_clean_value(v@.subrange(from as int, to as int)),
{
    let (a, b) = trim_bounds(v, from, to);
    if b - a >= 2 && ((v[a] == '"' && v[b - 1] == '"') || (v[a] == '\'' && v[b - 1] == '\'')) {
        let r = slice_chars(v, a + 1, b - 1);
        assert(r@ =~= v@.subrange(a as int, b as int).subrange(1, (b - a) - 1));
        r
    } else {
        slice_chars(v, a, b)
    }
}

pub open spec fn ascii_lower(c: char) -> char {
    if 'A' as u32 <= c as u32 && c as u32 <= 'Z' as u32 {
        ((c as u32) + 32) as char
    } else {
        c
    }
}

/// `str::eq_ignore_ascii_case` against an ASCII word.
pub open spec fn eq_ignore_ascii_case(a: Seq<char>, b: Seq<char>) -> bool {
    a.len() == b.len() && forall|i: int| 0 <= i < a.len() ==> #[trigger] ascii_lower(a[i]) == ascii_lower(b[i])
}

pub(crate) fn lower(c: char) -> (r: char)
    ensures
        r == ascii_lower(c),
{
    if 'A' <= c && c <= 'Z' {
        ((c as u8) + 32) as char
    } else {
        c
    }
}

pub(crate) fn eq_ignore_case(a: &Vec<char>, b: &Vec<char>) -> (r: bool)
    ensures
        r == eq_ignore_ascii_case(a@, b@),
{
    if a.len() != b.len() {
        return false;
    }
    let mut i: usize = 0;
    while i < a.len()
        invariant
            a.len() == b.len(),
            i <= a.len(),
            forall|j: int| 0 <= j < i ==> #[trigger] ascii_lower(a@[j]) == ascii_lower(b@[j]),
        decreases a.len() - i,
    {
        if lower(a[i]) != lower(b[i]) {
            return false;
        }
        i = i + 1;
    }
    true
}

pub open spec fn non_empty_spec(s: Seq<char>) -> Option<Seq<char>> {
    if s.len() == 0 { None } else { Some(s) }
}

// ---------------------------------------------------------------- block scalar folding

pub open spec fn is_block_indicator(v: Seq<char>) -> bool {
    v == ">"@ || v == "|"@ || v == ">-"@ || v == "|-"@ || v == ">+"@ || v == "|+"@
}

/// `key: >` (or `|`, with an optional chomping sign): a block scalar starts here.
pub open spec fn is_block_header(line: Seq<char>) -> bool {
    match find_char(line, ':') {
        Some(i) => is_block_indicator(trim(line.skip(i + 1))),
        None => false,
    }
}

/// A line that belongs to the block above it: blank, or indented.
pub open spec fn is_continuation(line: Seq<char>) -> bool {
    trim(line).len() == 0 || (line.len() > 0 && is_ws(line[0]))
}

/// Number of leading continuation lines.
pub open spec fn block_len(l: Seq<Seq<char>>) -> nat
    decreases l.len(),
{
    if l.len() > 0 && is_continuation(l[0]) {
        1 + block_len(l.drop_first())
    } else {
        0
    }
}

/// The frontmatter lines with every block scalar folded into one `key: text` line (its
/// non-blank lines trimmed and joined with single spaces).
pub open spec fn fold_lines(l: Seq<Seq<char>>) -> Seq<Seq<char>>
    decreases l.len(),
{
    if l.len() == 0 {
        Seq::empty()
    } else if is_block_header(l[0]) {
        let k = block_len(l.drop_first());
        proof {
            lemma_block_len_le(l.drop_first());
        }
        let key = l[0].take(find_char(l[0], ':')->0);
        let text = join_with(nonempty_trimmed(l.subrange(1, 1 + k as int)), ' ');
        seq![key + ": "@ + text] + fold_lines(l.skip(1 + k as int))
    } else {
        seq![l[0]] + fold_lines(l.drop_first())
    }
}

pub open spec fn spec_fold_block_scalars(fm: Seq<char>) -> Seq<char> {
    join_with(fold_lines(split_char(fm, '\n')), '\n')
}

pub proof fn lemma_block_len_le(l: Seq<Seq<char>>)
    ensures
        block_len(l) <= l.len(),
    decreases l.len(),
{
    if l.len() > 0 && is_continuation(l[0]) {
        lemma_block_len_le(l.drop_first());
    }
}

proof fn lemma_block_len_at(l: Seq<Seq<char>>, k: int)
    requires
        0 <= k <= l.len(),
        forall|j: int| 0 <= j < k ==> is_continuation(#[trigger] l[j]),
        k < l.len() ==> !is_continuation(l[k]),
    ensures
        block_len(l) == k,
    decreases k,
{
    if k > 0 {
        assert forall|j: int| 0 <= j < k - 1 implies is_continuation(#[trigger] l.drop_first()[j]) by {
            assert(l.drop_first()[j] == l[j + 1]);
        }
        lemma_block_len_at(l.drop_first(), k - 1);
    }
}

fn is_block_header_exec(line: &Vec<char>) -> (r: bool)
    ensures
        r == is_block_header(line@),
{
    let i = first_index_of(line, ':');
    if i == line.len() {
        return false;
    }
    let (a, b) = trim_bounds(line, i + 1, line.len());
    assert(line@.subrange(i + 1, line.len() as int) =~= line@.skip(i + 1));
    let v = slice_chars(line, a, b);
    chars_eq(&v, &chars_of(">")) || chars_eq(&v, &chars_of("|")) || chars_eq(&v, &chars_of(">-"))
        || chars_eq(&v, &chars_of("|-")) || chars_eq(&v, &chars_of(">+")) || chars_eq(
        &v,
        &chars_of("|+"),
    )
}

fn is_continuation_exec(line: &Vec<char>) -> (r: bool)
    ensures
        r == is_continuation(line@),
{
    let (a, b) = trim_bounds(line, 0, line.len());
    assert(line@.subrange(0, line@.len() as int) =~= line@);
    a == b || (line.len() > 0 && is_whitespace(line[0]))
}

/// Folds every block scalar of the frontmatter text into a single line.
pub fn fold_block_scalars(fm: &Vec<char>) -> (r: Vec<char>)
    ensures
        r@ == spec_fold_block_scalars(fm@),
{
    let l = split_chars(fm, '\n');
    let ghost lv = cviews(l@);
    let mut out: Vec<Vec<char>> = Vec::new();
    let mut i: usize = 0;
    assert(lv.skip(0) =~= lv);
    assert(cviews(out@) =~= Seq::<Seq<char>>::empty());
    while i < l.len()
        invariant
            i <= l.len(),
            lv == cviews(l@),
            cviews(out@) + fold_lines(lv.skip(i as int)) == fold_lines(lv),
        decreases l.len() - i,
    {
        let ghost rest = lv.skip(i as int);
        assert(rest[0] == l@[i as int]@);
        let line = &l[i];
        if is_block_header_exec(line) {
            let mut j = i + 1;
            while j < l.len() && is_continuation_exec(&l[j])
                invariant
                    i + 1 <= j <= l.len(),
                    lv == cviews(l@),
                    forall|q: int| i + 1 <= q < j ==> is_continuation(#[trigger] lv[q]),
                decreases l.len() - j,
            {
                j = j + 1;
            }
            proof {
                let d = rest.drop_first();
                assert forall|q: int| 0 <= q < j - i - 1 implies is_continuation(#[trigger] d[q]) by {
                    assert(d[q] == lv[i + 1 + q]);
                }
                if j < l.len() {
                    assert(d[j - i - 1] == lv[j as int]);
                }
                lemma_block_len_at(d, j - i - 1);
            }
            let mut parts: Vec<Vec<char>> = Vec::new();
            let mut q = i + 1;
            let ghost block = lv.subrange(i + 1, j as int);
            assert(block.take(0) =~= Seq::<Seq<char>>::empty());
            while q < j
                invariant
                    i + 1 <= q <= j <= l.len(),
                    lv == cviews(l@),
                    block == lv.subrange(i + 1, j as int),
                    cviews(parts@) == nonempty_trimmed(block.take(q - i - 1)),
                decreases j - q,
            {
                let piece = &l[q];
                let (a, b) = trim_bounds(piece, 0, piece.len());
                assert(piece@.subrange(0, piece@.len() as int) =~= piece@);
                assert(block.take(q - i).drop_last() =~= block.take(q - i - 1));
                assert(block.take(q - i).last() == piece@);
                if a < b {
                    let tp = slice_chars(piece, a, b);
                    let ghost before = cviews(parts@);
                    parts.push(tp);
                    assert(cviews(parts@) =~= before.push(tp@));
                }
                q = q + 1;
            }
            assert(block.take(j - i - 1) =~= block);
            let k = first_index_of(line, ':');
            let mut folded = slice_chars(line, 0, k);
            folded.push(':');
            folded.push(' ');
            let text = join_chars(&parts, ' ');
            let mut t: usize = 0;
            let ghost base = folded@;
            while t < text.len()
                invariant
                    t <= text.len(),
                    folded@ == base + text@.take(t as int),
                decreases text.len() - t,
            {
                folded.push(text[t]);
                t = t + 1;
                assert(folded@ =~= base + text@.take(t as int));
            }
            assert(text@.take(text.len() as int) =~= text@);
            assert(folded@ =~= line@.take(k as int) + ": "@ + text@) by {
                reveal_strlit(": ");
            }
            let ghost before = cviews(out@);
            out.push(folded);
            assert(cviews(out@) =~= before.push(folded@));
            assert(rest.subrange(1, 1 + (j - i - 1)) =~= block);
            assert(rest.skip(1 + (j - i - 1)) =~= lv.skip(j as int));
            assert(fold_lines(rest) == seq![folded@] + fold_lines(lv.skip(j as int)));
            assert(cviews(out@) + fold_lines(lv.skip(j as int)) =~= before + fold_lines(rest));
            i = j;
        } else {
            let copy = slice_chars(line, 0, line.len());
            assert(copy@ =~= line@);
            let ghost before = cviews(out@);
            out.push(copy);
            assert(cviews(out@) =~= before.push(copy@));
            assert(rest.drop_first() =~= lv.skip(i + 1));
            assert(cviews(out@) + fold_lines(lv.skip(i + 1)) =~= before + fold_lines(rest));
            i = i + 1;
        }
    }
    assert(lv.skip(l.len() as int) =~= Seq::<Seq<char>>::empty());
    assert(cviews(out@) + Seq::<Seq<char>>::empty() =~= cviews(out@));
    join_chars(&out, '\n')
}


// ---------------------------------------------------------------- frontmatter region

/// `content` with block scalars folded inside the frontmatter region only: the text is
/// split at the first two `---` (as `splitn(3, "---")`); when the part before the first
/// is blank, the result is `"---\n" + folded region + "\n---" + rest`, otherwise (or when
/// there are fewer than two `---`) the content is returned as it is. The body is Markdown,
/// where `>` starts a quote, and is never folded.
pub open spec fn spec_fold_frontmatter(s: Seq<char>) -> Seq<char> {
    match find_str(s, "---"@) {
        None => s,
        Some(i) => {
            let r = s.skip(i + 3);
            match find_str(r, "---"@) {
                None => s,
                Some(j) => if trim(s.take(i)).len() > 0 {
                    s
                } else {
                    "---\n"@ + spec_fold_block_scalars(trim_char(r.take(j), '\n')) + "\n---"@ + r.skip(j + 3)
                },
            }
        },
    }
}

fn fold_frontmatter(v: &Vec<char>) -> (r: Vec<char>)
    ensures
        r@ == spec_fold_frontmatter(v@),
{
    proof {
        reveal_strlit("---");
        reveal_strlit("---\n");
        reveal_strlit("\n---");
    }
    assert(v@.skip(0) =~= v@);
    let i = match find_str_from(v, 0, "---") {
        None => return slice_chars(v, 0, v.len()),
        Some(i) => i,
    };
    proof {
        assert(find_str(v@, "---"@) == Some(i as int));
        assert(starts_with(v@.skip(i as int), "---"@)) by {
            lemma_find_str_hit(v@, "---"@);
        }
    }
    let start = i + 3;
    let j = match find_str_from(v, start, "---") {
        None => {
            let r = slice_chars(v, 0, v.len());
            assert(r@ =~= v@);
            return r;
        },
        Some(j) => j,
    };
    let (a, b) = trim_bounds(v, 0, i);
    assert(v@.subrange(0, i as int) =~= v@.take(i as int));
    if a < b {
        let r = slice_chars(v, 0, v.len());
        assert(r@ =~= v@);
        return r;
    }
    let ghost rest = v@.skip(start as int);
    proof {
        assert(find_str(rest, "---"@) == Some(j - start));
        assert(starts_with(rest.skip(j - start), "---"@)) by {
            lemma_find_str_hit(rest, "---"@);
        }
        assert(rest.skip(j - start) =~= v@.skip(j as int));
    }
    let (c, d) = trim_char_bounds(v, start, j, '\n');
    assert(v@.subrange(start as int, j as int) =~= rest.take(j - start));
    let region = slice_chars(v, c, d);
    let folded = fold_block_scalars(&region);
    let mut out = chars_of("---\n");
    extend_chars(&mut out, &folded);
    extend_chars(&mut out, &chars_of("\n---"));
    let tail = slice_chars(v, j + 3, v.len());
    assert(tail@ =~= rest.skip(j - start + 3));
    extend_chars(&mut out, &tail);
    out
}

proof fn lemma_find_str_hit(s: Seq<char>, p: Seq<char>)
    requires
        find_str(s, p) is Some,
    ensures
        0 <= find_str(s, p)->0 <= s.len(),
        starts_with(s.skip(find_str(s, p)->0), p),
    decreases s.len(),
{
    assert(s.skip(0) =~= s);
    if !starts_with(s, p) && s.len() > 0 {
        lemma_find_str_hit(s.drop_first(), p);
        assert(s.drop_first().skip(find_str(s.drop_first(), p)->0) =~= s.skip(find_str(s, p)->0));
    }
}


// ---------------------------------------------------------------- parsing

/// The fields of a frontmatter as character sequences.
pub struct FrontmatterView {
    pub name: Seq<char>,
    pub description: Seq<char>,
    pub user_invocable: bool,
    pub argument_hint: Option<Seq<char>>,
    pub version: Option<Seq<char>>,
}

pub open spec fn opt_view(o: Option<String>) -> Option<Seq<char>> {
    match o {
        Some(s) => Some(s@),
        None => None,
    }
}

impl View for Frontmatter {
    type V = FrontmatterView;

    open spec fn view(&self) -> FrontmatterView {
        FrontmatterView {
            name: self.name@,
            description: self.description@,
            user_invocable: self.user_invocable,
            argument_hint: opt_view(self.argument_hint),
            version: opt_view(self.version),
        }
    }
}

/// What the key lines read so far have set; a later line with the same key wins.
pub struct ScanState {
    pub name: Option<Seq<char>>,
    pub description: Seq<char>,
    pub description_zh: Seq<char>,
    pub user_invocable: bool,
    pub argument_hint: Option<Seq<char>>,
    pub version: Option<Seq<char>>,
}

pub open spec fn initial_scan() -> ScanState {
    ScanState {
        name: None,
        description: Seq::empty(),
        description_zh: Seq::empty(),
        user_invocable: true,
        argument_hint: None,
        version: None,
    }
}

/// One frontmatter line: `key: value` split at the first `:`; unknown keys and lines
/// without `:` change nothing.
pub open spec fn apply_line(st: ScanState, line: Seq<char>) -> ScanState {
    match find_char(line, ':') {
        None => st,
        Some(i) => {
            let k = trim(line.take(i));
            let v = spec_clean_value(line.skip(i + 1));
            if k == "name"@ {
                ScanState { name: Some(v), ..st }
            } else if k == "description"@ {
                ScanState { description: v, ..st }
            } else if k == "description_zh"@ {
                ScanState { description_zh: v, ..st }
            } else if k == "user-invocable"@ {
                ScanState { user_invocable: !eq_ignore_ascii_case(v, "false"@), ..st }
            } else if k == "argument-hint"@ {
                ScanState { argument_hint: non_empty_spec(v), ..st }
            } else if k == "version"@ {
                ScanState { version: non_empty_spec(v), ..st }
            } else {
                st
            }
        },
    }
}

pub open spec fn scan(ls: Seq<Seq<char>>) -> ScanState
    decreases ls.len(),
{
    if ls.len() == 0 {
        initial_scan()
    } else {
        apply_line(scan(ls.drop_last()), ls.last())
    }
}

pub open spec fn is_fence(line: Seq<char>) -> bool {
    trim(line) == "---"@
}

/// Index of the first `---` line.
pub open spec fn first_fence(ls: Seq<Seq<char>>) -> Option<int>
    decreases ls.len(),
{
    if ls.len() == 0 {
        None
    } else if is_fence(ls[0]) {
        Some(0)
    } else {
        match first_fence(ls.drop_first()) {
            Some(i) => Some(i + 1),
            None => None,
        }
    }
}

proof fn lemma_first_fence(ls: Seq<Seq<char>>, i: int)
    requires
        0 <= i <= ls.len(),
        forall|j: int| 0 <= j < i ==> !is_fence(#[trigger] ls[j]),
        i < ls.len() ==> is_fence(ls[i]),
    ensures
        first_fence(ls) == if i < ls.len() { Some(i) } else { None::<int> },
    decreases i,
{
    if i > 0 {
        assert forall|j: int| 0 <= j < i - 1 implies !is_fence(#[trigger] ls.drop_first()[j]) by {
            assert(ls.drop_first()[j] == ls[j + 1]);
        }
        lemma_first_fence(ls.drop_first(), i - 1);
    }
}

pub open spec fn missing_open_msg() -> Seq<char> {
    "SKILL.md 缺少 YAML frontmatter（需以 --- 开头）"@
}

pub open spec fn unclosed_msg() -> Seq<char> {
    "SKILL.md 的 frontmatter 未正确闭合（缺少结束 ---）"@
}

pub open spec fn missing_name_msg() -> Seq<char> {
    "SKILL.md frontmatter 缺少 name"@
}

/// What `parse_frontmatter` gives for `content`: block scalars are folded first; the first
/// line must be `---`; the key lines run up to the next `---` line, which must exist; `name`
/// must be present and non-empty; a non-empty `description_zh` is preferred to
/// `description`.
pub open spec fn spec_parse_frontmatter(content: Seq<char>) -> Result<FrontmatterView, Seq<char>> {
    let ls = lines(spec_fold_frontmatter(content));
    if ls.len() == 0 || !is_fence(ls[0]) {
        Err(missing_open_msg())
    } else {
        match first_fence(ls.drop_first()) {
            None => Err(unclosed_msg()),
            Some(j) => {
                let st = scan(ls.drop_first().take(j));
                match st.name {
                    Some(n) if n.len() > 0 => Ok(
                        FrontmatterView {
                            name: n,
                            description: if st.description_zh.len() == 0 {
                                st.description
                            } else {
                                st.description_zh
                            },
                            user_invocable: st.user_invocable,
                            argument_hint: st.argument_hint,
                            version: st.version,
                        },
                    ),
                    _ => Err(missing_name_msg()),
                }
            },
        }
    }
}

pub open spec fn result_view(r: Result<Frontmatter, String>) -> Result<FrontmatterView, Seq<char>> {
    match r {
        Ok(f) => Ok(f@),
        Err(e) => Err(e@),
    }
}

struct Scanner {
    name: Option<Vec<char>>,
    description: Vec<char>,
    description_zh: Vec<char>,
    user_invocable: bool,
    argument_hint: Option<Vec<char>>,
    version: Option<Vec<char>>,
}

spec fn ovc(o: Option<Vec<char>>) -> Option<Seq<char>> {
    match o {
        Some(v) => Some(v@),
        None => None,
    }
}

impl Scanner {
    spec fn state(&self) -> ScanState {
        ScanState {
            name: ovc(self.name),
            description: self.description@,
            description_zh: self.description_zh@,
            user_invocable: self.user_invocable,
            argument_hint: ovc(self.argument_hint),
            version: ovc(self.version),
        }
    }

    fn apply(&mut self, line: &Vec<char>)
        ensures
            final(self).state() == apply_line(old(self).state(), line@),
    {
        let i = first_index_of(line, ':');
        if i == line.len() {
            return;
        }
        let (a, b) = trim_bounds(line, 0, i);
        assert(line@.subrange(0, i as int) =~= line@.take(i as int));
        let k = slice_chars(line, a, b);
        let v = clean_value(line, i + 1, line.len());
        assert(line@.subrange(i + 1, line.len() as int) =~= line@.skip(i + 1));
        if chars_eq(&k, &chars_of("name")) {
            self.name = Some(v);
        } else if chars_eq(&k, &chars_of("description")) {
            self.description = v;
        } else if chars_eq(&k, &chars_of("description_zh")) {
            self.description_zh = v;
        } else if chars_eq(&k, &chars_of("user-invocable")) {
            self.user_invocable = !eq_ignore_case(&v, &chars_of("false"));
        } else if chars_eq(&k, &chars_of("argument-hint")) {
            self.argument_hint = if v.len() == 0 { None } else { Some(v) };
        } else if chars_eq(&k, &chars_of("version")) {
            self.version = if v.len() == 0 { None } else { Some(v) };
        }
    }
}

fn opt_string(o: Option<Vec<char>>) -> (r: Option<String>)
    ensures
        opt_view(r) == ovc(o),
{
    match o {
        Some(v) => Some(string_of(&v)),
        None => None,
    }
}

/// Reads the frontmatter of a `SKILL.md`. A missing opening `---`, a missing closing
/// `---` and a missing or empty `name` are errors (install refuses the skill, sync skips
/// it).
pub fn parse_frontmatter(content: &str) -> (r: Result<Frontmatter, String>)
    ensures
        result_view(r) == spec_parse_frontmatter(content@),
{
    let v = chars_of(content);
    let folded = fold_frontmatter(&v);
    let ls = lines_of(&folded);
    let ghost lv = cviews(ls@);
    if ls.len() == 0 {
        return Err(owned("SKILL.md 缺少 YAML frontmatter（需以 --- 开头）"));
    }
    let first = &ls[0];
    let (a, b) = trim_bounds(first, 0, first.len());
    assert(first@.subrange(0, first@.len() as int) =~= first@);
    assert(lv[0] == first@);
    if !chars_eq(&slice_chars(first, a, b), &chars_of("---")) {
        return Err(owned("SKILL.md 缺少 YAML frontmatter（需以 --- 开头）"));
    }
    let mut sc = Scanner {
        name: None,
        description: Vec::new(),
        description_zh: Vec::new(),
        user_invocable: true,
        argument_hint: None,
        version: None,
    };
    let ghost rest = lv.drop_first();
    assert(rest.take(0) =~= Seq::<Seq<char>>::empty());
    let mut i: usize = 1;
    let mut closed = false;
    while i < ls.len()
        invariant_except_break
            1 <= i <= ls.len(),
            lv == cviews(ls@),
            rest == lv.drop_first(),
            !closed,
            sc.state() == scan(rest.take(i - 1)),
            forall|q: int| 0 <= q < i - 1 ==> !is_fence(#[trigger] rest[q]),
        ensures
            1 <= i <= ls.len(),
            sc.state() == scan(rest.take(i - 1)),
            forall|q: int| 0 <= q < i - 1 ==> !is_fence(#[trigger] rest[q]),
            closed ==> i < ls.len() && is_fence(rest[i - 1]),
            !closed ==> i == ls.len(),
        decreases ls.len() - i,
    {
        let line = &ls[i];
        assert(rest[i - 1] == line@);
        let (a, b) = trim_bounds(line, 0, line.len());
        assert(line@.subrange(0, line@.len() as int) =~= line@);
        if chars_eq(&slice_chars(line, a, b), &chars_of("---")) {
            closed = true;
            break;
        }
        assert(rest.take(i as int).drop_last() =~= rest.take(i - 1));
        sc.apply(line);
        i = i + 1;
    }
    proof {
        lemma_first_fence(rest, i - 1);
    }
    if !closed {
        return Err(owned("SKILL.md 的 frontmatter 未正确闭合（缺少结束 ---）"));
    }
    let name = match sc.name {
        Some(n) => n,
        None => {
            return Err(owned("SKILL.md frontmatter 缺少 name"));
        },
    };
    if name.len() == 0 {
        return Err(owned("SKILL.md frontmatter 缺少 name"));
    }
    let description = if sc.description_zh.len() == 0 {
        string_of(&sc.description)
    } else {
        string_of(&sc.description_zh)
    };
    Ok(
        Frontmatter {
            name: string_of(&name),
            description,
            user_invocable: sc.user_invocable,
            argument_hint: opt_string(sc.argument_hint),
            version: opt_string(sc.version),
        },
    )
}


/// What `strip_frontmatter` gives: the body after the closing `---` line, its lines joined
/// with `'\n'` and a final line break kept; content without a well-formed frontmatter is
/// returned as it is.
pub open spec fn spec_strip_frontmatter(c: Seq<char>) -> Seq<char> {
    let ls = lines(c);
    if !starts_with(trim_start(c), "---"@) || ls.len() == 0 || !is_fence(ls[0]) {
        c
    } else {
        match first_fence(ls.drop_first()) {
            None => c,
            Some(j) => {
                let out = join_with(ls.drop_first().skip(j + 1), '\n');
                if c.len() > 0 && c.last() == '\n' && out.len() > 0 {
                    out.push('\n')
                } else {
                    out
                }
            },
        }
    }
}

/// The body of a `SKILL.md` without its frontmatter block.
pub fn strip_frontmatter(content: &str) -> (r: String)
    ensures
        r@ == spec_strip_frontmatter(content@),
{
    let v = chars_of(content);
    let a = trim_start_index(&v);
    if !starts_with_at(&v, a, "---") {
        return owned(content);
    }
    let ls = lines_of(&v);
    let ghost lv = cviews(ls@);
    if ls.len() == 0 {
        return owned(content);
    }
    let first = &ls[0];
    let (p, q) = trim_bounds(first, 0, first.len());
    assert(first@.subrange(0, first@.len() as int) =~= first@);
    assert(lv[0] == first@);
    if !chars_eq(&slice_chars(first, p, q), &chars_of("---")) {
        return owned(content);
    }
    let ghost rest = lv.drop_first();
    let mut i: usize = 1;
    let mut closed = false;
    while i < ls.len()
        invariant_except_break
            1 <= i <= ls.len(),
            lv == cviews(ls@),
            rest == lv.drop_first(),
            !closed,
            forall|k: int| 0 <= k < i - 1 ==> !is_fence(#[trigger] rest[k]),
        ensures
            1 <= i <= ls.len(),
            forall|k: int| 0 <= k < i - 1 ==> !is_fence(#[trigger] rest[k]),
            closed ==> i < ls.len() && is_fence(rest[i - 1]),
            !closed ==> i == ls.len(),
        decreases ls.len() - i,
    {
        let line = &ls[i];
        assert(rest[i - 1] == line@);
        let (p, q) = trim_bounds(line, 0, line.len());
        assert(line@.subrange(0, line@.len() as int) =~= line@);
        if chars_eq(&slice_chars(line, p, q), &chars_of("---")) {
            closed = true;
            break;
        }
        i = i + 1;
    }
    proof {
        lemma_first_fence(rest, i - 1);
    }
    if !closed {
        return owned(content);
    }
    let mut body: Vec<Vec<char>> = Vec::new();
    let mut k = i + 1;
    assert(rest.skip(i as int).take(0) =~= Seq::<Seq<char>>::empty());
    while k < ls.len()
        invariant
            i + 1 <= k <= ls.len(),
            lv == cviews(ls@),
            rest == lv.drop_first(),
            cviews(body@) == rest.skip(i as int).take(k - i - 1),
        decreases ls.len() - k,
    {
        let line = slice_chars(&ls[k], 0, ls[k].len());
        assert(line@ =~= lv[k as int]);
        let ghost before = cviews(body@);
        body.push(line);
        assert(cviews(body@) =~= before.push(line@));
        assert(rest.skip(i as int).take(k - i) =~= rest.skip(i as int).take(k - i - 1).push(lv[k as int]));
        k = k + 1;
    }
    assert(rest.skip(i as int).take(k - i - 1) =~= rest.skip(i as int));
    let mut out = join_chars(&body, '\n');
    if v.len() > 0 && v[v.len() - 1] == '\n' && out.len() > 0 {
        out.push('\n');
    }
    string_of(&out)
}


// ---------------------------------------------------------------- laws

proof fn lemma_join_split(s: Seq<char>, c: char)
    ensures
        join_with(split_char(s, c), c) == s,
    decreases s.len(),
{
    if s.len() > 0 {
        let p = split_char(s.drop_last(), c);
        lemma_join_split(s.drop_last(), c);
        lemma_split_char_nonempty(s.drop_last(), c);
        if s.last() == c {
            let q = p.push(Seq::empty());
            assert(q.drop_last() =~= p);
            assert(join_with(q, c) == join_with(p, c).push(c) + Seq::<char>::empty());
            assert(s =~= s.drop_last().push(c));
        } else {
            let q = p.update(p.len() - 1, p.last().push(s.last()));
            if p.len() == 1 {
                assert(join_with(q, c) == q[0]);
                assert(join_with(p, c) == p[0]);
                assert(s =~= s.drop_last().push(s.last()));
            } else {
                assert(q.drop_last() =~= p.drop_last());
                assert(join_with(q, c) == join_with(p.drop_last(), c).push(c) + q.last());
                assert(join_with(p, c) == join_with(p.drop_last(), c).push(c) + p.last());
                assert(join_with(q, c) =~= join_with(p, c).push(s.last()));
                assert(s =~= s.drop_last().push(s.last()));
            }
        }
    }
}

proof fn lemma_fold_lines_identity(l: Seq<Seq<char>>)
    requires
        forall|i: int| 0 <= i < l.len() ==> !is_block_header(#[trigger] l[i]),
    ensures
        fold_lines(l) == l,
    decreases l.len(),
{
    if l.len() > 0 {
        assert(!is_block_header(l[0]));
        assert forall|i: int| 0 <= i < l.drop_first().len() implies !is_block_header(#[trigger] l.drop_first()[i]) by {
            assert(l.drop_first()[i] == l[i + 1]);
        }
        lemma_fold_lines_identity(l.drop_first());
        assert(seq![l[0]] + l.drop_first() =~= l);
    }
}

/// A `user-invocable` line turns the skill off exactly when its value, cleaned of blanks
/// and quotes, reads `false` in any mix of upper- and lower-case letters (`false`, `False`,
/// `FALSE`, ...); any other value turns it on, whatever earlier lines said. No other field
/// changes.
pub proof fn law_user_invocable_off_only_for_false(st: ScanState, raw: Seq<char>)
    ensures
        apply_line(st, "user-invocable:"@ + raw).user_invocable
            <==> spec_clean_value(raw).map_values(|c: char| ascii_lower(c)) != "false"@,
        spec_clean_value(raw) == "false"@ ==> !apply_line(st, "user-invocable:"@ + raw).user_invocable,
        apply_line(st, "user-invocable:"@ + raw) == (ScanState {
            user_invocable: apply_line(st, "user-invocable:"@ + raw).user_invocable,
            ..st
        }),
{
    reveal_strlit("user-invocable:");
    reveal_strlit("user-invocable");
    reveal_strlit("name");
    reveal_strlit("description");
    reveal_strlit("description_zh");
    reveal_strlit("false");
    let line = "user-invocable:"@ + raw;
    let key = "user-invocable"@;
    assert(forall|j: int| 0 <= j < 15 ==> line[j] == "user-invocable:"@[j]);
    lemma_find_char(line, ':', 14);
    assert(line.take(14) =~= key);
    assert(!is_ws(key[0]) && !is_ws(key.last()));
    assert(trim_start(key) == key);
    assert(trim(key) == key);
    assert(key.len() != "name"@.len() && key.len() != "description"@.len());
    assert(key[0] != "description_zh"@[0]);
    let v = spec_clean_value(line.skip(15));
    assert(line.skip(15) =~= raw);
    let f = "false"@;
    assert(forall|i: int| 0 <= i < 5 ==> #[trigger] ascii_lower(f[i]) == f[i]);
    if eq_ignore_ascii_case(v, f) {
        assert(v.map_values(|c: char| ascii_lower(c)) =~= f);
    }
    if v.map_values(|c: char| ascii_lower(c)) == f {
        assert forall|i: int| 0 <= i < v.len() implies #[trigger] ascii_lower(v[i]) == ascii_lower(f[i]) by {
            assert(v.map_values(|c: char| ascii_lower(c))[i] == ascii_lower(v[i]));
        }
    }
}

/// A frontmatter without block scalars is left exactly as it is by the folding.
pub proof fn law_fold_without_block_scalars_is_identity(fm: Seq<char>)
    requires
        forall|i: int| 0 <= i < split_char(fm, '\n').len() ==> !is_block_header(#[trigger] split_char(fm, '\n')[i]),
    ensures
        spec_fold_block_scalars(fm) == fm,
{
    lemma_fold_lines_identity(split_char(fm, '\n'));
    lemma_join_split(fm, '\n');
}

} // verus!
