//! The computing parts of the skill service: name checks, template substitution,
//! file previews, and the decisions taken by install and sync. Reading and writing
//! the skill directories and the index stays with the caller.

use vstd::prelude::*;

use crate::skill::frontmatter::{ascii_lower, lower, Frontmatter};
use crate::skill::model::{SkillRecord, SkillSource};
use crate::skill::types::{SkillFilePreview, SkillSummary};
use crate::team::import::{normalize_rel, spec_normalize_rel};
use crate::text::{
    chars_of, contains_at, contains_str, extend_chars, owned, slice_chars, sort_strings, sorted_lex, starts_with, starts_with_at, str_eq,
    string_of, sviews,
};

verus! {

/// Name of the data directory under the home directory.
pub const DATA_DIR_NAME: &'static str = ".siliconagent";

// ---------------------------------------------------------------- skill names

/// A skill name becomes a directory name: it must be non-empty, not `.` or `..`, and hold
/// no path separator.
pub open spec fn valid_skill_name(n: Seq<char>) -> bool {
    n.len() > 0 && n != "."@ && n != ".."@ && !n.contains('/') && !n.contains('\\')
}

fn contains_char(v: &Vec<char>, c: char) -> (r: bool)
    ensures
        r == v@.contains(c),
{
    let mut i: usize = 0;
    while i < v.len()
        invariant
            i <= v.len(),
            forall|j: int| 0 <= j < i ==> v@[j] != c,
        decreases v.len() - i,
    {
        if v[i] == c {
            return true;
        }
        i = i + 1;
    }
    false
}


/// Which directory of an install source is the skill: the directory itself when it holds
/// `SKILL.md` (`Ok(None)`), else its only subdirectory when that one does (`Ok(Some(0))`).
/// `subdirs_have_skill` tells, for each subdirectory, whether it holds `SKILL.md`.
pub fn locate_skill_root(root_has_skill: bool, subdirs_have_skill: &Vec<bool>) -> (r: Result<Option<usize>, String>)
    ensures
        root_has_skill ==> r == Ok::<Option<usize>, String>(None),
        !root_has_skill && subdirs_have_skill.len() == 1 && subdirs_have_skill@[0] ==> r == Ok::<
            Option<usize>,
            String,
        >(Some(0)),
        !root_has_skill && !(subdirs_have_skill.len() == 1 && subdirs_have_skill@[0]) ==> (r matches Err(e)
            && e@ == "安装包未找到 SKILL.md（需在根目录或唯一顶层子目录内）"@),
{
    if root_has_skill {
        Ok(None)
    } else if subdirs_have_skill.len() == 1 && subdirs_have_skill[0] {
        Ok(Some(0))
    } else {
        Err(owned("安装包未找到 SKILL.md（需在根目录或唯一顶层子目录内）"))
    }
}

/// Refuses a name that could leave the skills directory.
pub fn validate_skill_name(name: &str) -> (r: Result<(), String>)
    ensures
        r is Ok <==> valid_skill_name(name@),
        r matches Err(e) ==> e@ == "非法技能名："@ + name@,
{
    let v = chars_of(name);
    if v.len() == 0 || str_eq(name, ".") || str_eq(name, "..") || contains_char(&v, '/')
        || contains_char(&v, '\\') {
        let mut e = chars_of("非法技能名：");
        extend_chars(&mut e, &v);
        return Err(string_of(&e));
    }
    Ok(())
}

// ---------------------------------------------------------------- template variables

/// Every occurrence of `pat` replaced by `rep`, scanning left to right
/// (`str::replace` with a non-empty pattern).
pub open spec fn replace_all(s: Seq<char>, pat: Seq<char>, rep: Seq<char>) -> Seq<char>
    decreases s.len(),
{
    if pat.len() > 0 && starts_with(s, pat) {
        rep + replace_all(s.skip(pat.len() as int), pat, rep)
    } else if s.len() == 0 {
        s
    } else {
        seq![s[0]] + replace_all(s.drop_first(), pat, rep)
    }
}

/// `v` with every `pat` replaced by `rep`.
pub fn replace_chars(v: &Vec<char>, pat: &str, rep: &Vec<char>) -> (r: Vec<char>)
    requires
        pat@.len() > 0,
    ensures
        r@ == replace_all(v@, pat@, rep@),
{
    let p = chars_of(pat);
    let mut out: Vec<char> = Vec::new();
    let mut i: usize = 0;
    assert(v@.skip(0) =~= v@);
    while i < v.len()
        invariant
            i <= v.len(),
            p@ == pat@,
            p@.len() > 0,
            out@ + replace_all(v@.skip(i as int), pat@, rep@) == replace_all(v@, pat@, rep@),
        decreases v.len() - i,
    {
        let ghost rest = v@.skip(i as int);
        let ghost before = out@;
        if starts_with_at(v, i, pat) {
            extend_chars(&mut out, rep);
            assert(rest.skip(p@.len() as int) =~= v@.skip(i + p@.len()));
            assert(out@ + replace_all(v@.skip(i + p@.len()), pat@, rep@) =~= before + replace_all(rest, pat@, rep@));
            i = i + p.len();
        } else {
            out.push(v[i]);
            assert(rest.drop_first() =~= v@.skip(i + 1));
            assert(rest[0] == v@[i as int]);
            assert(out@ + replace_all(v@.skip(i + 1), pat@, rep@) =~= before + replace_all(rest, pat@, rep@));
            i = i + 1;
        }
    }
    assert(v@.skip(i as int) =~= Seq::<char>::empty());
    assert(out@ + Seq::<char>::empty() =~= out@);
    out
}

/// Fills the template variables of a skill text: `{{.DataDirName}}` becomes the data
/// directory name, then `{{.SkillDir}}` becomes the skill's own directory.
pub fn substitute_vars(body: &str, skill_dir: &str) -> (r: String)
    ensures
        r@ == replace_all(
            replace_all(body@, "{{.DataDirName}}"@, DATA_DIR_NAME@),
            "{{.SkillDir}}"@,
            skill_dir@,
        ),
{
    proof {
        reveal_strlit("{{.DataDirName}}");
        reveal_strlit("{{.SkillDir}}");
    }
    let v = chars_of(body);
    let first = replace_chars(&v, "{{.DataDirName}}", &chars_of(DATA_DIR_NAME));
    let second = replace_chars(&first, "{{.SkillDir}}", &chars_of(skill_dir));
    string_of(&second)
}


// ---------------------------------------------------------------- previews

/// MIME type of an image extension.
pub open spec fn spec_image_mime(ext: Seq<char>) -> Seq<char> {
    if ext == "png"@ {
        "image/png"@
    } else if ext == "jpg"@ || ext == "jpeg"@ {
        "image/jpeg"@
    } else if ext == "gif"@ {
        "image/gif"@
    } else if ext == "webp"@ {
        "image/webp"@
    } else if ext == "svg"@ {
        "image/svg+xml"@
    } else if ext == "bmp"@ {
        "image/bmp"@
    } else {
        "application/octet-stream"@
    }
}

pub fn image_mime(ext: &str) -> (r: &'static str)
    ensures
        r@ == spec_image_mime(ext@),
{
    if str_eq(ext, "png") {
        "image/png"
    } else if str_eq(ext, "jpg") || str_eq(ext, "jpeg") {
        "image/jpeg"
    } else if str_eq(ext, "gif") {
        "image/gif"
    } else if str_eq(ext, "webp") {
        "image/webp"
    } else if str_eq(ext, "svg") {
        "image/svg+xml"
    } else if str_eq(ext, "bmp") {
        "image/bmp"
    } else {
        "application/octet-stream"
    }
}

/// The base64 digit of `i & 63` (standard alphabet).
pub open spec fn b64_char(i: u32) -> char {
    let d = i & 63;
    if d < 26 {
        ((65 + d) as u8) as char
    } else if d < 52 {
        ((97 + d - 26) as u8) as char
    } else if d < 62 {
        ((48 + d - 52) as u8) as char
    } else if d == 62 {
        '+'
    } else {
        '/'
    }
}

/// One group of up to three bytes (`k` of them real) as four base64 characters, with `=`
/// padding.
pub open spec fn b64_group(b0: u8, b1: u8, b2: u8, k: nat) -> Seq<char> {
    let n: u32 = ((b0 as u32) << 16u32) | ((b1 as u32) << 8u32) | (b2 as u32);
    seq![
        b64_char(n >> 18u32),
        b64_char(n >> 12u32),
        if k > 1 { b64_char(n >> 6u32) } else { '=' },
        if k > 2 { b64_char(n) } else { '=' },
    ]
}

/// Standard base64 with padding.
pub open spec fn b64(s: Seq<u8>) -> Seq<char>
    decreases s.len(),
{
    if s.len() == 0 {
        Seq::empty()
    } else if s.len() == 1 {
        b64_group(s[0], 0, 0, 1)
    } else if s.len() == 2 {
        b64_group(s[0], s[1], 0, 2)
    } else {
        b64_group(s[0], s[1], s[2], 3) + b64(s.skip(3))
    }
}

fn b64_digit(i: u32) -> (c: char)
    ensures
        c == b64_char(i),
{
    let d = i & 63;
    assert(d < 64) by (bit_vector)
        requires
            d == i & 63,
    ;
    if d < 26 {
        ((65 + d) as u8) as char
    } else if d < 52 {
        ((97 + d - 26) as u8) as char
    } else if d < 62 {
        ((48 + d - 52) as u8) as char
    } else if d == 62 {
        '+'
    } else {
        '/'
    }
}

/// Standard base64 encoding with padding.
pub fn base64_encode(input: &[u8]) -> (r: String)
    ensures
        r@ == b64(input@),
{
    let mut out: Vec<char> = Vec::new();
    let mut i: usize = 0;
    assert(input@.skip(0) =~= input@);
    while i < input.len()
        invariant
            i <= input.len(),
            out@ + b64(input@.skip(i as int)) == b64(input@),
        decreases input.len() - i,
    {
        let ghost rest = input@.skip(i as int);
        let ghost before = out@;
        let k = input.len() - i;
        let b0 = input[i];
        let b1 = if k > 1 { input[i + 1] } else { 0 };
        let b2 = if k > 2 { input[i + 2] } else { 0 };
        let n: u32 = ((b0 as u32) << 16u32) | ((b1 as u32) << 8u32) | (b2 as u32);
        out.push(b64_digit(n >> 18u32));
        out.push(b64_digit(n >> 12u32));
        out.push(if k > 1 { b64_digit(n >> 6u32) } else { '=' });
        out.push(if k > 2 { b64_digit(n) } else { '=' });
        if k > 2 {
            assert(rest.skip(3) =~= input@.skip(i + 3));
            assert(out@ + b64(input@.skip(i + 3)) =~= before + b64(rest));
            i = i + 3;
        } else {
            assert(out@ =~= before + b64(rest));
            assert(input@.skip(input.len() as int) =~= Seq::<u8>::empty());
            assert(out@ + b64(input@.skip(input.len() as int)) =~= out@);
            i = input.len();
        }
    }
    assert(input@.skip(i as int) =~= Seq::<u8>::empty());
    assert(out@ + Seq::<char>::empty() =~= out@);
    string_of(&out)
}

/// `str::to_ascii_lowercase`.
pub open spec fn ascii_lowercase(s: Seq<char>) -> Seq<char> {
    s.map_values(|c: char| ascii_lower(c))
}

pub fn to_ascii_lowercase(s: &str) -> (r: String)
    ensures
        r@ == ascii_lowercase(s@),
{
    let v = chars_of(s);
    let mut out: Vec<char> = Vec::new();
    let mut i: usize = 0;
    while i < v.len()
        invariant
            i <= v.len(),
            out@ == ascii_lowercase(v@.take(i as int)),
        decreases v.len() - i,
    {
        let c = v[i];
        out.push(lower(c));
        i = i + 1;
        assert(out@ =~= ascii_lowercase(v@.take(i as int)));
    }
    assert(v@.take(v.len() as int) =~= v@);
    string_of(&out)
}

/// Largest file previewed as text or Markdown.
pub const MAX_TEXT_BYTES: u64 = 524288;

/// Largest file previewed as an image.
pub const MAX_IMAGE_BYTES: u64 = 5242880;

/// How a file is previewed.
#[derive(Debug, Clone, Copy, PartialEq, Eq, Structural)]
pub enum PreviewKind {
    Image,
    Markdown,
    Text,
    Binary,
}

pub open spec fn is_image_ext(e: Seq<char>) -> bool {
    e == "png"@ || e == "jpg"@ || e == "jpeg"@ || e == "gif"@ || e == "webp"@ || e == "svg"@ || e == "bmp"@
}

pub open spec fn is_text_ext(e: Seq<char>) -> bool {
    ||| e == "txt"@ || e == "json"@ || e == "yaml"@ || e == "yml"@ || e == "toml"@ || e == "md"@
    ||| e == "markdown"@ || e == "js"@ || e == "ts"@ || e == "tsx"@ || e == "jsx"@ || e == "py"@
    ||| e == "sh"@ || e == "rs"@ || e == "go"@ || e == "rb"@ || e == "java"@ || e == "c"@
    ||| e == "h"@ || e == "cpp"@ || e == "css"@ || e == "html"@ || e == "xml"@ || e == "ini"@
    ||| e == "cfg"@ || e == "csv"@ || e == "log"@
}

/// The preview a file gets from its extension (any case) and size: images up to
/// `MAX_IMAGE_BYTES`, Markdown and other text up to `MAX_TEXT_BYTES`, anything else is
/// shown as binary.
pub open spec fn spec_preview_kind(ext: Seq<char>, size: u64) -> PreviewKind {
    let e = ascii_lowercase(ext);
    if is_image_ext(e) && size <= MAX_IMAGE_BYTES {
        PreviewKind::Image
    } else if (e == "md"@ || e == "markdown"@) && size <= MAX_TEXT_BYTES {
        PreviewKind::Markdown
    } else if is_text_ext(e) && size <= MAX_TEXT_BYTES {
        PreviewKind::Text
    } else {
        PreviewKind::Binary
    }
}

fn image_ext(e: &str) -> (r: bool)
    ensures
        r == is_image_ext(e@),
{
    str_eq(e, "png") || str_eq(e, "jpg") || str_eq(e, "jpeg") || str_eq(e, "gif") || str_eq(e, "webp")
        || str_eq(e, "svg") || str_eq(e, "bmp")
}

fn text_ext(e: &str) -> (r: bool)
    ensures
        r == is_text_ext(e@),
{
    str_eq(e, "txt") || str_eq(e, "json") || str_eq(e, "yaml") || str_eq(e, "yml") || str_eq(e, "toml")
        || str_eq(e, "md") || str_eq(e, "markdown") || str_eq(e, "js") || str_eq(e, "ts") || str_eq(
        e,
        "tsx",
    ) || str_eq(e, "jsx") || str_eq(e, "py") || str_eq(e, "sh") || str_eq(e, "rs") || str_eq(e, "go")
        || str_eq(e, "rb") || str_eq(e, "java") || str_eq(e, "c") || str_eq(e, "h") || str_eq(e, "cpp")
        || str_eq(e, "css") || str_eq(e, "html") || str_eq(e, "xml") || str_eq(e, "ini") || str_eq(
        e,
        "cfg",
    ) || str_eq(e, "csv") || str_eq(e, "log")
}

/// Chooses the preview of a file from its extension and size.
pub fn preview_kind(ext: &str, size: u64) -> (k: PreviewKind)
    ensures
        k == spec_preview_kind(ext@, size),
{
    let lower = to_ascii_lowercase(ext);
    let e = lower.as_str();
    if image_ext(e) && size <= MAX_IMAGE_BYTES {
        PreviewKind::Image
    } else if (str_eq(e, "md") || str_eq(e, "markdown")) && size <= MAX_TEXT_BYTES {
        PreviewKind::Markdown
    } else if text_ext(e) && size <= MAX_TEXT_BYTES {
        PreviewKind::Text
    } else {
        PreviewKind::Binary
    }
}

/// An image preview: a `data:<mime>;base64,<bytes>` URL.
pub fn image_preview(ext: &str, bytes: &[u8], name: &str) -> (p: SkillFilePreview)
    ensures
        p.kind@ == "image"@,
        p.text is None,
        p.data_url matches Some(u) && u@ == "data:"@ + spec_image_mime(ascii_lowercase(ext@)) + ";base64,"@ + b64(bytes@),
        p.name@ == name@,
{
    let lower = to_ascii_lowercase(ext);
    let mut url = chars_of("data:");
    extend_chars(&mut url, &chars_of(image_mime(lower.as_str())));
    extend_chars(&mut url, &chars_of(";base64,"));
    let enc = base64_encode(bytes);
    extend_chars(&mut url, &chars_of(enc.as_str()));
    SkillFilePreview { kind: owned("image"), text: None, data_url: Some(string_of(&url)), name: owned(name) }
}

/// A Markdown or plain-text preview.
pub fn text_preview(markdown: bool, text: String, name: &str) -> (p: SkillFilePreview)
    ensures
        p.kind@ == (if markdown { "markdown"@ } else { "text"@ }),
        p.text matches Some(t) && t == text,
        p.data_url is None,
        p.name@ == name@,
{
    let kind = if markdown { owned("markdown") } else { owned("text") };
    SkillFilePreview { kind, text: Some(text), data_url: None, name: owned(name) }
}

/// The preview of a file that is not shown.
pub fn binary_preview(name: &str) -> (p: SkillFilePreview)
    ensures
        p.kind@ == "binary"@,
        p.text is None,
        p.data_url is None,
        p.name@ == name@,
{
    SkillFilePreview { kind: owned("binary"), text: None, data_url: None, name: owned(name) }
}


// ---------------------------------------------------------------- install and sync decisions

/// Why an install is refused: a builtin skill of the same name is never replaced, a user
/// skill only when overwriting is allowed, and a fresh install never lands on an existing
/// directory.
pub open spec fn install_error(existing: Option<SkillRecord>, overwrite: bool, dest_exists: bool) -> Option<Seq<char>> {
    match existing {
        Some(e) => if e.source == SkillSource::Builtin {
            Some("内置技能不可覆盖"@)
        } else if !overwrite {
            Some("技能名已存在（如需更新请允许覆盖）"@)
        } else {
            None
        },
        None => if dest_exists {
            Some("技能名已存在"@)
        } else {
            None
        },
    }
}

/// The index row written by an install from a package whose frontmatter is `fm`.
/// `existing` is the row of the same name, if any; `dest_exists` tells whether the target
/// directory is already there. An update keeps the id, enabled flag, install time and
/// group of the old row.
pub fn plan_install(
    existing: Option<SkillRecord>,
    overwrite: bool,
    dest_exists: bool,
    fm: Frontmatter,
    now: String,
    fresh_id: String,
) -> (r: Result<SkillRecord, String>)
    ensures
        match install_error(existing, overwrite, dest_exists) {
            Some(m) => r matches Err(e) && e@ == m,
            None => r is Ok,
        },
        r matches Ok(rec) ==> {
            &&& rec.source == SkillSource::User
            &&& rec.name == fm.name
            &&& rec.dir_name == fm.name
            &&& rec.description == fm.description
            &&& rec.updated_at == now
            &&& rec.plugin_id is None && rec.team_id is None && rec.expert_id is None
            &&& rec.user_invocable == fm.user_invocable
            &&& rec.argument_hint == fm.argument_hint
            &&& match existing {
                Some(e) => rec.id == e.id && rec.enabled == e.enabled && rec.installed_at == e.installed_at
                    && rec.group_id == e.group_id,
                None => rec.id == fresh_id && rec.enabled && rec.installed_at == now && rec.group_id is None,
            }
        },
{
    match existing {
        Some(e) => {
            if e.source == SkillSource::Builtin {
                return Err(owned("内置技能不可覆盖"));
            }
            if !overwrite {
                return Err(owned("技能名已存在（如需更新请允许覆盖）"));
            }
            let name = fm.name.clone();
            Ok(
                SkillRecord {
                    id: e.id,
                    source: SkillSource::User,
                    name,
                    description: fm.description,
                    dir_name: fm.name,
                    enabled: e.enabled,
                    installed_at: e.installed_at,
                    updated_at: now,
                    plugin_id: None,
                    team_id: None,
                    expert_id: None,
                    user_invocable: fm.user_invocable,
                    argument_hint: fm.argument_hint,
                    group_id: e.group_id,
                },
            )
        },
        None => {
            if dest_exists {
                return Err(owned("技能名已存在"));
            }
            let name = fm.name.clone();
            let installed_at = now.clone();
            Ok(
                SkillRecord {
                    id: fresh_id,
                    source: SkillSource::User,
                    name,
                    description: fm.description,
                    dir_name: fm.name,
                    enabled: true,
                    installed_at,
                    updated_at: now,
                    plugin_id: None,
                    team_id: None,
                    expert_id: None,
                    user_invocable: fm.user_invocable,
                    argument_hint: fm.argument_hint,
                    group_id: None,
                },
            )
        },
    }
}

pub open spec fn sviews_of(v: Seq<String>) -> Seq<Seq<char>> {
    v.map_values(|s: String| s@)
}

fn contains_string(v: &Vec<String>, s: &String) -> (r: bool)
    ensures
        r == sviews_of(v@).contains(s@),
{
    let mut i: usize = 0;
    while i < v.len()
        invariant
            i <= v.len(),
            forall|j: int| 0 <= j < i ==> v@[j]@ != s@,
        decreases v.len() - i,
    {
        if v[i] == *s {
            assert(sviews_of(v@)[i as int] == s@);
            return true;
        }
        i = i + 1;
    }
    proof {
        if sviews_of(v@).contains(s@) {
            let k = choose|k: int| 0 <= k < sviews_of(v@).len() && sviews_of(v@)[k] == s@;
            assert(v@[k]@ == s@);
        }
    }
    false
}

/// The index row of a skill found on disk by sync: builtin when its name is one of the
/// builtin names, enabled (an existing row keeps its own flag on upsert), owned by nobody.
pub fn scanned_record(fm: Frontmatter, dir_name: String, builtin_names: &Vec<String>, id: String, now: String) -> (rec: SkillRecord)
    ensures
        rec.source == (if sviews_of(builtin_names@).contains(fm.name@) { SkillSource::Builtin } else { SkillSource::User }),
        rec.id == id,
        rec.name == fm.name,
        rec.description == fm.description,
        rec.dir_name == dir_name,
        rec.enabled,
        rec.installed_at == now,
        rec.updated_at == now,
        rec.plugin_id is None && rec.team_id is None && rec.expert_id is None,
        rec.user_invocable == fm.user_invocable,
        rec.argument_hint == fm.argument_hint,
        rec.group_id is None,
{
    let source = if contains_string(builtin_names, &fm.name) {
        SkillSource::Builtin
    } else {
        SkillSource::User
    };
    let installed_at = now.clone();
    SkillRecord {
        id,
        source,
        name: fm.name,
        description: fm.description,
        dir_name,
        enabled: true,
        installed_at,
        updated_at: now,
        plugin_id: None,
        team_id: None,
        expert_id: None,
        user_invocable: fm.user_invocable,
        argument_hint: fm.argument_hint,
        group_id: None,
    }
}

/// A loose skill (owned by no plugin and no team) whose name sync no longer found on disk.
pub open spec fn is_orphan(r: SkillRecord, seen: Seq<Seq<char>>) -> bool {
    r.plugin_id is None && r.team_id is None && !seen.contains(r.name@)
}

/// Ids of the orphan rows, in index order.
pub open spec fn spec_orphan_ids(recs: Seq<SkillRecord>, seen: Seq<Seq<char>>) -> Seq<Seq<char>>
    decreases recs.len(),
{
    if recs.len() == 0 {
        Seq::empty()
    } else {
        let rest = spec_orphan_ids(recs.drop_last(), seen);
        if is_orphan(recs.last(), seen) { rest.push(recs.last().id@) } else { rest }
    }
}

/// The rows that sync deletes after a scan that saw the names `seen`: plugin skills and
/// team-private skills are never touched.
pub fn orphan_ids(records: &Vec<SkillRecord>, seen: &Vec<String>) -> (r: Vec<String>)
    ensures
        sviews_of(r@) == spec_orphan_ids(records@, sviews_of(seen@)),
{
    let mut out: Vec<String> = Vec::new();
    let mut i: usize = 0;
    assert(records@.take(0) =~= Seq::<SkillRecord>::empty());
    while i < records.len()
        invariant
            i <= records.len(),
            sviews_of(out@) == spec_orphan_ids(records@.take(i as int), sviews_of(seen@)),
        decreases records.len() - i,
    {
        let rec = &records[i];
        assert(records@.take(i + 1).drop_last() =~= records@.take(i as int));
        assert(records@.take(i + 1).last() == *rec);
        if rec.plugin_id.is_none() && rec.team_id.is_none() && !contains_string(seen, &rec.name) {
            let ghost before = sviews_of(out@);
            out.push(rec.id.clone());
            assert(sviews_of(out@) =~= before.push(rec.id@));
        }
        i = i + 1;
    }
    assert(records@.take(records.len() as int) =~= records@);
    out
}

/// Whether a row appears on the skills page: team-private skills are managed with their
/// team and are not listed there.
pub fn listed_on_skills_page(rec: &SkillRecord) -> (r: bool)
    ensures
        r == (rec.team_id is None),
{
    rec.team_id.is_none()
}

/// Builtin skills cannot be removed.
pub fn check_uninstall(rec: &SkillRecord) -> (r: Result<(), String>)
    ensures
        r is Ok <==> rec.source == SkillSource::User,
        r matches Err(e) ==> e@ == "内置技能不可卸载"@,
{
    if rec.source == SkillSource::Builtin {
        Err(owned("内置技能不可卸载"))
    } else {
        Ok(())
    }
}


/// Sync only ever deletes loose skills it did not find on disk: every id it picks belongs
/// to a row owned by no plugin and no team whose name was not seen.
pub proof fn law_orphans_are_loose_and_unseen(recs: Seq<SkillRecord>, seen: Seq<Seq<char>>, k: int)
    requires
        0 <= k < spec_orphan_ids(recs, seen).len(),
    ensures
        exists|i: int|
            0 <= i < recs.len() && #[trigger] recs[i].id@ == spec_orphan_ids(recs, seen)[k] && recs[i].plugin_id is None
                && recs[i].team_id is None && !seen.contains(recs[i].name@),
    decreases recs.len(),
{
    let rest = spec_orphan_ids(recs.drop_last(), seen);
    if k < rest.len() {
        law_orphans_are_loose_and_unseen(recs.drop_last(), seen, k);
        let i = choose|i: int|
            0 <= i < recs.drop_last().len() && #[trigger] recs.drop_last()[i].id@ == rest[k]
                && recs.drop_last()[i].plugin_id is None && recs.drop_last()[i].team_id is None
                && !seen.contains(recs.drop_last()[i].name@);
        assert(recs[i] == recs.drop_last()[i]);
    } else {
        let last = recs.len() - 1;
        assert(recs[last] == recs.last());
    }
}

/// Sync deletes every loose row whose name the scan did not see, whatever its other
/// fields (enabled or not): no such row stays in the index.
pub proof fn law_unseen_loose_rows_are_deleted(recs: Seq<SkillRecord>, seen: Seq<Seq<char>>, i: int)
    requires
        0 <= i < recs.len(),
        recs[i].plugin_id is None,
        recs[i].team_id is None,
        !seen.contains(recs[i].name@),
    ensures
        spec_orphan_ids(recs, seen).contains(recs[i].id@),
    decreases recs.len(),
{
    let rest = spec_orphan_ids(recs.drop_last(), seen);
    if i < recs.len() - 1 {
        assert(recs.drop_last()[i] == recs[i]);
        law_unseen_loose_rows_are_deleted(recs.drop_last(), seen, i);
        let k = choose|k: int| 0 <= k < rest.len() && rest[k] == recs[i].id@;
        if is_orphan(recs.last(), seen) {
            assert(spec_orphan_ids(recs, seen)[k] == rest[k]);
        }
    } else {
        assert(recs.last() == recs[i]);
        assert(spec_orphan_ids(recs, seen)[rest.len() as int] == recs[i].id@);
    }
}

// ---------------------------------------------------------------- reference files

/// How many reference files a listing shows.
pub const MAX_REFERENCE_FILES: usize = 50;

/// The files of `s` but the skill's own `SKILL.md`, in order.
pub open spec fn without_skill_md(s: Seq<Seq<char>>) -> Seq<Seq<char>>
    decreases s.len(),
{
    if s.len() == 0 {
        s
    } else {
        let rest = without_skill_md(s.drop_last());
        if s.last() == "SKILL.md"@ {
            rest
        } else {
            rest.push(s.last())
        }
    }
}

/// The reference files of a skill as listed to the model: its files (relative paths) but
/// `SKILL.md`, in ascending order, the first fifty of them.
pub fn reference_listing(files: Vec<String>) -> (r: Vec<String>)
    ensures
        exists|t: Seq<Seq<char>>|
            sorted_lex(t) && t.to_multiset() == without_skill_md(sviews(files@)).to_multiset() && sviews(r@) == t.take(
                if t.len() < MAX_REFERENCE_FILES { t.len() as int } else { MAX_REFERENCE_FILES as int },
            ),
{
    let mut kept: Vec<String> = Vec::new();
    let mut i: usize = 0;
    while i < files.len()
        invariant
            i <= files.len(),
            sviews(kept@) == without_skill_md(sviews(files@).take(i as int)),
        decreases files.len() - i,
    {
        assert(sviews(files@).take(i + 1).drop_last() =~= sviews(files@).take(i as int));
        if !str_eq(files[i].as_str(), "SKILL.md") {
            let ghost k0 = sviews(kept@);
            kept.push(files[i].clone());
            assert(sviews(kept@) =~= k0.push(files@[i as int]@));
        }
        i = i + 1;
    }
    assert(sviews(files@).take(files.len() as int) =~= sviews(files@));
    let mut sorted = sort_strings(kept);
    let ghost t = sviews(sorted@);
    sorted.truncate(MAX_REFERENCE_FILES);
    assert(sviews(sorted@) =~= t.take(if t.len() < MAX_REFERENCE_FILES { t.len() as int } else { MAX_REFERENCE_FILES as int }));
    sorted
}

/// A reference file as asked for: trimmed and without leading `./`; refused when nothing
/// is left or when it holds `..`. An absolute path is refused with the same answer by the
/// caller, which knows the platform's rule for it.
pub fn reference_path(rel: &str) -> (r: Result<String, String>)
    ensures
        match r {
            Ok(p) => p@ == spec_normalize_rel(rel@) && p@.len() > 0 && !contains_at(p@, ".."@),
            Err(e) => e@ == "非法的技能文件路径"@ && (spec_normalize_rel(rel@).len() == 0 || contains_at(
                spec_normalize_rel(rel@),
                ".."@,
            )),
        },
{
    let p = normalize_rel(rel);
    let v = chars_of(p.as_str());
    if v.len() == 0 || contains_str(&v, "..") {
        Err(owned("非法的技能文件路径"))
    } else {
        Ok(p)
    }
}

/// How many bytes of a reference file are shown.
pub const MAX_REFERENCE_BYTES: usize = 204800;

/// The length of a character in UTF-8.
pub open spec fn utf8_len(c: char) -> nat {
    if (c as u32) < 0x80 {
        1
    } else if (c as u32) < 0x800 {
        2
    } else if (c as u32) < 0x10000 {
        3
    } else {
        4
    }
}

/// The length of a text in UTF-8 (`str::len`).
pub open spec fn utf8_size(s: Seq<char>) -> nat
    decreases s.len(),
{
    if s.len() == 0 {
        0
    } else {
        utf8_size(s.drop_last()) + utf8_len(s.last())
    }
}

fn utf8_width(c: char) -> (r: usize)
    ensures
        r == utf8_len(c),
{
    if (c as u32) < 0x80 {
        1
    } else if (c as u32) < 0x800 {
        2
    } else if (c as u32) < 0x10000 {
        3
    } else {
        4
    }
}

/// A reference file's text as shown: whole when it fits in `MAX_REFERENCE_BYTES` bytes of
/// UTF-8; else its longest prefix that fits (cut between characters), followed by a note
/// that it was cut.
pub fn reference_text(content: String) -> (r: String)
    ensures
        utf8_size(content@) <= MAX_REFERENCE_BYTES ==> r@ == content@,
        utf8_size(content@) > MAX_REFERENCE_BYTES ==> exists|k: int|
            0 <= k < content@.len() && utf8_size(#[trigger] content@.take(k)) <= MAX_REFERENCE_BYTES
                && utf8_size(content@.take(k + 1)) > MAX_REFERENCE_BYTES && r@ == content@.take(k)
                + "\n…（已截断）"@,
{
    let v = chars_of(content.as_str());
    let mut i: usize = 0;
    let mut total: usize = 0;
    assert(v@.take(0) =~= Seq::<char>::empty());
    while i < v.len() && total + utf8_width(v[i]) <= MAX_REFERENCE_BYTES
        invariant
            i <= v.len(),
            v@ == content@,
            total == utf8_size(v@.take(i as int)),
            total <= MAX_REFERENCE_BYTES,
        decreases v.len() - i,
    {
        assert(v@.take(i + 1).drop_last() =~= v@.take(i as int));
        total = total + utf8_width(v[i]);
        i = i + 1;
    }
    if i == v.len() {
        assert(v@.take(i as int) =~= v@);
        return content;
    }
    assert(v@.take(i + 1).drop_last() =~= v@.take(i as int));
    proof {
        lemma_utf8_size_prefix(v@, i as int + 1);
    }
    let mut out = slice_chars(&v, 0, i);
    extend_chars(&mut out, &chars_of("\n…（已截断）"));
    assert(v@.subrange(0, i as int) =~= v@.take(i as int));
    string_of(&out)
}

/// A prefix is no longer than the text in UTF-8.
proof fn lemma_utf8_size_prefix(s: Seq<char>, k: int)
    requires
        0 <= k <= s.len(),
    ensures
        utf8_size(s.take(k)) <= utf8_size(s),
    decreases s.len() - k,
{
    if k < s.len() {
        assert(s.take(k + 1).drop_last() =~= s.take(k));
        lemma_utf8_size_prefix(s, k + 1);
    } else {
        assert(s.take(k) =~= s);
    }
}

} // verus!
