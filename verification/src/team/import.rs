//! Team and expert packages: their unified shapes, how a package's kind is decided, and
//! the small path rules of the importer.

use vstd::prelude::*;

use crate::skill::frontmatter::{eq_ignore_ascii_case, eq_ignore_case};
use crate::json::{
    entry_lookup, jentries, jget, jstr, jview, jviews, lemma_jentries, lemma_jviews, opt_jref, Json,
    JsonView,
};
use crate::text::{nonempty_trim, ostr, trimmed_nonempty, 
    chars_of, owned, slice_chars, starts_with, starts_with_at, str_eq, string_of, trim, trim_bounds, sviews, contains_string};

verus! {

/// Display overrides of a member (from a package's `members[]`, keyed by agent id).
#[derive(Debug, Default)]
pub struct MemberDisplay {
    pub display_name: Option<String>,
    pub profession: Option<String>,
    pub avatar: Option<String>,
}

/// A team package in its unified shape.
#[derive(Debug)]
pub struct ImportedTeam {
    pub name: String,
    pub display_name: String,
    pub description: String,
    /// Agent definition files, relative to the package root.
    pub agents: Vec<String>,
    /// Skill directories, relative to the package root.
    pub skills: Vec<String>,
    /// Name of the lead agent.
    pub lead: Option<String>,
    /// Member names (lead excluded), in declaration order.
    pub member_names: Vec<String>,
    /// Display overrides by agent id; no id occurs twice.
    pub member_display: Vec<(String, MemberDisplay)>,
    pub quick_prompts: Vec<String>,
}

/// A single-agent expert package in its unified shape.
#[derive(Debug)]
pub struct ImportedExpert {
    pub name: String,
    pub display_name: String,
    pub description: String,
    pub profession: Option<String>,
    pub avatar: Option<String>,
    pub quick_prompts: Vec<String>,
    /// The agent definition file, relative to the package root.
    pub expert_rel: String,
    /// Skill directories that become private to the agent.
    pub skills: Vec<String>,
}

/// What a package is, decided by the name of its manifest file.
#[derive(Debug, Clone, Copy, PartialEq, Eq, Structural)]
pub enum PackageKind {
    /// `team.json`, or a third-party `plugin.json` in a team dialect.
    Team,
    /// `expert.json`.
    Expert,
    /// A plain plugin.
    Plugin,
}

/// The kind of a staged package: `team.json` wins, then `expert.json`; a package that has
/// neither is a team when its `plugin.json` reads as a team, and a plugin otherwise.
pub fn detect_package_kind(has_team_manifest: bool, has_expert_manifest: bool, plugin_reads_as_team: bool) -> (k: PackageKind)
    ensures
        k == (if has_team_manifest {
            PackageKind::Team
        } else if has_expert_manifest {
            PackageKind::Expert
        } else if plugin_reads_as_team {
            PackageKind::Team
        } else {
            PackageKind::Plugin
        }),
{
    if has_team_manifest {
        PackageKind::Team
    } else if has_expert_manifest {
        PackageKind::Expert
    } else if plugin_reads_as_team {
        PackageKind::Team
    } else {
        PackageKind::Plugin
    }
}

// ---------------------------------------------------------------- package layout

/// Every place where a package may hold a manifest, relative to its root: the team and
/// expert manifests, then the plugin manifest at the root and in the directories of the
/// plugin dialects. What a caller finds at these places (`present`, below) is all that the
/// functions of this section read of a directory.
pub fn manifest_places() -> (r: Vec<&'static str>)
    ensures
        r.len() == 6,
        r@[0]@ == "team.json"@,
        r@[1]@ == "expert.json"@,
        r@[2]@ == "plugin.json"@,
        r@[3]@ == ".codebuddy-plugin/plugin.json"@,
        r@[4]@ == ".codex-plugin/plugin.json"@,
        r@[5]@ == ".qoder-plugin/plugin.json"@,
{
    vec!["team.json", "expert.json", "plugin.json", ".codebuddy-plugin/plugin.json", ".codex-plugin/plugin.json", ".qoder-plugin/plugin.json"]
}

/// The plugin manifest of a package whose manifest places hold `present`: the root one
/// first, then those of the dialects in order.
pub fn locate_manifest(present: &Vec<String>) -> (r: Option<&'static str>)
    ensures
        match r {
            Some(p) => Some(p@),
            None => None::<Seq<char>>,
        } == spec_locate_manifest(sviews(present@)),
{
    if contains_string(present, "plugin.json") {
        Some("plugin.json")
    } else if contains_string(present, ".codebuddy-plugin/plugin.json") {
        Some(".codebuddy-plugin/plugin.json")
    } else if contains_string(present, ".codex-plugin/plugin.json") {
        Some(".codex-plugin/plugin.json")
    } else if contains_string(present, ".qoder-plugin/plugin.json") {
        Some(".qoder-plugin/plugin.json")
    } else {
        None
    }
}

pub open spec fn spec_locate_manifest(present: Seq<Seq<char>>) -> Option<Seq<char>> {
    if present.contains("plugin.json"@) {
        Some("plugin.json"@)
    } else if present.contains(".codebuddy-plugin/plugin.json"@) {
        Some(".codebuddy-plugin/plugin.json"@)
    } else if present.contains(".codex-plugin/plugin.json"@) {
        Some(".codex-plugin/plugin.json"@)
    } else if present.contains(".qoder-plugin/plugin.json"@) {
        Some(".qoder-plugin/plugin.json"@)
    } else {
        None
    }
}

/// The team manifest `team.json`: its file name marks a team package.
pub fn locate_team_manifest(present: &Vec<String>) -> (r: Option<&'static str>)
    ensures
        r is Some <==> sviews(present@).contains("team.json"@),
        r matches Some(p) ==> p@ == "team.json"@,
{
    if contains_string(present, "team.json") {
        Some("team.json")
    } else {
        None
    }
}

/// The expert manifest `expert.json`: its file name marks an expert package.
pub fn locate_expert_manifest(present: &Vec<String>) -> (r: Option<&'static str>)
    ensures
        r is Some <==> sviews(present@).contains("expert.json"@),
        r matches Some(p) ==> p@ == "expert.json"@,
{
    if contains_string(present, "expert.json") {
        Some("expert.json")
    } else {
        None
    }
}

pub open spec fn has_any_manifest(present: Seq<Seq<char>>) -> bool {
    present.contains("team.json"@) || present.contains("expert.json"@) || spec_locate_manifest(present) is Some
}

/// Which directory of a source is the package: the directory itself when it holds a
/// manifest (`Ok(None)`), else its only subdirectory when that one does (`Ok(Some(0))`).
/// `root` is what the directory's manifest places hold, `subdirs` what those of each of its
/// subdirectories hold.
pub fn package_root(root: &Vec<String>, subdirs: &Vec<Vec<String>>) -> (r: Result<Option<usize>, String>)
    ensures
        has_any_manifest(sviews(root@)) ==> r == Ok::<Option<usize>, String>(None),
        !has_any_manifest(sviews(root@)) && subdirs.len() == 1 && has_any_manifest(sviews(subdirs@[0]@))
            ==> r == Ok::<Option<usize>, String>(Some(0)),
        !has_any_manifest(sviews(root@)) && !(subdirs.len() == 1 && has_any_manifest(sviews(subdirs@[0]@)))
            ==> (r matches Err(e) && e@ == "未找到清单（team.json / expert.json / plugin.json，需在根目录或唯一顶层子目录内）"@),
{
    if holds_manifest(root) {
        Ok(None)
    } else if subdirs.len() == 1 && holds_manifest(&subdirs[0]) {
        Ok(Some(0))
    } else {
        Err(owned("未找到清单（team.json / expert.json / plugin.json，需在根目录或唯一顶层子目录内）"))
    }
}

fn holds_manifest(present: &Vec<String>) -> (r: bool)
    ensures
        r == has_any_manifest(sviews(present@)),
{
    locate_team_manifest(present).is_some() || locate_expert_manifest(present).is_some()
        || locate_manifest(present).is_some()
}

/// Every leading `./` removed (`trim_start_matches("./")`).
pub open spec fn strip_dot_slashes(s: Seq<char>) -> Seq<char>
    decreases s.len(),
{
    if s.len() >= 2 && s[0] == '.' && s[1] == '/' {
        strip_dot_slashes(s.skip(2))
    } else {
        s
    }
}

/// A relative path as written in a manifest, trimmed and without leading `./`.
pub open spec fn spec_normalize_rel(s: Seq<char>) -> Seq<char> {
    strip_dot_slashes(trim(s))
}

pub fn normalize_rel(s: &str) -> (r: String)
    ensures
        r@ == spec_normalize_rel(s@),
{
    let v = chars_of(s);
    let (a, b) = trim_bounds(&v, 0, v.len());
    assert(v@.subrange(0, v@.len() as int) =~= v@);
    let mut i = a;
    while b - i >= 2 && v[i] == '.' && v[i + 1] == '/'
        invariant
            a <= i <= b <= v.len(),
            strip_dot_slashes(v@.subrange(a as int, b as int)) == strip_dot_slashes(v@.subrange(i as int, b as int)),
        decreases b - i,
    {
        assert(v@.subrange(i as int, b as int).skip(2) =~= v@.subrange(i + 2, b as int));
        i = i + 2;
    }
    string_of(&slice_chars(&v, i, b))
}

/// Index of the last `c` in `s`.
pub open spec fn last_index_of(s: Seq<char>, c: char) -> Option<int>
    decreases s.len(),
{
    if s.len() == 0 {
        None
    } else if s.last() == c {
        Some(s.len() - 1)
    } else {
        last_index_of(s.drop_last(), c)
    }
}

/// `Path::extension` of a file name: the part after the last `.`, none when there is no
/// dot or the only dot starts the name.
pub open spec fn file_extension(name: Seq<char>) -> Option<Seq<char>> {
    match last_index_of(name, '.') {
        Some(i) => if i == 0 { None } else { Some(name.skip(i + 1)) },
        None => None,
    }
}

/// Whether a file name has the extension `zip`, in any case.
pub fn is_zip(file_name: &str) -> (r: bool)
    ensures
        r == (file_extension(file_name@) matches Some(e) && eq_ignore_ascii_case(e, "zip"@)),
{
    let v = chars_of(file_name);
    let mut i = v.len();
    assert(v@.take(i as int) =~= v@);
    while i > 0 && v[i - 1] != '.'
        invariant
            i <= v.len(),
            last_index_of(v@, '.') == last_index_of(v@.take(i as int), '.'),
        decreases i,
    {
        assert(v@.take(i as int).drop_last() =~= v@.take(i - 1));
        i = i - 1;
    }
    if i <= 1 {
        return false;
    }
    assert(v@.take(i as int).last() == '.');
    let ext = slice_chars(&v, i, v.len());
    assert(ext@ =~= v@.skip(i as int));
    eq_ignore_case(&ext, &chars_of("zip"))
}


// ---------------------------------------------------------------- reading manifest fields


/// A string value's trimmed, non-empty text.
pub open spec fn str_nonempty(x: Option<JsonView>) -> Option<Seq<char>> {
    match x {
        Some(y) => match jstr(y) {
            Some(s) => nonempty_trim(s),
            None => None,
        },
        None => None,
    }
}

/// A top-level string field, trimmed and non-empty.
pub open spec fn spec_str_field(v: JsonView, key: Seq<char>) -> Option<Seq<char>> {
    str_nonempty(jget(v, key))
}

/// The first entry of an object whose value is a non-blank string.
pub open spec fn first_nonempty(es: Seq<(Seq<char>, JsonView)>) -> Option<Seq<char>>
    decreases es.len(),
{
    if es.len() == 0 {
        None
    } else {
        match str_nonempty(Some(es[0].1)) {
            Some(t) => Some(t),
            None => first_nonempty(es.drop_first()),
        }
    }
}

/// A localized text: a plain string, or an object of translations of which `zh` is
/// preferred, then `en`, then the first non-blank one.
pub open spec fn spec_i18n_value(x: JsonView) -> Option<Seq<char>> {
    match x {
        JsonView::Str(s) => nonempty_trim(s),
        JsonView::Object(es) => match str_nonempty(entry_lookup(es, "zh"@)) {
            Some(t) => Some(t),
            None => match str_nonempty(entry_lookup(es, "en"@)) {
                Some(t) => Some(t),
                None => first_nonempty(es),
            },
        },
        _ => None,
    }
}

pub open spec fn spec_i18n_field(v: JsonView, key: Seq<char>) -> Option<Seq<char>> {
    match jget(v, key) {
        Some(x) => spec_i18n_value(x),
        None => None,
    }
}

/// The non-blank strings of an array, trimmed, in order.
pub open spec fn nonempty_strs(xs: Seq<JsonView>) -> Seq<Seq<char>>
    decreases xs.len(),
{
    if xs.len() == 0 {
        Seq::empty()
    } else {
        let rest = nonempty_strs(xs.drop_last());
        match str_nonempty(Some(xs.last())) {
            Some(t) => rest.push(t),
            None => rest,
        }
    }
}

/// A top-level array of strings, blank ones left out; empty when absent.
pub open spec fn spec_str_array(v: JsonView, key: Seq<char>) -> Seq<Seq<char>> {
    match jget(v, key) {
        Some(JsonView::Array(xs)) => nonempty_strs(xs),
        _ => Seq::empty(),
    }
}


fn str_of(x: Option<&Json>) -> (r: Option<String>)
    ensures
        ostr(r) == str_nonempty(opt_jref(x)),
{
    match x {
        Some(y) => match y.as_str() {
            Some(s) => trimmed_nonempty(s),
            None => None,
        },
        None => None,
    }
}

fn str_field(v: &Json, key: &str) -> (r: Option<String>)
    ensures
        ostr(r) == spec_str_field(v@, key@),
{
    str_of(v.get(key))
}

fn i18n_value(x: &Json) -> (r: Option<String>)
    ensures
        ostr(r) == spec_i18n_value(x@),
{
    match x {
        Json::Str(s) => trimmed_nonempty(s.as_str()),
        Json::Object(es) => {
            if let Some(t) = str_of(x.get("zh")) {
                return Some(t);
            }
            if let Some(t) = str_of(x.get("en")) {
                return Some(t);
            }
            let ghost ev = jentries(es@);
            proof {
                lemma_jentries(es@);
            }
            assert(ev.skip(0) =~= ev);
            assert(x@ == JsonView::Object(ev));
            let mut i: usize = 0;
            while i < es.len()
                invariant
                    i <= es.len(),
                    ev == jentries(es@),
                    x@ == JsonView::Object(ev),
                    str_nonempty(entry_lookup(ev, "zh"@)) is None,
                    str_nonempty(entry_lookup(ev, "en"@)) is None,
                    ev.len() == es.len(),
                    forall|q: int| 0 <= q < es.len() ==> #[trigger] ev[q] == (es@[q].0@, jview(es@[q].1)),
                    first_nonempty(ev) == first_nonempty(ev.skip(i as int)),
                decreases es.len() - i,
            {
                let (_k, y) = &es[i];
                assert(ev.skip(i as int)[0] == ev[i as int]);
                assert(ev.skip(i as int).drop_first() =~= ev.skip(i + 1));
                if let Some(t) = str_of(Some(y)) {
                    return Some(t);
                }
                i = i + 1;
            }
            None
        },
        _ => None,
    }
}

fn i18n_field(v: &Json, key: &str) -> (r: Option<String>)
    ensures
        ostr(r) == spec_i18n_field(v@, key@),
{
    match v.get(key) {
        Some(x) => i18n_value(x),
        None => None,
    }
}

fn nonempty_strings(xs: &Vec<Json>) -> (r: Vec<String>)
    ensures
        sviews(r@) == nonempty_strs(jviews(xs@)),
{
    let ghost xv = jviews(xs@);
    proof {
        lemma_jviews(xs@);
    }
    let mut out: Vec<String> = Vec::new();
    let mut i: usize = 0;
    assert(xv.take(0) =~= Seq::<JsonView>::empty());
    while i < xs.len()
        invariant
            i <= xs.len(),
            xv == jviews(xs@),
            xv.len() == xs.len(),
            forall|q: int| 0 <= q < xs.len() ==> #[trigger] xv[q] == jview(xs@[q]),
            sviews(out@) == nonempty_strs(xv.take(i as int)),
        decreases xs.len() - i,
    {
        assert(xv.take(i + 1).drop_last() =~= xv.take(i as int));
        assert(xv.take(i + 1).last() == xv[i as int]);
        let t = str_of(Some(&xs[i]));
        if let Some(t) = t {
            let ghost before = sviews(out@);
            let ghost tv = t@;
            out.push(t);
            assert(sviews(out@) =~= before.push(tv));
        }
        i = i + 1;
    }
    assert(xv.take(xs.len() as int) =~= xv);
    out
}

fn str_array(v: &Json, key: &str) -> (r: Vec<String>)
    ensures
        sviews(r@) == spec_str_array(v@, key@),
{
    match v.get(key) {
        Some(x) => match x.as_array() {
            Some(xs) => nonempty_strings(xs),
            None => Vec::new(),
        },
        None => Vec::new(),
    }
}


// ---------------------------------------------------------------- team and expert manifests

/// The display overrides of a member.
pub struct MemberDisplayView {
    pub display_name: Option<Seq<char>>,
    pub profession: Option<Seq<char>>,
    pub avatar: Option<Seq<char>>,
}

impl MemberDisplay {
    pub open spec fn view(&self) -> MemberDisplayView {
        MemberDisplayView { display_name: ostr(self.display_name), profession: ostr(self.profession), avatar: ostr(self.avatar) }
    }
}

pub struct ImportedTeamView {
    pub name: Seq<char>,
    pub display_name: Seq<char>,
    pub description: Seq<char>,
    pub agents: Seq<Seq<char>>,
    pub skills: Seq<Seq<char>>,
    pub lead: Option<Seq<char>>,
    pub member_names: Seq<Seq<char>>,
    pub member_display: Seq<(Seq<char>, MemberDisplayView)>,
    pub quick_prompts: Seq<Seq<char>>,
}

pub open spec fn display_views(v: Seq<(String, MemberDisplay)>) -> Seq<(Seq<char>, MemberDisplayView)> {
    v.map_values(|p: (String, MemberDisplay)| (p.0@, p.1.view()))
}

impl ImportedTeam {
    pub open spec fn view(&self) -> ImportedTeamView {
        ImportedTeamView {
            name: self.name@,
            display_name: self.display_name@,
            description: self.description@,
            agents: sviews(self.agents@),
            skills: sviews(self.skills@),
            lead: ostr(self.lead),
            member_names: sviews(self.member_names@),
            member_display: display_views(self.member_display@),
            quick_prompts: sviews(self.quick_prompts@),
        }
    }
}

pub struct ImportedExpertView {
    pub name: Seq<char>,
    pub display_name: Seq<char>,
    pub description: Seq<char>,
    pub profession: Option<Seq<char>>,
    pub avatar: Option<Seq<char>>,
    pub quick_prompts: Seq<Seq<char>>,
    pub expert_rel: Seq<char>,
    pub skills: Seq<Seq<char>>,
}

impl ImportedExpert {
    pub open spec fn view(&self) -> ImportedExpertView {
        ImportedExpertView {
            name: self.name@,
            display_name: self.display_name@,
            description: self.description@,
            profession: ostr(self.profession),
            avatar: ostr(self.avatar),
            quick_prompts: sviews(self.quick_prompts@),
            expert_rel: self.expert_rel@,
            skills: sviews(self.skills@),
        }
    }
}

pub open spec fn or_else(a: Option<Seq<char>>, b: Option<Seq<char>>) -> Option<Seq<char>> {
    match a {
        Some(x) => Some(x),
        None => b,
    }
}

pub open spec fn unwrap_or(a: Option<Seq<char>>, d: Seq<char>) -> Seq<char> {
    match a {
        Some(x) => x,
        None => d,
    }
}

pub open spec fn normalize_all(v: Seq<Seq<char>>) -> Seq<Seq<char>> {
    v.map_values(|s: Seq<char>| spec_normalize_rel(s))
}

/// The localized texts of an array, blank ones left out.
pub open spec fn i18n_list(qs: Seq<JsonView>) -> Seq<Seq<char>>
    decreases qs.len(),
{
    if qs.len() == 0 {
        Seq::empty()
    } else {
        let rest = i18n_list(qs.drop_last());
        match spec_i18n_value(qs.last()) {
            Some(t) => rest.push(t),
            None => rest,
        }
    }
}

/// Opening prompts: `quickPrompts[]`, then `defaultInitPrompt` unless already listed.
pub open spec fn spec_quick_prompts(v: JsonView) -> Seq<Seq<char>> {
    let base = match jget(v, "quickPrompts"@) {
        Some(JsonView::Array(qs)) => i18n_list(qs),
        _ => Seq::empty(),
    };
    match spec_i18n_field(v, "defaultInitPrompt"@) {
        Some(p) => if base.contains(p) { base } else { base.push(p) },
        None => base,
    }
}

/// Display overrides from `members[]`: one entry per member object that has an `id`.
pub open spec fn display_entries(ms: Seq<JsonView>) -> Seq<(Seq<char>, MemberDisplayView)>
    decreases ms.len(),
{
    if ms.len() == 0 {
        Seq::empty()
    } else {
        let rest = display_entries(ms.drop_last());
        let m = ms.last();
        match spec_str_field(m, "id"@) {
            Some(id) => rest.push(
                (
                    id,
                    MemberDisplayView {
                        display_name: spec_i18n_field(m, "name"@),
                        profession: spec_i18n_field(m, "profession"@),
                        avatar: spec_str_field(m, "avatar"@),
                    },
                ),
            ),
            None => rest,
        }
    }
}

/// Whether a manifest describes a team: it has `teamInfo` or `team`, or its
/// `expertType` (else `type`) or its `kind` is `team`.
pub open spec fn spec_is_team(v: JsonView) -> bool {
    ||| jget(v, "teamInfo"@) is Some
    ||| jget(v, "team"@) is Some
    ||| or_else(spec_str_field(v, "expertType"@), spec_str_field(v, "type"@)) == Some("team"@)
    ||| spec_str_field(v, "kind"@) == Some("team"@)
}

pub open spec fn spec_lead(v: JsonView) -> Option<Seq<char>> {
    let from_info = match jget(v, "teamInfo"@) {
        Some(t) => spec_str_field(t, "leadAgent"@),
        None => None,
    };
    let from_team = match jget(v, "team"@) {
        Some(t) => spec_str_field(t, "lead"@),
        None => None,
    };
    or_else(or_else(from_info, from_team), spec_str_field(v, "agentName"@))
}

pub open spec fn spec_member_names(v: JsonView) -> Seq<Seq<char>> {
    match jget(v, "teamInfo"@) {
        Some(t) => spec_str_array(t, "memberAgents"@),
        None => match jget(v, "team"@) {
            Some(t) => spec_str_array(t, "members"@),
            None => Seq::empty(),
        },
    }
}

pub open spec fn not_team_msg() -> Seq<char> {
    "该包不是团队结构（缺 team/teamInfo，且 kind/type≠team）；纯能力包请从「套件」安装"@
}

/// A team manifest in its unified shape. `declared` says the file name already marks the
/// package as a team (`team.json`), so no team marker is needed inside.
pub open spec fn spec_parse_team(v: JsonView, declared: bool) -> Result<ImportedTeamView, Seq<char>> {
    match spec_str_field(v, "name"@) {
        None => Err("plugin.json 缺少 name"@),
        Some(name) => if !declared && !spec_is_team(v) {
            Err(not_team_msg())
        } else {
            Ok(
                ImportedTeamView {
                    name,
                    display_name: unwrap_or(spec_i18n_field(v, "displayName"@), name),
                    description: unwrap_or(
                        or_else(spec_i18n_field(v, "displayDescription"@), spec_i18n_field(v, "description"@)),
                        Seq::empty(),
                    ),
                    agents: normalize_all(spec_str_array(v, "agents"@)),
                    skills: normalize_all(spec_str_array(v, "skills"@)),
                    lead: spec_lead(v),
                    member_names: spec_member_names(v),
                    member_display: match jget(v, "members"@) {
                        Some(JsonView::Array(ms)) => display_entries(ms),
                        _ => Seq::empty(),
                    },
                    quick_prompts: spec_quick_prompts(v),
                },
            )
        },
    }
}

pub open spec fn team_result_view(r: Result<ImportedTeam, String>) -> Result<ImportedTeamView, Seq<char>> {
    match r {
        Ok(t) => Ok(t.view()),
        Err(e) => Err(e@),
    }
}

fn or_string(a: Option<String>, d: String) -> (r: String)
    ensures
        r@ == unwrap_or(ostr(a), d@),
{
    match a {
        Some(x) => x,
        None => d,
    }
}

fn or_opt(a: Option<String>, b: Option<String>) -> (r: Option<String>)
    ensures
        ostr(r) == or_else(ostr(a), ostr(b)),
{
    match a {
        Some(x) => Some(x),
        None => b,
    }
}

fn normalize_each(v: Vec<String>) -> (r: Vec<String>)
    ensures
        sviews(r@) == normalize_all(sviews(v@)),
{
    let mut out: Vec<String> = Vec::new();
    let mut i: usize = 0;
    while i < v.len()
        invariant
            i <= v.len(),
            sviews(out@) == normalize_all(sviews(v@)).take(i as int),
        decreases v.len() - i,
    {
        let n = normalize_rel(v[i].as_str());
        let ghost before = sviews(out@);
        let ghost nv = n@;
        assert(nv == normalize_all(sviews(v@))[i as int]);
        out.push(n);
        assert(sviews(out@) =~= before.push(nv));
        assert(sviews(out@) =~= normalize_all(sviews(v@)).take(i + 1));
        i = i + 1;
    }
    assert(normalize_all(sviews(v@)).take(v.len() as int) =~= normalize_all(sviews(v@)));
    out
}


fn quick_prompts(v: &Json) -> (r: Vec<String>)
    ensures
        sviews(r@) == spec_quick_prompts(v@),
{
    let mut out: Vec<String> = Vec::new();
    match v.get("quickPrompts") {
        Some(x) => match x.as_array() {
            Some(qs) => {
                let ghost qv = jviews(qs@);
                proof {
                    lemma_jviews(qs@);
                }
                assert(qv.take(0) =~= Seq::<JsonView>::empty());
                let mut i: usize = 0;
                while i < qs.len()
                    invariant
                        i <= qs.len(),
                        qv == jviews(qs@),
                        qv.len() == qs.len(),
                        forall|q: int| 0 <= q < qs.len() ==> #[trigger] qv[q] == jview(qs@[q]),
                        sviews(out@) == i18n_list(qv.take(i as int)),
                    decreases qs.len() - i,
                {
                    assert(qv.take(i + 1).drop_last() =~= qv.take(i as int));
                    assert(qv.take(i + 1).last() == qv[i as int]);
                    if let Some(t) = i18n_value(&qs[i]) {
                        let ghost before = sviews(out@);
                        let ghost tv = t@;
                        out.push(t);
                        assert(sviews(out@) =~= before.push(tv));
                    }
                    i = i + 1;
                }
                assert(qv.take(qs.len() as int) =~= qv);
            },
            None => {},
        },
        None => {},
    }
    if let Some(p) = i18n_field(v, "defaultInitPrompt") {
        if !contains_string(&out, p.as_str()) {
            let ghost before = sviews(out@);
            let ghost pv = p@;
            out.push(p);
            assert(sviews(out@) =~= before.push(pv));
        }
    }
    out
}

fn member_displays(v: &Json) -> (r: Vec<(String, MemberDisplay)>)
    ensures
        display_views(r@) == (match jget(v@, "members"@) {
            Some(JsonView::Array(ms)) => display_entries(ms),
            _ => Seq::empty(),
        }),
{
    let mut out: Vec<(String, MemberDisplay)> = Vec::new();
    match v.get("members") {
        Some(x) => match x.as_array() {
            Some(ms) => {
                let ghost mv = jviews(ms@);
                proof {
                    lemma_jviews(ms@);
                }
                assert(mv.take(0) =~= Seq::<JsonView>::empty());
                let mut i: usize = 0;
                while i < ms.len()
                    invariant
                        i <= ms.len(),
                        mv == jviews(ms@),
                        mv.len() == ms.len(),
                        forall|q: int| 0 <= q < ms.len() ==> #[trigger] mv[q] == jview(ms@[q]),
                        display_views(out@) == display_entries(mv.take(i as int)),
                    decreases ms.len() - i,
                {
                    assert(mv.take(i + 1).drop_last() =~= mv.take(i as int));
                    assert(mv.take(i + 1).last() == mv[i as int]);
                    let m = &ms[i];
                    if let Some(id) = str_field(m, "id") {
                        let d = MemberDisplay {
                            display_name: i18n_field(m, "name"),
                            profession: i18n_field(m, "profession"),
                            avatar: str_field(m, "avatar"),
                        };
                        let ghost before = display_views(out@);
                        let ghost entry = (id@, d.view());
                        out.push((id, d));
                        assert(display_views(out@) =~= before.push(entry));
                    }
                    i = i + 1;
                }
                assert(mv.take(ms.len() as int) =~= mv);
                out
            },
            None => out,
        },
        None => out,
    }
}

fn is_team(v: &Json) -> (r: bool)
    ensures
        r == spec_is_team(v@),
{
    proof {
        reveal_strlit("team");
    }
    let et = or_opt(str_field(v, "expertType"), str_field(v, "type"));
    let kind = str_field(v, "kind");
    let et_team = match &et {
        Some(t) => str_eq(t.as_str(), "team"),
        None => false,
    };
    let kind_team = match &kind {
        Some(t) => str_eq(t.as_str(), "team"),
        None => false,
    };
    v.get("teamInfo").is_some() || v.get("team").is_some() || et_team || kind_team
}

fn team_value(v: &Json, declared: bool) -> (r: Result<ImportedTeam, String>)
    ensures
        team_result_view(r) == spec_parse_team(v@, declared),
{
    let name = match str_field(v, "name") {
        Some(n) => n,
        None => return Err(owned("plugin.json 缺少 name")),
    };
    let display_name = or_string(i18n_field(v, "displayName"), name.clone());
    let description = or_string(
        or_opt(i18n_field(v, "displayDescription"), i18n_field(v, "description")),
        String::new(),
    );
    let agents = normalize_each(str_array(v, "agents"));
    let skills = normalize_each(str_array(v, "skills"));
    if !declared && !is_team(v) {
        return Err(owned("该包不是团队结构（缺 team/teamInfo，且 kind/type≠team）；纯能力包请从「套件」安装"));
    }
    let from_info = match v.get("teamInfo") {
        Some(t) => str_field(t, "leadAgent"),
        None => None,
    };
    let from_team = match v.get("team") {
        Some(t) => str_field(t, "lead"),
        None => None,
    };
    let lead = or_opt(or_opt(from_info, from_team), str_field(v, "agentName"));
    let member_names = match v.get("teamInfo") {
        Some(t) => str_array(t, "memberAgents"),
        None => match v.get("team") {
            Some(t) => str_array(t, "members"),
            None => Vec::new(),
        },
    };
    let member_display = member_displays(v);
    let quick_prompts = quick_prompts(v);
    let t = ImportedTeam {
        name,
        display_name,
        description,
        agents,
        skills,
        lead,
        member_names,
        member_display,
        quick_prompts,
    };
    assert(t.view().member_names =~= spec_member_names(v@));
    Ok(t)
}

/// Reads a third-party `plugin.json` that must mark itself as a team.
pub fn parse_value(v: &Json) -> (r: Result<ImportedTeam, String>)
    ensures
        team_result_view(r) == spec_parse_team(v@, false),
{
    team_value(v, false)
}

/// Reads a `team.json`: its file name marks it as a team.
pub fn parse_value_as_team(v: &Json) -> (r: Result<ImportedTeam, String>)
    ensures
        team_result_view(r) == spec_parse_team(v@, true),
{
    team_value(v, true)
}

pub open spec fn mcp_refused_msg() -> Seq<char> {
    "team.json 不得声明 mcpServers：团队只做指令编排与成员专家定义。需要外部服务请单独安装对应的 plugin。"@
}

/// Reads a `team.json`. A team only orchestrates instructions and member experts, so a
/// manifest that declares `mcpServers` is refused rather than silently stripped.
pub fn parse_team_manifest(v: &Json) -> (r: Result<ImportedTeam, String>)
    ensures
        jget(v@, "mcpServers"@) is Some ==> (r matches Err(e) && e@ == mcp_refused_msg()),
        jget(v@, "mcpServers"@) is None ==> team_result_view(r) == spec_parse_team(v@, true),
{
    if v.get("mcpServers").is_some() {
        return Err(owned("team.json 不得声明 mcpServers：团队只做指令编排与成员专家定义。需要外部服务请单独安装对应的 plugin。"));
    }
    parse_value_as_team(v)
}

/// A single-agent expert manifest in its unified shape. `from_expert_json` says the file
/// name (`expert.json`) already marks it; an older `plugin.json` must not be a team.
pub open spec fn spec_parse_expert(v: JsonView, from_expert_json: bool) -> Result<ImportedExpertView, Seq<char>> {
    if !from_expert_json && spec_is_team(v) {
        Err("该包是团队结构，请从「团队」导入"@)
    } else {
        let agents = normalize_all(spec_str_array(v, "agents"@));
        if agents.len() == 0 {
            Err("该包未声明 agents，不是 agent 包"@)
        } else {
            match or_else(spec_str_field(v, "agentName"@), spec_str_field(v, "name"@)) {
                None => Err("plugin.json 缺少 agentName/name"@),
                Some(name) => Ok(
                    ImportedExpertView {
                        name,
                        display_name: unwrap_or(spec_i18n_field(v, "displayName"@), name),
                        description: unwrap_or(
                            or_else(spec_i18n_field(v, "displayDescription"@), spec_i18n_field(v, "description"@)),
                            Seq::empty(),
                        ),
                        profession: spec_i18n_field(v, "profession"@),
                        avatar: spec_str_field(v, "avatar"@),
                        quick_prompts: spec_quick_prompts(v),
                        expert_rel: agents[0],
                        skills: normalize_all(spec_str_array(v, "skills"@)),
                    },
                ),
            }
        }
    }
}

pub open spec fn expert_result_view(r: Result<ImportedExpert, String>) -> Result<ImportedExpertView, Seq<char>> {
    match r {
        Ok(t) => Ok(t.view()),
        Err(e) => Err(e@),
    }
}

/// Reads a single-agent expert manifest.
pub fn parse_expert_value(v: &Json, from_expert_json: bool) -> (r: Result<ImportedExpert, String>)
    ensures
        expert_result_view(r) == spec_parse_expert(v@, from_expert_json),
{
    if !from_expert_json && is_team(v) {
        return Err(owned("该包是团队结构，请从「团队」导入"));
    }
    let mut agents = normalize_each(str_array(v, "agents"));
    if agents.len() == 0 {
        return Err(owned("该包未声明 agents，不是 agent 包"));
    }
    let ghost av = sviews(agents@);
    let expert_rel = agents.swap_remove(0);
    assert(expert_rel@ == av[0]);
    let name = match or_opt(str_field(v, "agentName"), str_field(v, "name")) {
        Some(n) => n,
        None => return Err(owned("plugin.json 缺少 agentName/name")),
    };
    let display_name = or_string(i18n_field(v, "displayName"), name.clone());
    let description = or_string(
        or_opt(i18n_field(v, "displayDescription"), i18n_field(v, "description")),
        String::new(),
    );
    Ok(
        ImportedExpert {
            name,
            display_name,
            description,
            profession: i18n_field(v, "profession"),
            avatar: str_field(v, "avatar"),
            quick_prompts: quick_prompts(v),
            expert_rel,
            skills: normalize_each(str_array(v, "skills")),
        },
    )
}

} // verus!
