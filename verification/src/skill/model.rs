//! Skill origin and the index row that caches a skill's metadata.

use vstd::prelude::*;

use crate::text::str_eq;

verus! {

/// Where a skill comes from. `Builtin` ships with the app and can only be disabled;
/// `User` was installed and can be removed.
#[derive(Debug, Clone, Copy, PartialEq, Eq, Structural)]
pub enum SkillSource {
    Builtin,
    User,
}

pub open spec fn spec_skill_source_str(s: SkillSource) -> Seq<char> {
    match s {
        SkillSource::Builtin => "builtin"@,
        SkillSource::User => "user"@,
    }
}

pub open spec fn spec_skill_source_from(s: Seq<char>) -> SkillSource {
    if s == "builtin"@ {
        SkillSource::Builtin
    } else {
        SkillSource::User
    }
}

impl SkillSource {
    /// The stored spelling.
    pub fn as_str(&self) -> (r: &'static str)
        ensures
            r@ == spec_skill_source_str(*self),
    {
        match self {
            SkillSource::Builtin => "builtin",
            SkillSource::User => "user",
        }
    }

    /// Reads a stored spelling; unknown values fall back to `User`.
    pub fn from_str(s: &str) -> (r: SkillSource)
        ensures
            r == spec_skill_source_from(s@),
    {
        if str_eq(s, "builtin") {
            SkillSource::Builtin
        } else {
            SkillSource::User
        }
    }
}

/// Reading back the stored spelling of a source gives the same source.
pub proof fn law_skill_source_round_trip(s: SkillSource)
    ensures
        spec_skill_source_from(spec_skill_source_str(s)) == s,
{
    reveal_strlit("builtin");
    reveal_strlit("user");
    if s is User {
        assert("user"@.len() != "builtin"@.len());
    }
}

/// One row of the skill index: metadata of a skill on disk (the body stays on disk).
/// `dir_name` is relative to the skills root, or absolute for a skill owned elsewhere.
#[derive(Debug)]
pub struct SkillRecord {
    pub id: String,
    pub source: SkillSource,
    pub name: String,
    pub description: String,
    pub dir_name: String,
    pub enabled: bool,
    pub installed_at: String,
    pub updated_at: String,
    /// Owning plugin (global); `None` when no plugin owns it.
    pub plugin_id: Option<String>,
    /// Owning team (private to it); `None` when not team-private.
    pub team_id: Option<String>,
    /// Owning agent (private to it); at most one of the three owners is set.
    pub expert_id: Option<String>,
    /// Shown to the user and invocable.
    pub user_invocable: bool,
    pub argument_hint: Option<String>,
    /// User-defined group; kept across syncs.
    pub group_id: Option<String>,
}

} // verus!
