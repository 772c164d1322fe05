//! Team origin, member references and the stored team row.

use vstd::prelude::*;

use crate::text::str_eq;

verus! {

/// Where a team comes from. `User` was built by the user, `Imported` came from a team
/// package, `Builtin` ships with the app and cannot be deleted.
#[derive(Debug, Clone, Copy, PartialEq, Eq, Structural)]
pub enum TeamSource {
    User,
    Imported,
    Builtin,
}

pub open spec fn spec_team_source_str(s: TeamSource) -> Seq<char> {
    match s {
        TeamSource::User => "user"@,
        TeamSource::Imported => "imported"@,
        TeamSource::Builtin => "builtin"@,
    }
}

/// The stored spelling read back; the legacy `plugin` spelling (teams once delivered by a
/// plugin package) means `Imported`, anything unknown means `User`.
pub open spec fn spec_team_source_from(s: Seq<char>) -> TeamSource {
    if s == "imported"@ || s == "plugin"@ {
        TeamSource::Imported
    } else if s == "builtin"@ {
        TeamSource::Builtin
    } else {
        TeamSource::User
    }
}

impl TeamSource {
    pub fn as_str(&self) -> (r: &'static str)
        ensures
            r@ == spec_team_source_str(*self),
    {
        match self {
            TeamSource::User => "user",
            TeamSource::Imported => "imported",
            TeamSource::Builtin => "builtin",
        }
    }

    pub fn from_str(s: &str) -> (r: TeamSource)
        ensures
            r == spec_team_source_from(s@),
    {
        if str_eq(s, "imported") || str_eq(s, "plugin") {
            TeamSource::Imported
        } else if str_eq(s, "builtin") {
            TeamSource::Builtin
        } else {
            TeamSource::User
        }
    }
}

/// Reading back the stored spelling of a team source gives the same source.
pub proof fn law_team_source_round_trip(s: TeamSource)
    ensures
        spec_team_source_from(spec_team_source_str(s)) == s,
{
    reveal_strlit("user");
    reveal_strlit("imported");
    reveal_strlit("builtin");
    reveal_strlit("plugin");
    if s is User {
        assert("user"@.len() != "imported"@.len());
        assert("user"@[0] != "plugin"@[0]);
        assert("user"@.len() != "builtin"@.len());
    } else if s is Builtin {
        assert("builtin"@.len() != "imported"@.len());
        assert("builtin"@.len() != "plugin"@.len());
    }
}

/// A reference to an agent (lead or member). `plugin_id` set: a global agent of that
/// plugin; `team_id` set: a private agent of this team; both empty: a loose agent.
/// `plugin_id` and `team_id` are never both set (`has_one_owner`).
#[derive(Debug)]
pub struct TeamMember {
    pub plugin_id: String,
    pub team_id: String,
    /// Name of the referenced agent, unique within its owner.
    pub name: String,
    /// `lead` or `member`.
    pub role: String,
    pub display_name: Option<String>,
    pub profession: Option<String>,
    pub avatar: Option<String>,
}

impl TeamMember {
    /// At most one of `plugin_id` and `team_id` is set: the agent has one owner.
    pub open spec fn has_one_owner(&self) -> bool {
        self.plugin_id@.len() == 0 || self.team_id@.len() == 0
    }
}

/// One row of the teams table.
#[derive(Debug)]
pub struct TeamRecord {
    pub id: String,
    pub source: TeamSource,
    pub name: String,
    pub display_name: String,
    pub description: String,
    /// The lead, whose body is the main assistant's working procedure.
    pub lead: Option<TeamMember>,
    /// Dispatch roster, lead excluded.
    pub members: Vec<TeamMember>,
    pub avatar: Option<String>,
    pub category: Option<String>,
    /// Opening prompts offered when the team is selected.
    pub quick_prompts: Vec<String>,
    pub enabled: bool,
    pub installed_at: String,
    pub updated_at: String,
    pub catalog_id: Option<String>,
    pub group_id: Option<String>,
}

} // verus!
