//! Views of teams handed to the user interface.

use vstd::prelude::*;

use crate::skill::types::SkillSummary;
use crate::team::model::{TeamMember, TeamRecord, TeamSource};
use crate::text::clone_opt;

verus! {

/// A team in the list.
#[derive(Debug)]
pub struct TeamSummary {
    pub id: String,
    pub source: TeamSource,
    pub name: String,
    pub display_name: String,
    pub description: String,
    pub avatar: Option<String>,
    pub category: Option<String>,
    pub enabled: bool,
    pub installed_at: String,
    /// Number of members, lead excluded.
    pub member_count: usize,
    pub group_id: Option<String>,
    pub catalog_id: Option<String>,
}

impl TeamSummary {
    pub fn from_record(r: &TeamRecord) -> (s: TeamSummary)
        ensures
            s.id == r.id,
            s.source == r.source,
            s.name == r.name,
            s.display_name == r.display_name,
            s.description == r.description,
            s.avatar == r.avatar,
            s.category == r.category,
            s.enabled == r.enabled,
            s.installed_at == r.installed_at,
            s.member_count == r.members.len(),
            s.group_id == r.group_id,
            s.catalog_id == r.catalog_id,
    {
        TeamSummary {
            id: r.id.clone(),
            source: r.source,
            name: r.name.clone(),
            display_name: r.display_name.clone(),
            description: r.description.clone(),
            avatar: clone_opt(&r.avatar),
            category: clone_opt(&r.category),
            enabled: r.enabled,
            installed_at: r.installed_at.clone(),
            member_count: r.members.len(),
            group_id: clone_opt(&r.group_id),
            catalog_id: clone_opt(&r.catalog_id),
        }
    }
}

/// A team in detail: its summary, its lead and members as the expert summaries they
/// resolve to (`E`, the expert catalogue's summary type), its opening prompts, and its
/// private skills (filled in by the caller).
#[derive(Debug)]
pub struct TeamDetail<E> {
    pub team: TeamSummary,
    /// The lead's summary; `None` when its reference does not resolve.
    pub lead: Option<E>,
    /// The members' summaries, in member order; references that do not resolve are left out.
    pub members: Vec<E>,
    pub quick_prompts: Vec<String>,
    pub skills: Vec<SkillSummary>,
}

/// The detail of team `r` once its lead and members are resolved: its summary and its
/// opening prompts, with no skills yet.
pub fn team_detail<E>(r: TeamRecord, lead: Option<E>, members: Vec<E>) -> (d: TeamDetail<E>)
    ensures
        d.team.id == r.id && d.team.name == r.name && d.team.display_name == r.display_name,
        d.team.source == r.source && d.team.description == r.description && d.team.avatar == r.avatar,
        d.team.category == r.category && d.team.enabled == r.enabled && d.team.installed_at == r.installed_at,
        d.team.member_count == r.members.len() && d.team.group_id == r.group_id && d.team.catalog_id
            == r.catalog_id,
        d.lead == lead,
        d.members == members,
        d.quick_prompts == r.quick_prompts,
        d.skills@ == Seq::<SkillSummary>::empty(),
{
    let team = TeamSummary::from_record(&r);
    TeamDetail { team, lead, members, quick_prompts: r.quick_prompts, skills: Vec::new() }
}

/// How a member is shown: its own display name, profession and avatar where the team sets
/// them, else those of the expert it refers to.
pub fn member_look(m: &TeamMember, display_name: Option<String>, profession: Option<String>, avatar: Option<String>) -> (r: (
    Option<String>,
    Option<String>,
    Option<String>,
))
    ensures
        r.0 == (if m.display_name is Some { m.display_name } else { display_name }),
        r.1 == (if m.profession is Some { m.profession } else { profession }),
        r.2 == (if m.avatar is Some { m.avatar } else { avatar }),
{
    let d = if m.display_name.is_some() { clone_opt(&m.display_name) } else { display_name };
    let p = if m.profession.is_some() { clone_opt(&m.profession) } else { profession };
    let a = if m.avatar.is_some() { clone_opt(&m.avatar) } else { avatar };
    (d, p, a)
}

} // verus!
