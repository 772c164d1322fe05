//! Views of skills handed to the user interface.

use vstd::prelude::*;
use vstd::std_specs::convert::FromSpecImpl;

use crate::skill::model::{SkillRecord, SkillSource};

verus! {

/// A skill in the list, or the answer to enabling/disabling one.
#[derive(Debug)]
pub struct SkillSummary {
    pub id: String,
    pub source: SkillSource,
    pub name: String,
    pub description: String,
    pub enabled: bool,
    pub installed_at: String,
    pub plugin_id: Option<String>,
    pub team_id: Option<String>,
    pub user_invocable: bool,
    pub argument_hint: Option<String>,
    pub group_id: Option<String>,
}

impl From<SkillRecord> for SkillSummary {
    fn from(r: SkillRecord) -> (s: SkillSummary) {
        SkillSummary {
            id: r.id,
            source: r.source,
            name: r.name,
            description: r.description,
            enabled: r.enabled,
            installed_at: r.installed_at,
            plugin_id: r.plugin_id,
            team_id: r.team_id,
            user_invocable: r.user_invocable,
            argument_hint: r.argument_hint,
            group_id: r.group_id,
        }
    }
}

impl FromSpecImpl<SkillRecord> for SkillSummary {
    open spec fn obeys_from_spec() -> bool {
        true
    }

    open spec fn from_spec(r: SkillRecord) -> SkillSummary {
        SkillSummary {
            id: r.id,
            source: r.source,
            name: r.name,
            description: r.description,
            enabled: r.enabled,
            installed_at: r.installed_at,
            plugin_id: r.plugin_id,
            team_id: r.team_id,
            user_invocable: r.user_invocable,
            argument_hint: r.argument_hint,
            group_id: r.group_id,
        }
    }
}

/// One entry of a skill's file list (path relative to the skill directory).
#[derive(Debug)]
pub struct SkillFile {
    pub rel_path: String,
    pub is_dir: bool,
}

/// Skill detail: metadata, the raw `SKILL.md` and every file of the directory.
#[derive(Debug)]
pub struct SkillDetail {
    pub skill: SkillSummary,
    pub skill_md: String,
    pub files: Vec<SkillFile>,
}

/// Preview of one file. `kind` is `markdown`, `text`, `image` or `binary`; text kinds
/// carry `text`, images carry a `data:` URL, binaries carry neither.
#[derive(Debug)]
pub struct SkillFilePreview {
    pub kind: String,
    pub text: Option<String>,
    pub data_url: Option<String>,
    pub name: String,
}

} // verus!
