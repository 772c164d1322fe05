//! Permission strength modes and the confirmation rule for tool calls.
//!
//! The mode is orthogonal to the working mode (normal/plan): it decides which tool calls
//! need an explicit confirmation card before they run.

use vstd::prelude::*;

use crate::text::str_eq;

verus! {

/// Risk class of a tool.
#[derive(Debug, Clone, Copy, PartialEq, Eq, Structural)]
pub enum RiskLevel {
    /// Read-only; never confirmed.
    Safe,
    /// Low-risk write.
    Low,
    /// High-risk (command execution).
    High,
}

/// Permission strength.
#[derive(Debug, Clone, Copy, PartialEq, Eq, Structural)]
pub enum PermissionMode {
    /// Tools with side effects are confirmed once, then granted for the session.
    Manual,
    /// Low-risk writes run; high-risk tools still ask.
    Auto,
    /// Everything runs without confirmation.
    Full,
}

pub open spec fn spec_parse_mode(s: Seq<char>) -> PermissionMode {
    if s == "auto"@ {
        PermissionMode::Auto
    } else if s == "full"@ {
        PermissionMode::Full
    } else {
        PermissionMode::Manual
    }
}

pub open spec fn spec_mode_str(m: PermissionMode) -> Seq<char> {
    match m {
        PermissionMode::Manual => "manual"@,
        PermissionMode::Auto => "auto"@,
        PermissionMode::Full => "full"@,
    }
}

impl PermissionMode {
    /// Parses a stored mode; unknown or dirty values fall back to `Manual`.
    pub fn parse(s: &str) -> (m: PermissionMode)
        ensures
            m == spec_parse_mode(s@),
    {
        if str_eq(s, "auto") {
            PermissionMode::Auto
        } else if str_eq(s, "full") {
            PermissionMode::Full
        } else {
            PermissionMode::Manual
        }
    }

    /// The stored spelling of the mode.
    pub fn as_str(self) -> (s: &'static str)
        ensures
            s@ == spec_mode_str(self),
    {
        match self {
            PermissionMode::Manual => "manual",
            PermissionMode::Auto => "auto",
            PermissionMode::Full => "full",
        }
    }
}

/// The mode in effect for a session: the session's own override wins, then the global
/// default, then `"manual"` (also when no global settings store is available).
pub fn resolve_effective_mode(session_mode: Option<String>, global_mode: Option<String>) -> (r: String)
    ensures
        r@ == match session_mode {
            Some(m) => m@,
            None => match global_mode {
                Some(g) => g@,
                None => "manual"@,
            },
        },
{
    match session_mode {
        Some(m) => m,
        None => match global_mode {
            Some(g) => g,
            None => String::from_str("manual"),
        },
    }
}

pub open spec fn spec_needs_confirmation(risk: RiskLevel, mode: PermissionMode, granted: bool) -> bool {
    match mode {
        PermissionMode::Full => false,
        PermissionMode::Auto => risk == RiskLevel::High && !granted,
        PermissionMode::Manual => risk != RiskLevel::Safe && !granted,
    }
}

/// Whether a tool call of this risk, under this mode, needs a confirmation card.
pub fn needs_confirmation(risk: RiskLevel, mode: PermissionMode, granted: bool) -> (r: bool)
    ensures
        r == spec_needs_confirmation(risk, mode, granted),
{
    match mode {
        PermissionMode::Full => false,
        PermissionMode::Auto => risk == RiskLevel::High && !granted,
        PermissionMode::Manual => risk != RiskLevel::Safe && !granted,
    }
}

/// Parsing the spelling of a mode gives the mode back.
pub proof fn law_mode_round_trip(m: PermissionMode)
    ensures
        spec_parse_mode(spec_mode_str(m)) == m,
{
    reveal_strlit("auto");
    reveal_strlit("full");
    reveal_strlit("manual");
    assert("manual"@.len() == 6 && "auto"@.len() == 4 && "full"@.len() == 4);
    assert("full"@[0] != "auto"@[0]);
}

/// Modes are ordered by strength: whatever `Full` or `Auto` asks to confirm, the weaker
/// mode asks as well; a granted tool is never asked again.
pub proof fn law_confirmation_monotone(risk: RiskLevel, granted: bool)
    ensures
        spec_needs_confirmation(risk, PermissionMode::Full, granted) ==> spec_needs_confirmation(risk, PermissionMode::Auto, granted),
        spec_needs_confirmation(risk, PermissionMode::Auto, granted) ==> spec_needs_confirmation(risk, PermissionMode::Manual, granted),
        !spec_needs_confirmation(risk, PermissionMode::Manual, true),
        !spec_needs_confirmation(RiskLevel::Safe, PermissionMode::Manual, granted),
{
}

} // verus!
