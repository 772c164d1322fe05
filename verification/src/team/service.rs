//! The computing parts of the team service: name checks, and the roster an imported
//! package yields.

use vstd::prelude::*;

use crate::team::import::{display_views, ImportedTeam, MemberDisplay, MemberDisplayView};
use crate::team::model::TeamMember;
use crate::text::{ostr, chars_of, contains_at, contains_str, owned, slice_chars, str_eq, string_of, trim, trim_bounds, sviews, contains_string};

verus! {

/// An expert defined inline while creating a team (lead or member); it becomes a private
/// agent of the team.
#[derive(Debug)]
pub struct InlineExpert {
    pub name: String,
    pub description: String,
    pub system_prompt: String,
    pub tools: Vec<String>,
    pub model_tier: String,
    pub display_name: Option<String>,
    pub profession: Option<String>,
}

/// A team name becomes a directory name: no path separator and no `..`.
pub open spec fn safe_team_name(n: Seq<char>) -> bool {
    !n.contains('/') && !n.contains('\\') && !contains_at(n, ".."@)
}

fn contains_char(v: &Vec<char>, c: char) -> (r: bool)
    ensures
        r == v@.contains(c),
{
    let mut i: usize = 0;
    while i < v.len()
        invariant
            i <= v.len(),
            forall|j: int| 0 <= j < i ==> v@[j] != c,
        decreases v.len() - i,
    {
        if v[i] == c {
            return true;
        }
        i = i + 1;
    }
    false
}

/// Refuses the name of an imported team that could leave the teams directory.
pub fn check_import_name(name: &str) -> (r: Result<(), String>)
    ensures
        r is Ok <==> safe_team_name(name@),
        r matches Err(e) ==> e@ == "团队 name 含非法字符"@,
{
    let v = chars_of(name);
    if contains_char(&v, '/') || contains_char(&v, '\\') || contains_str(&v, "..") {
        return Err(owned("团队 name 含非法字符"));
    }
    Ok(())
}

/// The name of a team created from inline experts: trimmed, non-empty, safe, and the
/// team needs a lead or at least one member.
pub open spec fn spec_check_new_team(name: Seq<char>, has_lead: bool, member_count: nat) -> Result<Seq<char>, Seq<char>> {
    let n = trim(name);
    if n.len() == 0 {
        Err("团队 name 不能为空"@)
    } else if !safe_team_name(n) {
        Err("团队 name 含非法字符"@)
    } else if !has_lead && member_count == 0 {
        Err("团队至少要有一名成员或主理人"@)
    } else {
        Ok(n)
    }
}

pub fn check_new_team(name: &str, has_lead: bool, member_count: usize) -> (r: Result<String, String>)
    ensures
        match spec_check_new_team(name@, has_lead, member_count as nat) {
            Ok(n) => r matches Ok(x) && x@ == n,
            Err(m) => r matches Err(e) && e@ == m,
        },
{
    let v = chars_of(name);
    let (a, b) = trim_bounds(&v, 0, v.len());
    assert(v@.subrange(0, v@.len() as int) =~= v@);
    if a == b {
        return Err(owned("团队 name 不能为空"));
    }
    let n = slice_chars(&v, a, b);
    if contains_char(&n, '/') || contains_char(&n, '\\') || contains_str(&n, "..") {
        return Err(owned("团队 name 含非法字符"));
    }
    if !has_lead && member_count == 0 {
        return Err(owned("团队至少要有一名成员或主理人"));
    }
    Ok(string_of(&n))
}

/// The model tier of an inline expert: `main` when asked for, `aux` otherwise.
pub fn model_tier(requested: &str) -> (r: &'static str)
    ensures
        r@ == (if requested@ == "main"@ { "main"@ } else { "aux"@ }),
{
    if str_eq(requested, "main") {
        "main"
    } else {
        "aux"
    }
}

/// The display overrides recorded for `name`: the last entry for it wins.
pub open spec fn display_for(entries: Seq<(Seq<char>, MemberDisplayView)>, name: Seq<char>) -> Option<MemberDisplayView>
    decreases entries.len(),
{
    if entries.len() == 0 {
        None
    } else if entries.last().0 == name {
        Some(entries.last().1)
    } else {
        display_for(entries.drop_last(), name)
    }
}

/// A member reference of an imported team, with the overrides recorded for its name.
pub open spec fn member_ref_ok(
    m: TeamMember,
    name: Seq<char>,
    role: Seq<char>,
    team_id: Seq<char>,
    d: Option<MemberDisplayView>,
) -> bool {
    &&& m.plugin_id@ == Seq::<char>::empty()
    &&& m.team_id@ == team_id
    &&& m.name@ == name
    &&& m.role@ == role
    &&& ostr(m.display_name) == (match d {
        Some(x) => x.display_name,
        None => None,
    })
    &&& ostr(m.profession) == (match d {
        Some(x) => x.profession,
        None => None,
    })
    &&& ostr(m.avatar) == (match d {
        Some(x) => x.avatar,
        None => None,
    })
}

/// The members kept: indexed, and not the lead, in declaration order.
pub open spec fn kept_members(names: Seq<Seq<char>>, indexed: Seq<Seq<char>>, lead: Option<Seq<char>>) -> Seq<Seq<char>>
    decreases names.len(),
{
    if names.len() == 0 {
        Seq::empty()
    } else {
        let rest = kept_members(names.drop_last(), indexed, lead);
        let n = names.last();
        if indexed.contains(n) && lead != Some(n) { rest.push(n) } else { rest }
    }
}

fn copy_opt(o: &Option<String>) -> (r: Option<String>)
    ensures
        r == *o,
{
    match o {
        Some(s) => Some(s.clone()),
        None => None,
    }
}

fn find_display<'a>(entries: &'a Vec<(String, MemberDisplay)>, name: &str) -> (r: Option<&'a MemberDisplay>)
    ensures
        match r {
            Some(d) => display_for(display_views(entries@), name@) == Some(d.view()),
            None => display_for(display_views(entries@), name@) is None,
        },
{
    let ghost ev = display_views(entries@);
    let mut i = entries.len();
    assert(ev.take(i as int) =~= ev);
    while i > 0
        invariant
            i <= entries.len(),
            ev == display_views(entries@),
            display_for(ev, name@) == display_for(ev.take(i as int), name@),
        decreases i,
    {
        let ghost t = ev.take(i as int);
        assert(t.last() == ev[i - 1]);
        assert(t.drop_last() =~= ev.take(i - 1));
        if str_eq(entries[i - 1].0.as_str(), name) {
            return Some(&entries[i - 1].1);
        }
        i = i - 1;
    }
    None
}

fn make_member(team: &ImportedTeam, name: &str, role: &str, team_id: &str) -> (m: TeamMember)
    ensures
        member_ref_ok(m, name@, role@, team_id@, display_for(display_views(team.member_display@), name@)),
{
    let d = find_display(&team.member_display, name);
    let (display_name, profession, avatar) = match d {
        Some(x) => (copy_opt(&x.display_name), copy_opt(&x.profession), copy_opt(&x.avatar)),
        None => (None, None, None),
    };
    TeamMember {
        plugin_id: String::new(),
        team_id: owned(team_id),
        name: owned(name),
        role: owned(role),
        display_name,
        profession,
        avatar,
    }
}


/// The lead and members of an imported team: only agents that were indexed count, the
/// lead is not repeated among the members, and each reference carries the package's
/// display overrides for its name.
pub fn imported_roster(team: &ImportedTeam, indexed: &Vec<String>, team_id: &str) -> (r: (Option<TeamMember>, Vec<TeamMember>))
    ensures
        match ostr(team.lead) {
            Some(l) => if sviews(indexed@).contains(l) {
                r.0 matches Some(m) && member_ref_ok(m, l, "lead"@, team_id@, display_for(display_views(team.member_display@), l))
            } else {
                r.0 is None
            },
            None => r.0 is None,
        },
        r.1.len() == kept_members(sviews(team.member_names@), sviews(indexed@), ostr(team.lead)).len(),
        forall|i: int| 0 <= i < r.1.len() ==> {
            let n = #[trigger] kept_members(sviews(team.member_names@), sviews(indexed@), ostr(team.lead))[i];
            member_ref_ok(r.1@[i], n, "member"@, team_id@, display_for(display_views(team.member_display@), n))
        },
        r.0 matches Some(m) ==> m.has_one_owner(),
        forall|i: int| 0 <= i < r.1.len() ==> (#[trigger] r.1@[i]).has_one_owner(),
{
    let lead = match &team.lead {
        Some(l) => if contains_string(indexed, l.as_str()) {
            Some(make_member(team, l.as_str(), "lead", team_id))
        } else {
            None
        },
        None => None,
    };
    let ghost names = sviews(team.member_names@);
    let ghost kept_all = kept_members(names, sviews(indexed@), ostr(team.lead));
    let mut members: Vec<TeamMember> = Vec::new();
    let mut i: usize = 0;
    assert(names.take(0) =~= Seq::<Seq<char>>::empty());
    while i < team.member_names.len()
        invariant
            i <= team.member_names.len(),
            names == sviews(team.member_names@),
            members.len() == kept_members(names.take(i as int), sviews(indexed@), ostr(team.lead)).len(),
            forall|q: int| 0 <= q < members.len() ==> {
                let n = #[trigger] kept_members(names.take(i as int), sviews(indexed@), ostr(team.lead))[q];
                member_ref_ok(members@[q], n, "member"@, team_id@, display_for(display_views(team.member_display@), n))
            },
        decreases team.member_names.len() - i,
    {
        let n = team.member_names[i].as_str();
        assert(names.take(i + 1).drop_last() =~= names.take(i as int));
        assert(names.take(i + 1).last() == n@);
        let is_lead = match &team.lead {
            Some(l) => str_eq(l.as_str(), n),
            None => false,
        };
        if contains_string(indexed, n) && !is_lead {
            let m = make_member(team, n, "member", team_id);
            members.push(m);
        }
        i = i + 1;
    }
    assert(names.take(team.member_names.len() as int) =~= names);
    assert forall|q: int| 0 <= q < members.len() implies (#[trigger] members@[q]).has_one_owner() by {
        let n = kept_members(names, sviews(indexed@), ostr(team.lead))[q];
        assert(member_ref_ok(members@[q], n, "member"@, team_id@, display_for(display_views(team.member_display@), n)));
    }
    (lead, members)
}

} // verus!
