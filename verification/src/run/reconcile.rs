//! Unified converger: classify a session snapshot into the action that brings it back
//! to a quiescent (idle) state. Interrupted runs are closed as interrupted; nothing is
//! ever resumed automatically.

use vstd::prelude::*;

use crate::session::types::SessionInfo;
use crate::text::str_eq;

verus! {

/// Snapshot of a session, gathered by the coordinator.
#[derive(Debug, Clone, Copy, PartialEq, Eq)]
pub struct ReconcileInputs {
    /// The session holds a live lease (fresh heartbeat).
    pub is_live: bool,
    /// One of its children holds a live lease (or waits on a user decision).
    pub any_child_live: bool,
    /// Parked: `awaiting_subagent` or `pending_collect` is set.
    pub awaiting_or_collect: bool,
    pub stop_requested: bool,
    /// A legal pause: an ask / plan / permission interaction is pending.
    pub pending_interaction: bool,
    /// A dangling non-interactive tool call (crashed mid-step).
    pub dangling_noninteraction: bool,
    /// The task-queue head is `Running` (ghost head).
    pub head_running: bool,
}

/// Reconcile decision.
#[derive(Debug, Clone, Copy, PartialEq, Eq, Structural)]
pub enum ReconcileAction {
    /// Live run, legal park, legal pause, or already clean: leave it alone.
    Skip,
    /// Parked parent with no live child: collect the children and unfreeze the parent.
    ConvergeParked,
    /// Stopped while paused: close the pending interaction.
    SettlePaused,
    /// Should be running but has no live thread: close it as interrupted.
    ConvergeOrphan,
}

pub open spec fn spec_classify_reconcile(i: ReconcileInputs) -> ReconcileAction {
    if i.is_live {
        ReconcileAction::Skip
    } else if i.awaiting_or_collect {
        if i.any_child_live { ReconcileAction::Skip } else { ReconcileAction::ConvergeParked }
    } else if i.pending_interaction {
        if i.stop_requested { ReconcileAction::SettlePaused } else { ReconcileAction::Skip }
    } else if i.head_running || i.dangling_noninteraction {
        ReconcileAction::ConvergeOrphan
    } else {
        ReconcileAction::Skip
    }
}

/// Classifies a snapshot into its converging action.
pub fn classify_reconcile(i: ReconcileInputs) -> (r: ReconcileAction)
    ensures
        r == spec_classify_reconcile(i),
{
    if i.is_live {
        return ReconcileAction::Skip;
    }
    if i.awaiting_or_collect {
        return if i.any_child_live {
            ReconcileAction::Skip
        } else {
            ReconcileAction::ConvergeParked
        };
    }
    if i.pending_interaction {
        return if i.stop_requested {
            ReconcileAction::SettlePaused
        } else {
            ReconcileAction::Skip
        };
    }
    if i.head_running || i.dangling_noninteraction {
        return ReconcileAction::ConvergeOrphan;
    }
    ReconcileAction::Skip
}

/// A live session is never touched, whatever else its snapshot says; and a session with
/// nothing parked, paused, dangling or running at its head is left alone.
pub proof fn law_reconcile_never_touches_live_or_clean(i: ReconcileInputs)
    ensures
        i.is_live ==> spec_classify_reconcile(i) == ReconcileAction::Skip,
        (!i.awaiting_or_collect && !i.pending_interaction && !i.head_running
            && !i.dangling_noninteraction) ==> spec_classify_reconcile(i) == ReconcileAction::Skip,
{
}

/// Converging is idempotent on the snapshot it produces: the state a converging action
/// leaves behind (no live lease, not parked, no stop-paused interaction, no ghost head,
/// nothing dangling) classifies as `Skip`.
pub proof fn law_reconcile_converged_state_is_skip(stop_requested: bool, any_child_live: bool)
    ensures
        spec_classify_reconcile(ReconcileInputs {
            is_live: false,
            any_child_live,
            awaiting_or_collect: false,
            stop_requested,
            pending_interaction: false,
            dangling_noninteraction: false,
            head_running: false,
        }) == ReconcileAction::Skip,
{
}

// ---------------------------------------------------------------- what a snapshot is made of

/// What reconciliation reads of one child session: whether a thread runs it, whether its
/// run has ended (`run_outcome` is set), and whether it waits on a decision of the user
/// (a permission, a question or a plan).
#[derive(Debug, Clone, PartialEq, Eq)]
pub struct ChildFacts {
    pub id: String,
    /// `subagent` for a dispatched child.
    pub origin: String,
    pub running: bool,
    pub ended: bool,
    pub pending_interaction: bool,
}

/// A child keeps its parent parked while a thread runs it, or while it legally waits on
/// the user: such a pause is no dead orphan.
pub open spec fn child_is_live(c: ChildFacts) -> bool {
    c.running || (!c.ended && c.pending_interaction)
}

pub open spec fn spec_any_child_live(cs: Seq<ChildFacts>) -> bool {
    exists|i: int| 0 <= i < cs.len() && #[trigger] child_is_live(cs[i])
}

/// Whether one of the children is live.
pub fn any_child_live(children: &Vec<ChildFacts>) -> (r: bool)
    ensures
        r == spec_any_child_live(children@),
{
    let mut i: usize = 0;
    while i < children.len()
        invariant
            i <= children.len(),
            forall|j: int| 0 <= j < i ==> !#[trigger] child_is_live(children@[j]),
        decreases children.len() - i,
    {
        let c = &children[i];
        if c.running || (!c.ended && c.pending_interaction) {
            assert(child_is_live(children@[i as int]));
            return true;
        }
        i = i + 1;
    }
    false
}

pub open spec fn is_parked(info: SessionInfo) -> bool {
    info.awaiting_subagent is Some || info.pending_collect is Some
}

/// A parked top-level session that nothing drives any more: no thread runs it and none of
/// its children is live. The watchdog reconciles such sessions even without a stale lease.
pub fn is_parked_orphan(info: &SessionInfo, running: bool, children: &Vec<ChildFacts>) -> (r: bool)
    ensures
        r == (info.parent_session_id is None && is_parked(*info) && !running
            && !spec_any_child_live(children@)),
{
    info.parent_session_id.is_none()
        && (info.awaiting_subagent.is_some() || info.pending_collect.is_some())
        && !running
        && !any_child_live(children)
}

pub open spec fn spec_reconcile_inputs(
    info: SessionInfo,
    children: Seq<ChildFacts>,
    stop_requested: bool,
    pending_interaction: bool,
    dangling: bool,
    head_running: bool,
) -> ReconcileInputs {
    ReconcileInputs {
        is_live: false,
        any_child_live: spec_any_child_live(children),
        awaiting_or_collect: is_parked(info),
        stop_requested,
        pending_interaction,
        dangling_noninteraction: dangling && !pending_interaction,
        head_running,
    }
}

/// The snapshot of a session that no other run holds: whether it is parked and a child
/// still lives, whether a stop was asked, whether it legally waits on the user, whether a
/// tool call dangles (one that is no pending interaction), and whether its queue head is
/// marked running.
pub fn reconcile_inputs(
    info: &SessionInfo,
    children: &Vec<ChildFacts>,
    stop_requested: bool,
    pending_interaction: bool,
    dangling: bool,
    head_running: bool,
) -> (i: ReconcileInputs)
    ensures
        i == spec_reconcile_inputs(*info, children@, stop_requested, pending_interaction, dangling, head_running),
{
    ReconcileInputs {
        is_live: false,
        any_child_live: any_child_live(children),
        awaiting_or_collect: info.awaiting_subagent.is_some() || info.pending_collect.is_some(),
        stop_requested,
        pending_interaction,
        dangling_noninteraction: dangling && !pending_interaction,
        head_running,
    }
}

/// What the watchdog takes for a parked orphan is converged when reconciled, whatever
/// else its snapshot holds: the orphan finder and the classifier agree.
pub proof fn law_parked_orphan_converges(
    info: SessionInfo,
    children: Seq<ChildFacts>,
    stop_requested: bool,
    pending_interaction: bool,
    dangling: bool,
    head_running: bool,
)
    requires
        info.parent_session_id is None,
        is_parked(info),
        !spec_any_child_live(children),
    ensures
        spec_classify_reconcile(
            spec_reconcile_inputs(info, children, stop_requested, pending_interaction, dangling, head_running),
        ) == ReconcileAction::ConvergeParked,
{
}

/// The children that converging a parked parent closes, in order: the dispatched ones
/// whose run has not ended. Each comes with whether its own dangling interaction is
/// settled first, which is done only when no thread runs it.
pub open spec fn spec_children_to_close(cs: Seq<ChildFacts>) -> Seq<(Seq<char>, bool)>
    decreases cs.len(),
{
    if cs.len() == 0 {
        Seq::empty()
    } else {
        let rest = spec_children_to_close(cs.drop_last());
        let c = cs.last();
        if c.origin@ == "subagent"@ && !c.ended {
            rest.push((c.id@, !c.running))
        } else {
            rest
        }
    }
}

pub open spec fn pair_views(v: Seq<(String, bool)>) -> Seq<(Seq<char>, bool)> {
    v.map_values(|p: (String, bool)| (p.0@, p.1))
}

pub fn children_to_close(children: &Vec<ChildFacts>) -> (r: Vec<(String, bool)>)
    ensures
        pair_views(r@) == spec_children_to_close(children@),
{
    let mut r: Vec<(String, bool)> = Vec::new();
    let mut i: usize = 0;
    while i < children.len()
        invariant
            i <= children.len(),
            pair_views(r@) == spec_children_to_close(children@.subrange(0, i as int)),
        decreases children.len() - i,
    {
        let c = &children[i];
        assert(children@.subrange(0, i as int + 1).drop_last() =~= children@.subrange(0, i as int));
        if str_eq(c.origin.as_str(), "subagent") && !c.ended {
            let ghost before = r@;
            r.push((c.id.clone(), !c.running));
            assert(pair_views(r@) =~= pair_views(before).push((c.id@, !c.running)));
        }
        i = i + 1;
    }
    assert(children@.subrange(0, children@.len() as int) =~= children@);
    r
}

} // verus!
