//! Session-level value types shared by the stores, the run layer and the remote renderer.

use vstd::prelude::*;

verus! {

/// Persisted session row plus run-time flags.
#[derive(Debug, Clone, PartialEq, Eq)]
pub struct SessionInfo {
    pub id: String,
    pub title: String,
    pub created_at: String,
    pub updated_at: String,
    pub pinned: bool,
    pub group_id: Option<String>,
    /// Working mode: `"normal"` or `"plan"`.
    pub mode: String,
    /// Explicit working directory (sandbox root); `None` uses the default one.
    pub working_dir: Option<String>,
    /// Permission-mode override (manual/auto/full); `None` inherits the global default.
    pub permission_mode: Option<String>,
    pub selected_model_id: Option<String>,
    /// Origin: `user`, `scheduled`, ...
    pub origin: String,
    pub is_draft: bool,
    pub draft_content: String,
    pub last_suggestions: Vec<String>,
    /// Whether a run is in flight (run-time state, not persisted).
    pub is_running: bool,
    pub run_started_at: Option<String>,
    /// Parent session of a child run; `None` for a top-level session.
    pub parent_session_id: Option<String>,
    pub parent_tool_call_id: Option<String>,
    pub expert_name: Option<String>,
    pub agent_task: Option<String>,
    /// Parked parent: the child session it waits for.
    pub awaiting_subagent: Option<String>,
    pub expert_system_prompt: Option<String>,
    pub expert_tools: Option<String>,
    pub agent_id: Option<String>,
    pub role_kind: Option<String>,
    pub role_id: Option<String>,
    pub is_background: bool,
    /// Terminal outcome of a child run: `done`, `failed` or `cancelled`.
    pub run_outcome: Option<String>,
    /// Parked collect state (JSON).
    pub pending_collect: Option<String>,
    pub project_id: Option<String>,
    /// The session's task queue (JSON array of queue items).
    pub pending_tasks: Option<String>,
}

/// Summary of a child run shown in its parent's side panel.
#[derive(Debug, Clone, PartialEq, Eq)]
pub struct ChildAgentSummary {
    pub session_id: String,
    pub expert_name: String,
    pub task: String,
    /// `running`, `paused`, `done` or `failed`.
    pub status: String,
    pub created_at: String,
    /// Round key: the assistant message that dispatched the child.
    pub round_id: String,
    pub display_name: Option<String>,
    pub profession: Option<String>,
    pub avatar: Option<String>,
}

/// A named, coloured group of sessions.
#[derive(Debug, Clone, PartialEq, Eq)]
pub struct SessionGroup {
    pub id: String,
    pub label: String,
    pub color_key: String,
    pub created_at: String,
    pub built_in: bool,
    pub sort_order: i64,
}

/// One message of a session.
#[derive(Debug, Clone, PartialEq, Eq)]
pub struct Message {
    pub id: String,
    pub session_id: String,
    /// `user`, `assistant` or `tool`.
    pub role: String,
    pub content: String,
    pub reasoning: Option<String>,
    pub tool_calls_json: Option<String>,
    pub tool_call_id: Option<String>,
    pub tool_name: Option<String>,
    /// `done` or `failed` for tool messages.
    pub tool_status: Option<String>,
    /// Absorbed into a compaction summary.
    pub compacted: bool,
    pub created_at: String,
}

/// A risky tool call awaiting the user's approval.
#[derive(Debug, Clone, PartialEq, Eq)]
pub struct PendingPermission {
    pub session_id: String,
    pub tool_call_id: String,
    pub tool_name: String,
    /// Tool arguments as JSON text, shown verbatim.
    pub input: String,
}

/// One question of an `ask_user` interaction.
#[derive(Debug, Clone, PartialEq, Eq)]
pub struct AskQuestion {
    pub header: String,
    pub question: String,
    pub multi_select: bool,
    pub options: Vec<String>,
}

/// Questions the model is waiting on.
#[derive(Debug, Clone, PartialEq, Eq)]
pub struct PendingAsk {
    pub session_id: String,
    pub tool_call_id: String,
    pub questions: Vec<AskQuestion>,
}

/// A proposed plan awaiting approval.
#[derive(Debug, Clone, PartialEq, Eq)]
pub struct PendingPlan {
    pub session_id: String,
    pub tool_call_id: String,
    pub title: String,
    pub summary: String,
    pub plan_markdown: String,
    pub risk_level: String,
}

/// One to-do entry of a session (`pending`, `in_progress` or `completed`).
#[derive(Debug, Clone, PartialEq, Eq)]
pub struct TodoItem {
    pub id: u32,
    pub content: String,
    pub status: String,
}

/// A deliverable file registered by the agent.
#[derive(Debug, Clone, PartialEq, Eq)]
pub struct Artifact {
    pub path: String,
    pub title: String,
    /// `final` or `working`.
    pub kind: String,
    pub message_id: Option<String>,
    pub tool_call_id: Option<String>,
    pub created_at: String,
}

/// A session with everything the UI shows about it.
#[derive(Debug, Clone, PartialEq, Eq)]
pub struct Session {
    pub session: SessionInfo,
    pub messages: Vec<Message>,
    pub pending_permission: Option<PendingPermission>,
    pub pending_ask: Option<PendingAsk>,
    pub pending_plan: Option<PendingPlan>,
    pub todos: Vec<TodoItem>,
    pub resolved_working_dir: String,
    pub artifacts: Vec<Artifact>,
    pub is_running: bool,
}

} // verus!
