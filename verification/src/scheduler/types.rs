//! Scheduled-task records.

use vstd::prelude::*;

verus! {

/// Fields of a task to create or update (the spec is already a 6-field cron string).
#[derive(Debug, Clone, PartialEq, Eq)]
pub struct TaskInput {
    pub name: String,
    pub prompt: String,
    pub schedule_spec: String,
    pub schedule_display: Option<String>,
    pub working_dir: Option<String>,
    /// Owning project; exclusive with `agent_id`.
    pub project_id: Option<String>,
    /// Owning persistent agent; exclusive with `project_id`.
    pub agent_id: Option<String>,
    pub role_kind: Option<String>,
    pub role_id: Option<String>,
    pub permission_mode: Option<String>,
    pub model_id: Option<String>,
}

/// A scheduled task with derived display fields.
#[derive(Debug, Clone, PartialEq, Eq)]
pub struct ScheduledTask {
    pub id: String,
    pub name: String,
    pub prompt: String,
    pub schedule_spec: String,
    pub schedule_display: Option<String>,
    pub working_dir: Option<String>,
    pub project_id: Option<String>,
    pub agent_id: Option<String>,
    pub role_kind: Option<String>,
    pub role_id: Option<String>,
    pub permission_mode: Option<String>,
    pub model_id: Option<String>,
    pub enabled: bool,
    pub next_run_at: Option<i64>,
    pub last_run_at: Option<i64>,
    pub created_at: i64,
    pub updated_at: i64,
    /// Number of recorded executions.
    pub execution_count: i64,
    /// Status of the latest execution.
    pub last_status: Option<String>,
}

/// One execution of a task.
#[derive(Debug, Clone, PartialEq, Eq)]
pub struct TaskExecution {
    pub id: String,
    pub task_id: String,
    pub task_name: String,
    pub session_id: String,
    /// `running`, `completed`, `needs_attention`, `failed` or `skipped`.
    pub status: String,
    /// `schedule`, `catchup` or `manual`.
    pub trigger: String,
    pub started_at: i64,
    pub finished_at: Option<i64>,
    pub error: Option<String>,
    pub session_title: Option<String>,
}

} // verus!
