//! Decisions of the task runner: the status an execution ends with, the notice it
//! raises, and how a fresh session of a task is bound to its project, agent and role.

use vstd::prelude::*;

use crate::scheduler::types::ScheduledTask;
use crate::text::{chars_of, extend_chars, owned, str_eq, string_of, trim, trim_bounds};

verus! {

/// What the headless run of a task returned.
#[derive(Debug)]
pub enum TaskRunOutcome {
    /// It stopped on an interaction that needs the user (permission, question, plan).
    NeedsUser,
    /// It finished.
    Finished,
    /// The engine answered an error.
    Failed(String),
    /// The run thread panicked.
    Panicked,
}

/// The status and error text an execution is finished with.
pub fn execution_status(o: TaskRunOutcome) -> (r: (&'static str, Option<String>))
    ensures
        match o {
            TaskRunOutcome::NeedsUser => r.0@ == "needs_attention"@ && r.1 is None,
            TaskRunOutcome::Finished => r.0@ == "completed"@ && r.1 is None,
            TaskRunOutcome::Failed(e) => r.0@ == "failed"@ && r.1 == Some(e),
            TaskRunOutcome::Panicked => r.0@ == "failed"@ && (r.1 matches Some(e) && e@ == "引擎线程 panic"@),
        },
{
    match o {
        TaskRunOutcome::NeedsUser => ("needs_attention", None),
        TaskRunOutcome::Finished => ("completed", None),
        TaskRunOutcome::Failed(e) => ("failed", Some(e)),
        TaskRunOutcome::Panicked => ("failed", Some(owned("引擎线程 panic"))),
    }
}

/// The system notice of a finished execution: a title and a body naming the task.
pub open spec fn spec_finish_notice(task_name: Seq<char>, status: Seq<char>) -> (Seq<char>, Seq<char>) {
    if status == "completed"@ {
        ("定时任务完成"@, "✓ "@ + task_name + " 已完成"@)
    } else if status == "needs_attention"@ {
        ("定时任务需确认"@, "⏸ "@ + task_name + " 需要你的确认"@)
    } else if status == "failed"@ {
        ("定时任务失败"@, "✗ "@ + task_name + " 运行失败"@)
    } else {
        ("定时任务"@, task_name + "："@ + status)
    }
}

pub fn finish_notice(task_name: &str, status: &str) -> (r: (&'static str, String))
    ensures
        (r.0@, r.1@) == spec_finish_notice(task_name@, status@),
{
    let (title, pre, post): (&'static str, &'static str, &'static str) = if str_eq(status, "completed") {
        ("定时任务完成", "✓ ", " 已完成")
    } else if str_eq(status, "needs_attention") {
        ("定时任务需确认", "⏸ ", " 需要你的确认")
    } else if str_eq(status, "failed") {
        ("定时任务失败", "✗ ", " 运行失败")
    } else {
        let mut b = chars_of(task_name);
        extend_chars(&mut b, &chars_of("："));
        extend_chars(&mut b, &chars_of(status));
        return ("定时任务", string_of(&b));
    };
    let mut b = chars_of(pre);
    extend_chars(&mut b, &chars_of(task_name));
    extend_chars(&mut b, &chars_of(post));
    (title, string_of(&b))
}

/// A value that is present and not blank.
pub open spec fn filled(o: Option<String>) -> Option<Seq<char>> {
    match o {
        Some(s) => if trim(s@).len() > 0 { Some(s@) } else { None },
        None => None,
    }
}

fn filled_exec(o: &Option<String>) -> (r: Option<String>)
    ensures
        match r {
            Some(s) => filled(*o) == Some(s@),
            None => filled(*o) is None,
        },
{
    match o {
        Some(s) => {
            let v = chars_of(s.as_str());
            let (a, b) = trim_bounds(&v, 0, v.len());
            assert(v@.subrange(0, v@.len() as int) =~= v@);
            if a < b {
                Some(s.clone())
            } else {
                None
            }
        },
        None => None,
    }
}

/// How the session of a task run is bound: to the task's project (and its workspace), or
/// else to its agent; a role is set when the task names one; a working directory only for
/// a task outside projects (when that directory exists).
#[derive(Debug)]
pub struct SessionBinding {
    pub project_id: Option<String>,
    pub agent_id: Option<String>,
    pub role_kind: Option<String>,
    pub role_id: Option<String>,
    pub working_dir: Option<String>,
}

pub fn session_binding(task: &ScheduledTask) -> (b: SessionBinding)
    ensures
        match filled(task.project_id) {
            Some(p) => (b.project_id matches Some(x) && x@ == p) && b.agent_id is None,
            None => b.project_id is None && match filled(task.agent_id) {
                Some(a) => b.agent_id matches Some(x) && x@ == a,
                None => b.agent_id is None,
            },
        },
        match filled(task.role_kind) {
            Some(k) => (b.role_kind matches Some(x) && x@ == k) && b.role_id == task.role_id,
            None => b.role_kind is None && b.role_id is None,
        },
        b.working_dir == (if task.project_id is None { task.working_dir } else { None }),
{
    let project_id = filled_exec(&task.project_id);
    let agent_id = if project_id.is_some() {
        None
    } else {
        filled_exec(&task.agent_id)
    };
    let role_kind = filled_exec(&task.role_kind);
    let role_id = if role_kind.is_some() {
        match &task.role_id {
            Some(r) => Some(r.clone()),
            None => None,
        }
    } else {
        None
    };
    let working_dir = if task.project_id.is_none() {
        match &task.working_dir {
            Some(d) => Some(d.clone()),
            None => None,
        }
    } else {
        None
    };
    SessionBinding { project_id, agent_id, role_kind, role_id, working_dir }
}

/// The title of a task run's session: the task name and the local start time.
pub fn run_title(task_name: &str, local_time: &str) -> (r: String)
    ensures
        r@ == task_name@ + " · "@ + local_time@,
{
    let mut b = chars_of(task_name);
    extend_chars(&mut b, &chars_of(" · "));
    extend_chars(&mut b, &chars_of(local_time));
    string_of(&b)
}

} // verus!
