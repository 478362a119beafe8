//! A task's status record as the API reports it, from creation through its
//! run to its end, and the artifact documents that go with each stage.

use vstd::prelude::*;

use crate::json::{Json, JsonNumber, JsonView, NumberView, ObjectBuilder};
use crate::kernel::{ToolTaskExecutionMode, ToolTaskStatus};
use crate::paths::{artifacts_blobs_dir, spec_artifacts_blobs_dir};
use crate::task_logs::{log_refs_members, TaskLogSummary, TaskLogs};
use crate::tasks::{kernel_mode_to_api, kernel_status_to_api, ApiToolTaskExecutionMode, ApiToolTaskStatus};

verus! {

/// Where tasks keep their logs and how much of each they keep.
#[derive(Debug)]
pub struct TaskEngineConfig {
    pub workspace_root: String,
    pub artifact_max_bytes: usize,
    pub max_bytes: usize,
}

impl TaskEngineConfig {
    /// `<workspace>/.rip/artifacts/blobs`.
    pub fn artifacts_blobs_dir(&self) -> (r: String)
        ensures
            r@ == spec_artifacts_blobs_dir(self.workspace_root@),
    {
        artifacts_blobs_dir(self.workspace_root.as_str())
    }
}

/// The limits a task runs with: its own where its arguments set them, the
/// engine's otherwise. The first bounds what each log stores, the second
/// what each output event previews.
pub fn task_limits(artifact_max_bytes: Option<usize>, max_bytes: Option<usize>, config: &TaskEngineConfig) -> (r: (
    usize,
    usize,
))
    ensures
        r.0 == (match artifact_max_bytes {
            Some(n) => n,
            None => config.artifact_max_bytes,
        }),
        r.1 == (match max_bytes {
            Some(n) => n,
            None => config.max_bytes,
        }),
{
    let a = match artifact_max_bytes {
        Some(n) => n,
        None => config.artifact_max_bytes,
    };
    let m = match max_bytes {
        Some(n) => n,
        None => config.max_bytes,
    };
    (a, m)
}

/// The status of a task as the API reports it.
#[derive(Debug)]
pub struct TaskStatusResponse {
    pub task_id: String,
    pub status: ApiToolTaskStatus,
    pub tool: String,
    pub title: Option<String>,
    pub execution_mode: ApiToolTaskExecutionMode,
    pub exit_code: Option<i32>,
    pub started_at_ms: Option<u64>,
    pub ended_at_ms: Option<u64>,
    pub artifacts: Option<Json>,
    pub error: Option<String>,
}

/// `{"logs": <the log references>}`.
pub open spec fn logs_doc_view(logs: TaskLogs) -> JsonView {
    JsonView::Object(seq![("logs"@, JsonView::Object(log_refs_members(logs)))])
}

impl TaskStatusResponse {
    /// A task just created: queued, not started, with its log references.
    pub fn queued(task_id: String, tool: String, title: Option<String>, mode: ToolTaskExecutionMode, logs: &TaskLogs) -> (r:
        TaskStatusResponse)
        ensures
            r.task_id == task_id,
            r.status == ApiToolTaskStatus::Queued,
            r.tool == tool,
            r.title == title,
            r.execution_mode == kernel_mode_to_api(mode),
            r.exit_code is None,
            r.started_at_ms is None,
            r.ended_at_ms is None,
            r.artifacts matches Some(a) && a@ == logs_doc_view(*logs),
            r.error is None,
    {
        let mut o = ObjectBuilder::new();
        o.insert("logs", logs.refs_json());
        assert(o.spec_members() =~= logs_doc_view(*logs)->Object_0);
        TaskStatusResponse {
            task_id,
            status: ApiToolTaskStatus::Queued,
            tool,
            title,
            execution_mode: ApiToolTaskExecutionMode::from(mode),
            exit_code: None,
            started_at_ms: None,
            ended_at_ms: None,
            artifacts: Some(o.build()),
            error: None,
        }
    }

    /// The task's process started at `started_at_ms`.
    pub fn mark_running(&mut self, started_at_ms: u64)
        ensures
            *final(self) == (TaskStatusResponse {
                status: ApiToolTaskStatus::Running,
                started_at_ms: Some(started_at_ms),
                ..*old(self)
            }),
    {
        self.status = ApiToolTaskStatus::Running;
        self.started_at_ms = Some(started_at_ms);
    }

    /// The task failed before or instead of running its process.
    pub fn mark_failed(&mut self, error: String, ended_at_ms: u64)
        ensures
            *final(self) == (TaskStatusResponse {
                status: ApiToolTaskStatus::Failed,
                ended_at_ms: Some(ended_at_ms),
                error: Some(error),
                ..*old(self)
            }),
    {
        self.status = ApiToolTaskStatus::Failed;
        self.ended_at_ms = Some(ended_at_ms);
        self.error = Some(error);
    }

    /// The task's run ended with this outcome.
    pub fn mark_ended(
        &mut self,
        status: ToolTaskStatus,
        exit_code: Option<i32>,
        ended_at_ms: u64,
        artifacts: Json,
        error: Option<String>,
    )
        ensures
            *final(self) == (TaskStatusResponse {
                status: kernel_status_to_api(status),
                exit_code,
                ended_at_ms: Some(ended_at_ms),
                artifacts: Some(artifacts),
                error,
                ..*old(self)
            }),
    {
        self.status = ApiToolTaskStatus::from(status);
        self.exit_code = exit_code;
        self.ended_at_ms = Some(ended_at_ms);
        self.artifacts = Some(artifacts);
        self.error = error;
    }
}

/// The artifacts a task announces when it is spawned: its log references and
/// its two limits.
pub open spec fn spawned_artifacts_view(logs: TaskLogs, artifact_max_bytes: usize, max_bytes: usize) -> JsonView {
    JsonView::Object(
        seq![
            ("logs"@, JsonView::Object(log_refs_members(logs))),
            ("artifact_max_bytes"@, JsonView::Number(NumberView::PosInt(artifact_max_bytes as u64))),
            ("max_bytes"@, JsonView::Number(NumberView::PosInt(max_bytes as u64))),
        ],
    )
}

pub fn spawned_artifacts(logs: &TaskLogs, artifact_max_bytes: usize, max_bytes: usize) -> (r: Json)
    ensures
        r@ == spawned_artifacts_view(*logs, artifact_max_bytes, max_bytes),
{
    let mut o = ObjectBuilder::new();
    o.insert("logs", logs.refs_json());
    o.insert("artifact_max_bytes", Json::Number(JsonNumber::PosInt(artifact_max_bytes as u64)));
    o.insert("max_bytes", Json::Number(JsonNumber::PosInt(max_bytes as u64)));
    assert(o.spec_members() =~= spawned_artifacts_view(*logs, artifact_max_bytes, max_bytes)->Object_0);
    o.build()
}

/// The artifacts of a finished piped task: the accounts of its two logs.
pub open spec fn pipes_run_artifacts_view(stdout: JsonView, stderr: JsonView) -> JsonView {
    JsonView::Object(seq![("logs"@, JsonView::Object(seq![("stdout"@, stdout), ("stderr"@, stderr)]))])
}

pub fn pipes_run_artifacts(stdout: &TaskLogSummary, stderr: &TaskLogSummary) -> (r: Json)
    ensures
        r@ == pipes_run_artifacts_view(stdout.as_json_view(), stderr.as_json_view()),
{
    let mut logs = ObjectBuilder::new();
    logs.insert("stdout", stdout.as_json());
    logs.insert("stderr", stderr.as_json());
    assert(logs.spec_members() =~= seq![("stdout"@, stdout.as_json_view()), ("stderr"@, stderr.as_json_view())]);
    let mut o = ObjectBuilder::new();
    o.insert("logs", logs.build());
    assert(o.spec_members() =~= pipes_run_artifacts_view(stdout.as_json_view(), stderr.as_json_view())->Object_0);
    o.build()
}

/// The artifacts of a finished pseudo-terminal task: the account of its log.
pub open spec fn pty_run_artifacts_view(pty: JsonView) -> JsonView {
    JsonView::Object(seq![("logs"@, JsonView::Object(seq![("pty"@, pty)]))])
}

pub fn pty_run_artifacts(pty: &TaskLogSummary) -> (r: Json)
    ensures
        r@ == pty_run_artifacts_view(pty.as_json_view()),
{
    let mut logs = ObjectBuilder::new();
    logs.insert("pty", pty.as_json());
    assert(logs.spec_members() =~= seq![("pty"@, pty.as_json_view())]);
    let mut o = ObjectBuilder::new();
    o.insert("logs", logs.build());
    assert(o.spec_members() =~= pty_run_artifacts_view(pty.as_json_view())->Object_0);
    o.build()
}

/// How long a cancelled task ran: the time from spawn to end, or 0 if the
/// clock went back.
pub fn cancel_wall_time_ms(ended_at_ms: u64, spawn_time_ms: u64) -> (r: u64)
    ensures
        r == (if ended_at_ms >= spawn_time_ms {
            (ended_at_ms - spawn_time_ms) as u64
        } else {
            0
        }),
{
    if ended_at_ms >= spawn_time_ms {
        ended_at_ms - spawn_time_ms
    } else {
        0
    }
}

/// The part of a task's output a request reads: from its offset (0 when
/// unset), at most its byte limit (the engine's when unset).
pub fn output_window(offset_bytes: Option<u64>, max_bytes: Option<usize>, config: &TaskEngineConfig) -> (r: (
    u64,
    usize,
))
    ensures
        r.0 == (match offset_bytes {
            Some(o) => o,
            None => 0,
        }),
        r.1 == (match max_bytes {
            Some(m) => m,
            None => config.max_bytes,
        }),
{
    let offset = match offset_bytes {
        Some(o) => o,
        None => 0,
    };
    let limit = match max_bytes {
        Some(m) => m,
        None => config.max_bytes,
    };
    (offset, limit)
}

/// The reason a cancel request gives: its own, or `cancel`.
pub fn cancel_reason(reason: Option<String>) -> (r: String)
    ensures
        r@ == (match reason {
            Some(s) => s@,
            None => "cancel"@,
        }),
{
    match reason {
        Some(s) => s,
        None => crate::text::owned("cancel"),
    }
}

} // verus!
