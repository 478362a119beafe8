//! The runtime's event vocabulary, as far as the server's logic reads it:
//! tool task modes, statuses and streams, and the events a tool run emits.

use vstd::prelude::*;

use crate::json::{Json, JsonView};

verus! {

#[derive(Clone, Copy, Debug, PartialEq, Eq, Structural)]
pub enum ToolTaskExecutionMode {
    Pipes,
    Pty,
}

#[derive(Clone, Copy, Debug, PartialEq, Eq, Structural)]
pub enum ToolTaskStatus {
    Queued,
    Running,
    Exited,
    Cancelled,
    Failed,
}

#[derive(Clone, Copy, Debug, PartialEq, Eq, Structural)]
pub enum ToolTaskStream {
    Stdout,
    Stderr,
    Pty,
}

/// One event of a session or tool run.
#[derive(Debug)]
pub struct KernelEvent {
    pub id: String,
    pub session_id: String,
    pub timestamp_ms: u64,
    pub seq: u64,
    pub kind: KernelEventKind,
}

/// The kinds of events the server's logic looks into; every other kind is `Other`.
#[derive(Debug)]
pub enum KernelEventKind {
    ToolStarted { tool_id: String, name: String, args: Json, timeout_ms: Option<u64> },
    ToolStdout { tool_id: String, chunk: String },
    ToolStderr { tool_id: String, chunk: String },
    ToolEnded { tool_id: String, exit_code: i32, artifacts: Option<Json> },
    ToolFailed { tool_id: String, error: String },
    CheckpointCreated { checkpoint_id: String, files: Vec<String>, auto: bool },
    SessionEnded { reason: String },
    Other,
}

/// An event kind as plain values.
pub ghost enum EventKindView {
    ToolStarted { tool_id: Seq<char>, name: Seq<char>, args: JsonView, timeout_ms: Option<u64> },
    ToolStdout { tool_id: Seq<char>, chunk: Seq<char> },
    ToolStderr { tool_id: Seq<char>, chunk: Seq<char> },
    ToolEnded { tool_id: Seq<char>, exit_code: i32, artifacts: Option<JsonView> },
    ToolFailed { tool_id: Seq<char>, error: Seq<char> },
    CheckpointCreated { checkpoint_id: Seq<char>, files: Seq<Seq<char>>, auto: bool },
    SessionEnded { reason: Seq<char> },
    Other,
}

pub ghost struct EventView {
    pub id: Seq<char>,
    pub session_id: Seq<char>,
    pub timestamp_ms: u64,
    pub seq: u64,
    pub kind: EventKindView,
}

/// The texts of a list of strings.
pub open spec fn strings_view(v: Seq<String>) -> Seq<Seq<char>> {
    v.map_values(|s: String| s@)
}

pub open spec fn opt_json_view(o: Option<Json>) -> Option<JsonView> {
    match o {
        Some(j) => Some(j@),
        None => None,
    }
}

impl View for KernelEventKind {
    type V = EventKindView;

    open spec fn view(&self) -> EventKindView {
        match self {
            KernelEventKind::ToolStarted { tool_id, name, args, timeout_ms } => EventKindView::ToolStarted {
                tool_id: tool_id@,
                name: name@,
                args: args@,
                timeout_ms: *timeout_ms,
            },
            KernelEventKind::ToolStdout { tool_id, chunk } => EventKindView::ToolStdout {
                tool_id: tool_id@,
                chunk: chunk@,
            },
            KernelEventKind::ToolStderr { tool_id, chunk } => EventKindView::ToolStderr {
                tool_id: tool_id@,
                chunk: chunk@,
            },
            KernelEventKind::ToolEnded { tool_id, exit_code, artifacts } => EventKindView::ToolEnded {
                tool_id: tool_id@,
                exit_code: *exit_code,
                artifacts: opt_json_view(*artifacts),
            },
            KernelEventKind::ToolFailed { tool_id, error } => EventKindView::ToolFailed {
                tool_id: tool_id@,
                error: error@,
            },
            KernelEventKind::CheckpointCreated { checkpoint_id, files, auto } => EventKindView::CheckpointCreated {
                checkpoint_id: checkpoint_id@,
                files: strings_view(files@),
                auto: *auto,
            },
            KernelEventKind::SessionEnded { reason } => EventKindView::SessionEnded { reason: reason@ },
            KernelEventKind::Other => EventKindView::Other,
        }
    }
}

impl View for KernelEvent {
    type V = EventView;

    open spec fn view(&self) -> EventView {
        EventView {
            id: self.id@,
            session_id: self.session_id@,
            timestamp_ms: self.timestamp_ms,
            seq: self.seq,
            kind: self.kind@,
        }
    }
}

} // verus!
