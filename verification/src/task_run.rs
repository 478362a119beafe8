//! The decisions inside a running task: which output becomes an output
//! event, what a control request does to a pseudo-terminal and what is
//! reported once it was done, when the run loop of a pseudo-terminal
//! task is over, and how the run of a piped task ends.

use vstd::prelude::*;
use vstd::utf8::decode_utf8;

use crate::json::{Json, JsonView, ObjectBuilder};
use crate::kernel::{ToolTaskStatus, ToolTaskStream};
use crate::task_logs::{truncate_utf8, utf8_cut, utf8_lossy};
use crate::task_status::cancel_wall_time_ms;
use crate::text::concat2;
use crate::tasks::{normalize_signal, pipes_exit_outcome, preview_limit, pty_exit_outcome, spec_normalize_signal, PtyWait, SignalAction};

verus! {

/// The text an output event previews of a chunk: the whole chunk, decoded
/// lossily, when it fits in the limit; otherwise its longest valid UTF-8
/// prefix within the limit.
pub open spec fn preview_text(chunk: Seq<u8>, limit: int) -> Seq<char> {
    if chunk.len() <= limit {
        utf8_lossy(chunk)
    } else {
        decode_utf8(chunk.subrange(0, utf8_cut(chunk, limit)))
    }
}

/// The preview limit of a task whose output limit is `max_bytes`.
pub open spec fn spec_preview_limit(max_bytes: usize) -> int {
    if max_bytes < 8192 {
        max_bytes as int
    } else {
        8192
    }
}

/// The artifacts of an output event: where the chunk went in the task's log,
/// when writing it there succeeded.
pub open spec fn log_artifacts(log: Option<JsonView>) -> Option<JsonView> {
    match log {
        Some(v) => Some(JsonView::Object(seq![("log"@, v)])),
        None => None,
    }
}

/// An output event of a task.
#[derive(Debug)]
pub struct OutputDelta {
    pub stream: ToolTaskStream,
    pub chunk: String,
    pub artifacts: Option<Json>,
}

/// The output event for a chunk read from a task's stream, given the log
/// record of appending it (none when the append failed); none when the
/// preview is empty.
pub fn output_delta(stream: ToolTaskStream, chunk: &[u8], max_bytes: usize, log: Option<Json>) -> (r: Option<
    OutputDelta,
>)
    ensures
        ({
            let text = preview_text(chunk@, spec_preview_limit(max_bytes));
            &&& (r is None <==> text.len() == 0)
            &&& (r matches Some(d) ==> d.stream == stream && d.chunk@ == text && (match d.artifacts {
                Some(a) => Some(a@),
                None => None,
            }) == log_artifacts(
                match log {
                    Some(v) => Some(v@),
                    None => None,
                },
            ))
        }),
{
    let limit = preview_limit(max_bytes);
    let (preview, _truncated, _used) = truncate_utf8(chunk, limit);
    if preview.as_str().is_empty() {
        return None;
    }
    let artifacts = match log {
        Some(value) => {
            let mut obj = ObjectBuilder::new();
            obj.insert("log", value);
            let ghost ms = obj.spec_members();
            let built = obj.build();
            assert(ms =~= seq![("log"@, ms[0].1)]);
            Some(built)
        },
        None => None,
    };
    Some(OutputDelta { stream, chunk: preview, artifacts })
}

/// A control request for a running pseudo-terminal task.
#[derive(Debug)]
pub enum TaskControl {
    /// Bytes for the terminal's input, with the base64 text they came as.
    WriteStdin { chunk_b64: String, bytes: Vec<u8> },
    /// A new terminal size.
    Resize { rows: u16, cols: u16 },
    /// A signal by name.
    Signal { signal: String },
}

/// What must be done to the terminal for a control request.
#[derive(Debug)]
pub enum ControlEffect {
    /// Write these bytes to the terminal's input.
    Write(Vec<u8>),
    /// Resize the terminal.
    Resize { rows: u16, cols: u16 },
    /// Kill the process.
    Kill,
    /// Nothing: the signal is not one the task acts on.
    Ignore,
}

/// The effect of a request: stdin bytes are written, a resize resizes, and a
/// signal becomes Ctrl-C (byte 0x03) or Ctrl-\ (byte 0x1c) on the terminal's
/// input, or a kill, or nothing when it is not recognised.
pub open spec fn effect_matches(message: TaskControl, effect: ControlEffect) -> bool {
    match message {
        TaskControl::WriteStdin { bytes, .. } => (effect matches ControlEffect::Write(b) && b@ == bytes@),
        TaskControl::Resize { rows, cols } => (effect matches ControlEffect::Resize { rows: r, cols: c } && r
            == rows && c == cols),
        TaskControl::Signal { signal } => match spec_normalize_signal(signal@) {
            Some(SignalAction::CtrlC) => (effect matches ControlEffect::Write(b) && b@ == seq![0x03u8]),
            Some(SignalAction::CtrlBackslash) => (effect matches ControlEffect::Write(b) && b@ == seq![0x1cu8]),
            Some(SignalAction::Kill) => effect is Kill,
            None => effect is Ignore,
        },
    }
}

fn single_byte(b: u8) -> (r: Vec<u8>)
    ensures
        r@ == seq![b],
{
    let mut v: Vec<u8> = Vec::new();
    v.push(b);
    v
}

pub fn control_effect(message: &TaskControl) -> (r: ControlEffect)
    ensures
        effect_matches(*message, r),
{
    match message {
        TaskControl::WriteStdin { bytes, .. } => {
            let copy = bytes.clone();
            assert(copy@ =~= bytes@);
            ControlEffect::Write(copy)
        },
        TaskControl::Resize { rows, cols } => ControlEffect::Resize { rows: *rows, cols: *cols },
        TaskControl::Signal { signal } => match normalize_signal(signal.as_str()) {
            Some(SignalAction::CtrlC) => ControlEffect::Write(single_byte(0x03u8)),
            Some(SignalAction::CtrlBackslash) => ControlEffect::Write(single_byte(0x1cu8)),
            Some(SignalAction::Kill) => ControlEffect::Kill,
            None => ControlEffect::Ignore,
        },
    }
}

/// The event that reports a control request once its effect was applied.
#[derive(Debug, PartialEq, Eq)]
pub enum ControlReport {
    StdinWritten { chunk_b64: String },
    Resized { rows: u16, cols: u16 },
    Signalled { signal: String },
}

/// A request is reported only when its effect was applied, and an ignored
/// signal never is.
pub open spec fn report_matches(message: TaskControl, applied: bool, report: Option<ControlReport>) -> bool {
    if !applied {
        report is None
    } else {
        match message {
            TaskControl::WriteStdin { chunk_b64, .. } => report matches Some(
                ControlReport::StdinWritten { chunk_b64: c },
            ) && c@ == chunk_b64@,
            TaskControl::Resize { rows, cols } => report == Some(ControlReport::Resized { rows, cols }),
            TaskControl::Signal { signal } => if spec_normalize_signal(signal@) is None {
                report is None
            } else {
                report matches Some(ControlReport::Signalled { signal: s }) && s@ == signal@
            },
        }
    }
}

pub fn control_report(message: TaskControl, applied: bool) -> (r: Option<ControlReport>)
    ensures
        report_matches(message, applied, r),
{
    if !applied {
        return None;
    }
    match message {
        TaskControl::WriteStdin { chunk_b64, .. } => Some(ControlReport::StdinWritten { chunk_b64 }),
        TaskControl::Resize { rows, cols } => Some(ControlReport::Resized { rows, cols }),
        TaskControl::Signal { signal } => {
            if normalize_signal(signal.as_str()).is_none() {
                None
            } else {
                Some(ControlReport::Signalled { signal })
            }
        },
    }
}

/// The state of a pseudo-terminal task's run loop: whether the process was
/// waited for, whether its output is closed, and the cancel reason once a
/// cancel was seen.
#[derive(Debug)]
pub struct PtyLoop {
    pub exit_seen: bool,
    pub output_closed: bool,
    pub cancel_reason: Option<String>,
}

impl PtyLoop {
    pub fn new() -> (r: PtyLoop)
        ensures
            !r.exit_seen,
            !r.output_closed,
            r.cancel_reason is None,
    {
        PtyLoop { exit_seen: false, output_closed: false, cancel_reason: None }
    }

    /// The loop runs until the process was waited for and its output closed.
    pub fn running(&self) -> (r: bool)
        ensures
            r == !(self.exit_seen && self.output_closed),
    {
        !(self.exit_seen && self.output_closed)
    }

    /// Whether the loop still waits for the process.
    pub fn awaits_exit(&self) -> (r: bool)
        ensures
            r == !self.exit_seen,
    {
        !self.exit_seen
    }

    /// Whether the loop still listens for a cancel.
    pub fn awaits_cancel(&self) -> (r: bool)
        ensures
            r == (self.cancel_reason is None),
    {
        self.cancel_reason.is_none()
    }

    /// Whether the loop still reads output.
    pub fn awaits_output(&self) -> (r: bool)
        ensures
            r == !self.output_closed,
    {
        !self.output_closed
    }

    pub fn on_exit(&mut self)
        ensures
            *final(self) == (PtyLoop { exit_seen: true, ..*old(self) }),
    {
        self.exit_seen = true;
    }

    pub fn on_output_closed(&mut self)
        ensures
            *final(self) == (PtyLoop { output_closed: true, ..*old(self) }),
    {
        self.output_closed = true;
    }

    /// A cancel was signalled with this reason (none when the signal carried
    /// none). The process is killed either way; the reason, if any, is
    /// returned to be announced.
    pub fn on_cancel(&mut self, reason: Option<String>) -> (r: Option<String>)
        ensures
            final(self).exit_seen == old(self).exit_seen,
            final(self).output_closed == old(self).output_closed,
            final(self).cancel_reason == reason,
            r == reason,
    {
        let announced = match &reason {
            Some(s) => Some(s.clone()),
            None => None,
        };
        self.cancel_reason = reason;
        announced
    }

    /// How the task ended, from the wait result: cancelled when a cancel
    /// reason was seen.
    pub fn outcome(&self, wait: PtyWait) -> (r: (ToolTaskStatus, Option<i32>, Option<String>))
        ensures
            match wait {
                PtyWait::Exited(code) => r.0 == (if self.cancel_reason is Some {
                    ToolTaskStatus::Cancelled
                } else {
                    ToolTaskStatus::Exited
                }) && r.1 == Some(code as i32) && r.2 is None,
                PtyWait::WaitFailed(e) => r.0 == ToolTaskStatus::Failed && r.1 is None && (r.2 matches Some(m)
                    && m@ == "wait failed: "@ + e@),
                PtyWait::JoinFailed(e) => r.0 == ToolTaskStatus::Failed && r.1 is None && (r.2 matches Some(m)
                    && m@ == "wait join failed: "@ + e@),
                PtyWait::Missing => r.0 == ToolTaskStatus::Failed && r.1 is None && (r.2 matches Some(m)
                    && m@ == "wait result missing"@),
            },
    {
        pty_exit_outcome(wait, self.cancel_reason.is_some())
    }
}

/// The state of a piped task's run: whether a cancel was taken in place of
/// the process's exit, and the reason it carried, if any.
#[derive(Debug)]
pub struct PipesLoop {
    pub cancel_seen: bool,
    pub cancel_reason: Option<String>,
}

impl PipesLoop {
    pub fn new() -> (r: PipesLoop)
        ensures
            !r.cancel_seen,
            r.cancel_reason is None,
    {
        PipesLoop { cancel_seen: false, cancel_reason: None }
    }

    /// Whether the run still races the process's exit against a cancel;
    /// after a cancel it only waits for the killed process.
    pub fn awaits_cancel(&self) -> (r: bool)
        ensures
            r == !self.cancel_seen,
    {
        !self.cancel_seen
    }

    /// A cancel came first, with this reason (none when the signal carried
    /// none). The process group is killed and waited for either way; the
    /// reason, if any, is returned to be announced.
    pub fn on_cancel(&mut self, reason: Option<String>) -> (r: Option<String>)
        requires
            !old(self).cancel_seen,
        ensures
            final(self).cancel_seen,
            final(self).cancel_reason == reason,
            r == reason,
    {
        let announced = match &reason {
            Some(s) => Some(s.clone()),
            None => None,
        };
        self.cancel_seen = true;
        self.cancel_reason = reason;
        announced
    }

    /// How the task ended, from the wait result: cancelled exactly when a
    /// cancel carried a reason, with exit code 1 when the killed process
    /// reported none.
    pub fn outcome(&self, wait: Result<Option<i32>, String>) -> (r: (ToolTaskStatus, Option<i32>, Option<String>))
        ensures
            match wait {
                Ok(code) => if self.cancel_reason is Some {
                    r.0 == ToolTaskStatus::Cancelled && r.1 == (match code {
                        Some(c) => Some(c),
                        None => Some(1i32),
                    }) && r.2 is None
                } else {
                    r.0 == ToolTaskStatus::Exited && r.1 == code && r.2 is None
                },
                Err(e) => r.0 == ToolTaskStatus::Failed && r.1 is None && (r.2 matches Some(m) && m@
                    == "wait failed: "@ + e@),
            },
    {
        pipes_exit_outcome(wait, self.cancel_reason.is_some())
    }

    /// The cancelled event the run ends with when a cancel carried a
    /// reason: that reason, and how long the task ran.
    pub fn cancelled_event(&self, ended_at_ms: u64, spawn_time_ms: u64) -> (r: Option<(String, u64)>)
        ensures
            match self.cancel_reason {
                Some(reason) => r matches Some(e) && e.0 == reason && e.1 == (if ended_at_ms >= spawn_time_ms {
                    (ended_at_ms - spawn_time_ms) as u64
                } else {
                    0
                }),
                None => r is None,
            },
    {
        match &self.cancel_reason {
            Some(reason) => Some((reason.clone(), cancel_wall_time_ms(ended_at_ms, spawn_time_ms))),
            None => None,
        }
    }
}

/// The error a task fails with when its process could not be started.
pub fn spawn_failed_error(err: &str) -> (r: String)
    ensures
        r@ == "spawn failed: "@ + err@,
{
    concat2("spawn failed: ", err)
}

} // verus!
