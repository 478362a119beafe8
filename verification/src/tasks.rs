//! Background tasks: their execution modes and statuses as the API reports
//! them, and the checks that task control requests go through.

use vstd::prelude::*;

use crate::kernel::{ToolTaskExecutionMode, ToolTaskStatus};
use crate::paths::{resolve_path, spec_resolve_path};
use crate::task_logs::{base64_decode, spec_base64_decode};
use crate::task_status::{task_limits, TaskEngineConfig};
use crate::text::{
    ascii_lower, ascii_lower_seq, ascii_upper, back_ws, is_ws, skip_ws, ascii_upper_seq, chars_of, concat2, is_blank, owned, slice_eq_str_upper, spec_trim, str_eq, trim_bounds,
};
use vstd::string::StringSliceAdditionalSpecFns;

verus! {

#[derive(Clone, Copy, Debug, PartialEq, Eq, Structural)]
pub enum ApiToolTaskExecutionMode {
    Pipes,
    Pty,
}

#[derive(Clone, Copy, Debug, PartialEq, Eq, Structural)]
pub enum ApiToolTaskStatus {
    Queued,
    Running,
    Exited,
    Cancelled,
    Failed,
}

#[derive(Clone, Copy, Debug, PartialEq, Eq, Structural)]
pub enum TaskOutputStream {
    Stdout,
    Stderr,
    Pty,
}

pub open spec fn api_mode_to_kernel(m: ApiToolTaskExecutionMode) -> ToolTaskExecutionMode {
    match m {
        ApiToolTaskExecutionMode::Pipes => ToolTaskExecutionMode::Pipes,
        ApiToolTaskExecutionMode::Pty => ToolTaskExecutionMode::Pty,
    }
}

pub open spec fn kernel_mode_to_api(m: ToolTaskExecutionMode) -> ApiToolTaskExecutionMode {
    match m {
        ToolTaskExecutionMode::Pipes => ApiToolTaskExecutionMode::Pipes,
        ToolTaskExecutionMode::Pty => ApiToolTaskExecutionMode::Pty,
    }
}

pub open spec fn kernel_status_to_api(s: ToolTaskStatus) -> ApiToolTaskStatus {
    match s {
        ToolTaskStatus::Queued => ApiToolTaskStatus::Queued,
        ToolTaskStatus::Running => ApiToolTaskStatus::Running,
        ToolTaskStatus::Exited => ApiToolTaskStatus::Exited,
        ToolTaskStatus::Cancelled => ApiToolTaskStatus::Cancelled,
        ToolTaskStatus::Failed => ApiToolTaskStatus::Failed,
    }
}

impl From<ApiToolTaskExecutionMode> for ToolTaskExecutionMode {
    fn from(value: ApiToolTaskExecutionMode) -> (r: Self) {
        match value {
            ApiToolTaskExecutionMode::Pipes => ToolTaskExecutionMode::Pipes,
            ApiToolTaskExecutionMode::Pty => ToolTaskExecutionMode::Pty,
        }
    }
}

impl vstd::std_specs::convert::FromSpecImpl<ApiToolTaskExecutionMode> for ToolTaskExecutionMode {
    open spec fn obeys_from_spec() -> bool {
        true
    }

    open spec fn from_spec(v: ApiToolTaskExecutionMode) -> Self {
        api_mode_to_kernel(v)
    }
}

impl From<ToolTaskExecutionMode> for ApiToolTaskExecutionMode {
    fn from(value: ToolTaskExecutionMode) -> (r: Self) {
        match value {
            ToolTaskExecutionMode::Pipes => ApiToolTaskExecutionMode::Pipes,
            ToolTaskExecutionMode::Pty => ApiToolTaskExecutionMode::Pty,
        }
    }
}

impl vstd::std_specs::convert::FromSpecImpl<ToolTaskExecutionMode> for ApiToolTaskExecutionMode {
    open spec fn obeys_from_spec() -> bool {
        true
    }

    open spec fn from_spec(v: ToolTaskExecutionMode) -> Self {
        kernel_mode_to_api(v)
    }
}

impl From<ToolTaskStatus> for ApiToolTaskStatus {
    fn from(value: ToolTaskStatus) -> (r: Self) {
        match value {
            ToolTaskStatus::Queued => ApiToolTaskStatus::Queued,
            ToolTaskStatus::Running => ApiToolTaskStatus::Running,
            ToolTaskStatus::Exited => ApiToolTaskStatus::Exited,
            ToolTaskStatus::Cancelled => ApiToolTaskStatus::Cancelled,
            ToolTaskStatus::Failed => ApiToolTaskStatus::Failed,
        }
    }
}

impl vstd::std_specs::convert::FromSpecImpl<ToolTaskStatus> for ApiToolTaskStatus {
    open spec fn obeys_from_spec() -> bool {
        true
    }

    open spec fn from_spec(v: ToolTaskStatus) -> Self {
        kernel_status_to_api(v)
    }
}

/// The API's execution modes and the runtime's are the same two modes:
/// converting one way and back gives the mode one started with.
pub proof fn lemma_mode_conversions_round_trip(a: ApiToolTaskExecutionMode, k: ToolTaskExecutionMode)
    ensures
        kernel_mode_to_api(api_mode_to_kernel(a)) == a,
        api_mode_to_kernel(kernel_mode_to_api(k)) == k,
{
}

/// The mode a task runs in: pipes unless the request asks otherwise.
pub fn requested_mode(execution_mode: Option<ApiToolTaskExecutionMode>) -> (r: ToolTaskExecutionMode)
    ensures
        r == match execution_mode {
            Some(m) => api_mode_to_kernel(m),
            None => ToolTaskExecutionMode::Pipes,
        },
{
    match execution_mode {
        Some(m) => ToolTaskExecutionMode::from(m),
        None => ToolTaskExecutionMode::Pipes,
    }
}

/// Whether the API accepts a task spawn request: only `bash` and `shell`
/// tasks, and pseudo-terminal tasks only when the server allows them.
pub open spec fn spec_admit_task_spawn(
    execution_mode: Option<ApiToolTaskExecutionMode>,
    tool: Seq<char>,
    allow_pty_tasks: bool,
) -> bool {
    let mode = match execution_mode {
        Some(m) => m,
        None => ApiToolTaskExecutionMode::Pipes,
    };
    !(mode == ApiToolTaskExecutionMode::Pty && !allow_pty_tasks) && (tool == "bash"@ || tool == "shell"@)
}

pub fn admit_task_spawn(execution_mode: Option<ApiToolTaskExecutionMode>, tool: &str, allow_pty_tasks: bool) -> (r:
    bool)
    ensures
        r == spec_admit_task_spawn(execution_mode, tool@, allow_pty_tasks),
{
    let mode = match execution_mode {
        Some(m) => m,
        None => ApiToolTaskExecutionMode::Pipes,
    };
    if mode == ApiToolTaskExecutionMode::Pty && !allow_pty_tasks {
        return false;
    }
    str_eq(tool, "bash") || str_eq(tool, "shell")
}

/// The task engine runs only shell tasks; any other tool fails the task with this error.
pub fn check_task_tool(tool: &str) -> (r: Result<(), String>)
    ensures
        r is Ok <==> (tool@ == "bash"@ || tool@ == "shell"@),
        r matches Err(m) ==> m@ == "unsupported tool for task_spawn: "@ + tool@,
{
    if !str_eq(tool, "bash") && !str_eq(tool, "shell") {
        return Err(concat2("unsupported tool for task_spawn: ", tool));
    }
    Ok(())
}

/// The program and arguments that run a shell command: `bash -c <command>`.
pub fn resolve_shell_program(command: &str) -> (r: (String, Vec<String>))
    ensures
        r.0@ == "bash"@,
        r.1@.len() == 2,
        r.1@[0]@ == "-c"@,
        r.1@[1]@ == command@,
{
    let mut args: Vec<String> = Vec::new();
    args.push(owned("-c"));
    args.push(owned(command));
    (owned("bash"), args)
}

/// A shell task's arguments, as far as its start reads them.
#[derive(Debug)]
pub struct TaskArgs {
    pub command: String,
    pub cwd: Option<String>,
    pub artifact_max_bytes: Option<usize>,
    pub max_bytes: Option<usize>,
}

/// The next thing a task's start does.
#[derive(Debug)]
pub enum StartAction {
    /// Fail the task with this error; nothing further is made or started.
    Fail(String),
    /// Create the artifacts directory, then report whether that worked.
    CreateArtifactsDir,
    /// Announce the spawn with these limits, then run the process.
    Spawn { artifact_max_bytes: usize, max_bytes: usize },
}

/// The first step of a task's start, from its tool and how its arguments
/// parsed (the parse error's text when they did not): a tool other than
/// `bash` or `shell`, or arguments that did not parse, fail the task here,
/// before any directory is made, any spawn announced or any process run.
pub fn begin_task_start(tool: &str, args: &Result<TaskArgs, String>) -> (r: StartAction)
    ensures
        !(tool@ == "bash"@ || tool@ == "shell"@) ==> (r matches StartAction::Fail(m) && m@
            == "unsupported tool for task_spawn: "@ + tool@),
        (tool@ == "bash"@ || tool@ == "shell"@) ==> match args {
            Err(e) => r matches StartAction::Fail(m) && m@ == "invalid args: "@ + e@,
            Ok(_) => r is CreateArtifactsDir,
        },
{
    match check_task_tool(tool) {
        Err(e) => StartAction::Fail(e),
        Ok(()) => match args {
            Err(e) => StartAction::Fail(concat2("invalid args: ", e.as_str())),
            Ok(_) => StartAction::CreateArtifactsDir,
        },
    }
}

/// The step after the artifacts directory was made, or failed to be: the
/// task fails when it could not be made; otherwise the spawn is announced
/// with the task's limits, its own where its arguments set them.
pub fn after_artifacts_dir(created: bool, args: &TaskArgs, config: &TaskEngineConfig) -> (r: StartAction)
    ensures
        !created ==> (r matches StartAction::Fail(m) && m@ == "failed to create artifacts dir"@),
        created ==> (r matches StartAction::Spawn { artifact_max_bytes, max_bytes } && artifact_max_bytes == (
        match args.artifact_max_bytes {
            Some(n) => n,
            None => config.artifact_max_bytes,
        }) && max_bytes == (match args.max_bytes {
            Some(n) => n,
            None => config.max_bytes,
        })),
{
    if !created {
        return StartAction::Fail(owned("failed to create artifacts dir"));
    }
    let (artifact_max_bytes, max_bytes) = task_limits(args.artifact_max_bytes, args.max_bytes, config);
    StartAction::Spawn { artifact_max_bytes, max_bytes }
}

/// How a started task's process is launched: `bash -c <command>`, in the
/// workspace directory its `cwd` names. A `cwd` that is absolute or climbs
/// out of the workspace fails the task with the path's error, and no process
/// runs.
pub fn task_launch(workspace_root: &str, args: &TaskArgs) -> (r: Result<(String, Vec<String>, Option<String>), String>)
    ensures
        match args.cwd {
            None => r matches Ok(l) && l.2 is None,
            Some(c) => match spec_resolve_path(workspace_root@, c@) {
                Ok(p) => r matches Ok(l) && (l.2 matches Some(d) && d@ == p),
                Err(e) => r matches Err(m) && m@ == e,
            },
        },
        r matches Ok(l) ==> {
            &&& l.0@ == "bash"@
            &&& l.1@.len() == 2
            &&& l.1@[0]@ == "-c"@
            &&& l.1@[1]@ == args.command@
        },
{
    let dir = match &args.cwd {
        Some(c) => match resolve_path(workspace_root, c.as_str()) {
            Ok(p) => Some(p),
            Err(e) => return Err(e),
        },
        None => None,
    };
    let (program, program_args) = resolve_shell_program(args.command.as_str());
    Ok((program, program_args, dir))
}

/// What a signal request does to a pseudo-terminal task.
#[derive(Clone, Copy, Debug, PartialEq, Eq, Structural)]
pub enum SignalAction {
    /// Sends Ctrl-C to the terminal.
    CtrlC,
    /// Sends Ctrl-\ to the terminal.
    CtrlBackslash,
    /// Kills the process.
    Kill,
}

/// The signal's name once trimmed, upper-cased and stripped of a `SIG`
/// prefix; none for a blank request.
pub open spec fn signal_base_name(signal: Seq<char>) -> Option<Seq<char>> {
    let raw = spec_trim(signal);
    let up = ascii_upper_seq(raw);
    if raw.len() == 0 {
        None
    } else if up.len() >= 3 && up.subrange(0, 3) == "SIG"@ {
        Some(up.subrange(3, up.len() as int))
    } else {
        Some(up)
    }
}

pub open spec fn spec_normalize_signal(signal: Seq<char>) -> Option<SignalAction> {
    match signal_base_name(signal) {
        None => None,
        Some(n) => if n == "INT"@ {
            Some(SignalAction::CtrlC)
        } else if n == "QUIT"@ {
            Some(SignalAction::CtrlBackslash)
        } else if n == "TERM"@ || n == "HUP"@ || n == "KILL"@ {
            Some(SignalAction::Kill)
        } else {
            None
        },
    }
}

pub fn normalize_signal(signal: &str) -> (r: Option<SignalAction>)
    ensures
        r == spec_normalize_signal(signal@),
{
    let chars = chars_of(signal);
    let (a, b) = trim_bounds(&chars);
    if a == b {
        return None;
    }
    let ghost raw = chars@.subrange(a as int, b as int);
    let ghost up = ascii_upper_seq(raw);
    let prefixed = b - a >= 3 && slice_eq_str_upper(&chars, a, a + 3, "SIG");
    proof {
        if b - a >= 3 {
            assert(up.subrange(0, 3) =~= ascii_upper_seq(chars@.subrange(a as int, a + 3)));
        }
    }
    let start = if prefixed {
        a + 3
    } else {
        a
    };
    proof {
        if prefixed {
            assert(up.subrange(3, up.len() as int) =~= ascii_upper_seq(chars@.subrange(start as int, b as int)));
        } else {
            assert(up =~= ascii_upper_seq(chars@.subrange(start as int, b as int)));
        }
    }
    if slice_eq_str_upper(&chars, start, b, "INT") {
        Some(SignalAction::CtrlC)
    } else if slice_eq_str_upper(&chars, start, b, "QUIT") {
        Some(SignalAction::CtrlBackslash)
    } else if slice_eq_str_upper(&chars, start, b, "TERM") || slice_eq_str_upper(&chars, start, b, "HUP")
        || slice_eq_str_upper(&chars, start, b, "KILL") {
        Some(SignalAction::Kill)
    } else {
        None
    }
}

proof fn lemma_lower_keeps_ws(s: Seq<char>, t: Seq<char>)
    requires
        t == ascii_lower_seq(s),
    ensures
        forall|i: int| 0 <= i < s.len() ==> (is_ws(#[trigger] t[i]) <==> is_ws(s[i])),
        forall|i: int| 0 <= i < s.len() ==> ascii_upper(#[trigger] t[i]) == ascii_upper(s[i]),
{
}

proof fn lemma_skip_ws_lower(s: Seq<char>, t: Seq<char>, i: int)
    requires
        t == ascii_lower_seq(s),
    ensures
        skip_ws(t, i) == skip_ws(s, i),
    decreases s.len() - i,
{
    lemma_lower_keeps_ws(s, t);
    if 0 <= i < s.len() && is_ws(s[i]) {
        lemma_skip_ws_lower(s, t, i + 1);
    }
}

proof fn lemma_back_ws_lower(s: Seq<char>, t: Seq<char>, j: int, lo: int)
    requires
        t == ascii_lower_seq(s),
        0 <= lo,
    ensures
        back_ws(t, j, lo) == back_ws(s, j, lo),
    decreases j - lo,
{
    lemma_lower_keeps_ws(s, t);
    if lo < j && j <= s.len() && is_ws(s[j - 1]) {
        lemma_back_ws_lower(s, t, j - 1, lo);
    }
}

/// Signal names are read without regard to ASCII case: a request and its
/// lower-cased form ask for the same action.
pub proof fn lemma_signal_case_insensitive(signal: Seq<char>)
    ensures
        spec_normalize_signal(ascii_lower_seq(signal)) == spec_normalize_signal(signal),
{
    let t = ascii_lower_seq(signal);
    lemma_lower_keeps_ws(signal, t);
    lemma_skip_ws_lower(signal, t, 0);
    let a = skip_ws(signal, 0);
    crate::text::lemma_skip_ws_bounds(signal, 0);
    lemma_back_ws_lower(signal, t, signal.len() as int, a);
    let raw = spec_trim(signal);
    let raw_t = spec_trim(t);
    crate::text::lemma_skip_ws_bounds(signal, 0);
    crate::text::lemma_back_ws_bounds(signal, signal.len() as int, a);
    assert(raw_t.len() == raw.len());
    assert(ascii_upper_seq(raw_t) =~= ascii_upper_seq(raw)) by {
        assert forall|i: int| 0 <= i < raw.len() implies ascii_upper_seq(raw_t)[i] == ascii_upper_seq(raw)[i] by {
            assert(raw_t[i] == t[a + i]);
            assert(raw[i] == signal[a + i]);
        }
    }
}

/// The largest stdin chunk a task accepts at once.
pub const STDIN_WRITE_MAX_BYTES: usize = 8192;

/// The checks on a stdin write before it reaches the task: only
/// pseudo-terminal tasks take stdin, the chunk must be valid base64, and it
/// may not decode to more than 8 KiB.
pub open spec fn spec_check_write_stdin(mode: ApiToolTaskExecutionMode, chunk_b64: Seq<u8>) -> Result<Seq<u8>, Seq<char>> {
    if mode != ApiToolTaskExecutionMode::Pty {
        Err("write_stdin is only supported for pty tasks"@)
    } else {
        match spec_base64_decode(chunk_b64) {
            Err(e) => Err(e),
            Ok(bytes) => if bytes.len() > 8192 {
                Err("stdin chunk too large (max 8192 bytes)"@)
            } else {
                Ok(bytes)
            },
        }
    }
}

pub fn check_write_stdin(mode: ApiToolTaskExecutionMode, chunk_b64: &str) -> (r: Result<Vec<u8>, String>)
    ensures
        match spec_check_write_stdin(mode, chunk_b64.spec_bytes()) {
            Ok(b) => (r matches Ok(v) && v@ == b),
            Err(e) => (r matches Err(m) && m@ == e),
        },
{
    if mode != ApiToolTaskExecutionMode::Pty {
        return Err(owned("write_stdin is only supported for pty tasks"));
    }
    let bytes = base64_decode(chunk_b64)?;
    if bytes.len() > STDIN_WRITE_MAX_BYTES {
        return Err(owned("stdin chunk too large (max 8192 bytes)"));
    }
    Ok(bytes)
}

/// The checks on a resize request: only pseudo-terminal tasks, and both
/// dimensions positive.
pub fn check_resize(mode: ApiToolTaskExecutionMode, rows: u16, cols: u16) -> (r: Result<(), String>)
    ensures
        mode != ApiToolTaskExecutionMode::Pty ==> (r matches Err(m) && m@
            == "resize is only supported for pty tasks"@),
        mode == ApiToolTaskExecutionMode::Pty && (rows == 0 || cols == 0) ==> (r matches Err(m) && m@
            == "rows and cols must be > 0"@),
        mode == ApiToolTaskExecutionMode::Pty && rows > 0 && cols > 0 ==> r is Ok,
{
    if mode != ApiToolTaskExecutionMode::Pty {
        return Err(owned("resize is only supported for pty tasks"));
    }
    if rows == 0 || cols == 0 {
        return Err(owned("rows and cols must be > 0"));
    }
    Ok(())
}

/// The checks on a signal request: only pseudo-terminal tasks, a non-blank
/// signal, and one of INT, QUIT, TERM, HUP or KILL (any case, `SIG` prefix optional).
pub open spec fn spec_check_signal(mode: ApiToolTaskExecutionMode, signal: Seq<char>) -> Result<(), Seq<char>> {
    if mode != ApiToolTaskExecutionMode::Pty {
        Err("signal is only supported for pty tasks"@)
    } else if is_blank(signal) {
        Err("signal must be non-empty"@)
    } else {
        match signal_base_name(signal) {
            Some(n) => if n == "INT"@ || n == "QUIT"@ || n == "TERM"@ || n == "HUP"@ || n == "KILL"@ {
                Ok(())
            } else {
                Err("unsupported signal"@)
            },
            None => Err("unsupported signal"@),
        }
    }
}

pub fn check_signal(mode: ApiToolTaskExecutionMode, signal: &str) -> (r: Result<(), String>)
    ensures
        match spec_check_signal(mode, signal@) {
            Ok(()) => r is Ok,
            Err(e) => (r matches Err(m) && m@ == e),
        },
{
    if mode != ApiToolTaskExecutionMode::Pty {
        return Err(owned("signal is only supported for pty tasks"));
    }
    if crate::text::is_blank_str(signal) {
        return Err(owned("signal must be non-empty"));
    }
    match normalize_signal(signal) {
        Some(_) => Ok(()),
        None => Err(owned("unsupported signal")),
    }
}

/// A signal request that a pseudo-terminal task accepts is exactly one that
/// the task can carry out.
pub proof fn lemma_accepted_signals_are_actionable(signal: Seq<char>)
    ensures
        spec_check_signal(ApiToolTaskExecutionMode::Pty, signal) is Ok <==> spec_normalize_signal(signal) is Some,
{
}

/// How a piped task ended, from the wait result (an exit code if the process
/// reported one, or the wait error) and whether it was cancelled.
pub fn pipes_exit_outcome(wait: Result<Option<i32>, String>, cancelled: bool) -> (r: (
    ToolTaskStatus,
    Option<i32>,
    Option<String>,
))
    ensures
        match wait {
            Ok(code) => if cancelled {
                r.0 == ToolTaskStatus::Cancelled && r.1 == (match code {
                    Some(c) => Some(c),
                    None => Some(1i32),
                }) && r.2 is None
            } else {
                r.0 == ToolTaskStatus::Exited && r.1 == code && r.2 is None
            },
            Err(e) => r.0 == ToolTaskStatus::Failed && r.1 is None && (r.2 matches Some(m) && m@
                == "wait failed: "@ + e@),
        },
{
    match wait {
        Ok(code) => {
            if cancelled {
                let c = match code {
                    Some(c) => Some(c),
                    None => Some(1i32),
                };
                (ToolTaskStatus::Cancelled, c, None)
            } else {
                (ToolTaskStatus::Exited, code, None)
            }
        },
        Err(err) => (ToolTaskStatus::Failed, None, Some(concat2("wait failed: ", err.as_str()))),
    }
}

/// How the wait on a pseudo-terminal task came back.
#[derive(Debug)]
pub enum PtyWait {
    /// The process exited with this code.
    Exited(u32),
    /// Waiting for the process failed.
    WaitFailed(String),
    /// The waiting thread could not be joined.
    JoinFailed(String),
    /// The task ended without a wait result.
    Missing,
}

/// How a pseudo-terminal task ended.
pub fn pty_exit_outcome(wait: PtyWait, cancelled: bool) -> (r: (ToolTaskStatus, Option<i32>, Option<String>))
    ensures
        match wait {
            PtyWait::Exited(code) => r.0 == (if cancelled {
                ToolTaskStatus::Cancelled
            } else {
                ToolTaskStatus::Exited
            }) && r.1 == Some(code as i32) && r.2 is None,
            PtyWait::WaitFailed(e) => r.0 == ToolTaskStatus::Failed && r.1 is None && (r.2 matches Some(m)
                && m@ == "wait failed: "@ + e@),
            PtyWait::JoinFailed(e) => r.0 == ToolTaskStatus::Failed && r.1 is None && (r.2 matches Some(m)
                && m@ == "wait join failed: "@ + e@),
            PtyWait::Missing => r.0 == ToolTaskStatus::Failed && r.1 is None && (r.2 matches Some(m) && m@
                == "wait result missing"@),
        },
{
    match wait {
        PtyWait::Exited(code) => {
            let c = code as i32;
            if cancelled {
                (ToolTaskStatus::Cancelled, Some(c), None)
            } else {
                (ToolTaskStatus::Exited, Some(c), None)
            }
        },
        PtyWait::WaitFailed(err) => (ToolTaskStatus::Failed, None, Some(concat2("wait failed: ", err.as_str()))),
        PtyWait::JoinFailed(err) => (
            ToolTaskStatus::Failed,
            None,
            Some(concat2("wait join failed: ", err.as_str())),
        ),
        PtyWait::Missing => (ToolTaskStatus::Failed, None, Some(owned("wait result missing"))),
    }
}

/// The most output a single output event previews.
pub const OUTPUT_EVENT_MAX_BYTES: usize = 8192;

/// The preview limit for output events: the task's limit, capped at 8 KiB.
pub fn preview_limit(max_bytes: usize) -> (r: usize)
    ensures
        r == (if max_bytes < 8192 {
            max_bytes
        } else {
            8192
        }),
{
    if max_bytes < OUTPUT_EVENT_MAX_BYTES {
        max_bytes
    } else {
        OUTPUT_EVENT_MAX_BYTES
    }
}

/// What a signal request does follows its name alone, once trimmed,
/// upper-cased and stripped of a `SIG` prefix: `TERM`, `HUP` and `KILL` kill
/// the process, `INT` and only `INT` types Ctrl-C, `QUIT` and only `QUIT`
/// types Ctrl-\, and every other name is refused.
pub proof fn lemma_signal_actions_follow_the_name(signal: Seq<char>)
    ensures
        spec_normalize_signal(signal) == Some(SignalAction::Kill) <==> (signal_base_name(signal) == Some("TERM"@)
            || signal_base_name(signal) == Some("HUP"@) || signal_base_name(signal) == Some("KILL"@)),
        spec_normalize_signal(signal) == Some(SignalAction::CtrlC) <==> signal_base_name(signal) == Some("INT"@),
        spec_normalize_signal(signal) == Some(SignalAction::CtrlBackslash) <==> signal_base_name(signal) == Some(
            "QUIT"@,
        ),
        spec_normalize_signal(signal) is None <==> !(signal_base_name(signal) == Some("TERM"@) || signal_base_name(
            signal,
        ) == Some("HUP"@) || signal_base_name(signal) == Some("KILL"@) || signal_base_name(signal) == Some("INT"@)
            || signal_base_name(signal) == Some("QUIT"@)),
{
    reveal_strlit("TERM");
    reveal_strlit("HUP");
    reveal_strlit("KILL");
    reveal_strlit("INT");
    reveal_strlit("QUIT");
    assert("TERM"@[0] == 'T' && "HUP"@[0] == 'H' && "KILL"@[0] == 'K' && "INT"@[0] == 'I' && "QUIT"@[0] == 'Q');
    assert("TERM"@ != "INT"@ && "TERM"@ != "QUIT"@ && "HUP"@ != "INT"@ && "HUP"@ != "QUIT"@);
    assert("KILL"@ != "INT"@ && "KILL"@ != "QUIT"@ && "INT"@ != "QUIT"@);
}

} // verus!
