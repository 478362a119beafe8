//! What a session's input asks for, and how a finished session reports why
//! it ended.

use vstd::prelude::*;

use crate::agent::{requires_workspace_lock, spec_requires_workspace_lock};
use crate::json::{Json, JsonView, ObjectBuilder};
use crate::kernel::{EventKindView, KernelEvent, KernelEventKind};
use crate::provider::opt_chars;
use crate::streaming::event_kinds;
use crate::text::{chars_of, owned, spec_trim, str_eq, trim_to_string};

verus! {

/// A direct tool run asked for by the input.
#[derive(Debug)]
pub struct ToolCommand {
    pub tool: String,
    pub args: Json,
    pub timeout_ms: Option<u64>,
}

/// A checkpoint operation asked for by the input.
#[derive(Debug)]
pub enum CheckpointCommand {
    Create { label: String, files: Vec<String> },
    Rewind { id: String },
}

/// What a session does with its input.
#[derive(Debug)]
pub enum InputAction {
    Tool(ToolCommand),
    Checkpoint(CheckpointCommand),
    Prompt,
}

/// The part of an input that may be a command: the trimmed input, when it
/// starts with `{`.
pub open spec fn spec_command_text(input: Seq<char>) -> Option<Seq<char>> {
    let t = spec_trim(input);
    if t.len() > 0 && t[0] == '{' {
        Some(t)
    } else {
        None
    }
}

pub fn command_text(input: &str) -> (r: Option<String>)
    ensures
        opt_chars(r) == spec_command_text(input@),
{
    let t = trim_to_string(input);
    let chars = chars_of(t.as_str());
    if chars.len() > 0 && chars[0] == '{' {
        Some(t)
    } else {
        None
    }
}

/// Decides what an input asks for. `as_checkpoint` and `as_tool` are the
/// input's command text read as a checkpoint envelope and as a tool command,
/// where it reads as one. A command text is a checkpoint command first, a
/// tool command next; any other input is a prompt.
pub fn parse_action(input: &str, as_checkpoint: Option<CheckpointCommand>, as_tool: Option<ToolCommand>) -> (r:
    InputAction)
    ensures
        spec_command_text(input@) is None ==> r is Prompt,
        spec_command_text(input@) is Some ==> r == (match as_checkpoint {
            Some(c) => InputAction::Checkpoint(c),
            None => match as_tool {
                Some(t) => InputAction::Tool(t),
                None => InputAction::Prompt,
            },
        }),
{
    if command_text(input).is_none() {
        return InputAction::Prompt;
    }
    match as_checkpoint {
        Some(c) => InputAction::Checkpoint(c),
        None => match as_tool {
            Some(t) => InputAction::Tool(t),
            None => InputAction::Prompt,
        },
    }
}

/// How a session carries out its input.
#[derive(Clone, Copy, Debug, PartialEq, Eq, Structural)]
pub enum SessionPlan {
    /// Run the tool, under the workspace lock when `locked`; the run's side
    /// effects go to the continuity when `record_side_effects`.
    RunTool { locked: bool, record_side_effects: bool },
    /// Create or rewind a checkpoint, always under the workspace lock.
    Checkpoint,
    /// Answer the prompt through the provider loop, first compiling the
    /// continuity's context when the run belongs to one.
    ProviderRun { compile_context: bool },
    /// Let the runtime answer on its own.
    RuntimeOnly,
}

pub open spec fn spec_session_plan(action: InputAction, provider_configured: bool, in_continuity: bool) -> SessionPlan {
    match action {
        InputAction::Tool(command) => {
            let locked = spec_requires_workspace_lock(command.tool@);
            SessionPlan::RunTool { locked, record_side_effects: locked && in_continuity }
        },
        InputAction::Checkpoint(_) => SessionPlan::Checkpoint,
        InputAction::Prompt => if provider_configured {
            SessionPlan::ProviderRun { compile_context: in_continuity }
        } else {
            SessionPlan::RuntimeOnly
        },
    }
}

/// Plans a session from its input's action, whether a provider is
/// configured, and whether the run belongs to a continuity. Side effects of
/// a tool run are recorded only for tools that take the workspace lock.
pub fn session_plan(action: &InputAction, provider_configured: bool, in_continuity: bool) -> (r: SessionPlan)
    ensures
        r == spec_session_plan(*action, provider_configured, in_continuity),
{
    match action {
        InputAction::Tool(command) => {
            let locked = requires_workspace_lock(command.tool.as_str());
            SessionPlan::RunTool { locked, record_side_effects: locked && in_continuity }
        },
        InputAction::Checkpoint(_) => SessionPlan::Checkpoint,
        InputAction::Prompt => if provider_configured {
            SessionPlan::ProviderRun { compile_context: in_continuity }
        } else {
            SessionPlan::RuntimeOnly
        },
    }
}

/// The end of a provider run whose continuity context could not be
/// compiled: the session ends at once with `context_compile_failed` and the
/// provider loop does not run; after a successful compile nothing ends.
pub fn session_end_after_compile(compiled: bool) -> (r: Option<KernelEventKind>)
    ensures
        compiled ==> r is None,
        !compiled ==> (r matches Some(k) && k@ == EventKindView::SessionEnded { reason: "context_compile_failed"@ }),
{
    if compiled {
        None
    } else {
        Some(KernelEventKind::SessionEnded { reason: owned("context_compile_failed") })
    }
}

/// The provider cursor a finished provider run leaves on its continuity:
/// the last response id, as `previous_response_id`, when the run completed
/// within a continuity and the provider named a response.
pub open spec fn spec_cursor_update(reason: Seq<char>, in_continuity: bool, last_response_id: Option<Seq<char>>) -> Option<
    JsonView,
> {
    if reason == "completed"@ && in_continuity && last_response_id is Some {
        Some(JsonView::Object(seq![("previous_response_id"@, JsonView::Str(last_response_id->0))]))
    } else {
        None
    }
}

pub fn cursor_update(reason: &str, in_continuity: bool, last_response_id: Option<&str>) -> (r: Option<Json>)
    ensures
        (match r {
            Some(j) => Some(j@),
            None => None,
        }) == spec_cursor_update(
            reason@,
            in_continuity,
            match last_response_id {
                Some(id) => Some(id@),
                None => None,
            },
        ),
{
    if !(str_eq(reason, "completed") && in_continuity) {
        return None;
    }
    match last_response_id {
        Some(id) => {
            let mut obj = ObjectBuilder::new();
            obj.insert("previous_response_id", Json::string(id));
            let ghost ms = obj.spec_members();
            let built = obj.build();
            assert(ms =~= seq![("previous_response_id"@, JsonView::Str(id@))]);
            Some(built)
        },
        None => None,
    }
}

/// The reason of the last session end among the events.
pub open spec fn last_session_end(ks: Seq<EventKindView>) -> Option<Seq<char>>
    decreases ks.len(),
{
    if ks.len() == 0 {
        None
    } else {
        match ks.last() {
            EventKindView::SessionEnded { reason } => Some(reason),
            _ => last_session_end(ks.drop_last()),
        }
    }
}

/// Why a session ended: the reason of its last end event, or `unknown`.
pub fn session_end_reason(events: &[KernelEvent]) -> (r: String)
    ensures
        r@ == (match last_session_end(event_kinds(events@)) {
            Some(reason) => reason,
            None => "unknown"@,
        }),
{
    let ghost ks = event_kinds(events@);
    let mut i: usize = events.len();
    assert(ks.subrange(0, i as int) =~= ks);
    while i > 0
        invariant
            i <= events@.len(),
            ks == event_kinds(events@),
            last_session_end(ks) == last_session_end(ks.subrange(0, i as int)),
        decreases i,
    {
        i = i - 1;
        assert(ks.subrange(0, i + 1).last() == events@[i as int].kind@);
        assert(ks.subrange(0, i + 1).drop_last() =~= ks.subrange(0, i as int));
        match &events[i].kind {
            KernelEventKind::SessionEnded { reason } => {
                return reason.clone();
            },
            _ => {},
        }
    }
    owned("unknown")
}

/// A prompt goes to the provider loop exactly when a provider is configured,
/// whether or not the run belongs to a continuity; belonging to one only
/// decides whether the continuity's context is compiled first. Without a
/// provider the runtime answers on its own.
pub proof fn lemma_prompt_goes_to_the_configured_provider(provider_configured: bool, in_continuity: bool)
    ensures
        spec_session_plan(InputAction::Prompt, provider_configured, in_continuity) is ProviderRun
            <==> provider_configured,
        spec_session_plan(InputAction::Prompt, provider_configured, in_continuity) matches SessionPlan::ProviderRun {
            compile_context,
        } ==> compile_context == in_continuity,
        !provider_configured ==> spec_session_plan(InputAction::Prompt, provider_configured, in_continuity)
            == SessionPlan::RuntimeOnly,
        (spec_session_plan(InputAction::Prompt, provider_configured, true) is ProviderRun) == (spec_session_plan(
            InputAction::Prompt,
            provider_configured,
            false,
        ) is ProviderRun),
{
}

} // verus!
