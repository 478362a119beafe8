//! The decisions of the agent loop that drives a provider through rounds of
//! function calls: which request goes out next, when a round ends the run,
//! which calls may run, and what the provider hears back.

use vstd::prelude::*;

use crate::ids::{is_uuid_text, new_event_id, now_ms};
use crate::json::{Json, JsonView};
use crate::kernel::{EventKindView, KernelEvent, KernelEventKind};
use crate::streaming::{
    calls_view, calls_with_index, function_call_item_from_call, function_call_item_view, function_call_output_item,
    function_call_output_view, sorted_by_index, CallView, CollectorView, FunctionCallItem, ItemParam,
    ToolCallCollector, user_message_view,
};
use crate::text::{concat2, owned, str_eq};
use crate::tool_choice::{parse_json_text, serde_json_from_str, spec_allows, ToolChoiceEnforcement};

verus! {

/// The most function calls one run may make.
pub const DEFAULT_MAX_TOOL_CALLS: u64 = 32;

/// Tools that change the workspace run under the workspace lock; the
/// read-only ones do not.
pub open spec fn spec_requires_workspace_lock(tool_name: Seq<char>) -> bool {
    !(tool_name == "read"@ || tool_name == "ls"@ || tool_name == "grep"@ || tool_name == "artifact_fetch"@)
}

pub fn requires_workspace_lock(tool_name: &str) -> (r: bool)
    ensures
        r == spec_requires_workspace_lock(tool_name@),
{
    !(str_eq(tool_name, "read") || str_eq(tool_name, "ls") || str_eq(tool_name, "grep") || str_eq(
        tool_name,
        "artifact_fetch",
    ))
}

/// A tool run as requested.
#[derive(Debug)]
pub struct ToolInvocation {
    pub name: String,
    pub args: Json,
    pub timeout_ms: Option<u64>,
}

/// The arguments of a function call as JSON: the parsed text, or the text
/// itself when it does not parse.
pub open spec fn call_arguments_view(arguments: Seq<char>) -> JsonView {
    match serde_json_from_str(arguments) {
        Ok(v) => v,
        Err(_) => JsonView::Str(arguments),
    }
}

pub fn call_arguments_value(arguments: &str) -> (r: Json)
    ensures
        r@ == call_arguments_view(arguments@),
{
    match parse_json_text(arguments) {
        Ok(v) => v,
        Err(_) => Json::string(arguments),
    }
}

/// The tool run a function call asks for.
pub fn invocation_for_call(call: &FunctionCallItem) -> (r: ToolInvocation)
    ensures
        r.name@ == call.name@,
        r.args@ == call_arguments_view(call.arguments@),
        r.timeout_ms is None,
{
    ToolInvocation { name: call.name.clone(), args: call_arguments_value(call.arguments.as_str()), timeout_ms: None }
}

/// The id given to a tool run that `tool_choice` refused.
pub open spec fn denied_tool_id(call_id: Seq<char>) -> Seq<char> {
    "tool_denied_"@ + call_id
}

/// The two events that record a refused function call: a start and a
/// failure of a tool run that never ran, numbered from `seq` on.
pub fn rejected_tool_invocation_events(
    session_id: &str,
    seq: &mut u64,
    invocation: &ToolInvocation,
    call_id: &str,
    error: &str,
) -> (r: Vec<KernelEvent>)
    requires
        *old(seq) <= u64::MAX - 2,
    ensures
        *final(seq) == *old(seq) + 2,
        r@.len() == 2,
        r@[0].session_id@ == session_id@,
        r@[1].session_id@ == session_id@,
        is_uuid_text(r@[0].id@),
        is_uuid_text(r@[1].id@),
        r@[0].seq == *old(seq),
        r@[1].seq == *old(seq) + 1,
        r@[0].kind@ == (EventKindView::ToolStarted {
            tool_id: denied_tool_id(call_id@),
            name: invocation.name@,
            args: invocation.args@,
            timeout_ms: invocation.timeout_ms,
        }),
        r@[1].kind@ == (EventKindView::ToolFailed { tool_id: denied_tool_id(call_id@), error: error@ }),
{
    let tool_id = concat2("tool_denied_", call_id);
    let started = KernelEvent {
        id: new_event_id(),
        session_id: owned(session_id),
        timestamp_ms: now_ms(),
        seq: *seq,
        kind: KernelEventKind::ToolStarted {
            tool_id: tool_id.clone(),
            name: invocation.name.clone(),
            args: invocation.args.copied(),
            timeout_ms: invocation.timeout_ms,
        },
    };
    *seq = *seq + 1;
    let failed = KernelEvent {
        id: new_event_id(),
        session_id: owned(session_id),
        timestamp_ms: now_ms(),
        seq: *seq,
        kind: KernelEventKind::ToolFailed { tool_id, error: owned(error) },
    };
    *seq = *seq + 1;
    let mut events: Vec<KernelEvent> = Vec::new();
    events.push(started);
    events.push(failed);
    events
}

/// The kinds of request the loop sends.
#[derive(Clone, Copy, Debug, PartialEq, Eq, Structural)]
pub enum RequestKind {
    /// Tool outputs, sent with the whole conversation so far.
    FollowupStatelessHistory,
    /// Tool outputs, sent against the previous response.
    Followup,
    /// The items the run started from.
    InitialItems,
    /// The conversation so far.
    StatelessHistory,
    /// The prompt alone.
    Prompt,
}

pub open spec fn request_kind_name(kind: RequestKind) -> Seq<char> {
    match kind {
        RequestKind::FollowupStatelessHistory => "followup_stateless_history"@,
        RequestKind::Followup => "followup"@,
        RequestKind::InitialItems => "initial_items"@,
        RequestKind::StatelessHistory => "stateless_history"@,
        RequestKind::Prompt => "prompt"@,
    }
}

impl RequestKind {
    pub fn as_str(&self) -> (r: &'static str)
        ensures
            r@ == request_kind_name(*self),
    {
        match self {
            RequestKind::FollowupStatelessHistory => "followup_stateless_history",
            RequestKind::Followup => "followup",
            RequestKind::InitialItems => "initial_items",
            RequestKind::StatelessHistory => "stateless_history",
            RequestKind::Prompt => "prompt",
        }
    }
}

/// The JSON of each item, in order.
pub open spec fn items_json(s: Seq<ItemParam>) -> Seq<JsonView> {
    s.map_values(|i: ItemParam| i.value@)
}

pub open spec fn opt_items_json(o: Option<Vec<ItemParam>>) -> Option<Seq<JsonView>> {
    match o {
        Some(v) => Some(items_json(v@)),
        None => None,
    }
}

/// The input of a followup request: the items it carries, then a user
/// message with the configured followup text when there is one.
pub open spec fn spec_followup_input(items: Seq<JsonView>, followup_user_message: Option<Seq<char>>) -> Seq<JsonView> {
    match followup_user_message {
        Some(m) => items.push(user_message_view(m)),
        None => items,
    }
}

pub fn followup_input_items(items: Vec<ItemParam>, followup_user_message: Option<&str>) -> (r: Vec<ItemParam>)
    ensures
        items_json(r@) == spec_followup_input(
            items_json(items@),
            match followup_user_message {
                Some(m) => Some(m@),
                None => None,
            },
        ),
{
    let mut out = items;
    let ghost before = out@;
    match followup_user_message {
        Some(m) => {
            out.push(ItemParam::user_message_text(m));
            assert(items_json(out@) =~= items_json(before).push(user_message_view(m@)));
        },
        None => {},
    }
    out
}

fn copy_items(items: &Vec<ItemParam>) -> (r: Vec<ItemParam>)
    ensures
        items_json(r@) == items_json(items@),
{
    let mut out: Vec<ItemParam> = Vec::new();
    let mut i: usize = 0;
    while i < items.len()
        invariant
            i <= items@.len(),
            out@.len() == i,
            forall|k: int| 0 <= k < i ==> #[trigger] out@[k].value@ == items@[k].value@,
        decreases items@.len() - i,
    {
        out.push(ItemParam::new(items[i].value().copied()));
        i = i + 1;
    }
    assert(items_json(out@) =~= items_json(items@));
    out
}

/// A request the loop sends: its kind, the response it follows, the items it
/// carries (none for the prompt alone), and its number within the run.
#[derive(Debug)]
pub struct LoopRequest {
    pub kind: RequestKind,
    pub previous_response_id: Option<String>,
    pub items: Option<Vec<ItemParam>>,
    pub request_index: u64,
}

/// What the loop does next: send a request, or end the run with a reason.
#[derive(Debug)]
pub enum LoopStep {
    Send(LoopRequest),
    Finish(String),
}

pub ghost enum StepView {
    Send {
        kind: RequestKind,
        previous_response_id: Option<Seq<char>>,
        items: Option<Seq<JsonView>>,
        request_index: u64,
    },
    Finish(Seq<char>),
}

impl View for LoopStep {
    type V = StepView;

    open spec fn view(&self) -> StepView {
        match self {
            LoopStep::Send(req) => StepView::Send {
                kind: req.kind,
                previous_response_id: crate::provider::opt_chars(req.previous_response_id),
                items: opt_items_json(req.items),
                request_index: req.request_index,
            },
            LoopStep::Finish(reason) => StepView::Finish(reason@),
        }
    }
}

/// What becomes of one function call.
#[derive(Debug)]
pub enum CallDecision {
    /// The run has used up its function calls and ends with this reason.
    Stop(String),
    /// The call is refused with this error, and nothing runs.
    Reject(String),
    /// The tool runs, under the workspace lock when `locked`.
    Run { locked: bool },
}

/// The state of an agent loop.
pub struct AgentLoop {
    stateless_history: bool,
    followup_user_message: Option<String>,
    previous_response_id: Option<String>,
    tool_call_count: u64,
    request_index: u64,
    followup_tool_outputs: Option<Vec<ItemParam>>,
    initial_items: Option<Vec<ItemParam>>,
    history_items: Vec<ItemParam>,
    pending_outputs: Vec<ItemParam>,
}

/// The loop as plain values: whether each request resends the whole
/// conversation, the followup message, the id of the last response, the calls made, the requests
/// sent, the tool outputs awaiting a followup, the starting items not yet
/// sent, the conversation so far, and the outputs of the round in progress.
pub ghost struct LoopView {
    pub stateless_history: bool,
    pub followup_message: Option<Seq<char>>,
    pub previous_response_id: Option<Seq<char>>,
    pub tool_call_count: u64,
    pub request_index: u64,
    pub followup: Option<Seq<JsonView>>,
    pub initial: Option<Seq<JsonView>>,
    pub history: Seq<JsonView>,
    pub pending: Seq<JsonView>,
}

impl View for AgentLoop {
    type V = LoopView;

    closed spec fn view(&self) -> LoopView {
        LoopView {
            stateless_history: self.stateless_history,
            followup_message: crate::provider::opt_chars(self.followup_user_message),
            previous_response_id: crate::provider::opt_chars(self.previous_response_id),
            tool_call_count: self.tool_call_count,
            request_index: self.request_index,
            followup: opt_items_json(self.followup_tool_outputs),
            initial: opt_items_json(self.initial_items),
            history: items_json(self.history_items@),
            pending: items_json(self.pending_outputs@),
        }
    }
}

/// The run's next step from a state, and the state after it.
pub open spec fn spec_next_request(v: LoopView) -> (LoopView, StepView) {
    if v.tool_call_count >= DEFAULT_MAX_TOOL_CALLS {
        (v, StepView::Finish("max_tool_calls_exceeded"@))
    } else {
        match v.followup {
            Some(outputs) => {
                let after = LoopView { followup: None, ..v };
                if v.stateless_history {
                    (
                        after,
                        StepView::Send {
                            kind: RequestKind::FollowupStatelessHistory,
                            previous_response_id: None,
                            items: Some(spec_followup_input(v.history, v.followup_message)),
                            request_index: v.request_index,
                        },
                    )
                } else {
                    match v.previous_response_id {
                        Some(prev) => (
                            after,
                            StepView::Send {
                                kind: RequestKind::Followup,
                                previous_response_id: Some(prev),
                                items: Some(spec_followup_input(outputs, v.followup_message)),
                                request_index: v.request_index,
                            },
                        ),
                        None => (after, StepView::Finish("provider_error"@)),
                    }
                }
            },
            None => match v.initial {
                Some(items) => (
                    LoopView { initial: None, ..v },
                    StepView::Send {
                        kind: RequestKind::InitialItems,
                        previous_response_id: None,
                        items: Some(items),
                        request_index: v.request_index,
                    },
                ),
                None => if v.stateless_history {
                    (
                        v,
                        StepView::Send {
                            kind: RequestKind::StatelessHistory,
                            previous_response_id: None,
                            items: Some(v.history),
                            request_index: v.request_index,
                        },
                    )
                } else {
                    (
                        v,
                        StepView::Send {
                            kind: RequestKind::Prompt,
                            previous_response_id: None,
                            items: None,
                            request_index: v.request_index,
                        },
                    )
                },
            },
        }
    }
}

pub open spec fn saturating_inc(n: u64) -> u64 {
    if n == u64::MAX {
        n
    } else {
        (n + 1) as u64
    }
}

/// The `function_call` items that replay a round's calls.
pub open spec fn call_items_view(calls: Seq<CallView>) -> Seq<JsonView> {
    calls.map_values(|c: CallView| function_call_item_view(c, true))
}

impl AgentLoop {
    /// The loop never makes more function calls than the budget allows.
    pub closed spec fn wf(&self) -> bool {
        self.tool_call_count <= DEFAULT_MAX_TOOL_CALLS
    }

    /// A loop about to send its first request. With `stateless_history` every
    /// request resends the conversation, which starts from the initial items
    /// or else from the prompt's message. Every followup ends with the
    /// followup message as a user message, when one is configured.
    pub fn new(
        stateless_history: bool,
        followup_user_message: Option<String>,
        initial_items: Option<Vec<ItemParam>>,
        prompt_message: ItemParam,
    ) -> (r: AgentLoop)
        ensures
            r.wf(),
            r@ == (LoopView {
                stateless_history,
                followup_message: crate::provider::opt_chars(followup_user_message),
                previous_response_id: None,
                tool_call_count: 0,
                request_index: 0,
                followup: None,
                initial: opt_items_json(initial_items),
                history: if stateless_history {
                    match initial_items {
                        Some(items) => items_json(items@),
                        None => seq![prompt_message.value@],
                    }
                } else {
                    Seq::empty()
                },
                pending: Seq::empty(),
            }),
    {
        let mut history_items: Vec<ItemParam> = Vec::new();
        if stateless_history {
            match &initial_items {
                Some(items) => {
                    history_items = copy_items(items);
                },
                None => {
                    history_items.push(prompt_message);
                    assert(items_json(history_items@) =~= seq![history_items@[0].value@]);
                },
            }
        }
        let r = AgentLoop {
            stateless_history,
            followup_user_message,
            previous_response_id: None,
            tool_call_count: 0,
            request_index: 0,
            followup_tool_outputs: None,
            initial_items,
            history_items,
            pending_outputs: Vec::new(),
        };
        assert(items_json(r.pending_outputs@) =~= Seq::empty());
        assert(!stateless_history ==> items_json(r.history_items@) =~= Seq::empty());
        r
    }

    /// Whether each request resends the whole conversation.
    pub fn stateless_history(&self) -> (r: bool)
        ensures
            r == self@.stateless_history,
    {
        self.stateless_history
    }

    /// The id of the last response the provider gave, if any.
    pub fn last_response_id(&self) -> (r: Option<String>)
        ensures
            crate::provider::opt_chars(r) == self@.previous_response_id,
    {
        match &self.previous_response_id {
            Some(id) => Some(id.clone()),
            None => None,
        }
    }

    /// Decides the next request, or that the run ends.
    pub fn next_request(&mut self) -> (r: LoopStep)
        requires
            old(self).wf(),
        ensures
            final(self).wf(),
            final(self)@ == spec_next_request(old(self)@).0,
            r@ == spec_next_request(old(self)@).1,
    {
        if self.tool_call_count >= DEFAULT_MAX_TOOL_CALLS {
            return LoopStep::Finish(owned("max_tool_calls_exceeded"));
        }
        let index = self.request_index;
        let message: Option<&str> = match &self.followup_user_message {
            Some(m) => Some(m.as_str()),
            None => None,
        };
        match self.followup_tool_outputs.take() {
            Some(outputs) => {
                if self.stateless_history {
                    LoopStep::Send(
                        LoopRequest {
                            kind: RequestKind::FollowupStatelessHistory,
                            previous_response_id: None,
                            items: Some(followup_input_items(copy_items(&self.history_items), message)),
                            request_index: index,
                        },
                    )
                } else {
                    match &self.previous_response_id {
                        Some(prev) => LoopStep::Send(
                            LoopRequest {
                                kind: RequestKind::Followup,
                                previous_response_id: Some(prev.clone()),
                                items: Some(followup_input_items(outputs, message)),
                                request_index: index,
                            },
                        ),
                        None => LoopStep::Finish(owned("provider_error")),
                    }
                }
            },
            None => match self.initial_items.take() {
                Some(items) => LoopStep::Send(
                    LoopRequest {
                        kind: RequestKind::InitialItems,
                        previous_response_id: None,
                        items: Some(items),
                        request_index: index,
                    },
                ),
                None => {
                    if self.stateless_history {
                        LoopStep::Send(
                            LoopRequest {
                                kind: RequestKind::StatelessHistory,
                                previous_response_id: None,
                                items: Some(copy_items(&self.history_items)),
                                request_index: index,
                            },
                        )
                    } else {
                        LoopStep::Send(
                            LoopRequest {
                                kind: RequestKind::Prompt,
                                previous_response_id: None,
                                items: None,
                                request_index: index,
                            },
                        )
                    }
                },
            },
        }
    }

    /// Takes in how a request's stream ended and the calls it produced. The
    /// run ends with the stream's error, with `completed` when the provider
    /// asked for no calls, or with `provider_error` when a call needs a
    /// followup against a response whose id never came. Otherwise the calls
    /// come back in output order, and a stateless loop adds them to the
    /// conversation.
    pub fn finish_response(&mut self, outcome: Result<(), String>, collector: &mut ToolCallCollector) -> (r: Result<
        Vec<FunctionCallItem>,
        String,
    >)
        requires
            old(self).wf(),
            old(collector).wf(),
        ensures
            final(self).wf(),
            final(collector).wf(),
            calls_view(old(collector).completed_calls()) == old(collector)@.completed,
            calls_view(final(collector).completed_calls()) == final(collector)@.completed,
            match outcome {
                Err(reason) => {
                    &&& (r matches Err(m) && m@ == reason@)
                    &&& final(collector)@ == old(collector)@
                    &&& final(self)@ == (LoopView { request_index: saturating_inc(old(self)@.request_index), ..old(self)@ })
                },
                Ok(()) => {
                    let prev = match old(collector)@.response_id {
                        Some(id) => Some(id),
                        None => old(self)@.previous_response_id,
                    };
                    let settled = LoopView {
                        request_index: saturating_inc(old(self)@.request_index),
                        previous_response_id: prev,
                        ..old(self)@
                    };
                    &&& final(collector)@ == (CollectorView { completed: Seq::empty(), ..old(collector)@ })
                    &&& if old(collector).completed_calls().len() == 0 {
                        (r matches Err(m) && m@ == "completed"@) && final(self)@ == settled
                    } else if prev is None && !old(self)@.stateless_history {
                        (r matches Err(m) && m@ == "provider_error"@) && final(self)@ == settled
                    } else {
                        &&& r matches Ok(calls)
                        &&& calls@.len() == old(collector).completed_calls().len()
                        &&& sorted_by_index(calls@)
                        &&& forall|k: u64| #[trigger] calls_with_index(calls@, k) == calls_with_index(
                            old(collector).completed_calls(),
                            k,
                        )
                        &&& final(self)@ == (LoopView {
                            history: if old(self)@.stateless_history {
                                old(self)@.history + call_items_view(calls_view(calls@))
                            } else {
                                old(self)@.history
                            },
                            ..settled
                        })
                    }
                },
            },
    {
        proof {
            collector.lemma_completed_calls_match_view();
        }
        self.request_index = if self.request_index == u64::MAX {
            self.request_index
        } else {
            self.request_index + 1
        };
        match outcome {
            Err(reason) => {
                return Err(reason);
            },
            Ok(()) => {},
        }
        match collector.current_response_id() {
            Some(id) => {
                self.previous_response_id = Some(id);
            },
            None => {},
        }
        let nothing_called = collector.completed_count() == 0;
        let calls = collector.drain_function_calls();
        if nothing_called {
            return Err(owned("completed"));
        }
        if self.previous_response_id.is_none() && !self.stateless_history {
            return Err(owned("provider_error"));
        }
        if self.stateless_history {
            self.push_call_items(&calls);
        }
        Ok(calls)
    }

    fn push_call_items(&mut self, calls: &Vec<FunctionCallItem>)
        requires
            old(self).wf(),
        ensures
            final(self).wf(),
            final(self)@ == (LoopView { history: old(self)@.history + call_items_view(calls_view(calls@)), ..old(self)@ }),
    {
        let ghost s0 = self@;
        let mut i: usize = 0;
        assert(calls@.subrange(0, 0) =~= Seq::<FunctionCallItem>::empty());
        assert(s0.history + call_items_view(calls_view(Seq::<FunctionCallItem>::empty())) =~= s0.history);
        while i < calls.len()
            invariant
                i <= calls@.len(),
                self.wf(),
                self@ == (LoopView { history: s0.history + call_items_view(calls_view(calls@.subrange(0, i as int))), ..s0 }),
            decreases calls@.len() - i,
        {
            let ghost prior = self.history_items@;
            self.history_items.push(function_call_item_from_call(&calls[i], true));
            proof {
                assert(calls@.subrange(0, i + 1) =~= calls@.subrange(0, i as int).push(calls@[i as int]));
                assert(items_json(self.history_items@) =~= items_json(prior).push(
                    function_call_item_view(calls@[i as int]@, true),
                ));
                assert(call_items_view(calls_view(calls@.subrange(0, i + 1))) =~= call_items_view(
                    calls_view(calls@.subrange(0, i as int)),
                ).push(function_call_item_view(calls@[i as int]@, true)));
                assert(s0.history + call_items_view(calls_view(calls@.subrange(0, i + 1))) =~= (s0.history
                    + call_items_view(calls_view(calls@.subrange(0, i as int)))).push(
                    function_call_item_view(calls@[i as int]@, true),
                ));
            }
            i = i + 1;
        }
        assert(calls@.subrange(0, calls@.len() as int) =~= calls@);
    }

    /// Decides the fate of one function call of a round: the run stops once
    /// its calls are used up; otherwise the call counts against them, and is
    /// refused when `tool_choice` does not allow the function.
    pub fn admit_call(&mut self, call: &FunctionCallItem, enforcement: &ToolChoiceEnforcement) -> (r: CallDecision)
        requires
            old(self).wf(),
        ensures
            final(self).wf(),
            old(self)@.tool_call_count >= DEFAULT_MAX_TOOL_CALLS ==> {
                &&& (r matches CallDecision::Stop(m) && m@ == "max_tool_calls_exceeded"@)
                &&& final(self)@ == old(self)@
            },
            old(self)@.tool_call_count < DEFAULT_MAX_TOOL_CALLS ==> {
                &&& final(self)@ == (LoopView { tool_call_count: (old(self)@.tool_call_count + 1) as u64, ..old(self)@ })
                &&& if spec_allows(enforcement@, call.name@) {
                    r matches CallDecision::Run { locked } && locked == spec_requires_workspace_lock(call.name@)
                } else {
                    r matches CallDecision::Reject(m) && m@ == "tool call rejected by tool_choice (call_id="@
                        + call.call_id@ + ", name="@ + call.name@ + ")"@
                }
            },
    {
        if self.tool_call_count >= DEFAULT_MAX_TOOL_CALLS {
            return CallDecision::Stop(owned("max_tool_calls_exceeded"));
        }
        self.tool_call_count = self.tool_call_count + 1;
        if !enforcement.allows_function(call.name.as_str()) {
            let a = concat2("tool call rejected by tool_choice (call_id=", call.call_id.as_str());
            let b = concat2(a.as_str(), ", name=");
            let c = concat2(b.as_str(), call.name.as_str());
            return CallDecision::Reject(concat2(c.as_str(), ")"));
        }
        CallDecision::Run { locked: requires_workspace_lock(call.name.as_str()) }
    }

    /// Records the output of a call for the followup request; a stateless
    /// loop gives the output item an id.
    pub fn record_output(&mut self, call_id: &str, output_json: String)
        requires
            old(self).wf(),
        ensures
            final(self).wf(),
            final(self)@ == (LoopView {
                pending: old(self)@.pending.push(
                    function_call_output_view(call_id@, output_json@, old(self)@.stateless_history),
                ),
                ..old(self)@
            }),
    {
        let item = function_call_output_item(call_id, output_json, self.stateless_history);
        let ghost prior = self.pending_outputs@;
        self.pending_outputs.push(item);
        assert(items_json(self.pending_outputs@) =~= items_json(prior).push(self.pending_outputs@.last().value@));
    }

    /// Closes a round: its outputs become the next followup, and a stateless
    /// loop adds them to the conversation.
    pub fn end_round(&mut self)
        requires
            old(self).wf(),
        ensures
            final(self).wf(),
            final(self)@ == (LoopView {
                history: if old(self)@.stateless_history {
                    old(self)@.history + old(self)@.pending
                } else {
                    old(self)@.history
                },
                followup: Some(old(self)@.pending),
                pending: Seq::empty(),
                ..old(self)@
            }),
    {
        let mut outputs: Vec<ItemParam> = Vec::new();
        std::mem::swap(&mut outputs, &mut self.pending_outputs);
        if self.stateless_history {
            let copies = copy_items(&outputs);
            let ghost prior = self.history_items@;
            let mut copies = copies;
            self.history_items.append(&mut copies);
            assert(items_json(self.history_items@) =~= items_json(prior) + items_json(outputs@));
        }
        self.followup_tool_outputs = Some(outputs);
        assert(items_json(self.pending_outputs@) =~= Seq::empty());
    }
}

/// A followup against a previous response only ever goes out with that
/// response's id; without one the run ends instead.
pub proof fn lemma_followup_names_previous_response(v: LoopView)
    ensures
        spec_next_request(v).1 matches StepView::Send { kind, previous_response_id, .. } ==> (kind
            == RequestKind::Followup ==> previous_response_id is Some && previous_response_id
            == v.previous_response_id),
        (v.tool_call_count < DEFAULT_MAX_TOOL_CALLS && v.followup is Some && !v.stateless_history
            && v.previous_response_id is None) ==> spec_next_request(v).1 == StepView::Finish("provider_error"@),
{
}

/// A stateless loop resends the whole conversation with every request after
/// the initial items, a followup with the configured followup message after
/// it.
pub proof fn lemma_stateless_requests_carry_history(v: LoopView)
    requires
        v.stateless_history,
        v.initial is None,
        v.tool_call_count < DEFAULT_MAX_TOOL_CALLS,
    ensures
        spec_next_request(v).1 matches StepView::Send { items, previous_response_id, .. } && items == Some(
            if v.followup is Some {
                spec_followup_input(v.history, v.followup_message)
            } else {
                v.history
            },
        ) && previous_response_id is None,
{
}

/// Every followup the loop sends carries what it follows up with, then the
/// configured followup message as a user message when there is one; no other
/// request carries it.
pub proof fn lemma_followups_carry_the_followup_message(v: LoopView)
    ensures
        spec_next_request(v).1 matches StepView::Send { kind, items, .. } ==> (match kind {
            RequestKind::Followup => items == Some(spec_followup_input(v.followup->0, v.followup_message)),
            RequestKind::FollowupStatelessHistory => items == Some(spec_followup_input(v.history, v.followup_message)),
            RequestKind::InitialItems => items == v.initial,
            RequestKind::StatelessHistory => items == Some(v.history),
            RequestKind::Prompt => items is None,
        }),
{
}

/// Once its calls are used up, the loop sends nothing more: every step ends
/// the run, and no call is admitted.
pub proof fn lemma_budget_exhausted_ends_run(v: LoopView)
    requires
        v.tool_call_count >= DEFAULT_MAX_TOOL_CALLS,
    ensures
        spec_next_request(v) == (v, StepView::Finish("max_tool_calls_exceeded"@)),
{
}

} // verus!
