//! What each provider route supports of the Responses API, and what a
//! configuration becomes on a route: the provider is named by its id when one
//! is configured, else recognised by its canonical endpoint; the conversation
//! strategy falls back to resending the history where previous response ids
//! are unsupported; include values and web search settings a route does not
//! support are dropped, and those it may not support are kept with a warning.

use vstd::prelude::*;

use crate::provider::{
    effort_name, include_name, normalize_web_search, opt_web_search_view, summary_name, OpenResponsesInclude,
    OpenResponsesReasoningConfig, OpenResponsesWebSearchConfig, ReasoningEffort, ReasoningSummary, WebSearchView,
};
use crate::provider_request::{effort_wire_name, summary_wire_name};
use crate::text::{chars_of, concat2, concat3, owned, slice_eq_str, spec_trim, str_eq, trim_to_string};

verus! {

/// How well a route supports a feature.
#[derive(Clone, Copy, Debug, PartialEq, Eq, Structural)]
pub enum CompatLevel {
    /// Supported as the API defines it.
    Native,
    /// Supported through the provider's own form.
    Compat,
    /// Not known to work; sent as is.
    Unknown,
    /// Known not to work; not sent.
    Unsupported,
}

pub open spec fn level_name(l: CompatLevel) -> Seq<char> {
    match l {
        CompatLevel::Native => "native"@,
        CompatLevel::Compat => "compat"@,
        CompatLevel::Unknown => "unknown"@,
        CompatLevel::Unsupported => "unsupported"@,
    }
}

impl CompatLevel {
    pub fn as_str(&self) -> (r: &'static str)
        ensures
            r@ == level_name(*self),
    {
        match self {
            CompatLevel::Native => "native",
            CompatLevel::Compat => "compat",
            CompatLevel::Unknown => "unknown",
            CompatLevel::Unsupported => "unsupported",
        }
    }
}

/// How a conversation continues from one request to the next.
#[derive(Clone, Copy, Debug, PartialEq, Eq, Structural)]
pub enum ConversationStrategy {
    /// Each request names the response it follows.
    PreviousResponseId,
    /// Each request resends the whole conversation.
    StatelessHistory,
}

pub open spec fn strategy_name(s: ConversationStrategy) -> Seq<char> {
    match s {
        ConversationStrategy::PreviousResponseId => "previous_response_id"@,
        ConversationStrategy::StatelessHistory => "stateless_history"@,
    }
}

impl ConversationStrategy {
    pub fn as_str(&self) -> (r: &'static str)
        ensures
            r@ == strategy_name(*self),
    {
        match self {
            ConversationStrategy::PreviousResponseId => "previous_response_id",
            ConversationStrategy::StatelessHistory => "stateless_history",
        }
    }
}

/// How strictly a route's streams are validated.
#[derive(Clone, Copy, Debug, PartialEq, Eq, Structural)]
pub enum ValidationProfile {
    Strict,
    Openai,
    Openrouter,
}

/// The provider routes the server knows.
#[derive(Clone, Copy, Debug, PartialEq, Eq, Structural)]
pub enum ProviderRoute {
    Openai,
    Openrouter,
    Generic,
}

pub open spec fn route_id(r: ProviderRoute) -> Seq<char> {
    match r {
        ProviderRoute::Openai => "openai"@,
        ProviderRoute::Openrouter => "openrouter"@,
        ProviderRoute::Generic => "generic"@,
    }
}

/// The canonical OpenAI Responses endpoint.
pub open spec fn spec_is_openai_responses_endpoint(endpoint: Seq<char>) -> bool {
    let raw = spec_trim(endpoint);
    raw == "https://api.openai.com/v1/responses"@ || raw == "https://api.openai.com/v1/responses/"@
}

/// The canonical OpenRouter Responses endpoint.
pub open spec fn spec_is_openrouter_responses_endpoint(endpoint: Seq<char>) -> bool {
    let raw = spec_trim(endpoint);
    raw == "https://openrouter.ai/api/v1/responses"@ || raw == "https://openrouter.ai/api/v1/responses/"@
}

/// The route of a configuration: its provider id when it has one, else what
/// its endpoint is recognised as.
pub open spec fn spec_route(provider_id: Option<Seq<char>>, endpoint: Seq<char>) -> ProviderRoute {
    match provider_id {
        Some(id) => if id == "openai"@ {
            ProviderRoute::Openai
        } else if id == "openrouter"@ {
            ProviderRoute::Openrouter
        } else {
            ProviderRoute::Generic
        },
        None => if spec_is_openai_responses_endpoint(endpoint) {
            ProviderRoute::Openai
        } else if spec_is_openrouter_responses_endpoint(endpoint) {
            ProviderRoute::Openrouter
        } else {
            ProviderRoute::Generic
        },
    }
}

pub fn is_openai_responses_endpoint(endpoint: &str) -> (r: bool)
    ensures
        r == spec_is_openai_responses_endpoint(endpoint@),
{
    let raw = trim_to_string(endpoint);
    str_eq(raw.as_str(), "https://api.openai.com/v1/responses") || str_eq(
        raw.as_str(),
        "https://api.openai.com/v1/responses/",
    )
}

/// Whether an endpoint is the canonical OpenRouter Responses endpoint, with
/// or without a trailing slash.
pub fn is_openrouter_responses_endpoint(endpoint: &str) -> (r: bool)
    ensures
        r == spec_is_openrouter_responses_endpoint(endpoint@),
{
    let raw = trim_to_string(endpoint);
    str_eq(raw.as_str(), "https://openrouter.ai/api/v1/responses") || str_eq(
        raw.as_str(),
        "https://openrouter.ai/api/v1/responses/",
    )
}

pub fn resolve_route(provider_id: Option<&str>, endpoint: &str) -> (r: ProviderRoute)
    ensures
        r == spec_route(
            match provider_id {
                Some(id) => Some(id@),
                None => None,
            },
            endpoint@,
        ),
{
    match provider_id {
        Some(id) => {
            if str_eq(id, "openai") {
                ProviderRoute::Openai
            } else if str_eq(id, "openrouter") {
                ProviderRoute::Openrouter
            } else {
                ProviderRoute::Generic
            }
        },
        None => {
            if is_openai_responses_endpoint(endpoint) {
                ProviderRoute::Openai
            } else if is_openrouter_responses_endpoint(endpoint) {
                ProviderRoute::Openrouter
            } else {
                ProviderRoute::Generic
            }
        },
    }
}

/// What a route supports of conversation continuation.
#[derive(Clone, Copy, Debug, PartialEq, Eq, Structural)]
pub struct ConversationSupport {
    pub previous_response_id: CompatLevel,
    pub stateless_history: CompatLevel,
    pub recommended: ConversationStrategy,
}

pub open spec fn spec_conversation_support(route: ProviderRoute) -> ConversationSupport {
    match route {
        ProviderRoute::Openai => ConversationSupport {
            previous_response_id: CompatLevel::Native,
            stateless_history: CompatLevel::Native,
            recommended: ConversationStrategy::PreviousResponseId,
        },
        ProviderRoute::Openrouter => ConversationSupport {
            previous_response_id: CompatLevel::Unsupported,
            stateless_history: CompatLevel::Native,
            recommended: ConversationStrategy::StatelessHistory,
        },
        ProviderRoute::Generic => ConversationSupport {
            previous_response_id: CompatLevel::Unknown,
            stateless_history: CompatLevel::Unknown,
            recommended: ConversationStrategy::PreviousResponseId,
        },
    }
}

pub open spec fn spec_validation(route: ProviderRoute) -> ValidationProfile {
    match route {
        ProviderRoute::Openai => ValidationProfile::Openai,
        ProviderRoute::Openrouter => ValidationProfile::Openrouter,
        ProviderRoute::Generic => ValidationProfile::Strict,
    }
}

/// The models an OpenRouter route has a profile for.
pub open spec fn spec_known_model(route: ProviderRoute, model: Seq<char>) -> bool {
    route == ProviderRoute::Openrouter && (model == "nvidia/nemotron-3-nano-30b-a3b:free"@ || model
        == "google/gemma-4-26b-a4b-it"@)
}

/// What a route supports of request options.
#[derive(Clone, Copy, Debug, PartialEq, Eq, Structural)]
pub struct RequestSupport {
    pub background: CompatLevel,
    pub store: CompatLevel,
    pub reasoning_parameter: CompatLevel,
}

/// What a route supports of tools.
#[derive(Clone, Copy, Debug, PartialEq, Eq, Structural)]
pub struct ToolSupport {
    pub function_calling: CompatLevel,
    pub allowed_tools: CompatLevel,
    pub hosted_tools: CompatLevel,
}

/// What a route or model supports of input kinds besides text.
#[derive(Clone, Copy, Debug, PartialEq, Eq, Structural)]
pub struct InputModalities {
    pub input_image: CompatLevel,
}

/// The shape of a route's event stream: OpenAI's own, OpenRouter's close
/// variant of it, nothing known of a generic route.
pub open spec fn spec_stream_shape(route: ProviderRoute) -> CompatLevel {
    match route {
        ProviderRoute::Openai => CompatLevel::Native,
        ProviderRoute::Openrouter => CompatLevel::Compat,
        ProviderRoute::Generic => CompatLevel::Unknown,
    }
}

/// OpenAI supports every request option; OpenRouter does not store
/// responses and passes the reasoning parameter on; the rest is unverified.
pub open spec fn spec_request_support(route: ProviderRoute) -> RequestSupport {
    match route {
        ProviderRoute::Openai => RequestSupport {
            background: CompatLevel::Native,
            store: CompatLevel::Native,
            reasoning_parameter: CompatLevel::Native,
        },
        ProviderRoute::Openrouter => RequestSupport {
            background: CompatLevel::Unknown,
            store: CompatLevel::Unsupported,
            reasoning_parameter: CompatLevel::Native,
        },
        ProviderRoute::Generic => RequestSupport {
            background: CompatLevel::Unknown,
            store: CompatLevel::Unknown,
            reasoning_parameter: CompatLevel::Unknown,
        },
    }
}

/// Function calling works on OpenAI and OpenRouter; OpenRouter offers hosted
/// tools through its own extensions.
pub open spec fn spec_tool_support(route: ProviderRoute) -> ToolSupport {
    match route {
        ProviderRoute::Openai => ToolSupport {
            function_calling: CompatLevel::Native,
            allowed_tools: CompatLevel::Native,
            hosted_tools: CompatLevel::Native,
        },
        ProviderRoute::Openrouter => ToolSupport {
            function_calling: CompatLevel::Native,
            allowed_tools: CompatLevel::Unknown,
            hosted_tools: CompatLevel::Compat,
        },
        ProviderRoute::Generic => ToolSupport {
            function_calling: CompatLevel::Unknown,
            allowed_tools: CompatLevel::Unknown,
            hosted_tools: CompatLevel::Unknown,
        },
    }
}

pub open spec fn spec_input_modalities(route: ProviderRoute) -> InputModalities {
    match route {
        ProviderRoute::Openai => InputModalities { input_image: CompatLevel::Native },
        _ => InputModalities { input_image: CompatLevel::Unknown },
    }
}

/// A route's profile.
#[derive(Debug)]
pub struct ProviderProfile {
    pub provider_id: String,
    pub validation: ValidationProfile,
    pub stream_shape: CompatLevel,
    pub conversation: ConversationSupport,
    pub request: RequestSupport,
    pub tools: ToolSupport,
    pub input_modalities: InputModalities,
}

/// What has been observed of a model on its route.
#[derive(Clone, Copy, Debug, PartialEq, Eq, Structural)]
pub struct ModelHealth {
    pub reasoning_parameter: CompatLevel,
    pub tool_calling: CompatLevel,
    pub input_modalities: InputModalities,
}

/// The known OpenRouter models take the reasoning parameter; their tool
/// calling and image input are unverified.
pub open spec fn spec_model_health() -> ModelHealth {
    ModelHealth {
        reasoning_parameter: CompatLevel::Native,
        tool_calling: CompatLevel::Unknown,
        input_modalities: InputModalities { input_image: CompatLevel::Unknown },
    }
}

/// A model the route has a profile for.
#[derive(Debug)]
pub struct ModelProfile {
    pub provider_id: String,
    pub model_id: String,
    pub health: ModelHealth,
}

/// The profile a configuration resolves to, with the model it names.
#[derive(Debug)]
pub struct ResolvedCompatProfile {
    pub route: ProviderRoute,
    pub provider: ProviderProfile,
    pub model: Option<ModelProfile>,
    pub model_id: Option<String>,
}

/// Resolves the route, its profile, and the model's profile when the route
/// has one for it.
pub fn resolve_openresponses_compat_profile(provider_id: Option<&str>, endpoint: &str, model: Option<&str>) -> (r:
    ResolvedCompatProfile)
    ensures
        r.route == spec_route(
            match provider_id {
                Some(id) => Some(id@),
                None => None,
            },
            endpoint@,
        ),
        r.provider.provider_id@ == route_id(r.route),
        r.provider.validation == spec_validation(r.route),
        r.provider.stream_shape == spec_stream_shape(r.route),
        r.provider.conversation == spec_conversation_support(r.route),
        r.provider.request == spec_request_support(r.route),
        r.provider.tools == spec_tool_support(r.route),
        r.provider.input_modalities == spec_input_modalities(r.route),
        opt_text(r.model_id) == (match model {
            Some(m) => Some(m@),
            None => None,
        }),
        match model {
            Some(m) => if spec_known_model(r.route, m@) {
                r.model matches Some(p) && p.provider_id@ == route_id(r.route) && p.model_id@ == m@ && p.health
                    == spec_model_health()
            } else {
                r.model is None
            },
            None => r.model is None,
        },
{
    let route = resolve_route(provider_id, endpoint);
    let (stream_shape, request, tools, input_modalities) = match route {
        ProviderRoute::Openai => (
            CompatLevel::Native,
            RequestSupport {
                background: CompatLevel::Native,
                store: CompatLevel::Native,
                reasoning_parameter: CompatLevel::Native,
            },
            ToolSupport {
                function_calling: CompatLevel::Native,
                allowed_tools: CompatLevel::Native,
                hosted_tools: CompatLevel::Native,
            },
            InputModalities { input_image: CompatLevel::Native },
        ),
        ProviderRoute::Openrouter => (
            CompatLevel::Compat,
            RequestSupport {
                background: CompatLevel::Unknown,
                store: CompatLevel::Unsupported,
                reasoning_parameter: CompatLevel::Native,
            },
            ToolSupport {
                function_calling: CompatLevel::Native,
                allowed_tools: CompatLevel::Unknown,
                hosted_tools: CompatLevel::Compat,
            },
            InputModalities { input_image: CompatLevel::Unknown },
        ),
        ProviderRoute::Generic => (
            CompatLevel::Unknown,
            RequestSupport {
                background: CompatLevel::Unknown,
                store: CompatLevel::Unknown,
                reasoning_parameter: CompatLevel::Unknown,
            },
            ToolSupport {
                function_calling: CompatLevel::Unknown,
                allowed_tools: CompatLevel::Unknown,
                hosted_tools: CompatLevel::Unknown,
            },
            InputModalities { input_image: CompatLevel::Unknown },
        ),
    };
    let (id, validation, conversation) = match route {
        ProviderRoute::Openai => (
            owned("openai"),
            ValidationProfile::Openai,
            ConversationSupport {
                previous_response_id: CompatLevel::Native,
                stateless_history: CompatLevel::Native,
                recommended: ConversationStrategy::PreviousResponseId,
            },
        ),
        ProviderRoute::Openrouter => (
            owned("openrouter"),
            ValidationProfile::Openrouter,
            ConversationSupport {
                previous_response_id: CompatLevel::Unsupported,
                stateless_history: CompatLevel::Native,
                recommended: ConversationStrategy::StatelessHistory,
            },
        ),
        ProviderRoute::Generic => (
            owned("generic"),
            ValidationProfile::Strict,
            ConversationSupport {
                previous_response_id: CompatLevel::Unknown,
                stateless_history: CompatLevel::Unknown,
                recommended: ConversationStrategy::PreviousResponseId,
            },
        ),
    };
    let model_profile = match model {
        Some(m) => {
            if route == ProviderRoute::Openrouter && (str_eq(m, "nvidia/nemotron-3-nano-30b-a3b:free") || str_eq(
                m,
                "google/gemma-4-26b-a4b-it",
            )) {
                Some(
                    ModelProfile {
                        provider_id: owned("openrouter"),
                        model_id: owned(m),
                        health: ModelHealth {
                            reasoning_parameter: CompatLevel::Native,
                            tool_calling: CompatLevel::Unknown,
                            input_modalities: InputModalities { input_image: CompatLevel::Unknown },
                        },
                    },
                )
            } else {
                None
            }
        },
        None => None,
    };
    let model_id = match model {
        Some(m) => Some(owned(m)),
        None => None,
    };
    ResolvedCompatProfile {
        route,
        provider: ProviderProfile {
            provider_id: id,
            validation,
            stream_shape,
            conversation,
            request,
            tools,
            input_modalities,
        },
        model: model_profile,
        model_id,
    }
}

/// The conversation a run uses on a route.
#[derive(Debug)]
pub struct ConversationResolution {
    pub requested: ConversationStrategy,
    pub effective: ConversationStrategy,
    pub support: ConversationSupport,
    pub warnings: Vec<String>,
}

/// The strategy asked for: resending the history when so configured,
/// previous response ids otherwise.
pub open spec fn requested_strategy(stateless_history: bool) -> ConversationStrategy {
    if stateless_history {
        ConversationStrategy::StatelessHistory
    } else {
        ConversationStrategy::PreviousResponseId
    }
}

/// The strategy used: the one asked for, unless the route does not support
/// previous response ids, in which case the history is resent.
pub open spec fn effective_strategy(route: ProviderRoute, stateless_history: bool) -> ConversationStrategy {
    if !stateless_history && spec_conversation_support(route).previous_response_id == CompatLevel::Unsupported {
        ConversationStrategy::StatelessHistory
    } else {
        requested_strategy(stateless_history)
    }
}

pub open spec fn strings_of(v: Seq<String>) -> Seq<Seq<char>> {
    v.map_values(|s: String| s@)
}

/// The warning that explains a change of strategy.
pub open spec fn conversation_warnings(route: ProviderRoute, stateless_history: bool) -> Seq<Seq<char>> {
    if effective_strategy(route, stateless_history) != requested_strategy(stateless_history) {
        seq!["provider "@ + route_id(route) + " does not support previous_response_id; using stateless_history"@]
    } else {
        Seq::empty()
    }
}

impl ResolvedCompatProfile {
    /// How the run's conversation continues on this route.
    pub fn conversation(&self, stateless_history: bool) -> (r: ConversationResolution)
        requires
            self.wf(),
        ensures
            r.requested == requested_strategy(stateless_history),
            r.effective == effective_strategy(self.route, stateless_history),
            r.support == spec_conversation_support(self.route),
            strings_of(r.warnings@) == conversation_warnings(self.route, stateless_history),
    {
        let requested = if stateless_history {
            ConversationStrategy::StatelessHistory
        } else {
            ConversationStrategy::PreviousResponseId
        };
        let mut warnings: Vec<String> = Vec::new();
        let effective = if !stateless_history && self.provider.conversation.previous_response_id
            == CompatLevel::Unsupported {
            warnings.push(
                concat3(
                    "provider ",
                    self.provider.provider_id.as_str(),
                    " does not support previous_response_id; using stateless_history",
                ),
            );
            ConversationStrategy::StatelessHistory
        } else {
            requested
        };
        assert(strings_of(warnings@) =~= conversation_warnings(self.route, stateless_history));
        ConversationResolution { requested, effective, support: self.provider.conversation, warnings }
    }

    /// The strategy the run uses.
    pub fn active_conversation_strategy(&self, stateless_history: bool) -> (r: ConversationStrategy)
        requires
            self.wf(),
        ensures
            r == effective_strategy(self.route, stateless_history),
    {
        self.conversation(stateless_history).effective
    }
}

/// Every include value, in declaration order.
pub open spec fn all_includes() -> Seq<OpenResponsesInclude> {
    seq![
        OpenResponsesInclude::FileSearchCallResults,
        OpenResponsesInclude::WebSearchCallResults,
        OpenResponsesInclude::WebSearchCallActionSources,
        OpenResponsesInclude::MessageInputImageImageUrl,
        OpenResponsesInclude::ComputerCallOutputOutputImageUrl,
        OpenResponsesInclude::CodeInterpreterCallOutputs,
        OpenResponsesInclude::ReasoningEncryptedContent,
        OpenResponsesInclude::MessageOutputTextLogprobs,
    ]
}

pub fn all_include_values() -> (r: Vec<OpenResponsesInclude>)
    ensures
        r@ == all_includes(),
{
    let mut v: Vec<OpenResponsesInclude> = Vec::new();
    v.push(OpenResponsesInclude::FileSearchCallResults);
    v.push(OpenResponsesInclude::WebSearchCallResults);
    v.push(OpenResponsesInclude::WebSearchCallActionSources);
    v.push(OpenResponsesInclude::MessageInputImageImageUrl);
    v.push(OpenResponsesInclude::ComputerCallOutputOutputImageUrl);
    v.push(OpenResponsesInclude::CodeInterpreterCallOutputs);
    v.push(OpenResponsesInclude::ReasoningEncryptedContent);
    v.push(OpenResponsesInclude::MessageOutputTextLogprobs);
    assert(v@ =~= all_includes());
    v
}

/// How a route supports include values as a whole.
pub open spec fn include_request_level(route: ProviderRoute) -> CompatLevel {
    match route {
        ProviderRoute::Openai => CompatLevel::Native,
        ProviderRoute::Openrouter => CompatLevel::Compat,
        ProviderRoute::Generic => CompatLevel::Unknown,
    }
}

/// How a route supports one include value: OpenAI all of them, a generic
/// route none for certain; OpenRouter its curated subset.
pub open spec fn include_level(route: ProviderRoute, v: OpenResponsesInclude) -> CompatLevel {
    match route {
        ProviderRoute::Openai => CompatLevel::Native,
        ProviderRoute::Generic => CompatLevel::Unknown,
        ProviderRoute::Openrouter => match v {
            OpenResponsesInclude::ReasoningEncryptedContent => CompatLevel::Native,
            OpenResponsesInclude::FileSearchCallResults => CompatLevel::Compat,
            OpenResponsesInclude::CodeInterpreterCallOutputs => CompatLevel::Compat,
            OpenResponsesInclude::MessageInputImageImageUrl => CompatLevel::Unknown,
            OpenResponsesInclude::ComputerCallOutputOutputImageUrl => CompatLevel::Unknown,
            _ => CompatLevel::Unsupported,
        },
    }
}

fn include_level_of(route: ProviderRoute, v: OpenResponsesInclude) -> (r: CompatLevel)
    ensures
        r == include_level(route, v),
{
    match route {
        ProviderRoute::Openai => CompatLevel::Native,
        ProviderRoute::Generic => CompatLevel::Unknown,
        ProviderRoute::Openrouter => match v {
            OpenResponsesInclude::ReasoningEncryptedContent => CompatLevel::Native,
            OpenResponsesInclude::FileSearchCallResults => CompatLevel::Compat,
            OpenResponsesInclude::CodeInterpreterCallOutputs => CompatLevel::Compat,
            OpenResponsesInclude::MessageInputImageImageUrl => CompatLevel::Unknown,
            OpenResponsesInclude::ComputerCallOutputOutputImageUrl => CompatLevel::Unknown,
            _ => CompatLevel::Unsupported,
        },
    }
}

/// The values of `s` a route supports at `level`, in order.
pub open spec fn includes_at(route: ProviderRoute, level: CompatLevel, s: Seq<OpenResponsesInclude>) -> Seq<
    OpenResponsesInclude,
>
    decreases s.len(),
{
    if s.len() == 0 {
        Seq::empty()
    } else {
        let r = includes_at(route, level, s.drop_last());
        if include_level(route, s.last()) == level {
            r.push(s.last())
        } else {
            r
        }
    }
}

/// The values of `s` a route does not reject, in order.
pub open spec fn kept_includes(route: ProviderRoute, s: Seq<OpenResponsesInclude>) -> Seq<OpenResponsesInclude>
    decreases s.len(),
{
    if s.len() == 0 {
        Seq::empty()
    } else {
        let r = kept_includes(route, s.drop_last());
        if include_level(route, s.last()) != CompatLevel::Unsupported {
            r.push(s.last())
        } else {
            r
        }
    }
}

/// The warning about one requested include value, if it needs one.
pub open spec fn include_warning(route: ProviderRoute, v: OpenResponsesInclude) -> Option<Seq<char>> {
    match include_level(route, v) {
        CompatLevel::Unknown => Some("include="@ + include_name(v) + " is unverified for provider "@ + route_id(route)),
        CompatLevel::Unsupported => Some(
            "include="@ + include_name(v) + " is not supported by provider "@ + route_id(route) + "; omitted"@,
        ),
        _ => None,
    }
}

pub open spec fn include_warnings(route: ProviderRoute, s: Seq<OpenResponsesInclude>) -> Seq<Seq<char>>
    decreases s.len(),
{
    if s.len() == 0 {
        Seq::empty()
    } else {
        let r = include_warnings(route, s.drop_last());
        match include_warning(route, s.last()) {
            Some(w) => r.push(w),
            None => r,
        }
    }
}

/// A route's support of include values, value by value.
#[derive(Debug)]
pub struct IncludeSupport {
    pub request: CompatLevel,
    pub native_values: Vec<OpenResponsesInclude>,
    pub compat_values: Vec<OpenResponsesInclude>,
    pub unknown_values: Vec<OpenResponsesInclude>,
    pub unsupported_values: Vec<OpenResponsesInclude>,
}

/// What a route makes of the include values asked for.
#[derive(Debug)]
pub struct IncludeResolution {
    pub support: IncludeSupport,
    pub requested: Vec<OpenResponsesInclude>,
    pub effective: Vec<OpenResponsesInclude>,
    pub warnings: Vec<String>,
}

fn values_at(route: ProviderRoute, level: CompatLevel) -> (r: Vec<OpenResponsesInclude>)
    ensures
        r@ == includes_at(route, level, all_includes()),
{
    let all = all_include_values();
    let mut out: Vec<OpenResponsesInclude> = Vec::new();
    let mut i: usize = 0;
    assert(all@.subrange(0, 0) =~= Seq::<OpenResponsesInclude>::empty());
    while i < all.len()
        invariant
            all@ == all_includes(),
            i <= all@.len(),
            out@ == includes_at(route, level, all@.subrange(0, i as int)),
        decreases all@.len() - i,
    {
        assert(all@.subrange(0, i + 1).drop_last() =~= all@.subrange(0, i as int));
        let v = all[i];
        if include_level_of(route, v) == level {
            out.push(v);
        }
        i = i + 1;
    }
    assert(all@.subrange(0, all@.len() as int) =~= all@);
    out
}

fn include_warning_text(route: ProviderRoute, provider_id: &str, v: OpenResponsesInclude) -> (r: Option<String>)
    requires
        provider_id@ == route_id(route),
    ensures
        opt_text(r) == include_warning(route, v),
{
    match include_level_of(route, v) {
        CompatLevel::Unknown => {
            let a = concat3("include=", v.as_str(), " is unverified for provider ");
            Some(concat2(a.as_str(), provider_id))
        },
        CompatLevel::Unsupported => {
            let a = concat3("include=", v.as_str(), " is not supported by provider ");
            Some(concat3(a.as_str(), provider_id, "; omitted"))
        },
        _ => None,
    }
}

pub open spec fn opt_text(o: Option<String>) -> Option<Seq<char>> {
    match o {
        Some(s) => Some(s@),
        None => None,
    }
}

/// A route's support of web search, field by field.
#[derive(Clone, Copy, Debug, PartialEq, Eq, Structural)]
pub struct WebSearchSupport {
    pub request: CompatLevel,
    pub search_context_size: CompatLevel,
    pub external_web_access: CompatLevel,
    pub user_location: CompatLevel,
}

/// OpenAI supports the hosted tool as defined; OpenRouter through its own
/// extension, without external web access; a generic route with nothing
/// known.
pub open spec fn spec_web_search_support(route: ProviderRoute) -> WebSearchSupport {
    match route {
        ProviderRoute::Openai => WebSearchSupport {
            request: CompatLevel::Native,
            search_context_size: CompatLevel::Native,
            external_web_access: CompatLevel::Native,
            user_location: CompatLevel::Native,
        },
        ProviderRoute::Openrouter => WebSearchSupport {
            request: CompatLevel::Compat,
            search_context_size: CompatLevel::Compat,
            external_web_access: CompatLevel::Unsupported,
            user_location: CompatLevel::Compat,
        },
        ProviderRoute::Generic => WebSearchSupport {
            request: CompatLevel::Unknown,
            search_context_size: CompatLevel::Unknown,
            external_web_access: CompatLevel::Unknown,
            user_location: CompatLevel::Unknown,
        },
    }
}

/// The web search settings a route sends: those asked for, without the
/// fields it does not support.
pub open spec fn effective_web_search(route: ProviderRoute, w: WebSearchView) -> WebSearchView {
    let sup = spec_web_search_support(route);
    WebSearchView {
        enabled: w.enabled,
        search_context_size: if sup.search_context_size == CompatLevel::Unsupported {
            None
        } else {
            w.search_context_size
        },
        external_web_access: if sup.external_web_access == CompatLevel::Unsupported {
            None
        } else {
            w.external_web_access
        },
        user_location: if sup.user_location == CompatLevel::Unsupported {
            None
        } else {
            w.user_location
        },
    }
}

/// The warning about one web search field that is set, if it needs one.
pub open spec fn field_warning(route: ProviderRoute, field: Seq<char>, level: CompatLevel, present: bool) -> Seq<
    Seq<char>,
> {
    if !present {
        Seq::empty()
    } else if level == CompatLevel::Unknown {
        seq!["web_search."@ + field + " is unverified for provider "@ + route_id(route)]
    } else if level == CompatLevel::Unsupported {
        seq!["web_search."@ + field + " is not supported by provider "@ + route_id(route) + "; omitted"@]
    } else {
        Seq::empty()
    }
}

pub open spec fn web_search_warnings(route: ProviderRoute, requested: Option<WebSearchView>) -> Seq<Seq<char>> {
    match requested {
        None => Seq::empty(),
        Some(w) => {
            let sup = spec_web_search_support(route);
            let head = if sup.request == CompatLevel::Unknown {
                seq!["web_search is unverified for provider "@ + route_id(route)]
            } else {
                Seq::empty()
            };
            head + field_warning(route, "search_context_size"@, sup.search_context_size, w.search_context_size is Some)
                + field_warning(
                route,
                "external_web_access"@,
                sup.external_web_access,
                w.external_web_access is Some,
            ) + field_warning(route, "user_location"@, sup.user_location, w.user_location is Some)
        },
    }
}

/// What a route makes of the web search settings asked for.
#[derive(Debug)]
pub struct WebSearchResolution {
    pub support: WebSearchSupport,
    pub requested: Option<OpenResponsesWebSearchConfig>,
    pub effective: Option<OpenResponsesWebSearchConfig>,
    pub warnings: Vec<String>,
}

fn web_search_support_of(route: ProviderRoute) -> (r: WebSearchSupport)
    ensures
        r == spec_web_search_support(route),
{
    match route {
        ProviderRoute::Openai => WebSearchSupport {
            request: CompatLevel::Native,
            search_context_size: CompatLevel::Native,
            external_web_access: CompatLevel::Native,
            user_location: CompatLevel::Native,
        },
        ProviderRoute::Openrouter => WebSearchSupport {
            request: CompatLevel::Compat,
            search_context_size: CompatLevel::Compat,
            external_web_access: CompatLevel::Unsupported,
            user_location: CompatLevel::Compat,
        },
        ProviderRoute::Generic => WebSearchSupport {
            request: CompatLevel::Unknown,
            search_context_size: CompatLevel::Unknown,
            external_web_access: CompatLevel::Unknown,
            user_location: CompatLevel::Unknown,
        },
    }
}

fn push_field_warning(
    warnings: &mut Vec<String>,
    route: ProviderRoute,
    provider_id: &str,
    field: &str,
    level: CompatLevel,
    present: bool,
)
    requires
        provider_id@ == route_id(route),
    ensures
        strings_of(final(warnings)@) == strings_of(old(warnings)@) + field_warning(route, field@, level, present),
{
    let ghost before = warnings@;
    if present && level == CompatLevel::Unknown {
        let a = concat3("web_search.", field, " is unverified for provider ");
        warnings.push(concat2(a.as_str(), provider_id));
    } else if present && level == CompatLevel::Unsupported {
        let a = concat3("web_search.", field, " is not supported by provider ");
        warnings.push(concat3(a.as_str(), provider_id, "; omitted"));
    }
    assert(strings_of(warnings@) =~= strings_of(before) + field_warning(route, field@, level, present));
}

fn copy_web_search(c: &OpenResponsesWebSearchConfig) -> (r: OpenResponsesWebSearchConfig)
    ensures
        r == *c,
{
    OpenResponsesWebSearchConfig {
        enabled: c.enabled,
        search_context_size: c.search_context_size,
        external_web_access: c.external_web_access,
        user_location: match &c.user_location {
            Some(l) => Some(l.copied()),
            None => None,
        },
    }
}

impl ResolvedCompatProfile {
    /// The profile's parts agree with its route.
    pub open spec fn wf(&self) -> bool {
        &&& self.provider.provider_id@ == route_id(self.route)
        &&& self.provider.conversation == spec_conversation_support(self.route)
    }

    /// What the route makes of the include values asked for: it keeps those
    /// it does not reject, in order, and warns of the unverified and the
    /// rejected ones.
    pub fn resolve_include(&self, requested: &[OpenResponsesInclude]) -> (r: IncludeResolution)
        requires
            self.wf(),
        ensures
            r.support.request == include_request_level(self.route),
            r.support.native_values@ == includes_at(self.route, CompatLevel::Native, all_includes()),
            r.support.compat_values@ == includes_at(self.route, CompatLevel::Compat, all_includes()),
            r.support.unknown_values@ == includes_at(self.route, CompatLevel::Unknown, all_includes()),
            r.support.unsupported_values@ == includes_at(self.route, CompatLevel::Unsupported, all_includes()),
            r.requested@ == requested@,
            r.effective@ == kept_includes(self.route, requested@),
            strings_of(r.warnings@) == include_warnings(self.route, requested@),
    {
        let route = self.route;
        let request = match route {
            ProviderRoute::Openai => CompatLevel::Native,
            ProviderRoute::Openrouter => CompatLevel::Compat,
            ProviderRoute::Generic => CompatLevel::Unknown,
        };
        let support = IncludeSupport {
            request,
            native_values: values_at(route, CompatLevel::Native),
            compat_values: values_at(route, CompatLevel::Compat),
            unknown_values: values_at(route, CompatLevel::Unknown),
            unsupported_values: values_at(route, CompatLevel::Unsupported),
        };
        let mut kept: Vec<OpenResponsesInclude> = Vec::new();
        let mut asked: Vec<OpenResponsesInclude> = Vec::new();
        let mut warnings: Vec<String> = Vec::new();
        let mut i: usize = 0;
        assert(requested@.subrange(0, 0) =~= Seq::<OpenResponsesInclude>::empty());
        assert(strings_of(warnings@) =~= Seq::<Seq<char>>::empty());
        while i < requested.len()
            invariant
                self.wf(),
                route == self.route,
                i <= requested@.len(),
                asked@ == requested@.subrange(0, i as int),
                kept@ == kept_includes(route, requested@.subrange(0, i as int)),
                strings_of(warnings@) == include_warnings(route, requested@.subrange(0, i as int)),
            decreases requested@.len() - i,
        {
            let v = requested[i];
            let ghost prefix = requested@.subrange(0, i + 1);
            assert(prefix.drop_last() =~= requested@.subrange(0, i as int));
            assert(prefix.last() == v);
            asked.push(v);
            if include_level_of(route, v) != CompatLevel::Unsupported {
                kept.push(v);
            }
            let ghost before = warnings@;
            match include_warning_text(route, self.provider.provider_id.as_str(), v) {
                Some(w) => {
                    warnings.push(w);
                },
                None => {},
            }
            assert(strings_of(warnings@) =~= include_warnings(route, prefix));
            assert(asked@ =~= prefix);
            i = i + 1;
        }
        assert(requested@.subrange(0, requested@.len() as int) =~= requested@);
        IncludeResolution { support, requested: asked, effective: kept, warnings }
    }

    /// What the route makes of the web search settings asked for: the
    /// settings as normalised, without the fields the route rejects, and
    /// warnings for what is unverified or rejected. Disabled settings with
    /// nothing set ask for nothing.
    pub fn web_search(&self, requested: Option<&OpenResponsesWebSearchConfig>) -> (r: WebSearchResolution)
        requires
            self.wf(),
        ensures
            r.support == spec_web_search_support(self.route),
            opt_web_search_view(r.requested) == (match requested {
                Some(c) => normalize_web_search(c@),
                None => None,
            }),
            opt_web_search_view(r.effective) == (match opt_web_search_view(r.requested) {
                Some(w) => Some(effective_web_search(self.route, w)),
                None => None,
            }),
            strings_of(r.warnings@) == web_search_warnings(self.route, opt_web_search_view(r.requested)),
    {
        let route = self.route;
        let support = web_search_support_of(route);
        let normalized = match requested {
            Some(c) => copy_web_search(c).normalized(),
            None => None,
        };
        let mut warnings: Vec<String> = Vec::new();
        let effective = match &normalized {
            Some(w) => {
                if support.request == CompatLevel::Unknown {
                    warnings.push(concat2("web_search is unverified for provider ", self.provider.provider_id.as_str()));
                }
                let id = self.provider.provider_id.as_str();
                push_field_warning(
                    &mut warnings,
                    route,
                    id,
                    "search_context_size",
                    support.search_context_size,
                    w.search_context_size.is_some(),
                );
                push_field_warning(
                    &mut warnings,
                    route,
                    id,
                    "external_web_access",
                    support.external_web_access,
                    w.external_web_access.is_some(),
                );
                push_field_warning(
                    &mut warnings,
                    route,
                    id,
                    "user_location",
                    support.user_location,
                    w.user_location.is_some(),
                );
                let copy = copy_web_search(w);
                Some(
                    OpenResponsesWebSearchConfig {
                        enabled: copy.enabled,
                        search_context_size: if support.search_context_size == CompatLevel::Unsupported {
                            None
                        } else {
                            copy.search_context_size
                        },
                        external_web_access: if support.external_web_access == CompatLevel::Unsupported {
                            None
                        } else {
                            copy.external_web_access
                        },
                        user_location: if support.user_location == CompatLevel::Unsupported {
                            None
                        } else {
                            copy.user_location
                        },
                    },
                )
            },
            None => None,
        };
        proof {
            match opt_web_search_view(normalized) {
                Some(w) => {
                    assert(strings_of(warnings@) =~= web_search_warnings(route, Some(w)));
                },
                None => {
                    assert(strings_of(warnings@) =~= Seq::<Seq<char>>::empty());
                },
            }
        }
        WebSearchResolution { support, requested: normalized, effective, warnings }
    }
}

/// The reasoning efforts the GPT-5.4 models accept.
pub open spec fn gpt_54_efforts() -> Seq<ReasoningEffort> {
    seq![
        ReasoningEffort::NoEffort,
        ReasoningEffort::Low,
        ReasoningEffort::Medium,
        ReasoningEffort::High,
        ReasoningEffort::Xhigh,
    ]
}

pub fn openai_gpt_54_reasoning_efforts() -> (r: Vec<ReasoningEffort>)
    ensures
        r@ == gpt_54_efforts(),
{
    let mut v: Vec<ReasoningEffort> = Vec::new();
    v.push(ReasoningEffort::NoEffort);
    v.push(ReasoningEffort::Low);
    v.push(ReasoningEffort::Medium);
    v.push(ReasoningEffort::High);
    v.push(ReasoningEffort::Xhigh);
    assert(v@ =~= gpt_54_efforts());
    v
}

/// The reasoning efforts OpenRouter accepts.
pub open spec fn openrouter_efforts() -> Seq<ReasoningEffort> {
    seq![ReasoningEffort::Minimal, ReasoningEffort::Low, ReasoningEffort::Medium, ReasoningEffort::High]
}

pub fn openrouter_reasoning_efforts() -> (r: Vec<ReasoningEffort>)
    ensures
        r@ == openrouter_efforts(),
{
    let mut v: Vec<ReasoningEffort> = Vec::new();
    v.push(ReasoningEffort::Minimal);
    v.push(ReasoningEffort::Low);
    v.push(ReasoningEffort::Medium);
    v.push(ReasoningEffort::High);
    assert(v@ =~= openrouter_efforts());
    v
}

/// The reasoning summary modes of the OpenAI API.
pub open spec fn openai_summaries() -> Seq<ReasoningSummary> {
    seq![ReasoningSummary::Auto, ReasoningSummary::Concise, ReasoningSummary::Detailed]
}

pub fn openai_reasoning_summaries() -> (r: Vec<ReasoningSummary>)
    ensures
        r@ == openai_summaries(),
{
    let mut v: Vec<ReasoningSummary> = Vec::new();
    v.push(ReasoningSummary::Auto);
    v.push(ReasoningSummary::Concise);
    v.push(ReasoningSummary::Detailed);
    assert(v@ =~= openai_summaries());
    v
}

/// A model of the GPT-5.4 family: its id starts with `gpt-5.4`.
pub open spec fn is_gpt_54_model(model: Option<Seq<char>>) -> bool {
    model matches Some(m) && m.len() >= 7 && m.subrange(0, 7) == "gpt-5.4"@
}

/// The Gemma model OpenRouter serves with reasoning summaries.
pub open spec fn is_gemma_model(model: Option<Seq<char>>) -> bool {
    model == Some("google/gemma-4-26b-a4b-it"@)
}

/// A route's support of the reasoning parameter for a model.
#[derive(Debug)]
pub struct ReasoningSupport {
    pub parameter: CompatLevel,
    pub effort: CompatLevel,
    pub summary: CompatLevel,
    pub supported_efforts: Vec<ReasoningEffort>,
    pub supported_summaries: Vec<ReasoningSummary>,
}

pub ghost struct ReasoningSupportView {
    pub parameter: CompatLevel,
    pub effort: CompatLevel,
    pub summary: CompatLevel,
    pub efforts: Seq<ReasoningEffort>,
    pub summaries: Seq<ReasoningSummary>,
}

impl View for ReasoningSupport {
    type V = ReasoningSupportView;

    open spec fn view(&self) -> ReasoningSupportView {
        ReasoningSupportView {
            parameter: self.parameter,
            effort: self.effort,
            summary: self.summary,
            efforts: self.supported_efforts@,
            summaries: self.supported_summaries@,
        }
    }
}

/// OpenAI's GPT-5.4 models accept their listed efforts and every summary
/// mode, other OpenAI models take the parameter with nothing verified of its
/// values; OpenRouter accepts its listed efforts, with summaries verified
/// (in its own form) for Gemma only; nothing is known of a generic route.
pub open spec fn spec_reasoning_support(route: ProviderRoute, model: Option<Seq<char>>) -> ReasoningSupportView {
    match route {
        ProviderRoute::Openai => if is_gpt_54_model(model) {
            ReasoningSupportView {
                parameter: CompatLevel::Native,
                effort: CompatLevel::Native,
                summary: CompatLevel::Native,
                efforts: gpt_54_efforts(),
                summaries: openai_summaries(),
            }
        } else {
            ReasoningSupportView {
                parameter: CompatLevel::Native,
                effort: CompatLevel::Unknown,
                summary: CompatLevel::Unknown,
                efforts: Seq::empty(),
                summaries: Seq::empty(),
            }
        },
        ProviderRoute::Openrouter => if is_gemma_model(model) {
            ReasoningSupportView {
                parameter: CompatLevel::Native,
                effort: CompatLevel::Native,
                summary: CompatLevel::Compat,
                efforts: openrouter_efforts(),
                summaries: openai_summaries(),
            }
        } else {
            ReasoningSupportView {
                parameter: CompatLevel::Native,
                effort: CompatLevel::Native,
                summary: CompatLevel::Unknown,
                efforts: openrouter_efforts(),
                summaries: Seq::empty(),
            }
        },
        ProviderRoute::Generic => ReasoningSupportView {
            parameter: CompatLevel::Unknown,
            effort: CompatLevel::Unknown,
            summary: CompatLevel::Unknown,
            efforts: Seq::empty(),
            summaries: Seq::empty(),
        },
    }
}

/// Whether a value is sent: a supported field sends its listed values, an
/// unverified one every value, an unsupported one none.
pub open spec fn level_keeps(level: CompatLevel, listed: bool) -> bool {
    match level {
        CompatLevel::Native | CompatLevel::Compat => listed,
        CompatLevel::Unknown => true,
        CompatLevel::Unsupported => false,
    }
}

/// The warning about one reasoning field that is set, if it needs one.
pub open spec fn reasoning_field_note(
    field: Seq<char>,
    value: Seq<char>,
    level: CompatLevel,
    listed: bool,
    provider: Seq<char>,
) -> Seq<Seq<char>> {
    if level == CompatLevel::Unknown {
        seq!["reasoning."@ + field + "="@ + value + " is unverified for provider "@ + provider]
    } else if level_keeps(level, listed) {
        Seq::empty()
    } else {
        seq!["reasoning."@ + field + "="@ + value + " is not supported by provider "@ + provider + "; omitted"@]
    }
}

/// The reasoning settings sent: those asked for, without the values the
/// route does not accept; nothing when the route rejects the parameter.
pub open spec fn spec_reasoning_effective(sup: ReasoningSupportView, requested: Option<OpenResponsesReasoningConfig>) -> Option<
    OpenResponsesReasoningConfig,
> {
    match requested {
        None => None,
        Some(c) => if sup.parameter == CompatLevel::Unsupported {
            None
        } else {
            Some(
                OpenResponsesReasoningConfig {
                    effort: match c.effort {
                        Some(e) => if level_keeps(sup.effort, sup.efforts.contains(e)) {
                            Some(e)
                        } else {
                            None
                        },
                        None => None,
                    },
                    summary: match c.summary {
                        Some(m) => if level_keeps(sup.summary, sup.summaries.contains(m)) {
                            Some(m)
                        } else {
                            None
                        },
                        None => None,
                    },
                },
            )
        },
    }
}

pub open spec fn spec_reasoning_warnings(
    provider: Seq<char>,
    sup: ReasoningSupportView,
    requested: Option<OpenResponsesReasoningConfig>,
) -> Seq<Seq<char>> {
    match requested {
        None => Seq::empty(),
        Some(c) => if sup.parameter == CompatLevel::Unsupported {
            seq!["reasoning is not supported by provider "@ + provider + "; omitted"@]
        } else {
            (if sup.parameter == CompatLevel::Unknown {
                seq!["reasoning is unverified for provider "@ + provider]
            } else {
                Seq::empty()
            }) + match c.effort {
                Some(e) => reasoning_field_note(
                    "effort"@,
                    effort_name(e),
                    sup.effort,
                    sup.efforts.contains(e),
                    provider,
                ),
                None => Seq::empty(),
            } + match c.summary {
                Some(m) => reasoning_field_note(
                    "summary"@,
                    summary_name(m),
                    sup.summary,
                    sup.summaries.contains(m),
                    provider,
                ),
                None => Seq::empty(),
            }
        },
    }
}

/// What a route makes of the reasoning settings asked for.
#[derive(Debug)]
pub struct ReasoningResolution {
    pub support: ReasoningSupport,
    pub requested: Option<OpenResponsesReasoningConfig>,
    pub effective: Option<OpenResponsesReasoningConfig>,
    pub warnings: Vec<String>,
}

fn is_gpt_54(model: &Option<String>) -> (r: bool)
    ensures
        r == is_gpt_54_model(opt_text(*model)),
{
    match model {
        Some(m) => {
            let chars = chars_of(m.as_str());
            chars.len() >= 7 && slice_eq_str(&chars, 0, 7, "gpt-5.4")
        },
        None => false,
    }
}

fn is_gemma(model: &Option<String>) -> (r: bool)
    ensures
        r == is_gemma_model(opt_text(*model)),
{
    match model {
        Some(m) => str_eq(m.as_str(), "google/gemma-4-26b-a4b-it"),
        None => false,
    }
}

fn reasoning_support_of(route: ProviderRoute, model: &Option<String>) -> (r: ReasoningSupport)
    ensures
        r@ == spec_reasoning_support(route, opt_text(*model)),
{
    match route {
        ProviderRoute::Openai => if is_gpt_54(model) {
            ReasoningSupport {
                parameter: CompatLevel::Native,
                effort: CompatLevel::Native,
                summary: CompatLevel::Native,
                supported_efforts: openai_gpt_54_reasoning_efforts(),
                supported_summaries: openai_reasoning_summaries(),
            }
        } else {
            ReasoningSupport {
                parameter: CompatLevel::Native,
                effort: CompatLevel::Unknown,
                summary: CompatLevel::Unknown,
                supported_efforts: Vec::new(),
                supported_summaries: Vec::new(),
            }
        },
        ProviderRoute::Openrouter => if is_gemma(model) {
            ReasoningSupport {
                parameter: CompatLevel::Native,
                effort: CompatLevel::Native,
                summary: CompatLevel::Compat,
                supported_efforts: openrouter_reasoning_efforts(),
                supported_summaries: openai_reasoning_summaries(),
            }
        } else {
            ReasoningSupport {
                parameter: CompatLevel::Native,
                effort: CompatLevel::Native,
                summary: CompatLevel::Unknown,
                supported_efforts: openrouter_reasoning_efforts(),
                supported_summaries: Vec::new(),
            }
        },
        ProviderRoute::Generic => ReasoningSupport {
            parameter: CompatLevel::Unknown,
            effort: CompatLevel::Unknown,
            summary: CompatLevel::Unknown,
            supported_efforts: Vec::new(),
            supported_summaries: Vec::new(),
        },
    }
}

fn effort_listed(v: &Vec<ReasoningEffort>, e: ReasoningEffort) -> (r: bool)
    ensures
        r == v@.contains(e),
{
    let mut i: usize = 0;
    while i < v.len()
        invariant
            i <= v@.len(),
            forall|k: int| 0 <= k < i ==> v@[k] != e,
        decreases v@.len() - i,
    {
        if v[i] == e {
            assert(v@[i as int] == e);
            return true;
        }
        i = i + 1;
    }
    false
}

fn summary_listed(v: &Vec<ReasoningSummary>, m: ReasoningSummary) -> (r: bool)
    ensures
        r == v@.contains(m),
{
    let mut i: usize = 0;
    while i < v.len()
        invariant
            i <= v@.len(),
            forall|k: int| 0 <= k < i ==> v@[k] != m,
        decreases v@.len() - i,
    {
        if v[i] == m {
            assert(v@[i as int] == m);
            return true;
        }
        i = i + 1;
    }
    false
}

fn level_keeps_value(level: CompatLevel, listed: bool) -> (r: bool)
    ensures
        r == level_keeps(level, listed),
{
    match level {
        CompatLevel::Native | CompatLevel::Compat => listed,
        CompatLevel::Unknown => true,
        CompatLevel::Unsupported => false,
    }
}

fn push_reasoning_note(
    warnings: &mut Vec<String>,
    field: &str,
    value: &str,
    level: CompatLevel,
    listed: bool,
    provider: &str,
)
    ensures
        strings_of(final(warnings)@) == strings_of(old(warnings)@) + reasoning_field_note(
            field@,
            value@,
            level,
            listed,
            provider@,
        ),
{
    let ghost before = warnings@;
    let head = concat3("reasoning.", field, "=");
    let named = concat2(head.as_str(), value);
    if level == CompatLevel::Unknown {
        warnings.push(concat3(named.as_str(), " is unverified for provider ", provider));
    } else if !level_keeps_value(level, listed) {
        let a = concat3(named.as_str(), " is not supported by provider ", provider);
        warnings.push(concat2(a.as_str(), "; omitted"));
    }
    assert(strings_of(warnings@) =~= strings_of(before) + reasoning_field_note(
        field@,
        value@,
        level,
        listed,
        provider@,
    ));
}

impl ResolvedCompatProfile {
    /// The reasoning support for the configured model on this route.
    pub fn reasoning_support(&self) -> (r: ReasoningSupport)
        ensures
            r@ == spec_reasoning_support(self.route, opt_text(self.model_id)),
    {
        reasoning_support_of(self.route, &self.model_id)
    }

    /// What the route makes of the reasoning settings asked for: values it
    /// does not accept are dropped with a warning, unverified ones are sent
    /// with a warning, and nothing asked for stays nothing.
    pub fn reasoning(&self, requested: Option<&OpenResponsesReasoningConfig>) -> (r: ReasoningResolution)
        requires
            self.wf(),
        ensures
            ({
                let sup = spec_reasoning_support(self.route, opt_text(self.model_id));
                let req = match requested {
                    Some(c) => Some(*c),
                    None => None,
                };
                &&& r.support@ == sup
                &&& r.requested == req
                &&& r.effective == spec_reasoning_effective(sup, req)
                &&& strings_of(r.warnings@) == spec_reasoning_warnings(route_id(self.route), sup, req)
            }),
    {
        let support = self.reasoning_support();
        let provider = self.provider.provider_id.as_str();
        let mut warnings: Vec<String> = Vec::new();
        let req: Option<OpenResponsesReasoningConfig> = match requested {
            Some(c) => Some(*c),
            None => None,
        };
        let effective = match req {
            None => None,
            Some(c) => {
                if support.parameter == CompatLevel::Unsupported {
                    let a = concat3("reasoning is not supported by provider ", provider, "; omitted");
                    warnings.push(a);
                    None
                } else {
                    if support.parameter == CompatLevel::Unknown {
                        warnings.push(concat2("reasoning is unverified for provider ", provider));
                    }
                    let ghost after_head = strings_of(warnings@);
                    let effort = match c.effort {
                        Some(e) => {
                            let listed = effort_listed(&support.supported_efforts, e);
                            push_reasoning_note(&mut warnings, "effort", effort_wire_name(e), support.effort, listed, provider);
                            if level_keeps_value(support.effort, listed) {
                                Some(e)
                            } else {
                                None
                            }
                        },
                        None => None,
                    };
                    let ghost after_effort = strings_of(warnings@);
                    let summary = match c.summary {
                        Some(m) => {
                            let listed = summary_listed(&support.supported_summaries, m);
                            push_reasoning_note(
                                &mut warnings,
                                "summary",
                                summary_wire_name(m),
                                support.summary,
                                listed,
                                provider,
                            );
                            if level_keeps_value(support.summary, listed) {
                                Some(m)
                            } else {
                                None
                            }
                        },
                        None => None,
                    };
                    proof {
                        let sup = support@;
                        let head: Seq<Seq<char>> = if sup.parameter == CompatLevel::Unknown {
                            seq!["reasoning is unverified for provider "@ + provider@]
                        } else {
                            Seq::empty()
                        };
                        assert(after_head =~= head);
                        assert(strings_of(warnings@) =~= spec_reasoning_warnings(provider@, sup, req));
                    }
                    Some(OpenResponsesReasoningConfig { effort, summary })
                }
            },
        };
        proof {
            if req is None {
                assert(strings_of(warnings@) =~= Seq::<Seq<char>>::empty());
            } else if support.parameter == CompatLevel::Unsupported {
                assert(strings_of(warnings@) =~= spec_reasoning_warnings(provider@, support@, req));
            }
        }
        ReasoningResolution { support, requested: req, effective, warnings }
    }
}

/// The base set of checks a stream is validated with.
#[derive(Clone, Copy, Debug, PartialEq, Eq, Structural)]
pub enum ValidationBase {
    /// Every event as the API defines it.
    Strict,
    /// As strict, but items may come without ids, which are filled in.
    CompatMissingItemIds,
    /// OpenRouter's variant of the stream.
    CompatOpenrouter,
}

/// The checks a stream is validated with: a base set, and whether hosted web
/// search tool calls may appear in responses.
#[derive(Clone, Copy, Debug, PartialEq, Eq, Structural)]
pub struct ValidationOptions {
    pub base: ValidationBase,
    pub response_web_search_tools: bool,
}

impl ValidationOptions {
    pub fn strict() -> (r: ValidationOptions)
        ensures
            r == (ValidationOptions { base: ValidationBase::Strict, response_web_search_tools: false }),
    {
        ValidationOptions { base: ValidationBase::Strict, response_web_search_tools: false }
    }

    pub fn compat_missing_item_ids() -> (r: ValidationOptions)
        ensures
            r == (ValidationOptions { base: ValidationBase::CompatMissingItemIds, response_web_search_tools: false }),
    {
        ValidationOptions { base: ValidationBase::CompatMissingItemIds, response_web_search_tools: false }
    }

    pub fn compat_openrouter() -> (r: ValidationOptions)
        ensures
            r == (ValidationOptions { base: ValidationBase::CompatOpenrouter, response_web_search_tools: false }),
    {
        ValidationOptions { base: ValidationBase::CompatOpenrouter, response_web_search_tools: false }
    }

    /// The same checks, allowing hosted web search calls in responses.
    pub fn with_response_web_search_tools(self) -> (r: ValidationOptions)
        ensures
            r == (ValidationOptions { response_web_search_tools: true, ..self }),
    {
        ValidationOptions { response_web_search_tools: true, ..self }
    }
}

/// The checks a route's streams get: OpenRouter's own variant on an
/// OpenRouter route; elsewhere strict checks, loosened to fill in missing
/// item ids when the conversation is resent as history, with hosted web
/// search calls allowed on OpenAI.
pub open spec fn spec_validation_options(route: ProviderRoute, stateless_history: bool) -> ValidationOptions {
    match spec_validation(route) {
        ValidationProfile::Openrouter => ValidationOptions {
            base: ValidationBase::CompatOpenrouter,
            response_web_search_tools: false,
        },
        profile => ValidationOptions {
            base: if stateless_history {
                ValidationBase::CompatMissingItemIds
            } else {
                ValidationBase::Strict
            },
            response_web_search_tools: profile == ValidationProfile::Openai,
        },
    }
}

impl ResolvedCompatProfile {
    /// The checks the route's streams get.
    pub fn validation_options(&self, stateless_history: bool) -> (r: ValidationOptions)
        ensures
            r == spec_validation_options(self.route, stateless_history),
    {
        match self.route {
            ProviderRoute::Openrouter => ValidationOptions::compat_openrouter(),
            route => {
                let base = if stateless_history {
                    ValidationOptions::compat_missing_item_ids()
                } else {
                    ValidationOptions::strict()
                };
                if route == ProviderRoute::Openai {
                    base.with_response_web_search_tools()
                } else {
                    base
                }
            },
        }
    }
}

} // verus!
