//! The OpenResponses client settings, read from the values of the
//! `RIP_OPENRESPONSES_*` environment variables, and the request options
//! they lead to on the provider's route.

use vstd::prelude::*;

use crate::compat::{
    effective_web_search, kept_includes, opt_text, resolve_openresponses_compat_profile, spec_is_openrouter_responses_endpoint,
    spec_reasoning_effective, spec_reasoning_support, spec_route,
};
use crate::json::{items_view, lemma_items_view, Json, JsonMember, JsonView, ObjectBuilder};
use crate::provider::{
    include_name, normalize_web_search, opt_chars, opt_web_search_view, parse_openresponses_include_list, parse_reasoning_effort,
    parse_reasoning_summary, parse_search_context_size, spec_parse_context_size, spec_parse_effort,
    spec_parse_include_list, spec_parse_summary, OpenResponsesInclude, OpenResponsesReasoningConfig,
    OpenResponsesWebSearchConfig, WebSearchView,
};
use crate::provider_request::{builtin_function_tools, reasoning_value_view, web_search_tool_value, web_search_tool_view};
use crate::text::{flag_enabled, is_blank, is_blank_str, owned, spec_flag_enabled, spec_trim, str_eq, trim_to_string};
use crate::tool_choice::{
    parse_tool_choice_env, spec_tool_choice_env, spec_validate_tool_choice, validate_tool_choice, ToolChoiceEnv,
    ToolChoiceEnvView,
};

verus! {

/// The OpenResponses client settings.
#[derive(Debug)]
pub struct OpenResponsesConfig {
    pub provider_id: Option<String>,
    pub endpoint: String,
    pub api_key: Option<String>,
    pub model: Option<String>,
    pub headers: Vec<(String, String)>,
    pub tool_choice: ToolChoiceEnv,
    pub includes: Vec<OpenResponsesInclude>,
    pub web_search: Option<OpenResponsesWebSearchConfig>,
    pub reasoning: Option<OpenResponsesReasoningConfig>,
    pub followup_user_message: Option<String>,
    pub stateless_history: bool,
    pub parallel_tool_calls: bool,
}

/// The values of the settings' environment variables, each present when set.
#[derive(Debug, Default)]
pub struct OpenResponsesEnv {
    pub endpoint: Option<String>,
    pub api_key: Option<String>,
    pub model: Option<String>,
    pub tool_choice: Option<String>,
    pub includes: Option<String>,
    pub web_search: Option<String>,
    pub web_search_context_size: Option<String>,
    pub web_search_external_web_access: Option<String>,
    pub reasoning_effort: Option<String>,
    pub reasoning_summary: Option<String>,
    pub followup_user_message: Option<String>,
    pub stateless_history: Option<String>,
    pub parallel_tool_calls: Option<String>,
}

/// A flag read from an optional value: off when unset.
pub open spec fn opt_flag(v: Option<Seq<char>>) -> bool {
    match v {
        Some(t) => spec_flag_enabled(t),
        None => false,
    }
}

fn opt_flag_enabled(v: &Option<String>) -> (r: bool)
    ensures
        r == opt_flag(opt_chars(*v)),
{
    match v {
        Some(t) => flag_enabled(t.as_str()),
        None => false,
    }
}

/// The include values named by the variable; none when it is unset or
/// names anything unknown.
pub open spec fn spec_include_from_env(v: Option<Seq<char>>) -> Seq<OpenResponsesInclude> {
    match v {
        Some(t) => match spec_parse_include_list(t) {
            Some(list) => list,
            None => Seq::empty(),
        },
        None => Seq::empty(),
    }
}

pub fn openresponses_include_from_env(value: &Option<String>) -> (r: Vec<OpenResponsesInclude>)
    ensures
        r@ == spec_include_from_env(opt_chars(*value)),
{
    match value {
        Some(t) => match parse_openresponses_include_list(t.as_str()) {
            Ok(list) => list,
            Err(_) => Vec::new(),
        },
        None => Vec::new(),
    }
}

/// The web search settings the three variables make: each variable that is
/// set (and, for the context size, not blank and valid) sets its field of
/// the default settings; with none of them set there are no settings, and
/// otherwise the settings as normalised.
pub open spec fn spec_web_search_from_env(
    enabled: Option<Seq<char>>,
    context_size: Option<Seq<char>>,
    external: Option<Seq<char>>,
) -> Option<WebSearchView> {
    let size = match context_size {
        Some(t) => if is_blank(t) {
            None
        } else {
            spec_parse_context_size(spec_trim(t))
        },
        None => None,
    };
    let seen = enabled is Some || size is Some || external is Some;
    let w = WebSearchView {
        enabled: match enabled {
            Some(t) => spec_flag_enabled(t),
            None => true,
        },
        search_context_size: size,
        external_web_access: match external {
            Some(t) => Some(spec_flag_enabled(t)),
            None => None,
        },
        user_location: None,
    };
    if !seen {
        None
    } else {
        normalize_web_search(w)
    }
}

pub fn openresponses_web_search_from_env(
    enabled: &Option<String>,
    context_size: &Option<String>,
    external_web_access: &Option<String>,
) -> (r: Option<OpenResponsesWebSearchConfig>)
    ensures
        opt_web_search_view(r) == spec_web_search_from_env(
            opt_chars(*enabled),
            opt_chars(*context_size),
            opt_chars(*external_web_access),
        ),
{
    let mut web_search = OpenResponsesWebSearchConfig::default();
    let mut seen = false;
    match enabled {
        Some(t) => {
            web_search.enabled = flag_enabled(t.as_str());
            seen = true;
        },
        None => {},
    }
    match context_size {
        Some(t) => {
            if !is_blank_str(t.as_str()) {
                let trimmed = trim_to_string(t.as_str());
                match parse_search_context_size(trimmed.as_str()) {
                    Ok(size) => {
                        web_search.search_context_size = Some(size);
                        seen = true;
                    },
                    Err(_) => {},
                }
            }
        },
        None => {},
    }
    match external_web_access {
        Some(t) => {
            web_search.external_web_access = Some(flag_enabled(t.as_str()));
            seen = true;
        },
        None => {},
    }
    if !seen {
        return None;
    }
    web_search.normalized()
}

/// The reasoning settings the two variables make: each that is set and
/// valid sets its field; none when neither field ends up set.
pub open spec fn spec_reasoning_from_env(effort: Option<Seq<char>>, summary: Option<Seq<char>>) -> Option<
    OpenResponsesReasoningConfig,
> {
    let c = OpenResponsesReasoningConfig {
        effort: match effort {
            Some(t) => spec_parse_effort(t),
            None => None,
        },
        summary: match summary {
            Some(t) => spec_parse_summary(t),
            None => None,
        },
    };
    if c.effort is None && c.summary is None {
        None
    } else {
        Some(c)
    }
}

pub fn openresponses_reasoning_from_env(effort: &Option<String>, summary: &Option<String>) -> (r: Option<
    OpenResponsesReasoningConfig,
>)
    ensures
        r == spec_reasoning_from_env(opt_chars(*effort), opt_chars(*summary)),
{
    let mut reasoning = OpenResponsesReasoningConfig { effort: None, summary: None };
    match effort {
        Some(t) => match parse_reasoning_effort(t.as_str()) {
            Ok(e) => {
                reasoning.effort = Some(e);
            },
            Err(_) => {},
        },
        None => {},
    }
    match summary {
        Some(t) => match parse_reasoning_summary(t.as_str()) {
            Ok(s) => {
                reasoning.summary = Some(s);
            },
            Err(_) => {},
        },
        None => {},
    }
    reasoning.normalized()
}

/// The tool choice the variable names; `auto` when it is unset or cannot be
/// read. A JSON document comes back unvalidated; `settle_tool_choice` then
/// decides on it.
pub open spec fn spec_tool_choice_from_env(v: Option<Seq<char>>) -> ToolChoiceEnvView {
    match v {
        Some(t) => match spec_tool_choice_env(t) {
            Ok(c) => c,
            Err(_) => ToolChoiceEnvView::Auto,
        },
        None => ToolChoiceEnvView::Auto,
    }
}

pub fn tool_choice_from_env(value: &Option<String>) -> (r: ToolChoiceEnv)
    ensures
        r@ == spec_tool_choice_from_env(opt_chars(*value)),
{
    match value {
        Some(t) => match parse_tool_choice_env(t.as_str()) {
            Ok(c) => c,
            Err(_) => ToolChoiceEnv::Auto,
        },
        None => ToolChoiceEnv::Auto,
    }
}

/// The configured tool choice once the parameter rules have reported their
/// errors for it: a rejected document falls back to `auto`, like a value that
/// cannot be read.
pub fn settle_tool_choice(choice: ToolChoiceEnv, param_errors: &Vec<String>) -> (r: ToolChoiceEnv)
    ensures
        r@ == (match spec_validate_tool_choice(choice@, param_errors@.map_values(|e: String| e@)) {
            Ok(c) => c,
            Err(_) => ToolChoiceEnvView::Auto,
        }),
{
    match validate_tool_choice(choice, param_errors) {
        Ok(c) => c,
        Err(_) => ToolChoiceEnv::Auto,
    }
}

fn opt_copy(o: &Option<String>) -> (r: Option<String>)
    ensures
        r == *o,
{
    match o {
        Some(s) => Some(s.clone()),
        None => None,
    }
}

impl OpenResponsesConfig {
    /// The settings from their environment values: none without an endpoint;
    /// otherwise each setting read from its variable, with no provider id
    /// and no extra headers.
    pub fn from_env_values(env: &OpenResponsesEnv) -> (r: Option<OpenResponsesConfig>)
        ensures
            env.endpoint is None ==> r is None,
            env.endpoint matches Some(endpoint) ==> r matches Some(c) && {
                &&& c.provider_id is None
                &&& c.endpoint == endpoint
                &&& c.api_key == env.api_key
                &&& c.model == env.model
                &&& c.headers@.len() == 0
                &&& c.tool_choice@ == spec_tool_choice_from_env(opt_chars(env.tool_choice))
                &&& c.includes@ == spec_include_from_env(opt_chars(env.includes))
                &&& opt_web_search_view(c.web_search) == spec_web_search_from_env(
                    opt_chars(env.web_search),
                    opt_chars(env.web_search_context_size),
                    opt_chars(env.web_search_external_web_access),
                )
                &&& c.reasoning == spec_reasoning_from_env(
                    opt_chars(env.reasoning_effort),
                    opt_chars(env.reasoning_summary),
                )
                &&& c.followup_user_message == env.followup_user_message
                &&& c.stateless_history == opt_flag(opt_chars(env.stateless_history))
                &&& c.parallel_tool_calls == opt_flag(opt_chars(env.parallel_tool_calls))
            },
    {
        let endpoint = match &env.endpoint {
            Some(e) => e.clone(),
            None => return None,
        };
        Some(
            OpenResponsesConfig {
                provider_id: None,
                endpoint,
                api_key: opt_copy(&env.api_key),
                model: opt_copy(&env.model),
                headers: Vec::new(),
                tool_choice: tool_choice_from_env(&env.tool_choice),
                includes: openresponses_include_from_env(&env.includes),
                web_search: openresponses_web_search_from_env(
                    &env.web_search,
                    &env.web_search_context_size,
                    &env.web_search_external_web_access,
                ),
                reasoning: openresponses_reasoning_from_env(&env.reasoning_effort, &env.reasoning_summary),
                followup_user_message: opt_copy(&env.followup_user_message),
                stateless_history: opt_flag_enabled(&env.stateless_history),
                parallel_tool_calls: opt_flag_enabled(&env.parallel_tool_calls),
            },
        )
    }
}

fn opt_str(o: &Option<String>) -> (r: Option<&str>)
    ensures
        (match r {
            Some(s) => Some(s@),
            None => None::<Seq<char>>,
        }) == opt_chars(*o),
{
    match o {
        Some(s) => Some(s.as_str()),
        None => None,
    }
}

/// The include values a request carries: those configured that the route
/// does not reject.
pub fn effective_include(config: &OpenResponsesConfig) -> (r: Vec<OpenResponsesInclude>)
    ensures
        r@ == kept_includes(
            crate::compat::spec_route(opt_chars(config.provider_id), config.endpoint@),
            config.includes@,
        ),
{
    let resolved = resolve_openresponses_compat_profile(
        opt_str(&config.provider_id),
        config.endpoint.as_str(),
        opt_str(&config.model),
    );
    resolved.resolve_include(config.includes.as_slice()).effective
}

/// The web search settings a request carries: the configured ones as the
/// route accepts them, when they enable web search.
pub open spec fn spec_effective_web_search(config: OpenResponsesConfig) -> Option<WebSearchView> {
    let route = crate::compat::spec_route(opt_chars(config.provider_id), config.endpoint@);
    match config.web_search {
        Some(c) => match normalize_web_search(c@) {
            Some(w) => if w.enabled {
                Some(effective_web_search(route, w))
            } else {
                None
            },
            None => None,
        },
        None => None,
    }
}

pub fn configured_web_search(config: &OpenResponsesConfig) -> (r: Option<OpenResponsesWebSearchConfig>)
    ensures
        opt_web_search_view(r) == spec_effective_web_search(*config),
{
    let resolved = resolve_openresponses_compat_profile(
        opt_str(&config.provider_id),
        config.endpoint.as_str(),
        opt_str(&config.model),
    );
    let resolution = resolved.web_search(config.web_search.as_ref());
    match resolution.effective {
        Some(w) => if w.is_enabled() {
            Some(w)
        } else {
            None
        },
        None => None,
    }
}

/// Web search that is not configured, or configured as disabled whatever
/// its fields, adds no tool: a request then offers the built-in function
/// tools alone.
pub proof fn lemma_disabled_web_search_adds_no_tool(config: OpenResponsesConfig)
    requires
        config.web_search matches Some(c) ==> !c.enabled,
    ensures
        spec_effective_web_search(config) is None,
{
}

/// The tools a request offers: the built-in function tools, then the web
/// search tool when web search is on.
pub fn tools_for_request(config: &OpenResponsesConfig) -> (r: Vec<Json>)
    ensures
        r@.len() == 8 + (if spec_effective_web_search(*config) is Some {
            1int
        } else {
            0int
        }),
        forall|i: int| 0 <= i < 8 ==> crate::provider_request::is_builtin_tool(#[trigger] r@[i]@, i),
        match spec_effective_web_search(*config) {
            Some(w) => r@[8]@ == web_search_tool_view(w),
            None => true,
        },
{
    let mut tools = builtin_function_tools();
    let ghost base = tools@;
    match configured_web_search(config) {
        Some(w) => match web_search_tool_value(&w) {
            Some(tool) => tools.push(tool),
            None => {},
        },
        None => {},
    }
    proof {
        assert forall|i: int| 0 <= i < 8 implies crate::provider_request::is_builtin_tool(#[trigger] tools@[i]@, i) by {
            assert(tools@[i] == base[i]);
        }
    }
    tools
}

/// The reasoning settings a request carries: the configured ones as the
/// route accepts them for the configured model.
pub open spec fn spec_effective_reasoning(config: OpenResponsesConfig) -> Option<OpenResponsesReasoningConfig> {
    spec_reasoning_effective(
        spec_reasoning_support(spec_route(opt_chars(config.provider_id), config.endpoint@), opt_chars(config.model)),
        config.reasoning,
    )
}

pub fn effective_reasoning(config: &OpenResponsesConfig) -> (r: Option<OpenResponsesReasoningConfig>)
    ensures
        r == spec_effective_reasoning(*config),
{
    let resolved = resolve_openresponses_compat_profile(
        opt_str(&config.provider_id),
        config.endpoint.as_str(),
        opt_str(&config.model),
    );
    assert(opt_text(resolved.model_id) == opt_chars(config.model));
    resolved.reasoning(config.reasoning.as_ref()).effective
}

/// The model OpenRouter is asked for when none is configured.
pub open spec fn default_openrouter_model_name() -> Seq<char> {
    "openai/gpt-oss-20b"@
}

pub fn default_openrouter_model() -> (r: &'static str)
    ensures
        r@ == default_openrouter_model_name(),
{
    "openai/gpt-oss-20b"
}

/// The model a request names: the configured one; without one, the default
/// OpenRouter model when the provider is OpenRouter by id or by endpoint, and
/// none otherwise.
pub open spec fn spec_model_for_request(config: OpenResponsesConfig) -> Option<Seq<char>> {
    match config.model {
        Some(m) => Some(m@),
        None => if opt_chars(config.provider_id) == Some("openrouter"@) || spec_is_openrouter_responses_endpoint(
            config.endpoint@,
        ) {
            Some(default_openrouter_model_name())
        } else {
            None
        },
    }
}

pub fn model_for_request(config: &OpenResponsesConfig) -> (r: Option<String>)
    ensures
        opt_chars(r) == spec_model_for_request(*config),
{
    match &config.model {
        Some(m) => Some(m.clone()),
        None => {
            let openrouter_id = match &config.provider_id {
                Some(id) => str_eq(id.as_str(), "openrouter"),
                None => false,
            };
            if openrouter_id || crate::compat::is_openrouter_responses_endpoint(config.endpoint.as_str()) {
                Some(owned(default_openrouter_model()))
            } else {
                None
            }
        },
    }
}

pub open spec fn include_names_view(s: Seq<OpenResponsesInclude>) -> Seq<JsonView> {
    s.map_values(|v: OpenResponsesInclude| JsonView::Str(include_name(v)))
}

/// The members every request starts with: `model` when one is named,
/// `include` with the effective include values when there are any, and
/// `reasoning` when the effective reasoning settings make an object.
pub open spec fn spec_base_request_fields(config: OpenResponsesConfig) -> Seq<(Seq<char>, JsonView)> {
    let route = spec_route(opt_chars(config.provider_id), config.endpoint@);
    let includes = kept_includes(route, config.includes@);
    let with_model = match spec_model_for_request(config) {
        Some(m) => seq![("model"@, JsonView::Str(m))],
        None => Seq::empty(),
    };
    let with_include = if includes.len() > 0 {
        with_model.push(("include"@, JsonView::Array(include_names_view(includes))))
    } else {
        with_model
    };
    match spec_effective_reasoning(config) {
        Some(c) => match reasoning_value_view(c) {
            Some(v) => with_include.push(("reasoning"@, v)),
            None => with_include,
        },
        None => with_include,
    }
}

pub fn base_request_fields(config: &OpenResponsesConfig) -> (r: Vec<JsonMember>)
    ensures
        crate::json::members_view(r@) == spec_base_request_fields(*config),
{
    let mut o = ObjectBuilder::new();
    match model_for_request(config) {
        Some(m) => o.insert("model", Json::Str(m)),
        None => {},
    }
    let includes = effective_include(config);
    if includes.len() > 0 {
        let mut names: Vec<Json> = Vec::new();
        let mut i: usize = 0;
        while i < includes.len()
            invariant
                i <= includes@.len(),
                names@.len() == i,
                forall|k: int| 0 <= k < i ==> #[trigger] names@[k]@ == JsonView::Str(include_name(includes@[k])),
            decreases includes@.len() - i,
        {
            names.push(Json::string(includes[i].as_str()));
            i = i + 1;
        }
        proof {
            lemma_items_view(names@);
            assert forall|k: int| 0 <= k < names@.len() implies #[trigger] items_view(names@)[k]
                == include_names_view(includes@)[k] by {
                assert(names@[k]@ == JsonView::Str(include_name(includes@[k])));
            }
            assert(items_view(names@) =~= include_names_view(includes@));
        }
        o.insert("include", Json::Array(names));
    }
    match effective_reasoning(config) {
        Some(c) => match c.to_value() {
            Some(v) => o.insert("reasoning", v),
            None => {},
        },
        None => {},
    }
    assert(o.spec_members() =~= spec_base_request_fields(*config));
    o.members
}

/// The members that steer a streamed request: `previous_response_id` when
/// the request follows a response, then `parallel_tool_calls` as configured,
/// `max_tool_calls` at the loop's budget, and `stream: true`.
pub open spec fn spec_request_control_fields(config: OpenResponsesConfig, previous_response_id: Option<Seq<char>>) -> Seq<
    (Seq<char>, JsonView),
> {
    let head = match previous_response_id {
        Some(id) => seq![("previous_response_id"@, JsonView::Str(id))],
        None => Seq::empty(),
    };
    head + seq![
        ("parallel_tool_calls"@, JsonView::Bool(config.parallel_tool_calls)),
        ("max_tool_calls"@, JsonView::Number(crate::json::NumberView::PosInt(crate::agent::DEFAULT_MAX_TOOL_CALLS))),
        ("stream"@, JsonView::Bool(true)),
    ]
}

pub fn request_control_fields(config: &OpenResponsesConfig, previous_response_id: Option<&str>) -> (r: Vec<JsonMember>)
    ensures
        crate::json::members_view(r@) == spec_request_control_fields(
            *config,
            match previous_response_id {
                Some(id) => Some(id@),
                None => None,
            },
        ),
{
    let mut o = ObjectBuilder::new();
    match previous_response_id {
        Some(id) => o.insert("previous_response_id", Json::string(id)),
        None => {},
    }
    o.insert("parallel_tool_calls", Json::Bool(config.parallel_tool_calls));
    o.insert(
        "max_tool_calls",
        Json::Number(crate::json::JsonNumber::PosInt(crate::agent::DEFAULT_MAX_TOOL_CALLS)),
    );
    o.insert("stream", Json::Bool(true));
    assert(o.spec_members() =~= spec_request_control_fields(
        *config,
        match previous_response_id {
            Some(id) => Some(id@),
            None => None,
        },
    ));
    o.members
}

/// The checks the configured route's streams get.
pub fn validation_options_for_stream(config: &OpenResponsesConfig) -> (r: crate::compat::ValidationOptions)
    ensures
        r == crate::compat::spec_validation_options(
            spec_route(opt_chars(config.provider_id), config.endpoint@),
            config.stateless_history,
        ),
{
    let resolved = resolve_openresponses_compat_profile(
        opt_str(&config.provider_id),
        config.endpoint.as_str(),
        opt_str(&config.model),
    );
    resolved.validation_options(config.stateless_history)
}

} // verus!
