use ripd::compat::ValidationOptions;
use ripd::provider_env::validation_options_for_stream;
use ripd::fixture::{run, Config};
use ripd::text::u32_decimal;
use ripd::json::Json;
use ripd::provider::{
    OpenResponsesApproximateLocation, OpenResponsesInclude, OpenResponsesReasoningConfig, OpenResponsesWebSearchConfig,
    ReasoningEffort, ReasoningSummary, SearchContextSize,
};
use ripd::provider_env::{
    base_request_fields, effective_include, effective_reasoning, model_for_request, openresponses_include_from_env, openresponses_reasoning_from_env,
    openresponses_web_search_from_env, settle_tool_choice, tool_choice_from_env, tools_for_request, OpenResponsesConfig, OpenResponsesEnv,
};
use ripd::provider_request::{builtin_function_tools, function_tool, web_search_tool_value};
use ripd::streaming::split_sse_message;
use ripd::tool_choice::ToolChoiceEnv;

fn some(text: &str) -> Option<String> {
    Some(text.to_string())
}

#[test]
fn builtin_function_tools_are_strict_false() {
    let tools = builtin_function_tools();
    let tool = tools
        .iter()
        .find(|tool| tool.get("name").and_then(|v| v.as_str()) == Some("read"))
        .expect("read tool");
    assert_eq!(tool.get("strict"), Some(&Json::Bool(false)));
}

#[test]
fn builtin_tools_are_offered_in_order_with_object_schemas() {
    let names: Vec<String> = builtin_function_tools()
        .iter()
        .map(|t| t.get("name").and_then(|v| v.as_str()).unwrap_or("").to_string())
        .collect();
    assert_eq!(names, vec!["read", "write", "apply_patch", "ls", "grep", "artifact_fetch", "bash", "shell"]);
    for tool in builtin_function_tools() {
        let params = tool.get("parameters").expect("parameters");
        assert_eq!(params.get("type").and_then(|v| v.as_str()), Some("object"));
        assert_eq!(params.get("additionalProperties"), Some(&Json::Bool(false)));
    }
    let tools = builtin_function_tools();
    assert!(tools[3].get("parameters").and_then(|p| p.get("required")).is_none());
    let bash_required = tools[6].get("parameters").and_then(|p| p.get("required")).expect("required");
    assert_eq!(bash_required, &Json::Array(vec![Json::Str("command".to_string())]));
}

#[test]
fn function_tool_wraps_a_schema() {
    let tool = function_tool("x", "does x", Json::Null);
    assert_eq!(tool.get("type").and_then(|v| v.as_str()), Some("function"));
    assert_eq!(tool.get("description").and_then(|v| v.as_str()), Some("does x"));
    assert_eq!(tool.get("parameters"), Some(&Json::Null));
}

#[test]
fn web_search_tool_carries_trimmed_location() {
    let tool = web_search_tool_value(&OpenResponsesWebSearchConfig {
        enabled: true,
        search_context_size: Some(SearchContextSize::Medium),
        external_web_access: None,
        user_location: Some(OpenResponsesApproximateLocation {
            country: None,
            region: Some(" Ontario ".to_string()),
            city: Some(" ".to_string()),
            timezone: Some(" America/Toronto ".to_string()),
        }),
    })
    .expect("tool");
    assert_eq!(tool.get("type").and_then(|v| v.as_str()), Some("web_search"));
    assert_eq!(tool.get("search_context_size").and_then(|v| v.as_str()), Some("medium"));
    assert!(tool.get("external_web_access").is_none());
    let location = tool.get("user_location").expect("user_location");
    assert_eq!(location.get("type").and_then(|v| v.as_str()), Some("approximate"));
    assert_eq!(location.get("country"), None);
    assert_eq!(location.get("region").and_then(|v| v.as_str()), Some("Ontario"));
    assert_eq!(location.get("city"), None);
    assert_eq!(location.get("timezone").and_then(|v| v.as_str()), Some("America/Toronto"));
}

#[test]
fn reasoning_value_names_effort_and_summary() {
    let value = OpenResponsesReasoningConfig { effort: Some(ReasoningEffort::NoEffort), summary: Some(ReasoningSummary::Concise) }
        .to_value()
        .expect("reasoning");
    assert_eq!(value.get("effort").and_then(|v| v.as_str()), Some("none"));
    assert_eq!(value.get("summary").and_then(|v| v.as_str()), Some("concise"));
    assert!(OpenResponsesReasoningConfig { effort: None, summary: None }.to_value().is_none());
}

#[test]
fn settings_read_from_environment_values() {
    assert_eq!(
        openresponses_include_from_env(&some("reasoning.encrypted_content, reasoning.encrypted_content")),
        vec![OpenResponsesInclude::ReasoningEncryptedContent]
    );
    assert!(openresponses_include_from_env(&some("bogus")).is_empty());
    assert!(openresponses_web_search_from_env(&None, &None, &None).is_none());
    assert!(openresponses_web_search_from_env(&None, &some("  "), &None).is_none());
    let ws = openresponses_web_search_from_env(&some("off"), &some(" high "), &some("yes")).expect("web search");
    assert!(!ws.enabled);
    assert_eq!(ws.search_context_size, Some(SearchContextSize::High));
    assert_eq!(ws.external_web_access, Some(true));
    assert!(openresponses_web_search_from_env(&some("0"), &some("huge"), &None).is_none());
    assert_eq!(
        openresponses_reasoning_from_env(&some("high"), &some("bogus")),
        Some(OpenResponsesReasoningConfig { effort: Some(ReasoningEffort::High), summary: None })
    );
    assert_eq!(openresponses_reasoning_from_env(&some("turbo"), &None), None);
    assert!(matches!(tool_choice_from_env(&some("maybe")), ToolChoiceEnv::Auto));
    assert!(matches!(tool_choice_from_env(&some("required")), ToolChoiceEnv::Required));
    let doc = tool_choice_from_env(&some("json:{}"));
    assert!(matches!(doc, ToolChoiceEnv::Unvalidated(_)));
    assert!(matches!(settle_tool_choice(doc, &vec!["missing type".to_string()]), ToolChoiceEnv::Auto));
    let doc = tool_choice_from_env(&some(r#"{"type":"function","name":"ls"}"#));
    assert!(matches!(settle_tool_choice(doc, &Vec::new()), ToolChoiceEnv::Document(_)));
}

#[test]
fn config_needs_an_endpoint_and_filters_for_the_route() {
    assert!(OpenResponsesConfig::from_env_values(&OpenResponsesEnv::default()).is_none());
    let env = OpenResponsesEnv {
        endpoint: some("https://openrouter.ai/api/v1/responses"),
        model: some("google/gemma-4-26b-a4b-it"),
        includes: some("reasoning.encrypted_content,message.output_text.logprobs"),
        web_search: some("1"),
        web_search_external_web_access: some("true"),
        stateless_history: some("on"),
        ..OpenResponsesEnv::default()
    };
    let config = OpenResponsesConfig::from_env_values(&env).expect("config");
    assert_eq!(config.endpoint, "https://openrouter.ai/api/v1/responses");
    assert!(config.provider_id.is_none());
    assert!(config.stateless_history);
    assert!(!config.parallel_tool_calls);
    assert_eq!(effective_include(&config), vec![OpenResponsesInclude::ReasoningEncryptedContent]);
    let tools = tools_for_request(&config);
    assert_eq!(tools.len(), 9);
    assert_eq!(tools[8].get("type").and_then(|v| v.as_str()), Some("web_search"));
    assert!(tools[8].get("external_web_access").is_none());
}

#[test]
fn split_sse_message_takes_the_first_event() {
    assert_eq!(
        split_sse_message("data: a\n\ndata: b\n\nrest"),
        Some(("data: a".to_string(), "data: b\n\nrest".to_string()))
    );
    assert_eq!(split_sse_message("data: partial\n"), None);
    assert_eq!(split_sse_message("\n\n"), Some((String::new(), String::new())));
}

#[test]
fn fixture_run_reports_name_and_retries() {
    assert_eq!(run(Config::default()), "ok: fixture (retries=3)");
    assert_eq!(run(Config { name: "x".to_string(), retries: 255 }), "ok: x (retries=255)");
    assert_eq!(u32_decimal(0), "0");
    assert_eq!(u32_decimal(40), "40");
}

fn env_config(provider_id: Option<&str>, endpoint: &str, model: Option<&str>) -> OpenResponsesConfig {
    let env = OpenResponsesEnv { endpoint: some(endpoint), model: model.map(|m| m.to_string()), ..OpenResponsesEnv::default() };
    let mut config = OpenResponsesConfig::from_env_values(&env).expect("config");
    config.provider_id = provider_id.map(|id| id.to_string());
    config
}

#[test]
fn request_fields_default_model_for_openrouter_when_unset() {
    let config = env_config(None, "https://openrouter.ai/api/v1/responses", None);
    let fields = base_request_fields(&config);
    assert_eq!(fields[0].key, "model");
    assert_eq!(fields[0].value.as_str(), Some("openai/gpt-oss-20b"));

    let config = env_config(Some("openrouter"), "http://127.0.0.1:4010/v1/responses", None);
    assert_eq!(model_for_request(&config).as_deref(), Some("openai/gpt-oss-20b"));

    let config = env_config(None, "https://example.test/v1/responses", None);
    assert_eq!(model_for_request(&config), None);
    assert!(base_request_fields(&config).is_empty());
}

#[test]
fn request_fields_carry_effective_reasoning_and_include() {
    let mut config = env_config(Some("openai"), "https://api.openai.com/v1/responses", Some("gpt-5.4-nano"));
    config.reasoning = Some(OpenResponsesReasoningConfig {
        effort: Some(ReasoningEffort::High),
        summary: Some(ReasoningSummary::Detailed),
    });
    config.includes = vec![OpenResponsesInclude::ReasoningEncryptedContent, OpenResponsesInclude::MessageOutputTextLogprobs];
    let fields = base_request_fields(&config);
    let body = Json::Object(fields);
    assert_eq!(body.get_str("model"), Some("gpt-5.4-nano"));
    assert_eq!(
        body.get("include"),
        Some(&Json::Array(vec![
            Json::Str("reasoning.encrypted_content".to_string()),
            Json::Str("message.output_text.logprobs".to_string())
        ]))
    );
    let reasoning = body.get("reasoning").expect("reasoning");
    assert_eq!(reasoning.get_str("effort"), Some("high"));
    assert_eq!(reasoning.get_str("summary"), Some("detailed"));

    config.reasoning = Some(OpenResponsesReasoningConfig {
        effort: Some(ReasoningEffort::Minimal),
        summary: Some(ReasoningSummary::Detailed),
    });
    let body = Json::Object(base_request_fields(&config));
    let reasoning = body.get("reasoning").expect("reasoning");
    assert!(reasoning.get("effort").is_none());
    assert_eq!(reasoning.get_str("summary"), Some("detailed"));
}

#[test]
fn request_fields_use_openrouter_effort_subset() {
    let mut config = env_config(
        Some("openrouter"),
        "https://openrouter.ai/api/v1/responses",
        Some("nvidia/nemotron-3-super-120b-a12b:free"),
    );
    config.reasoning = Some(OpenResponsesReasoningConfig {
        effort: Some(ReasoningEffort::Xhigh),
        summary: Some(ReasoningSummary::Detailed),
    });
    assert_eq!(
        effective_reasoning(&config),
        Some(OpenResponsesReasoningConfig { effort: None, summary: Some(ReasoningSummary::Detailed) })
    );
    let body = Json::Object(base_request_fields(&config));
    let reasoning = body.get("reasoning").expect("reasoning");
    assert!(reasoning.get("effort").is_none());
    assert_eq!(reasoning.get_str("summary"), Some("detailed"));
}

#[test]
fn request_control_fields_steer_streaming() {
    let mut config = env_config(None, "https://example.test/v1/responses", Some("m"));
    config.parallel_tool_calls = true;
    let body = Json::Object(ripd::provider_env::request_control_fields(&config, Some("resp_1")));
    assert_eq!(body.get_str("previous_response_id"), Some("resp_1"));
    assert_eq!(body.get("parallel_tool_calls"), Some(&Json::Bool(true)));
    assert_eq!(body.get_u64("max_tool_calls"), Some(32));
    assert_eq!(body.get("stream"), Some(&Json::Bool(true)));
    let body = Json::Object(ripd::provider_env::request_control_fields(&config, None));
    assert!(body.get("previous_response_id").is_none());
}

fn followup_config(message: Option<&str>) -> OpenResponsesConfig {
    let mut config = env_config(None, "http://example.test/v1/responses", None);
    config.followup_user_message = message.map(|m| m.to_string());
    config
}

fn call_output() -> Vec<ripd::streaming::ItemParam> {
    vec![ripd::streaming::function_call_output_item("call_1", "\"ok\"".to_string(), false)]
}

#[test]
fn followup_request_without_user_message() {
    let config = followup_config(None);
    let input = ripd::agent::followup_input_items(call_output(), config.followup_user_message.as_deref());
    assert_eq!(input.len(), 1);
    assert_eq!(input[0].value.get_str("type"), Some("function_call_output"));
}

#[test]
fn followup_request_appends_user_message_when_configured() {
    let config = followup_config(Some("continue"));
    let input = ripd::agent::followup_input_items(call_output(), config.followup_user_message.as_deref());
    assert_eq!(input.len(), 2);
    assert_eq!(input[1].value.get_str("type"), Some("message"));
    assert_eq!(input[1].value.get_str("role"), Some("user"));
    assert_eq!(input[1].value.get_str("content"), Some("continue"));
}

#[test]
fn followup_request_omits_previous_response_id_when_none() {
    let config = followup_config(None);
    let body = Json::Object(ripd::provider_env::request_control_fields(&config, None));
    assert!(body.get("previous_response_id").is_none());
}

#[test]
fn followup_request_includes_previous_response_id_when_present() {
    let config = followup_config(None);
    let body = Json::Object(ripd::provider_env::request_control_fields(&config, Some("resp_prev")));
    assert_eq!(body.get_str("previous_response_id"), Some("resp_prev"));
}

#[test]
fn stream_validation_follows_the_route_and_history_mode() {
    let config = env_config(None, "https://openrouter.ai/api/v1/responses", None);
    assert_eq!(validation_options_for_stream(&config), ValidationOptions::compat_openrouter());
    let config = env_config(Some("openrouter"), "http://127.0.0.1:4010/v1/responses", None);
    assert_eq!(validation_options_for_stream(&config), ValidationOptions::compat_openrouter());
    let mut config = env_config(None, "https://api.openai.com/v1/responses", Some("gpt-5-nano-2025-08-07"));
    assert_eq!(validation_options_for_stream(&config), ValidationOptions::strict().with_response_web_search_tools());
    config.stateless_history = true;
    assert_eq!(
        validation_options_for_stream(&config),
        ValidationOptions::compat_missing_item_ids().with_response_web_search_tools()
    );
    let config = env_config(None, "https://example.test/v1/responses", None);
    assert_eq!(validation_options_for_stream(&config), ValidationOptions::strict());
}
