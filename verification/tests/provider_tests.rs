use ripd::json::Json;
use ripd::provider::{
    parse_openresponses_include, parse_openresponses_include_list, parse_reasoning_effort, parse_reasoning_summary,
    parse_search_context_size, OpenResponsesApproximateLocation, OpenResponsesInclude, OpenResponsesWebSearchConfig,
    OpenResponsesWebSearchOverride, ReasoningEffort, ReasoningSummary, SearchContextSize,
};
use ripd::tool_choice::{parse_tool_choice_env, validate_tool_choice, ToolChoiceEnforcement, ToolChoiceEnv};

#[test]
fn parse_reasoning_helpers_accept_known_values() {
    assert_eq!(parse_reasoning_effort("none"), Ok(ReasoningEffort::NoEffort));
    assert_eq!(parse_reasoning_effort("minimal"), Ok(ReasoningEffort::Minimal));
    assert_eq!(parse_reasoning_effort("low"), Ok(ReasoningEffort::Low));
    assert_eq!(parse_reasoning_effort("medium"), Ok(ReasoningEffort::Medium));
    assert_eq!(parse_reasoning_effort("high"), Ok(ReasoningEffort::High));
    assert_eq!(parse_reasoning_effort("xhigh"), Ok(ReasoningEffort::Xhigh));
    assert_eq!(parse_reasoning_summary("auto"), Ok(ReasoningSummary::Auto));
    assert_eq!(parse_reasoning_summary("concise"), Ok(ReasoningSummary::Concise));
    assert_eq!(parse_reasoning_summary("detailed"), Ok(ReasoningSummary::Detailed));
}

#[test]
fn parse_reasoning_helpers_reject_unknown_values() {
    assert!(parse_reasoning_effort("turbo").is_err());
    assert!(parse_reasoning_summary("full").is_err());
}

#[test]
fn parse_openresponses_include_helpers_accept_canonical_values() {
    assert_eq!(
        parse_openresponses_include("file_search_call.results"),
        Ok(OpenResponsesInclude::FileSearchCallResults)
    );
    assert_eq!(
        parse_openresponses_include("web_search_call.results"),
        Ok(OpenResponsesInclude::WebSearchCallResults)
    );
    assert_eq!(
        parse_openresponses_include("web_search_call.action.sources"),
        Ok(OpenResponsesInclude::WebSearchCallActionSources)
    );
    assert_eq!(
        parse_openresponses_include("message.input_image.image_url"),
        Ok(OpenResponsesInclude::MessageInputImageImageUrl)
    );
    assert_eq!(
        parse_openresponses_include("computer_call_output.output.image_url"),
        Ok(OpenResponsesInclude::ComputerCallOutputOutputImageUrl)
    );
    assert_eq!(
        parse_openresponses_include("code_interpreter_call.outputs"),
        Ok(OpenResponsesInclude::CodeInterpreterCallOutputs)
    );
    assert_eq!(
        parse_openresponses_include("reasoning.encrypted_content"),
        Ok(OpenResponsesInclude::ReasoningEncryptedContent)
    );
    assert_eq!(
        parse_openresponses_include("message.output_text.logprobs"),
        Ok(OpenResponsesInclude::MessageOutputTextLogprobs)
    );
    assert_eq!(
        parse_openresponses_include_list(
            "reasoning.encrypted_content, message.output_text.logprobs , reasoning.encrypted_content"
        ),
        Ok(vec![
            OpenResponsesInclude::ReasoningEncryptedContent,
            OpenResponsesInclude::MessageOutputTextLogprobs,
        ])
    );
}

#[test]
fn parse_openresponses_include_helpers_reject_unknown_values() {
    assert!(parse_openresponses_include("reasoning.summary").is_err());
    assert!(parse_openresponses_include_list("reasoning.encrypted_content,unknown").is_err());
}

#[test]
fn parse_search_context_size_accepts_values_and_rejects_unknown() {
    assert_eq!(parse_search_context_size("low"), Ok(SearchContextSize::Low));
    assert_eq!(parse_search_context_size("medium"), Ok(SearchContextSize::Medium));
    assert_eq!(parse_search_context_size("high"), Ok(SearchContextSize::High));
    assert!(parse_search_context_size("large").is_err());
}

#[test]
fn openresponses_include_as_str_covers_all_values() {
    assert_eq!(OpenResponsesInclude::FileSearchCallResults.as_str(), "file_search_call.results");
    assert_eq!(OpenResponsesInclude::WebSearchCallResults.as_str(), "web_search_call.results");
    assert_eq!(
        OpenResponsesInclude::WebSearchCallActionSources.as_str(),
        "web_search_call.action.sources"
    );
    assert_eq!(
        OpenResponsesInclude::MessageInputImageImageUrl.as_str(),
        "message.input_image.image_url"
    );
    assert_eq!(
        OpenResponsesInclude::ComputerCallOutputOutputImageUrl.as_str(),
        "computer_call_output.output.image_url"
    );
    assert_eq!(
        OpenResponsesInclude::CodeInterpreterCallOutputs.as_str(),
        "code_interpreter_call.outputs"
    );
    assert_eq!(
        OpenResponsesInclude::ReasoningEncryptedContent.as_str(),
        "reasoning.encrypted_content"
    );
    assert_eq!(
        OpenResponsesInclude::MessageOutputTextLogprobs.as_str(),
        "message.output_text.logprobs"
    );
}

#[test]
fn web_search_override_normalizes_trimmed_location_and_empty_disabled_config() {
    assert_eq!(OpenResponsesWebSearchConfig::disabled().normalized(), None);
    assert_eq!(
        OpenResponsesApproximateLocation {
            country: Some(" ".to_string()),
            region: None,
            city: Some("\t".to_string()),
            timezone: None,
        }
        .normalized(),
        None
    );

    let override_cfg = OpenResponsesWebSearchOverride {
        enabled: Some(true),
        search_context_size: Some(SearchContextSize::Low),
        external_web_access: Some(false),
        user_location: Some(OpenResponsesApproximateLocation {
            country: Some(" GB ".to_string()),
            region: Some(" England ".to_string()),
            city: Some(" London ".to_string()),
            timezone: Some(" Europe/London ".to_string()),
        }),
    };
    assert!(!override_cfg.is_empty());

    let cfg = override_cfg.into_config().expect("non-empty web search config");
    assert!(cfg.enabled);
    assert_eq!(cfg.search_context_size, Some(SearchContextSize::Low));
    assert_eq!(cfg.external_web_access, Some(false));
    let location = cfg.user_location.expect("location");
    assert_eq!(location.country.as_deref(), Some("GB"));
    assert_eq!(location.region.as_deref(), Some("England"));
    assert_eq!(location.city.as_deref(), Some("London"));
    assert_eq!(location.timezone.as_deref(), Some("Europe/London"));

    assert!(OpenResponsesWebSearchOverride::default().is_empty());
    assert_eq!(OpenResponsesWebSearchOverride::default().into_config(), None);
}

#[test]
fn parse_tool_choice_env_defaults_to_auto() {
    let parsed = parse_tool_choice_env("   ").expect("auto");
    assert!(matches!(parsed, ToolChoiceEnv::Auto));
}

#[test]
fn parse_tool_choice_env_accepts_named_function() {
    let parsed = parse_tool_choice_env("function:ls").expect("function");
    match parsed {
        ToolChoiceEnv::Function(name) => assert_eq!(name, "ls"),
        other => panic!("expected a function choice, got {:?}", other),
    }
}

#[test]
fn parse_tool_choice_env_accepts_builtin_modes() {
    assert!(matches!(parse_tool_choice_env("none").expect("none"), ToolChoiceEnv::NoTools));
    assert!(matches!(parse_tool_choice_env("required").expect("required"), ToolChoiceEnv::Required));
}

#[test]
fn parse_tool_choice_env_rejects_missing_function_name() {
    let err = parse_tool_choice_env("function:   ").unwrap_err();
    assert!(err.contains("function name missing"));
}

#[test]
fn parse_tool_choice_env_accepts_json() {
    let parsed = parse_tool_choice_env(r#"json:{"type":"function","name":"ls"}"#).expect("json");
    match parsed {
        ToolChoiceEnv::Unvalidated(value) => {
            assert_eq!(value.get("type").and_then(|v| v.as_str()), Some("function"));
            assert_eq!(value.get("name").and_then(|v| v.as_str()), Some("ls"));
        }
        other => panic!("expected a JSON choice, got {:?}", other),
    }
}

#[test]
fn parse_tool_choice_env_rejects_invalid_json() {
    let err = parse_tool_choice_env("json:{bad}").unwrap_err();
    assert!(err.contains("invalid json tool_choice"));
}

#[test]
fn parse_tool_choice_env_rejects_invalid_param() {
    let parsed = parse_tool_choice_env("json:{}").expect("readable json");
    // The tool_choice parameter rules report `{}` as lacking its type.
    let errors = vec!["tool_choice object is missing type".to_string()];
    let err = validate_tool_choice(parsed, &errors).unwrap_err();
    assert!(err.contains("invalid tool_choice"));
    assert_eq!(err, "invalid tool_choice: tool_choice object is missing type");
}

#[test]
fn validate_tool_choice_accepts_clean_documents_and_joins_errors() {
    let parsed = parse_tool_choice_env(r#"json:{"type":"function","name":"ls"}"#).expect("json");
    match validate_tool_choice(parsed, &Vec::new()).expect("valid") {
        ToolChoiceEnv::Document(value) => assert_eq!(value.get_str("name"), Some("ls")),
        other => panic!("expected a validated document, got {:?}", other),
    }
    let parsed = parse_tool_choice_env("json:{}").expect("json");
    let err = validate_tool_choice(parsed, &vec!["a".to_string(), "b".to_string()]).unwrap_err();
    assert_eq!(err, "invalid tool_choice: a; b");
    let auto = validate_tool_choice(ToolChoiceEnv::Auto, &vec!["ignored".to_string()]).expect("auto");
    assert!(matches!(auto, ToolChoiceEnv::Auto));
}

#[test]
fn parse_tool_choice_env_rejects_unknown_value() {
    let err = parse_tool_choice_env("maybe").unwrap_err();
    assert!(err.contains("unsupported value"));
}

#[test]
fn tool_choice_none_allows_no_function_and_named_function_allows_only_itself() {
    let none = ToolChoiceEnforcement::from_value(&Json::Str("none".to_string()));
    assert!(!none.allows_function("ls"));
    let auto = ToolChoiceEnforcement::from_value(&Json::Str("auto".to_string()));
    assert!(auto.allows_function("ls"));
    let named = match parse_tool_choice_env(r#"{"type":"function","name":"read"}"#).expect("json") {
        ToolChoiceEnv::Unvalidated(value) => ToolChoiceEnforcement::from_value(&value),
        other => panic!("expected a JSON choice, got {:?}", other),
    };
    assert!(named.allows_function("read"));
    assert!(!named.allows_function("write"));
}

#[test]
fn allowed_tools_choice_keeps_only_named_functions() {
    let doc = r#"{"type":"allowed_tools","mode":"auto","tools":[{"type":"function","name":"ls"},{"type":"web_search"},{"type":"function","name":""}]}"#;
    let enforcement = match parse_tool_choice_env(doc).expect("json") {
        ToolChoiceEnv::Unvalidated(value) => ToolChoiceEnforcement::from_value(&value),
        other => panic!("expected a JSON choice, got {:?}", other),
    };
    assert!(enforcement.allows_function("ls"));
    assert!(!enforcement.allows_function("web_search"));
    assert!(!enforcement.allows_function(""));
    let off = r#"{"type":"allowed_tools","mode":"none","tools":[{"type":"function","name":"ls"}]}"#;
    let enforcement = match parse_tool_choice_env(off).expect("json") {
        ToolChoiceEnv::Unvalidated(value) => ToolChoiceEnforcement::from_value(&value),
        other => panic!("expected a JSON choice, got {:?}", other),
    };
    assert!(!enforcement.allows_function("ls"));
}

#[test]
fn reasoning_effort_round_trips_through_its_name() {
    assert_eq!(parse_reasoning_effort(" high "), Ok(ReasoningEffort::High));
    let err = parse_reasoning_effort("turbo").unwrap_err();
    assert!(!err.is_empty());
}

#[test]
fn include_lists_of_blank_pieces_are_empty() {
    assert_eq!(parse_openresponses_include_list(""), Ok(vec![]));
    assert_eq!(parse_openresponses_include_list(" , ,"), Ok(vec![]));
    assert_eq!(
        parse_openresponses_include_list(" reasoning.encrypted_content , ,reasoning.encrypted_content"),
        Ok(vec![OpenResponsesInclude::ReasoningEncryptedContent])
    );
    assert!(parse_openresponses_include_list(" , nope ,").is_err());
}
