use ripd::observability::{request_dump_body, request_dump_record, OpenResponsesRequestDumpConfig};
use ripd::agent::{
    call_arguments_value, invocation_for_call, rejected_tool_invocation_events, requires_workspace_lock, AgentLoop,
    CallDecision, LoopStep, RequestKind, ToolInvocation, DEFAULT_MAX_TOOL_CALLS,
};
use ripd::json::{Json, JsonMember, JsonNumber};
use ripd::kernel::KernelEventKind;
use ripd::observability::{
    dump_body, parse_usize, request_body_text, request_dump_config, request_model, DEFAULT_MAX_BYTES,
};
use ripd::session::{
    command_text, parse_action, session_end_after_compile, session_end_reason, CheckpointCommand, InputAction, ToolCommand,
};
use ripd::kernel::KernelEvent;
use ripd::streaming::{tool_output_text, FunctionCallItem, ItemParam, ToolCallCollector};
use ripd::tool_choice::ToolChoiceEnforcement;

fn s(text: &str) -> Json {
    Json::Str(text.to_string())
}

fn obj(members: Vec<(&str, Json)>) -> Json {
    Json::Object(members.into_iter().map(|(key, value)| JsonMember { key: key.to_string(), value }).collect())
}

fn call(output_index: u64, call_id: &str, name: &str) -> FunctionCallItem {
    FunctionCallItem {
        output_index,
        call_id: call_id.to_string(),
        item_id: None,
        name: name.to_string(),
        arguments: "{\"path\":\".\"}".to_string(),
    }
}

fn prompt_item() -> ItemParam {
    ItemParam::new(obj(vec![("role", s("user")), ("content", s("hi"))]))
}

fn send(step: LoopStep) -> ripd::agent::LoopRequest {
    match step {
        LoopStep::Send(req) => req,
        LoopStep::Finish(reason) => panic!("unexpected finish: {reason}"),
    }
}

#[test]
fn parse_action_defaults_to_prompt() {
    assert!(matches!(parse_action("hello", None, None), InputAction::Prompt));
}

#[test]
fn parse_action_invalid_json_defaults_to_prompt() {
    assert!(command_text("{not json}").is_some());
    assert!(matches!(parse_action("{not json}", None, None), InputAction::Prompt));
}

#[test]
fn command_text_is_the_trimmed_input_starting_with_a_brace() {
    assert_eq!(command_text("  {\"tool\":\"ls\"}\n"), Some("{\"tool\":\"ls\"}".to_string()));
    assert_eq!(command_text("hello {"), None);
    assert_eq!(command_text("   "), None);
}

#[test]
fn workspace_lock_is_skipped_only_for_read_only_tools() {
    for tool in ["read", "ls", "grep", "artifact_fetch"] {
        assert!(!requires_workspace_lock(tool));
    }
    for tool in ["write", "bash", "apply_patch", "Read"] {
        assert!(requires_workspace_lock(tool));
    }
}

#[test]
fn call_arguments_fall_back_to_the_raw_text() {
    assert_eq!(call_arguments_value("{\"a\":1}"), obj(vec![("a", Json::Number(JsonNumber::PosInt(1)))]));
    assert_eq!(call_arguments_value("not json"), s("not json"));
    let invocation = invocation_for_call(&call(0, "c1", "ls"));
    assert_eq!(invocation.name, "ls");
    assert_eq!(invocation.args, obj(vec![("path", s("."))]));
    assert!(invocation.timeout_ms.is_none());
}

#[test]
fn rejected_invocations_record_a_start_and_a_failure() {
    let invocation = ToolInvocation { name: "write".to_string(), args: Json::Null, timeout_ms: Some(9) };
    let mut seq = 7;
    let events = rejected_tool_invocation_events("s1", &mut seq, &invocation, "call_3", "denied");
    assert_eq!(seq, 9);
    assert_eq!(events.len(), 2);
    assert_eq!(events[0].seq, 7);
    assert_eq!(events[1].seq, 8);
    assert_eq!(events[0].session_id, "s1");
    assert_eq!(events[0].id.len(), 36);
    assert_ne!(events[0].id, events[1].id);
    match &events[0].kind {
        KernelEventKind::ToolStarted { tool_id, name, timeout_ms, .. } => {
            assert_eq!(tool_id, "tool_denied_call_3");
            assert_eq!(name, "write");
            assert_eq!(*timeout_ms, Some(9));
        }
        other => panic!("unexpected {other:?}"),
    }
    match &events[1].kind {
        KernelEventKind::ToolFailed { tool_id, error } => {
            assert_eq!(tool_id, "tool_denied_call_3");
            assert_eq!(error, "denied");
        }
        other => panic!("unexpected {other:?}"),
    }
}

#[test]
fn stateful_loop_sends_prompt_then_followups_against_the_last_response() {
    let mut lp = AgentLoop::new(false, None, None, prompt_item());
    let first = send(lp.next_request());
    assert_eq!(first.kind, RequestKind::Prompt);
    assert_eq!(first.kind.as_str(), "prompt");
    assert!(first.items.is_none());
    assert_eq!(first.request_index, 0);

    let mut collector = ToolCallCollector::new();
    collector.response_id = Some("resp_1".to_string());
    collector.completed_function_calls.push(call(1, "call_b", "write"));
    collector.completed_function_calls.push(call(0, "call_a", "ls"));
    let calls = lp.finish_response(Ok(()), &mut collector).expect("calls");
    assert_eq!(calls.iter().map(|c| c.call_id.as_str()).collect::<Vec<_>>(), vec!["call_a", "call_b"]);

    let enforcement = ToolChoiceEnforcement::OnlyFunctions(vec!["ls".to_string()]);
    match lp.admit_call(&calls[0], &enforcement) {
        CallDecision::Run { locked } => assert!(!locked),
        other => panic!("unexpected {other:?}"),
    }
    match lp.admit_call(&calls[1], &enforcement) {
        CallDecision::Reject(error) => {
            assert_eq!(error, "tool call rejected by tool_choice (call_id=call_b, name=write)")
        }
        other => panic!("unexpected {other:?}"),
    }
    lp.record_output("call_a", "{\"ok\":true}".to_string());
    lp.record_output("call_b", "{\"ok\":false}".to_string());
    lp.end_round();

    let followup = send(lp.next_request());
    assert_eq!(followup.kind, RequestKind::Followup);
    assert_eq!(followup.previous_response_id.as_deref(), Some("resp_1"));
    assert_eq!(followup.request_index, 1);
    let items = followup.items.expect("tool outputs");
    assert_eq!(items.len(), 2);
    assert!(items[0].value().get("id").is_none());
    assert_eq!(items[1].value().get("call_id").and_then(|v| v.as_str()), Some("call_b"));

    let mut empty = ToolCallCollector::new();
    assert_eq!(lp.finish_response(Ok(()), &mut empty).unwrap_err(), "completed");
    assert_eq!(lp.last_response_id().as_deref(), Some("resp_1"));
}

#[test]
fn stateless_loop_resends_the_growing_conversation() {
    let mut lp = AgentLoop::new(true, None, None, prompt_item());
    let first = send(lp.next_request());
    assert_eq!(first.kind, RequestKind::StatelessHistory);
    assert_eq!(first.items.as_ref().map(|i| i.len()), Some(1));

    let mut collector = ToolCallCollector::new();
    collector.completed_function_calls.push(call(0, "call_a", "ls"));
    let calls = lp.finish_response(Ok(()), &mut collector).expect("calls without a response id");
    assert!(matches!(lp.admit_call(&calls[0], &ToolChoiceEnforcement::AllFunctions), CallDecision::Run { .. }));
    lp.record_output("call_a", "{}".to_string());
    lp.end_round();

    let followup = send(lp.next_request());
    assert_eq!(followup.kind, RequestKind::FollowupStatelessHistory);
    assert!(followup.previous_response_id.is_none());
    let items = followup.items.expect("history");
    assert_eq!(items.len(), 3);
    assert_eq!(items[1].value().get("id").and_then(|v| v.as_str()), Some("fc_call_a"));
    assert_eq!(items[2].value().get("id").and_then(|v| v.as_str()), Some("output_call_a"));
}

#[test]
fn initial_items_go_first_and_missing_response_ids_end_stateful_runs() {
    let initial = vec![ItemParam::new(s("a")), ItemParam::new(s("b"))];
    let mut lp = AgentLoop::new(false, None, Some(initial), prompt_item());
    let first = send(lp.next_request());
    assert_eq!(first.kind, RequestKind::InitialItems);
    assert_eq!(first.items.map(|i| i.len()), Some(2));
    let mut collector = ToolCallCollector::new();
    collector.completed_function_calls.push(call(0, "c", "ls"));
    assert_eq!(lp.finish_response(Ok(()), &mut collector).unwrap_err(), "provider_error");

    let mut lp = AgentLoop::new(false, None, None, prompt_item());
    let _ = lp.next_request();
    let mut collector = ToolCallCollector::new();
    assert_eq!(
        lp.finish_response(Err("provider_http_error".to_string()), &mut collector).unwrap_err(),
        "provider_http_error"
    );
}

#[test]
fn the_call_budget_ends_the_run() {
    let mut lp = AgentLoop::new(false, None, None, prompt_item());
    let c = call(0, "c", "ls");
    for _ in 0..DEFAULT_MAX_TOOL_CALLS {
        assert!(matches!(lp.admit_call(&c, &ToolChoiceEnforcement::AllFunctions), CallDecision::Run { .. }));
    }
    match lp.admit_call(&c, &ToolChoiceEnforcement::AllFunctions) {
        CallDecision::Stop(reason) => assert_eq!(reason, "max_tool_calls_exceeded"),
        other => panic!("unexpected {other:?}"),
    }
    match lp.next_request() {
        LoopStep::Finish(reason) => assert_eq!(reason, "max_tool_calls_exceeded"),
        LoopStep::Send(_) => panic!("the run should end"),
    }
}

#[test]
fn session_end_reason_takes_the_last_end() {
    let event = |kind| KernelEvent { id: "e".to_string(), session_id: "s".to_string(), timestamp_ms: 0, seq: 0, kind };
    assert_eq!(session_end_reason(&[]), "unknown");
    let events = vec![
        event(KernelEventKind::SessionEnded { reason: "first".to_string() }),
        event(KernelEventKind::Other),
        event(KernelEventKind::SessionEnded { reason: "completed".to_string() }),
        event(KernelEventKind::Other),
    ];
    assert_eq!(session_end_reason(&events), "completed");
}

#[test]
fn request_dump_config_from_env_parses_flags_and_limits() {
    let config = request_dump_config(Some(" YES "), Some(" 42 "));
    assert!(config.enabled);
    assert_eq!(config.max_bytes, 42);
}

#[test]
fn request_dump_config_from_env_falls_back_for_invalid_values() {
    let config = request_dump_config(Some("maybe"), Some("0"));
    assert!(!config.enabled);
    assert_eq!(config.max_bytes, DEFAULT_MAX_BYTES);
    let config = request_dump_config(None, Some("lots"));
    assert!(!config.enabled);
    assert_eq!(config.max_bytes, DEFAULT_MAX_BYTES);
}

#[test]
fn parse_usize_follows_decimal_parsing() {
    assert_eq!(parse_usize("0"), Some(0));
    assert_eq!(parse_usize("+17"), Some(17));
    assert_eq!(parse_usize("+"), None);
    assert_eq!(parse_usize(""), None);
    assert_eq!(parse_usize("-1"), None);
    assert_eq!(parse_usize(" 1"), None);
    assert_eq!(parse_usize("18446744073709551615"), Some(usize::MAX));
    assert_eq!(parse_usize("18446744073709551616"), None);
}

#[test]
fn dumps_keep_at_most_the_limit() {
    let (stored, truncated, total, kept) = dump_body(b"abcdef".to_vec(), 4);
    assert_eq!(stored, b"abcd".to_vec());
    assert!(truncated);
    assert_eq!((total, kept), (6, 4));
    let (stored, truncated, total, kept) = dump_body(b"ab".to_vec(), 4);
    assert_eq!(stored, b"ab".to_vec());
    assert!(!truncated);
    assert_eq!((total, kept), (2, 2));
    assert_eq!(request_model(&obj(vec![("model", s("gpt"))])), Some("gpt".to_string()));
    assert_eq!(request_model(&obj(vec![("model", Json::Null)])), None);
}

#[test]
fn parse_action_accepts_tool_command() {
    let input = r#"{"tool":"write","args":{"path":"a.txt","content":"hi"}}"#;
    // The command text read as a tool command.
    let as_tool = ToolCommand {
        tool: "write".to_string(),
        args: obj(vec![("path", s("a.txt")), ("content", s("hi"))]),
        timeout_ms: None,
    };
    match parse_action(input, None, Some(as_tool)) {
        InputAction::Tool(command) => {
            assert_eq!(command.tool, "write");
            assert!(command.args.get("path").is_some());
        }
        _ => panic!("expected tool action"),
    }
}

#[test]
fn parse_action_accepts_checkpoint_command() {
    let input = r#"{"checkpoint":{"action":"create","label":"snap","files":["a.txt"]}}"#;
    // The command text read as a checkpoint envelope.
    let as_checkpoint = CheckpointCommand::Create { label: "snap".to_string(), files: vec!["a.txt".to_string()] };
    match parse_action(input, Some(as_checkpoint), None) {
        InputAction::Checkpoint(CheckpointCommand::Create { label, files }) => {
            assert_eq!(label, "snap");
            assert_eq!(files, vec!["a.txt".to_string()]);
        }
        _ => panic!("expected checkpoint create"),
    }
}

#[test]
fn context_compile_failure_ends_the_session() {
    assert!(session_end_after_compile(true).is_none());
    match session_end_after_compile(false) {
        Some(KernelEventKind::SessionEnded { reason }) => assert_eq!(reason, "context_compile_failed"),
        other => panic!("expected a session end, got {:?}", other),
    }
}

#[test]
fn json_text_of_tool_output_and_request_body() {
    let output = obj(vec![("ok", Json::Bool(true)), ("n", Json::Number(JsonNumber::PosInt(3)))]);
    assert_eq!(tool_output_text(&output), r#"{"n":3,"ok":true}"#);
    assert_eq!(request_body_text(&obj(vec![("model", s("m"))])), Ok(r#"{"model":"m"}"#.to_string()));
}

fn dump_input() -> ripd::observability::RequestDumpInput {
    ripd::observability::RequestDumpInput {
        session_id: "s1".to_string(),
        timestamp_ms: 12,
        seq: 55,
        endpoint: "https://api.openai.com/v1/responses".to_string(),
        request_index: 2,
        kind: "response.create".to_string(),
    }
}

#[test]
fn request_dump_is_skipped_when_disabled() {
    let body = Json::Object(vec![JsonMember { key: "model".to_string(), value: s("gpt-5") }]);
    let config = OpenResponsesRequestDumpConfig { enabled: false, max_bytes: 16 };
    assert!(request_dump_body(config, &body).is_none());
}

#[test]
fn request_dump_cuts_the_body_and_records_the_request() {
    let body = Json::Object(vec![
        JsonMember { key: "model".to_string(), value: s("gpt-5") },
        JsonMember { key: "input".to_string(), value: s("abcdefghijklmnopqrstuvwxyz") },
    ]);
    let full = request_body_text(&body).expect("text").into_bytes();
    let config = OpenResponsesRequestDumpConfig { enabled: true, max_bytes: 12 };
    let dump = request_dump_body(config, &body).expect("enabled").expect("serialized");
    assert_eq!(dump.stored, full[..12].to_vec());
    assert!(dump.truncated);
    assert_eq!(dump.total_bytes, full.len() as u64);
    assert_eq!(dump.body_bytes, 12);
    let record = request_dump_record(dump_input(), &body, &dump, "a".repeat(64));
    assert_eq!(record.session_id, "s1");
    assert_eq!(record.timestamp_ms, 12);
    assert_eq!(record.seq, 55);
    assert_eq!(record.endpoint, "https://api.openai.com/v1/responses");
    assert_eq!(record.request_index, 2);
    assert_eq!(record.kind, "response.create");
    assert_eq!(record.model.as_deref(), Some("gpt-5"));
    assert_eq!(record.body_artifact_id, "a".repeat(64));
    assert_eq!((record.body_bytes, record.total_bytes, record.truncated), (12, full.len() as u64, true));

    let body = Json::Object(vec![JsonMember { key: "input".to_string(), value: s("hello") }]);
    let config = OpenResponsesRequestDumpConfig { enabled: true, max_bytes: 1024 };
    let dump = request_dump_body(config, &body).expect("enabled").expect("serialized");
    assert_eq!(dump.stored, b"{\"input\":\"hello\"}".to_vec());
    assert!(!dump.truncated);
    let record = request_dump_record(dump_input(), &body, &dump, "b".repeat(64));
    assert_eq!(record.model, None);
    assert_eq!(record.body_bytes, record.total_bytes);
}

#[test]
fn followups_carry_the_configured_followup_message() {
    let mut lp = AgentLoop::new(false, Some("continue".to_string()), None, prompt_item());
    let first = send(lp.next_request());
    assert!(first.items.is_none());
    let mut collector = ToolCallCollector::new();
    collector.response_id = Some("resp_1".to_string());
    collector.completed_function_calls.push(call(0, "call_a", "ls"));
    let calls = lp.finish_response(Ok(()), &mut collector).expect("calls");
    assert!(matches!(lp.admit_call(&calls[0], &ToolChoiceEnforcement::AllFunctions), CallDecision::Run { .. }));
    lp.record_output("call_a", "{}".to_string());
    lp.end_round();
    let followup = send(lp.next_request());
    assert_eq!(followup.kind, RequestKind::Followup);
    let items = followup.items.expect("items");
    assert_eq!(items.len(), 2);
    assert_eq!(items[0].value().get_str("type"), Some("function_call_output"));
    assert_eq!(items[1].value().get_str("type"), Some("message"));
    assert_eq!(items[1].value().get_str("role"), Some("user"));
    assert_eq!(items[1].value().get_str("content"), Some("continue"));

    let mut lp = AgentLoop::new(true, Some("go on".to_string()), None, prompt_item());
    let first = send(lp.next_request());
    assert_eq!(first.items.map(|i| i.len()), Some(1));
    let mut collector = ToolCallCollector::new();
    collector.completed_function_calls.push(call(0, "call_a", "ls"));
    let calls = lp.finish_response(Ok(()), &mut collector).expect("calls");
    assert!(matches!(lp.admit_call(&calls[0], &ToolChoiceEnforcement::AllFunctions), CallDecision::Run { .. }));
    lp.record_output("call_a", "{}".to_string());
    lp.end_round();
    let followup = send(lp.next_request());
    assert_eq!(followup.kind, RequestKind::FollowupStatelessHistory);
    let items = followup.items.expect("history");
    assert_eq!(items.len(), 4);
    assert_eq!(items[3].value().get_str("content"), Some("go on"));
}
