use ripd::streaming::{stream_failure, StreamFailure};
use ripd::json::{Json, JsonMember, JsonNumber};
use ripd::kernel::{KernelEvent, KernelEventKind};
use ripd::streaming::{
    function_call_item_from_call, function_call_output_item, normalize_rel_path_string,
    summarize_continuity_tool_side_effects, tool_events_to_function_call_output, FunctionCallItem, ParsedEvent,
    ParsedEventKind, ToolCallCollector,
};

fn s(text: &str) -> Json {
    Json::Str(text.to_string())
}

fn n(value: u64) -> Json {
    Json::Number(JsonNumber::PosInt(value))
}

fn obj(members: Vec<(&str, Json)>) -> Json {
    Json::Object(members.into_iter().map(|(key, value)| JsonMember { key: key.to_string(), value }).collect())
}

fn parsed_event(data: Json) -> ParsedEvent {
    ParsedEvent { kind: ParsedEventKind::Event, data: Some(data) }
}

fn make_event(kind: KernelEventKind) -> KernelEvent {
    KernelEvent { id: "e1".to_string(), session_id: "s1".to_string(), timestamp_ms: 0, seq: 0, kind }
}

fn call(output_index: u64, call_id: &str, item_id: Option<&str>) -> FunctionCallItem {
    FunctionCallItem {
        output_index,
        call_id: call_id.to_string(),
        item_id: item_id.map(|id| id.to_string()),
        name: "ls".to_string(),
        arguments: "{}".to_string(),
    }
}

#[test]
fn tool_events_to_function_call_output_ok() {
    let events = vec![
        make_event(KernelEventKind::ToolStdout { tool_id: "t1".to_string(), chunk: "out".to_string() }),
        make_event(KernelEventKind::ToolStderr { tool_id: "t1".to_string(), chunk: "err".to_string() }),
        make_event(KernelEventKind::ToolEnded {
            tool_id: "t1".to_string(),
            exit_code: 0,
            artifacts: Some(obj(vec![("id", s("a1"))])),
        }),
    ];
    let value = tool_events_to_function_call_output("ls", &events);
    assert_eq!(value.get("ok"), Some(&Json::Bool(true)));
    assert_eq!(value.get("stdout").and_then(|v| v.as_str()), Some("out"));
    assert_eq!(value.get("stderr").and_then(|v| v.as_str()), Some("err"));
    assert_eq!(value.get("artifacts").and_then(|v| v.get("id")).and_then(|v| v.as_str()), Some("a1"));
}

#[test]
fn tool_events_to_function_call_output_error() {
    let events = vec![
        make_event(KernelEventKind::ToolStdout { tool_id: "t1".to_string(), chunk: "out".to_string() }),
        make_event(KernelEventKind::ToolFailed { tool_id: "t1".to_string(), error: "boom".to_string() }),
    ];
    let value = tool_events_to_function_call_output("ls", &events);
    assert_eq!(value.get("ok"), Some(&Json::Bool(false)));
    assert_eq!(value.get("error").and_then(|v| v.as_str()), Some("boom"));
}

#[test]
fn tool_output_defaults_to_exit_code_one_and_keeps_negative_codes() {
    let value = tool_events_to_function_call_output("ls", &[]);
    assert_eq!(value.get("tool").and_then(|v| v.as_str()), Some("ls"));
    assert_eq!(value.get("exit_code").and_then(|v| v.as_u64()), Some(1));
    assert_eq!(value.get("ok"), Some(&Json::Bool(false)));
    assert!(value.get("artifacts").is_none());
    let events = vec![
        make_event(KernelEventKind::ToolStdout { tool_id: "t".to_string(), chunk: "a".to_string() }),
        make_event(KernelEventKind::ToolStdout { tool_id: "t".to_string(), chunk: "b".to_string() }),
        make_event(KernelEventKind::ToolEnded { tool_id: "t".to_string(), exit_code: -2, artifacts: None }),
    ];
    let value = tool_events_to_function_call_output("x", &events);
    assert_eq!(value.get("stdout").and_then(|v| v.as_str()), Some("ab"));
    assert_eq!(value.get("exit_code"), Some(&Json::Number(JsonNumber::NegInt(-2))));
}

#[test]
fn function_call_item_includes_id_when_requested() {
    let item = function_call_item_from_call(&call(0, "call_1", Some("item_1")), true);
    let value = item.value();
    assert_eq!(value.get("id").and_then(|v| v.as_str()), Some("item_1"));
}

#[test]
fn function_call_item_generates_id_when_missing() {
    let item = function_call_item_from_call(&call(0, "call_2", None), true);
    let value = item.value();
    assert_eq!(value.get("id").and_then(|v| v.as_str()), Some("fc_call_2"));
}

#[test]
fn function_call_item_omits_id_when_disabled() {
    let item = function_call_item_from_call(&call(0, "call_3", Some("item_3")), false);
    let value = item.value();
    assert!(value.get("id").is_none());
    assert_eq!(value.get("type").and_then(|v| v.as_str()), Some("function_call"));
    assert_eq!(value.get("call_id").and_then(|v| v.as_str()), Some("call_3"));
    assert_eq!(value.get("arguments").and_then(|v| v.as_str()), Some("{}"));
}

#[test]
fn function_call_output_item_sets_id_when_enabled() {
    let item = function_call_output_item("call_4", "{\"ok\":true}".to_string(), true);
    let value = item.value();
    assert_eq!(value.get("id").and_then(|v| v.as_str()), Some("output_call_4"));
}

#[test]
fn function_call_output_item_omits_id_when_disabled() {
    let item = function_call_output_item("call_5", "{\"ok\":true}".to_string(), false);
    let value = item.value();
    assert!(value.get("id").is_none());
    assert_eq!(value.get("output").and_then(|v| v.as_str()), Some("{\"ok\":true}"));
}

#[test]
fn tool_call_collector_tracks_function_calls() {
    let mut collector = ToolCallCollector::new();
    let added = parsed_event(obj(vec![
        ("type", s("response.output_item.added")),
        ("output_index", n(1)),
        (
            "item",
            obj(vec![
                ("type", s("function_call")),
                ("call_id", s("call_1")),
                ("name", s("ls")),
                ("arguments", s("{\"path\":\".\"}")),
            ]),
        ),
    ]));
    collector.observe(&added);

    let delta = parsed_event(obj(vec![
        ("type", s("response.function_call_arguments.delta")),
        ("item_id", s("call_1")),
        ("output_index", n(1)),
        ("delta", s("{\"path\":\".\"}")),
    ]));
    collector.observe(&delta);

    let done = parsed_event(obj(vec![
        ("type", s("response.output_item.done")),
        ("output_index", n(1)),
        ("item", obj(vec![("type", s("function_call")), ("call_id", s("call_1")), ("name", s("ls"))])),
    ]));
    collector.observe(&done);

    let calls = collector.drain_function_calls();
    assert_eq!(calls.len(), 1);
    assert_eq!(calls[0].call_id, "call_1");
    assert_eq!(calls[0].name, "ls");
}

#[test]
fn tool_call_collector_sorts_by_output_index() {
    let mut collector = ToolCallCollector::default();
    collector.completed_function_calls.push(FunctionCallItem {
        output_index: 2,
        call_id: "call_2".to_string(),
        item_id: None,
        name: "ls".to_string(),
        arguments: "{}".to_string(),
    });
    collector.completed_function_calls.push(FunctionCallItem {
        output_index: 1,
        call_id: "call_1".to_string(),
        item_id: None,
        name: "ls".to_string(),
        arguments: "{}".to_string(),
    });
    let calls = collector.drain_function_calls();
    assert_eq!(calls[0].output_index, 1);
    assert_eq!(calls[1].output_index, 2);
}

#[test]
fn drain_keeps_completion_order_within_an_output_index() {
    let mut collector = ToolCallCollector::new();
    collector.completed_function_calls.push(call(3, "c", None));
    collector.completed_function_calls.push(call(1, "a", None));
    collector.completed_function_calls.push(call(3, "d", None));
    collector.completed_function_calls.push(call(1, "b", None));
    let calls = collector.drain_function_calls();
    let ids: Vec<&str> = calls.iter().map(|c| c.call_id.as_str()).collect();
    assert_eq!(ids, vec!["a", "b", "c", "d"]);
    assert!(collector.drain_function_calls().is_empty());
}

#[test]
fn tool_call_collector_uses_arguments_done() {
    let mut collector = ToolCallCollector::default();
    let added = parsed_event(obj(vec![
        ("type", s("response.output_item.added")),
        ("output_index", n(0)),
        (
            "item",
            obj(vec![("type", s("function_call")), ("id", s("item_1")), ("call_id", s("call_1")), ("name", s("read"))]),
        ),
    ]));
    collector.observe(&added);

    let args_done = parsed_event(obj(vec![
        ("type", s("response.function_call_arguments.done")),
        ("item_id", s("item_1")),
        ("output_index", n(0)),
        ("arguments", s("{\"path\":\"a.txt\"}")),
    ]));
    collector.observe(&args_done);

    let done = parsed_event(obj(vec![
        ("type", s("response.output_item.done")),
        ("output_index", n(0)),
        (
            "item",
            obj(vec![("type", s("function_call")), ("id", s("item_1")), ("call_id", s("call_1")), ("name", s("read"))]),
        ),
    ]));
    collector.observe(&done);

    let calls = collector.drain_function_calls();
    assert_eq!(calls.len(), 1);
    assert_eq!(calls[0].call_id, "call_1");
    assert_eq!(calls[0].arguments, "{\"path\":\"a.txt\"}");
}

#[test]
fn tool_call_collector_records_response_id_even_without_event_type() {
    let mut collector = ToolCallCollector::default();
    let event = ParsedEvent {
        kind: ParsedEventKind::Event,
        data: Some(obj(vec![("response", obj(vec![("id", s("resp_1"))]))])),
    };
    collector.observe(&event);
    assert_eq!(collector.response_id.as_deref(), Some("resp_1"));
}

#[test]
fn tool_call_collector_ignores_non_function_items() {
    let mut collector = ToolCallCollector::default();
    let added = parsed_event(obj(vec![
        ("type", s("response.output_item.added")),
        ("output_index", n(0)),
        ("item", obj(vec![("type", s("output_text")), ("text", s("hi"))])),
    ]));
    collector.observe(&added);
    assert!(collector.drain_function_calls().is_empty());
}

#[test]
fn collector_ignores_done_events_and_keeps_nonempty_response_ids() {
    let mut collector = ToolCallCollector::new();
    collector.observe(&ParsedEvent {
        kind: ParsedEventKind::Done,
        data: Some(obj(vec![("response", obj(vec![("id", s("resp_x"))]))])),
    });
    assert!(collector.response_id.is_none());
    collector.observe(&parsed_event(obj(vec![("response", obj(vec![("id", s("resp_1"))]))])));
    collector.observe(&parsed_event(obj(vec![("response", obj(vec![("id", s(""))]))])));
    assert_eq!(collector.response_id.as_deref(), Some("resp_1"));
}

#[test]
fn call_ids_keep_their_first_item_id() {
    let mut collector = ToolCallCollector::new();
    collector.observe(&parsed_event(obj(vec![
        ("type", s("response.output_item.added")),
        ("output_index", n(4)),
        ("item", obj(vec![("type", s("function_call")), ("id", s("fc_9")), ("call_id", s("call_9")), ("name", s("grep"))])),
    ])));
    collector.observe(&parsed_event(obj(vec![
        ("type", s("response.function_call_arguments.delta")),
        ("item_id", s("fc_9")),
        ("output_index", n(4)),
        ("delta", s("{\"q\":")),
    ])));
    collector.observe(&parsed_event(obj(vec![
        ("type", s("response.function_call_arguments.delta")),
        ("item_id", s("fc_9")),
        ("output_index", n(4)),
        ("delta", s("1}")),
    ])));
    collector.observe(&parsed_event(obj(vec![
        ("type", s("response.output_item.done")),
        ("output_index", n(4)),
        ("item", obj(vec![("type", s("function_call")), ("call_id", s("call_9"))])),
    ])));
    let calls = collector.drain_function_calls();
    assert_eq!(calls.len(), 1);
    assert_eq!(calls[0].item_id.as_deref(), Some("fc_9"));
    assert_eq!(calls[0].name, "grep");
    assert_eq!(calls[0].arguments, "{\"q\":1}");
    assert_eq!(calls[0].output_index, 4);
}

#[test]
fn side_effects_sort_and_dedup_changed_files() {
    let events = vec![
        make_event(KernelEventKind::ToolStarted {
            tool_id: "t9".to_string(),
            name: "write".to_string(),
            args: Json::Null,
            timeout_ms: None,
        }),
        make_event(KernelEventKind::CheckpointCreated {
            checkpoint_id: "cp1".to_string(),
            files: vec!["z.txt".to_string()],
            auto: true,
        }),
        make_event(KernelEventKind::ToolEnded {
            tool_id: "t9".to_string(),
            exit_code: 0,
            artifacts: Some(obj(vec![(
                "changed_files",
                Json::Array(vec![s("src\\b.rs"), s("a.rs"), n(3), s("src/b.rs")]),
            )])),
        }),
    ];
    let effects = summarize_continuity_tool_side_effects(&events).expect("tool started");
    assert_eq!(effects.tool_id, "t9");
    assert_eq!(effects.tool_name, "write");
    assert_eq!(effects.checkpoint_id.as_deref(), Some("cp1"));
    assert_eq!(effects.affected_paths, Some(vec!["a.rs".to_string(), "src/b.rs".to_string()]));
}

#[test]
fn side_effects_fall_back_to_checkpoint_files_and_need_a_tool_start() {
    let events = vec![
        make_event(KernelEventKind::ToolStarted {
            tool_id: "t1".to_string(),
            name: "apply_patch".to_string(),
            args: Json::Null,
            timeout_ms: Some(5),
        }),
        make_event(KernelEventKind::CheckpointCreated {
            checkpoint_id: "manual".to_string(),
            files: vec!["ignored.txt".to_string()],
            auto: false,
        }),
        make_event(KernelEventKind::CheckpointCreated {
            checkpoint_id: "cp2".to_string(),
            files: vec!["b\\c.txt".to_string(), "a.txt".to_string(), "a.txt".to_string()],
            auto: true,
        }),
    ];
    let effects = summarize_continuity_tool_side_effects(&events).expect("tool started");
    assert_eq!(effects.checkpoint_id.as_deref(), Some("cp2"));
    assert_eq!(effects.affected_paths, Some(vec!["a.txt".to_string(), "b/c.txt".to_string()]));
    assert!(summarize_continuity_tool_side_effects(&events[1..]).is_none());
}

#[test]
fn side_effects_use_a_single_artifact_path() {
    let events = vec![
        make_event(KernelEventKind::ToolStarted {
            tool_id: "t2".to_string(),
            name: "write".to_string(),
            args: Json::Null,
            timeout_ms: None,
        }),
        make_event(KernelEventKind::ToolEnded {
            tool_id: "t2".to_string(),
            exit_code: 0,
            artifacts: Some(obj(vec![("path", s("docs\\x.md"))])),
        }),
    ];
    let effects = summarize_continuity_tool_side_effects(&events).expect("tool started");
    assert_eq!(effects.affected_paths, Some(vec!["docs/x.md".to_string()]));
    assert!(effects.checkpoint_id.is_none());
}

#[test]
fn normalize_rel_path_string_turns_backslashes_into_slashes() {
    assert_eq!(normalize_rel_path_string("a\\b\\c"), "a/b/c");
    assert_eq!(normalize_rel_path_string("plain/path"), "plain/path");
}

#[test]
fn stream_failures_give_their_reasons() {
    assert_eq!(stream_failure(StreamFailure::InvalidPayload), (None, "invalid_request".to_string()));
    assert_eq!(
        stream_failure(StreamFailure::DumpFailed("artifact write failed: x".to_string())),
        (None, "artifact write failed: x".to_string())
    );
    assert_eq!(
        stream_failure(StreamFailure::SendFailed("connection refused".to_string())),
        (Some("connection refused".to_string()), "provider_error".to_string())
    );
    assert_eq!(
        stream_failure(StreamFailure::HttpError { status: "500 Internal Server Error".to_string(), body: "oops".to_string() }),
        (Some("provider http error: 500 Internal Server Error: oops".to_string()), "provider_error".to_string())
    );
    assert_eq!(
        stream_failure(StreamFailure::NoFirstByte),
        (Some("provider stream ended before first byte".to_string()), "provider_error".to_string())
    );
    assert_eq!(
        stream_failure(StreamFailure::ChunkFailed("reset".to_string())),
        (Some("reset".to_string()), "provider_error".to_string())
    );
}
