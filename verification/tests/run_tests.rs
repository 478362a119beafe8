use ripd::context_selection::{
    context_compiler_id, select_context_strategy, summary_message_content, CheckpointForCompile, ContextStrategy,
};
use ripd::json::{Json, JsonNumber};
use ripd::kernel::{ToolTaskStatus, ToolTaskStream};
use ripd::session::{cursor_update, session_plan, InputAction, SessionPlan, ToolCommand};
use ripd::sse_bytes::{utf8_pieces, Utf8Piece};
use ripd::task_run::{control_effect, control_report, output_delta, ControlEffect, ControlReport, PtyLoop, TaskControl};
use ripd::tasks::PtyWait;

fn checkpoint(id: &str, kind: &str, artifact: &str, to_seq: u64) -> CheckpointForCompile {
    CheckpointForCompile {
        checkpoint_id: id.to_string(),
        summary_kind: kind.to_string(),
        summary_artifact_id: artifact.to_string(),
        to_seq,
    }
}

#[test]
fn context_selection_without_checkpoints_uses_recent_messages() {
    let selection = select_context_strategy(&Vec::new(), None, "cumulative");
    assert_eq!(selection.strategy, ContextStrategy::RecentMessages);
    assert_eq!(selection.strategy.as_str(), "recent_messages_v1");
    assert_eq!(selection.reason.get_str("selected"), Some("recent_messages_v1"));
    assert_eq!(selection.reason.get_str("cause"), Some("no_compaction_checkpoint"));
    assert!(selection.resets.is_empty());
    assert!(selection.compaction_checkpoint.is_none());
    assert_eq!(context_compiler_id(), "rip.context_compiler.v1");
}

#[test]
fn context_selection_ignores_unsupported_latest_checkpoint() {
    let latest = checkpoint("c1", "other", "a1", 4);
    let selection = select_context_strategy(&Vec::new(), Some(&latest), "cumulative");
    assert_eq!(selection.strategy, ContextStrategy::RecentMessages);
    assert_eq!(selection.reason.get_str("cause"), Some("unsupported_compaction_summary_kind"));
    assert_eq!(selection.resets.len(), 1);
    let reset = &selection.resets[0];
    assert_eq!(reset.input, "compaction_checkpoint");
    assert_eq!(reset.action, "ignored");
    assert_eq!(reset.reason, "unsupported_summary_kind");
    assert_eq!(
        reset.reference.as_ref().and_then(|r| r.get_str("summary_kind")),
        Some("other")
    );

    let supported = checkpoint("c1", "cumulative", "a1", 4);
    let selection = select_context_strategy(&Vec::new(), Some(&supported), "cumulative");
    assert_eq!(selection.reason.get_str("cause"), Some("no_supported_compaction_checkpoint"));
    assert!(selection.resets.is_empty());
}

#[test]
fn context_selection_picks_summary_then_hierarchy() {
    let one = vec![checkpoint("c1", "cumulative", "a1", 3)];
    let selection = select_context_strategy(&one, None, "cumulative");
    assert_eq!(selection.strategy.as_str(), "summaries_recent_messages_v1");
    assert_eq!(selection.reason.get_str("cause"), Some("compaction_checkpoint"));
    assert_eq!(selection.compaction_checkpoint.as_ref().map(|c| c.to_seq), Some(3));
    assert!(selection.reason.get("levels").is_none());

    let two = vec![checkpoint("c1", "cumulative", "a1", 3), checkpoint("c2", "cumulative", "a2", 7)];
    let selection = select_context_strategy(&two, None, "cumulative");
    assert_eq!(selection.strategy.as_str(), "hierarchical_summaries_recent_messages_v1");
    assert_eq!(selection.reason.get_str("cause"), Some("compaction_checkpoint_hierarchy"));
    assert_eq!(selection.reason.get_u64("levels"), Some(2));
    assert_eq!(
        selection.reason.get("to_seqs"),
        Some(&Json::Array(vec![
            Json::Number(JsonNumber::PosInt(3)),
            Json::Number(JsonNumber::PosInt(7))
        ]))
    );
    assert_eq!(selection.compaction_checkpoints.len(), 2);
    assert_eq!(
        selection.compaction_checkpoint.as_ref().map(|c| c.checkpoint_id.as_str()),
        Some("c2")
    );
}

#[test]
fn context_summary_message_has_heading_note_and_summary() {
    assert_eq!(
        summary_message_content(Some("note"), "summary one"),
        "Compaction summary (earlier context)\nnote\nsummary one"
    );
    assert_eq!(
        summary_message_content(None, "summary one"),
        "Compaction summary (earlier context)\nsummary one"
    );
}

#[test]
fn sse_bytes_valid_buffer_is_one_piece() {
    let (pieces, used) = utf8_pieces("data: hé\n\n".as_bytes());
    assert_eq!(pieces, vec![Utf8Piece::Text("data: hé\n\n".to_string())]);
    assert_eq!(used, "data: hé\n\n".len());
}

#[test]
fn sse_bytes_incomplete_tail_waits() {
    let bytes = "aé".as_bytes();
    let cut = &bytes[..2];
    let (pieces, used) = utf8_pieces(cut);
    assert_eq!(pieces, vec![Utf8Piece::Text("a".to_string())]);
    assert_eq!(used, 1);

    let (pieces, used) = utf8_pieces(&bytes[1..2]);
    assert!(pieces.is_empty());
    assert_eq!(used, 0);
}

#[test]
fn sse_bytes_invalid_bytes_become_replacements() {
    let (pieces, used) = utf8_pieces(&[b'a', 0xff, b'b']);
    assert_eq!(
        pieces,
        vec![
            Utf8Piece::Text("a".to_string()),
            Utf8Piece::Replacement,
            Utf8Piece::Text("b".to_string())
        ]
    );
    assert_eq!(used, 3);

    let (pieces, used) = utf8_pieces(&[0xff, 0xfe]);
    assert_eq!(
        pieces,
        vec![Utf8Piece::Replacement, Utf8Piece::Replacement, Utf8Piece::Text(String::new())]
    );
    assert_eq!(used, 2);
}

#[test]
fn sse_bytes_truncated_sequence_after_text_is_skipped_whole() {
    // 0xE2 0x82 starts a three-byte character that 'A' breaks off.
    let (pieces, used) = utf8_pieces(&[b'x', 0xe2, 0x82, b'A']);
    assert_eq!(
        pieces,
        vec![
            Utf8Piece::Text("x".to_string()),
            Utf8Piece::Replacement,
            Utf8Piece::Text("A".to_string())
        ]
    );
    assert_eq!(used, 4);
}

#[test]
fn task_run_output_delta_previews_and_records_log() {
    let log = Json::Object(vec![]);
    let delta = output_delta(ToolTaskStream::Stdout, b"hello", 3, Some(log)).expect("delta");
    assert_eq!(delta.stream, ToolTaskStream::Stdout);
    assert_eq!(delta.chunk, "hel");
    assert_eq!(
        delta.artifacts.as_ref().and_then(|a| a.get("log")),
        Some(&Json::Object(vec![]))
    );

    let delta = output_delta(ToolTaskStream::Pty, b"hi", 100, None).expect("delta");
    assert_eq!(delta.chunk, "hi");
    assert!(delta.artifacts.is_none());

    assert!(output_delta(ToolTaskStream::Stderr, b"", 100, None).is_none());
}

#[test]
fn task_run_signal_controls_map_to_terminal_effects() {
    let ctrl_c = TaskControl::Signal { signal: "SIGINT".to_string() };
    assert!(matches!(control_effect(&ctrl_c), ControlEffect::Write(b) if b == vec![0x03]));
    let quit = TaskControl::Signal { signal: " quit ".to_string() };
    assert!(matches!(control_effect(&quit), ControlEffect::Write(b) if b == vec![0x1c]));
    let term = TaskControl::Signal { signal: "TERM".to_string() };
    assert!(matches!(control_effect(&term), ControlEffect::Kill));
    let bogus = TaskControl::Signal { signal: "USR1".to_string() };
    assert!(matches!(control_effect(&bogus), ControlEffect::Ignore));
    assert_eq!(control_report(bogus, true), None);
    assert_eq!(
        control_report(TaskControl::Signal { signal: "SIGINT".to_string() }, true),
        Some(ControlReport::Signalled { signal: "SIGINT".to_string() })
    );
}

#[test]
fn task_run_controls_are_reported_only_when_applied() {
    let write = TaskControl::WriteStdin { chunk_b64: "aGk=".to_string(), bytes: b"hi".to_vec() };
    assert!(matches!(control_effect(&write), ControlEffect::Write(b) if b == b"hi".to_vec()));
    assert_eq!(
        control_report(write, true),
        Some(ControlReport::StdinWritten { chunk_b64: "aGk=".to_string() })
    );
    let resize = TaskControl::Resize { rows: 30, cols: 100 };
    assert!(matches!(control_effect(&resize), ControlEffect::Resize { rows: 30, cols: 100 }));
    assert_eq!(control_report(resize, false), None);
}

#[test]
fn task_run_pty_loop_runs_until_exit_and_close() {
    let mut state = PtyLoop::new();
    assert!(state.running());
    assert!(state.awaits_cancel());
    assert_eq!(state.on_cancel(Some("user".to_string())), Some("user".to_string()));
    assert!(!state.awaits_cancel());
    state.on_exit();
    assert!(state.running());
    assert!(!state.awaits_exit());
    state.on_output_closed();
    assert!(!state.running());
    assert_eq!(state.outcome(PtyWait::Exited(0)), (ToolTaskStatus::Cancelled, Some(0), None));

    let plain = PtyLoop::new();
    assert_eq!(plain.outcome(PtyWait::Exited(2)), (ToolTaskStatus::Exited, Some(2), None));
}

#[test]
fn session_plan_locks_writing_tools_and_compiles_context_for_continuities() {
    let write = InputAction::Tool(ToolCommand { tool: "write".to_string(), args: Json::Null, timeout_ms: None });
    assert_eq!(
        session_plan(&write, false, true),
        SessionPlan::RunTool { locked: true, record_side_effects: true }
    );
    let read = InputAction::Tool(ToolCommand { tool: "read".to_string(), args: Json::Null, timeout_ms: None });
    assert_eq!(
        session_plan(&read, true, true),
        SessionPlan::RunTool { locked: false, record_side_effects: false }
    );
    assert_eq!(
        session_plan(&InputAction::Prompt, true, true),
        SessionPlan::ProviderRun { compile_context: true }
    );
    assert_eq!(session_plan(&InputAction::Prompt, false, true), SessionPlan::RuntimeOnly);

    let cursor = cursor_update("completed", true, Some("resp_1")).expect("cursor");
    assert_eq!(cursor.get_str("previous_response_id"), Some("resp_1"));
    assert!(cursor_update("tool_budget_exhausted", true, Some("resp_1")).is_none());
    assert!(cursor_update("completed", false, Some("resp_1")).is_none());
    assert!(cursor_update("completed", true, None).is_none());
}

#[test]
fn openresponses_pipe_handles_invalid_utf8_bytes() {
    let mut utf8_buf: Vec<u8> = Vec::new();
    utf8_buf.extend_from_slice(&[0xFF]);
    let (pieces, used) = utf8_pieces(&utf8_buf);
    assert_eq!(pieces, vec![Utf8Piece::Replacement, Utf8Piece::Text(String::new())]);
    utf8_buf.drain(..used);
    assert!(utf8_buf.is_empty());
    utf8_buf.extend_from_slice(b"data: [DONE]\n\n");
    let (pieces, used) = utf8_pieces(&utf8_buf);
    assert_eq!(pieces, vec![Utf8Piece::Text("data: [DONE]\n\n".to_string())]);
    assert_eq!(used, utf8_buf.len());
}

#[test]
fn openresponses_pipe_handles_partial_utf8_sequence() {
    let mut utf8_buf: Vec<u8> = Vec::new();
    let mut chunk = b"data: ".to_vec();
    chunk.push(0xF0);
    utf8_buf.extend_from_slice(&chunk);
    let (pieces, used) = utf8_pieces(&utf8_buf);
    assert_eq!(pieces, vec![Utf8Piece::Text("data: ".to_string())]);
    utf8_buf.drain(..used);
    assert_eq!(utf8_buf, vec![0xF0]);
}

#[test]
fn sse_bytes_character_cut_across_chunks_is_rejoined() {
    let whole = "data: €uro\n\n".as_bytes();
    for cut in 0..=whole.len() {
        let mut utf8_buf: Vec<u8> = whole[..cut].to_vec();
        let mut text = String::new();
        let (pieces, used) = utf8_pieces(&utf8_buf);
        for piece in pieces {
            match piece {
                Utf8Piece::Text(t) => text.push_str(&t),
                Utf8Piece::Replacement => text.push('\u{FFFD}'),
            }
        }
        utf8_buf.drain(..used);
        utf8_buf.extend_from_slice(&whole[cut..]);
        let (pieces, used) = utf8_pieces(&utf8_buf);
        assert_eq!(used, utf8_buf.len());
        for piece in pieces {
            match piece {
                Utf8Piece::Text(t) => text.push_str(&t),
                Utf8Piece::Replacement => text.push('\u{FFFD}'),
            }
        }
        assert_eq!(text, "data: €uro\n\n");
    }
}

#[test]
fn task_run_pty_artifacts_and_output_arm() {
    let summary = ripd::task_logs::TaskLogSummary::failed(
        "a".repeat(64),
        ".rip/artifacts/blobs/x".to_string(),
        "pty output join failed".to_string(),
    );
    let artifacts = ripd::task_status::pty_run_artifacts(&summary);
    let pty = artifacts.get("logs").and_then(|logs| logs.get("pty")).expect("pty");
    assert_eq!(pty.get_str("error"), Some("pty output join failed"));
    assert_eq!(pty.get_u64("bytes_total"), Some(0));

    let mut state = PtyLoop::new();
    assert!(state.awaits_output());
    state.on_output_closed();
    assert!(!state.awaits_output());
    assert!(state.running());
    assert_eq!(
        state.outcome(PtyWait::Missing),
        (ToolTaskStatus::Failed, None, Some("wait result missing".to_string()))
    );
}

#[test]
fn random_ids_are_version_4_uuids() {
    let simple = ripd::ids::random_uuid_simple();
    assert_eq!(simple.len(), 32);
    assert_eq!(&simple[12..13], "4");
    assert!(matches!(&simple[16..17], "8" | "9" | "a" | "b"));
    assert!(simple.chars().all(|c| c.is_ascii_hexdigit() && !c.is_ascii_uppercase()));
    let event = ripd::ids::new_event_id();
    assert_eq!(event.len(), 36);
    assert_eq!(&event[14..15], "4");
    assert!(matches!(&event[19..20], "8" | "9" | "a" | "b"));
    let parts: Vec<&str> = event.split('-').map(|p| p).collect();
    assert_eq!(parts.iter().map(|p| p.len()).collect::<Vec<_>>(), vec![8, 4, 4, 4, 12]);
}

#[test]
fn epoch_millis_cuts_to_64_bits_and_maps_no_reading_to_zero() {
    assert_eq!(ripd::ids::epoch_millis(None), 0);
    assert_eq!(ripd::ids::epoch_millis(Some(1_700_000_000_123)), 1_700_000_000_123);
    assert_eq!(ripd::ids::epoch_millis(Some((1u128 << 64) + 5)), 5);
    assert!(ripd::ids::now_ms() > 0);
}
