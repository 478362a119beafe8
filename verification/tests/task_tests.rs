use ripd::tasks::{after_artifacts_dir, begin_task_start, task_launch, StartAction};
use ripd::task_run::{spawn_failed_error, PipesLoop};
use ripd::json::{Json, JsonNumber};
use ripd::kernel::{ToolTaskExecutionMode, ToolTaskStatus};
use ripd::paths::resolve_path;
use ripd::task_logs::{
    artifact_range_from_read, base64_decode, check_artifact_id, is_lower_hex_64, new_artifact_id, truncate_utf8,
    TaskLogSummary, TaskLogWriter, TaskLogs,
};
use ripd::task_status::{
    cancel_wall_time_ms, pipes_run_artifacts, spawned_artifacts, task_limits, TaskEngineConfig, TaskStatusResponse,
};
use ripd::tasks::{
    admit_task_spawn, check_resize, check_signal, check_task_tool, check_write_stdin, normalize_signal,
    pipes_exit_outcome, preview_limit, pty_exit_outcome, requested_mode, resolve_shell_program,
    ApiToolTaskExecutionMode, ApiToolTaskStatus, PtyWait, SignalAction, TaskOutputStream,
};

#[test]
fn tasks_new_artifact_id_is_lower_hex_64() {
    let id = new_artifact_id();
    assert!(is_lower_hex_64(&id));
}

#[test]
fn tasks_truncate_utf8_truncates_safely() {
    let bytes = "hello🙂world".as_bytes();
    let (truncated, did_truncate, used) = truncate_utf8(bytes, 8);
    assert!(did_truncate);
    assert_eq!(used, truncated.len());
    assert!(std::str::from_utf8(truncated.as_bytes()).is_ok());
}

#[test]
fn tasks_resolve_path_rejects_absolute_and_parent() {
    let root = "/srv/workspace";
    assert!(resolve_path(root, "/tmp").is_err());
    assert!(resolve_path(root, "../escape").is_err());
}

#[test]
fn tasks_is_lower_hex_64_validates() {
    assert!(is_lower_hex_64(&"a".repeat(64)));
    assert!(!is_lower_hex_64(&"A".repeat(64)));
    assert!(!is_lower_hex_64("short"));
}

#[test]
fn tasks_resolve_shell_program_empty_command_defaults() {
    let (program, args) = resolve_shell_program("");
    assert_eq!(program, "bash");
    assert_eq!(args, vec!["-c".to_string(), "".to_string()]);
}

#[test]
fn tasks_api_tool_task_execution_mode_conversions_roundtrip() {
    let pipes: ToolTaskExecutionMode = ApiToolTaskExecutionMode::Pipes.into();
    let pty: ToolTaskExecutionMode = ApiToolTaskExecutionMode::Pty.into();
    assert_eq!(pipes, ToolTaskExecutionMode::Pipes);
    assert_eq!(pty, ToolTaskExecutionMode::Pty);

    let pipes_api: ApiToolTaskExecutionMode = ToolTaskExecutionMode::Pipes.into();
    let pty_api: ApiToolTaskExecutionMode = ToolTaskExecutionMode::Pty.into();
    assert_eq!(pipes_api, ApiToolTaskExecutionMode::Pipes);
    assert_eq!(pty_api, ApiToolTaskExecutionMode::Pty);
}

#[test]
fn tasks_api_tool_task_status_from_covers_all_variants() {
    assert_eq!(ApiToolTaskStatus::from(ToolTaskStatus::Queued), ApiToolTaskStatus::Queued);
    assert_eq!(ApiToolTaskStatus::from(ToolTaskStatus::Running), ApiToolTaskStatus::Running);
    assert_eq!(ApiToolTaskStatus::from(ToolTaskStatus::Exited), ApiToolTaskStatus::Exited);
    assert_eq!(ApiToolTaskStatus::from(ToolTaskStatus::Cancelled), ApiToolTaskStatus::Cancelled);
    assert_eq!(ApiToolTaskStatus::from(ToolTaskStatus::Failed), ApiToolTaskStatus::Failed);
}

#[test]
fn tests_new_artifact_id_is_lower_hex_64() {
    let id = new_artifact_id();
    assert!(is_lower_hex_64(&id));
}

#[test]
fn tests_truncate_utf8_truncates_safely() {
    let bytes = "hello🙂world".as_bytes();
    let (truncated, did_truncate, used) = truncate_utf8(bytes, 8);
    assert!(did_truncate);
    assert_eq!(used, truncated.len());
    assert!(std::str::from_utf8(truncated.as_bytes()).is_ok());
}

#[test]
fn tests_resolve_path_rejects_absolute_and_parent() {
    let root = "/srv/workspace";
    assert!(resolve_path(root, "/tmp").is_err());
    assert!(resolve_path(root, "../escape").is_err());
}

#[test]
fn tests_is_lower_hex_64_validates() {
    assert!(is_lower_hex_64(&"a".repeat(64)));
    assert!(!is_lower_hex_64(&"A".repeat(64)));
    assert!(!is_lower_hex_64("short"));
}

#[test]
fn base64_decode_matches_known_vectors() {
    assert_eq!(base64_decode("").expect("empty"), b"");
    assert_eq!(base64_decode("aGk=").expect("hi"), b"hi");
    assert_eq!(base64_decode("aGkK").expect("hi\\n"), b"hi\n");
    assert!(base64_decode("aGk").is_err(), "length must be multiple of 4");
    assert!(base64_decode("aGk*").is_err(), "invalid chars rejected");
}

#[test]
fn base64_decode_rejects_invalid_padding() {
    let err = base64_decode("AA=A").expect_err("invalid");
    assert!(err.contains("invalid base64 padding"));
}

#[test]
fn tests_resolve_shell_program_empty_command_defaults() {
    let (program, args) = resolve_shell_program("");
    assert_eq!(program, "bash");
    assert_eq!(args, vec!["-c".to_string(), "".to_string()]);
}

#[test]
fn tests_api_tool_task_execution_mode_conversions_roundtrip() {
    let pipes: ToolTaskExecutionMode = ApiToolTaskExecutionMode::Pipes.into();
    let pty: ToolTaskExecutionMode = ApiToolTaskExecutionMode::Pty.into();
    assert_eq!(pipes, ToolTaskExecutionMode::Pipes);
    assert_eq!(pty, ToolTaskExecutionMode::Pty);

    let pipes_api: ApiToolTaskExecutionMode = ToolTaskExecutionMode::Pipes.into();
    let pty_api: ApiToolTaskExecutionMode = ToolTaskExecutionMode::Pty.into();
    assert_eq!(pipes_api, ApiToolTaskExecutionMode::Pipes);
    assert_eq!(pty_api, ApiToolTaskExecutionMode::Pty);
}

#[test]
fn tests_api_tool_task_status_from_covers_all_variants() {
    assert_eq!(ApiToolTaskStatus::from(ToolTaskStatus::Queued), ApiToolTaskStatus::Queued);
    assert_eq!(ApiToolTaskStatus::from(ToolTaskStatus::Running), ApiToolTaskStatus::Running);
    assert_eq!(ApiToolTaskStatus::from(ToolTaskStatus::Exited), ApiToolTaskStatus::Exited);
    assert_eq!(ApiToolTaskStatus::from(ToolTaskStatus::Cancelled), ApiToolTaskStatus::Cancelled);
    assert_eq!(ApiToolTaskStatus::from(ToolTaskStatus::Failed), ApiToolTaskStatus::Failed);
}

#[test]
fn normalize_signal_accepts_known_values() {
    assert_eq!(normalize_signal(""), None);
    assert_eq!(normalize_signal("   "), None);
    assert_eq!(normalize_signal("SIGINT"), Some(SignalAction::CtrlC));
    assert_eq!(normalize_signal("int"), Some(SignalAction::CtrlC));
    assert_eq!(normalize_signal("QUIT"), Some(SignalAction::CtrlBackslash));
    assert_eq!(normalize_signal("SIGTERM"), Some(SignalAction::Kill));
    assert_eq!(normalize_signal("SIGUSR1"), None);
}

#[test]
fn artifact_ids_are_checked_before_reading() {
    let err = check_artifact_id("not-hex").expect_err("err");
    assert!(err.contains("invalid artifact id"));
    assert!(check_artifact_id(&"0".repeat(64)).is_ok());
}

#[test]
fn artifact_range_marks_partial_reads_truncated() {
    let (content, bytes, total, truncated) = artifact_range_from_read(&b"ab".to_vec(), 2, 2, 6);
    assert_eq!(content, "ab");
    assert_eq!(bytes, 2);
    assert_eq!(total, 6);
    assert!(truncated);
    let (_, _, _, truncated) = artifact_range_from_read(&b"ab".to_vec(), 2, 4, 6);
    assert!(!truncated);
}

#[test]
fn base64_decode_vectors_with_padding() {
    assert_eq!(base64_decode("aGVsbG8=").expect("hello"), b"hello");
    assert_eq!(base64_decode("YQ==").expect("a"), b"a");
    assert!(base64_decode("Y===").is_err());
}

#[test]
fn stdin_resize_and_signal_checks_follow_the_task_mode() {
    assert_eq!(
        check_write_stdin(ApiToolTaskExecutionMode::Pipes, "aGk="),
        Err("write_stdin is only supported for pty tasks".to_string())
    );
    assert_eq!(check_write_stdin(ApiToolTaskExecutionMode::Pty, "aGk="), Ok(b"hi".to_vec()));
    assert!(check_write_stdin(ApiToolTaskExecutionMode::Pty, "@@@@").is_err());
    let big = "A".repeat(8192 / 3 * 4 + 8);
    assert_eq!(
        check_write_stdin(ApiToolTaskExecutionMode::Pty, &big),
        Err("stdin chunk too large (max 8192 bytes)".to_string())
    );
    assert_eq!(
        check_resize(ApiToolTaskExecutionMode::Pipes, 10, 10),
        Err("resize is only supported for pty tasks".to_string())
    );
    assert_eq!(
        check_resize(ApiToolTaskExecutionMode::Pty, 0, 10),
        Err("rows and cols must be > 0".to_string())
    );
    assert_eq!(check_resize(ApiToolTaskExecutionMode::Pty, 24, 80), Ok(()));
    assert_eq!(
        check_signal(ApiToolTaskExecutionMode::Pipes, "INT"),
        Err("signal is only supported for pty tasks".to_string())
    );
    assert_eq!(
        check_signal(ApiToolTaskExecutionMode::Pty, "  "),
        Err("signal must be non-empty".to_string())
    );
    assert_eq!(check_signal(ApiToolTaskExecutionMode::Pty, "SIGUSR1"), Err("unsupported signal".to_string()));
    assert_eq!(check_signal(ApiToolTaskExecutionMode::Pty, " sighup "), Ok(()));
}

#[test]
fn task_spawn_admission_and_tool_check() {
    assert!(admit_task_spawn(None, "bash", false));
    assert!(admit_task_spawn(Some(ApiToolTaskExecutionMode::Pty), "shell", true));
    assert!(!admit_task_spawn(Some(ApiToolTaskExecutionMode::Pty), "bash", false));
    assert!(!admit_task_spawn(None, "python", true));
    assert_eq!(check_task_tool("bash"), Ok(()));
    assert_eq!(check_task_tool("zsh"), Err("unsupported tool for task_spawn: zsh".to_string()));
    assert_eq!(requested_mode(None), ToolTaskExecutionMode::Pipes);
    assert_eq!(requested_mode(Some(ApiToolTaskExecutionMode::Pty)), ToolTaskExecutionMode::Pty);
}

#[test]
fn exit_outcomes_cover_cancel_and_wait_failures() {
    assert_eq!(pipes_exit_outcome(Ok(Some(0)), false), (ToolTaskStatus::Exited, Some(0), None));
    assert_eq!(pipes_exit_outcome(Ok(None), true), (ToolTaskStatus::Cancelled, Some(1), None));
    assert_eq!(
        pipes_exit_outcome(Err("gone".to_string()), false),
        (ToolTaskStatus::Failed, None, Some("wait failed: gone".to_string()))
    );
    assert_eq!(pty_exit_outcome(PtyWait::Exited(3), true), (ToolTaskStatus::Cancelled, Some(3), None));
    assert_eq!(
        pty_exit_outcome(PtyWait::JoinFailed("panic".to_string()), false),
        (ToolTaskStatus::Failed, None, Some("wait join failed: panic".to_string()))
    );
    assert_eq!(
        pty_exit_outcome(PtyWait::Missing, false),
        (ToolTaskStatus::Failed, None, Some("wait result missing".to_string()))
    );
    assert_eq!(preview_limit(100), 100);
    assert_eq!(preview_limit(100_000), 8192);
}

#[test]
fn log_writer_accounts_for_truncation() {
    let mut writer = TaskLogWriter::new(&"b".repeat(64), "p", 5);
    let (take, offset) = writer.begin_append(3);
    assert_eq!((take, offset), (3, 0));
    let _ = writer.finish_append(3, take, offset);
    let (take, offset) = writer.begin_append(4);
    assert_eq!((take, offset), (2, 3));
    let _ = writer.finish_append(4, take, offset);
    let summary = writer.finish();
    assert_eq!(summary.bytes_total, 7);
    assert_eq!(summary.bytes_stored, 5);
    assert!(summary.truncated);
    assert!(summary.error.is_none());
}

#[test]
fn task_status_record_moves_through_its_stages() {
    let logs = TaskLogs::new("/srv/workspace", ToolTaskExecutionMode::Pipes);
    let mut status = TaskStatusResponse::queued(
        "task-1".to_string(),
        "bash".to_string(),
        Some("build".to_string()),
        ToolTaskExecutionMode::Pipes,
        &logs,
    );
    assert_eq!(status.status, ApiToolTaskStatus::Queued);
    assert_eq!(status.execution_mode, ApiToolTaskExecutionMode::Pipes);
    let refs = status.artifacts.as_ref().and_then(|a| a.get("logs")).expect("log refs");
    assert!(refs.get("stdout").is_some());
    assert!(refs.get("stderr").is_some());
    assert!(refs.get("pty").is_none());
    assert!(logs.log_for_output(TaskOutputStream::Pty).is_none());
    status.mark_running(10);
    assert_eq!(status.status, ApiToolTaskStatus::Running);
    assert_eq!(status.started_at_ms, Some(10));
    let summary = TaskLogSummary::failed("id".to_string(), "p".to_string(), "stdout join failed".to_string());
    let artifacts = pipes_run_artifacts(&summary, &summary);
    status.mark_ended(ToolTaskStatus::Exited, Some(0), 25, artifacts, None);
    assert_eq!(status.status, ApiToolTaskStatus::Exited);
    assert_eq!(status.exit_code, Some(0));
    assert_eq!(status.ended_at_ms, Some(25));
    assert_eq!(status.title.as_deref(), Some("build"));
    let mut failed = TaskStatusResponse::queued(
        "task-2".to_string(),
        "bash".to_string(),
        None,
        ToolTaskExecutionMode::Pty,
        &TaskLogs::new("/srv/workspace", ToolTaskExecutionMode::Pty),
    );
    failed.mark_failed("spawn failed: nope".to_string(), 7);
    assert_eq!(failed.status, ApiToolTaskStatus::Failed);
    assert_eq!(failed.error.as_deref(), Some("spawn failed: nope"));
    assert!(failed.started_at_ms.is_none());
}

#[test]
fn task_limits_and_spawn_artifacts() {
    let config = TaskEngineConfig { workspace_root: "/srv/w".to_string(), artifact_max_bytes: 1024, max_bytes: 128 };
    assert_eq!(task_limits(None, Some(64), &config), (1024, 64));
    assert_eq!(task_limits(Some(10), None, &config), (10, 128));
    assert_eq!(config.artifacts_blobs_dir(), "/srv/w/.rip/artifacts/blobs");
    let logs = TaskLogs::new("/srv/w", ToolTaskExecutionMode::Pty);
    let doc = spawned_artifacts(&logs, 1024, 128);
    assert_eq!(doc.get("max_bytes"), Some(&Json::Number(JsonNumber::PosInt(128))));
    assert_eq!(doc.get("artifact_max_bytes"), Some(&Json::Number(JsonNumber::PosInt(1024))));
    assert!(doc.get("logs").and_then(|l| l.get("pty")).is_some());
    assert_eq!(cancel_wall_time_ms(50, 20), 30);
    assert_eq!(cancel_wall_time_ms(10, 20), 0);
}

#[test]
fn base64_round_trip_and_length_bound_examples() {
    assert_eq!(base64_decode("aGVsbG8gd29ybGQ=").expect("hello world"), b"hello world");
    assert_eq!(base64_decode("AAECAwQF").expect("bytes"), vec![0, 1, 2, 3, 4, 5]);
    assert_eq!(base64_decode("/w==").expect("ff"), vec![0xff]);
    let decoded = base64_decode("aGk=").expect("hi");
    assert!(decoded.len() <= 3 * ("aGk=".len() / 4));
}

#[test]
fn signal_names_ignore_ascii_case() {
    for name in ["SIGINT", "sigint", "Int", " quit ", "kill", "Hup", "term", "usr1"] {
        assert_eq!(normalize_signal(name), normalize_signal(&name.to_ascii_lowercase()));
    }
}

fn shell_args(cwd: Option<&str>) -> ripd::tasks::TaskArgs {
    ripd::tasks::TaskArgs {
        command: "true".to_string(),
        cwd: cwd.map(|c| c.to_string()),
        artifact_max_bytes: None,
        max_bytes: Some(64),
    }
}

#[test]
fn task_start_refuses_other_tools_and_bad_args_first() {
    match begin_task_start("ls", &Ok(shell_args(None))) {
        StartAction::Fail(e) => assert_eq!(e, "unsupported tool for task_spawn: ls"),
        other => panic!("unexpected {other:?}"),
    }
    match begin_task_start("bash", &Err("invalid type: integer `123`, expected a string".to_string())) {
        StartAction::Fail(e) => assert_eq!(e, "invalid args: invalid type: integer `123`, expected a string"),
        other => panic!("unexpected {other:?}"),
    }
    assert!(matches!(begin_task_start("shell", &Ok(shell_args(None))), StartAction::CreateArtifactsDir));
}

#[test]
fn task_start_announces_the_spawn_with_its_limits() {
    let config = TaskEngineConfig { workspace_root: "/w".to_string(), artifact_max_bytes: 1024, max_bytes: 128 };
    match after_artifacts_dir(false, &shell_args(None), &config) {
        StartAction::Fail(e) => assert_eq!(e, "failed to create artifacts dir"),
        other => panic!("unexpected {other:?}"),
    }
    match after_artifacts_dir(true, &shell_args(None), &config) {
        StartAction::Spawn { artifact_max_bytes, max_bytes } => assert_eq!((artifact_max_bytes, max_bytes), (1024, 64)),
        other => panic!("unexpected {other:?}"),
    }
}

#[test]
fn task_launch_runs_bash_in_the_workspace() {
    let (program, args, dir) = task_launch("/w", &shell_args(Some("subdir"))).expect("launch");
    assert_eq!(program, "bash");
    assert_eq!(args, vec!["-c".to_string(), "true".to_string()]);
    assert_eq!(dir.as_deref(), Some("/w/subdir"));
    assert_eq!(task_launch("/w", &shell_args(None)).expect("launch").2, None);
    let err = task_launch("/w", &shell_args(Some("../escape"))).expect_err("escape");
    assert!(err.contains("workspace root"));
    assert_eq!(task_launch("/w", &shell_args(Some("/etc"))).expect_err("absolute"), "absolute paths are not allowed");
}

#[test]
fn pipes_loop_ends_cancelled_only_with_a_reason() {
    let mut run = PipesLoop::new();
    assert!(run.awaits_cancel());
    assert_eq!(run.outcome(Ok(Some(0))), (ToolTaskStatus::Exited, Some(0), None));
    assert_eq!(run.cancelled_event(50, 10), None);
    assert_eq!(run.on_cancel(Some("user".to_string())), Some("user".to_string()));
    assert!(!run.awaits_cancel());
    assert_eq!(run.outcome(Ok(None)), (ToolTaskStatus::Cancelled, Some(1), None));
    assert_eq!(run.outcome(Ok(Some(143))), (ToolTaskStatus::Cancelled, Some(143), None));
    assert_eq!(run.cancelled_event(50, 10), Some(("user".to_string(), 40)));
    assert_eq!(run.cancelled_event(5, 10), Some(("user".to_string(), 0)));

    let mut quiet = PipesLoop::new();
    assert_eq!(quiet.on_cancel(None), None);
    assert_eq!(quiet.outcome(Ok(Some(9))), (ToolTaskStatus::Exited, Some(9), None));
    assert_eq!(
        quiet.outcome(Err("no child".to_string())),
        (ToolTaskStatus::Failed, None, Some("wait failed: no child".to_string()))
    );
    assert_eq!(spawn_failed_error("not found"), "spawn failed: not found");
}
