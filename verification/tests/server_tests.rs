use ripd::event_stream::{is_new_live_event, snapshot_last_seq};
use ripd::kernel::{KernelEvent, KernelEventKind};
use ripd::registry::Registry;
use ripd::route_errors::{
    branch_error_status, checkpoint_error_status, error_status, handoff_error_status, lookup_error_status, or_default,
    stride_error_status, unless_blank, ErrorStatus,
};
use ripd::task_status::{cancel_reason, output_window, TaskEngineConfig};

fn event(seq: u64) -> KernelEvent {
    KernelEvent { id: format!("e{seq}"), session_id: "s".to_string(), timestamp_ms: 0, seq, kind: KernelEventKind::Other }
}

#[test]
fn replay_skips_live_events_already_recorded() {
    let recorded = vec![event(0), event(1), event(2)];
    let last = snapshot_last_seq(&recorded);
    assert_eq!(last, Some(2));
    let live: Vec<u64> = [1, 2, 3, 4]
        .iter()
        .map(|s| event(*s))
        .filter(|e| is_new_live_event(last, e))
        .map(|e| e.seq)
        .collect();
    assert_eq!(live, vec![3, 4]);
    assert_eq!(snapshot_last_seq(&[]), None);
    assert!(is_new_live_event(None, &event(0)));
}

#[test]
fn registry_reads_back_what_was_kept() {
    let mut sessions: Registry<u32> = Registry::new();
    assert!(sessions.get("a").is_none());
    sessions.insert("a".to_string(), 1);
    sessions.insert("b".to_string(), 2);
    sessions.insert("a".to_string(), 3);
    assert_eq!(sessions.get("a"), Some(&3));
    assert_eq!(sessions.values(), vec![&3, &2]);
    assert!(sessions.contains("b"));
    assert_eq!(sessions.remove("b"), Some(2));
    assert_eq!(sessions.remove("b"), None);
    assert!(!sessions.contains("b"));
    assert_eq!(sessions.values().len(), 1);
}

#[test]
fn store_errors_map_to_statuses() {
    assert_eq!(branch_error_status("from_seq 9 is Out Of Range"), ErrorStatus::BadRequest);
    assert_eq!(branch_error_status("thread t1 does not exist"), ErrorStatus::NotFound);
    assert_eq!(branch_error_status("disk full"), ErrorStatus::Internal);
    assert_eq!(branch_error_status("requires summary"), ErrorStatus::Internal);
    assert_eq!(handoff_error_status("handoff requires summary"), ErrorStatus::BadRequest);
    assert_eq!(checkpoint_error_status("summary MUST not be empty"), ErrorStatus::BadRequest);
    assert_eq!(checkpoint_error_status("Thread Not Found"), ErrorStatus::NotFound);
    assert_eq!(stride_error_status("invalid_stride: 0"), ErrorStatus::BadRequest);
    assert_eq!(stride_error_status("not_found"), ErrorStatus::NotFound);
    assert_eq!(stride_error_status("not found"), ErrorStatus::Internal);
    assert_eq!(lookup_error_status("NOT_FOUND: t"), ErrorStatus::NotFound);
    assert_eq!(lookup_error_status("out of range"), ErrorStatus::Internal);
    assert_eq!(error_status("", &[""], &[]), ErrorStatus::BadRequest);
}

#[test]
fn request_defaults() {
    assert_eq!(or_default(None, "user"), "user");
    assert_eq!(or_default(Some("alice".to_string()), "user"), "alice");
    assert_eq!(unless_blank("  ".to_string(), "server"), "server");
    assert_eq!(unless_blank("cli".to_string(), "server"), "cli");
    let config = TaskEngineConfig { workspace_root: "/w".to_string(), artifact_max_bytes: 10, max_bytes: 20 };
    assert_eq!(output_window(None, None, &config), (0, 20));
    assert_eq!(output_window(Some(5), Some(2), &config), (5, 2));
    assert_eq!(cancel_reason(None), "cancel");
    assert_eq!(cancel_reason(Some("user".to_string())), "user");
}
