use ripd::authority_lock::{LockObservation, LockRead, LockRecord, LockRecovery, LockStep};

fn observe(lock: LockRead, now_ms: u64) -> LockObservation {
    LockObservation { error: "lock held".to_string(), live_authority: None, lock, now_ms }
}

fn failure(step: LockStep) -> String {
    match step {
        LockStep::Fail(message) => message,
        other => panic!("expected a failure, got {other:?}"),
    }
}

#[test]
fn a_live_authority_stops_startup() {
    let mut recovery = LockRecovery::new(1_000);
    let obs = LockObservation {
        error: "lock held".to_string(),
        live_authority: Some(("http://127.0.0.1:7341".to_string(), 4242)),
        lock: LockRead::Absent,
        now_ms: 1_000,
    };
    let message = failure(recovery.after_failed_attempt(&obs, "/w", "/w", "/d/lock"));
    assert_eq!(message, "store already has an authority (endpoint=http://127.0.0.1:7341 pid=4242)");
}

#[test]
fn lock_records_are_checked_against_the_workspace_and_the_process() {
    let mut recovery = LockRecovery::new(0);
    let record = |root: &str, dead: bool| {
        LockRead::Found(LockRecord { workspace_root: root.to_string(), pid: 7, started_at_ms: 5, pid_dead: dead })
    };
    let message = failure(recovery.after_failed_attempt(&observe(record("/other", true), 10), "/w", "/w", "/d/lock"));
    assert_eq!(message, "store authority workspace mismatch: authority_root=/other current_root=/w");
    match recovery.after_failed_attempt(&observe(record("/w", true), 10), "/w", "/w", "/d/lock") {
        LockStep::CleanupStale { pid, started_at_ms } => assert_eq!((pid, started_at_ms), (7, 5)),
        other => panic!("expected a stale cleanup, got {other:?}"),
    }
    assert!(matches!(recovery.after_cleanup(true, true, "lock held", "/d/lock", "", 11), LockStep::Retry));
    assert_eq!(failure(recovery.after_cleanup(true, false, "lock held", "/d/lock", "", 11)), "lock held");
    assert_eq!(
        failure(recovery.after_failed_attempt(&observe(record("/w", false), 10), "/w", "/w", "/d/lock")),
        "lock held"
    );
}

#[test]
fn a_missing_record_is_waited_for_until_the_deadline() {
    let mut recovery = LockRecovery::new(100);
    assert_eq!(recovery.deadline_ms, 2_100);
    assert!(matches!(recovery.after_failed_attempt(&observe(LockRead::Absent, 500), "/w", "/w", "/d/lock"), LockStep::Wait));
    assert_eq!(
        failure(recovery.after_failed_attempt(&observe(LockRead::Absent, 2_100), "/w", "/w", "/d/lock")),
        "lock held"
    );
}

#[test]
fn a_corrupt_lock_is_cleaned_after_a_second() {
    let mut recovery = LockRecovery::new(0);
    let unreadable = || LockRead::Unreadable("lock json invalid: eof".to_string());
    assert!(matches!(recovery.after_failed_attempt(&observe(unreadable(), 100), "/w", "/w", "/d/lock"), LockStep::Wait));
    assert_eq!(recovery.invalid_since_ms, Some(100));
    assert!(matches!(recovery.after_failed_attempt(&observe(unreadable(), 1_100), "/w", "/w", "/d/lock"), LockStep::Wait));
    assert!(matches!(
        recovery.after_failed_attempt(&observe(unreadable(), 1_101), "/w", "/w", "/d/lock"),
        LockStep::CleanupCorrupt
    ));
    assert!(matches!(recovery.after_cleanup(false, true, "lock held", "/d/lock", "x", 1_102), LockStep::Retry));
    assert_eq!(recovery.invalid_since_ms, None);
    let other = LockRead::Unreadable("permission denied".to_string());
    assert_eq!(
        failure(recovery.after_failed_attempt(&observe(other, 5_000), "/w", "/w", "/d/lock")),
        "lock held (lock_path=/d/lock read_err=permission denied)"
    );
}
