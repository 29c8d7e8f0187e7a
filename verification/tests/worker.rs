use hyperion::apply::ApplyFailure;
use hyperion::digest::patch_hash;
use hyperion::journal::DetailValue;
use hyperion::models::{
    AssignmentMetadata, ChangeOperation, ChangeRequest, OperationKind, QueueStatus,
};
use hyperion::queue::SqliteQueue;
use hyperion::runner::CheckFailure;
use hyperion::worker::{
    excerpt, failure_details, on_apply_result, on_checks_result, on_claim, StepFailure,
    WorkerConfig, WorkerStep,
};

fn happy_request(task_id: &str) -> ChangeRequest {
    let patch = "+++ b/x.txt\n@@\n+hi";
    ChangeRequest {
        task_id: task_id.to_string(),
        agent: "a1".to_string(),
        metadata: AssignmentMetadata::default(),
        changes: vec![ChangeOperation {
            path: "x.txt".to_string(),
            operation: OperationKind::Add,
            patch: patch.to_string(),
            patch_hash: Some(patch_hash(patch)),
        }],
        checks: vec!["true".to_string()],
    }
}

fn config(max_attempts: i64, run_checks: bool) -> WorkerConfig {
    WorkerConfig {
        worker_id: "worker-1".to_string(),
        lease_seconds: 10,
        poll_interval_ms: 500,
        run_checks,
        max_attempts,
    }
}

fn apply_failure() -> StepFailure {
    StepFailure::Apply(ApplyFailure::new(
        "git apply --check failed (exit status: 1)".to_string(),
        "the patch".to_string(),
        "out".to_string(),
        "err".to_string(),
    ))
}

fn claim(q: &mut SqliteQueue, c: &WorkerConfig, now: i64) -> WorkerStep {
    let claimed = q.dequeue(now, c.lease_seconds, &c.worker_id).unwrap();
    on_claim(q, c, claimed, 3, now).unwrap()
}

fn messages(q: &SqliteQueue) -> Vec<String> {
    let mut logs = q.recent_logs(100);
    logs.sort_by_key(|l| l.id);
    logs.into_iter().map(|l| l.message).collect()
}

#[test]
fn happy_path_applies_the_entry() {
    let mut q = SqliteQueue::open("hyperion.db");
    let c = config(3, true);
    assert_eq!(q.enqueue(&happy_request("T1"), 1000), Ok(1));
    let claimed = q.dequeue(1000, c.lease_seconds, &c.worker_id).unwrap().unwrap();
    assert_eq!(claimed.id, 1);
    assert_eq!(claimed.attempts, 1);
    let record = match on_claim(&mut q, &c, Some(claimed), 3, 1000).unwrap() {
        WorkerStep::Apply { record } => record,
        other => panic!("expected to apply, got {other:?}"),
    };
    let record = match on_apply_result(&mut q, &c, record, Ok(()), 12, 1001).unwrap() {
        WorkerStep::Check { record } => record,
        other => panic!("expected to check, got {other:?}"),
    };
    // nothing is marked before the checks are through
    assert_eq!(q.status_counts().in_progress, 1);
    assert!(matches!(
        on_checks_result(&mut q, &c, record, Ok(()), 25, 1002).unwrap(),
        WorkerStep::Done
    ));
    let applied = q.list(QueueStatus::Applied).unwrap();
    assert_eq!(applied.len(), 1);
    assert_eq!(applied[0].payload.task_id, "T1");
    assert_eq!(messages(&q), vec!["dequeued", "dequeue_metrics", "applied"]);
    assert_eq!(q.dead_letter_count(), 0);

    // the metrics of the last minute
    let metrics = q.queue_metrics(Some(60), 1010);
    assert_eq!(metrics.status_counts.applied, 1);
    assert_eq!(metrics.applied_count, 1);
    assert_eq!(metrics.apply_duration_total_ms, 25);
    assert_eq!(metrics.dequeue_latency_total_ms, 3);
    assert_eq!(metrics.poll_interval_total_ms, 500);
    assert_eq!(metrics.lease_contention_events, 0);
    let throughput = metrics.applied_count as f64 * 60.0 / metrics.window_seconds as f64;
    assert!(throughput > 0.0 && throughput <= 60.0);
    assert_eq!(throughput, 1.0);
}

#[test]
fn without_checks_the_entry_is_applied_after_the_patch() {
    let mut q = SqliteQueue::open("hyperion.db");
    let c = config(3, false);
    q.enqueue(&happy_request("T1"), 1000).unwrap();
    let record = match claim(&mut q, &c, 1000) {
        WorkerStep::Apply { record } => record,
        other => panic!("expected to apply, got {other:?}"),
    };
    assert!(matches!(
        on_apply_result(&mut q, &c, record, Ok(()), 7, 1001).unwrap(),
        WorkerStep::Done
    ));
    assert_eq!(q.status_counts().applied, 1);
    let logs = q.recent_logs(1);
    assert_eq!(logs[0].message, "applied");
    let details = logs[0].details.as_ref().unwrap();
    assert_eq!(details[0].key, "apply_duration_ms");
    assert!(matches!(details[0].value, DetailValue::Count(7)));
}

#[test]
fn retry_then_succeed() {
    let mut q = SqliteQueue::open("hyperion.db");
    let c = config(3, true);
    q.enqueue(&happy_request("T2"), 1000).unwrap();
    let record = match claim(&mut q, &c, 1000) {
        WorkerStep::Apply { record } => record,
        other => panic!("expected to apply, got {other:?}"),
    };
    assert_eq!(record.attempts, 1);
    assert!(matches!(
        on_apply_result(&mut q, &c, record, Err(apply_failure()), 5, 1001).unwrap(),
        WorkerStep::Done
    ));
    let pending = q.list(QueueStatus::Pending).unwrap();
    assert_eq!(pending.len(), 1);
    assert_eq!(pending[0].attempts, 1);
    assert_eq!(
        pending[0].last_error.as_deref(),
        Some("apply failure: git apply --check failed (exit status: 1)")
    );
    let record = match claim(&mut q, &c, 1002) {
        WorkerStep::Apply { record } => record,
        other => panic!("expected to apply, got {other:?}"),
    };
    assert_eq!(record.attempts, 2);
    let record = match on_apply_result(&mut q, &c, record, Ok(()), 5, 1003).unwrap() {
        WorkerStep::Check { record } => record,
        other => panic!("expected to check, got {other:?}"),
    };
    on_checks_result(&mut q, &c, record, Ok(()), 9, 1004).unwrap();
    let counts = q.status_counts();
    assert_eq!(counts.applied, 1);
    assert_eq!(counts.failed, 0);
    assert_eq!(q.dead_letter_count(), 0);
    assert_eq!(
        messages(&q),
        vec![
            "dequeued",
            "dequeue_metrics",
            "apply failed",
            "dequeued",
            "dequeue_metrics",
            "applied"
        ]
    );
}

#[test]
fn dead_letter_when_the_attempts_are_used_up() {
    let mut q = SqliteQueue::open("hyperion.db");
    let c = config(2, true);
    q.enqueue(&happy_request("T1"), 1000).unwrap();
    // first claim: the failure sends the entry back
    let record = match claim(&mut q, &c, 1000) {
        WorkerStep::Apply { record } => record,
        other => panic!("expected to apply, got {other:?}"),
    };
    on_apply_result(&mut q, &c, record, Err(apply_failure()), 5, 1001).unwrap();
    assert_eq!(q.status_counts().pending, 1);
    // second claim: the entry was claimed as often as allowed, the failure is final
    let record = match claim(&mut q, &c, 1002) {
        WorkerStep::Apply { record } => record,
        other => panic!("expected to apply, got {other:?}"),
    };
    assert_eq!(record.attempts, 2);
    on_apply_result(&mut q, &c, record, Err(apply_failure()), 5, 1003).unwrap();
    assert_eq!(q.status_counts().failed, 1);
    let letters = q.list_dead_letters().unwrap();
    assert_eq!(letters.len(), 1);
    assert_eq!(letters[0].queue_id, 1);
    assert!(q.dequeue(2000, 10, "w").unwrap().is_none());
}

#[test]
fn a_third_claim_is_shed_with_the_count_in_the_message() {
    let mut q = SqliteQueue::open("hyperion.db");
    let c = config(2, true);
    q.enqueue(&happy_request("T1"), 1000).unwrap();
    // two workers claim the entry and are never heard of again
    assert_eq!(q.dequeue(1000, 10, "lost-1").unwrap().unwrap().attempts, 1);
    assert_eq!(q.dequeue(1011, 10, "lost-2").unwrap().unwrap().attempts, 2);
    let claimed = q.dequeue(1022, 10, "worker-1").unwrap().unwrap();
    assert_eq!(claimed.attempts, 3);
    assert!(matches!(on_claim(&mut q, &c, Some(claimed), 1, 1022).unwrap(), WorkerStep::Done));
    let failed = q.list(QueueStatus::Failed).unwrap();
    assert_eq!(failed.len(), 1);
    assert_eq!(failed[0].last_error.as_deref(), Some("max attempts reached (3/2)"));
    let letters = q.list_dead_letters().unwrap();
    assert_eq!(letters.len(), 1);
    assert_eq!(letters[0].queue_id, 1);
    assert_eq!(letters[0].error.as_deref(), Some("max attempts reached (3/2)"));
    let logs = q.recent_logs(1);
    assert_eq!(logs[0].message, "max attempts reached");
    assert_eq!(logs[0].level, "warn");
}

#[test]
fn lease_reclamation_hands_the_entry_to_the_next_worker() {
    let mut q = SqliteQueue::open("hyperion.db");
    q.enqueue(&happy_request("T1"), 1000).unwrap();
    let a = q.dequeue(1000, 1, "worker-a").unwrap().unwrap();
    assert_eq!((a.id, a.attempts), (1, 1));
    let b = q.dequeue(1002, 1, "worker-b").unwrap().unwrap();
    assert_eq!((b.id, b.attempts), (1, 2));
}

#[test]
fn validation_rejection_fails_the_entry_without_applying() {
    let mut q = SqliteQueue::open("hyperion.db");
    let c = config(3, true);
    let bad = ChangeRequest {
        task_id: "T3".to_string(),
        agent: "a1".to_string(),
        metadata: AssignmentMetadata::default(),
        changes: vec![ChangeOperation {
            path: "../etc/passwd".to_string(),
            operation: OperationKind::Update,
            patch: "--- a/../etc/passwd\n+++ b/../etc/passwd\n".to_string(),
            patch_hash: None,
        }],
        checks: vec!["true".to_string()],
    };
    q.enqueue(&bad, 1000).unwrap();
    assert!(matches!(claim(&mut q, &c, 1000), WorkerStep::Done));
    let failed = q.list(QueueStatus::Failed).unwrap();
    assert_eq!(failed.len(), 1);
    assert_eq!(
        failed[0].last_error.as_deref(),
        Some("validation errors: [\"changes[0].path must not contain '..', got ../etc/passwd\"]")
    );
    assert_eq!(q.dead_letter_count(), 1);
    let logs = q.recent_logs(1);
    assert_eq!(logs[0].message, "validation failed");
    let details = logs[0].details.as_ref().unwrap();
    assert_eq!(details[0].key, "errors");
    match &details[0].value {
        DetailValue::List(errors) => assert_eq!(
            errors,
            &vec!["changes[0].path must not contain '..', got ../etc/passwd".to_string()]
        ),
        other => panic!("expected a list, got {other:?}"),
    }
}

#[test]
fn idle_worker_rests_for_the_poll_interval() {
    let mut q = SqliteQueue::open("hyperion.db");
    let c = config(3, true);
    match claim(&mut q, &c, 1000) {
        WorkerStep::Idle { sleep_ms } => assert_eq!(sleep_ms, 500),
        other => panic!("expected to rest, got {other:?}"),
    }
    let logs = q.recent_logs(10);
    assert_eq!(logs.len(), 1);
    assert_eq!(logs[0].message, "idle");
    assert_eq!(logs[0].task_id, "worker");
    assert_eq!(logs[0].queue_id, 0);
}

#[test]
fn failed_checks_follow_the_same_rule_as_failed_patches() {
    let mut q = SqliteQueue::open("hyperion.db");
    let c = config(1, true);
    q.enqueue(&happy_request("T1"), 1000).unwrap();
    let record = match claim(&mut q, &c, 1000) {
        WorkerStep::Apply { record } => record,
        other => panic!("expected to apply, got {other:?}"),
    };
    let record = match on_apply_result(&mut q, &c, record, Ok(()), 5, 1001).unwrap() {
        WorkerStep::Check { record } => record,
        other => panic!("expected to check, got {other:?}"),
    };
    let failure = StepFailure::Check(CheckFailure::new(
        "check failed: false (exit exit status: 1)".to_string(),
        "false".to_string(),
        String::new(),
        "nope".to_string(),
    ));
    on_checks_result(&mut q, &c, record, Err(failure), 9, 1002).unwrap();
    let failed = q.list(QueueStatus::Failed).unwrap();
    assert_eq!(
        failed[0].last_error.as_deref(),
        Some("check failure: check failed: false (exit exit status: 1)")
    );
    let logs = q.recent_logs(1);
    assert_eq!(logs[0].message, "checks failed");
    let details = logs[0].details.as_ref().unwrap();
    let keys: Vec<&str> = details.iter().map(|d| d.key.as_str()).collect();
    assert_eq!(keys, vec!["error", "check_command", "check_stdout", "check_stderr"]);
}

#[test]
fn failure_details_hold_an_excerpt_of_the_patch() {
    let long_patch = "x".repeat(600);
    let failure = StepFailure::Apply(ApplyFailure::new(
        "boom".to_string(),
        long_patch,
        "o".to_string(),
        "e".to_string(),
    ));
    let details = failure_details(&failure);
    let keys: Vec<&str> = details.iter().map(|d| d.key.as_str()).collect();
    assert_eq!(keys, vec!["error", "apply_stdout", "apply_stderr", "patch_preview"]);
    match &details[3].value {
        DetailValue::Text(preview) => {
            assert_eq!(preview.chars().count(), 513);
            assert!(preview.ends_with('\u{2026}'));
        }
        other => panic!("expected a text, got {other:?}"),
    }
    match &details[0].value {
        DetailValue::Text(line) => assert_eq!(line, "apply failure: boom"),
        other => panic!("expected a text, got {other:?}"),
    }
    let other = failure_details(&StepFailure::Other("plain".to_string()));
    assert_eq!(other.len(), 1);
}

#[test]
fn excerpt_cuts_by_characters() {
    assert_eq!(excerpt("hello", 5), "hello");
    assert_eq!(excerpt("hello", 4), "hell\u{2026}");
    assert_eq!(excerpt("", 0), "");
    assert_eq!(excerpt("äöü", 2), "äö\u{2026}");
}

#[test]
fn worker_config_must_lease_and_attempt() {
    assert!(config(1, true).is_valid());
    assert!(!config(0, true).is_valid());
    let mut c = config(3, true);
    c.lease_seconds = 0;
    assert!(!c.is_valid());
}
