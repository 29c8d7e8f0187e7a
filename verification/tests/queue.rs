use hyperion::digest::patch_hash;
use hyperion::journal::{DetailField, DetailValue};
use hyperion::models::{
    AssignmentMetadata, ChangeOperation, ChangeRequest, OperationKind, QueueStatus,
};
use hyperion::queue::{SqliteQueue, StoreTables};
use hyperion::schema::SchemaListing;
use hyperion::store::{QueueError, QueueRow};

fn request(task_id: &str) -> ChangeRequest {
    let patch = "+++ b/x.txt\n@@\n+hi";
    ChangeRequest {
        task_id: task_id.to_string(),
        agent: "a1".to_string(),
        metadata: AssignmentMetadata::default(),
        changes: vec![ChangeOperation {
            path: "x.txt".to_string(),
            operation: OperationKind::Add,
            patch: patch.to_string(),
            patch_hash: Some(patch_hash(patch)),
        }],
        checks: vec!["true".to_string()],
    }
}

fn names(list: &[&str]) -> Vec<String> {
    list.iter().map(|s| s.to_string()).collect()
}

fn full_schema() -> SchemaListing {
    SchemaListing {
        queue_columns: names(&[
            "id", "status", "payload", "attempts", "last_error", "leased_until", "lease_owner",
            "created_at", "updated_at",
        ]),
        queue_indexes: names(&["idx_change_queue_status", "idx_change_queue_status_lease_id"]),
        dead_letter_columns: names(&["id", "queue_id", "failed_at"]),
    }
}

fn empty_tables() -> StoreTables {
    StoreTables {
        entries: vec![],
        last_entry_id: 0,
        dead_letters: vec![],
        last_dead_letter_id: 0,
        logs: vec![],
        last_log_id: 0,
        file_events: vec![],
        last_file_event_id: 0,
        sessions: vec![],
        last_session_id: 0,
    }
}

fn row(id: i64, status: QueueStatus, payload: Option<ChangeRequest>) -> QueueRow {
    let in_progress = status == QueueStatus::InProgress;
    QueueRow {
        id,
        status,
        payload,
        attempts: 1,
        last_error: None,
        leased_until: if in_progress { Some(50) } else { None },
        lease_owner: if in_progress { Some("w".to_string()) } else { None },
        created_at: 10,
        updated_at: 10,
    }
}

#[test]
fn enqueue_gives_rising_ids_and_pending_entries() {
    let mut q = SqliteQueue::open("hyperion.db");
    assert_eq!(q.enqueue(&request("T1"), 100), Ok(1));
    assert_eq!(q.enqueue(&request("T2"), 101), Ok(2));
    let pending = q.list(QueueStatus::Pending).unwrap();
    assert_eq!(pending.len(), 2);
    assert_eq!(pending[0].id, 1);
    assert_eq!(pending[0].attempts, 0);
    assert_eq!(pending[0].created_at, 100);
    assert_eq!(pending[0].updated_at, 100);
    assert!(pending[0].leased_until.is_none());
    assert!(pending[0].lease_owner.is_none());
    assert_eq!(pending[1].id, 2);
    assert_eq!(pending[1].payload.task_id, "T2");
}

#[test]
fn dequeue_claims_the_oldest_and_sets_the_lease() {
    let mut q = SqliteQueue::open("hyperion.db");
    q.enqueue(&request("T1"), 100).unwrap();
    q.enqueue(&request("T2"), 100).unwrap();
    let first = q.dequeue(1000, 10, "w1").unwrap().unwrap();
    assert_eq!(first.id, 1);
    assert_eq!(first.status, QueueStatus::InProgress);
    assert_eq!(first.attempts, 1);
    assert_eq!(first.leased_until, Some(1010));
    assert_eq!(first.lease_owner.as_deref(), Some("w1"));
    assert_eq!(first.updated_at, 1000);
    assert_eq!(first.payload.task_id, "T1");
    let second = q.dequeue(1001, 10, "w2").unwrap().unwrap();
    assert_eq!(second.id, 2);
    assert!(q.dequeue(1002, 10, "w3").unwrap().is_none());
    let stored = q.list(QueueStatus::InProgress).unwrap();
    assert_eq!(stored.len(), 2);
    assert_eq!(stored[0].leased_until, Some(1010));
    assert_eq!(stored[0].lease_owner.as_deref(), Some("w1"));
}

#[test]
fn expired_lease_is_reclaimed_with_one_more_attempt() {
    let mut q = SqliteQueue::open("hyperion.db");
    q.enqueue(&request("T1"), 100).unwrap();
    let a = q.dequeue(1000, 1, "worker-a").unwrap().unwrap();
    assert_eq!(a.id, 1);
    assert_eq!(a.attempts, 1);
    // the lease runs to 1001: at 1001 it has not run out yet
    assert!(q.dequeue(1001, 1, "worker-b").unwrap().is_none());
    let b = q.dequeue(1002, 1, "worker-b").unwrap().unwrap();
    assert_eq!(b.id, 1);
    assert_eq!(b.attempts, 2);
    assert_eq!(b.lease_owner.as_deref(), Some("worker-b"));
    assert_eq!(b.leased_until, Some(1003));
}

#[test]
fn mark_applied_clears_the_lease_and_is_idempotent() {
    let mut q = SqliteQueue::open("hyperion.db");
    q.enqueue(&request("T1"), 100).unwrap();
    q.dequeue(1000, 10, "w1").unwrap().unwrap();
    assert_eq!(q.mark_applied(1, 1005), Ok(()));
    let applied = q.list(QueueStatus::Applied).unwrap();
    assert_eq!(applied.len(), 1);
    assert_eq!(applied[0].updated_at, 1005);
    assert!(applied[0].leased_until.is_none());
    assert!(applied[0].lease_owner.is_none());
    assert_eq!(applied[0].attempts, 1);
    // a second call changes nothing, not even the time of the last change
    assert_eq!(q.mark_applied(1, 2000), Ok(()));
    let again = q.list(QueueStatus::Applied).unwrap();
    assert_eq!(again.len(), 1);
    assert_eq!(again[0].updated_at, 1005);
    // an id that no entry has is passed over
    assert_eq!(q.mark_applied(99, 2000), Ok(()));
}

#[test]
fn terminal_entries_cannot_be_moved() {
    let mut q = SqliteQueue::open("hyperion.db");
    q.enqueue(&request("T1"), 100).unwrap();
    q.enqueue(&request("T2"), 100).unwrap();
    q.mark_applied(1, 200).unwrap();
    assert_eq!(q.mark_failed(2, Some("boom".to_string()), 200), Ok(()));
    assert_eq!(q.mark_failed(1, None, 300), Err(QueueError::IllegalTransition));
    assert_eq!(q.mark_retry(1, None, 300), Err(QueueError::IllegalTransition));
    assert_eq!(q.mark_applied(2, 300), Err(QueueError::IllegalTransition));
    assert_eq!(q.mark_retry(2, None, 300), Err(QueueError::IllegalTransition));
    // failing a failed entry again writes no second dead letter
    assert_eq!(q.mark_failed(2, Some("again".to_string()), 300), Ok(()));
    assert_eq!(q.dead_letter_count(), 1);
    let failed = q.list(QueueStatus::Failed).unwrap();
    assert_eq!(failed[0].last_error.as_deref(), Some("boom"));
    assert_eq!(failed[0].updated_at, 200);
    assert_eq!(q.list(QueueStatus::Applied).unwrap().len(), 1);
    assert!(q.dequeue(1000, 10, "w").unwrap().is_none());
}

#[test]
fn mark_failed_writes_the_dead_letter() {
    let mut q = SqliteQueue::open("hyperion.db");
    q.enqueue(&request("T1"), 100).unwrap();
    q.dequeue(1000, 10, "w1").unwrap();
    q.mark_failed(1, Some("no good".to_string()), 1001).unwrap();
    let failed = q.list(QueueStatus::Failed).unwrap();
    assert_eq!(failed.len(), 1);
    assert!(failed[0].leased_until.is_none());
    assert!(failed[0].lease_owner.is_none());
    assert_eq!(failed[0].last_error.as_deref(), Some("no good"));
    let letters = q.list_dead_letters().unwrap();
    assert_eq!(letters.len(), 1);
    assert_eq!(letters[0].id, 1);
    assert_eq!(letters[0].queue_id, 1);
    assert_eq!(letters[0].task_id, "T1");
    assert_eq!(letters[0].agent, "a1");
    assert_eq!(letters[0].error.as_deref(), Some("no good"));
    assert_eq!(letters[0].failed_at, 1001);
    assert_eq!(letters[0].payload.task_id, "T1");
}

#[test]
fn mark_retry_sends_the_entry_back() {
    let mut q = SqliteQueue::open("hyperion.db");
    q.enqueue(&request("T1"), 100).unwrap();
    q.dequeue(1000, 10, "w1").unwrap();
    q.mark_retry(1, Some("try again".to_string()), 1001).unwrap();
    let pending = q.list(QueueStatus::Pending).unwrap();
    assert_eq!(pending.len(), 1);
    assert_eq!(pending[0].attempts, 1);
    assert_eq!(pending[0].last_error.as_deref(), Some("try again"));
    assert!(pending[0].leased_until.is_none());
    assert!(pending[0].lease_owner.is_none());
    let again = q.dequeue(1002, 10, "w2").unwrap().unwrap();
    assert_eq!(again.attempts, 2);
    assert_eq!(again.last_error.as_deref(), Some("try again"));
}

#[test]
fn attempts_never_go_down() {
    let mut q = SqliteQueue::open("hyperion.db");
    q.enqueue(&request("T1"), 100).unwrap();
    let mut last = 0;
    let mut now = 1000;
    for round in 0..4 {
        let claimed = q.dequeue(now, 5, "w").unwrap().unwrap();
        assert!(claimed.attempts > last);
        last = claimed.attempts;
        if round % 2 == 0 {
            q.mark_retry(1, None, now + 1).unwrap();
        }
        now += 10;
        let seen = q.recent_records(1).unwrap();
        assert_eq!(seen[0].attempts, last);
    }
    q.mark_applied(1, now).unwrap();
    assert_eq!(q.list(QueueStatus::Applied).unwrap()[0].attempts, 4);
}

#[test]
fn round_trip_keeps_the_payload() {
    let mut q = SqliteQueue::open("hyperion.db");
    let x = request("ROUND");
    let id = q.enqueue(&x, 1).unwrap();
    let claimed = q.dequeue(2, 30, "w").unwrap().unwrap();
    assert_eq!(claimed.id, id);
    q.mark_applied(id, 3).unwrap();
    let applied = q.list(QueueStatus::Applied).unwrap();
    let found = applied.iter().find(|r| r.id == id).unwrap();
    assert_eq!(found.payload.task_id, x.task_id);
    assert_eq!(found.payload.agent, x.agent);
    assert_eq!(found.payload.checks, x.checks);
    assert_eq!(found.payload.changes.len(), 1);
    assert_eq!(found.payload.changes[0].path, x.changes[0].path);
    assert_eq!(found.payload.changes[0].patch, x.changes[0].patch);
    assert_eq!(found.payload.changes[0].patch_hash, x.changes[0].patch_hash);
    assert_eq!(found.payload.changes[0].operation, OperationKind::Add);
}

#[test]
fn recent_records_are_the_newest_first() {
    let mut q = SqliteQueue::open("hyperion.db");
    for i in 0..5 {
        q.enqueue(&request(&format!("T{i}")), 100).unwrap();
    }
    let recent = q.recent_records(3).unwrap();
    let ids: Vec<i64> = recent.iter().map(|r| r.id).collect();
    assert_eq!(ids, vec![5, 4, 3]);
    assert_eq!(q.recent_records(100).unwrap().len(), 5);
    assert!(q.recent_records(0).unwrap().is_empty());
}

#[test]
fn cleanup_removes_old_terminal_entries_and_logs_it() {
    let mut q = SqliteQueue::open("hyperion.db");
    for i in 0..4 {
        q.enqueue(&request(&format!("T{i}")), 100).unwrap();
    }
    q.mark_applied(1, 100).unwrap();
    q.mark_failed(2, None, 150).unwrap();
    q.mark_applied(3, 900).unwrap();
    // at 1000 with an age of 500, entries last touched before 500 are stale
    assert_eq!(q.count_applied_older_than(500, 1000), 1);
    assert_eq!(q.cleanup_stale_records(500, 1000), Ok(2));
    let left: Vec<i64> = q.recent_records(10).unwrap().iter().map(|r| r.id).collect();
    assert_eq!(left, vec![4, 3]);
    let logs = q.recent_logs(10);
    assert_eq!(logs.len(), 1);
    assert_eq!(logs[0].message, "cleanup");
    assert_eq!(logs[0].queue_id, 0);
    assert_eq!(logs[0].level, "info");
    let details = logs[0].details.as_ref().unwrap();
    assert_eq!(details[0].key, "removed");
    assert!(matches!(details[0].value, DetailValue::Count(2)));
    assert_eq!(details[1].key, "ttl_seconds");
    assert!(matches!(details[1].value, DetailValue::Int(500)));
    // ids are not given out again
    assert_eq!(q.enqueue(&request("NEW"), 1000), Ok(5));
    // the dead letter outlives its entry
    assert_eq!(q.dead_letter_count(), 1);
    assert_eq!(q.last_event_time("cleanup"), Some(1000));
}

#[test]
fn purges_count_what_they_remove() {
    let mut q = SqliteQueue::open("hyperion.db");
    for i in 0..3 {
        q.enqueue(&request(&format!("T{i}")), 100).unwrap();
    }
    q.mark_applied(1, 100).unwrap();
    q.mark_failed(2, None, 100).unwrap();
    q.mark_failed(3, None, 800).unwrap();
    assert_eq!(q.count_dead_letters_older_than(500, 1000), 1);
    assert_eq!(q.purge_dead_letters(500, 1000), 1);
    assert_eq!(q.dead_letter_count(), 1);
    assert_eq!(q.list_dead_letters().unwrap()[0].queue_id, 3);
    assert_eq!(q.purge_applied(500, 1000), 1);
    assert_eq!(q.list(QueueStatus::Applied).unwrap().len(), 0);
    assert_eq!(q.list(QueueStatus::Failed).unwrap().len(), 2);
    assert_eq!(q.purge_applied(500, 1000), 0);
}

#[test]
fn logs_and_file_events_are_listed_newest_first() {
    let mut q = SqliteQueue::open("hyperion.db");
    q.log_event(0, "t", "info", "first", None, 10).unwrap();
    q.log_event(0, "t", "info", "second", None, 30).unwrap();
    q.log_event(0, "t", "info", "third", None, 20).unwrap();
    q.log_event(0, "t", "info", "fourth", None, 30).unwrap();
    let messages: Vec<String> = q.recent_logs(10).into_iter().map(|l| l.message).collect();
    assert_eq!(messages, vec!["fourth", "second", "third", "first"]);
    let two: Vec<i64> = q.recent_logs(2).into_iter().map(|l| l.id).collect();
    assert_eq!(two, vec![4, 2]);
    q.record_file_event("a.rs", "Modify", "fsnotify", None, 5).unwrap();
    q.record_file_event("b.rs", "Create", "fsnotify", None, 7).unwrap();
    let events = q.recent_file_events(1);
    assert_eq!(events.len(), 1);
    assert_eq!(events[0].path, "b.rs");
    assert_eq!(events[0].event, "Create");
    assert_eq!(events[0].source, "fsnotify");
    assert_eq!(events[0].id, 2);
}

#[test]
fn sessions_are_upserted_by_resume_id() {
    let mut q = SqliteQueue::open("hyperion.db");
    assert!(q.latest_agent_session().is_none());
    let first = q.upsert_agent_session("r1", "gpt-5-mini", true, 100).unwrap();
    assert_eq!(first.id, 1);
    assert_eq!(first.created_at, 100);
    let second = q.upsert_agent_session("r2", "gpt-4.1", false, 200).unwrap();
    assert_eq!(second.id, 2);
    let renewed = q.upsert_agent_session("r1", "other", false, 300).unwrap();
    assert_eq!(renewed.id, 1);
    assert_eq!(renewed.model, "other");
    assert!(!renewed.allow_all_tools);
    assert_eq!(renewed.created_at, 100);
    assert_eq!(renewed.last_used, 300);
    let listed: Vec<String> = q.list_agent_sessions().into_iter().map(|s| s.resume_id).collect();
    assert_eq!(listed, vec!["r2", "r1"]);
    assert_eq!(q.latest_agent_session().unwrap().resume_id, "r1");
    q.touch_agent_session(2, 400);
    assert_eq!(q.latest_agent_session().unwrap().resume_id, "r2");
    q.touch_agent_session(77, 500);
    assert_eq!(q.latest_agent_session().unwrap().last_used, 400);
}

#[test]
fn status_counts_count_every_status() {
    let mut q = SqliteQueue::open("hyperion.db");
    for i in 0..5 {
        q.enqueue(&request(&format!("T{i}")), 100).unwrap();
    }
    q.dequeue(200, 100, "w").unwrap();
    q.dequeue(200, 100, "w").unwrap();
    q.mark_applied(1, 201).unwrap();
    q.mark_failed(5, None, 201).unwrap();
    let counts = q.status_counts();
    assert_eq!(counts.pending, 2);
    assert_eq!(counts.in_progress, 1);
    assert_eq!(counts.applied, 1);
    assert_eq!(counts.failed, 1);
}

#[test]
fn restore_takes_tables_in_order_only() {
    let mut tables = empty_tables();
    tables.entries = vec![
        row(1, QueueStatus::Applied, Some(request("A"))),
        row(3, QueueStatus::InProgress, Some(request("B"))),
    ];
    tables.last_entry_id = 3;
    let q = SqliteQueue::restore("q.db", &full_schema(), tables).unwrap();
    assert_eq!(q.list(QueueStatus::InProgress).unwrap()[0].id, 3);
    let back = q.into_tables();
    assert_eq!(back.entries.len(), 2);
    assert_eq!(back.last_entry_id, 3);

    // ids out of order
    let mut tables = empty_tables();
    tables.entries = vec![
        row(3, QueueStatus::Pending, Some(request("A"))),
        row(1, QueueStatus::Pending, Some(request("B"))),
    ];
    tables.last_entry_id = 3;
    assert!(matches!(
        SqliteQueue::restore("q.db", &full_schema(), tables),
        Err(QueueError::CorruptStore)
    ));

    // an id above the last one given out
    let mut tables = empty_tables();
    tables.entries = vec![row(4, QueueStatus::Pending, Some(request("A")))];
    tables.last_entry_id = 3;
    assert!(SqliteQueue::restore("q.db", &full_schema(), tables).is_err());

    // a pending entry with a lease
    let mut tables = empty_tables();
    let mut leased = row(1, QueueStatus::Pending, Some(request("A")));
    leased.leased_until = Some(5);
    tables.entries = vec![leased];
    tables.last_entry_id = 1;
    assert!(SqliteQueue::restore("q.db", &full_schema(), tables).is_err());

    // an entry in progress without an owner
    let mut tables = empty_tables();
    let mut unowned = row(1, QueueStatus::InProgress, Some(request("A")));
    unowned.lease_owner = None;
    tables.entries = vec![unowned];
    tables.last_entry_id = 1;
    assert!(SqliteQueue::restore("q.db", &full_schema(), tables).is_err());

    // a schema that lacks a column
    let mut listing = full_schema();
    listing.queue_columns.retain(|c| c != "lease_owner");
    assert!(matches!(
        SqliteQueue::restore("q.db", &listing, empty_tables()),
        Err(QueueError::CorruptStore)
    ));
}

#[test]
fn unreadable_payload_blocks_and_changes_nothing() {
    let mut tables = empty_tables();
    tables.entries = vec![
        row(1, QueueStatus::Pending, None),
        row(2, QueueStatus::Pending, Some(request("B"))),
    ];
    tables.last_entry_id = 2;
    let mut q = SqliteQueue::restore("q.db", &full_schema(), tables).unwrap();
    assert!(matches!(q.dequeue(100, 10, "w"), Err(QueueError::CorruptPayload)));
    assert!(matches!(q.list(QueueStatus::Pending), Err(QueueError::CorruptPayload)));
    assert_eq!(q.mark_failed(1, None, 100), Err(QueueError::CorruptPayload));
    assert_eq!(q.dead_letter_count(), 0);
    let counts = q.status_counts();
    assert_eq!(counts.pending, 2);
    assert_eq!(counts.failed, 0);
    // the second entry can still be read
    assert_eq!(q.recent_records(1).unwrap()[0].id, 2);
    assert!(matches!(q.recent_records(2), Err(QueueError::CorruptPayload)));
}

#[test]
fn store_refuses_when_ids_run_out() {
    let mut tables = empty_tables();
    tables.last_entry_id = i64::MAX;
    tables.last_log_id = i64::MAX;
    let mut q = SqliteQueue::restore("q.db", &full_schema(), tables).unwrap();
    assert_eq!(q.enqueue(&request("T"), 1), Err(QueueError::Store));
    assert_eq!(q.log_event(0, "t", "info", "m", None, 1), Err(QueueError::Store));
    assert_eq!(q.cleanup_stale_records(10, 100), Err(QueueError::Store));
    assert_eq!(q.status_counts().pending, 0);
}

#[test]
fn verify_schema_names_the_first_thing_missing() {
    assert_eq!(SqliteQueue::verify_schema(&full_schema()), Ok(()));
    let mut listing = full_schema();
    listing.queue_columns = names(&["id", "status", "payload", "leased_until"]);
    assert_eq!(
        SqliteQueue::verify_schema(&listing),
        Err("missing column attempts in change_queue".to_string())
    );
    let mut listing = full_schema();
    listing.queue_indexes = names(&["idx_change_queue_status_lease_id"]);
    assert_eq!(
        SqliteQueue::verify_schema(&listing),
        Err("missing idx_change_queue_status".to_string())
    );
    let mut listing = full_schema();
    listing.queue_indexes = names(&["idx_change_queue_status"]);
    assert_eq!(
        SqliteQueue::verify_schema(&listing),
        Err("missing idx_change_queue_status_lease_id".to_string())
    );
    let mut listing = full_schema();
    listing.dead_letter_columns = names(&["id"]);
    assert_eq!(
        SqliteQueue::verify_schema(&listing),
        Err("missing failed_at in dead_letters".to_string())
    );
}

#[test]
fn metrics_add_up_the_window() {
    let mut q = SqliteQueue::open("hyperion.db");
    let timing = |latency: u64, poll: u64| {
        Some(vec![
            DetailField { key: "dequeue_latency_ms".to_string(), value: DetailValue::Count(latency) },
            DetailField { key: "poll_interval_ms".to_string(), value: DetailValue::Count(poll) },
        ])
    };
    q.log_event(1, "t", "info", "dequeue_metrics", timing(10, 500), 1000).unwrap();
    q.log_event(1, "t", "info", "dequeue_metrics", timing(700, 500), 1010).unwrap();
    // too old for a window of 60 seconds before 1050
    q.log_event(1, "t", "info", "dequeue_metrics", timing(9999, 1), 900).unwrap();
    q.log_event(
        1,
        "t",
        "info",
        "dequeue_metrics",
        Some(vec![DetailField {
            key: "poll_interval_ms".to_string(),
            value: DetailValue::Count(300),
        }]),
        1020,
    )
    .unwrap();
    q.log_event(
        1,
        "t",
        "info",
        "applied",
        Some(vec![DetailField {
            key: "apply_duration_ms".to_string(),
            value: DetailValue::Count(40),
        }]),
        1030,
    )
    .unwrap();
    q.log_event(2, "t", "info", "applied", None, 1040).unwrap();
    q.log_event(2, "t", "info", "idle", None, 1040).unwrap();
    let m = q.queue_metrics(Some(60), 1050);
    assert_eq!(m.window_seconds, 60);
    assert_eq!(m.timestamp, 1050);
    assert_eq!(m.dequeue_samples, 2);
    assert_eq!(m.dequeue_latency_total_ms, 710);
    assert_eq!(m.poll_samples, 3);
    assert_eq!(m.poll_interval_total_ms, 1300);
    assert_eq!(m.lease_contention_events, 1);
    assert_eq!(m.applied_count, 2);
    assert_eq!(m.apply_samples, 1);
    assert_eq!(m.apply_duration_total_ms, 40);
    assert_eq!(m.avg_dequeue_latency_ms(), Some(355));
    assert_eq!(m.avg_apply_duration_ms(), Some(40));
    assert_eq!(m.avg_poll_interval_ms(), Some(433));
    // the event written at 990 is the first that counts
    let edge = q.queue_metrics(Some(150), 1050);
    assert_eq!(edge.dequeue_samples, 3);
    let none = q.queue_metrics(None, 5000);
    assert_eq!(none.window_seconds, 60);
    assert_eq!(none.applied_count, 0);
    assert_eq!(none.avg_dequeue_latency_ms(), None);
    assert_eq!(q.queue_metrics(Some(-5), 1050).window_seconds, 1);
}
