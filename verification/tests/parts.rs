use std::collections::VecDeque;

use hyperion::agent::CopilotHarness;
use hyperion::apply::{
    choose_action, fallback_accepts, needs_directory_retry, plan_change, trial_result,
    ApplyFailure, FileAction, PatchFault,
};
use hyperion::cast_builder::{
    default_target, prompt_approvals, prompt_instructions, prompt_tags, CastAnswers,
};
use hyperion::cli::{cleanup_ttl, select_dead_letters, select_records};
use hyperion::models::StatusCounts;
use hyperion::worker::{next_progress, progress_due, report_progress, WorkerConfig};
use hyperion::coordinator::{clamp_parallelism, run_integrated};
use hyperion::digest::{patch_hash, to_hex};
use hyperion::doctor::{self, lines_of};
use hyperion::exporter::{
    describe_git_status, detect_language, render_described_skill_prompt, render_export_guide,
    render_skill_prompt, replace_text, skill_name,
};
use hyperion::fs_watch::{note_modified, on_file_event, FsEventKind};
use hyperion::journal::{read_measure, DetailField, DetailValue};
use hyperion::models::{
    default_failure_policy, AgentSession, ApprovalRecord, AssignmentMetadata, ChangeOperation,
    ChangeRequest, OperationKind, QueueStatus, RequestedChange, TaskRequest, WalCheckpointStats,
};
use hyperion::orchestrator::{compute_complexity, decompose_request, sample_diff};
use hyperion::order::{greatest, newest_first};
use hyperion::queue::SqliteQueue;
use hyperion::request::{
    build_change_operation, build_prompt, compute_patch_hash, conclude_request,
    merge_assignment_metadata, plan_request, run_assignment, select_model, skip_to, take_in,
    wrap_diff, Intake,
};
use hyperion::runner::check_result;
use hyperion::schema::SchemaListing;
use hyperion::text::{
    compare_text, contains, is_blank, is_white_space, join, replace, text_eq, trim, TextOrder,
};
use hyperion::tui::{
    agent_names, cycle_agent_filter, format_cast_builder_text, format_guidance, format_metrics,
    key_for, on_key,
    run_dashboard, run_dashboard_with_config, truncate, visible_records, CastBuilderContext,
    DashboardKey, TuiConfig, TuiState,
};
use hyperion::watcher::is_request_file;

fn strings(list: &[&str]) -> Vec<String> {
    list.iter().map(|s| s.to_string()).collect()
}

fn task_request() -> TaskRequest {
    TaskRequest {
        request_id: "REQ-7".to_string(),
        summary: "Tidy up".to_string(),
        requested_changes: vec![
            RequestedChange {
                path: "src/lib.rs".to_string(),
                summary: "Rename the queue".to_string(),
                phase_id: Some("phase-a".to_string()),
                blocking_on_failure: Some(false),
            },
            RequestedChange {
                path: "README.md".to_string(),
                summary: "Explain".to_string(),
                phase_id: None,
                blocking_on_failure: None,
            },
        ],
        phases: None,
    }
}

fn simple_request(task_id: &str, agent: &str) -> ChangeRequest {
    ChangeRequest {
        task_id: task_id.to_string(),
        agent: agent.to_string(),
        metadata: AssignmentMetadata::default(),
        changes: vec![ChangeOperation {
            path: "x.txt".to_string(),
            operation: OperationKind::Add,
            patch: "+++ b/x.txt\n@@\n+hi".to_string(),
            patch_hash: None,
        }],
        checks: vec!["true".to_string()],
    }
}

#[test]
fn white_space_is_what_std_takes_for_it() {
    for code in 0..=0x10FFFFu32 {
        if let Some(c) = char::from_u32(code) {
            assert_eq!(is_white_space(c), c.is_whitespace(), "U+{code:04X}");
        }
    }
}

#[test]
fn text_helpers_agree_with_std() {
    for s in ["", "  ", "\t\n", " a ", "a", "\u{3000}", "\u{a0}x"] {
        assert_eq!(is_blank(s), s.trim().is_empty(), "{s:?}");
        assert_eq!(trim(s), s.trim(), "{s:?}");
    }
    assert_eq!(trim("  two words \n"), "two words");
    assert!(contains("hello world", "o w"));
    assert!(contains("hello", ""));
    assert!(contains("", ""));
    assert!(!contains("hello", "hellos"));
    assert!(!contains("abab", "abb"));
    assert!(contains("aab", "ab"));
    assert_eq!(replace("a\\b\\c", '\\', '/'), "a/b/c");
    assert!(text_eq("same", "same"));
    assert!(!text_eq("same", "sama"));
    assert!(!text_eq("same", "sam"));
    assert_eq!(join(&strings(&["a", "b", "c"]), ", "), "a, b, c");
    assert_eq!(join(&strings(&["a"]), ", "), "a");
    assert_eq!(join(&Vec::new(), ", "), "");
    for (a, b) in [("a", "b"), ("a", "ab"), ("", "a"), ("Z", "a"), ("ä", "z"), ("same", "same")] {
        let expected = match a.cmp(b) {
            std::cmp::Ordering::Less => TextOrder::Before,
            std::cmp::Ordering::Equal => TextOrder::Same,
            std::cmp::Ordering::Greater => TextOrder::After,
        };
        assert_eq!(compare_text(a, b), expected);
        let back = match b.cmp(a) {
            std::cmp::Ordering::Less => TextOrder::Before,
            std::cmp::Ordering::Equal => TextOrder::Same,
            std::cmp::Ordering::Greater => TextOrder::After,
        };
        assert_eq!(compare_text(b, a), back);
    }
}

#[test]
fn hex_is_lower_case_two_digits_a_byte() {
    assert_eq!(to_hex(&vec![0x00, 0x0f, 0xa0, 0xff]), "000fa0ff");
    assert_eq!(to_hex(&vec![]), "");
    assert_eq!(patch_hash("abc"), compute_patch_hash("abc"));
    assert_eq!(patch_hash("abc").len(), 64);
}

#[test]
fn newest_first_orders_by_time_then_by_place() {
    assert_eq!(newest_first(&vec![10, 30, 20, 30]), vec![3, 1, 2, 0]);
    assert_eq!(newest_first(&vec![]), Vec::<usize>::new());
    assert_eq!(newest_first(&vec![5, 5, 5]), vec![2, 1, 0]);
    assert_eq!(greatest(&vec![3, -1, 9, 2]), Some(9));
    assert_eq!(greatest(&vec![]), None);
}

#[test]
fn measures_are_counts_under_the_first_name() {
    let details = Some(vec![
        DetailField { key: "a".to_string(), value: DetailValue::Text("x".to_string()) },
        DetailField { key: "n".to_string(), value: DetailValue::Count(7) },
        DetailField { key: "n".to_string(), value: DetailValue::Count(8) },
        DetailField { key: "i".to_string(), value: DetailValue::Int(3) },
    ]);
    assert_eq!(read_measure(&details, "n"), Some(7));
    assert_eq!(read_measure(&details, "a"), None);
    assert_eq!(read_measure(&details, "i"), None);
    assert_eq!(read_measure(&details, "missing"), None);
    assert_eq!(read_measure(&None, "n"), None);
}

#[test]
fn orchestrator_makes_one_assignment_per_change() {
    let request = task_request();
    let assignments = decompose_request(&request);
    assert_eq!(assignments.len(), 2);
    let first = &assignments[0];
    assert_eq!(first.task_id, "REQ-7-1");
    assert_eq!(first.parent_request_id, "REQ-7");
    assert_eq!(first.summary, "Rename the queue");
    assert_eq!(first.file_targets, strings(&["src/lib.rs"]));
    assert_eq!(
        first.instructions,
        strings(&[
            "Keep changes isolated to the listed files.",
            "Provide a structured JSON change request on completion."
        ])
    );
    assert_eq!(first.metadata.intent, "Tidy up :: Rename the queue");
    assert_eq!(first.metadata.telemetry_anchors, strings(&["cast:REQ-7", "task:Rename_the_queue"]));
    assert_eq!(
        first.metadata.sample_diff.as_deref(),
        Some("diff --git a/src/lib.rs b/src/lib.rs\n@@ -0,0 +1 @@\n+// Update: Rename the queue")
    );
    // 16 bytes of summary and 10 of path: 1 + 26 % 10
    assert_eq!(first.metadata.complexity, 7);
    assert!(first.metadata.approvals.is_empty());
    assert!(first.metadata.agent_model.is_none());
    assert_eq!(first.phase_id.as_deref(), Some("phase-a"));
    assert!(!first.blocking_on_failure);
    let second = &assignments[1];
    assert_eq!(second.task_id, "REQ-7-2");
    assert!(second.blocking_on_failure);
    assert!(second.phase_id.is_none());
    assert_eq!(compute_complexity(&request.requested_changes[1]), 1 + (7 + 9) % 10);
    assert_eq!(
        sample_diff(&request.requested_changes[1]),
        "diff --git a/README.md b/README.md\n@@ -0,0 +1 @@\n+// Update: Explain"
    );
    assert_eq!(default_failure_policy(), "block");
}

#[test]
fn complexity_wraps_at_a_byte() {
    let change = RequestedChange {
        path: "p".repeat(255),
        summary: "s".repeat(258),
        phase_id: None,
        blocking_on_failure: None,
    };
    // 258 % 256 = 2, 255 % 256 = 255, (2 + 255) % 256 = 1
    assert_eq!(compute_complexity(&change), 2);
}

#[test]
fn plan_request_wants_a_change() {
    let plan = plan_request(&task_request(), 7).unwrap();
    assert_eq!(plan.assignments.len(), 2);
    assert_eq!(plan.agent_count, 3);
    assert_eq!(plan_request(&task_request(), 0).unwrap().agent_count, 1);
    let mut empty = task_request();
    empty.requested_changes.clear();
    assert_eq!(
        plan_request(&empty, 2).err().unwrap(),
        "task request produced no assignments"
    );
    assert_eq!(conclude_request(3, 0), Ok(3));
    assert_eq!(conclude_request(3, 2), Err("2 assignment(s) failed".to_string()));
}

#[test]
fn model_selection_and_metadata_merge() {
    let mut meta = AssignmentMetadata::default();
    meta.complexity = 3;
    assert_eq!(select_model("gpt-5-mini", &meta), "gpt-4.1");
    meta.complexity = 4;
    assert_eq!(select_model("gpt-5-mini", &meta), "gpt-5-mini");

    let assignment_meta = AssignmentMetadata {
        intent: "original".to_string(),
        complexity: 5,
        sample_diff: Some("diff".to_string()),
        telemetry_anchors: strings(&["a"]),
        approvals: vec![ApprovalRecord {
            approver: "ann".to_string(),
            note: "ok".to_string(),
            timestamp: None,
        }],
        agent_model: None,
    };
    let agent_meta = AssignmentMetadata {
        intent: "  ".to_string(),
        complexity: 0,
        sample_diff: None,
        telemetry_anchors: vec![],
        approvals: vec![],
        agent_model: Some("ignored".to_string()),
    };
    let merged = merge_assignment_metadata(agent_meta, &assignment_meta, "m1");
    assert_eq!(merged.intent, "original");
    assert_eq!(merged.complexity, 5);
    assert_eq!(merged.sample_diff.as_deref(), Some("diff"));
    assert_eq!(merged.telemetry_anchors, strings(&["a"]));
    assert_eq!(merged.approvals.len(), 1);
    assert_eq!(merged.agent_model.as_deref(), Some("m1"));
    let agent_meta = AssignmentMetadata {
        intent: "new".to_string(),
        complexity: 200,
        sample_diff: Some("d2".to_string()),
        telemetry_anchors: strings(&["b", "c"]),
        approvals: vec![],
        agent_model: None,
    };
    let merged = merge_assignment_metadata(agent_meta, &assignment_meta, "m2");
    assert_eq!(merged.intent, "new");
    assert_eq!(merged.complexity, 10);
    assert_eq!(merged.sample_diff.as_deref(), Some("d2"));
    assert_eq!(merged.telemetry_anchors, strings(&["b", "c"]));
    assert_eq!(merged.approvals.len(), 1);
}

#[test]
fn prompt_names_the_assignment() {
    let assignments = decompose_request(&task_request());
    let prompt = build_prompt(&assignments[0], "agent-1", "gpt-5-mini");
    assert!(prompt.starts_with(
        "You are agent-1 running gpt-5-mini. Provide only JSON output, no prose.\n\nTask ID: REQ-7-1\nSummary: Rename the queue\nIntent: Tidy up :: Rename the queue\nComplexity: 7/10\nSample Diff: diff --git a/src/lib.rs"
    ));
    assert!(prompt.contains("\nTelemetry Anchors: cast:REQ-7, task:Rename_the_queue\nFiles: src/lib.rs\nInstructions:\n- Keep changes isolated to the listed files.\n- Provide a structured JSON change request on completion.\n\nReturn a single JSON object"));
    assert!(prompt.ends_with("describe the guard expectations for those checks.\n"));
    let mut bare = assignments[1].clone();
    bare.metadata.sample_diff = None;
    bare.metadata.telemetry_anchors.clear();
    let prompt = build_prompt(&bare, "a", "m");
    assert!(prompt.contains("Sample Diff: sample diff placeholder\nTelemetry Anchors: none\n"));
}

#[test]
fn stand_in_change_is_a_valid_update() {
    let assignments = decompose_request(&task_request());
    let change = build_change_operation("src/lib.rs", "fn main() {}", &assignments[0], "agent-1");
    assert_eq!(change.path, "src/lib.rs");
    assert_eq!(change.operation, OperationKind::Update);
    assert!(change.patch.starts_with(
        "diff --git a/src/lib.rs b/src/lib.rs\nindex 0000000..0000000 100644\n--- a/src/lib.rs\n+++ b/src/lib.rs\n@@"
    ));
    assert!(change.patch.contains("+// Orchestrated update for REQ-7-1 by agent-1"));
    assert_eq!(change.patch_hash, Some(patch_hash(&change.patch)));
    // the patch that diffy made fits the content it was made for
    assert!(fallback_accepts("fn main() {}", &change.patch));
    assert!(!fallback_accepts("something else entirely\nwith lines\n", &change.patch));
    assert_eq!(
        wrap_diff("a.rs", "--- original\n+++ modified\n@@ -1 +1 @@\n-x\n+y\n"),
        "diff --git a/a.rs b/a.rs\nindex 0000000..0000000 100644\n--- a/a.rs\n+++ b/a.rs\n@@ -1 +1 @@\n-x\n+y\n"
    );
    assert_eq!(skip_to("abc@@def@@", "@@"), "@@def@@");
    assert_eq!(skip_to("abc", "@@"), "abc");
}

#[test]
fn run_assignment_adopts_an_answer_or_stands_in() {
    let assignments = decompose_request(&task_request());
    let assignment = &assignments[0];
    // complexity 7: the model asked for is used
    let answer = simple_request("whatever", "someone");
    let adopted = run_assignment(assignment, Some(answer), "", "agent-2", "gpt-5-mini");
    assert_eq!(adopted.task_id, "REQ-7-1");
    assert_eq!(adopted.agent, "agent-2");
    assert_eq!(adopted.metadata.agent_model.as_deref(), Some("gpt-5-mini"));
    assert_eq!(adopted.metadata.intent, "Tidy up :: Rename the queue");
    assert_eq!(adopted.changes[0].patch_hash, Some(patch_hash("+++ b/x.txt\n@@\n+hi")));
    assert_eq!(adopted.checks, strings(&["true"]));
    let stand_in = run_assignment(assignment, None, "old\n", "agent-2", "gpt-5-mini");
    assert_eq!(stand_in.task_id, "REQ-7-1");
    assert_eq!(stand_in.checks, strings(&["cargo fmt --check"]));
    assert_eq!(stand_in.changes.len(), 1);
    assert_eq!(stand_in.changes[0].path, "src/lib.rs");
    assert_eq!(stand_in.metadata.agent_model.as_deref(), Some("gpt-5-mini"));
    let valid = hyperion::validator::validate_change_request(&stand_in);
    assert!(valid.valid, "{:?}", valid.errors);
}

#[test]
fn take_in_enqueues_valid_requests_only() {
    let mut q = SqliteQueue::open("hyperion.db");
    match take_in(&mut q, &simple_request("T1", "agent-1"), 50).unwrap() {
        Intake::Enqueued { id } => assert_eq!(id, 1),
        other => panic!("expected the request to be taken in, got {other:?}"),
    }
    let logs = q.recent_logs(10);
    assert_eq!(logs.len(), 1);
    assert_eq!(logs[0].message, "agent_request");
    assert_eq!(logs[0].queue_id, 1);
    let details = logs[0].details.as_ref().unwrap();
    let keys: Vec<&str> = details.iter().map(|d| d.key.as_str()).collect();
    assert_eq!(keys, vec!["agent", "model", "complexity", "intent", "checks", "telemetry_anchors"]);
    assert!(matches!(&details[1].value, DetailValue::Text(m) if m == "gpt-5-mini"));
    match take_in(&mut q, &simple_request("", "agent-1"), 51).unwrap() {
        Intake::Rejected { errors } => assert_eq!(errors, strings(&["task_id is required"])),
        other => panic!("expected the request to be rejected, got {other:?}"),
    }
    assert_eq!(q.status_counts().pending, 1);
    assert_eq!(q.recent_logs(10).len(), 1);
}

#[test]
fn harness_arguments_follow_the_session() {
    let plain = CopilotHarness::new("gpt-5-mini".to_string());
    assert_eq!(plain.binary, "copilot");
    assert!(plain.allow_all_tools);
    assert!(plain.session.is_none());
    assert_eq!(
        plain.build_command("do it"),
        strings(&["--model", "gpt-5-mini", "--allow-all-tools", "--silent", "-p", "do it"])
    );
    let session = AgentSession {
        id: 1,
        resume_id: "abc".to_string(),
        model: "gpt-4.1".to_string(),
        allow_all_tools: false,
        created_at: 0,
        last_used: 0,
    };
    let resumed = CopilotHarness::with_session("gpt-5-mini".to_string(), Some(&session));
    assert_eq!(resumed.model, "gpt-4.1");
    assert_eq!(resumed.session.as_deref(), Some("abc"));
    assert_eq!(resumed.build_command("p"), strings(&["--resume", "abc", "--silent", "-p", "p"]));
    let fresh = CopilotHarness::with_session("gpt-5-mini".to_string(), None);
    assert_eq!(fresh.model, "gpt-5-mini");
    assert!(fresh.allow_all_tools);
}

#[test]
fn harness_reads_the_exit_of_the_tool() {
    assert_eq!(
        CopilotHarness::interpret_run(true, "exit status: 0", Some("{}".to_string()), "{}", ""),
        Ok("{}".to_string())
    );
    assert_eq!(
        CopilotHarness::interpret_run(true, "exit status: 0", None, "\u{fffd}", ""),
        Err("decode copilot output".to_string())
    );
    assert_eq!(
        CopilotHarness::interpret_run(false, "exit status: 2", None, " out \n", "  "),
        Err("copilot exited with exit status: 2, stdout: out".to_string())
    );
    assert_eq!(
        CopilotHarness::interpret_run(false, "exit status: 2", None, "o", " e "),
        Err("copilot exited with exit status: 2, stderr: e, stdout: o".to_string())
    );
}

#[test]
fn apply_plans_follow_the_operation() {
    let add = ChangeOperation {
        path: "new.txt".to_string(),
        operation: OperationKind::Add,
        patch: "--- a/new.txt\n+++ b/new.txt\n@@ -0,0 +1 @@\n+hello\n".to_string(),
        patch_hash: None,
    };
    match plan_change(&add, false, "ignored") {
        Ok(FileAction::Write { content }) => assert_eq!(content, "hello\n"),
        other => panic!("expected a write, got {other:?}"),
    }
    let update = ChangeOperation {
        path: "f.txt".to_string(),
        operation: OperationKind::Update,
        patch: "--- a/f.txt\n+++ b/f.txt\n@@ -1 +1 @@\n-old\n+new\n".to_string(),
        patch_hash: None,
    };
    match plan_change(&update, true, "old\n") {
        Ok(FileAction::Write { content }) => assert_eq!(content, "new\n"),
        other => panic!("expected a write, got {other:?}"),
    }
    assert_eq!(
        plan_change(&update, true, "different\n").err().unwrap(),
        "apply patch contents"
    );
    let broken = ChangeOperation {
        path: "f.txt".to_string(),
        operation: OperationKind::Update,
        patch: "@@ nonsense".to_string(),
        patch_hash: None,
    };
    assert_eq!(plan_change(&broken, true, "old\n").err().unwrap(), "parse patch text");
    let delete = ChangeOperation {
        path: "gone.txt".to_string(),
        operation: OperationKind::Delete,
        patch: "--- a/gone.txt\n".to_string(),
        patch_hash: None,
    };
    assert!(matches!(plan_change(&delete, true, ""), Ok(FileAction::Remove)));
    assert_eq!(
        plan_change(&delete, false, "").err().unwrap(),
        "delete failed: gone.txt does not exist"
    );
    assert!(fallback_accepts("old\n", &update.patch));
    assert!(!fallback_accepts("other\n", &update.patch));
    assert!(matches!(
        choose_action(&update, false, Ok("given".to_string())),
        Ok(FileAction::Write { content }) if content == "given"
    ));
    assert_eq!(
        choose_action(&update, true, Err(PatchFault::Parse)).err().unwrap(),
        "parse patch text"
    );
    assert!(matches!(choose_action(&delete, true, Err(PatchFault::Apply)), Ok(FileAction::Remove)));
}

#[test]
fn trial_and_check_failures_carry_what_was_written() {
    let change = ChangeOperation {
        path: "f.txt".to_string(),
        operation: OperationKind::Update,
        patch: "PATCH".to_string(),
        patch_hash: None,
    };
    assert!(trial_result(&change, true, "exit status: 0", String::new(), String::new()).is_none());
    let failure = trial_result(
        &change,
        false,
        "exit status: 1",
        "o".to_string(),
        "error: f.txt: No such file or directory".to_string(),
    )
    .unwrap();
    assert_eq!(failure.patch, "PATCH");
    assert_eq!(failure.stdout, "o");
    assert_eq!(failure.to_string(), "apply failure: git apply --check failed (exit status: 1)");
    assert!(needs_directory_retry(&failure));
    let other = ApplyFailure::new("s".into(), "p".into(), "".into(), "patch does not apply".into());
    assert!(!needs_directory_retry(&other));
    assert!(check_result("true", true, "exit status: 0", String::new(), String::new()).is_none());
    let failed = check_result("false", false, "exit status: 1", "o".into(), "e".into()).unwrap();
    assert_eq!(failed.command, "false");
    assert_eq!(failed.stderr, "e");
    assert_eq!(failed.to_string(), "check failure: check failed: false (exit exit status: 1)");
}

#[test]
fn doctor_reports_what_it_finds() {
    let listing = SchemaListing {
        queue_columns: strings(&[
            "id", "status", "payload", "attempts", "leased_until", "lease_owner", "updated_at",
        ]),
        queue_indexes: strings(&["idx_change_queue_status", "idx_change_queue_status_lease_id"]),
        dead_letter_columns: strings(&["failed_at"]),
    };
    let wal = WalCheckpointStats { checkpointed: 1, log: 2, wal: 3 };
    let mut q = SqliteQueue::open("hyperion.db");
    q.enqueue(&simple_request("T1", "a"), 100).unwrap();
    q.enqueue(&simple_request("T2", "a"), 100).unwrap();
    q.mark_applied(1, 100).unwrap();
    q.mark_failed(2, None, 100).unwrap();
    q.log_event(0, "x", "info", "dedup_hit", None, 3_000_000 - 10).unwrap();
    q.log_event(0, "x", "info", "dedup_hit", None, 3_000_000 - 400).unwrap();
    let report = doctor::run(&mut q, &listing, wal, 3_000_000).unwrap();
    assert_eq!(report.stale_applied, 1);
    assert_eq!(report.stale_dead_letters, 1);
    assert_eq!(report.dedup_hits, 1);
    assert_eq!(report.last_cleanup, None);
    assert_eq!(report.timestamp_skew_secs, Some(2_999_900));
    assert_eq!(
        lines_of(&report),
        strings(&[
            "Queue diagnostics: schema OK",
            "- applied rows older than 604800s: 1",
            "- dead letters older than 2592000s: 1",
            "- dedup hits within 300s window: 1",
            "- cleanup sweep not yet run",
            "- timestamp skew (now - latest update): 2999900s",
            "- WAL checkpoint (passive): checkpointed=1, log=2, wal=3",
        ])
    );
    let logs = q.recent_logs(1);
    assert_eq!(logs[0].message, "diagnostics passed");
    assert_eq!(logs[0].task_id, "doctor");
    assert_eq!(logs[0].details.as_ref().unwrap().len(), 9);
    q.cleanup_stale_records(10, 3_000_100).unwrap();
    let report = doctor::run(&mut q, &listing, wal, 3_000_200).unwrap();
    assert_eq!(report.last_cleanup, Some(3_000_100));
    assert_eq!(report.timestamp_skew_secs, None);
    assert_eq!(lines_of(&report).len(), 6);
    let mut bad = listing;
    bad.dead_letter_columns.clear();
    let before = q.recent_logs(100).len();
    assert_eq!(
        doctor::run(&mut q, &bad, wal, 3_000_300),
        Err("missing failed_at in dead_letters".to_string())
    );
    assert_eq!(q.recent_logs(100).len(), before);
}

#[test]
fn recent_files_hold_ten_paths_at_most() {
    let mut files: VecDeque<String> = VecDeque::new();
    for i in 0..12 {
        note_modified(&mut files, format!("f{i}"));
    }
    assert_eq!(files.len(), 10);
    assert_eq!(files.front().unwrap(), "f11");
    assert_eq!(files.back().unwrap(), "f2");
    let mut q = SqliteQueue::open("hyperion.db");
    on_file_event(&mut q, &mut files, FsEventKind::Other, "Access(Read)", "a.rs", 5);
    assert_eq!(files.front().unwrap(), "f11");
    assert!(q.recent_logs(10).is_empty());
    on_file_event(&mut q, &mut files, FsEventKind::Modify, "Modify(Any)", " /tmp/a.rs ", 5);
    assert_eq!(files.front().unwrap(), "/tmp/a.rs");
    assert_eq!(files.len(), 10);
    let logs = q.recent_logs(10);
    assert_eq!(logs.len(), 1);
    assert_eq!(logs[0].message, "file modified");
    assert_eq!(logs[0].task_id, "fsnotify");
    let events = q.recent_file_events(10);
    assert_eq!(events.len(), 1);
    assert_eq!(events[0].path, "/tmp/a.rs");
    assert_eq!(events[0].event, "Modify(Any)");
    assert_eq!(events[0].source, "fsnotify");
}

#[test]
fn request_files_end_in_json() {
    for (path, wanted) in [
        ("a.json", true),
        ("dir/a.json", true),
        ("dir/..json", true),
        (".json", false),
        ("dir/.json", false),
        ("a.jsonl", false),
        ("a.JSON", false),
        ("json", false),
        ("", false),
    ] {
        assert_eq!(is_request_file(path), wanted, "{path}");
        let std_says =
            std::path::Path::new(path).extension().and_then(|e| e.to_str()) == Some("json");
        assert_eq!(wanted, std_says, "{path}");
    }
}

#[test]
fn coordinator_holds_the_counts() {
    assert_eq!(clamp_parallelism(0), 1);
    assert_eq!(clamp_parallelism(1), 1);
    assert_eq!(clamp_parallelism(2), 2);
    assert_eq!(clamp_parallelism(3), 3);
    assert_eq!(clamp_parallelism(usize::MAX), 3);
    let workers = run_integrated(9);
    let ids: Vec<&str> = workers.iter().map(|w| w.worker_id.as_str()).collect();
    assert_eq!(ids, vec!["worker-1", "worker-2", "worker-3"]);
    assert_eq!(workers[0].lease_seconds, 300);
    assert_eq!(workers[0].poll_interval_ms, 500);
    assert!(workers[0].run_checks);
    assert_eq!(workers[0].max_attempts, 5);
    assert_eq!(run_integrated(0).len(), 1);
}

#[test]
fn cast_builder_reads_lines() {
    assert_eq!(prompt_tags("  ", "cast_builder"), strings(&["cast_builder"]));
    assert_eq!(prompt_tags(" a, b ,,c ", "d"), strings(&["a", "b", "c"]));
    assert_eq!(prompt_tags(",", "d"), Vec::<String>::new());
    assert_eq!(
        prompt_instructions(" first ; ; second"),
        strings(&[
            "Keep changes isolated to the listed files.",
            "Provide a structured JSON change request on completion.",
            "first",
            "second"
        ])
    );
    assert_eq!(prompt_instructions("").len(), 2);
    assert!(prompt_approvals("y"));
    assert!(prompt_approvals("Yes please"));
    assert!(!prompt_approvals(""));
    assert!(!prompt_approvals("no"));
}

#[test]
fn exporter_fills_templates() {
    assert_eq!(detect_language(true, true, true), "Rust (Cargo)");
    assert_eq!(detect_language(false, true, true), "Node.js (npm)");
    assert_eq!(detect_language(false, false, true), "Python (poetry)");
    assert_eq!(detect_language(false, false, false), "Unknown");
    assert_eq!(replace_text("aaa", "aa", "b"), "ba");
    assert_eq!(replace_text("abcabc", "bc", ""), "aa");
    assert_eq!(replace_text("abc", "x", "y"), "abc");
    assert_eq!(replace_text("", "x", "y"), "");
    assert_eq!(replace_text("abc", "", "y"), "abc");
    for (text, from, to) in [("a{{x}}b{{x}}", "{{x}}", "1"), ("xxxx", "xx", "xxx"), ("ab", "abc", "z")] {
        assert_eq!(replace_text(text, from, to), text.replace(from, to));
    }
    assert_eq!(
        render_export_guide(
            "path={{target_path}} lang={{language}} git={{git_status}} again={{language}}",
            "/t",
            "Rust (Cargo)",
            "## main"
        ),
        "path=/t lang=Rust (Cargo) git=## main again=Rust (Cargo)"
    );
    assert_eq!(describe_git_status(true, true, " ## main\n", "", ""), "## main");
    assert_eq!(
        describe_git_status(true, false, "", " fatal: not a repo \n", ""),
        "git status failed: fatal: not a repo"
    );
    assert_eq!(
        describe_git_status(false, false, "", "", "No such file"),
        "git status unavailable: No such file"
    );
    let prompt = render_skill_prompt("lint", "/bundle/skills");
    assert!(prompt.starts_with("# lint skill prompt\n\nThis file contains"));
    assert!(prompt.contains("directory at `/bundle/skills` with"));
    assert!(prompt.contains("hyperion agent --model gpt-5-mini \\\"lint: <describe the task>\\\"\n"));
    assert!(prompt.contains("hyperion worker --worker-id lint-worker\n"));
    assert!(prompt.ends_with("automate or orchestrate the skill.\n"));
}

#[test]
fn dashboard_state_follows_the_keys() {
    let names = strings(&["a1", "a2"]);
    let mut state = TuiState::default();
    assert_eq!(key_for('q'), DashboardKey::Quit);
    assert_eq!(key_for('x'), DashboardKey::Other);
    assert!(!on_key(&mut state, DashboardKey::Quit, &names, 3));
    state.selected_index = 2;
    assert!(on_key(&mut state, key_for('s'), &names, 3));
    assert_eq!(state.status_index, 1);
    assert_eq!(state.selected_index, 0);
    for _ in 0..4 {
        on_key(&mut state, DashboardKey::CycleStatus, &names, 3);
    }
    assert_eq!(state.status_index, 0);
    on_key(&mut state, key_for('a'), &names, 3);
    assert_eq!(state.agent_filter.as_deref(), Some("a1"));
    on_key(&mut state, key_for('a'), &names, 3);
    assert_eq!(state.agent_filter.as_deref(), Some("a2"));
    on_key(&mut state, key_for('a'), &names, 3);
    assert_eq!(state.agent_filter, None);
    on_key(&mut state, key_for('r'), &names, 3);
    assert_eq!(state.refresh_index, 2);
    on_key(&mut state, key_for('d'), &names, 3);
    assert!(!state.show_detail);
    on_key(&mut state, key_for('e'), &names, 3);
    assert!(!state.show_events);
    on_key(&mut state, DashboardKey::Up, &names, 3);
    assert_eq!(state.selected_index, 0);
    on_key(&mut state, DashboardKey::Down, &names, 3);
    on_key(&mut state, DashboardKey::Down, &names, 3);
    on_key(&mut state, DashboardKey::Down, &names, 3);
    assert_eq!(state.selected_index, 2);
    on_key(&mut state, DashboardKey::Down, &names, 0);
    assert_eq!(state.selected_index, 2);
    state.status_index = usize::MAX;
    state.refresh_index = 3;
    on_key(&mut state, DashboardKey::CycleStatus, &names, 3);
    on_key(&mut state, DashboardKey::CycleRefresh, &names, 3);
    assert_eq!(state.status_index, 0);
    assert_eq!(state.refresh_index, 0);
    assert_eq!(cycle_agent_filter(&names, Some("zz")), Some("a1".to_string()));
    assert_eq!(cycle_agent_filter(&Vec::new(), Some("a1")), None);
    assert_eq!(truncate("abcdef", 3), "abc\u{2026}");
    assert_eq!(truncate("abc", 3), "abc");
}

#[test]
fn dashboard_frame_shows_the_queue() {
    let mut q = SqliteQueue::open("hyperion.db");
    q.enqueue(&simple_request("T1", "zed"), 100).unwrap();
    q.enqueue(&simple_request("T2", "amy"), 100).unwrap();
    q.enqueue(&simple_request("T3", "zed"), 100).unwrap();
    q.dequeue(200, 60, "w1").unwrap();
    q.mark_failed(3, Some("bad".to_string()), 201).unwrap();
    q.upsert_agent_session("r1", "m", true, 150).unwrap();
    let config = TuiConfig { db_path: "q.db".to_string(), worker_count: 2, agent_count: 1 };
    let mut state = TuiState::default();
    state.selected_index = 7;
    let frame = run_dashboard_with_config(&q, &config, &mut state, 260);
    assert_eq!(state.selected_index, 2);
    assert_eq!(frame.shown, 3);
    assert_eq!(
        frame.summary,
        "Queue Overview\nPending: 1\nIn Progress: 1\nApplied: 0\nFailed: 1\nDead Letters: 1"
    );
    assert_eq!(
        frame.runtime,
        "Runtime Insights\nDB: q.db\nWorkers: 2\nAgents: 1\nSession: r1 (allow_all_tools=true, last_used=150)"
    );
    assert_eq!(frame.agent_names, strings(&["amy", "zed"]));
    assert_eq!(
        frame.queue_rows,
        vec![
            strings(&["3", "T3", "zed", "failed", "0", ""]),
            strings(&["2", "T2", "amy", "pending", "0", ""]),
            strings(&["1", "T1", "zed", "in_progress", "1", "\u{279c}"]),
        ]
    );
    assert_eq!(frame.history_rows[0], strings(&["T3", "zed", "failed", "0"]));
    assert_eq!(
        frame.detail,
        "Task: T1\nAgent: zed\nStatus: in_progress\nAttempts: 1\nLease until: Some(260)\nLease owner: w1\nLast error: <none>"
    );
    assert_eq!(frame.metrics.status_counts.failed, 1);
    assert_eq!(frame.metrics.timestamp, 260);

    let mut filtered = TuiState::default();
    filtered.status_index = 4;
    filtered.agent_filter = Some("zed".to_string());
    let history = q.recent_records(100).unwrap();
    let shown = visible_records(&history, &filtered);
    assert_eq!(shown.len(), 1);
    assert_eq!(shown[0].id, 3);
    assert_eq!(agent_names(&history), strings(&["amy", "zed"]));
    let frame = run_dashboard_with_config(&q, &config, &mut filtered, 260);
    assert_eq!(
        frame.detail,
        "Task: T3\nAgent: zed\nStatus: failed\nAttempts: 0\nLease until: None\nLease owner: <none>\nLast error: bad"
    );
    filtered.show_detail = false;
    let frame = run_dashboard_with_config(&q, &config, &mut filtered, 260);
    assert_eq!(frame.detail, "Detail pane hidden. Press 'd' to show.");
    let first = run_dashboard(&q, 260);
    assert_eq!(first.shown, 3);
    assert!(first.runtime.starts_with("Runtime Insights\nDB: hyperion.db\nWorkers: 0\nAgents: 0\n"));
}

#[test]
fn cast_builder_pane_lists_the_export() {
    assert_eq!(format_cast_builder_text(None), "Cast Builder: no exports yet.");
    let ctx = CastBuilderContext {
        request_id: "REQ-1".to_string(),
        summary: "S".to_string(),
        intent: "I".to_string(),
        complexity: 4,
        telemetry_anchors: strings(&["a", "b"]),
        approvals: vec![
            ApprovalRecord { approver: "ann".to_string(), note: "n".to_string(), timestamp: Some(1) },
            ApprovalRecord { approver: "bob".to_string(), note: "n".to_string(), timestamp: None },
        ],
        exported_at: Some(1700000000),
    };
    assert_eq!(
        format_cast_builder_text(Some(&ctx)),
        "Request: REQ-1\nSummary: S\nIntent: I\nComplexity: 4/10\nAnchors: a, b\nApprovals: ann, bob\nExported: 1700000000s since epoch"
    );
    let bare = CastBuilderContext {
        telemetry_anchors: vec![],
        approvals: vec![],
        exported_at: None,
        ..ctx
    };
    assert!(format_cast_builder_text(Some(&bare))
        .ends_with("Anchors: none\nApprovals: none\nExported: n/a"));
}

#[test]
fn status_names_are_the_stored_ones() {
    assert_eq!(QueueStatus::Pending.as_str(), "pending");
    assert_eq!(QueueStatus::InProgress.as_str(), "in_progress");
    assert_eq!(QueueStatus::Applied.as_str(), "applied");
    assert_eq!(QueueStatus::Failed.as_str(), "failed");
    assert!(QueueStatus::Applied.is_terminal());
    assert!(QueueStatus::Failed.is_terminal());
    assert!(!QueueStatus::Pending.is_terminal());
    assert!(!QueueStatus::InProgress.is_terminal());
    for status in [
        QueueStatus::Pending,
        QueueStatus::InProgress,
        QueueStatus::Applied,
        QueueStatus::Failed,
    ] {
        assert_eq!(QueueStatus::from_string(status.as_str()), Some(status));
    }
    assert_eq!(QueueStatus::from_string("Pending"), None);
    assert_eq!(QueueStatus::from_string(""), None);
}

#[test]
fn listings_are_cut_by_time_and_number() {
    let mut q = SqliteQueue::open("hyperion.db");
    for (i, at) in [10, 20, 30, 40].into_iter().enumerate() {
        q.enqueue(&simple_request(&format!("T{i}"), "a"), at).unwrap();
    }
    let all = q.list(QueueStatus::Pending).unwrap();
    let ids = |records: Vec<hyperion::models::QueueRecord>| -> Vec<i64> {
        records.iter().map(|r| r.id).collect()
    };
    assert_eq!(ids(select_records(&all, None, None)), vec![1, 2, 3, 4]);
    assert_eq!(ids(select_records(&all, Some(20), None)), vec![2, 3, 4]);
    assert_eq!(ids(select_records(&all, Some(20), Some(2))), vec![2, 3]);
    assert_eq!(ids(select_records(&all, None, Some(0))), Vec::<i64>::new());
    assert_eq!(ids(select_records(&all, Some(41), Some(9))), Vec::<i64>::new());
    q.mark_failed(1, None, 100).unwrap();
    q.mark_failed(2, None, 200).unwrap();
    let letters = q.list_dead_letters().unwrap();
    let kept = select_dead_letters(&letters, Some(150), None);
    assert_eq!(kept.len(), 1);
    assert_eq!(kept[0].queue_id, 2);
    assert_eq!(select_dead_letters(&letters, None, Some(1))[0].queue_id, 2);
    assert_eq!(cleanup_ttl(None), 604800);
    assert_eq!(cleanup_ttl(Some(0)), 1);
    assert_eq!(cleanup_ttl(Some(-3)), 1);
    assert_eq!(cleanup_ttl(Some(90)), 90);
}

#[test]
fn progress_line_and_its_rhythm() {
    let cli = WorkerConfig {
        worker_id: "worker-cli".to_string(),
        lease_seconds: 1,
        poll_interval_ms: 1,
        run_checks: false,
        max_attempts: 1,
    };
    assert!(progress_due(&cli, 0, 0));
    assert!(!progress_due(&cli, 4999, 5000));
    assert!(progress_due(&cli, 5000, 5000));
    let other = WorkerConfig { worker_id: "worker-1".to_string(), ..cli };
    assert!(!progress_due(&other, 9000, 0));
    assert_eq!(next_progress(1200), 6200);
    assert_eq!(next_progress(u64::MAX - 1), u64::MAX);
    let counts = StatusCounts { pending: 1, in_progress: 2, applied: 30, failed: 0 };
    assert_eq!(
        report_progress(&counts, "1.0/min", "3.5ms", "n/a", 4),
        "[progress] pending=1 in_progress=2 applied=30 failed=0 throughput=1.0/min avg_dequeue_latency=3.5ms avg_apply_duration=n/a lease_contention_events=4"
    );
}

#[test]
fn skills_are_named_by_their_entries() {
    for (name, is_file, expected) in [
        ("lint.md", true, "lint"),
        ("lint.tar.gz", true, "lint.tar"),
        ("lint", true, "lint"),
        ("lint.", true, "lint"),
        ("a.b", false, "a.b"),
        ("x", false, "x"),
    ] {
        assert_eq!(skill_name(name, is_file), expected, "{name}");
        if is_file {
            let stem = std::path::Path::new(name).file_stem().and_then(|s| s.to_str()).unwrap();
            assert_eq!(expected, stem);
        }
    }
    let prompt = render_described_skill_prompt("lint", "Body of the skill.");
    assert!(prompt.starts_with("# lint skill prompt\n\nBody of the skill.\n\nCLI examples\n- hyperion agent --model gpt-5-mini \"lint: <describe the task>\"\n"));
    assert!(prompt.ends_with("- hyperion worker --worker-id lint-worker\n- hyperion run\n- hyperion apply path/to/changes.json\n\nInspect the skill implementation in skills/lint for more details.\n"));
}

#[test]
fn cast_builder_makes_an_assignment_for_each_change() {
    let answers = CastAnswers {
        request_id: "REQ-9".to_string(),
        intent: "why".to_string(),
        complexity: 6,
        sample_diff: "diff".to_string(),
        telemetry_anchors: strings(&["a"]),
        approvals: vec![],
        instructions: strings(&["i1", "i2"]),
    };
    let changes = vec![
        RequestedChange {
            path: "a.rs".to_string(),
            summary: "first".to_string(),
            phase_id: None,
            blocking_on_failure: None,
        },
        RequestedChange {
            path: "b.rs".to_string(),
            summary: "second".to_string(),
            phase_id: None,
            blocking_on_failure: None,
        },
    ];
    let assignments = hyperion::cast_builder::run_cast_builder(&answers, &changes);
    assert_eq!(assignments.len(), 2);
    assert_eq!(assignments[1].task_id, "REQ-9-2");
    assert_eq!(assignments[1].parent_request_id, "REQ-9");
    assert_eq!(assignments[1].summary, "second");
    assert_eq!(assignments[1].file_targets, strings(&["b.rs"]));
    assert_eq!(assignments[1].instructions, strings(&["i1", "i2"]));
    assert_eq!(assignments[1].metadata.intent, "why");
    assert_eq!(assignments[1].metadata.complexity, 6);
    assert_eq!(assignments[1].metadata.sample_diff.as_deref(), Some("diff"));
    assert_eq!(assignments[1].metadata.agent_model.as_deref(), Some("gpt-5-mini"));
    assert!(assignments[1].blocking_on_failure);
    assert_eq!(default_target("REQ-9"), "taskjson/REQ-9.json");
}

#[test]
fn dashboard_panes_tell_the_keys_and_the_metrics() {
    let mut state = TuiState::default();
    assert_eq!(
        format_guidance(&state, 60),
        "Controls\nq: Quit\ns: Cycle status filter (all)\na: Cycle agent (all agents)\nr: Refresh 500ms\nd: Toggle detail pane (on)\ne: Toggle events (on)\narrow/\u{2193}: move selection\nhyperion request <file>: enqueue task request\nhyperion queue-metrics --format json --since 60: export throughput/latency/lease stats\n"
    );
    state.status_index = 2;
    state.agent_filter = Some("amy".to_string());
    state.refresh_index = 3;
    state.show_detail = false;
    let text = format_guidance(&state, 5);
    assert!(text.contains("filter (in_progress)\na: Cycle agent (amy)\nr: Refresh 2000ms\nd: Toggle detail pane (off)\ne: Toggle events (on)"));
    assert_eq!(
        format_metrics(60, "1.0/min", "2.0ms", "n/a", "500.0ms", 3),
        "Window: 60s\nThroughput: 1.0/min\nAvg dequeue latency: 2.0ms\nAvg apply duration: n/a\nAvg poll interval: 500.0ms\nLease contention events: 3"
    );
}
