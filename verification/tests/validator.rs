use hyperion::digest::patch_hash;
use hyperion::models::{
    AssignmentMetadata, ChangeOperation, ChangeRequest, OperationKind,
};
use hyperion::validator::{check_patch_hash, validate_change_request};

fn operation(path: &str, operation: OperationKind, patch: &str, hash: Option<String>) -> ChangeOperation {
    ChangeOperation {
        path: path.to_string(),
        operation,
        patch: patch.to_string(),
        patch_hash: hash,
    }
}

fn request(changes: Vec<ChangeOperation>) -> ChangeRequest {
    ChangeRequest {
        task_id: "T1".to_string(),
        agent: "a1".to_string(),
        metadata: AssignmentMetadata::default(),
        changes,
        checks: vec!["true".to_string()],
    }
}

#[test]
fn validates_change_request_fields() {
    let request = ChangeRequest {
        task_id: "".to_string(),
        agent: "".to_string(),
        metadata: AssignmentMetadata {
            intent: "".to_string(),
            complexity: 0,
            sample_diff: None,
            telemetry_anchors: vec![],
            approvals: vec![],
            agent_model: None,
        },
        changes: vec![ChangeOperation {
            path: "".to_string(),
            operation: OperationKind::Update,
            patch: "".to_string(),
            patch_hash: Some(patch_hash("")),
        }],
        checks: vec![],
    };

    let result = validate_change_request(&request);
    assert!(!result.valid);
    assert!(result.errors.iter().any(|e| e.contains("task_id")));
    assert!(result.errors.iter().any(|e| e.contains("agent")));
    assert!(result.errors.iter().any(|e| e.contains("checks must")));
    assert!(result.errors.iter().any(|e| e.contains("changes[0].path")));
    assert!(result.errors.iter().any(|e| e.contains("changes[0].patch")));
}

#[test]
fn accepts_valid_request() {
    let patch = "diff --git a/src/lib.rs b/src/lib.rs\n\
    --- a/src/lib.rs\n\
    +++ b/src/lib.rs\n\
    @@ -1,1 +1,1 @@\n\
    -old\n\
    +new"
        .replace("        ", "");
    let request = ChangeRequest {
        task_id: "TASK-1".to_string(),
        agent: "dev-1".to_string(),
        metadata: AssignmentMetadata {
            intent: "Clarify run".to_string(),
            complexity: 3,
            sample_diff: Some("diff --git a/foo b/foo".to_string()),
            telemetry_anchors: vec!["cast:REQ".to_string()],
            approvals: vec![],
            agent_model: Some("gpt-5-mini".to_string()),
        },
        changes: vec![ChangeOperation {
            path: "src/lib.rs".to_string(),
            operation: OperationKind::Update,
            patch: patch.clone(),
            patch_hash: Some(patch_hash(&patch)),
        }],
        checks: vec!["cargo test".to_string()],
    };

    let result = validate_change_request(&request);
    assert!(result.valid);
    assert!(result.errors.is_empty());
}

#[test]
fn patch_hash_is_sha256_in_lower_hex() {
    assert_eq!(
        patch_hash(""),
        "e3b0c44298fc1c149afbf4c8996fb92427ae41e4649b934ca495991b7852b855"
    );
    assert_eq!(
        patch_hash("abc"),
        "ba7816bf8f01cfea414140de5dae2223b00361a396177a9cb410ff61f20015ad"
    );
}

#[test]
fn exact_error_list_for_an_empty_request() {
    let request = ChangeRequest {
        task_id: "  ".to_string(),
        agent: "\t".to_string(),
        metadata: AssignmentMetadata::default(),
        changes: vec![],
        checks: vec![],
    };
    let result = validate_change_request(&request);
    assert!(!result.valid);
    assert_eq!(
        result.errors,
        vec![
            "task_id is required".to_string(),
            "agent is required".to_string(),
            "changes must not be empty".to_string(),
            "checks must not be empty".to_string(),
        ]
    );
}

#[test]
fn request_without_metadata_and_hash_is_valid() {
    let result = validate_change_request(&request(vec![operation(
        "x.txt",
        OperationKind::Add,
        "+++ b/x.txt\n@@\n+hi",
        None,
    )]));
    assert!(result.valid);
    assert!(result.errors.is_empty());
}

#[test]
fn rejects_parent_segment() {
    let result = validate_change_request(&request(vec![operation(
        "../etc/passwd",
        OperationKind::Update,
        "--- a/../etc/passwd\n+++ b/../etc/passwd\n",
        None,
    )]));
    assert!(!result.valid);
    assert_eq!(
        result.errors,
        vec!["changes[0].path must not contain '..', got ../etc/passwd".to_string()]
    );
}

#[test]
fn parent_segment_is_a_whole_segment() {
    for path in ["a/../b", "a/..", "..", "a\\..\\b"] {
        let patch = format!("+++ b/{}", path.replace('\\', "/"));
        let result =
            validate_change_request(&request(vec![operation(path, OperationKind::Add, &patch, None)]));
        assert!(!result.valid);
        assert_eq!(
            result.errors,
            vec![format!("changes[0].path must not contain '..', got {path}")]
        );
    }
    for path in ["a..b", "notes..txt", "...", "a/..b/c"] {
        let patch = format!("+++ b/{path}");
        let result =
            validate_change_request(&request(vec![operation(path, OperationKind::Add, &patch, None)]));
        assert!(result.valid);
    }
}

#[test]
fn rejects_absolute_path() {
    let result = validate_change_request(&request(vec![operation(
        "/etc/passwd",
        OperationKind::Delete,
        "--- a//etc/passwd\n",
        None,
    )]));
    assert_eq!(
        result.errors,
        vec!["changes[0].path must be relative, got /etc/passwd".to_string()]
    );
}

#[test]
fn headers_must_align_with_operation() {
    let add = validate_change_request(&request(vec![operation(
        "x.txt",
        OperationKind::Add,
        "--- a/x.txt\n",
        None,
    )]));
    assert_eq!(
        add.errors,
        vec!["changes[0]: add operation patch must mention +++ b/x.txt".to_string()]
    );
    let update = validate_change_request(&request(vec![operation(
        "dir\\x.txt",
        OperationKind::Update,
        "nothing",
        None,
    )]));
    assert_eq!(
        update.errors,
        vec![
            "changes[0]: update patch must mention +++ b/dir/x.txt".to_string(),
            "changes[0]: update patch must mention --- a/dir/x.txt".to_string(),
        ]
    );
    let delete = validate_change_request(&request(vec![
        operation("x.txt", OperationKind::Add, "+++ b/x.txt", None),
        operation("y.txt", OperationKind::Delete, "+++ b/y.txt", None),
    ]));
    assert_eq!(
        delete.errors,
        vec!["changes[1]: delete patch must mention --- a/y.txt".to_string()]
    );
}

#[test]
fn hash_mismatch_is_reported_with_both_hashes() {
    let patch = "+++ b/x.txt\n@@\n+hi";
    let good = validate_change_request(&request(vec![operation(
        "x.txt",
        OperationKind::Add,
        patch,
        Some(patch_hash(patch)),
    )]));
    assert!(good.valid);
    let bad = validate_change_request(&request(vec![operation(
        "x.txt",
        OperationKind::Add,
        patch,
        Some("00ff".to_string()),
    )]));
    assert_eq!(
        bad.errors,
        vec![format!(
            "changes[0]: patch_hash mismatch (expected {}, got 00ff)",
            patch_hash(patch)
        )]
    );
}

#[test]
fn hash_is_checked_against_the_digest_handed_in() {
    let change = operation("x.txt", OperationKind::Add, "+++ b/x.txt", Some("abc".to_string()));
    let mut errors = Vec::new();
    check_patch_hash(3, &change, "abc", &mut errors);
    assert!(errors.is_empty());
    check_patch_hash(3, &change, "abd", &mut errors);
    assert_eq!(errors, vec!["changes[3]: patch_hash mismatch (expected abd, got abc)".to_string()]);
    let blank = operation("x.txt", OperationKind::Add, "  ", Some("abc".to_string()));
    check_patch_hash(0, &blank, "zzz", &mut errors);
    assert_eq!(errors.len(), 1);
}

#[test]
fn index_is_written_in_decimal() {
    let mut changes = Vec::new();
    for _ in 0..12 {
        changes.push(operation("x.txt", OperationKind::Add, "+++ b/x.txt", None));
    }
    changes[11].patch = " ".to_string();
    let result = validate_change_request(&request(changes));
    assert_eq!(
        result.errors,
        vec![
            "changes[11].patch is required".to_string(),
            "changes[11]: add operation patch must mention +++ b/x.txt".to_string(),
        ]
    );
}

#[test]
fn validator_gives_the_same_answer_twice() {
    let r = request(vec![operation("/a/../b", OperationKind::Update, "x", Some("y".to_string()))]);
    let first = validate_change_request(&r);
    let second = validate_change_request(&r.clone());
    assert_eq!(first.valid, second.valid);
    assert_eq!(first.errors, second.errors);
    assert_eq!(first.errors.len(), 5);
}
