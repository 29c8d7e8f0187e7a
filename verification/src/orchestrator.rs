use vstd::prelude::*;
use vstd::utf8::encode_utf8;
use crate::models::{
    AssignmentMetadata, AssignmentMetadataView, RequestedChange, RequestedChangeView,
    TaskAssignment, TaskAssignmentView, TaskRequest, TaskRequestView,
};
use crate::text::{clone_opt_string, decimal, push_decimal, push_text, replace, replace_char};

verus! {

/// The length of a text in bytes, as a string reports it.
pub open spec fn byte_len(text: Seq<char>) -> usize {
    encode_utf8(text).len() as usize
}

/// How hard a change is taken to be, from 1 to 10: one more than the last digit of the
/// lengths of its summary and its path, each counted in bytes and taken modulo 256, and
/// their sum again modulo 256.
pub open spec fn complexity_of(change: RequestedChangeView) -> u8 {
    (1 + (((byte_len(change.summary) % 256) + (byte_len(change.path) % 256)) % 256) % 10) as u8
}

/// The diff that stands for a change before an agent has made one.
pub open spec fn sample_diff_of(change: RequestedChangeView) -> Seq<char> {
    "diff --git a/"@ + change.path + " b/"@ + change.path + "\n@@ -0,0 +1 @@\n+// Update: "@
        + change.summary
}

/// The two instructions that every assignment begins with.
pub open spec fn standing_instructions() -> Seq<Seq<char>> {
    seq![
        "Keep changes isolated to the listed files."@,
        "Provide a structured JSON change request on completion."@,
    ]
}

/// The assignment that is made for the change at `index` of a request.
pub open spec fn assignment_for(
    request: TaskRequestView,
    change: RequestedChangeView,
    index: nat,
) -> TaskAssignmentView {
    TaskAssignmentView {
        task_id: request.request_id + "-"@ + decimal(index + 1),
        parent_request_id: request.request_id,
        summary: change.summary,
        file_targets: seq![change.path],
        instructions: standing_instructions(),
        metadata: AssignmentMetadataView {
            intent: request.summary + " :: "@ + change.summary,
            complexity: complexity_of(change),
            sample_diff: Some(sample_diff_of(change)),
            telemetry_anchors: seq![
                "cast:"@ + request.request_id,
                "task:"@ + replace_char(change.summary, ' ', '_'),
            ],
            approvals: Seq::empty(),
            agent_model: None,
        },
        phase_id: change.phase_id,
        blocking_on_failure: match change.blocking_on_failure {
            Some(b) => b,
            None => true,
        },
    }
}

/// The assignments of a request: one for each change that it wants, in their order.
pub open spec fn assignments_of(request: TaskRequestView) -> Seq<TaskAssignmentView> {
    Seq::new(
        request.requested_changes.len(),
        |i: int| assignment_for(request, request.requested_changes[i], i as nat),
    )
}

/// How hard a change is taken to be, from 1 to 10.
pub fn compute_complexity(change: &RequestedChange) -> (complexity: u8)
    ensures
        complexity == complexity_of(change@),
        1 <= complexity <= 10,
{
    let length: usize = change.summary.as_str().len() % 256;
    let path_factor: usize = change.path.as_str().len() % 256;
    let sum: usize = (length + path_factor) % 256;
    (1 + sum % 10) as u8
}

/// The diff that stands for a change before an agent has made one.
pub fn sample_diff(change: &RequestedChange) -> (out: String)
    ensures
        out@ == sample_diff_of(change@),
{
    let mut out = String::new();
    push_text(&mut out, "diff --git a/");
    push_text(&mut out, change.path.as_str());
    push_text(&mut out, " b/");
    push_text(&mut out, change.path.as_str());
    push_text(&mut out, "\n@@ -0,0 +1 @@\n+// Update: ");
    push_text(&mut out, change.summary.as_str());
    proof {
        assert(out@ =~= sample_diff_of(change@));
    }
    out
}

/// The assignment that is made for the change at `index` of a request.
pub fn build_assignment(request: &TaskRequest, change: &RequestedChange, index: usize) -> (out:
    TaskAssignment)
    requires
        index < u64::MAX,
    ensures
        out@ == assignment_for(request@, change@, index as nat),
{
    let mut intent = String::new();
    push_text(&mut intent, request.summary.as_str());
    push_text(&mut intent, " :: ");
    push_text(&mut intent, change.summary.as_str());
    let mut cast_anchor = String::new();
    push_text(&mut cast_anchor, "cast:");
    push_text(&mut cast_anchor, request.request_id.as_str());
    let mut task_anchor = String::new();
    push_text(&mut task_anchor, "task:");
    let underscored = replace(change.summary.as_str(), ' ', '_');
    push_text(&mut task_anchor, underscored.as_str());
    let mut anchors: Vec<String> = Vec::new();
    anchors.push(cast_anchor);
    anchors.push(task_anchor);
    let metadata = AssignmentMetadata {
        intent,
        complexity: compute_complexity(change),
        sample_diff: Some(sample_diff(change)),
        telemetry_anchors: anchors,
        approvals: Vec::new(),
        agent_model: None,
    };
    let mut task_id = String::new();
    push_text(&mut task_id, request.request_id.as_str());
    push_text(&mut task_id, "-");
    push_decimal(&mut task_id, (index as u64) + 1);
    let mut file_targets: Vec<String> = Vec::new();
    file_targets.push(change.path.clone());
    let mut instructions: Vec<String> = Vec::new();
    instructions.push("Keep changes isolated to the listed files.".to_owned());
    instructions.push("Provide a structured JSON change request on completion.".to_owned());
    let out = TaskAssignment {
        task_id,
        parent_request_id: request.request_id.clone(),
        summary: change.summary.clone(),
        file_targets,
        instructions,
        metadata,
        phase_id: clone_opt_string(&change.phase_id),
        blocking_on_failure: match change.blocking_on_failure {
            Some(b) => b,
            None => true,
        },
    };
    proof {
        let want = assignment_for(request@, change@, index as nat);
        assert(out@.task_id =~= want.task_id);
        assert(out@.file_targets =~= want.file_targets);
        assert(out@.instructions =~= want.instructions);
        assert(out@.metadata.intent =~= want.metadata.intent);
        assert(out@.metadata.telemetry_anchors =~= want.metadata.telemetry_anchors);
        assert(out@.metadata.approvals =~= want.metadata.approvals);
    }
    out
}

/// The views of a sequence of assignments, one for one.
pub open spec fn assignments_view(v: Seq<TaskAssignment>) -> Seq<TaskAssignmentView> {
    v.map_values(|a: TaskAssignment| a@)
}

/// Breaks a request into its assignments: one for each change that it wants, in their
/// order.
pub fn decompose_request(request: &TaskRequest) -> (out: Vec<TaskAssignment>)
    ensures
        assignments_view(out@) == assignments_of(request@),
{
    let mut out: Vec<TaskAssignment> = Vec::new();
    let mut index: usize = 0;
    while index < request.requested_changes.len()
        invariant
            index <= request.requested_changes.len(),
            out@.len() == index,
            forall|k: int|
                0 <= k < index ==> (#[trigger] out@[k])@ == assignment_for(
                    request@,
                    request@.requested_changes[k],
                    k as nat,
                ),
        decreases request.requested_changes.len() - index,
    {
        let change = &request.requested_changes[index];
        proof {
            assert(request@.requested_changes[index as int] == change@);
        }
        out.push(build_assignment(request, change, index));
        index = index + 1;
    }
    proof {
        assert(assignments_view(out@) =~= assignments_of(request@));
    }
    out
}

} // verus!
