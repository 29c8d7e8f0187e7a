use vstd::prelude::*;
use crate::digest::{patch_digest, patch_hash};
use crate::journal::{fields_view, DetailField, DetailFieldView, DetailValue, DetailValueView};
use crate::models::{
    changes_view, AssignmentMetadata, AssignmentMetadataView, ChangeOperation,
    ChangeOperationView, ChangeRequest, ChangeRequestView, OperationKind, TaskAssignment,
    TaskAssignmentView,
};
use crate::queue::SqliteQueue;
use crate::store::{QueueError, QueueView};
use crate::text::{
    blank, chars_of, clone_strings, contains_seq, decimal, find_chars, is_blank,
    is_first_occurrence, join, joined, push_decimal, push_text, string_of, strings_view,
};
use crate::validator::{request_errors, validate_change_request};

verus! {

/// The model that is asked where none is named.
pub open spec fn default_model() -> Seq<char> {
    "gpt-5-mini"@
}

/// The model that takes the easy assignments.
pub open spec fn fallback_model() -> Seq<char> {
    "gpt-4.1"@
}

/// The model for an assignment: the fallback model where the assignment is of
/// complexity three or less, else the model that was asked for.
pub open spec fn model_for(requested: Seq<char>, metadata: AssignmentMetadataView) -> Seq<char> {
    if metadata.complexity <= 3 {
        fallback_model()
    } else {
        requested
    }
}

/// The model for an assignment.
pub fn select_model(requested: &str, metadata: &AssignmentMetadata) -> (model: String)
    ensures
        model@ == model_for(requested@, metadata@),
{
    if metadata.complexity <= 3 {
        "gpt-4.1".to_owned()
    } else {
        requested.to_owned()
    }
}

/// A complexity held to the range from 1 to 10.
pub open spec fn clamped_complexity(c: u8) -> u8 {
    if c < 1 {
        1
    } else if c > 10 {
        10
    } else {
        c
    }
}

/// The metadata of an assignment with what the agent gave in its place: the agent's
/// intent where it is not blank, its complexity where it is not zero, held to the range
/// from 1 to 10, its sample diff where it gave one, its anchors and approvals where it
/// gave any; and the model that was used.
pub open spec fn merged_metadata(
    agent: AssignmentMetadataView,
    assignment: AssignmentMetadataView,
    model: Seq<char>,
) -> AssignmentMetadataView {
    AssignmentMetadataView {
        intent: if blank(agent.intent) {
            assignment.intent
        } else {
            agent.intent
        },
        complexity: if agent.complexity != 0 {
            clamped_complexity(agent.complexity)
        } else {
            assignment.complexity
        },
        sample_diff: if agent.sample_diff.is_some() {
            agent.sample_diff
        } else {
            assignment.sample_diff
        },
        telemetry_anchors: if agent.telemetry_anchors.len() > 0 {
            agent.telemetry_anchors
        } else {
            assignment.telemetry_anchors
        },
        approvals: if agent.approvals.len() > 0 {
            agent.approvals
        } else {
            assignment.approvals
        },
        agent_model: Some(model),
    }
}

/// The metadata of an assignment with what the agent gave in its place.
pub fn merge_assignment_metadata(
    agent_meta: AssignmentMetadata,
    assignment_meta: &AssignmentMetadata,
    model_name: &str,
) -> (out: AssignmentMetadata)
    ensures
        out@ == merged_metadata(agent_meta@, assignment_meta@, model_name@),
{
    let mut metadata = assignment_meta.clone();
    if !is_blank(agent_meta.intent.as_str()) {
        metadata.intent = agent_meta.intent;
    }
    if agent_meta.complexity != 0 {
        metadata.complexity = if agent_meta.complexity > 10 {
            10
        } else {
            agent_meta.complexity
        };
    }
    if agent_meta.sample_diff.is_some() {
        metadata.sample_diff = agent_meta.sample_diff;
    }
    if agent_meta.telemetry_anchors.len() > 0 {
        metadata.telemetry_anchors = agent_meta.telemetry_anchors;
    }
    if agent_meta.approvals.len() > 0 {
        metadata.approvals = agent_meta.approvals;
    }
    metadata.agent_model = Some(model_name.to_owned());
    metadata
}

/// What the agent is told: who it is, the assignment, and the form in which to answer.
pub open spec fn prompt_for(assignment: TaskAssignmentView, agent: Seq<char>, model: Seq<char>) -> Seq<
    char,
> {
    "You are "@ + agent + " running "@ + model
        + ". Provide only JSON output, no prose.\n\nTask ID: "@ + assignment.task_id
        + "\nSummary: "@ + assignment.summary + "\nIntent: "@ + assignment.metadata.intent
        + "\nComplexity: "@ + decimal(assignment.metadata.complexity as nat)
        + "/10\nSample Diff: "@ + (match assignment.metadata.sample_diff {
        Some(diff) => diff,
        None => "sample diff placeholder"@,
    }) + "\nTelemetry Anchors: "@ + (if assignment.metadata.telemetry_anchors.len() == 0 {
        "none"@
    } else {
        joined(assignment.metadata.telemetry_anchors, ", "@)
    }) + "\nFiles: "@ + joined(assignment.file_targets, ", "@) + "\nInstructions:\n- "@ + joined(
        assignment.instructions,
        "\n- "@,
    ) + prompt_ending()
}

/// The end of every prompt: the form in which to answer.
pub open spec fn prompt_ending() -> Seq<char> {
    "\n\nReturn a single JSON object with keys: task_id, agent, metadata, changes, checks.\nmetadata must contain: intent, complexity, sample_diff, telemetry_anchors, approvals, and agent_model.\nEach change entry must include path, operation (add/update/delete), patch, and patch_hash.\nInclude at least one check in the checks array and describe the guard expectations for those checks.\n"@
}

/// What the agent is told for an assignment.
pub fn build_prompt(assignment: &TaskAssignment, agent_name: &str, model_name: &str) -> (out: String)
    ensures
        out@ == prompt_for(assignment@, agent_name@, model_name@),
{
    let mut out = String::new();
    push_text(&mut out, "You are ");
    push_text(&mut out, agent_name);
    push_text(&mut out, " running ");
    push_text(&mut out, model_name);
    push_text(&mut out, ". Provide only JSON output, no prose.\n\nTask ID: ");
    push_text(&mut out, assignment.task_id.as_str());
    push_text(&mut out, "\nSummary: ");
    push_text(&mut out, assignment.summary.as_str());
    push_text(&mut out, "\nIntent: ");
    push_text(&mut out, assignment.metadata.intent.as_str());
    push_text(&mut out, "\nComplexity: ");
    push_decimal(&mut out, assignment.metadata.complexity as u64);
    push_text(&mut out, "/10\nSample Diff: ");
    match &assignment.metadata.sample_diff {
        Some(diff) => push_text(&mut out, diff.as_str()),
        None => push_text(&mut out, "sample diff placeholder"),
    }
    push_text(&mut out, "\nTelemetry Anchors: ");
    if assignment.metadata.telemetry_anchors.len() == 0 {
        push_text(&mut out, "none");
    } else {
        let anchors = join(&assignment.metadata.telemetry_anchors, ", ");
        push_text(&mut out, anchors.as_str());
    }
    push_text(&mut out, "\nFiles: ");
    let files = join(&assignment.file_targets, ", ");
    push_text(&mut out, files.as_str());
    push_text(&mut out, "\nInstructions:\n- ");
    let instructions = join(&assignment.instructions, "\n- ");
    push_text(&mut out, instructions.as_str());
    push_text(
        &mut out,
        "\n\nReturn a single JSON object with keys: task_id, agent, metadata, changes, checks.\nmetadata must contain: intent, complexity, sample_diff, telemetry_anchors, approvals, and agent_model.\nEach change entry must include path, operation (add/update/delete), patch, and patch_hash.\nInclude at least one check in the checks array and describe the guard expectations for those checks.\n",
    );
    proof {
        assert(out@ =~= prompt_for(assignment@, agent_name@, model_name@));
    }
    out
}

/// The unified diff that the crate diffy makes of two texts, as it prints it.
pub uninterp spec fn diff_text(original: Seq<char>, modified: Seq<char>) -> Seq<char>;

/// Calls `create_patch` of the crate diffy on the two texts and prints the patch that
/// it returns with the patch's own `Display`. That the text depends on the two texts
/// alone is taken on trust; nothing else is claimed of it.
#[verifier::external_body]
fn unified_diff(original: &str, modified: &str) -> (out: String)
    ensures
        out@ == diff_text(original@, modified@),
{
    diffy::create_patch(original, modified).to_string()
}

/// The text from the first `needle` on; the whole text where there is none.
pub open spec fn from_first(text: Seq<char>, needle: Seq<char>) -> Seq<char> {
    if contains_seq(text, needle) {
        text.subrange(choose|at: int| is_first_occurrence(text, needle, at), text.len() as int)
    } else {
        text
    }
}

/// The text from the first `needle` on; the whole text where there is none.
pub fn skip_to(text: &str, needle: &str) -> (out: String)
    ensures
        out@ == from_first(text@, needle@),
{
    let hay = chars_of(text);
    let pin = chars_of(needle);
    match find_chars(&hay, &pin) {
        None => text.to_owned(),
        Some(at) => {
            proof {
                let chosen = choose|c: int| is_first_occurrence(text@, needle@, c);
                assert(is_first_occurrence(text@, needle@, at as int));
                assert(contains_seq(text@, needle@));
                if chosen < at {
                    assert(!crate::text::occurs_at(text@, needle@, chosen));
                }
                if chosen > at {
                    assert(!crate::text::occurs_at(text@, needle@, at as int));
                }
            }
            let mut kept: Vec<char> = Vec::new();
            let mut i: usize = at;
            while i < hay.len()
                invariant
                    at <= i <= hay.len(),
                    kept@ == hay@.subrange(at as int, i as int),
                decreases hay.len() - i,
            {
                kept.push(hay[i]);
                proof {
                    assert(kept@ =~= hay@.subrange(at as int, i + 1));
                }
                i = i + 1;
            }
            string_of(&kept)
        },
    }
}

/// The content of a file after the stand-in change: what it held, ended by a line
/// break where it held something that did not end in one, and one more line that names
/// the task and the agent.
pub open spec fn stand_in_content(base: Seq<char>, task_id: Seq<char>, agent: Seq<char>) -> Seq<char> {
    base + (if base.len() > 0 && base.last() != '\n' {
        seq!['\n']
    } else {
        Seq::empty()
    }) + "// Orchestrated update for "@ + task_id + " by "@ + agent + "\n"@
}

/// A patch made of a diff: git's header for the path, and the diff from its first hunk
/// on.
pub open spec fn patch_around(path: Seq<char>, diff: Seq<char>) -> Seq<char> {
    "diff --git a/"@ + path + " b/"@ + path + "\nindex 0000000..0000000 100644\n--- a/"@ + path
        + "\n+++ b/"@ + path + "\n"@ + from_first(diff, "@@"@)
}

/// The patch of the stand-in change: git's header for the path, and the diff between
/// what the file holds and what it is to hold, from its first hunk on.
pub open spec fn stand_in_patch(path: Seq<char>, base: Seq<char>, task_id: Seq<char>, agent: Seq<char>) -> Seq<
    char,
> {
    patch_around(path, diff_text(base, stand_in_content(base, task_id, agent)))
}

/// The change that stands in where no agent made one: an update that adds one line to
/// the file, with its hash.
pub open spec fn stand_in_change(
    path: Seq<char>,
    base: Seq<char>,
    task_id: Seq<char>,
    agent: Seq<char>,
) -> ChangeOperationView {
    ChangeOperationView {
        path,
        operation: OperationKind::Update,
        patch: stand_in_patch(path, base, task_id, agent),
        patch_hash: Some(patch_digest(stand_in_patch(path, base, task_id, agent))),
    }
}

/// Makes a patch of a diff: puts git's header for the path before the diff's first
/// hunk.
pub fn wrap_diff(path: &str, diff: &str) -> (patch: String)
    ensures
        patch@ == patch_around(path@, diff@),
{
    let body = skip_to(diff, "@@");
    let mut patch = String::new();
    push_text(&mut patch, "diff --git a/");
    push_text(&mut patch, path);
    push_text(&mut patch, " b/");
    push_text(&mut patch, path);
    push_text(&mut patch, "\nindex 0000000..0000000 100644\n--- a/");
    push_text(&mut patch, path);
    push_text(&mut patch, "\n+++ b/");
    push_text(&mut patch, path);
    push_text(&mut patch, "\n");
    push_text(&mut patch, body.as_str());
    proof {
        assert(patch@ =~= patch_around(path@, diff@));
    }
    patch
}

/// The hash that names a patch.
pub fn compute_patch_hash(patch: &str) -> (out: String)
    ensures
        out@ == patch_digest(patch@),
{
    patch_hash(patch)
}

/// The change that stands in where no agent made one. `base_content` is what the file
/// at `path` holds, or nothing where it cannot be read.
pub fn build_change_operation(
    path: &str,
    base_content: &str,
    assignment: &TaskAssignment,
    agent_name: &str,
) -> (out: ChangeOperation)
    ensures
        out@ == stand_in_change(path@, base_content@, assignment@.task_id, agent_name@),
{
    let base = chars_of(base_content);
    let mut updated = base_content.to_owned();
    if base.len() > 0 && base[base.len() - 1] != '\n' {
        push_text(&mut updated, "\n");
        proof {
            crate::text::lemma_newline();
        }
    }
    push_text(&mut updated, "// Orchestrated update for ");
    push_text(&mut updated, assignment.task_id.as_str());
    push_text(&mut updated, " by ");
    push_text(&mut updated, agent_name);
    push_text(&mut updated, "\n");
    proof {
        assert(updated@ =~= stand_in_content(base_content@, assignment@.task_id, agent_name@));
    }
    let diff = unified_diff(base_content, updated.as_str());
    let patch = wrap_diff(path, diff.as_str());
    let hash = compute_patch_hash(patch.as_str());
    ChangeOperation {
        path: path.to_owned(),
        operation: OperationKind::Update,
        patch,
        patch_hash: Some(hash),
    }
}

/// The request that stands in where no agent made one: the stand-in change to the
/// first file of the assignment, and one check.
pub open spec fn stand_in_request(
    assignment: TaskAssignmentView,
    base: Seq<char>,
    agent: Seq<char>,
    model: Seq<char>,
) -> ChangeRequestView
    recommends
        assignment.file_targets.len() > 0,
{
    ChangeRequestView {
        task_id: assignment.task_id,
        agent,
        metadata: AssignmentMetadataView { agent_model: Some(model), ..assignment.metadata },
        changes: seq![stand_in_change(assignment.file_targets[0], base, assignment.task_id, agent)],
        checks: seq!["cargo fmt --check"@],
    }
}

/// The request that stands in where no agent made one. `base_content` is what the
/// first file of the assignment holds, or nothing where it cannot be read.
pub fn fallback_request(
    assignment: &TaskAssignment,
    base_content: &str,
    agent_name: &str,
    model_name: &str,
) -> (out: ChangeRequest)
    requires
        assignment@.file_targets.len() > 0,
    ensures
        out@ == stand_in_request(assignment@, base_content@, agent_name@, model_name@),
{
    proof {
        assert(assignment@.file_targets[0] == assignment.file_targets@[0]@);
    }
    let change = build_change_operation(
        assignment.file_targets[0].as_str(),
        base_content,
        assignment,
        agent_name,
    );
    let mut metadata = assignment.metadata.clone();
    metadata.agent_model = Some(model_name.to_owned());
    let mut changes: Vec<ChangeOperation> = Vec::new();
    changes.push(change);
    let mut checks: Vec<String> = Vec::new();
    checks.push("cargo fmt --check".to_owned());
    let out = ChangeRequest {
        task_id: assignment.task_id.clone(),
        agent: agent_name.to_owned(),
        metadata,
        changes,
        checks,
    };
    proof {
        let want = stand_in_request(assignment@, base_content@, agent_name@, model_name@);
        assert(out@.changes =~= want.changes);
        assert(out@.checks =~= want.checks);
    }
    out
}

/// A change with its hash: the one it has, or the digest of its patch where it has
/// none.
pub open spec fn hashed(change: ChangeOperationView) -> ChangeOperationView {
    ChangeOperationView {
        patch_hash: match change.patch_hash {
            Some(h) => Some(h),
            None => Some(patch_digest(change.patch)),
        },
        ..change
    }
}

/// What becomes of an agent's answer: it is the request of the assignment that the
/// agent was given, by the agent that was asked; its metadata are merged with the
/// assignment's; and every change has a hash.
pub open spec fn adopted(
    response: ChangeRequestView,
    assignment: TaskAssignmentView,
    agent: Seq<char>,
    model: Seq<char>,
) -> ChangeRequestView {
    ChangeRequestView {
        task_id: assignment.task_id,
        agent,
        metadata: merged_metadata(response.metadata, assignment.metadata, model),
        changes: response.changes.map_values(|c: ChangeOperationView| hashed(c)),
        checks: response.checks,
    }
}

/// The request that an assignment comes to: the agent's answer, adopted, where there
/// is one that could be read; else the stand-in request. The model is the one that
/// the assignment's complexity selects.
pub open spec fn assignment_outcome(
    assignment: TaskAssignmentView,
    response: Option<ChangeRequestView>,
    base: Seq<char>,
    agent: Seq<char>,
    model: Seq<char>,
) -> ChangeRequestView
    recommends
        assignment.file_targets.len() > 0,
{
    let effective = model_for(model, assignment.metadata);
    match response {
        Some(r) => adopted(r, assignment, agent, effective),
        None => stand_in_request(assignment, base, agent, effective),
    }
}

/// The view of an answer that may be absent.
pub open spec fn response_view(response: Option<ChangeRequest>) -> Option<ChangeRequestView> {
    match response {
        Some(r) => Some(r@),
        None => None,
    }
}

/// Makes the request that an assignment comes to. `response` is the agent's answer
/// where there was one and it could be read; `base_content` is what the first file of
/// the assignment holds, or nothing where it cannot be read.
pub fn run_assignment(
    assignment: &TaskAssignment,
    response: Option<ChangeRequest>,
    base_content: &str,
    agent_name: &str,
    model_name: &str,
) -> (out: ChangeRequest)
    requires
        assignment@.file_targets.len() > 0,
    ensures
        out@ == assignment_outcome(
            assignment@,
            response_view(response),
            base_content@,
            agent_name@,
            model_name@,
        ),
{
    let effective = select_model(model_name, &assignment.metadata);
    match response {
        None => fallback_request(assignment, base_content, agent_name, effective.as_str()),
        Some(request) => {
            let ghost given = request@;
            let metadata = merge_assignment_metadata(
                request.metadata,
                &assignment.metadata,
                effective.as_str(),
            );
            let mut changes: Vec<ChangeOperation> = Vec::new();
            let mut i: usize = 0;
            while i < request.changes.len()
                invariant
                    i <= request.changes.len(),
                    changes@.len() == i,
                    changes_view(request.changes@) == given.changes,
                    forall|k: int| 0 <= k < i ==> (#[trigger] changes@[k])@ == hashed(given.changes[k]),
                decreases request.changes.len() - i,
            {
                let change = &request.changes[i];
                proof {
                    assert(given.changes[i as int] == change@);
                }
                let hash = match &change.patch_hash {
                    Some(h) => h.clone(),
                    None => compute_patch_hash(change.patch.as_str()),
                };
                changes.push(
                    ChangeOperation {
                        path: change.path.clone(),
                        operation: change.operation,
                        patch: change.patch.clone(),
                        patch_hash: Some(hash),
                    },
                );
                i = i + 1;
            }
            let out = ChangeRequest {
                task_id: assignment.task_id.clone(),
                agent: agent_name.to_owned(),
                metadata,
                changes,
                checks: request.checks,
            };
            proof {
                let want = adopted(given, assignment@, agent_name@, effective@);
                assert(out@.changes =~= want.changes);
            }
            out
        },
    }
}

/// What the journal keeps of a request that an agent made.
pub open spec fn agent_request_details(request: ChangeRequestView) -> Seq<DetailFieldView> {
    seq![
        DetailFieldView { key: "agent"@, value: DetailValueView::Text(request.agent) },
        DetailFieldView {
            key: "model"@,
            value: DetailValueView::Text(
                match request.metadata.agent_model {
                    Some(m) => m,
                    None => default_model(),
                },
            ),
        },
        DetailFieldView {
            key: "complexity"@,
            value: DetailValueView::Count(request.metadata.complexity as u64),
        },
        DetailFieldView { key: "intent"@, value: DetailValueView::Text(request.metadata.intent) },
        DetailFieldView { key: "checks"@, value: DetailValueView::List(request.checks) },
        DetailFieldView {
            key: "telemetry_anchors"@,
            value: DetailValueView::List(request.metadata.telemetry_anchors),
        },
    ]
}

/// What became of a request that an agent made.
#[derive(Debug)]
pub enum Intake {
    /// The request is in the queue under this id.
    Enqueued { id: i64 },
    /// The request is not valid, for these reasons, and was not taken in.
    Rejected { errors: Vec<String> },
}

pub enum IntakeView {
    Enqueued { id: i64 },
    Rejected { errors: Seq<Seq<char>> },
}

impl View for Intake {
    type V = IntakeView;

    open spec fn view(&self) -> IntakeView {
        match self {
            Intake::Enqueued { id } => IntakeView::Enqueued { id: *id },
            Intake::Rejected { errors } => IntakeView::Rejected { errors: strings_view(errors@) },
        }
    }
}

/// What an intake returned, by its view.
pub open spec fn intake_result_view(result: Result<Intake, QueueError>) -> Result<
    IntakeView,
    QueueError,
> {
    match result {
        Ok(i) => Ok(i@),
        Err(e) => Err(e),
    }
}

/// What `take_in` returns: the faults of a request that is not valid; else the id
/// under which it is in the queue, or the store's refusal.
pub open spec fn taken_in(q: QueueView, request: ChangeRequestView) -> Result<IntakeView, QueueError> {
    if request_errors(request).len() > 0 {
        Ok(IntakeView::Rejected { errors: request_errors(request) })
    } else {
        match q.enqueued() {
            Ok(id) => Ok(IntakeView::Enqueued { id }),
            Err(e) => Err(e),
        }
    }
}

/// The store after `take_in`: a valid request is in the queue, and the journal says
/// by which agent and model it was made.
pub open spec fn after_take_in(q: QueueView, request: ChangeRequestView, now: i64) -> QueueView {
    if request_errors(request).len() > 0 || q.enqueued().is_err() {
        q
    } else {
        q.after_enqueue(request, now).after_log_event(
            q.enqueued().unwrap(),
            request.task_id,
            "info"@,
            "agent_request"@,
            Some(agent_request_details(request)),
            now,
        )
    }
}

/// Takes a request that an agent made into the queue, if it is valid.
pub fn take_in(queue: &mut SqliteQueue, request: &ChangeRequest, now: i64) -> (result: Result<
    Intake,
    QueueError,
>)
    ensures
        intake_result_view(result) == taken_in(old(queue)@, request@),
        final(queue)@ == after_take_in(old(queue)@, request@, now),
        final(queue).file() == old(queue).file(),
{
    let validation = validate_change_request(request);
    if !validation.valid {
        return Ok(Intake::Rejected { errors: validation.errors });
    }
    let id = match queue.enqueue(request, now) {
        Ok(id) => id,
        Err(e) => {
            return Err(e);
        },
    };
    let mut details: Vec<DetailField> = Vec::new();
    details.push(
        DetailField { key: "agent".to_owned(), value: DetailValue::Text(request.agent.clone()) },
    );
    let model = match &request.metadata.agent_model {
        Some(m) => m.clone(),
        None => "gpt-5-mini".to_owned(),
    };
    details.push(DetailField { key: "model".to_owned(), value: DetailValue::Text(model) });
    details.push(
        DetailField {
            key: "complexity".to_owned(),
            value: DetailValue::Count(request.metadata.complexity as u64),
        },
    );
    details.push(
        DetailField {
            key: "intent".to_owned(),
            value: DetailValue::Text(request.metadata.intent.clone()),
        },
    );
    details.push(
        DetailField {
            key: "checks".to_owned(),
            value: DetailValue::List(clone_strings(&request.checks)),
        },
    );
    details.push(
        DetailField {
            key: "telemetry_anchors".to_owned(),
            value: DetailValue::List(clone_strings(&request.metadata.telemetry_anchors)),
        },
    );
    proof {
        assert(fields_view(details@) =~= agent_request_details(request@));
    }
    let _ = queue.log_event(
        id,
        request.task_id.as_str(),
        "info",
        "agent_request",
        Some(details),
        now,
    );
    Ok(Intake::Enqueued { id })
}

/// How the handling of a task request ends: with the number of requests that were
/// taken in where nothing failed, else with the number of failures in words.
pub open spec fn handled(enqueued: usize, failures: usize) -> Result<usize, Seq<char>> {
    if failures > 0 {
        Err(decimal(failures as nat) + " assignment(s) failed"@)
    } else {
        Ok(enqueued)
    }
}

/// What the handling of a request returned, the error by its view.
pub open spec fn count_result_view(result: Result<usize, String>) -> Result<usize, Seq<char>> {
    match result {
        Ok(n) => Ok(n),
        Err(e) => Err(e@),
    }
}

/// Sums up the handling of a task request.
pub fn conclude_request(enqueued: usize, failures: usize) -> (result: Result<usize, String>)
    ensures
        count_result_view(result) == handled(enqueued, failures),
{
    if failures > 0 {
        let mut message = String::new();
        push_decimal(&mut message, failures as u64);
        push_text(&mut message, " assignment(s) failed");
        proof {
            assert(message@ =~= decimal(failures as nat) + " assignment(s) failed"@);
        }
        Err(message)
    } else {
        Ok(enqueued)
    }
}

/// What is to be done for a task request: its assignments, and the number of agents
/// that work on them at once.
#[derive(Debug)]
pub struct RequestPlan {
    pub assignments: Vec<TaskAssignment>,
    pub agent_count: usize,
}

/// Plans the handling of a task request: breaks it into its assignments and settles
/// the number of agents. Fails exactly where the request wants no change.
pub fn plan_request(request: &crate::models::TaskRequest, max_agents: usize) -> (result: Result<
    RequestPlan,
    String,
>)
    ensures
        match result {
            Ok(plan) => request@.requested_changes.len() > 0
                && crate::orchestrator::assignments_view(plan.assignments@)
                == crate::orchestrator::assignments_of(request@) && plan.agent_count
                == crate::coordinator::held_parallelism(max_agents),
            Err(message) => request@.requested_changes.len() == 0 && message@
                == "task request produced no assignments"@,
        },
{
    let assignments = crate::orchestrator::decompose_request(request);
    if assignments.len() == 0 {
        proof {
            assert(crate::orchestrator::assignments_view(assignments@).len() == 0);
        }
        return Err("task request produced no assignments".to_owned());
    }
    proof {
        assert(crate::orchestrator::assignments_view(assignments@).len() == assignments@.len());
    }
    Ok(RequestPlan { assignments, agent_count: crate::coordinator::clamp_parallelism(max_agents) })
}

} // verus!
