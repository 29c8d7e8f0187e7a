use vstd::prelude::*;
pub use crate::journal::{ChangeQueueLog, FileModification};
pub use crate::metrics::QueueMetrics;
use crate::text::{clone_opt_string, clone_strings, opt_string_view, strings_view, text_eq};

verus! {

/// What a change does to its file.
#[derive(Clone, Copy, Debug, PartialEq, Eq, Structural)]
pub enum OperationKind {
    Add,
    Update,
    Delete,
}

/// Where a queue entry stands in its life.
#[derive(Clone, Copy, Debug, PartialEq, Eq, Structural)]
pub enum QueueStatus {
    Pending,
    InProgress,
    Applied,
    Failed,
}

impl QueueStatus {
    /// The name under which the status is stored and shown.
    pub open spec fn name(self) -> Seq<char> {
        match self {
            QueueStatus::Pending => "pending"@,
            QueueStatus::InProgress => "in_progress"@,
            QueueStatus::Applied => "applied"@,
            QueueStatus::Failed => "failed"@,
        }
    }

    /// Applied and Failed are terminal: no entry leaves them.
    pub open spec fn terminal(self) -> bool {
        self == QueueStatus::Applied || self == QueueStatus::Failed
    }

    /// The name under which the status is stored and shown.
    pub fn as_str(&self) -> (s: &'static str)
        ensures
            s@ == self.name(),
    {
        match self {
            QueueStatus::Pending => "pending",
            QueueStatus::InProgress => "in_progress",
            QueueStatus::Applied => "applied",
            QueueStatus::Failed => "failed",
        }
    }

    /// The status that a stored name stands for; nothing for a text that names none.
    pub open spec fn named(value: Seq<char>) -> Option<QueueStatus> {
        if value == QueueStatus::Pending.name() {
            Some(QueueStatus::Pending)
        } else if value == QueueStatus::InProgress.name() {
            Some(QueueStatus::InProgress)
        } else if value == QueueStatus::Applied.name() {
            Some(QueueStatus::Applied)
        } else if value == QueueStatus::Failed.name() {
            Some(QueueStatus::Failed)
        } else {
            None
        }
    }

    /// Reads a status from the name under which it is stored.
    pub fn from_string(value: &str) -> (status: Option<QueueStatus>)
        ensures
            status == QueueStatus::named(value@),
    {
        if text_eq(value, "pending") {
            Some(QueueStatus::Pending)
        } else if text_eq(value, "in_progress") {
            Some(QueueStatus::InProgress)
        } else if text_eq(value, "applied") {
            Some(QueueStatus::Applied)
        } else if text_eq(value, "failed") {
            Some(QueueStatus::Failed)
        } else {
            None
        }
    }

    /// Every status is read back from its name.
    pub proof fn name_is_read_back(self)
        ensures
            QueueStatus::named(self.name()) == Some(self),
    {
        reveal_strlit("pending");
        reveal_strlit("in_progress");
        reveal_strlit("applied");
        reveal_strlit("failed");
        assert("pending"@.len() == 7);
        assert("in_progress"@.len() == 11);
        assert("applied"@[0] == 'a');
        assert("failed"@[0] == 'f');
        assert("applied"@.len() == 7);
        assert("failed"@.len() == 6);
        assert("pending"@[0] == 'p');
    }

    /// Whether the status is Applied or Failed.
    pub fn is_terminal(&self) -> (b: bool)
        ensures
            b == self.terminal(),
    {
        match self {
            QueueStatus::Applied => true,
            QueueStatus::Failed => true,
            _ => false,
        }
    }
}

/// A sign-off on an assignment.
#[derive(Debug)]
pub struct ApprovalRecord {
    pub approver: String,
    pub note: String,
    pub timestamp: Option<i64>,
}

pub struct ApprovalRecordView {
    pub approver: Seq<char>,
    pub note: Seq<char>,
    pub timestamp: Option<i64>,
}

impl View for ApprovalRecord {
    type V = ApprovalRecordView;

    open spec fn view(&self) -> ApprovalRecordView {
        ApprovalRecordView {
            approver: self.approver@,
            note: self.note@,
            timestamp: self.timestamp,
        }
    }
}

impl Clone for ApprovalRecord {
    fn clone(&self) -> (out: Self)
        ensures
            out@ == self@,
    {
        ApprovalRecord {
            approver: self.approver.clone(),
            note: self.note.clone(),
            timestamp: self.timestamp,
        }
    }
}

/// The views of a sequence of approvals, one for one.
pub open spec fn approvals_view(v: Seq<ApprovalRecord>) -> Seq<ApprovalRecordView> {
    v.map_values(|a: ApprovalRecord| a@)
}

/// A copy of a list of approvals.
pub fn clone_approvals(v: &Vec<ApprovalRecord>) -> (out: Vec<ApprovalRecord>)
    ensures
        approvals_view(out@) == approvals_view(v@),
{
    let mut out: Vec<ApprovalRecord> = Vec::new();
    let mut i: usize = 0;
    while i < v.len()
        invariant
            i <= v.len(),
            out@.len() == i,
            forall|k: int| 0 <= k < i ==> out@[k]@ == v@[k]@,
        decreases v.len() - i,
    {
        out.push(v[i].clone());
        i = i + 1;
    }
    proof {
        assert(approvals_view(out@) =~= approvals_view(v@));
    }
    out
}

/// What an assignment carries besides its files: why, how hard, and who looked at it.
#[derive(Debug)]
pub struct AssignmentMetadata {
    pub intent: String,
    pub complexity: u8,
    pub sample_diff: Option<String>,
    pub telemetry_anchors: Vec<String>,
    pub approvals: Vec<ApprovalRecord>,
    pub agent_model: Option<String>,
}

pub struct AssignmentMetadataView {
    pub intent: Seq<char>,
    pub complexity: u8,
    pub sample_diff: Option<Seq<char>>,
    pub telemetry_anchors: Seq<Seq<char>>,
    pub approvals: Seq<ApprovalRecordView>,
    pub agent_model: Option<Seq<char>>,
}

impl AssignmentMetadataView {
    /// The metadata of a request that names none: no intent, complexity 1, nothing else.
    pub open spec fn initial() -> AssignmentMetadataView {
        AssignmentMetadataView {
            intent: Seq::empty(),
            complexity: 1,
            sample_diff: None,
            telemetry_anchors: Seq::empty(),
            approvals: Seq::empty(),
            agent_model: None,
        }
    }
}

impl View for AssignmentMetadata {
    type V = AssignmentMetadataView;

    open spec fn view(&self) -> AssignmentMetadataView {
        AssignmentMetadataView {
            intent: self.intent@,
            complexity: self.complexity,
            sample_diff: opt_string_view(self.sample_diff),
            telemetry_anchors: strings_view(self.telemetry_anchors@),
            approvals: approvals_view(self.approvals@),
            agent_model: opt_string_view(self.agent_model),
        }
    }
}

impl Clone for AssignmentMetadata {
    fn clone(&self) -> (out: Self)
        ensures
            out@ == self@,
    {
        AssignmentMetadata {
            intent: self.intent.clone(),
            complexity: self.complexity,
            sample_diff: clone_opt_string(&self.sample_diff),
            telemetry_anchors: clone_strings(&self.telemetry_anchors),
            approvals: clone_approvals(&self.approvals),
            agent_model: clone_opt_string(&self.agent_model),
        }
    }
}

impl Default for AssignmentMetadata {
    fn default() -> (out: Self)
        ensures
            out@ == AssignmentMetadataView::initial(),
    {
        let out = AssignmentMetadata {
            intent: String::new(),
            complexity: 1,
            sample_diff: None,
            telemetry_anchors: Vec::new(),
            approvals: Vec::new(),
            agent_model: None,
        };
        proof {
            assert(out@.telemetry_anchors =~= Seq::empty());
            assert(out@.approvals =~= Seq::empty());
        }
        out
    }
}

/// One change to one file, as a patch.
#[derive(Debug)]
pub struct ChangeOperation {
    pub path: String,
    pub operation: OperationKind,
    pub patch: String,
    pub patch_hash: Option<String>,
}

pub struct ChangeOperationView {
    pub path: Seq<char>,
    pub operation: OperationKind,
    pub patch: Seq<char>,
    pub patch_hash: Option<Seq<char>>,
}

impl View for ChangeOperation {
    type V = ChangeOperationView;

    open spec fn view(&self) -> ChangeOperationView {
        ChangeOperationView {
            path: self.path@,
            operation: self.operation,
            patch: self.patch@,
            patch_hash: opt_string_view(self.patch_hash),
        }
    }
}

impl Clone for ChangeOperation {
    fn clone(&self) -> (out: Self)
        ensures
            out@ == self@,
    {
        ChangeOperation {
            path: self.path.clone(),
            operation: self.operation,
            patch: self.patch.clone(),
            patch_hash: clone_opt_string(&self.patch_hash),
        }
    }
}

/// The views of a sequence of changes, one for one.
pub open spec fn changes_view(v: Seq<ChangeOperation>) -> Seq<ChangeOperationView> {
    v.map_values(|c: ChangeOperation| c@)
}

/// A copy of a list of changes.
pub fn clone_changes(v: &Vec<ChangeOperation>) -> (out: Vec<ChangeOperation>)
    ensures
        changes_view(out@) == changes_view(v@),
{
    let mut out: Vec<ChangeOperation> = Vec::new();
    let mut i: usize = 0;
    while i < v.len()
        invariant
            i <= v.len(),
            out@.len() == i,
            forall|k: int| 0 <= k < i ==> out@[k]@ == v@[k]@,
        decreases v.len() - i,
    {
        out.push(v[i].clone());
        i = i + 1;
    }
    proof {
        assert(changes_view(out@) =~= changes_view(v@));
    }
    out
}

/// A unit of work for the queue: changes to files and the checks to run after them.
#[derive(Debug)]
pub struct ChangeRequest {
    pub task_id: String,
    pub agent: String,
    pub metadata: AssignmentMetadata,
    pub changes: Vec<ChangeOperation>,
    pub checks: Vec<String>,
}

pub struct ChangeRequestView {
    pub task_id: Seq<char>,
    pub agent: Seq<char>,
    pub metadata: AssignmentMetadataView,
    pub changes: Seq<ChangeOperationView>,
    pub checks: Seq<Seq<char>>,
}

impl View for ChangeRequest {
    type V = ChangeRequestView;

    open spec fn view(&self) -> ChangeRequestView {
        ChangeRequestView {
            task_id: self.task_id@,
            agent: self.agent@,
            metadata: self.metadata@,
            changes: changes_view(self.changes@),
            checks: strings_view(self.checks@),
        }
    }
}

impl Clone for ChangeRequest {
    fn clone(&self) -> (out: Self)
        ensures
            out@ == self@,
    {
        ChangeRequest {
            task_id: self.task_id.clone(),
            agent: self.agent.clone(),
            metadata: self.metadata.clone(),
            changes: clone_changes(&self.changes),
            checks: clone_strings(&self.checks),
        }
    }
}

/// What the validator found: whether the request may go on, and every fault by name.
#[derive(Debug)]
pub struct ValidationResult {
    pub valid: bool,
    pub errors: Vec<String>,
}

/// The policy of a phase that names none.
pub fn default_failure_policy() -> (policy: String)
    ensures
        policy@ == "block"@,
{
    "block".to_owned()
}

/// A stage of a task request, by which its changes are grouped.
#[derive(Debug)]
pub struct PhaseSpec {
    pub id: String,
    pub name: String,
    pub ordinal: u32,
    pub failure_policy: String,
}

pub struct PhaseSpecView {
    pub id: Seq<char>,
    pub name: Seq<char>,
    pub ordinal: u32,
    pub failure_policy: Seq<char>,
}

impl View for PhaseSpec {
    type V = PhaseSpecView;

    open spec fn view(&self) -> PhaseSpecView {
        PhaseSpecView {
            id: self.id@,
            name: self.name@,
            ordinal: self.ordinal,
            failure_policy: self.failure_policy@,
        }
    }
}

impl Clone for PhaseSpec {
    fn clone(&self) -> (out: Self)
        ensures
            out@ == self@,
    {
        PhaseSpec {
            id: self.id.clone(),
            name: self.name.clone(),
            ordinal: self.ordinal,
            failure_policy: self.failure_policy.clone(),
        }
    }
}

/// One file that a task request wants changed, and why.
#[derive(Debug)]
pub struct RequestedChange {
    pub path: String,
    pub summary: String,
    pub phase_id: Option<String>,
    pub blocking_on_failure: Option<bool>,
}

pub struct RequestedChangeView {
    pub path: Seq<char>,
    pub summary: Seq<char>,
    pub phase_id: Option<Seq<char>>,
    pub blocking_on_failure: Option<bool>,
}

impl View for RequestedChange {
    type V = RequestedChangeView;

    open spec fn view(&self) -> RequestedChangeView {
        RequestedChangeView {
            path: self.path@,
            summary: self.summary@,
            phase_id: opt_string_view(self.phase_id),
            blocking_on_failure: self.blocking_on_failure,
        }
    }
}

impl Clone for RequestedChange {
    fn clone(&self) -> (out: Self)
        ensures
            out@ == self@,
    {
        RequestedChange {
            path: self.path.clone(),
            summary: self.summary.clone(),
            phase_id: clone_opt_string(&self.phase_id),
            blocking_on_failure: self.blocking_on_failure,
        }
    }
}

/// The views of a sequence of requested changes, one for one.
pub open spec fn requested_changes_view(v: Seq<RequestedChange>) -> Seq<RequestedChangeView> {
    v.map_values(|c: RequestedChange| c@)
}

/// A high-level request: a summary and the files it wants changed.
#[derive(Debug)]
pub struct TaskRequest {
    pub request_id: String,
    pub summary: String,
    pub requested_changes: Vec<RequestedChange>,
    pub phases: Option<Vec<PhaseSpec>>,
}

/// What an assignment is made from: a task request without its phases.
pub struct TaskRequestView {
    pub request_id: Seq<char>,
    pub summary: Seq<char>,
    pub requested_changes: Seq<RequestedChangeView>,
}

impl View for TaskRequest {
    type V = TaskRequestView;

    open spec fn view(&self) -> TaskRequestView {
        TaskRequestView {
            request_id: self.request_id@,
            summary: self.summary@,
            requested_changes: requested_changes_view(self.requested_changes@),
        }
    }
}

/// The work on one file that is handed to one agent.
#[derive(Debug)]
pub struct TaskAssignment {
    pub task_id: String,
    pub parent_request_id: String,
    pub summary: String,
    pub file_targets: Vec<String>,
    pub instructions: Vec<String>,
    pub metadata: AssignmentMetadata,
    pub phase_id: Option<String>,
    pub blocking_on_failure: bool,
}

pub struct TaskAssignmentView {
    pub task_id: Seq<char>,
    pub parent_request_id: Seq<char>,
    pub summary: Seq<char>,
    pub file_targets: Seq<Seq<char>>,
    pub instructions: Seq<Seq<char>>,
    pub metadata: AssignmentMetadataView,
    pub phase_id: Option<Seq<char>>,
    pub blocking_on_failure: bool,
}

impl View for TaskAssignment {
    type V = TaskAssignmentView;

    open spec fn view(&self) -> TaskAssignmentView {
        TaskAssignmentView {
            task_id: self.task_id@,
            parent_request_id: self.parent_request_id@,
            summary: self.summary@,
            file_targets: strings_view(self.file_targets@),
            instructions: strings_view(self.instructions@),
            metadata: self.metadata@,
            phase_id: opt_string_view(self.phase_id),
            blocking_on_failure: self.blocking_on_failure,
        }
    }
}

impl Clone for TaskAssignment {
    fn clone(&self) -> (out: Self)
        ensures
            out@ == self@,
    {
        TaskAssignment {
            task_id: self.task_id.clone(),
            parent_request_id: self.parent_request_id.clone(),
            summary: self.summary.clone(),
            file_targets: clone_strings(&self.file_targets),
            instructions: clone_strings(&self.instructions),
            metadata: self.metadata.clone(),
            phase_id: clone_opt_string(&self.phase_id),
            blocking_on_failure: self.blocking_on_failure,
        }
    }
}

/// A queue entry as the queue hands it out.
#[derive(Debug)]
pub struct QueueRecord {
    pub id: i64,
    pub status: QueueStatus,
    pub payload: ChangeRequest,
    pub attempts: i64,
    pub last_error: Option<String>,
    pub leased_until: Option<i64>,
    pub lease_owner: Option<String>,
    pub created_at: i64,
    pub updated_at: i64,
}

pub struct QueueRecordView {
    pub id: i64,
    pub status: QueueStatus,
    pub payload: ChangeRequestView,
    pub attempts: i64,
    pub last_error: Option<Seq<char>>,
    pub leased_until: Option<i64>,
    pub lease_owner: Option<Seq<char>>,
    pub created_at: i64,
    pub updated_at: i64,
}

impl View for QueueRecord {
    type V = QueueRecordView;

    open spec fn view(&self) -> QueueRecordView {
        QueueRecordView {
            id: self.id,
            status: self.status,
            payload: self.payload@,
            attempts: self.attempts,
            last_error: opt_string_view(self.last_error),
            leased_until: self.leased_until,
            lease_owner: opt_string_view(self.lease_owner),
            created_at: self.created_at,
            updated_at: self.updated_at,
        }
    }
}

impl Clone for QueueRecord {
    fn clone(&self) -> (out: Self)
        ensures
            out@ == self@,
    {
        QueueRecord {
            id: self.id,
            status: self.status,
            payload: self.payload.clone(),
            attempts: self.attempts,
            last_error: clone_opt_string(&self.last_error),
            leased_until: self.leased_until,
            lease_owner: clone_opt_string(&self.lease_owner),
            created_at: self.created_at,
            updated_at: self.updated_at,
        }
    }
}

/// The archival copy of an entry that failed for good.
#[derive(Debug)]
pub struct DeadLetterRecord {
    pub id: i64,
    pub queue_id: i64,
    pub task_id: String,
    pub agent: String,
    pub payload: ChangeRequest,
    pub error: Option<String>,
    pub failed_at: i64,
}

pub struct DeadLetterRecordView {
    pub id: i64,
    pub queue_id: i64,
    pub task_id: Seq<char>,
    pub agent: Seq<char>,
    pub payload: ChangeRequestView,
    pub error: Option<Seq<char>>,
    pub failed_at: i64,
}

impl View for DeadLetterRecord {
    type V = DeadLetterRecordView;

    open spec fn view(&self) -> DeadLetterRecordView {
        DeadLetterRecordView {
            id: self.id,
            queue_id: self.queue_id,
            task_id: self.task_id@,
            agent: self.agent@,
            payload: self.payload@,
            error: opt_string_view(self.error),
            failed_at: self.failed_at,
        }
    }
}

impl Clone for DeadLetterRecord {
    fn clone(&self) -> (out: Self)
        ensures
            out@ == self@,
    {
        DeadLetterRecord {
            id: self.id,
            queue_id: self.queue_id,
            task_id: self.task_id.clone(),
            agent: self.agent.clone(),
            payload: self.payload.clone(),
            error: clone_opt_string(&self.error),
            failed_at: self.failed_at,
        }
    }
}

/// A session of the outside agent tool that can be taken up again.
#[derive(Debug)]
pub struct AgentSession {
    pub id: i64,
    pub resume_id: String,
    pub model: String,
    pub allow_all_tools: bool,
    pub created_at: i64,
    pub last_used: i64,
}

pub struct AgentSessionView {
    pub id: i64,
    pub resume_id: Seq<char>,
    pub model: Seq<char>,
    pub allow_all_tools: bool,
    pub created_at: i64,
    pub last_used: i64,
}

impl View for AgentSession {
    type V = AgentSessionView;

    open spec fn view(&self) -> AgentSessionView {
        AgentSessionView {
            id: self.id,
            resume_id: self.resume_id@,
            model: self.model@,
            allow_all_tools: self.allow_all_tools,
            created_at: self.created_at,
            last_used: self.last_used,
        }
    }
}

impl Clone for AgentSession {
    fn clone(&self) -> (out: Self)
        ensures
            out@ == self@,
    {
        AgentSession {
            id: self.id,
            resume_id: self.resume_id.clone(),
            model: self.model.clone(),
            allow_all_tools: self.allow_all_tools,
            created_at: self.created_at,
            last_used: self.last_used,
        }
    }
}

/// How many entries stand in each status.
#[derive(Clone, Copy, Debug, PartialEq, Eq, Structural)]
pub struct StatusCounts {
    pub pending: usize,
    pub in_progress: usize,
    pub applied: usize,
    pub failed: usize,
}

impl Default for StatusCounts {
    fn default() -> (out: Self)
        ensures
            out == (StatusCounts { pending: 0, in_progress: 0, applied: 0, failed: 0 }),
    {
        StatusCounts { pending: 0, in_progress: 0, applied: 0, failed: 0 }
    }
}

/// What a checkpoint of the write-ahead log reported.
#[derive(Clone, Copy, Debug, PartialEq, Eq, Structural)]
pub struct WalCheckpointStats {
    pub checkpointed: i64,
    pub log: i64,
    pub wal: i64,
}

} // verus!
