use vstd::prelude::*;
use crate::apply::{ApplyFailure, ApplyFailureView};
use crate::journal::{fields_view, DetailField, DetailFieldView, DetailValue, DetailValueView};
use crate::models::{QueueRecord, QueueRecordView};
use crate::queue::SqliteQueue;
use crate::runner::{CheckFailure, CheckFailureView};
use crate::store::{QueueError, QueueView};
use crate::text::{
    chars_of, clone_strings, push_signed_decimal, push_text, signed_decimal, string_of,
    strings_view,
};
use crate::validator::{request_errors, validate_change_request};

verus! {

/// How a worker runs: who it is, how long its leases last, how long it rests when the
/// queue is empty, whether it runs the checks, and how often an entry may be claimed.
#[derive(Debug)]
pub struct WorkerConfig {
    pub worker_id: String,
    pub lease_seconds: u64,
    pub poll_interval_ms: u64,
    pub run_checks: bool,
    pub max_attempts: i64,
}

pub struct WorkerConfigView {
    pub worker_id: Seq<char>,
    pub lease_seconds: u64,
    pub poll_interval_ms: u64,
    pub run_checks: bool,
    pub max_attempts: i64,
}

impl View for WorkerConfig {
    type V = WorkerConfigView;

    open spec fn view(&self) -> WorkerConfigView {
        WorkerConfigView {
            worker_id: self.worker_id@,
            lease_seconds: self.lease_seconds,
            poll_interval_ms: self.poll_interval_ms,
            run_checks: self.run_checks,
            max_attempts: self.max_attempts,
        }
    }
}

impl WorkerConfigView {
    /// A lease lasts at least a second, and an entry may be claimed at least once.
    pub open spec fn valid(self) -> bool {
        self.lease_seconds > 0 && self.max_attempts >= 1
    }
}

impl WorkerConfig {
    /// Whether a lease lasts at least a second and an entry may be claimed at least
    /// once.
    pub fn is_valid(&self) -> (ok: bool)
        ensures
            ok == self@.valid(),
    {
        self.lease_seconds > 0 && self.max_attempts >= 1
    }
}

/// Why applying a request, or checking it, did not succeed.
#[derive(Debug)]
pub enum StepFailure {
    Apply(ApplyFailure),
    Check(CheckFailure),
    /// A failure of which no more is known than what was said.
    Other(String),
}

pub enum StepFailureView {
    Apply(ApplyFailureView),
    Check(CheckFailureView),
    Other(Seq<char>),
}

impl View for StepFailure {
    type V = StepFailureView;

    open spec fn view(&self) -> StepFailureView {
        match self {
            StepFailure::Apply(f) => StepFailureView::Apply(f@),
            StepFailure::Check(f) => StepFailureView::Check(f@),
            StepFailure::Other(s) => StepFailureView::Other(s@),
        }
    }
}

/// The mark that stands for what was cut off.
pub open spec fn ellipsis() -> Seq<char> {
    seq!['\u{2026}']
}

/// The first `max_len` characters of a text, with a mark where more followed.
pub open spec fn excerpt_of(text: Seq<char>, max_len: nat) -> Seq<char> {
    if text.len() <= max_len {
        text
    } else {
        text.take(max_len as int) + ellipsis()
    }
}

/// The first `max_len` characters of a text, with a mark where more followed.
pub fn excerpt(text: &str, max_len: usize) -> (out: String)
    ensures
        out@ == excerpt_of(text@, max_len as nat),
{
    let chars = chars_of(text);
    if chars.len() <= max_len {
        return string_of(&chars);
    }
    let mut kept: Vec<char> = Vec::new();
    let mut i: usize = 0;
    while i < max_len
        invariant
            max_len < chars.len(),
            i <= max_len,
            kept@ == chars@.take(i as int),
        decreases max_len - i,
    {
        kept.push(chars[i]);
        proof {
            assert(kept@ =~= chars@.take(i + 1));
        }
        i = i + 1;
    }
    kept.push('\u{2026}');
    proof {
        assert(kept@ =~= excerpt_of(text@, max_len as nat));
    }
    string_of(&kept)
}

/// A field that holds a text.
pub open spec fn text_field(key: Seq<char>, value: Seq<char>) -> DetailFieldView {
    DetailFieldView { key, value: DetailValueView::Text(value) }
}

/// A field that holds a count.
pub open spec fn count_field(key: Seq<char>, value: u64) -> DetailFieldView {
    DetailFieldView { key, value: DetailValueView::Count(value) }
}

/// A field that holds a number.
pub open spec fn int_field(key: Seq<char>, value: i64) -> DetailFieldView {
    DetailFieldView { key, value: DetailValueView::Int(value) }
}

impl StepFailureView {
    /// The failure in one line.
    pub open spec fn message(self) -> Seq<char> {
        match self {
            StepFailureView::Apply(f) => f.message(),
            StepFailureView::Check(f) => f.message(),
            StepFailureView::Other(s) => s,
        }
    }

    /// What the journal keeps of the failure: the line, and for a patch what the tool
    /// wrote and the beginning of the patch, for a check the command and what it
    /// wrote.
    pub open spec fn details(self) -> Seq<DetailFieldView> {
        match self {
            StepFailureView::Apply(f) => seq![
                text_field("error"@, self.message()),
                text_field("apply_stdout"@, f.stdout),
                text_field("apply_stderr"@, f.stderr),
                text_field("patch_preview"@, excerpt_of(f.patch, 512)),
            ],
            StepFailureView::Check(f) => seq![
                text_field("error"@, self.message()),
                text_field("check_command"@, f.command),
                text_field("check_stdout"@, f.stdout),
                text_field("check_stderr"@, f.stderr),
            ],
            StepFailureView::Other(s) => seq![text_field("error"@, self.message())],
        }
    }
}

fn make_text_field(key: &str, value: String) -> (out: DetailField)
    ensures
        out@ == text_field(key@, value@),
{
    DetailField { key: key.to_owned(), value: DetailValue::Text(value) }
}

fn make_count_field(key: &str, value: u64) -> (out: DetailField)
    ensures
        out@ == count_field(key@, value),
{
    DetailField { key: key.to_owned(), value: DetailValue::Count(value) }
}

fn make_int_field(key: &str, value: i64) -> (out: DetailField)
    ensures
        out@ == int_field(key@, value),
{
    DetailField { key: key.to_owned(), value: DetailValue::Int(value) }
}

impl StepFailure {
    /// The failure in one line.
    pub fn to_string(&self) -> (out: String)
        ensures
            out@ == self@.message(),
    {
        match self {
            StepFailure::Apply(f) => f.to_string(),
            StepFailure::Check(f) => f.to_string(),
            StepFailure::Other(s) => s.clone(),
        }
    }
}

/// What the journal keeps of a failure.
pub fn failure_details(failure: &StepFailure) -> (out: Vec<DetailField>)
    ensures
        fields_view(out@) == failure@.details(),
{
    let mut out: Vec<DetailField> = Vec::new();
    out.push(make_text_field("error", failure.to_string()));
    match failure {
        StepFailure::Apply(f) => {
            out.push(make_text_field("apply_stdout", f.stdout.clone()));
            out.push(make_text_field("apply_stderr", f.stderr.clone()));
            out.push(make_text_field("patch_preview", excerpt(f.patch.as_str(), 512)));
        },
        StepFailure::Check(f) => {
            out.push(make_text_field("check_command", f.command.clone()));
            out.push(make_text_field("check_stdout", f.stdout.clone()));
            out.push(make_text_field("check_stderr", f.stderr.clone()));
        },
        StepFailure::Other(_) => {},
    }
    proof {
        assert(fields_view(out@) =~= failure@.details());
    }
    out
}

/// A list of strings as `Debug` writes it.
pub uninterp spec fn debug_list(list: Seq<Seq<char>>) -> Seq<char>;

/// Formats a list of strings with `{:?}`, the form that `Debug` of std gives a
/// `Vec<String>`: the strings in quotes, with what needs it escaped, between square
/// brackets. That the text depends on the strings alone is taken on trust; nothing
/// else is claimed of it.
#[verifier::external_body]
fn debug_strings(list: &Vec<String>) -> (out: String)
    ensures
        out@ == debug_list(strings_view(list@)),
{
    format!("{:?}", list)
}

/// What a worker does next.
#[derive(Debug)]
pub enum WorkerStep {
    /// Nothing could be claimed: rest for so many milliseconds, then claim again.
    Idle { sleep_ms: u64 },
    /// Apply the request of this entry, and report how it went.
    Apply { record: QueueRecord },
    /// Run the checks of this entry, and report how they went.
    Check { record: QueueRecord },
    /// The entry is dealt with: claim the next one.
    Done,
}

pub enum WorkerStepView {
    Idle { sleep_ms: u64 },
    Apply { record: QueueRecordView },
    Check { record: QueueRecordView },
    Done,
}

impl View for WorkerStep {
    type V = WorkerStepView;

    open spec fn view(&self) -> WorkerStepView {
        match self {
            WorkerStep::Idle { sleep_ms } => WorkerStepView::Idle { sleep_ms: *sleep_ms },
            WorkerStep::Apply { record } => WorkerStepView::Apply { record: record@ },
            WorkerStep::Check { record } => WorkerStepView::Check { record: record@ },
            WorkerStep::Done => WorkerStepView::Done,
        }
    }
}

/// What a step of the worker returned, with the step by its view.
pub open spec fn step_view(result: Result<WorkerStep, QueueError>) -> Result<
    WorkerStepView,
    QueueError,
> {
    match result {
        Ok(step) => Ok(step@),
        Err(e) => Err(e),
    }
}

/// The words with which an entry fails that was claimed too often.
pub open spec fn exhausted_message(attempts: i64, max_attempts: i64) -> Seq<char> {
    "max attempts reached ("@ + signed_decimal(attempts as int) + "/"@ + signed_decimal(
        max_attempts as int,
    ) + ")"@
}

/// The words with which an entry fails whose request is not valid.
pub open spec fn rejected_message(errors: Seq<Seq<char>>) -> Seq<char> {
    "validation errors: "@ + debug_list(errors)
}

/// The journal's two events on a claim: that it was made, and how long it took.
pub open spec fn announced(
    q: QueueView,
    config: WorkerConfigView,
    record: QueueRecordView,
    dequeue_latency_ms: u64,
    now: i64,
) -> QueueView {
    q.after_log_event(
        record.id,
        record.payload.task_id,
        "info"@,
        "dequeued"@,
        Some(seq![int_field("attempt"@, record.attempts)]),
        now,
    ).after_log_event(
        record.id,
        record.payload.task_id,
        "info"@,
        "dequeue_metrics"@,
        Some(
            seq![
                count_field("dequeue_latency_ms"@, dequeue_latency_ms),
                count_field("poll_interval_ms"@, config.poll_interval_ms),
                text_field("worker_id"@, config.worker_id),
            ],
        ),
        now,
    )
}

/// The store after an entry was claimed too often: a warning, and the entry failed.
pub open spec fn shed(q: QueueView, config: WorkerConfigView, record: QueueRecordView, now: i64) -> QueueView {
    q.after_log_event(
        record.id,
        record.payload.task_id,
        "warn"@,
        "max attempts reached"@,
        Some(
            seq![
                int_field("attempts"@, record.attempts),
                int_field("max"@, config.max_attempts),
            ],
        ),
        now,
    )
}

/// The store after a request was found not to be valid: a warning with the faults.
pub open spec fn rejected(q: QueueView, record: QueueRecordView, now: i64) -> QueueView {
    q.after_log_event(
        record.id,
        record.payload.task_id,
        "warn"@,
        "validation failed"@,
        Some(
            seq![
                DetailFieldView {
                    key: "errors"@,
                    value: DetailValueView::List(request_errors(record.payload)),
                },
            ],
        ),
        now,
    )
}

/// The store after the worker has looked at what its claim returned. Where nothing was
/// claimed, the journal says that the worker is idle. Where an entry was claimed, the
/// journal says so; an entry claimed more often than allowed fails, and so does one
/// whose request is not valid, each with a warning before.
pub open spec fn after_claim(
    q: QueueView,
    config: WorkerConfigView,
    claimed: Option<QueueRecordView>,
    dequeue_latency_ms: u64,
    now: i64,
) -> QueueView {
    match claimed {
        None => q.after_log_event(
            0,
            "worker"@,
            "info"@,
            "idle"@,
            Some(
                seq![
                    text_field("worker_id"@, config.worker_id),
                    count_field("poll_interval_ms"@, config.poll_interval_ms),
                ],
            ),
            now,
        ),
        Some(record) => {
            let told = announced(q, config, record, dequeue_latency_ms, now);
            if record.attempts > config.max_attempts {
                shed(told, config, record, now).after_mark_failed(
                    record.id,
                    Some(exhausted_message(record.attempts, config.max_attempts)),
                    now,
                )
            } else if request_errors(record.payload).len() > 0 {
                rejected(told, record, now).after_mark_failed(
                    record.id,
                    Some(rejected_message(request_errors(record.payload))),
                    now,
                )
            } else {
                told
            }
        },
    }
}

/// What the worker does after its claim: rest where nothing was claimed; go on to the
/// next entry where this one was claimed too often or is not valid; else apply it. The
/// step fails where the entry cannot be marked failed.
pub open spec fn claim_step(
    q: QueueView,
    config: WorkerConfigView,
    claimed: Option<QueueRecordView>,
    dequeue_latency_ms: u64,
    now: i64,
) -> Result<WorkerStepView, QueueError> {
    match claimed {
        None => Ok(WorkerStepView::Idle { sleep_ms: config.poll_interval_ms }),
        Some(record) => {
            let told = announced(q, config, record, dequeue_latency_ms, now);
            if record.attempts > config.max_attempts {
                match shed(told, config, record, now).marked_failed(record.id) {
                    Ok(()) => Ok(WorkerStepView::Done),
                    Err(e) => Err(e),
                }
            } else if request_errors(record.payload).len() > 0 {
                match rejected(told, record, now).marked_failed(record.id) {
                    Ok(()) => Ok(WorkerStepView::Done),
                    Err(e) => Err(e),
                }
            } else {
                Ok(WorkerStepView::Apply { record })
            }
        },
    }
}

/// The view of an entry that may be absent.
pub open spec fn record_option_view(claimed: Option<QueueRecord>) -> Option<QueueRecordView> {
    match claimed {
        Some(record) => Some(record@),
        None => None,
    }
}

/// Looks at what a claim returned and decides what the worker does next.
pub fn on_claim(
    queue: &mut SqliteQueue,
    config: &WorkerConfig,
    claimed: Option<QueueRecord>,
    dequeue_latency_ms: u64,
    now: i64,
) -> (result: Result<WorkerStep, QueueError>)
    ensures
        final(queue)@ == after_claim(
            old(queue)@,
            config@,
            record_option_view(claimed),
            dequeue_latency_ms,
            now,
        ),
        step_view(result) == claim_step(
            old(queue)@,
            config@,
            record_option_view(claimed),
            dequeue_latency_ms,
            now,
        ),
        final(queue).file() == old(queue).file(),
{
    let record = match claimed {
        None => {
            let mut details: Vec<DetailField> = Vec::new();
            details.push(make_text_field("worker_id", config.worker_id.clone()));
            details.push(make_count_field("poll_interval_ms", config.poll_interval_ms));
            proof {
                assert(fields_view(details@) =~= seq![
                    text_field("worker_id"@, config@.worker_id),
                    count_field("poll_interval_ms"@, config@.poll_interval_ms),
                ]);
            }
            let _ = queue.log_event(0, "worker", "info", "idle", Some(details), now);
            return Ok(WorkerStep::Idle { sleep_ms: config.poll_interval_ms });
        },
        Some(record) => record,
    };
    let mut attempt: Vec<DetailField> = Vec::new();
    attempt.push(make_int_field("attempt", record.attempts));
    proof {
        assert(fields_view(attempt@) =~= seq![int_field("attempt"@, record@.attempts)]);
    }
    let _ = queue.log_event(
        record.id,
        record.payload.task_id.as_str(),
        "info",
        "dequeued",
        Some(attempt),
        now,
    );
    let mut timing: Vec<DetailField> = Vec::new();
    timing.push(make_count_field("dequeue_latency_ms", dequeue_latency_ms));
    timing.push(make_count_field("poll_interval_ms", config.poll_interval_ms));
    timing.push(make_text_field("worker_id", config.worker_id.clone()));
    proof {
        assert(fields_view(timing@) =~= seq![
            count_field("dequeue_latency_ms"@, dequeue_latency_ms),
            count_field("poll_interval_ms"@, config@.poll_interval_ms),
            text_field("worker_id"@, config@.worker_id),
        ]);
    }
    let _ = queue.log_event(
        record.id,
        record.payload.task_id.as_str(),
        "info",
        "dequeue_metrics",
        Some(timing),
        now,
    );
    assert(queue@ == announced(old(queue)@, config@, record@, dequeue_latency_ms, now));
    if record.attempts > config.max_attempts {
        let mut details: Vec<DetailField> = Vec::new();
        details.push(make_int_field("attempts", record.attempts));
        details.push(make_int_field("max", config.max_attempts));
        proof {
            assert(fields_view(details@) =~= seq![
                int_field("attempts"@, record@.attempts),
                int_field("max"@, config@.max_attempts),
            ]);
        }
        let _ = queue.log_event(
            record.id,
            record.payload.task_id.as_str(),
            "warn",
            "max attempts reached",
            Some(details),
            now,
        );
        let mut message = String::new();
        push_text(&mut message, "max attempts reached (");
        push_signed_decimal(&mut message, record.attempts);
        push_text(&mut message, "/");
        push_signed_decimal(&mut message, config.max_attempts);
        push_text(&mut message, ")");
        proof {
            assert(message@ =~= exhausted_message(record@.attempts, config@.max_attempts));
        }
        return match queue.mark_failed(record.id, Some(message), now) {
            Ok(()) => Ok(WorkerStep::Done),
            Err(e) => Err(e),
        };
    }
    let validation = validate_change_request(&record.payload);
    if !validation.valid {
        let mut details: Vec<DetailField> = Vec::new();
        details.push(
            DetailField {
                key: "errors".to_owned(),
                value: DetailValue::List(clone_strings(&validation.errors)),
            },
        );
        proof {
            assert(fields_view(details@) =~= seq![
                DetailFieldView {
                    key: "errors"@,
                    value: DetailValueView::List(request_errors(record@.payload)),
                },
            ]);
        }
        let _ = queue.log_event(
            record.id,
            record.payload.task_id.as_str(),
            "warn",
            "validation failed",
            Some(details),
            now,
        );
        let mut message = String::new();
        push_text(&mut message, "validation errors: ");
        let listed = debug_strings(&validation.errors);
        push_text(&mut message, listed.as_str());
        proof {
            assert(message@ =~= rejected_message(request_errors(record@.payload)));
        }
        return match queue.mark_failed(record.id, Some(message), now) {
            Ok(()) => Ok(WorkerStep::Done),
            Err(e) => Err(e),
        };
    }
    Ok(WorkerStep::Apply { record })
}

/// The store after a step of the work on an entry failed: a warning with what is
/// known of the failure; then the entry fails for good where it was claimed as often
/// as allowed, and goes back to pending where it was not.
pub open spec fn after_failure(
    q: QueueView,
    config: WorkerConfigView,
    record: QueueRecordView,
    what: Seq<char>,
    failure: StepFailureView,
    now: i64,
) -> QueueView {
    let warned = q.after_log_event(
        record.id,
        record.payload.task_id,
        "warn"@,
        what,
        Some(failure.details()),
        now,
    );
    if record.attempts >= config.max_attempts {
        warned.after_mark_failed(record.id, Some(failure.message()), now)
    } else {
        warned.after_mark_retry(record.id, Some(failure.message()), now)
    }
}

/// Whether the failure of a step could be written down: as a failed entry, or as one
/// that is pending again.
pub open spec fn failure_step(
    q: QueueView,
    config: WorkerConfigView,
    record: QueueRecordView,
    what: Seq<char>,
    failure: StepFailureView,
    now: i64,
) -> Result<WorkerStepView, QueueError> {
    let warned = q.after_log_event(
        record.id,
        record.payload.task_id,
        "warn"@,
        what,
        Some(failure.details()),
        now,
    );
    let marked = if record.attempts >= config.max_attempts {
        warned.marked_failed(record.id)
    } else {
        warned.marked_retry(record.id)
    };
    match marked {
        Ok(()) => Ok(WorkerStepView::Done),
        Err(e) => Err(e),
    }
}

/// Writes down that a step of the work on an entry failed.
fn on_failure(
    queue: &mut SqliteQueue,
    config: &WorkerConfig,
    record: &QueueRecord,
    what: &str,
    failure: &StepFailure,
    now: i64,
) -> (result: Result<WorkerStep, QueueError>)
    ensures
        final(queue)@ == after_failure(old(queue)@, config@, record@, what@, failure@, now),
        step_view(result) == failure_step(old(queue)@, config@, record@, what@, failure@, now),
        final(queue).file() == old(queue).file(),
{
    let details = failure_details(failure);
    let _ = queue.log_event(
        record.id,
        record.payload.task_id.as_str(),
        "warn",
        what,
        Some(details),
        now,
    );
    let marked = if record.attempts >= config.max_attempts {
        queue.mark_failed(record.id, Some(failure.to_string()), now)
    } else {
        queue.mark_retry(record.id, Some(failure.to_string()), now)
    };
    match marked {
        Ok(()) => Ok(WorkerStep::Done),
        Err(e) => Err(e),
    }
}

/// The store after an entry was applied and, where they are run, checked: the entry is
/// marked applied, and the journal says how long it took. Where the entry cannot be
/// marked applied the journal says nothing.
pub open spec fn after_success(
    q: QueueView,
    record: QueueRecordView,
    apply_duration_ms: u64,
    now: i64,
) -> QueueView {
    if q.marked_applied(record.id).is_ok() {
        q.after_mark_applied(record.id, now).after_log_event(
            record.id,
            record.payload.task_id,
            "info"@,
            "applied"@,
            Some(seq![count_field("apply_duration_ms"@, apply_duration_ms)]),
            now,
        )
    } else {
        q
    }
}

/// Whether the entry could be marked applied.
pub open spec fn success_step(q: QueueView, record: QueueRecordView) -> Result<
    WorkerStepView,
    QueueError,
> {
    match q.marked_applied(record.id) {
        Ok(()) => Ok(WorkerStepView::Done),
        Err(e) => Err(e),
    }
}

/// Marks an entry applied and writes down how long applying it took.
fn on_success(queue: &mut SqliteQueue, record: &QueueRecord, apply_duration_ms: u64, now: i64) -> (result:
    Result<WorkerStep, QueueError>)
    ensures
        final(queue)@ == after_success(old(queue)@, record@, apply_duration_ms, now),
        step_view(result) == success_step(old(queue)@, record@),
        final(queue).file() == old(queue).file(),
{
    match queue.mark_applied(record.id, now) {
        Ok(()) => {},
        Err(e) => {
            return Err(e);
        },
    }
    let mut details: Vec<DetailField> = Vec::new();
    details.push(make_count_field("apply_duration_ms", apply_duration_ms));
    proof {
        assert(fields_view(details@) =~= seq![count_field("apply_duration_ms"@, apply_duration_ms)]);
    }
    let _ = queue.log_event(
        record.id,
        record.payload.task_id.as_str(),
        "info",
        "applied",
        Some(details),
        now,
    );
    Ok(WorkerStep::Done)
}

/// The view of what applying or checking came to.
pub open spec fn outcome_view(outcome: Result<(), StepFailure>) -> Option<StepFailureView> {
    match outcome {
        Ok(()) => None,
        Err(f) => Some(f@),
    }
}

/// The store after the worker has learnt how applying went.
pub open spec fn after_apply(
    q: QueueView,
    config: WorkerConfigView,
    record: QueueRecordView,
    failure: Option<StepFailureView>,
    apply_duration_ms: u64,
    now: i64,
) -> QueueView {
    match failure {
        Some(f) => after_failure(q, config, record, "apply failed"@, f, now),
        None => if config.run_checks {
            q
        } else {
            after_success(q, record, apply_duration_ms, now)
        },
    }
}

/// What the worker does after applying: where it failed, the entry fails or goes back
/// to pending, and the worker goes on; where it succeeded, the checks follow if they
/// are run, and else the entry is applied.
pub open spec fn apply_step(
    q: QueueView,
    config: WorkerConfigView,
    record: QueueRecordView,
    failure: Option<StepFailureView>,
    now: i64,
) -> Result<WorkerStepView, QueueError> {
    match failure {
        Some(f) => failure_step(q, config, record, "apply failed"@, f, now),
        None => if config.run_checks {
            Ok(WorkerStepView::Check { record })
        } else {
            success_step(q, record)
        },
    }
}

/// Takes in how applying an entry went and decides what the worker does next.
/// `apply_duration_ms` is the time since applying began.
pub fn on_apply_result(
    queue: &mut SqliteQueue,
    config: &WorkerConfig,
    record: QueueRecord,
    outcome: Result<(), StepFailure>,
    apply_duration_ms: u64,
    now: i64,
) -> (result: Result<WorkerStep, QueueError>)
    ensures
        final(queue)@ == after_apply(
            old(queue)@,
            config@,
            record@,
            outcome_view(outcome),
            apply_duration_ms,
            now,
        ),
        step_view(result) == apply_step(old(queue)@, config@, record@, outcome_view(outcome), now),
        final(queue).file() == old(queue).file(),
{
    match outcome {
        Err(failure) => on_failure(queue, config, &record, "apply failed", &failure, now),
        Ok(()) => {
            if config.run_checks {
                Ok(WorkerStep::Check { record })
            } else {
                on_success(queue, &record, apply_duration_ms, now)
            }
        },
    }
}

/// The store after the worker has learnt how the checks went.
pub open spec fn after_checks(
    q: QueueView,
    config: WorkerConfigView,
    record: QueueRecordView,
    failure: Option<StepFailureView>,
    apply_duration_ms: u64,
    now: i64,
) -> QueueView {
    match failure {
        Some(f) => after_failure(q, config, record, "checks failed"@, f, now),
        None => after_success(q, record, apply_duration_ms, now),
    }
}

/// What the worker does after the checks: in either case it goes on to the next entry,
/// unless the outcome cannot be written down.
pub open spec fn checks_step(
    q: QueueView,
    config: WorkerConfigView,
    record: QueueRecordView,
    failure: Option<StepFailureView>,
    now: i64,
) -> Result<WorkerStepView, QueueError> {
    match failure {
        Some(f) => failure_step(q, config, record, "checks failed"@, f, now),
        None => success_step(q, record),
    }
}

/// Takes in how the checks of an entry went and writes down the outcome.
/// `apply_duration_ms` is the time since applying began.
pub fn on_checks_result(
    queue: &mut SqliteQueue,
    config: &WorkerConfig,
    record: QueueRecord,
    outcome: Result<(), StepFailure>,
    apply_duration_ms: u64,
    now: i64,
) -> (result: Result<WorkerStep, QueueError>)
    ensures
        final(queue)@ == after_checks(
            old(queue)@,
            config@,
            record@,
            outcome_view(outcome),
            apply_duration_ms,
            now,
        ),
        step_view(result) == checks_step(old(queue)@, config@, record@, outcome_view(outcome), now),
        final(queue).file() == old(queue).file(),
{
    match outcome {
        Err(failure) => on_failure(queue, config, &record, "checks failed", &failure, now),
        Ok(()) => on_success(queue, &record, apply_duration_ms, now),
    }
}

/// The seconds between two lines of progress.
pub const PROGRESS_INTERVAL_SECS: u64 = 5;

/// Whether the worker is the one that tells of its progress: the one that the command
/// line starts.
pub open spec fn tells_progress(config: WorkerConfigView) -> bool {
    config.worker_id == "worker-cli"@
}

/// Whether a line of progress is due: the worker is the one that tells of its
/// progress, and the time for the next line has come.
pub fn progress_due(config: &WorkerConfig, now_ms: u64, next_progress_ms: u64) -> (due: bool)
    ensures
        due == (tells_progress(config@) && now_ms >= next_progress_ms),
{
    crate::text::text_eq(config.worker_id.as_str(), "worker-cli") && now_ms >= next_progress_ms
}

/// When the next line of progress is due after one at `now_ms`: five seconds later,
/// or at the last time that can be written.
pub fn next_progress(now_ms: u64) -> (next: u64)
    ensures
        next == if now_ms + PROGRESS_INTERVAL_SECS * 1000 > u64::MAX {
            u64::MAX
        } else {
            (now_ms + PROGRESS_INTERVAL_SECS * 1000) as u64
        },
{
    now_ms.saturating_add(PROGRESS_INTERVAL_SECS * 1000)
}

/// The line of progress: the numbers of entries in each status, and the throughput,
/// the two averages and the contention as they are handed in.
pub open spec fn progress_text(
    counts: crate::models::StatusCounts,
    throughput: Seq<char>,
    avg_dequeue_latency: Seq<char>,
    avg_apply_duration: Seq<char>,
    lease_contention_events: usize,
) -> Seq<char> {
    "[progress] pending="@ + crate::text::decimal(counts.pending as nat) + " in_progress="@
        + crate::text::decimal(counts.in_progress as nat) + " applied="@ + crate::text::decimal(
        counts.applied as nat,
    ) + " failed="@ + crate::text::decimal(counts.failed as nat) + " throughput="@ + throughput
        + " avg_dequeue_latency="@ + avg_dequeue_latency + " avg_apply_duration="@
        + avg_apply_duration + " lease_contention_events="@ + crate::text::decimal(
        lease_contention_events as nat,
    )
}

/// Writes the line of progress. The throughput and the averages are handed in as they
/// are to be shown, with their units, or as `n/a`.
pub fn report_progress(
    counts: &crate::models::StatusCounts,
    throughput: &str,
    avg_dequeue_latency: &str,
    avg_apply_duration: &str,
    lease_contention_events: usize,
) -> (line: String)
    ensures
        line@ == progress_text(
            *counts,
            throughput@,
            avg_dequeue_latency@,
            avg_apply_duration@,
            lease_contention_events,
        ),
{
    let mut line = String::new();
    push_text(&mut line, "[progress] pending=");
    crate::text::push_decimal(&mut line, counts.pending as u64);
    push_text(&mut line, " in_progress=");
    crate::text::push_decimal(&mut line, counts.in_progress as u64);
    push_text(&mut line, " applied=");
    crate::text::push_decimal(&mut line, counts.applied as u64);
    push_text(&mut line, " failed=");
    crate::text::push_decimal(&mut line, counts.failed as u64);
    push_text(&mut line, " throughput=");
    push_text(&mut line, throughput);
    push_text(&mut line, " avg_dequeue_latency=");
    push_text(&mut line, avg_dequeue_latency);
    push_text(&mut line, " avg_apply_duration=");
    push_text(&mut line, avg_apply_duration);
    push_text(&mut line, " lease_contention_events=");
    crate::text::push_decimal(&mut line, lease_contention_events as u64);
    proof {
        assert(line@ =~= progress_text(
            *counts,
            throughput@,
            avg_dequeue_latency@,
            avg_apply_duration@,
            lease_contention_events,
        ));
    }
    line
}

/// Whatever the worker does with what it claimed, it does not bring the store out of
/// order.
pub proof fn claim_keeps_order(
    q: QueueView,
    config: WorkerConfigView,
    claimed: Option<QueueRecordView>,
    dequeue_latency_ms: u64,
    now: i64,
)
    requires
        q.wf(),
    ensures
        after_claim(q, config, claimed, dequeue_latency_ms, now).wf(),
{
    match claimed {
        None => {
            lemma_log_keeps_order(q);
        },
        Some(record) => {
            lemma_log_keeps_order(q);
            let first = q.after_log_event(
                record.id,
                record.payload.task_id,
                "info"@,
                "dequeued"@,
                Some(seq![int_field("attempt"@, record.attempts)]),
                now,
            );
            lemma_log_keeps_order(first);
            let told = announced(q, config, record, dequeue_latency_ms, now);
            lemma_log_keeps_order(told);
            if record.attempts > config.max_attempts {
                crate::laws::step_keeps_order(
                    shed(told, config, record, now),
                    crate::laws::QueueOp::MarkFailed {
                        id: record.id,
                        error: Some(exhausted_message(record.attempts, config.max_attempts)),
                        now,
                    },
                );
            } else if request_errors(record.payload).len() > 0 {
                crate::laws::step_keeps_order(
                    rejected(told, record, now),
                    crate::laws::QueueOp::MarkFailed {
                        id: record.id,
                        error: Some(rejected_message(request_errors(record.payload))),
                        now,
                    },
                );
            }
        },
    }
}

/// One more event does not bring a store out of order.
proof fn lemma_log_keeps_order(q: QueueView)
    requires
        q.wf(),
    ensures
        forall|
            queue_id: i64,
            task_id: Seq<char>,
            level: Seq<char>,
            message: Seq<char>,
            details: Option<Seq<DetailFieldView>>,
            now: i64,
        | (#[trigger] q.after_log_event(queue_id, task_id, level, message, details, now)).wf(),
{
}

/// Whatever the worker does with the outcome of applying or checking, it does not
/// bring the store out of order.
pub proof fn outcome_keeps_order(
    q: QueueView,
    config: WorkerConfigView,
    record: QueueRecordView,
    failure: Option<StepFailureView>,
    apply_duration_ms: u64,
    now: i64,
)
    requires
        q.wf(),
    ensures
        after_apply(q, config, record, failure, apply_duration_ms, now).wf(),
        after_checks(q, config, record, failure, apply_duration_ms, now).wf(),
{
    lemma_log_keeps_order(q);
    match failure {
        Some(f) => {
            lemma_failure_keeps_order(q, config, record, "apply failed"@, f, now);
            lemma_failure_keeps_order(q, config, record, "checks failed"@, f, now);
        },
        None => {
            crate::laws::step_keeps_order(
                q,
                crate::laws::QueueOp::MarkApplied { id: record.id, now },
            );
            lemma_log_keeps_order(q.after_mark_applied(record.id, now));
        },
    }
}

proof fn lemma_failure_keeps_order(
    q: QueueView,
    config: WorkerConfigView,
    record: QueueRecordView,
    what: Seq<char>,
    failure: StepFailureView,
    now: i64,
)
    requires
        q.wf(),
    ensures
        after_failure(q, config, record, what, failure, now).wf(),
{
    lemma_log_keeps_order(q);
    let warned = q.after_log_event(
        record.id,
        record.payload.task_id,
        "warn"@,
        what,
        Some(failure.details()),
        now,
    );
    crate::laws::step_keeps_order(
        warned,
        crate::laws::QueueOp::MarkFailed { id: record.id, error: Some(failure.message()), now },
    );
    crate::laws::step_keeps_order(
        warned,
        crate::laws::QueueOp::MarkRetry { id: record.id, error: Some(failure.message()), now },
    );
}

/// An entry whose patch or checks failed fails for good exactly where it was claimed
/// as often as is allowed; else it is pending again. Either way its lease is given up.
pub proof fn failure_fails_or_retries(
    q: QueueView,
    config: WorkerConfigView,
    record: QueueRecordView,
    what: Seq<char>,
    failure: StepFailureView,
    now: i64,
    at: int,
)
    requires
        q.wf(),
        0 <= at < q.entries.len(),
        q.entries[at].id == record.id,
        q.entries[at].status == crate::models::QueueStatus::InProgress,
        q.entries[at].payload.is_some(),
        q.last_dead_letter_id < i64::MAX,
    ensures
        ({
            let after = after_failure(q, config, record, what, failure, now);
            &&& after.entries.len() == q.entries.len()
            &&& after.entries[at].status == if record.attempts >= config.max_attempts {
                crate::models::QueueStatus::Failed
            } else {
                crate::models::QueueStatus::Pending
            }
            &&& after.entries[at].leased_until.is_none()
            &&& after.entries[at].lease_owner.is_none()
            &&& after.entries[at].last_error == Some(failure.message())
            &&& after.entries[at].attempts == q.entries[at].attempts
            &&& (record.attempts >= config.max_attempts ==> after.has_dead_letter(record.id))
        }),
{
    let warned = q.after_log_event(
        record.id,
        record.payload.task_id,
        "warn"@,
        what,
        Some(failure.details()),
        now,
    );
    crate::laws::lemma_position_of(warned, at);
    if record.attempts >= config.max_attempts {
        let after = warned.after_mark_failed(record.id, Some(failure.message()), now);
        assert(after.dead_letters[after.dead_letters.len() - 1].queue_id == record.id);
    }
}

} // verus!
