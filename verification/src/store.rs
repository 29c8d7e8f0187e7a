use vstd::prelude::*;
use crate::journal::{
    ChangeQueueLogView, DetailFieldView, DetailValueView, FileModificationView,
};
use crate::models::{
    AgentSessionView, ChangeRequest, ChangeRequestView, DeadLetterRecordView, QueueRecordView,
    QueueStatus, StatusCounts,
};
use crate::order::newest;
use crate::text::{clone_opt_string, opt_string_view};

verus! {

/// Why an operation of the queue did nothing.
#[derive(Clone, Copy, Debug, PartialEq, Eq, Structural)]
pub enum QueueError {
    /// The store cannot take what the operation would write: a counter is at its end.
    Store,
    /// What was read is not a store of this queue: its schema or its rows are not in
    /// order.
    CorruptStore,
    /// The payload of the row that the operation needs cannot be read.
    CorruptPayload,
    /// The entry has reached a terminal status and the operation would take it
    /// elsewhere.
    IllegalTransition,
}

/// A row of the queue's table. Its payload is absent where what is stored cannot be
/// read as a change request.
#[derive(Debug)]
pub struct QueueRow {
    pub id: i64,
    pub status: QueueStatus,
    pub payload: Option<ChangeRequest>,
    pub attempts: i64,
    pub last_error: Option<String>,
    pub leased_until: Option<i64>,
    pub lease_owner: Option<String>,
    pub created_at: i64,
    pub updated_at: i64,
}

pub struct EntryView {
    pub id: i64,
    pub status: QueueStatus,
    pub payload: Option<ChangeRequestView>,
    pub attempts: i64,
    pub last_error: Option<Seq<char>>,
    pub leased_until: Option<i64>,
    pub lease_owner: Option<Seq<char>>,
    pub created_at: i64,
    pub updated_at: i64,
}

/// The view of a payload that may be unreadable.
pub open spec fn payload_view(p: Option<ChangeRequest>) -> Option<ChangeRequestView> {
    match p {
        Some(request) => Some(request@),
        None => None,
    }
}

impl View for QueueRow {
    type V = EntryView;

    open spec fn view(&self) -> EntryView {
        EntryView {
            id: self.id,
            status: self.status,
            payload: payload_view(self.payload),
            attempts: self.attempts,
            last_error: opt_string_view(self.last_error),
            leased_until: self.leased_until,
            lease_owner: opt_string_view(self.lease_owner),
            created_at: self.created_at,
            updated_at: self.updated_at,
        }
    }
}

/// A copy of a payload that may be unreadable.
pub fn clone_payload(p: &Option<ChangeRequest>) -> (out: Option<ChangeRequest>)
    ensures
        payload_view(out) == payload_view(*p),
{
    match p {
        Some(request) => Some(request.clone()),
        None => None,
    }
}

impl Clone for QueueRow {
    fn clone(&self) -> (out: Self)
        ensures
            out@ == self@,
    {
        QueueRow {
            id: self.id,
            status: self.status,
            payload: clone_payload(&self.payload),
            attempts: self.attempts,
            last_error: clone_opt_string(&self.last_error),
            leased_until: self.leased_until,
            lease_owner: clone_opt_string(&self.lease_owner),
            created_at: self.created_at,
            updated_at: self.updated_at,
        }
    }
}

impl EntryView {
    /// The entry holds a lease, with its owner, exactly while it is in progress; it has
    /// a positive id and has not been claimed a negative number of times.
    pub open spec fn wf(self) -> bool {
        &&& self.id > 0
        &&& self.attempts >= 0
        &&& (self.status == QueueStatus::InProgress) == self.leased_until.is_some()
        &&& (self.status == QueueStatus::InProgress) == self.lease_owner.is_some()
    }

    /// The entry may be claimed at `now`: it is pending, or it is in progress under a
    /// lease that has run out.
    pub open spec fn eligible(self, now: i64) -> bool {
        ||| self.status == QueueStatus::Pending
        ||| (self.status == QueueStatus::InProgress && self.leased_until.is_some()
            && self.leased_until.unwrap() < now)
    }

    /// The entry after `owner` has claimed it at `now` with a lease that runs to
    /// `until`.
    pub open spec fn claimed(self, now: i64, until: i64, owner: Seq<char>) -> EntryView {
        EntryView {
            status: QueueStatus::InProgress,
            attempts: (self.attempts + 1) as i64,
            leased_until: Some(until),
            lease_owner: Some(owner),
            updated_at: now,
            ..self
        }
    }

    /// The entry after its lease was given up at `now`, for the status given and with
    /// the error given.
    pub open spec fn released(
        self,
        status: QueueStatus,
        error: Option<Seq<char>>,
        now: i64,
    ) -> EntryView {
        EntryView {
            status,
            last_error: error,
            leased_until: None,
            lease_owner: None,
            updated_at: now,
            ..self
        }
    }

    /// The entry after it was marked applied at `now`.
    pub open spec fn applied(self, now: i64) -> EntryView {
        EntryView {
            status: QueueStatus::Applied,
            leased_until: None,
            lease_owner: None,
            updated_at: now,
            ..self
        }
    }

    /// The entry as the queue hands it out. Only an entry with a readable payload is
    /// handed out.
    pub open spec fn record(self) -> QueueRecordView
        recommends
            self.payload.is_some(),
    {
        QueueRecordView {
            id: self.id,
            status: self.status,
            payload: self.payload.unwrap(),
            attempts: self.attempts,
            last_error: self.last_error,
            leased_until: self.leased_until,
            lease_owner: self.lease_owner,
            created_at: self.created_at,
            updated_at: self.updated_at,
        }
    }

    /// An entry that a sweep takes away: one that was last touched before `threshold`
    /// and is applied or, where failed entries are swept too, failed.
    pub open spec fn removable(self, threshold: int, with_failed: bool) -> bool {
        &&& self.updated_at < threshold
        &&& (self.status == QueueStatus::Applied || (with_failed && self.status
            == QueueStatus::Failed))
    }
}

/// A row of the dead letters' table. Its payload is absent where what is stored cannot
/// be read as a change request.
#[derive(Debug)]
pub struct DeadLetterRow {
    pub id: i64,
    pub queue_id: i64,
    pub task_id: String,
    pub agent: String,
    pub payload: Option<ChangeRequest>,
    pub error: Option<String>,
    pub failed_at: i64,
}

pub struct DeadLetterView {
    pub id: i64,
    pub queue_id: i64,
    pub task_id: Seq<char>,
    pub agent: Seq<char>,
    pub payload: Option<ChangeRequestView>,
    pub error: Option<Seq<char>>,
    pub failed_at: i64,
}

impl View for DeadLetterRow {
    type V = DeadLetterView;

    open spec fn view(&self) -> DeadLetterView {
        DeadLetterView {
            id: self.id,
            queue_id: self.queue_id,
            task_id: self.task_id@,
            agent: self.agent@,
            payload: payload_view(self.payload),
            error: opt_string_view(self.error),
            failed_at: self.failed_at,
        }
    }
}

impl Clone for DeadLetterRow {
    fn clone(&self) -> (out: Self)
        ensures
            out@ == self@,
    {
        DeadLetterRow {
            id: self.id,
            queue_id: self.queue_id,
            task_id: self.task_id.clone(),
            agent: self.agent.clone(),
            payload: clone_payload(&self.payload),
            error: clone_opt_string(&self.error),
            failed_at: self.failed_at,
        }
    }
}

impl DeadLetterView {
    /// The dead letter as the queue hands it out.
    pub open spec fn record(self) -> DeadLetterRecordView
        recommends
            self.payload.is_some(),
    {
        DeadLetterRecordView {
            id: self.id,
            queue_id: self.queue_id,
            task_id: self.task_id,
            agent: self.agent,
            payload: self.payload.unwrap(),
            error: self.error,
            failed_at: self.failed_at,
        }
    }
}

/// The entries without those that a sweep with the given threshold takes away, in
/// their order.
pub open spec fn entries_without(entries: Seq<EntryView>, threshold: int, with_failed: bool) -> Seq<
    EntryView,
> {
    entries.filter(|e: EntryView| !e.removable(threshold, with_failed))
}

/// The dead letters that are not older than the threshold, in their order.
pub open spec fn letters_since(letters: Seq<DeadLetterView>, threshold: int) -> Seq<
    DeadLetterView,
> {
    letters.filter(|d: DeadLetterView| d.failed_at >= threshold)
}

/// What one more entry at the end does to a sweep.
pub proof fn lemma_entries_without_push(
    entries: Seq<EntryView>,
    e: EntryView,
    threshold: int,
    with_failed: bool,
)
    ensures
        entries_without(entries.push(e), threshold, with_failed) == if e.removable(
            threshold,
            with_failed,
        ) {
            entries_without(entries, threshold, with_failed)
        } else {
            entries_without(entries, threshold, with_failed).push(e)
        },
{
    Seq::lemma_filter_push(entries, e, |e: EntryView| !e.removable(threshold, with_failed));
}

/// What one more dead letter at the end does to a sweep.
pub proof fn lemma_letters_since_push(letters: Seq<DeadLetterView>, d: DeadLetterView, threshold: int)
    ensures
        letters_since(letters.push(d), threshold) == if d.failed_at >= threshold {
            letters_since(letters, threshold).push(d)
        } else {
            letters_since(letters, threshold)
        },
{
    Seq::lemma_filter_push(letters, d, |d: DeadLetterView| d.failed_at >= threshold);
}

/// The entry at `at` is the first of `entries` with the given id.
pub open spec fn is_entry_position(entries: Seq<EntryView>, id: i64, at: int) -> bool {
    &&& 0 <= at < entries.len()
    &&& entries[at].id == id
    &&& forall|k: int| 0 <= k < at ==> (#[trigger] entries[k]).id != id
}

/// Where the first of `entries` with the given id stands, if there is one.
pub open spec fn entry_position(entries: Seq<EntryView>, id: i64) -> Option<int> {
    if exists|at: int| is_entry_position(entries, id, at) {
        Some(choose|at: int| is_entry_position(entries, id, at))
    } else {
        None
    }
}

/// The entries that have the given status, in their order.
pub open spec fn with_status(entries: Seq<EntryView>, status: QueueStatus) -> Seq<EntryView> {
    entries.filter(|e: EntryView| e.status == status)
}

/// What one more entry at the end does to the entries of one status.
pub proof fn lemma_with_status_push(entries: Seq<EntryView>, e: EntryView, status: QueueStatus)
    ensures
        with_status(entries.push(e), status) == if e.status == status {
            with_status(entries, status).push(e)
        } else {
            with_status(entries, status)
        },
        with_status(entries, status).len() <= entries.len(),
{
    Seq::lemma_filter_push(entries, e, |e: EntryView| e.status == status);
    entries.lemma_filter_len(|e: EntryView| e.status == status);
}

/// The entries as the queue hands them out, one for one.
pub open spec fn records_of(rows: Seq<EntryView>) -> Seq<QueueRecordView> {
    rows.map_values(|e: EntryView| e.record())
}

/// The events with the given message that were written at `since` or later.
pub open spec fn events_since(logs: Seq<ChangeQueueLogView>, message: Seq<char>, since: int) -> Seq<
    ChangeQueueLogView,
> {
    logs.filter(|l: ChangeQueueLogView| l.message == message && l.created_at >= since)
}

/// No more events are picked than there are.
pub proof fn lemma_events_since_len(logs: Seq<ChangeQueueLogView>, message: Seq<char>, since: int)
    ensures
        events_since(logs, message, since).len() <= logs.len(),
{
    logs.lemma_filter_len(|l: ChangeQueueLogView| l.message == message && l.created_at >= since);
}

/// What one more event at the end does to the events of one message.
pub proof fn lemma_events_since_push(
    logs: Seq<ChangeQueueLogView>,
    l: ChangeQueueLogView,
    message: Seq<char>,
    since: int,
)
    ensures
        events_since(logs.push(l), message, since) == if l.message == message && l.created_at
            >= since {
            events_since(logs, message, since).push(l)
        } else {
            events_since(logs, message, since)
        },
{
    Seq::lemma_filter_push(
        logs,
        l,
        |l: ChangeQueueLogView| l.message == message && l.created_at >= since,
    );
}

/// The store as a value: its five tables, and for each the last id that was ever given
/// out. Ids are given out in rising order and never again, also after rows are gone.
pub struct QueueView {
    pub entries: Seq<EntryView>,
    pub last_entry_id: i64,
    pub dead_letters: Seq<DeadLetterView>,
    pub last_dead_letter_id: i64,
    pub logs: Seq<ChangeQueueLogView>,
    pub last_log_id: i64,
    pub file_events: Seq<FileModificationView>,
    pub last_file_event_id: i64,
    pub sessions: Seq<AgentSessionView>,
    pub last_session_id: i64,
}

impl QueueView {
    /// A store in which nothing was ever written.
    pub open spec fn empty() -> QueueView {
        QueueView {
            entries: Seq::empty(),
            last_entry_id: 0,
            dead_letters: Seq::empty(),
            last_dead_letter_id: 0,
            logs: Seq::empty(),
            last_log_id: 0,
            file_events: Seq::empty(),
            last_file_event_id: 0,
            sessions: Seq::empty(),
            last_session_id: 0,
        }
    }

    /// The entries stand in the order of their ids, none of which is above the last one
    /// given out, and each is in order by itself.
    pub open spec fn entries_wf(self) -> bool {
        &&& forall|i: int|
            0 <= i < self.entries.len() ==> (#[trigger] self.entries[i]).wf()
                && self.entries[i].id <= self.last_entry_id
        &&& forall|i: int, j: int|
            0 <= i < j < self.entries.len() ==> (#[trigger] self.entries[i]).id
                < (#[trigger] self.entries[j]).id
    }

    /// The dead letters stand in the order of their ids, none of which is above the
    /// last one given out.
    pub open spec fn dead_letters_wf(self) -> bool {
        &&& forall|i: int|
            0 <= i < self.dead_letters.len() ==> 0 < (#[trigger] self.dead_letters[i]).id
                <= self.last_dead_letter_id
        &&& forall|i: int, j: int|
            0 <= i < j < self.dead_letters.len() ==> (#[trigger] self.dead_letters[i]).id
                < (#[trigger] self.dead_letters[j]).id
    }

    /// The events of the journal stand in the order of their ids, none of which is
    /// above the last one given out.
    pub open spec fn logs_wf(self) -> bool {
        &&& forall|i: int|
            0 <= i < self.logs.len() ==> 0 < (#[trigger] self.logs[i]).id <= self.last_log_id
        &&& forall|i: int, j: int|
            0 <= i < j < self.logs.len() ==> (#[trigger] self.logs[i]).id
                < (#[trigger] self.logs[j]).id
    }

    /// The records of changes to files stand in the order of their ids, none of which
    /// is above the last one given out.
    pub open spec fn file_events_wf(self) -> bool {
        &&& forall|i: int|
            0 <= i < self.file_events.len() ==> 0 < (#[trigger] self.file_events[i]).id
                <= self.last_file_event_id
        &&& forall|i: int, j: int|
            0 <= i < j < self.file_events.len() ==> (#[trigger] self.file_events[i]).id
                < (#[trigger] self.file_events[j]).id
    }

    /// The sessions stand in the order of their ids, and no two have the same resume
    /// id.
    pub open spec fn sessions_wf(self) -> bool {
        &&& forall|i: int|
            0 <= i < self.sessions.len() ==> 0 < (#[trigger] self.sessions[i]).id
                <= self.last_session_id
        &&& forall|i: int, j: int|
            0 <= i < j < self.sessions.len() ==> (#[trigger] self.sessions[i]).id
                < (#[trigger] self.sessions[j]).id
        &&& forall|i: int, j: int|
            0 <= i < j < self.sessions.len() ==> (#[trigger] self.sessions[i]).resume_id
                != (#[trigger] self.sessions[j]).resume_id
    }

    /// What holds of the store between any two operations.
    pub open spec fn wf(self) -> bool {
        &&& self.last_entry_id >= 0
        &&& self.last_dead_letter_id >= 0
        &&& self.last_log_id >= 0
        &&& self.last_file_event_id >= 0
        &&& self.last_session_id >= 0
        &&& self.entries_wf()
        &&& self.dead_letters_wf()
        &&& self.logs_wf()
        &&& self.file_events_wf()
        &&& self.sessions_wf()
    }

    /// The entry at `at` is the first with the given id. In a store that is in order
    /// no other has that id.
    pub open spec fn is_position(self, id: i64, at: int) -> bool {
        is_entry_position(self.entries, id, at)
    }

    /// Where the entry with the given id stands, if there is one.
    pub open spec fn position(self, id: i64) -> Option<int> {
        entry_position(self.entries, id)
    }

    /// Some dead letter is about the entry with the given id.
    pub open spec fn has_dead_letter(self, queue_id: i64) -> bool {
        exists|k: int|
            0 <= k < self.dead_letters.len() && (#[trigger] self.dead_letters[k]).queue_id
                == queue_id
    }

    // ---- enqueue

    /// The entry that a new request becomes.
    pub open spec fn fresh_entry(self, request: ChangeRequestView, now: i64) -> EntryView {
        EntryView {
            id: (self.last_entry_id + 1) as i64,
            status: QueueStatus::Pending,
            payload: Some(request),
            attempts: 0,
            last_error: None,
            leased_until: None,
            lease_owner: None,
            created_at: now,
            updated_at: now,
        }
    }

    /// What `enqueue` returns: the new id, or the store's refusal when no id is left.
    pub open spec fn enqueued(self) -> Result<i64, QueueError> {
        if self.last_entry_id < i64::MAX {
            Ok((self.last_entry_id + 1) as i64)
        } else {
            Err(QueueError::Store)
        }
    }

    /// The store after `enqueue`.
    pub open spec fn after_enqueue(self, request: ChangeRequestView, now: i64) -> QueueView {
        if self.enqueued().is_ok() {
            QueueView {
                entries: self.entries.push(self.fresh_entry(request, now)),
                last_entry_id: (self.last_entry_id + 1) as i64,
                ..self
            }
        } else {
            self
        }
    }

    // ---- dequeue

    /// The entry at `at` is the oldest that may be claimed at `now`.
    pub open spec fn first_eligible(self, now: i64, at: int) -> bool {
        &&& 0 <= at < self.entries.len()
        &&& self.entries[at].eligible(now)
        &&& forall|k: int| 0 <= k < at ==> !(#[trigger] self.entries[k]).eligible(now)
    }

    /// Where the entry stands that a claim at `now` goes to, if any may be claimed.
    pub open spec fn claim_position(self, now: i64) -> Option<int> {
        if exists|at: int| self.first_eligible(now, at) {
            Some(choose|at: int| self.first_eligible(now, at))
        } else {
            None
        }
    }

    /// How a claim at `now` ends: with the position of the entry claimed, with nothing
    /// where no entry may be claimed, or with the reason why the oldest one that may be
    /// cannot.
    pub open spec fn claim(self, now: i64) -> Result<Option<int>, QueueError> {
        match self.claim_position(now) {
            None => Ok(None),
            Some(at) => {
                if self.entries[at].payload.is_none() {
                    Err(QueueError::CorruptPayload)
                } else if self.entries[at].attempts == i64::MAX {
                    Err(QueueError::Store)
                } else {
                    Ok(Some(at))
                }
            },
        }
    }

    /// The store after `dequeue`.
    pub open spec fn after_dequeue(self, now: i64, lease_seconds: u64, owner: Seq<char>) -> QueueView {
        match self.claim(now) {
            Ok(Some(at)) => QueueView {
                entries: self.entries.update(
                    at,
                    self.entries[at].claimed(now, (now + lease_seconds) as i64, owner),
                ),
                ..self
            },
            _ => self,
        }
    }

    /// What `dequeue` returns.
    pub open spec fn dequeued(self, now: i64, lease_seconds: u64, owner: Seq<char>) -> Result<
        Option<QueueRecordView>,
        QueueError,
    > {
        match self.claim(now) {
            Ok(Some(at)) => Ok(
                Some(self.entries[at].claimed(now, (now + lease_seconds) as i64, owner).record()),
            ),
            Ok(None) => Ok(None),
            Err(e) => Err(e),
        }
    }

    // ---- mark_applied

    /// What `mark_applied` returns: a failed entry cannot become applied.
    pub open spec fn marked_applied(self, id: i64) -> Result<(), QueueError> {
        match self.position(id) {
            Some(at) => if self.entries[at].status == QueueStatus::Failed {
                Err(QueueError::IllegalTransition)
            } else {
                Ok(())
            },
            None => Ok(()),
        }
    }

    /// The store after `mark_applied`: an entry that is pending or in progress becomes
    /// applied; nothing else changes.
    pub open spec fn after_mark_applied(self, id: i64, now: i64) -> QueueView {
        match self.position(id) {
            Some(at) => if self.entries[at].status.terminal() {
                self
            } else {
                QueueView { entries: self.entries.update(at, self.entries[at].applied(now)), ..self }
            },
            None => self,
        }
    }

    // ---- mark_retry

    /// What `mark_retry` returns: a terminal entry cannot go back to pending.
    pub open spec fn marked_retry(self, id: i64) -> Result<(), QueueError> {
        match self.position(id) {
            Some(at) => if self.entries[at].status.terminal() {
                Err(QueueError::IllegalTransition)
            } else {
                Ok(())
            },
            None => Ok(()),
        }
    }

    /// The store after `mark_retry`.
    pub open spec fn after_mark_retry(self, id: i64, error: Option<Seq<char>>, now: i64) -> QueueView {
        match self.position(id) {
            Some(at) => if self.entries[at].status.terminal() {
                self
            } else {
                QueueView {
                    entries: self.entries.update(
                        at,
                        self.entries[at].released(QueueStatus::Pending, error, now),
                    ),
                    ..self
                }
            },
            None => self,
        }
    }

    // ---- mark_failed

    /// What `mark_failed` returns. An applied entry cannot fail; an entry whose payload
    /// cannot be read cannot be copied to the dead letters, nor one for which no dead
    /// letter id is left.
    pub open spec fn marked_failed(self, id: i64) -> Result<(), QueueError> {
        match self.position(id) {
            Some(at) => {
                let entry = self.entries[at];
                if entry.status == QueueStatus::Applied {
                    Err(QueueError::IllegalTransition)
                } else if entry.status == QueueStatus::Failed {
                    Ok(())
                } else if entry.payload.is_none() {
                    Err(QueueError::CorruptPayload)
                } else if self.last_dead_letter_id == i64::MAX {
                    Err(QueueError::Store)
                } else {
                    Ok(())
                }
            },
            None => Ok(()),
        }
    }

    /// The dead letter that is written when the entry at `at` fails.
    pub open spec fn dead_letter_for(self, at: int, error: Option<Seq<char>>, now: i64) -> DeadLetterView
        recommends
            0 <= at < self.entries.len(),
            self.entries[at].payload.is_some(),
    {
        let entry = self.entries[at];
        DeadLetterView {
            id: (self.last_dead_letter_id + 1) as i64,
            queue_id: entry.id,
            task_id: entry.payload.unwrap().task_id,
            agent: entry.payload.unwrap().agent,
            payload: entry.payload,
            error,
            failed_at: now,
        }
    }

    /// Whether `mark_failed` moves the entry to Failed: it is there, pending or in
    /// progress, and nothing stands against the dead letter.
    pub open spec fn fails_now(self, id: i64) -> bool {
        &&& self.position(id).is_some()
        &&& !self.entries[self.position(id).unwrap()].status.terminal()
        &&& self.marked_failed(id).is_ok()
    }

    /// The store after `mark_failed`: the entry is failed and its dead letter is
    /// written, both or neither.
    pub open spec fn after_mark_failed(self, id: i64, error: Option<Seq<char>>, now: i64) -> QueueView {
        if self.fails_now(id) {
            let at = self.position(id).unwrap();
            QueueView {
                entries: self.entries.update(
                    at,
                    self.entries[at].released(QueueStatus::Failed, error, now),
                ),
                dead_letters: self.dead_letters.push(self.dead_letter_for(at, error, now)),
                last_dead_letter_id: (self.last_dead_letter_id + 1) as i64,
                ..self
            }
        } else {
            self
        }
    }

    // ---- the journal

    /// The event that `log_event` writes.
    pub open spec fn fresh_log(
        self,
        queue_id: i64,
        task_id: Seq<char>,
        level: Seq<char>,
        message: Seq<char>,
        details: Option<Seq<DetailFieldView>>,
        now: i64,
    ) -> ChangeQueueLogView {
        ChangeQueueLogView {
            id: (self.last_log_id + 1) as i64,
            queue_id,
            task_id,
            level,
            message,
            details,
            created_at: now,
        }
    }

    /// What `log_event` returns: the store's refusal where no event id is left.
    pub open spec fn logged(self) -> Result<(), QueueError> {
        if self.last_log_id < i64::MAX {
            Ok(())
        } else {
            Err(QueueError::Store)
        }
    }

    /// The store after `log_event`: one more event at the end of the journal.
    pub open spec fn after_log_event(
        self,
        queue_id: i64,
        task_id: Seq<char>,
        level: Seq<char>,
        message: Seq<char>,
        details: Option<Seq<DetailFieldView>>,
        now: i64,
    ) -> QueueView {
        if self.logged().is_ok() {
            QueueView {
                logs: self.logs.push(
                    self.fresh_log(queue_id, task_id, level, message, details, now),
                ),
                last_log_id: (self.last_log_id + 1) as i64,
                ..self
            }
        } else {
            self
        }
    }

    /// The record that `record_file_event` writes.
    pub open spec fn fresh_file_event(
        self,
        path: Seq<char>,
        event: Seq<char>,
        source: Seq<char>,
        details: Option<Seq<DetailFieldView>>,
        now: i64,
    ) -> FileModificationView {
        FileModificationView {
            id: (self.last_file_event_id + 1) as i64,
            path,
            event,
            source,
            details,
            created_at: now,
        }
    }

    /// What `record_file_event` returns: the store's refusal where no id is left.
    pub open spec fn file_event_recorded(self) -> Result<(), QueueError> {
        if self.last_file_event_id < i64::MAX {
            Ok(())
        } else {
            Err(QueueError::Store)
        }
    }

    /// The store after `record_file_event`.
    pub open spec fn after_record_file_event(
        self,
        path: Seq<char>,
        event: Seq<char>,
        source: Seq<char>,
        details: Option<Seq<DetailFieldView>>,
        now: i64,
    ) -> QueueView {
        if self.file_event_recorded().is_ok() {
            QueueView {
                file_events: self.file_events.push(
                    self.fresh_file_event(path, event, source, details, now),
                ),
                last_file_event_id: (self.last_file_event_id + 1) as i64,
                ..self
            }
        } else {
            self
        }
    }

    // ---- cleanup

    /// The entries that a cleanup with the given threshold leaves: all but the
    /// terminal ones that were last touched before it.
    pub open spec fn kept_entries(self, threshold: int) -> Seq<EntryView> {
        entries_without(self.entries, threshold, true)
    }

    /// The details of the event that a cleanup writes: how many entries it removed and
    /// the age it was given.
    pub open spec fn cleanup_details(removed: nat, ttl_secs: i64) -> Seq<DetailFieldView> {
        seq![
            DetailFieldView { key: "removed"@, value: DetailValueView::Count(removed as u64) },
            DetailFieldView { key: "ttl_seconds"@, value: DetailValueView::Int(ttl_secs) },
        ]
    }

    /// How many entries a cleanup removes.
    pub open spec fn stale_count(self, ttl_secs: i64, now: i64) -> nat {
        (self.entries.len() - self.kept_entries(now - ttl_secs).len()) as nat
    }

    /// What `cleanup_stale_records` returns: the number of entries removed, or the
    /// store's refusal where its event cannot be written.
    pub open spec fn cleaned(self, ttl_secs: i64, now: i64) -> Result<usize, QueueError> {
        if self.logged().is_ok() {
            Ok(self.stale_count(ttl_secs, now) as usize)
        } else {
            Err(QueueError::Store)
        }
    }

    /// The store after `cleanup_stale_records`: the stale entries are gone and one
    /// event tells of it.
    pub open spec fn after_cleanup(self, ttl_secs: i64, now: i64) -> QueueView {
        if self.logged().is_ok() {
            QueueView {
                entries: self.kept_entries(now - ttl_secs),
                ..self.after_log_event(
                    0,
                    "cleanup"@,
                    "info"@,
                    "cleanup"@,
                    Some(Self::cleanup_details(self.stale_count(ttl_secs, now), ttl_secs)),
                    now,
                )
            }
        } else {
            self
        }
    }

    /// The store after `purge_applied`: the applied entries older than the age given
    /// are gone.
    pub open spec fn after_purge_applied(self, ttl_secs: i64, now: i64) -> QueueView {
        QueueView { entries: entries_without(self.entries, now - ttl_secs, false), ..self }
    }

    /// How many applied entries are older than the age given.
    pub open spec fn applied_older_than(self, ttl_secs: i64, now: i64) -> nat {
        (self.entries.len() - entries_without(self.entries, now - ttl_secs, false).len()) as nat
    }

    /// The store after `purge_dead_letters`: the dead letters older than the age given
    /// are gone.
    pub open spec fn after_purge_dead_letters(self, ttl_secs: i64, now: i64) -> QueueView {
        QueueView { dead_letters: letters_since(self.dead_letters, now - ttl_secs), ..self }
    }

    /// How many dead letters are older than the age given.
    pub open spec fn dead_letters_older_than(self, ttl_secs: i64, now: i64) -> nat {
        (self.dead_letters.len() - letters_since(self.dead_letters, now - ttl_secs).len()) as nat
    }

    // ---- sessions

    /// The session at `at` is the one with the given resume id.
    pub open spec fn is_session(self, resume_id: Seq<char>, at: int) -> bool {
        &&& 0 <= at < self.sessions.len()
        &&& self.sessions[at].resume_id == resume_id
        &&& forall|k: int| 0 <= k < at ==> (#[trigger] self.sessions[k]).resume_id != resume_id
    }

    /// Where the session with the given resume id stands, if there is one.
    pub open spec fn session_position(self, resume_id: Seq<char>) -> Option<int> {
        if exists|at: int| self.is_session(resume_id, at) {
            Some(choose|at: int| self.is_session(resume_id, at))
        } else {
            None
        }
    }

    /// The session that `upsert_agent_session` leaves under the resume id: the one
    /// that was there, with the model, the permission and the time of use renewed; or
    /// a new one.
    pub open spec fn upserted_session(
        self,
        resume_id: Seq<char>,
        model: Seq<char>,
        allow_all_tools: bool,
        now: i64,
    ) -> AgentSessionView {
        match self.session_position(resume_id) {
            Some(at) => AgentSessionView {
                model,
                allow_all_tools,
                last_used: now,
                ..self.sessions[at]
            },
            None => AgentSessionView {
                id: (self.last_session_id + 1) as i64,
                resume_id,
                model,
                allow_all_tools,
                created_at: now,
                last_used: now,
            },
        }
    }

    /// What `upsert_agent_session` returns: the session, or the store's refusal where a
    /// new one is needed and no id is left.
    pub open spec fn upserted(
        self,
        resume_id: Seq<char>,
        model: Seq<char>,
        allow_all_tools: bool,
        now: i64,
    ) -> Result<AgentSessionView, QueueError> {
        if self.session_position(resume_id).is_none() && self.last_session_id == i64::MAX {
            Err(QueueError::Store)
        } else {
            Ok(self.upserted_session(resume_id, model, allow_all_tools, now))
        }
    }

    /// The store after `upsert_agent_session`.
    pub open spec fn after_upsert(
        self,
        resume_id: Seq<char>,
        model: Seq<char>,
        allow_all_tools: bool,
        now: i64,
    ) -> QueueView {
        let session = self.upserted_session(resume_id, model, allow_all_tools, now);
        match self.session_position(resume_id) {
            Some(at) => QueueView { sessions: self.sessions.update(at, session), ..self },
            None => if self.last_session_id == i64::MAX {
                self
            } else {
                QueueView {
                    sessions: self.sessions.push(session),
                    last_session_id: (self.last_session_id + 1) as i64,
                    ..self
                }
            },
        }
    }

    /// The session at `at` is the first with the given id.
    pub open spec fn is_session_with_id(self, id: i64, at: int) -> bool {
        &&& 0 <= at < self.sessions.len()
        &&& self.sessions[at].id == id
        &&& forall|k: int| 0 <= k < at ==> (#[trigger] self.sessions[k]).id != id
    }

    /// The store after `touch_agent_session`: the session with the given id was last
    /// used at `now`; where there is none, nothing changes.
    pub open spec fn after_touch(self, id: i64, now: i64) -> QueueView {
        if exists|at: int| self.is_session_with_id(id, at) {
            let at = choose|at: int| self.is_session_with_id(id, at);
            QueueView {
                sessions: self.sessions.update(
                    at,
                    AgentSessionView { last_used: now, ..self.sessions[at] },
                ),
                ..self
            }
        } else {
            self
        }
    }

    // ---- reading

    /// What `list` returns: the entries with the given status in the order of their
    /// ids; or the fault of a payload among them that cannot be read.
    pub open spec fn listed(self, status: QueueStatus) -> Result<Seq<QueueRecordView>, QueueError> {
        if exists|i: int|
            0 <= i < self.entries.len() && (#[trigger] self.entries[i]).status == status
                && self.entries[i].payload.is_none() {
            Err(QueueError::CorruptPayload)
        } else {
            Ok(records_of(with_status(self.entries, status)))
        }
    }

    /// How many entries `recent_records` looks at.
    pub open spec fn recent_len(self, limit: nat) -> nat {
        if limit < self.entries.len() {
            limit
        } else {
            self.entries.len()
        }
    }

    /// The `limit` entries with the highest ids, the highest first.
    pub open spec fn latest_entries(self, limit: nat) -> Seq<EntryView> {
        Seq::new(self.recent_len(limit), |k: int| self.entries[self.entries.len() - 1 - k])
    }

    /// What `recent_records` returns: the `limit` entries with the highest ids, the
    /// highest first; or the fault of a payload among them that cannot be read.
    pub open spec fn recent(self, limit: nat) -> Result<Seq<QueueRecordView>, QueueError> {
        if exists|k: int|
            0 <= k < self.recent_len(limit) && (#[trigger] self.entries[self.entries.len() - 1
                - k]).payload.is_none() {
            Err(QueueError::CorruptPayload)
        } else {
            Ok(records_of(self.latest_entries(limit)))
        }
    }

    /// The times at which the events of the journal were written, event by event.
    pub open spec fn log_times(self) -> Seq<i64> {
        self.logs.map_values(|l: ChangeQueueLogView| l.created_at)
    }

    /// What `recent_logs` returns: the `limit` newest events, the newest first.
    pub open spec fn newest_logs(self, limit: nat) -> Seq<ChangeQueueLogView> {
        newest(self.logs, self.log_times(), limit)
    }

    /// The times at which the changes to files were written down, record by record.
    pub open spec fn file_event_times(self) -> Seq<i64> {
        self.file_events.map_values(|f: FileModificationView| f.created_at)
    }

    /// What `recent_file_events` returns: the `limit` newest records, the newest first.
    pub open spec fn newest_file_events(self, limit: nat) -> Seq<FileModificationView> {
        newest(self.file_events, self.file_event_times(), limit)
    }

    /// The times at which the dead letters were written, letter by letter.
    pub open spec fn dead_letter_times(self) -> Seq<i64> {
        self.dead_letters.map_values(|d: DeadLetterView| d.failed_at)
    }

    /// What `list_dead_letters` returns: all dead letters, the newest first; or the
    /// fault of a payload among them that cannot be read.
    pub open spec fn dead_letters_listed(self) -> Result<Seq<DeadLetterRecordView>, QueueError> {
        if exists|i: int|
            0 <= i < self.dead_letters.len() && (#[trigger] self.dead_letters[i]).payload.is_none() {
            Err(QueueError::CorruptPayload)
        } else {
            Ok(
                newest(
                    self.dead_letters,
                    self.dead_letter_times(),
                    self.dead_letters.len(),
                ).map_values(|d: DeadLetterView| d.record()),
            )
        }
    }

    /// The times at which the sessions were made, session by session.
    pub open spec fn session_creation_times(self) -> Seq<i64> {
        self.sessions.map_values(|s: AgentSessionView| s.created_at)
    }

    /// The times at which the sessions were last used, session by session.
    pub open spec fn session_use_times(self) -> Seq<i64> {
        self.sessions.map_values(|s: AgentSessionView| s.last_used)
    }

    /// What `list_agent_sessions` returns: all sessions, the one made last first.
    pub open spec fn sessions_listed(self) -> Seq<AgentSessionView> {
        newest(self.sessions, self.session_creation_times(), self.sessions.len())
    }

    /// What `latest_agent_session` returns: the session that was used last.
    pub open spec fn latest_session(self) -> Option<AgentSessionView> {
        if self.sessions.len() == 0 {
            None
        } else {
            Some(newest(self.sessions, self.session_use_times(), 1)[0])
        }
    }

    /// How many entries stand in each status.
    pub open spec fn status_counts(self) -> StatusCounts {
        StatusCounts {
            pending: with_status(self.entries, QueueStatus::Pending).len() as usize,
            in_progress: with_status(self.entries, QueueStatus::InProgress).len() as usize,
            applied: with_status(self.entries, QueueStatus::Applied).len() as usize,
            failed: with_status(self.entries, QueueStatus::Failed).len() as usize,
        }
    }

    // ---- diagnostics

    /// How many events with the given message were written at `since` or later.
    pub open spec fn event_count_since(self, message: Seq<char>, since: i64) -> nat {
        events_since(self.logs, message, since as int).len()
    }

    /// The times at which the events with the given message were written.
    pub open spec fn event_times(self, message: Seq<char>) -> Seq<i64> {
        events_since(self.logs, message, i64::MIN as int).map_values(
            |l: ChangeQueueLogView| l.created_at,
        )
    }

    /// When the entries were last touched, entry by entry.
    pub open spec fn update_times(self) -> Seq<i64> {
        self.entries.map_values(|e: EntryView| e.updated_at)
    }
}

} // verus!
