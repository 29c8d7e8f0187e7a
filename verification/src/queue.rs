use vstd::prelude::*;
use crate::journal::{
    details_view, fields_view, file_events_view, logs_view, ChangeQueueLog, DetailField,
    DetailValue, FileModification,
};
use crate::metrics::{tally_events, window_of, window_start, QueueMetrics, Tally};
use crate::models::{
    AgentSession, AgentSessionView, ChangeRequest, DeadLetterRecord, DeadLetterRecordView,
    QueueRecord, QueueRecordView, QueueStatus, StatusCounts,
};
use crate::journal::ChangeQueueLogView;
use crate::order::{greatest, greatest_of, newest_first, picked, places};
use crate::schema::{check_schema, schema_fault, SchemaListing};
use crate::store::{
    clone_payload, entries_without, events_since, lemma_entries_without_push,
    lemma_events_since_len, lemma_events_since_push, lemma_letters_since_push,
    is_entry_position, lemma_with_status_push, letters_since, records_of, with_status,
    DeadLetterRow,
    DeadLetterView, EntryView, QueueError, QueueRow, QueueView,
};
use crate::text::{clone_opt_string, opt_string_view, text_eq};

verus! {

/// The views of a sequence of rows, one for one.
pub open spec fn rows_view(v: Seq<QueueRow>) -> Seq<EntryView> {
    v.map_values(|r: QueueRow| r@)
}

/// The views of a sequence of dead letters, one for one.
pub open spec fn dead_rows_view(v: Seq<DeadLetterRow>) -> Seq<DeadLetterView> {
    v.map_values(|r: DeadLetterRow| r@)
}

/// The views of a sequence of records, one for one.
pub open spec fn records_view(v: Seq<QueueRecord>) -> Seq<QueueRecordView> {
    v.map_values(|r: QueueRecord| r@)
}

/// The views of a sequence of dead letters as they are handed out, one for one.
pub open spec fn dead_records_view(v: Seq<DeadLetterRecord>) -> Seq<DeadLetterRecordView> {
    v.map_values(|r: DeadLetterRecord| r@)
}

/// The views of a sequence of sessions, one for one.
pub open spec fn sessions_view(v: Seq<AgentSession>) -> Seq<AgentSessionView> {
    v.map_values(|s: AgentSession| s@)
}

/// What a listing of entries returned, with the records by their views.
pub open spec fn records_result_view(result: Result<Vec<QueueRecord>, QueueError>) -> Result<
    Seq<QueueRecordView>,
    QueueError,
> {
    match result {
        Ok(records) => Ok(records_view(records@)),
        Err(e) => Err(e),
    }
}

/// What a listing of dead letters returned, with the records by their views.
pub open spec fn dead_result_view(result: Result<Vec<DeadLetterRecord>, QueueError>) -> Result<
    Seq<DeadLetterRecordView>,
    QueueError,
> {
    match result {
        Ok(records) => Ok(dead_records_view(records@)),
        Err(e) => Err(e),
    }
}

/// What an operation on a session returned, with the session by its view.
pub open spec fn session_result_view(result: Result<AgentSession, QueueError>) -> Result<
    AgentSessionView,
    QueueError,
> {
    match result {
        Ok(session) => Ok(session@),
        Err(e) => Err(e),
    }
}

/// The view of a session that may be absent.
pub open spec fn session_option_view(session: Option<AgentSession>) -> Option<AgentSessionView> {
    match session {
        Some(s) => Some(s@),
        None => None,
    }
}

/// No entry of an empty table has a given status.
proof fn lemma_with_status_empty(status: QueueStatus)
    ensures
        with_status(Seq::empty(), status) == Seq::<EntryView>::empty(),
{
    Seq::<EntryView>::empty().lemma_filter_len(|e: EntryView| e.status == status);
    assert(with_status(Seq::empty(), status) =~= Seq::<EntryView>::empty());
}

/// The row as the queue hands it out, if its payload can be read.
fn record_of(row: &QueueRow) -> (out: Option<QueueRecord>)
    ensures
        match out {
            Some(record) => row@.payload.is_some() && record@ == row@.record(),
            None => row@.payload.is_none(),
        },
{
    match &row.payload {
        Some(request) => Some(
            QueueRecord {
                id: row.id,
                status: row.status,
                payload: request.clone(),
                attempts: row.attempts,
                last_error: clone_opt_string(&row.last_error),
                leased_until: row.leased_until,
                lease_owner: clone_opt_string(&row.lease_owner),
                created_at: row.created_at,
                updated_at: row.updated_at,
            },
        ),
        None => None,
    }
}

/// What a claim returned, with the record by its view.
pub open spec fn claim_view(result: Result<Option<QueueRecord>, QueueError>) -> Result<
    Option<QueueRecordView>,
    QueueError,
> {
    match result {
        Ok(Some(record)) => Ok(Some(record@)),
        Ok(None) => Ok(None),
        Err(e) => Err(e),
    }
}

/// The five tables of a store as they are read from its file or written to it, and for
/// each the last id that the file ever gave out.
#[derive(Debug)]
pub struct StoreTables {
    pub entries: Vec<QueueRow>,
    pub last_entry_id: i64,
    pub dead_letters: Vec<DeadLetterRow>,
    pub last_dead_letter_id: i64,
    pub logs: Vec<ChangeQueueLog>,
    pub last_log_id: i64,
    pub file_events: Vec<FileModification>,
    pub last_file_event_id: i64,
    pub sessions: Vec<AgentSession>,
    pub last_session_id: i64,
}

impl View for StoreTables {
    type V = QueueView;

    open spec fn view(&self) -> QueueView {
        QueueView {
            entries: rows_view(self.entries@),
            last_entry_id: self.last_entry_id,
            dead_letters: dead_rows_view(self.dead_letters@),
            last_dead_letter_id: self.last_dead_letter_id,
            logs: logs_view(self.logs@),
            last_log_id: self.last_log_id,
            file_events: file_events_view(self.file_events@),
            last_file_event_id: self.last_file_event_id,
            sessions: sessions_view(self.sessions@),
            last_session_id: self.last_session_id,
        }
    }
}

/// Ids that rise from one row to the next, all above zero and none above `last`.
pub open spec fn ids_ascending(ids: Seq<i64>, last: i64) -> bool {
    &&& forall|i: int| 0 <= i < ids.len() ==> 0 < #[trigger] ids[i] <= last
    &&& forall|i: int, j: int| 0 <= i < j < ids.len() ==> #[trigger] ids[i] < #[trigger] ids[j]
}

/// Whether the ids rise from one row to the next, all above zero and none above
/// `last`.
fn check_ids(ids: &Vec<i64>, last: i64) -> (ok: bool)
    ensures
        ok == ids_ascending(ids@, last),
{
    let mut i: usize = 0;
    while i < ids.len()
        invariant
            i <= ids.len(),
            forall|k: int| 0 <= k < i ==> 0 < #[trigger] ids@[k] <= last,
            forall|k: int, l: int| 0 <= k < l < i ==> #[trigger] ids@[k] < #[trigger] ids@[l],
        decreases ids.len() - i,
    {
        if ids[i] <= 0 || ids[i] > last {
            return false;
        }
        if i > 0 && ids[i - 1] >= ids[i] {
            assert(!(ids@[i - 1] < ids@[i as int]));
            return false;
        }
        proof {
            assert forall|k: int, l: int| 0 <= k < l < i + 1 implies #[trigger] ids@[k]
                < #[trigger] ids@[l] by {
                if l == i && k < i - 1 {
                    assert(ids@[k] < ids@[i - 1]);
                }
            }
        }
        i = i + 1;
    }
    true
}

impl StoreTables {
    /// Whether the entries are in order.
    fn entries_in_order(&self) -> (ok: bool)
        ensures
            ok == self@.entries_wf(),
    {
        let mut ids: Vec<i64> = Vec::new();
        let mut i: usize = 0;
        while i < self.entries.len()
            invariant
                i <= self.entries.len(),
                ids@.len() == i,
                forall|k: int| 0 <= k < i ==> #[trigger] ids@[k] == self@.entries[k].id,
                forall|k: int| 0 <= k < i ==> (#[trigger] self@.entries[k]).wf(),
            decreases self.entries.len() - i,
        {
            let row = &self.entries[i];
            proof {
                assert(self@.entries[i as int] == row@);
            }
            let in_progress = match row.status {
                QueueStatus::InProgress => true,
                _ => false,
            };
            if row.id <= 0 || row.attempts < 0 || in_progress != row.leased_until.is_some()
                || in_progress != row.lease_owner.is_some() {
                assert(!self@.entries[i as int].wf());
                return false;
            }
            ids.push(row.id);
            i = i + 1;
        }
        let ok = check_ids(&ids, self.last_entry_id);
        proof {
            if ok {
                assert forall|a: int, b: int| 0 <= a < b < self@.entries.len() implies (
                #[trigger] self@.entries[a]).id < (#[trigger] self@.entries[b]).id by {
                    assert(ids@[a] < ids@[b]);
                }
                assert forall|a: int| 0 <= a < self@.entries.len() implies (
                #[trigger] self@.entries[a]).wf() && self@.entries[a].id
                    <= self@.last_entry_id by {
                    assert(0 < ids@[a] <= self.last_entry_id);
                }
            } else {
                if self@.entries_wf() {
                    assert forall|a: int| 0 <= a < ids@.len() implies 0 < #[trigger] ids@[a]
                        <= self.last_entry_id by {
                        assert(self@.entries[a].wf());
                    }
                    assert forall|a: int, b: int| 0 <= a < b < ids@.len() implies #[trigger] ids@[a]
                        < #[trigger] ids@[b] by {
                        assert(self@.entries[a].id < self@.entries[b].id);
                    }
                }
            }
        }
        ok
    }

    /// Whether the dead letters are in order.
    fn dead_letters_in_order(&self) -> (ok: bool)
        ensures
            ok == self@.dead_letters_wf(),
    {
        let mut ids: Vec<i64> = Vec::new();
        let mut i: usize = 0;
        while i < self.dead_letters.len()
            invariant
                i <= self.dead_letters.len(),
                ids@.len() == i,
                forall|k: int| 0 <= k < i ==> #[trigger] ids@[k] == self@.dead_letters[k].id,
            decreases self.dead_letters.len() - i,
        {
            proof {
                assert(self@.dead_letters[i as int] == self.dead_letters@[i as int]@);
            }
            ids.push(self.dead_letters[i].id);
            i = i + 1;
        }
        let ok = check_ids(&ids, self.last_dead_letter_id);
        proof {
            if ok {
                assert forall|a: int, b: int| 0 <= a < b < self@.dead_letters.len() implies (
                #[trigger] self@.dead_letters[a]).id < (#[trigger] self@.dead_letters[b]).id by {
                    assert(ids@[a] < ids@[b]);
                }
                assert forall|a: int| 0 <= a < self@.dead_letters.len() implies 0 < (
                #[trigger] self@.dead_letters[a]).id <= self@.last_dead_letter_id by {
                    assert(0 < ids@[a] <= self.last_dead_letter_id);
                }
            } else {
                if self@.dead_letters_wf() {
                    assert forall|a: int| 0 <= a < ids@.len() implies 0 < #[trigger] ids@[a]
                        <= self.last_dead_letter_id by {
                        assert(0 < self@.dead_letters[a].id);
                    }
                    assert forall|a: int, b: int| 0 <= a < b < ids@.len() implies #[trigger] ids@[a]
                        < #[trigger] ids@[b] by {
                        assert(self@.dead_letters[a].id < self@.dead_letters[b].id);
                    }
                }
            }
        }
        ok
    }

    /// Whether the journal is in order.
    fn logs_in_order(&self) -> (ok: bool)
        ensures
            ok == self@.logs_wf(),
    {
        let mut ids: Vec<i64> = Vec::new();
        let mut i: usize = 0;
        while i < self.logs.len()
            invariant
                i <= self.logs.len(),
                ids@.len() == i,
                forall|k: int| 0 <= k < i ==> #[trigger] ids@[k] == self@.logs[k].id,
            decreases self.logs.len() - i,
        {
            proof {
                assert(self@.logs[i as int] == self.logs@[i as int]@);
            }
            ids.push(self.logs[i].id);
            i = i + 1;
        }
        let ok = check_ids(&ids, self.last_log_id);
        proof {
            if ok {
                assert forall|a: int, b: int| 0 <= a < b < self@.logs.len() implies (
                #[trigger] self@.logs[a]).id < (#[trigger] self@.logs[b]).id by {
                    assert(ids@[a] < ids@[b]);
                }
                assert forall|a: int| 0 <= a < self@.logs.len() implies 0 < (
                #[trigger] self@.logs[a]).id <= self@.last_log_id by {
                    assert(0 < ids@[a] <= self.last_log_id);
                }
            } else {
                if self@.logs_wf() {
                    assert forall|a: int| 0 <= a < ids@.len() implies 0 < #[trigger] ids@[a]
                        <= self.last_log_id by {
                        assert(0 < self@.logs[a].id);
                    }
                    assert forall|a: int, b: int| 0 <= a < b < ids@.len() implies #[trigger] ids@[a]
                        < #[trigger] ids@[b] by {
                        assert(self@.logs[a].id < self@.logs[b].id);
                    }
                }
            }
        }
        ok
    }

    /// Whether the records of changes to files are in order.
    fn file_events_in_order(&self) -> (ok: bool)
        ensures
            ok == self@.file_events_wf(),
    {
        let mut ids: Vec<i64> = Vec::new();
        let mut i: usize = 0;
        while i < self.file_events.len()
            invariant
                i <= self.file_events.len(),
                ids@.len() == i,
                forall|k: int| 0 <= k < i ==> #[trigger] ids@[k] == self@.file_events[k].id,
            decreases self.file_events.len() - i,
        {
            proof {
                assert(self@.file_events[i as int] == self.file_events@[i as int]@);
            }
            ids.push(self.file_events[i].id);
            i = i + 1;
        }
        let ok = check_ids(&ids, self.last_file_event_id);
        proof {
            if ok {
                assert forall|a: int, b: int| 0 <= a < b < self@.file_events.len() implies (
                #[trigger] self@.file_events[a]).id < (#[trigger] self@.file_events[b]).id by {
                    assert(ids@[a] < ids@[b]);
                }
                assert forall|a: int| 0 <= a < self@.file_events.len() implies 0 < (
                #[trigger] self@.file_events[a]).id <= self@.last_file_event_id by {
                    assert(0 < ids@[a] <= self.last_file_event_id);
                }
            } else {
                if self@.file_events_wf() {
                    assert forall|a: int| 0 <= a < ids@.len() implies 0 < #[trigger] ids@[a]
                        <= self.last_file_event_id by {
                        assert(0 < self@.file_events[a].id);
                    }
                    assert forall|a: int, b: int| 0 <= a < b < ids@.len() implies #[trigger] ids@[a]
                        < #[trigger] ids@[b] by {
                        assert(self@.file_events[a].id < self@.file_events[b].id);
                    }
                }
            }
        }
        ok
    }

    /// Whether the sessions are in order.
    fn sessions_in_order(&self) -> (ok: bool)
        ensures
            ok == self@.sessions_wf(),
    {
        let mut ids: Vec<i64> = Vec::new();
        let mut i: usize = 0;
        while i < self.sessions.len()
            invariant
                i <= self.sessions.len(),
                ids@.len() == i,
                forall|k: int| 0 <= k < i ==> #[trigger] ids@[k] == self@.sessions[k].id,
                forall|k: int, l: int|
                    0 <= k < l < i ==> (#[trigger] self@.sessions[k]).resume_id != (
                    #[trigger] self@.sessions[l]).resume_id,
            decreases self.sessions.len() - i,
        {
            proof {
                assert(self@.sessions[i as int] == self.sessions@[i as int]@);
            }
            let mut k: usize = 0;
            while k < i
                invariant
                    k <= i,
                    i < self.sessions.len(),
                    forall|j: int|
                        0 <= j < k ==> (#[trigger] self@.sessions[j]).resume_id
                            != self@.sessions[i as int].resume_id,
                decreases i - k,
            {
                proof {
                    assert(self@.sessions[k as int] == self.sessions@[k as int]@);
                    assert(self@.sessions[i as int] == self.sessions@[i as int]@);
                }
                if text_eq(self.sessions[k].resume_id.as_str(), self.sessions[i].resume_id.as_str()) {
                    return false;
                }
                k = k + 1;
            }
            ids.push(self.sessions[i].id);
            i = i + 1;
        }
        let ok = check_ids(&ids, self.last_session_id);
        proof {
            if ok {
                assert forall|a: int, b: int| 0 <= a < b < self@.sessions.len() implies (
                #[trigger] self@.sessions[a]).id < (#[trigger] self@.sessions[b]).id by {
                    assert(ids@[a] < ids@[b]);
                }
                assert forall|a: int| 0 <= a < self@.sessions.len() implies 0 < (
                #[trigger] self@.sessions[a]).id <= self@.last_session_id by {
                    assert(0 < ids@[a] <= self.last_session_id);
                }
            } else {
                if self@.sessions_wf() {
                    assert forall|a: int| 0 <= a < ids@.len() implies 0 < #[trigger] ids@[a]
                        <= self.last_session_id by {
                        assert(0 < self@.sessions[a].id);
                    }
                    assert forall|a: int, b: int| 0 <= a < b < ids@.len() implies #[trigger] ids@[a]
                        < #[trigger] ids@[b] by {
                        assert(self@.sessions[a].id < self@.sessions[b].id);
                    }
                }
            }
        }
        ok
    }

    /// Whether the tables are a store in order: in each table the ids rise from row to
    /// row and none is above the last one given out; an entry has a lease and an
    /// owner exactly while it is in progress; no two sessions share a resume id.
    pub fn in_order(&self) -> (ok: bool)
        ensures
            ok == self@.wf(),
    {
        self.last_entry_id >= 0 && self.last_dead_letter_id >= 0 && self.last_log_id >= 0
            && self.last_file_event_id >= 0 && self.last_session_id >= 0
            && self.entries_in_order() && self.dead_letters_in_order() && self.logs_in_order()
            && self.file_events_in_order() && self.sessions_in_order()
    }
}

/// The queue: what the SQLite file holds, as a value. Every operation takes the time
/// as an argument and changes this value alone; reading the file into it and writing
/// it back, inside one transaction, is the caller's part.
pub struct SqliteQueue {
    path: String,
    entries: Vec<QueueRow>,
    last_entry_id: i64,
    dead_letters: Vec<DeadLetterRow>,
    last_dead_letter_id: i64,
    logs: Vec<ChangeQueueLog>,
    last_log_id: i64,
    file_events: Vec<FileModification>,
    last_file_event_id: i64,
    sessions: Vec<AgentSession>,
    last_session_id: i64,
}

impl View for SqliteQueue {
    type V = QueueView;

    closed spec fn view(&self) -> QueueView {
        QueueView {
            entries: rows_view(self.entries@),
            last_entry_id: self.last_entry_id,
            dead_letters: dead_rows_view(self.dead_letters@),
            last_dead_letter_id: self.last_dead_letter_id,
            logs: logs_view(self.logs@),
            last_log_id: self.last_log_id,
            file_events: file_events_view(self.file_events@),
            last_file_event_id: self.last_file_event_id,
            sessions: sessions_view(self.sessions@),
            last_session_id: self.last_session_id,
        }
    }
}

impl SqliteQueue {
    /// The path of the file that the queue is kept in.
    pub closed spec fn file(&self) -> Seq<char> {
        self.path@
    }

    /// The path of the file that the queue is kept in.
    pub fn path(&self) -> (path: &str)
        ensures
            path@ == self.file(),
    {
        self.path.as_str()
    }

    /// A queue on a file that holds nothing yet: all tables are empty and no id was
    /// given out.
    pub fn open(path: &str) -> (queue: SqliteQueue)
        ensures
            queue@ == QueueView::empty(),
            queue@.wf(),
            queue.file() == path@,
    {
        let queue = SqliteQueue {
            path: path.to_owned(),
            entries: Vec::new(),
            last_entry_id: 0,
            dead_letters: Vec::new(),
            last_dead_letter_id: 0,
            logs: Vec::new(),
            last_log_id: 0,
            file_events: Vec::new(),
            last_file_event_id: 0,
            sessions: Vec::new(),
            last_session_id: 0,
        };
        proof {
            assert(queue@.entries =~= Seq::empty());
            assert(queue@.dead_letters =~= Seq::empty());
            assert(queue@.logs =~= Seq::empty());
            assert(queue@.file_events =~= Seq::empty());
            assert(queue@.sessions =~= Seq::empty());
        }
        queue
    }

    /// Where the first entry with the given id stands.
    fn find(&self, id: i64) -> (found: Option<usize>)
        ensures
            match found {
                Some(at) => self@.position(id) == Some(at as int) && at < self.entries.len(),
                None => self@.position(id).is_none(),
            },
    {
        let mut at: usize = 0;
        while at < self.entries.len()
            invariant
                at <= self.entries.len(),
                forall|k: int| 0 <= k < at ==> (#[trigger] self@.entries[k]).id != id,
            decreases self.entries.len() - at,
        {
            proof {
                assert(self@.entries[at as int] == self.entries@[at as int]@);
            }
            if self.entries[at].id == id {
                proof {
                    assert(self@.is_position(id, at as int));
                    let chosen = choose|c: int| is_entry_position(self@.entries, id, c);
                    assert(chosen == at) by {
                        if chosen < at {
                            assert(self@.entries[chosen].id != id);
                        }
                        if chosen > at {
                            assert(self@.entries[at as int].id != id);
                        }
                    }
                }
                return Some(at);
            }
            at = at + 1;
        }
        proof {
            assert forall|c: int| !self@.is_position(id, c) by {
                if 0 <= c < self@.entries.len() {
                    assert(self@.entries[c].id != id);
                }
            }
        }
        None
    }

    /// Takes a request into the queue as a pending entry that was never claimed, under
    /// the next id. Fails, and changes nothing, only where the store has no id left.
    pub fn enqueue(&mut self, request: &ChangeRequest, now: i64) -> (result: Result<i64, QueueError>)
        ensures
            result == old(self)@.enqueued(),
            final(self)@ == old(self)@.after_enqueue(request@, now),
            final(self).file() == old(self).file(),
    {
        if self.last_entry_id == i64::MAX {
            return Err(QueueError::Store);
        }
        let id: i64 = self.last_entry_id + 1;
        let row = QueueRow {
            id,
            status: QueueStatus::Pending,
            payload: Some(request.clone()),
            attempts: 0,
            last_error: None,
            leased_until: None,
            lease_owner: None,
            created_at: now,
            updated_at: now,
        };
        proof {
            assert(row@ == old(self)@.fresh_entry(request@, now));
        }
        self.entries.push(row);
        self.last_entry_id = id;
        proof {
            assert(self@.entries =~= old(self)@.entries.push(old(self)@.fresh_entry(request@, now)));
        }
        Ok(id)
    }

    /// Where the oldest entry stands that may be claimed at `now`.
    fn find_claim(&self, now: i64) -> (found: Option<usize>)
        ensures
            match found {
                Some(at) => self@.claim_position(now) == Some(at as int) && at
                    < self.entries.len(),
                None => self@.claim_position(now).is_none(),
            },
    {
        let mut at: usize = 0;
        while at < self.entries.len()
            invariant
                at <= self.entries.len(),
                forall|k: int| 0 <= k < at ==> !(#[trigger] self@.entries[k]).eligible(now),
            decreases self.entries.len() - at,
        {
            proof {
                assert(self@.entries[at as int] == self.entries@[at as int]@);
            }
            let row = &self.entries[at];
            let eligible = match row.status {
                QueueStatus::Pending => true,
                QueueStatus::InProgress => match row.leased_until {
                    Some(until) => until < now,
                    None => false,
                },
                _ => false,
            };
            if eligible {
                proof {
                    assert(self@.first_eligible(now, at as int));
                    let chosen = choose|c: int| self@.first_eligible(now, c);
                    assert(chosen == at) by {
                        if chosen < at {
                            assert(!self@.entries[chosen].eligible(now));
                        }
                        if chosen > at {
                            assert(!self@.entries[at as int].eligible(now));
                        }
                    }
                }
                return Some(at);
            }
            at = at + 1;
        }
        proof {
            assert forall|c: int| !self@.first_eligible(now, c) by {
                if 0 <= c < self@.entries.len() {
                    assert(!self@.entries[c].eligible(now));
                }
            }
        }
        None
    }

    /// Puts `row` in the place of the entry at `at`.
    fn replace_entry(&mut self, at: usize, row: QueueRow)
        requires
            at < old(self)@.entries.len(),
        ensures
            final(self)@ == (QueueView {
                entries: old(self)@.entries.update(at as int, row@),
                ..old(self)@
            }),
            final(self).file() == old(self).file(),
    {
        self.entries.set(at, row);
        proof {
            assert(self@.entries =~= old(self)@.entries.update(at as int, row@));
        }
    }

    /// Claims the oldest entry that is pending, or in progress under a lease that ran
    /// out before `now`, for `lease_owner`: the entry is then in progress, was claimed
    /// once more, and is leased until `now + lease_seconds`. Returns the entry as it
    /// stands after the claim, or nothing where no entry can be claimed. Where the
    /// payload of that entry cannot be read, or its count of claims is at its end, the
    /// claim fails and nothing changes.
    pub fn dequeue(&mut self, now: i64, lease_seconds: u64, lease_owner: &str) -> (result: Result<
        Option<QueueRecord>,
        QueueError,
    >)
        requires
            now + lease_seconds <= i64::MAX,
        ensures
            final(self)@ == old(self)@.after_dequeue(now, lease_seconds, lease_owner@),
            final(self).file() == old(self).file(),
            claim_view(result) == old(self)@.dequeued(now, lease_seconds, lease_owner@),
    {
        let at = match self.find_claim(now) {
            Some(at) => at,
            None => {
                return Ok(None);
            },
        };
        proof {
            assert(self@.entries[at as int] == self.entries@[at as int]@);
        }
        let row = &self.entries[at];
        let payload = match &row.payload {
            Some(request) => request.clone(),
            None => {
                return Err(QueueError::CorruptPayload);
            },
        };
        if row.attempts == i64::MAX {
            return Err(QueueError::Store);
        }
        let until: i64 = if lease_seconds == 0 {
            now
        } else if now >= 0 {
            ((now as u64) + lease_seconds) as i64
        } else if lease_seconds > i64::MAX as u64 {
            ((lease_seconds - ((-(now + 1)) as u64)) - 1) as i64
        } else {
            now + (lease_seconds as i64)
        };
        assert(until == now + lease_seconds);
        let claimed = QueueRow {
            id: row.id,
            status: QueueStatus::InProgress,
            payload: Some(payload),
            attempts: row.attempts + 1,
            last_error: clone_opt_string(&row.last_error),
            leased_until: Some(until),
            lease_owner: Some(lease_owner.to_owned()),
            created_at: row.created_at,
            updated_at: now,
        };
        let record = QueueRecord {
            id: row.id,
            status: QueueStatus::InProgress,
            payload: claimed.payload.as_ref().unwrap().clone(),
            attempts: claimed.attempts,
            last_error: clone_opt_string(&row.last_error),
            leased_until: Some(until),
            lease_owner: Some(lease_owner.to_owned()),
            created_at: row.created_at,
            updated_at: now,
        };
        proof {
            let target = old(self)@.entries[at as int].claimed(now, until, lease_owner@);
            assert(claimed@ == target);
            assert(record@ == target.record());
        }
        self.replace_entry(at, claimed);
        Ok(Some(record))
    }

    /// Marks the entry applied and gives up its lease. An entry that is applied
    /// already stays as it is, and so does the queue where no entry has the id. A
    /// failed entry stays failed, and the call fails.
    pub fn mark_applied(&mut self, id: i64, now: i64) -> (result: Result<(), QueueError>)
        ensures
            result == old(self)@.marked_applied(id),
            final(self)@ == old(self)@.after_mark_applied(id, now),
            final(self).file() == old(self).file(),
    {
        let at = match self.find(id) {
            Some(at) => at,
            None => {
                return Ok(());
            },
        };
        proof {
            assert(self@.entries[at as int] == self.entries@[at as int]@);
        }
        let row = &self.entries[at];
        match row.status {
            QueueStatus::Failed => Err(QueueError::IllegalTransition),
            QueueStatus::Applied => Ok(()),
            _ => {
                let applied = QueueRow {
                    id: row.id,
                    status: QueueStatus::Applied,
                    payload: clone_payload(&row.payload),
                    attempts: row.attempts,
                    last_error: clone_opt_string(&row.last_error),
                    leased_until: None,
                    lease_owner: None,
                    created_at: row.created_at,
                    updated_at: now,
                };
                proof {
                    assert(applied@ == old(self)@.entries[at as int].applied(now));
                }
                self.replace_entry(at, applied);
                Ok(())
            },
        }
    }

    /// Sends the entry back to pending with the error given and gives up its lease.
    /// An entry that is applied or failed stays as it is, and the call fails. Where no
    /// entry has the id, nothing changes.
    pub fn mark_retry(&mut self, id: i64, error: Option<String>, now: i64) -> (result: Result<
        (),
        QueueError,
    >)
        ensures
            result == old(self)@.marked_retry(id),
            final(self)@ == old(self)@.after_mark_retry(id, opt_string_view(error), now),
            final(self).file() == old(self).file(),
    {
        let at = match self.find(id) {
            Some(at) => at,
            None => {
                return Ok(());
            },
        };
        proof {
            assert(self@.entries[at as int] == self.entries@[at as int]@);
        }
        let row = &self.entries[at];
        if row.status.is_terminal() {
            return Err(QueueError::IllegalTransition);
        }
        let released = QueueRow {
            id: row.id,
            status: QueueStatus::Pending,
            payload: clone_payload(&row.payload),
            attempts: row.attempts,
            last_error: error,
            leased_until: None,
            lease_owner: None,
            created_at: row.created_at,
            updated_at: now,
        };
        proof {
            assert(released@ == old(self)@.entries[at as int].released(
                QueueStatus::Pending,
                opt_string_view(error),
                now,
            ));
        }
        self.replace_entry(at, released);
        Ok(())
    }

    /// Marks the entry failed, with the error given, gives up its lease, and writes
    /// its dead letter: both, or neither. An entry that is failed already stays as it
    /// is, and so does the queue where no entry has the id. An applied entry stays
    /// applied, and the call fails; it fails too, and changes nothing, where the
    /// entry's payload cannot be read or no dead letter id is left.
    pub fn mark_failed(&mut self, id: i64, error: Option<String>, now: i64) -> (result: Result<
        (),
        QueueError,
    >)
        ensures
            result == old(self)@.marked_failed(id),
            final(self)@ == old(self)@.after_mark_failed(id, opt_string_view(error), now),
            final(self).file() == old(self).file(),
    {
        let at = match self.find(id) {
            Some(at) => at,
            None => {
                return Ok(());
            },
        };
        proof {
            assert(self@.entries[at as int] == self.entries@[at as int]@);
        }
        let row = &self.entries[at];
        match row.status {
            QueueStatus::Applied => {
                return Err(QueueError::IllegalTransition);
            },
            QueueStatus::Failed => {
                return Ok(());
            },
            _ => {},
        }
        let payload = match &row.payload {
            Some(request) => request,
            None => {
                return Err(QueueError::CorruptPayload);
            },
        };
        if self.last_dead_letter_id == i64::MAX {
            return Err(QueueError::Store);
        }
        let letter_id: i64 = self.last_dead_letter_id + 1;
        let letter = DeadLetterRow {
            id: letter_id,
            queue_id: row.id,
            task_id: payload.task_id.clone(),
            agent: payload.agent.clone(),
            payload: Some(payload.clone()),
            error: clone_opt_string(&error),
            failed_at: now,
        };
        let failed = QueueRow {
            id: row.id,
            status: QueueStatus::Failed,
            payload: clone_payload(&row.payload),
            attempts: row.attempts,
            last_error: error,
            leased_until: None,
            lease_owner: None,
            created_at: row.created_at,
            updated_at: now,
        };
        proof {
            assert(failed@ == old(self)@.entries[at as int].released(
                QueueStatus::Failed,
                opt_string_view(error),
                now,
            ));
            assert(letter@ == old(self)@.dead_letter_for(at as int, opt_string_view(error), now));
        }
        self.replace_entry(at, failed);
        self.dead_letters.push(letter);
        self.last_dead_letter_id = letter_id;
        proof {
            assert(self@.dead_letters =~= old(self)@.dead_letters.push(letter@));
        }
        Ok(())
    }

    /// Adds an event to the journal. Fails, and changes nothing, only where the store
    /// has no event id left.
    pub fn log_event(
        &mut self,
        queue_id: i64,
        task_id: &str,
        level: &str,
        message: &str,
        details: Option<Vec<DetailField>>,
        now: i64,
    ) -> (result: Result<(), QueueError>)
        ensures
            result == old(self)@.logged(),
            final(self)@ == old(self)@.after_log_event(
                queue_id,
                task_id@,
                level@,
                message@,
                details_view(details),
                now,
            ),
            final(self).file() == old(self).file(),
    {
        if self.last_log_id == i64::MAX {
            return Err(QueueError::Store);
        }
        let id: i64 = self.last_log_id + 1;
        let event = ChangeQueueLog {
            id,
            queue_id,
            task_id: task_id.to_owned(),
            level: level.to_owned(),
            message: message.to_owned(),
            details,
            created_at: now,
        };
        self.logs.push(event);
        self.last_log_id = id;
        proof {
            assert(self@.logs =~= old(self)@.logs.push(event@));
        }
        Ok(())
    }

    /// Adds a record of a change to a file. Fails, and changes nothing, only where the
    /// store has no id left for it.
    pub fn record_file_event(
        &mut self,
        path: &str,
        event: &str,
        source: &str,
        details: Option<Vec<DetailField>>,
        now: i64,
    ) -> (result: Result<(), QueueError>)
        ensures
            result == old(self)@.file_event_recorded(),
            final(self)@ == old(self)@.after_record_file_event(
                path@,
                event@,
                source@,
                details_view(details),
                now,
            ),
            final(self).file() == old(self).file(),
    {
        if self.last_file_event_id == i64::MAX {
            return Err(QueueError::Store);
        }
        let id: i64 = self.last_file_event_id + 1;
        let record = FileModification {
            id,
            path: path.to_owned(),
            event: event.to_owned(),
            source: source.to_owned(),
            details,
            created_at: now,
        };
        self.file_events.push(record);
        self.last_file_event_id = id;
        proof {
            assert(self@.file_events =~= old(self)@.file_events.push(record@));
        }
        Ok(())
    }

    /// The entries without those that a sweep takes away.
    fn swept(&self, threshold: i128, with_failed: bool) -> (kept: Vec<QueueRow>)
        ensures
            rows_view(kept@) == entries_without(self@.entries, threshold as int, with_failed),
    {
        let mut kept: Vec<QueueRow> = Vec::new();
        let mut i: usize = 0;
        proof {
            assert(self@.entries.take(0) =~= Seq::empty());
            assert(rows_view(kept@) =~= Seq::empty());
        }
        while i < self.entries.len()
            invariant
                i <= self.entries.len(),
                rows_view(kept@) == entries_without(
                    self@.entries.take(i as int),
                    threshold as int,
                    with_failed,
                ),
            decreases self.entries.len() - i,
        {
            let row = &self.entries[i];
            let removable = (row.updated_at as i128) < threshold && (match row.status {
                QueueStatus::Applied => true,
                QueueStatus::Failed => with_failed,
                _ => false,
            });
            proof {
                assert(self@.entries[i as int] == row@);
                assert(self@.entries.take(i + 1) =~= self@.entries.take(i as int).push(row@));
                lemma_entries_without_push(
                    self@.entries.take(i as int),
                    row@,
                    threshold as int,
                    with_failed,
                );
            }
            if !removable {
                let ghost before = rows_view(kept@);
                kept.push(row.clone());
                proof {
                    assert(rows_view(kept@) =~= before.push(row@));
                }
            }
            i = i + 1;
        }
        proof {
            assert(self@.entries.take(self@.entries.len() as int) =~= self@.entries);
        }
        kept
    }

    /// Removes the entries that are applied or failed and were last touched more than
    /// `ttl_secs` before `now`, and writes one event that tells how many. Returns that
    /// number. Fails, and changes nothing, only where the event cannot be written.
    pub fn cleanup_stale_records(&mut self, ttl_secs: i64, now: i64) -> (result: Result<
        usize,
        QueueError,
    >)
        ensures
            result == old(self)@.cleaned(ttl_secs, now),
            final(self)@ == old(self)@.after_cleanup(ttl_secs, now),
            final(self).file() == old(self).file(),
    {
        if self.last_log_id == i64::MAX {
            return Err(QueueError::Store);
        }
        let threshold: i128 = (now as i128) - (ttl_secs as i128);
        let kept = self.swept(threshold, true);
        assert(kept.len() <= self.entries.len() && rows_view(kept@).len() == kept@.len()
            && self@.entries.len() == self.entries@.len()) by {
            self@.entries.lemma_filter_len(|e: EntryView| !e.removable(threshold as int, true));
        }
        let removed: usize = self.entries.len() - kept.len();
        self.entries = kept;
        let mut details: Vec<DetailField> = Vec::new();
        details.push(
            DetailField { key: "removed".to_owned(), value: DetailValue::Count(removed as u64) },
        );
        details.push(
            DetailField { key: "ttl_seconds".to_owned(), value: DetailValue::Int(ttl_secs) },
        );
        proof {
            assert(fields_view(details@) =~= QueueView::cleanup_details(removed as nat, ttl_secs));
        }
        let logged = self.log_event(0, "cleanup", "info", "cleanup", Some(details), now);
        Ok(removed)
    }

    /// Removes the applied entries that were last touched more than `ttl_secs` before
    /// `now`, and returns how many they were.
    pub fn purge_applied(&mut self, ttl_secs: i64, now: i64) -> (removed: usize)
        ensures
            removed == old(self)@.applied_older_than(ttl_secs, now),
            final(self)@ == old(self)@.after_purge_applied(ttl_secs, now),
            final(self).file() == old(self).file(),
    {
        let threshold: i128 = (now as i128) - (ttl_secs as i128);
        let kept = self.swept(threshold, false);
        assert(kept.len() <= self.entries.len() && rows_view(kept@).len() == kept@.len()
            && self@.entries.len() == self.entries@.len()) by {
            self@.entries.lemma_filter_len(|e: EntryView| !e.removable(threshold as int, false));
        }
        let removed: usize = self.entries.len() - kept.len();
        self.entries = kept;
        removed
    }

    /// How many applied entries were last touched more than `ttl_secs` before `now`.
    pub fn count_applied_older_than(&self, ttl_secs: i64, now: i64) -> (count: usize)
        ensures
            count == self@.applied_older_than(ttl_secs, now),
    {
        let threshold: i128 = (now as i128) - (ttl_secs as i128);
        let kept = self.swept(threshold, false);
        assert(kept.len() <= self.entries.len() && rows_view(kept@).len() == kept@.len()
            && self@.entries.len() == self.entries@.len()) by {
            self@.entries.lemma_filter_len(|e: EntryView| !e.removable(threshold as int, false));
        }
        self.entries.len() - kept.len()
    }

    /// The dead letters that are not older than the threshold.
    fn letters_kept(&self, threshold: i128) -> (kept: Vec<DeadLetterRow>)
        ensures
            dead_rows_view(kept@) == letters_since(self@.dead_letters, threshold as int),
    {
        let mut kept: Vec<DeadLetterRow> = Vec::new();
        let mut i: usize = 0;
        proof {
            assert(self@.dead_letters.take(0) =~= Seq::empty());
            assert(dead_rows_view(kept@) =~= Seq::empty());
        }
        while i < self.dead_letters.len()
            invariant
                i <= self.dead_letters.len(),
                dead_rows_view(kept@) == letters_since(
                    self@.dead_letters.take(i as int),
                    threshold as int,
                ),
            decreases self.dead_letters.len() - i,
        {
            let row = &self.dead_letters[i];
            proof {
                assert(self@.dead_letters[i as int] == row@);
                assert(self@.dead_letters.take(i + 1) =~= self@.dead_letters.take(i as int).push(
                    row@,
                ));
                lemma_letters_since_push(self@.dead_letters.take(i as int), row@, threshold as int);
            }
            if (row.failed_at as i128) >= threshold {
                let ghost before = dead_rows_view(kept@);
                kept.push(row.clone());
                proof {
                    assert(dead_rows_view(kept@) =~= before.push(row@));
                }
            }
            i = i + 1;
        }
        proof {
            assert(self@.dead_letters.take(self@.dead_letters.len() as int) =~= self@.dead_letters);
        }
        kept
    }

    /// Removes the dead letters that were written more than `ttl_secs` before `now`,
    /// and returns how many they were.
    pub fn purge_dead_letters(&mut self, ttl_secs: i64, now: i64) -> (removed: usize)
        ensures
            removed == old(self)@.dead_letters_older_than(ttl_secs, now),
            final(self)@ == old(self)@.after_purge_dead_letters(ttl_secs, now),
            final(self).file() == old(self).file(),
    {
        let threshold: i128 = (now as i128) - (ttl_secs as i128);
        let kept = self.letters_kept(threshold);
        assert(kept.len() <= self.dead_letters.len() && dead_rows_view(kept@).len() == kept@.len()
            && self@.dead_letters.len() == self.dead_letters@.len()) by {
            self@.dead_letters.lemma_filter_len(|d: DeadLetterView| d.failed_at >= threshold as int);
        }
        let removed: usize = self.dead_letters.len() - kept.len();
        self.dead_letters = kept;
        removed
    }

    /// How many dead letters were written more than `ttl_secs` before `now`.
    pub fn count_dead_letters_older_than(&self, ttl_secs: i64, now: i64) -> (count: usize)
        ensures
            count == self@.dead_letters_older_than(ttl_secs, now),
    {
        let threshold: i128 = (now as i128) - (ttl_secs as i128);
        let kept = self.letters_kept(threshold);
        assert(kept.len() <= self.dead_letters.len() && dead_rows_view(kept@).len() == kept@.len()
            && self@.dead_letters.len() == self.dead_letters@.len()) by {
            self@.dead_letters.lemma_filter_len(|d: DeadLetterView| d.failed_at >= threshold as int);
        }
        self.dead_letters.len() - kept.len()
    }

    /// How many dead letters there are.
    pub fn dead_letter_count(&self) -> (count: usize)
        ensures
            count == self@.dead_letters.len(),
    {
        self.dead_letters.len()
    }

    /// The entries that have the given status, in the order of their ids. Fails where
    /// the payload of one of them cannot be read.
    pub fn list(&self, status: QueueStatus) -> (result: Result<Vec<QueueRecord>, QueueError>)
        ensures
            records_result_view(result) == self@.listed(status),
    {
        let mut out: Vec<QueueRecord> = Vec::new();
        let mut i: usize = 0;
        proof {
            assert(self@.entries.take(0) =~= Seq::empty());
            lemma_with_status_empty(status);
            assert(records_view(out@) =~= records_of(with_status(self@.entries.take(0), status)));
        }
        while i < self.entries.len()
            invariant
                i <= self.entries.len(),
                records_view(out@) == records_of(with_status(self@.entries.take(i as int), status)),
                forall|k: int|
                    0 <= k < i ==> !((#[trigger] self@.entries[k]).status == status
                        && self@.entries[k].payload.is_none()),
            decreases self.entries.len() - i,
        {
            let row = &self.entries[i];
            proof {
                assert(self@.entries[i as int] == row@);
                assert(self@.entries.take(i + 1) =~= self@.entries.take(i as int).push(row@));
                lemma_with_status_push(self@.entries.take(i as int), row@, status);
            }
            if row.status == status {
                match record_of(row) {
                    Some(record) => {
                        let ghost before = records_view(out@);
                        out.push(record);
                        proof {
                            assert(records_view(out@) =~= before.push(record@));
                            assert(records_of(
                                with_status(self@.entries.take(i as int), status).push(row@),
                            ) =~= before.push(row@.record()));
                        }
                    },
                    None => {
                        return Err(QueueError::CorruptPayload);
                    },
                }
            }
            i = i + 1;
        }
        proof {
            assert(self@.entries.take(self@.entries.len() as int) =~= self@.entries);
        }
        Ok(out)
    }

    /// The `limit` entries with the highest ids, the highest first. Fails where the
    /// payload of one of them cannot be read.
    pub fn recent_records(&self, limit: usize) -> (result: Result<Vec<QueueRecord>, QueueError>)
        ensures
            records_result_view(result) == self@.recent(limit as nat),
    {
        let len: usize = self.entries.len();
        let count: usize = if limit < len {
            limit
        } else {
            len
        };
        let mut out: Vec<QueueRecord> = Vec::new();
        let mut k: usize = 0;
        while k < count
            invariant
                len == self.entries.len(),
                count == self@.recent_len(limit as nat),
                count <= len,
                k <= count,
                out@.len() == k,
                forall|j: int|
                    0 <= j < k ==> (#[trigger] self@.entries[len - 1 - j]).payload.is_some() && out@[j]@
                        == self@.entries[len - 1 - j].record(),
            decreases count - k,
        {
            let row = &self.entries[len - 1 - k];
            proof {
                assert(self@.entries[len - 1 - k] == row@);
            }
            match record_of(row) {
                Some(record) => {
                    out.push(record);
                },
                None => {
                    return Err(QueueError::CorruptPayload);
                },
            }
            k = k + 1;
        }
        proof {
            assert(records_view(out@) =~= records_of(self@.latest_entries(limit as nat)));
        }
        Ok(out)
    }

    /// How many entries stand in each status.
    pub fn status_counts(&self) -> (counts: StatusCounts)
        ensures
            counts == self@.status_counts(),
    {
        let mut counts = StatusCounts { pending: 0, in_progress: 0, applied: 0, failed: 0 };
        let mut i: usize = 0;
        proof {
            assert(self@.entries.take(0) =~= Seq::empty());
            lemma_with_status_empty(QueueStatus::Pending);
            lemma_with_status_empty(QueueStatus::InProgress);
            lemma_with_status_empty(QueueStatus::Applied);
            lemma_with_status_empty(QueueStatus::Failed);
        }
        while i < self.entries.len()
            invariant
                i <= self.entries.len(),
                counts.pending == with_status(self@.entries.take(i as int), QueueStatus::Pending).len(),
                counts.in_progress == with_status(
                    self@.entries.take(i as int),
                    QueueStatus::InProgress,
                ).len(),
                counts.applied == with_status(self@.entries.take(i as int), QueueStatus::Applied).len(),
                counts.failed == with_status(self@.entries.take(i as int), QueueStatus::Failed).len(),
            decreases self.entries.len() - i,
        {
            let row = &self.entries[i];
            proof {
                let before = self@.entries.take(i as int);
                assert(self@.entries[i as int] == row@);
                assert(self@.entries.take(i + 1) =~= before.push(row@));
                lemma_with_status_push(before, row@, QueueStatus::Pending);
                lemma_with_status_push(before, row@, QueueStatus::InProgress);
                lemma_with_status_push(before, row@, QueueStatus::Applied);
                lemma_with_status_push(before, row@, QueueStatus::Failed);
            }
            match row.status {
                QueueStatus::Pending => {
                    counts.pending = counts.pending + 1;
                },
                QueueStatus::InProgress => {
                    counts.in_progress = counts.in_progress + 1;
                },
                QueueStatus::Applied => {
                    counts.applied = counts.applied + 1;
                },
                QueueStatus::Failed => {
                    counts.failed = counts.failed + 1;
                },
            }
            i = i + 1;
        }
        proof {
            assert(self@.entries.take(self@.entries.len() as int) =~= self@.entries);
        }
        counts
    }

    /// The `limit` newest events of the journal, the newest first; of two that were
    /// written at the same time, the one written later.
    pub fn recent_logs(&self, limit: usize) -> (out: Vec<ChangeQueueLog>)
        ensures
            logs_view(out@) == self@.newest_logs(limit as nat),
    {
        let mut times: Vec<i64> = Vec::new();
        let mut i: usize = 0;
        while i < self.logs.len()
            invariant
                i <= self.logs.len(),
                times@ == self@.log_times().take(i as int),
            decreases self.logs.len() - i,
        {
            times.push(self.logs[i].created_at);
            proof {
                assert(self@.logs[i as int] == self.logs@[i as int]@);
                assert(times@ =~= self@.log_times().take(i + 1));
            }
            i = i + 1;
        }
        proof {
            assert(times@ =~= self@.log_times());
        }
        let order = newest_first(&times);
        let count: usize = if limit < order.len() {
            limit
        } else {
            order.len()
        };
        let mut out: Vec<ChangeQueueLog> = Vec::new();
        let mut k: usize = 0;
        while k < count
            invariant
                count <= order.len(),
                k <= count,
                out@.len() == k,
                order@.len() == self.logs@.len(),
                forall|j: int| 0 <= j < order@.len() ==> #[trigger] order@[j] < self.logs@.len(),
                forall|j: int| 0 <= j < k ==> (#[trigger] out@[j])@ == self@.logs[order@[j] as int],
            decreases count - k,
        {
            let row = &self.logs[order[k]];
            proof {
                assert(self@.logs[order@[k as int] as int] == row@);
            }
            out.push(row.clone());
            k = k + 1;
        }
        proof {
            assert(logs_view(out@) =~= picked(self@.logs, places(order@).take(count as int)));
        }
        out
    }

    /// The `limit` newest records of changes to files, the newest first; of two that
    /// were written at the same time, the one written later.
    pub fn recent_file_events(&self, limit: usize) -> (out: Vec<FileModification>)
        ensures
            file_events_view(out@) == self@.newest_file_events(limit as nat),
    {
        let mut times: Vec<i64> = Vec::new();
        let mut i: usize = 0;
        while i < self.file_events.len()
            invariant
                i <= self.file_events.len(),
                times@ == self@.file_event_times().take(i as int),
            decreases self.file_events.len() - i,
        {
            times.push(self.file_events[i].created_at);
            proof {
                assert(self@.file_events[i as int] == self.file_events@[i as int]@);
                assert(times@ =~= self@.file_event_times().take(i + 1));
            }
            i = i + 1;
        }
        proof {
            assert(times@ =~= self@.file_event_times());
        }
        let order = newest_first(&times);
        let count: usize = if limit < order.len() {
            limit
        } else {
            order.len()
        };
        let mut out: Vec<FileModification> = Vec::new();
        let mut k: usize = 0;
        while k < count
            invariant
                count <= order.len(),
                k <= count,
                out@.len() == k,
                order@.len() == self.file_events@.len(),
                forall|j: int|
                    0 <= j < order@.len() ==> #[trigger] order@[j] < self.file_events@.len(),
                forall|j: int|
                    0 <= j < k ==> (#[trigger] out@[j])@ == self@.file_events[order@[j] as int],
            decreases count - k,
        {
            let row = &self.file_events[order[k]];
            proof {
                assert(self@.file_events[order@[k as int] as int] == row@);
            }
            out.push(row.clone());
            k = k + 1;
        }
        proof {
            assert(file_events_view(out@) =~= picked(
                self@.file_events,
                places(order@).take(count as int),
            ));
        }
        out
    }

    /// All dead letters, the newest first; of two that were written at the same time,
    /// the one written later. Fails where the payload of one of them cannot be read.
    pub fn list_dead_letters(&self) -> (result: Result<Vec<DeadLetterRecord>, QueueError>)
        ensures
            dead_result_view(result) == self@.dead_letters_listed(),
    {
        let mut times: Vec<i64> = Vec::new();
        let mut i: usize = 0;
        while i < self.dead_letters.len()
            invariant
                i <= self.dead_letters.len(),
                times@ == self@.dead_letter_times().take(i as int),
                forall|j: int| 0 <= j < i ==> (#[trigger] self@.dead_letters[j]).payload.is_some(),
            decreases self.dead_letters.len() - i,
        {
            proof {
                assert(self@.dead_letters[i as int] == self.dead_letters@[i as int]@);
            }
            if self.dead_letters[i].payload.is_none() {
                return Err(QueueError::CorruptPayload);
            }
            times.push(self.dead_letters[i].failed_at);
            proof {
                assert(times@ =~= self@.dead_letter_times().take(i + 1));
            }
            i = i + 1;
        }
        proof {
            assert(times@ =~= self@.dead_letter_times());
        }
        let order = newest_first(&times);
        let mut out: Vec<DeadLetterRecord> = Vec::new();
        let mut k: usize = 0;
        while k < order.len()
            invariant
                k <= order.len(),
                out@.len() == k,
                order@.len() == self.dead_letters@.len(),
                forall|j: int| 0 <= j < self@.dead_letters.len() ==> (#[trigger] self@.dead_letters[j]).payload.is_some(),
                forall|j: int|
                    0 <= j < order@.len() ==> #[trigger] order@[j] < self.dead_letters@.len(),
                forall|j: int|
                    0 <= j < k ==> (#[trigger] out@[j])@ == self@.dead_letters[order@[j] as int].record(),
            decreases order.len() - k,
        {
            let row = &self.dead_letters[order[k]];
            proof {
                assert(self@.dead_letters[order@[k as int] as int] == row@);
            }
            let payload = match &row.payload {
                Some(request) => request.clone(),
                None => {
                    proof {
                        assert(false);
                    }
                    return Err(QueueError::CorruptPayload);
                },
            };
            out.push(
                DeadLetterRecord {
                    id: row.id,
                    queue_id: row.queue_id,
                    task_id: row.task_id.clone(),
                    agent: row.agent.clone(),
                    payload,
                    error: clone_opt_string(&row.error),
                    failed_at: row.failed_at,
                },
            );
            k = k + 1;
        }
        proof {
            assert(places(order@).take(order@.len() as int) =~= places(order@));
            assert(dead_records_view(out@) =~= picked(
                self@.dead_letters,
                places(order@).take(order@.len() as int),
            ).map_values(|d: DeadLetterView| d.record()));
        }
        Ok(out)
    }

    /// Where the session with the given resume id stands.
    fn find_session(&self, resume_id: &str) -> (found: Option<usize>)
        ensures
            match found {
                Some(at) => self@.session_position(resume_id@) == Some(at as int) && at
                    < self.sessions.len(),
                None => self@.session_position(resume_id@).is_none(),
            },
    {
        let mut at: usize = 0;
        while at < self.sessions.len()
            invariant
                at <= self.sessions.len(),
                forall|k: int| 0 <= k < at ==> (#[trigger] self@.sessions[k]).resume_id != resume_id@,
            decreases self.sessions.len() - at,
        {
            proof {
                assert(self@.sessions[at as int] == self.sessions@[at as int]@);
            }
            if text_eq(self.sessions[at].resume_id.as_str(), resume_id) {
                proof {
                    assert(self@.is_session(resume_id@, at as int));
                    let chosen = choose|c: int| self@.is_session(resume_id@, c);
                    assert(chosen == at) by {
                        if chosen < at {
                            assert(self@.sessions[chosen].resume_id != resume_id@);
                        }
                        if chosen > at {
                            assert(self@.sessions[at as int].resume_id != resume_id@);
                        }
                    }
                }
                return Some(at);
            }
            at = at + 1;
        }
        proof {
            assert forall|c: int| !self@.is_session(resume_id@, c) by {
                if 0 <= c < self@.sessions.len() {
                    assert(self@.sessions[c].resume_id != resume_id@);
                }
            }
        }
        None
    }

    /// Records a session under its resume id: the session that is there gets the model,
    /// the permission and `now` as its time of use; where there is none, a new one is
    /// made. Returns the session as it then stands. Fails, and changes nothing, only
    /// where a new session is needed and the store has no id left.
    pub fn upsert_agent_session(
        &mut self,
        resume_id: &str,
        model: &str,
        allow_all_tools: bool,
        now: i64,
    ) -> (result: Result<AgentSession, QueueError>)
        ensures
            session_result_view(result) == old(self)@.upserted(
                resume_id@,
                model@,
                allow_all_tools,
                now,
            ),
            final(self)@ == old(self)@.after_upsert(resume_id@, model@, allow_all_tools, now),
            final(self).file() == old(self).file(),
    {
        match self.find_session(resume_id) {
            Some(at) => {
                proof {
                    assert(self@.sessions[at as int] == self.sessions@[at as int]@);
                }
                let known = &self.sessions[at];
                let session = AgentSession {
                    id: known.id,
                    resume_id: known.resume_id.clone(),
                    model: model.to_owned(),
                    allow_all_tools,
                    created_at: known.created_at,
                    last_used: now,
                };
                let handed = session.clone();
                self.sessions.set(at, session);
                proof {
                    assert(self@.sessions =~= old(self)@.sessions.update(at as int, handed@));
                }
                Ok(handed)
            },
            None => {
                if self.last_session_id == i64::MAX {
                    return Err(QueueError::Store);
                }
                let id: i64 = self.last_session_id + 1;
                let session = AgentSession {
                    id,
                    resume_id: resume_id.to_owned(),
                    model: model.to_owned(),
                    allow_all_tools,
                    created_at: now,
                    last_used: now,
                };
                let handed = session.clone();
                self.sessions.push(session);
                self.last_session_id = id;
                proof {
                    assert(self@.sessions =~= old(self)@.sessions.push(handed@));
                }
                Ok(handed)
            },
        }
    }

    /// Notes that the session with the given id was used at `now`. Where no session
    /// has the id, nothing changes.
    pub fn touch_agent_session(&mut self, id: i64, now: i64)
        ensures
            final(self)@ == old(self)@.after_touch(id, now),
            final(self).file() == old(self).file(),
    {
        let mut at: usize = 0;
        while at < self.sessions.len()
            invariant
                at <= self.sessions.len(),
                *self == *old(self),
                forall|k: int| 0 <= k < at ==> (#[trigger] self@.sessions[k]).id != id,
            decreases self.sessions.len() - at,
        {
            proof {
                assert(self@.sessions[at as int] == self.sessions@[at as int]@);
            }
            if self.sessions[at].id == id {
                proof {
                    assert(self@.is_session_with_id(id, at as int));
                    let chosen = choose|c: int| self@.is_session_with_id(id, c);
                    assert(chosen == at) by {
                        if chosen < at {
                            assert(self@.sessions[chosen].id != id);
                        }
                        if chosen > at {
                            assert(self@.sessions[at as int].id != id);
                        }
                    }
                }
                let known = &self.sessions[at];
                let session = AgentSession {
                    id: known.id,
                    resume_id: known.resume_id.clone(),
                    model: known.model.clone(),
                    allow_all_tools: known.allow_all_tools,
                    created_at: known.created_at,
                    last_used: now,
                };
                let ghost target = session@;
                self.sessions.set(at, session);
                proof {
                    assert(self@.sessions =~= old(self)@.sessions.update(at as int, target));
                }
                return ;
            }
            at = at + 1;
        }
        proof {
            assert forall|c: int| !self@.is_session_with_id(id, c) by {
                if 0 <= c < self@.sessions.len() {
                    assert(self@.sessions[c].id != id);
                }
            }
        }
    }

    /// The sessions at the first `count` places of `order`.
    fn sessions_in_order(&self, order: &Vec<usize>, count: usize) -> (out: Vec<AgentSession>)
        requires
            count <= order@.len(),
            forall|j: int| 0 <= j < order@.len() ==> #[trigger] order@[j] < self@.sessions.len(),
        ensures
            sessions_view(out@) == picked(self@.sessions, places(order@).take(count as int)),
    {
        let mut out: Vec<AgentSession> = Vec::new();
        let mut k: usize = 0;
        while k < count
            invariant
                count <= order@.len(),
                k <= count,
                out@.len() == k,
                forall|j: int| 0 <= j < order@.len() ==> #[trigger] order@[j] < self@.sessions.len(),
                forall|j: int|
                    0 <= j < k ==> (#[trigger] out@[j])@ == self@.sessions[order@[j] as int],
            decreases count - k,
        {
            assert(order@[k as int] < self@.sessions.len());
            assert(self@.sessions.len() == self.sessions@.len());
            let row = &self.sessions[order[k]];
            proof {
                assert(self@.sessions[order@[k as int] as int] == row@);
            }
            out.push(row.clone());
            k = k + 1;
        }
        proof {
            assert(sessions_view(out@) =~= picked(
                self@.sessions,
                places(order@).take(count as int),
            ));
        }
        out
    }

    /// All sessions, the one made last first; of two that were made at the same time,
    /// the one with the higher id.
    pub fn list_agent_sessions(&self) -> (out: Vec<AgentSession>)
        ensures
            sessions_view(out@) == self@.sessions_listed(),
    {
        let mut times: Vec<i64> = Vec::new();
        let mut i: usize = 0;
        while i < self.sessions.len()
            invariant
                i <= self.sessions.len(),
                times@ == self@.session_creation_times().take(i as int),
            decreases self.sessions.len() - i,
        {
            times.push(self.sessions[i].created_at);
            proof {
                assert(self@.sessions[i as int] == self.sessions@[i as int]@);
                assert(times@ =~= self@.session_creation_times().take(i + 1));
            }
            i = i + 1;
        }
        proof {
            assert(times@ =~= self@.session_creation_times());
        }
        let order = newest_first(&times);
        self.sessions_in_order(&order, order.len())
    }

    /// The session that was used last; of two that were used at the same time, the one
    /// with the higher id. Nothing where there is no session.
    pub fn latest_agent_session(&self) -> (out: Option<AgentSession>)
        ensures
            session_option_view(out) == self@.latest_session(),
    {
        if self.sessions.len() == 0 {
            return None;
        }
        let mut times: Vec<i64> = Vec::new();
        let mut i: usize = 0;
        while i < self.sessions.len()
            invariant
                i <= self.sessions.len(),
                times@ == self@.session_use_times().take(i as int),
            decreases self.sessions.len() - i,
        {
            times.push(self.sessions[i].last_used);
            proof {
                assert(self@.sessions[i as int] == self.sessions@[i as int]@);
                assert(times@ =~= self@.session_use_times().take(i + 1));
            }
            i = i + 1;
        }
        proof {
            assert(times@ =~= self@.session_use_times());
        }
        let order = newest_first(&times);
        let mut first = self.sessions_in_order(&order, 1);
        let ghost listed = sessions_view(first@);
        let ghost only = first@[0];
        assert(first@.len() == 1 && listed[0] == only@) by {
            assert(listed.len() == 1);
        }
        first.pop()
    }

    /// Looks for everything that the queue needs in what the store's file reports.
    /// Succeeds exactly when every required column and index is there; else names the
    /// first thing that is missing.
    pub fn verify_schema(listing: &SchemaListing) -> (result: Result<(), String>)
        ensures
            match result {
                Ok(()) => schema_fault(listing@).is_none(),
                Err(message) => schema_fault(listing@) == Some(message@),
            },
    {
        check_schema(listing)
    }

    /// The queue on what was read from its file. Succeeds exactly when the schema
    /// lacks nothing and the tables are in order; the queue then holds what the
    /// tables held.
    pub fn restore(path: &str, listing: &SchemaListing, tables: StoreTables) -> (result: Result<
        SqliteQueue,
        QueueError,
    >)
        ensures
            match result {
                Ok(queue) => schema_fault(listing@).is_none() && tables@.wf() && queue@ == tables@
                    && queue.file() == path@,
                Err(e) => e == QueueError::CorruptStore && !(schema_fault(listing@).is_none()
                    && tables@.wf()),
            },
    {
        if check_schema(listing).is_err() {
            return Err(QueueError::CorruptStore);
        }
        if !tables.in_order() {
            return Err(QueueError::CorruptStore);
        }
        Ok(
            SqliteQueue {
                path: path.to_owned(),
                entries: tables.entries,
                last_entry_id: tables.last_entry_id,
                dead_letters: tables.dead_letters,
                last_dead_letter_id: tables.last_dead_letter_id,
                logs: tables.logs,
                last_log_id: tables.last_log_id,
                file_events: tables.file_events,
                last_file_event_id: tables.last_file_event_id,
                sessions: tables.sessions,
                last_session_id: tables.last_session_id,
            },
        )
    }

    /// The tables of the queue, to be written to its file.
    pub fn into_tables(self) -> (tables: StoreTables)
        ensures
            tables@ == self@,
    {
        StoreTables {
            entries: self.entries,
            last_entry_id: self.last_entry_id,
            dead_letters: self.dead_letters,
            last_dead_letter_id: self.last_dead_letter_id,
            logs: self.logs,
            last_log_id: self.last_log_id,
            file_events: self.file_events,
            last_file_event_id: self.last_file_event_id,
            sessions: self.sessions,
            last_session_id: self.last_session_id,
        }
    }

    /// The metrics of the stretch of `window_seconds` before `now`: the numbers of
    /// entries in each status as they stand, and what the events of the journal from
    /// that stretch add up to. Without a window, sixty seconds are meant; a window
    /// below one second counts as one.
    pub fn queue_metrics(&self, window_seconds: Option<i64>, now: i64) -> (metrics: QueueMetrics)
        ensures
            metrics.window_seconds == window_of(window_seconds),
            metrics.timestamp == now,
            metrics.status_counts == self@.status_counts(),
            metrics.tally() == Tally::of(
                self@.logs,
                window_start(window_seconds, now) as int,
                self@.logs.len(),
            ),
    {
        let window: i64 = match window_seconds {
            Some(w) => if w < 1 {
                1
            } else {
                w
            },
            None => 60,
        };
        let since: i64 = if (now as i128) - (window as i128) < (i64::MIN as i128) {
            i64::MIN
        } else {
            now - window
        };
        let mut metrics = tally_events(&self.logs, since);
        metrics.window_seconds = window;
        metrics.timestamp = now;
        metrics.status_counts = self.status_counts();
        metrics
    }

    /// How many events with the given message were written at `since` or later.
    pub fn count_events_since(&self, message: &str, since: i64) -> (count: usize)
        ensures
            count == self@.event_count_since(message@, since),
    {
        let found = self.times_of_events(message, since);
        found.len()
    }

    /// The times of the events with the given message that were written at `since`
    /// or later, in the order of the journal.
    fn times_of_events(&self, message: &str, since: i64) -> (times: Vec<i64>)
        ensures
            times@ == events_since(self@.logs, message@, since as int).map_values(
                |l: ChangeQueueLogView| l.created_at,
            ),
    {
        let mut times: Vec<i64> = Vec::new();
        let mut i: usize = 0;
        proof {
            assert(self@.logs.take(0) =~= Seq::empty());
            lemma_events_since_len(Seq::empty(), message@, since as int);
            assert(events_since(Seq::empty(), message@, since as int).len() == 0);
            assert(times@ =~= events_since(self@.logs.take(0), message@, since as int).map_values(
                |l: ChangeQueueLogView| l.created_at,
            ));
        }
        while i < self.logs.len()
            invariant
                i <= self.logs.len(),
                times@ == events_since(self@.logs.take(i as int), message@, since as int).map_values(
                    |l: ChangeQueueLogView| l.created_at,
                ),
            decreases self.logs.len() - i,
        {
            let event = &self.logs[i];
            proof {
                assert(self@.logs[i as int] == event@);
                assert(self@.logs.take(i + 1) =~= self@.logs.take(i as int).push(event@));
                lemma_events_since_push(self@.logs.take(i as int), event@, message@, since as int);
            }
            if text_eq(event.message.as_str(), message) && event.created_at >= since {
                let ghost before = times@;
                times.push(event.created_at);
                proof {
                    assert(times@ =~= events_since(
                        self@.logs.take(i as int),
                        message@,
                        since as int,
                    ).push(event@).map_values(|l: ChangeQueueLogView| l.created_at));
                }
            }
            i = i + 1;
        }
        proof {
            assert(self@.logs.take(self@.logs.len() as int) =~= self@.logs);
        }
        times
    }

    /// When the newest event with the given message was written; nothing where there
    /// is no such event.
    pub fn last_event_time(&self, message: &str) -> (time: Option<i64>)
        ensures
            time == greatest_of(self@.event_times(message@)),
    {
        let times = self.times_of_events(message, i64::MIN);
        greatest(&times)
    }

    /// When an entry was last touched; nothing where there is no entry.
    pub fn max_updated_timestamp(&self) -> (time: Option<i64>)
        ensures
            time == greatest_of(self@.update_times()),
    {
        let mut times: Vec<i64> = Vec::new();
        let mut i: usize = 0;
        while i < self.entries.len()
            invariant
                i <= self.entries.len(),
                times@ == self@.update_times().take(i as int),
            decreases self.entries.len() - i,
        {
            times.push(self.entries[i].updated_at);
            proof {
                assert(self@.entries[i as int] == self.entries@[i as int]@);
                assert(times@ =~= self@.update_times().take(i + 1));
            }
            i = i + 1;
        }
        proof {
            assert(times@ =~= self@.update_times());
        }
        greatest(&times)
    }
}

} // verus!
