use vstd::prelude::*;
use crate::journal::DetailFieldView;
use crate::models::{ChangeRequestView, QueueStatus};
use crate::store::{
    entries_without, is_entry_position, DeadLetterView, EntryView, QueueError, QueueView,
};

verus! {

/// One operation that changes the store, with its arguments.
pub enum QueueOp {
    Enqueue { request: ChangeRequestView, now: i64 },
    Dequeue { now: i64, lease_seconds: u64, owner: Seq<char> },
    MarkApplied { id: i64, now: i64 },
    MarkRetry { id: i64, error: Option<Seq<char>>, now: i64 },
    MarkFailed { id: i64, error: Option<Seq<char>>, now: i64 },
    Cleanup { ttl_secs: i64, now: i64 },
    PurgeApplied { ttl_secs: i64, now: i64 },
    PurgeDeadLetters { ttl_secs: i64, now: i64 },
    LogEvent {
        queue_id: i64,
        task_id: Seq<char>,
        level: Seq<char>,
        message: Seq<char>,
        details: Option<Seq<DetailFieldView>>,
        now: i64,
    },
    RecordFileEvent {
        path: Seq<char>,
        event: Seq<char>,
        source: Seq<char>,
        details: Option<Seq<DetailFieldView>>,
        now: i64,
    },
    UpsertSession { resume_id: Seq<char>, model: Seq<char>, allow_all_tools: bool, now: i64 },
    TouchSession { id: i64, now: i64 },
}

impl QueueOp {
    /// What the operation asks of its arguments: the end of a lease can be written.
    pub open spec fn admitted(self) -> bool {
        match self {
            QueueOp::Dequeue { now, lease_seconds, owner } => now + lease_seconds <= i64::MAX,
            _ => true,
        }
    }
}

impl QueueView {
    /// The store after one operation.
    pub open spec fn step(self, op: QueueOp) -> QueueView {
        match op {
            QueueOp::Enqueue { request, now } => self.after_enqueue(request, now),
            QueueOp::Dequeue { now, lease_seconds, owner } => self.after_dequeue(
                now,
                lease_seconds,
                owner,
            ),
            QueueOp::MarkApplied { id, now } => self.after_mark_applied(id, now),
            QueueOp::MarkRetry { id, error, now } => self.after_mark_retry(id, error, now),
            QueueOp::MarkFailed { id, error, now } => self.after_mark_failed(id, error, now),
            QueueOp::Cleanup { ttl_secs, now } => self.after_cleanup(ttl_secs, now),
            QueueOp::PurgeApplied { ttl_secs, now } => self.after_purge_applied(ttl_secs, now),
            QueueOp::PurgeDeadLetters { ttl_secs, now } => self.after_purge_dead_letters(
                ttl_secs,
                now,
            ),
            QueueOp::LogEvent { queue_id, task_id, level, message, details, now } => self.after_log_event(
                queue_id,
                task_id,
                level,
                message,
                details,
                now,
            ),
            QueueOp::RecordFileEvent { path, event, source, details, now } => self.after_record_file_event(
                path,
                event,
                source,
                details,
                now,
            ),
            QueueOp::UpsertSession { resume_id, model, allow_all_tools, now } => self.after_upsert(
                resume_id,
                model,
                allow_all_tools,
                now,
            ),
            QueueOp::TouchSession { id, now } => self.after_touch(id, now),
        }
    }

    /// The store after a run of operations on a store in which nothing was written.
    pub open spec fn after_run(ops: Seq<QueueOp>) -> QueueView
        decreases ops.len(),
    {
        if ops.len() == 0 {
            QueueView::empty()
        } else {
            Self::after_run(ops.drop_last()).step(ops.last())
        }
    }

    /// The status of the entry with the given id, if there is one.
    pub open spec fn status_of(self, id: i64) -> Option<QueueStatus> {
        match self.position(id) {
            Some(at) => Some(self.entries[at].status),
            None => None,
        }
    }

    /// How often the entry with the given id was claimed, if there is one.
    pub open spec fn attempts_of(self, id: i64) -> Option<i64> {
        match self.position(id) {
            Some(at) => Some(self.entries[at].attempts),
            None => None,
        }
    }
}

/// A sweep leaves the entries that it leaves in their order, and each of them was
/// there before.
proof fn lemma_filter_keeps_order(entries: Seq<EntryView>, pred: spec_fn(EntryView) -> bool)
    ensures
        forall|i: int|
            0 <= i < entries.filter(pred).len() ==> exists|k: int|
                0 <= k < entries.len() && entries[k] == #[trigger] entries.filter(pred)[i],
        forall|i: int, j: int|
            0 <= i < j < entries.filter(pred).len() ==> exists|k: int, l: int|
                0 <= k < l < entries.len() && entries[k] == #[trigger] entries.filter(pred)[i]
                    && entries[l] == #[trigger] entries.filter(pred)[j],
    decreases entries.len(),
{
    reveal(Seq::filter);
    if entries.len() > 0 {
        let front = entries.drop_last();
        let last = entries.last();
        lemma_filter_keeps_order(front, pred);
        let kept = front.filter(pred);
        assert(entries.filter(pred) == if pred(last) {
            kept.push(last)
        } else {
            kept
        });
        let all = entries.filter(pred);
        assert forall|i: int| 0 <= i < all.len() implies exists|k: int|
            0 <= k < entries.len() && entries[k] == #[trigger] all[i] by {
            if i < kept.len() {
                let k = choose|k: int| 0 <= k < front.len() && front[k] == kept[i];
                assert(entries[k] == all[i]);
            } else {
                assert(entries[entries.len() - 1] == all[i]);
            }
        }
        assert forall|i: int, j: int| 0 <= i < j < all.len() implies exists|k: int, l: int|
            0 <= k < l < entries.len() && entries[k] == #[trigger] all[i] && entries[l]
                == #[trigger] all[j] by {
            if j < kept.len() {
                let (k, l) = choose|k: int, l: int|
                    0 <= k < l < front.len() && front[k] == kept[i] && front[l] == kept[j];
                assert(entries[k] == all[i] && entries[l] == all[j]);
            } else {
                let k = choose|k: int| 0 <= k < front.len() && front[k] == kept[i];
                assert(entries[k] == all[i] && entries[entries.len() - 1] == all[j]);
            }
        }
    }
}

/// The same of dead letters.
proof fn lemma_filter_keeps_letter_order(
    letters: Seq<DeadLetterView>,
    pred: spec_fn(DeadLetterView) -> bool,
)
    ensures
        forall|i: int|
            0 <= i < letters.filter(pred).len() ==> exists|k: int|
                0 <= k < letters.len() && letters[k] == #[trigger] letters.filter(pred)[i],
        forall|i: int, j: int|
            0 <= i < j < letters.filter(pred).len() ==> exists|k: int, l: int|
                0 <= k < l < letters.len() && letters[k] == #[trigger] letters.filter(pred)[i]
                    && letters[l] == #[trigger] letters.filter(pred)[j],
    decreases letters.len(),
{
    reveal(Seq::filter);
    if letters.len() > 0 {
        let front = letters.drop_last();
        let last = letters.last();
        lemma_filter_keeps_letter_order(front, pred);
        let kept = front.filter(pred);
        assert(letters.filter(pred) == if pred(last) {
            kept.push(last)
        } else {
            kept
        });
        let all = letters.filter(pred);
        assert forall|i: int| 0 <= i < all.len() implies exists|k: int|
            0 <= k < letters.len() && letters[k] == #[trigger] all[i] by {
            if i < kept.len() {
                let k = choose|k: int| 0 <= k < front.len() && front[k] == kept[i];
                assert(letters[k] == all[i]);
            } else {
                assert(letters[letters.len() - 1] == all[i]);
            }
        }
        assert forall|i: int, j: int| 0 <= i < j < all.len() implies exists|k: int, l: int|
            0 <= k < l < letters.len() && letters[k] == #[trigger] all[i] && letters[l]
                == #[trigger] all[j] by {
            if j < kept.len() {
                let (k, l) = choose|k: int, l: int|
                    0 <= k < l < front.len() && front[k] == kept[i] && front[l] == kept[j];
                assert(letters[k] == all[i] && letters[l] == all[j]);
            } else {
                let k = choose|k: int| 0 <= k < front.len() && front[k] == kept[i];
                assert(letters[k] == all[i] && letters[letters.len() - 1] == all[j]);
            }
        }
    }
}

/// A store in which nothing was written is in order.
pub proof fn empty_store_is_in_order()
    ensures
        QueueView::empty().wf(),
{
}

/// No operation brings a store out of order. So in every store that
/// the operations can reach, an entry in progress has a lease and its owner, and an
/// entry that is pending, applied or failed has neither.
pub proof fn step_keeps_order(q: QueueView, op: QueueOp)
    requires
        q.wf(),
        op.admitted(),
    ensures
        q.step(op).wf(),
{
    let post = q.step(op);
    match op {
        QueueOp::Enqueue { request, now } => {},
        QueueOp::Dequeue { now, lease_seconds, owner } => {},
        QueueOp::MarkApplied { id, now } => {},
        QueueOp::MarkRetry { id, error, now } => {},
        QueueOp::MarkFailed { id, error, now } => {},
        QueueOp::Cleanup { ttl_secs, now } => {
            lemma_sweep_keeps_order(q, now - ttl_secs, true);
        },
        QueueOp::PurgeApplied { ttl_secs, now } => {
            lemma_sweep_keeps_order(q, now - ttl_secs, false);
        },
        QueueOp::PurgeDeadLetters { ttl_secs, now } => {
            let pred = |d: DeadLetterView| d.failed_at >= now - ttl_secs;
            lemma_filter_keeps_letter_order(q.dead_letters, pred);
            assert(post.dead_letters == q.dead_letters.filter(pred));
        },
        QueueOp::LogEvent { queue_id, task_id, level, message, details, now } => {},
        QueueOp::RecordFileEvent { path, event, source, details, now } => {},
        QueueOp::UpsertSession { resume_id, model, allow_all_tools, now } => {
            match q.session_position(resume_id) {
                Some(at) => {
                    assert(q.is_session(resume_id, at));
                },
                None => {
                    assert forall|i: int| 0 <= i < q.sessions.len() implies (
                    #[trigger] q.sessions[i]).resume_id != resume_id by {
                        lemma_no_session(q, resume_id, i);
                    }
                },
            }
        },
        QueueOp::TouchSession { id, now } => {},
    }
}

/// Where no session has the resume id, the session at `i` has another.
proof fn lemma_no_session(q: QueueView, resume_id: Seq<char>, i: int)
    requires
        q.session_position(resume_id).is_none(),
        0 <= i < q.sessions.len(),
    ensures
        q.sessions[i].resume_id != resume_id,
    decreases i,
{
    if q.sessions[i].resume_id == resume_id {
        if exists|k: int| 0 <= k < i && (#[trigger] q.sessions[k]).resume_id == resume_id {
            let k = choose|k: int| 0 <= k < i && (#[trigger] q.sessions[k]).resume_id == resume_id;
            lemma_no_session(q, resume_id, k);
        } else {
            assert(q.is_session(resume_id, i));
        }
    }
}

/// A sweep of the entries leaves the store in order.
proof fn lemma_sweep_keeps_order(q: QueueView, threshold: int, with_failed: bool)
    requires
        q.entries_wf(),
    ensures
        (QueueView { entries: entries_without(q.entries, threshold, with_failed), ..q }).entries_wf(),
{
    let pred = |e: EntryView| !e.removable(threshold, with_failed);
    lemma_filter_keeps_order(q.entries, pred);
    let kept = q.entries.filter(pred);
    assert(kept == entries_without(q.entries, threshold, with_failed));
    let post = QueueView { entries: kept, ..q };
    assert forall|i: int| 0 <= i < kept.len() implies (#[trigger] kept[i]).wf() && kept[i].id
        <= q.last_entry_id by {
        let k = choose|k: int| 0 <= k < q.entries.len() && q.entries[k] == kept[i];
        assert(q.entries[k].wf());
    }
    assert forall|i: int, j: int| 0 <= i < j < kept.len() implies (#[trigger] kept[i]).id < (
    #[trigger] kept[j]).id by {
        let (k, l) = choose|k: int, l: int|
            0 <= k < l < q.entries.len() && q.entries[k] == kept[i] && q.entries[l] == kept[j];
        assert(q.entries[k].id < q.entries[l].id);
    }
}

/// All operations of a run are admitted.
pub open spec fn all_admitted(ops: Seq<QueueOp>) -> bool {
    forall|i: int| 0 <= i < ops.len() ==> (#[trigger] ops[i]).admitted()
}

/// Whatever operations were run on a store that began empty, the store is in order.
pub proof fn every_reachable_store_is_in_order(ops: Seq<QueueOp>)
    requires
        all_admitted(ops),
    ensures
        QueueView::after_run(ops).wf(),
    decreases ops.len(),
{
    if ops.len() > 0 {
        assert(all_admitted(ops.drop_last())) by {
            assert forall|i: int| 0 <= i < ops.drop_last().len() implies (
            #[trigger] ops.drop_last()[i]).admitted() by {
                assert(ops.drop_last()[i] == ops[i]);
            }
        }
        every_reachable_store_is_in_order(ops.drop_last());
        assert(ops.last() == ops[ops.len() - 1]);
        step_keeps_order(QueueView::after_run(ops.drop_last()), ops.last());
    }
}

/// In every store that the operations can reach, an entry in progress has the time
/// to which it is leased, and the owner of the lease.
pub proof fn in_progress_entries_hold_a_lease(ops: Seq<QueueOp>, at: int)
    requires
        all_admitted(ops),
        0 <= at < QueueView::after_run(ops).entries.len(),
        QueueView::after_run(ops).entries[at].status == QueueStatus::InProgress,
    ensures
        QueueView::after_run(ops).entries[at].leased_until.is_some(),
        QueueView::after_run(ops).entries[at].lease_owner.is_some(),
{
    every_reachable_store_is_in_order(ops);
    assert(QueueView::after_run(ops).entries[at].wf());
}

/// In every store that the operations can reach, an entry that is applied or failed
/// has no lease and no owner.
pub proof fn terminal_entries_hold_no_lease(ops: Seq<QueueOp>, at: int)
    requires
        all_admitted(ops),
        0 <= at < QueueView::after_run(ops).entries.len(),
        QueueView::after_run(ops).entries[at].status.terminal(),
    ensures
        QueueView::after_run(ops).entries[at].leased_until.is_none(),
        QueueView::after_run(ops).entries[at].lease_owner.is_none(),
{
    every_reachable_store_is_in_order(ops);
    assert(QueueView::after_run(ops).entries[at].wf());
}

/// In a store that is in order, the entry at `at` is the one that its id finds.
pub proof fn lemma_position_of(q: QueueView, at: int)
    requires
        q.entries_wf(),
        0 <= at < q.entries.len(),
    ensures
        q.position(q.entries[at].id) == Some(at),
{
    let id = q.entries[at].id;
    assert(q.is_position(id, at)) by {
        assert forall|k: int| 0 <= k < at implies (#[trigger] q.entries[k]).id != id by {
            assert(q.entries[k].id < q.entries[at].id);
        }
    }
    lemma_position_found(q, id, at);
}

/// Where an id finds nothing, no entry has it; where it finds a place, the entry there
/// has it.
pub proof fn lemma_position_sound(q: QueueView, id: i64)
    ensures
        match q.position(id) {
            Some(at) => 0 <= at < q.entries.len() && q.entries[at].id == id,
            None => forall|k: int| 0 <= k < q.entries.len() ==> (#[trigger] q.entries[k]).id != id,
        },
{
    if q.position(id).is_none() {
        assert forall|k: int| 0 <= k < q.entries.len() implies (#[trigger] q.entries[k]).id
            != id by {
            lemma_not_found(q, id, k);
        }
    } else {
        let at = choose|at: int| is_entry_position(q.entries, id, at);
        assert(q.is_position(id, at));
    }
}

/// An id finds one place at most.
pub proof fn lemma_position_is_unique(entries: Seq<EntryView>, id: i64, a: int, b: int)
    requires
        is_entry_position(entries, id, a),
        is_entry_position(entries, id, b),
    ensures
        a == b,
{
    if a < b {
        assert(entries[a].id != id);
    }
    if b < a {
        assert(entries[b].id != id);
    }
}

/// An id finds the place of the first entry that has it.
pub proof fn lemma_position_found(q: QueueView, id: i64, at: int)
    requires
        q.is_position(id, at),
    ensures
        q.position(id) == Some(at),
{
    let chosen = choose|c: int| is_entry_position(q.entries, id, c);
    lemma_position_is_unique(q.entries, id, at, chosen);
}

proof fn lemma_not_found(q: QueueView, id: i64, k: int)
    requires
        q.position(id).is_none(),
        0 <= k < q.entries.len(),
    ensures
        q.entries[k].id != id,
    decreases k,
{
    if q.entries[k].id == id {
        if exists|j: int| 0 <= j < k && (#[trigger] q.entries[j]).id == id {
            let j = choose|j: int| 0 <= j < k && (#[trigger] q.entries[j]).id == id;
            lemma_not_found(q, id, j);
        } else {
            assert(q.is_position(id, k));
        }
    }
}

/// Replacing an entry by one with the same id moves no entry.
pub proof fn lemma_position_after_update(q: QueueView, at: int, entry: EntryView, id: i64)
    requires
        0 <= at < q.entries.len(),
        entry.id == q.entries[at].id,
    ensures
        (QueueView { entries: q.entries.update(at, entry), ..q }).position(id) == q.position(id),
{
    let post = QueueView { entries: q.entries.update(at, entry), ..q };
    assert forall|c: int| post.is_position(id, c) == q.is_position(id, c) by {
        if 0 <= c < q.entries.len() {
            assert(post.entries[c].id == q.entries[c].id);
            if q.is_position(id, c) {
                assert forall|k: int| 0 <= k < c implies (#[trigger] post.entries[k]).id != id by {
                    assert(q.entries[k].id != id);
                }
            }
            if post.is_position(id, c) {
                assert forall|k: int| 0 <= k < c implies (#[trigger] q.entries[k]).id != id by {
                    assert(post.entries[k].id != id);
                }
            }
        }
    }
    lemma_position_sound(q, id);
    lemma_position_sound(post, id);
    if q.position(id).is_some() {
        let c = choose|c: int| is_entry_position(q.entries, id, c);
        assert(q.is_position(id, c));
        assert(post.is_position(id, c));
        lemma_position_found(post, id, c);
    } else if post.position(id).is_some() {
        let c = choose|c: int| is_entry_position(post.entries, id, c);
        assert(post.is_position(id, c));
        assert(q.is_position(id, c));
        lemma_position_found(q, id, c);
    }
}

/// Whenever an operation takes an entry to Failed, the same operation writes a dead
/// letter for it: after it, the last dead letter is about that entry, and it was not
/// there before.
pub proof fn failing_writes_a_dead_letter(q: QueueView, op: QueueOp, id: i64)
    requires
        q.wf(),
        op.admitted(),
        q.step(op).status_of(id) == Some(QueueStatus::Failed),
        q.status_of(id) != Some(QueueStatus::Failed),
    ensures
        q.step(op).dead_letters.len() == q.dead_letters.len() + 1,
        q.step(op).dead_letters.last().queue_id == id,
        q.step(op).dead_letters.drop_last() == q.dead_letters,
        q.step(op).has_dead_letter(id),
{
    let post = q.step(op);
    lemma_position_sound(q, id);
    lemma_position_sound(post, id);
    let at_post = post.position(id).unwrap();
    match op {
        QueueOp::Enqueue { request, now } => {
            if q.enqueued().is_ok() {
                if at_post < q.entries.len() {
                    assert(post.entries[at_post] == q.entries[at_post]);
                    lemma_position_of(q, at_post);
                }
            }
            assert(false);
        },
        QueueOp::Dequeue { now, lease_seconds, owner } => {
            match q.claim(now) {
                Ok(Some(at)) => {
                    lemma_position_after_update(
                        q,
                        at,
                        q.entries[at].claimed(now, (now + lease_seconds) as i64, owner),
                        id,
                    );
                },
                _ => {},
            }
            assert(false);
        },
        QueueOp::MarkApplied { id: target, now } => {
            match q.position(target) {
                Some(at) => {
                    lemma_position_sound(q, target);
                    lemma_position_after_update(q, at, q.entries[at].applied(now), id);
                },
                None => {},
            }
            assert(false);
        },
        QueueOp::MarkRetry { id: target, error, now } => {
            match q.position(target) {
                Some(at) => {
                    lemma_position_sound(q, target);
                    lemma_position_after_update(
                        q,
                        at,
                        q.entries[at].released(QueueStatus::Pending, error, now),
                        id,
                    );
                },
                None => {},
            }
            assert(false);
        },
        QueueOp::MarkFailed { id: target, error, now } => {
            if q.fails_now(target) {
                let at = q.position(target).unwrap();
                lemma_position_sound(q, target);
                lemma_position_after_update(
                    q,
                    at,
                    q.entries[at].released(QueueStatus::Failed, error, now),
                    id,
                );
                assert(q.position(id) == Some(at_post));
                assert(at_post == at) by {
                    if at_post != at {
                        assert(post.entries[at_post] == q.entries[at_post]);
                    }
                }
                lemma_position_of(q, at);
                assert(id == target);
                assert(post.dead_letters.drop_last() =~= q.dead_letters);
                assert(post.dead_letters[post.dead_letters.len() - 1].queue_id == id);
            } else {
                assert(false);
            }
        },
        QueueOp::Cleanup { ttl_secs, now } => {
            if q.logged().is_ok() {
                lemma_swept_entry_was_there(q, post, now - ttl_secs, true, id);
            }
            assert(false);
        },
        QueueOp::PurgeApplied { ttl_secs, now } => {
            lemma_swept_entry_was_there(q, post, now - ttl_secs, false, id);
            assert(false);
        },
        QueueOp::PurgeDeadLetters { ttl_secs, now } => {
            assert(false);
        },
        QueueOp::LogEvent { queue_id, task_id, level, message, details, now } => {
            assert(false);
        },
        QueueOp::RecordFileEvent { path, event, source, details, now } => {
            assert(false);
        },
        QueueOp::UpsertSession { resume_id, model, allow_all_tools, now } => {
            assert(false);
        },
        QueueOp::TouchSession { id, now } => {
            assert(false);
        },
    }
}

/// An entry that a sweep leaves is the entry that had its id before.
proof fn lemma_swept_entry_was_there(
    q: QueueView,
    post: QueueView,
    threshold: int,
    with_failed: bool,
    id: i64,
)
    requires
        q.entries_wf(),
        post.entries == entries_without(q.entries, threshold, with_failed),
    ensures
        match post.position(id) {
            Some(at) => q.position(id).is_some() && q.entries[q.position(id).unwrap()]
                == post.entries[at],
            None => true,
        },
{
    let pred = |e: EntryView| !e.removable(threshold, with_failed);
    assert(post.entries == q.entries.filter(pred));
    lemma_filter_keeps_order(q.entries, pred);
    lemma_position_sound(post, id);
    match post.position(id) {
        Some(at) => {
            let k = choose|k: int| 0 <= k < q.entries.len() && q.entries[k] == post.entries[at];
            lemma_position_of(q, k);
        },
        None => {},
    }
}

/// No operation takes back a claim: an entry that is there before and after an
/// operation was, after it, claimed at least as often as before.
pub proof fn attempts_never_decrease(q: QueueView, op: QueueOp, id: i64)
    requires
        q.wf(),
        op.admitted(),
        q.attempts_of(id).is_some(),
        q.step(op).attempts_of(id).is_some(),
    ensures
        q.step(op).attempts_of(id).unwrap() >= q.attempts_of(id).unwrap(),
{
    let post = q.step(op);
    lemma_position_sound(q, id);
    lemma_position_sound(post, id);
    let at = q.position(id).unwrap();
    let at_post = post.position(id).unwrap();
    match op {
        QueueOp::Enqueue { request, now } => {
            if q.enqueued().is_ok() {
                assert(post.entries[at] == q.entries[at]);
                step_keeps_order(q, op);
                lemma_position_of(post, at);
            }
        },
        QueueOp::Dequeue { now, lease_seconds, owner } => {
            match q.claim(now) {
                Ok(Some(c)) => {
                    lemma_position_after_update(
                        q,
                        c,
                        q.entries[c].claimed(now, (now + lease_seconds) as i64, owner),
                        id,
                    );
                },
                _ => {},
            }
        },
        QueueOp::MarkApplied { id: target, now } => {
            match q.position(target) {
                Some(c) => {
                    lemma_position_sound(q, target);
                    lemma_position_after_update(q, c, q.entries[c].applied(now), id);
                },
                None => {},
            }
        },
        QueueOp::MarkRetry { id: target, error, now } => {
            match q.position(target) {
                Some(c) => {
                    lemma_position_sound(q, target);
                    lemma_position_after_update(
                        q,
                        c,
                        q.entries[c].released(QueueStatus::Pending, error, now),
                        id,
                    );
                },
                None => {},
            }
        },
        QueueOp::MarkFailed { id: target, error, now } => {
            if q.fails_now(target) {
                let c = q.position(target).unwrap();
                lemma_position_sound(q, target);
                lemma_position_after_update(
                    q,
                    c,
                    q.entries[c].released(QueueStatus::Failed, error, now),
                    id,
                );
            }
        },
        QueueOp::Cleanup { ttl_secs, now } => {
            if q.logged().is_ok() {
                lemma_swept_entry_was_there(q, post, now - ttl_secs, true, id);
            }
        },
        QueueOp::PurgeApplied { ttl_secs, now } => {
            lemma_swept_entry_was_there(q, post, now - ttl_secs, false, id);
        },
        _ => {},
    }
}

/// Of two requests that are taken in one after the other, the first gets the lower
/// id.
pub proof fn enqueue_order_is_id_order(
    q: QueueView,
    a: ChangeRequestView,
    now_a: i64,
    b: ChangeRequestView,
    now_b: i64,
)
    requires
        q.wf(),
        q.enqueued().is_ok(),
        q.after_enqueue(a, now_a).enqueued().is_ok(),
    ensures
        q.enqueued().unwrap() < q.after_enqueue(a, now_a).enqueued().unwrap(),
{
}

/// Where nothing could be claimed before two requests were taken in, the first claim
/// after them goes to the first of the two.
pub proof fn first_claim_goes_to_first_enqueued(
    q: QueueView,
    a: ChangeRequestView,
    now_a: i64,
    b: ChangeRequestView,
    now_b: i64,
    now: i64,
    lease_seconds: u64,
    owner: Seq<char>,
)
    requires
        q.wf(),
        q.claim_position(now).is_none(),
        q.enqueued().is_ok(),
        q.after_enqueue(a, now_a).enqueued().is_ok(),
        now + lease_seconds <= i64::MAX,
    ensures
        ({
            let filled = q.after_enqueue(a, now_a).after_enqueue(b, now_b);
            let claimed = filled.dequeued(now, lease_seconds, owner);
            &&& claimed.is_ok()
            &&& claimed.unwrap().is_some()
            &&& claimed.unwrap().unwrap().id == q.enqueued().unwrap()
            &&& claimed.unwrap().unwrap().payload == a
            &&& claimed.unwrap().unwrap().attempts == 1
        }),
{
    let first = q.after_enqueue(a, now_a);
    let filled = first.after_enqueue(b, now_b);
    let at = q.entries.len() as int;
    assert(filled.entries[at] == q.fresh_entry(a, now_a));
    assert forall|k: int| 0 <= k < at implies !(#[trigger] filled.entries[k]).eligible(now) by {
        assert(filled.entries[k] == q.entries[k]);
        lemma_nothing_eligible(q, now, k);
    }
    assert(filled.first_eligible(now, at));
    let chosen = choose|c: int| filled.first_eligible(now, c);
    if chosen < at {
        assert(!filled.entries[chosen].eligible(now));
    }
    if chosen > at {
        assert(!filled.entries[at].eligible(now));
    }
}

/// Where nothing can be claimed, no entry is eligible.
proof fn lemma_nothing_eligible(q: QueueView, now: i64, k: int)
    requires
        q.claim_position(now).is_none(),
        0 <= k < q.entries.len(),
    ensures
        !q.entries[k].eligible(now),
    decreases k,
{
    if q.entries[k].eligible(now) {
        if exists|j: int| 0 <= j < k && (#[trigger] q.entries[j]).eligible(now) {
            let j = choose|j: int| 0 <= j < k && (#[trigger] q.entries[j]).eligible(now);
            lemma_nothing_eligible(q, now, j);
        } else {
            assert(q.first_eligible(now, k));
        }
    }
}

/// Two claims, one after the other as the store orders them, do not hand out the same
/// entry, unless the lease of the first had run out when the second was made.
pub proof fn two_claims_differ(
    q: QueueView,
    now_a: i64,
    lease_a: u64,
    owner_a: Seq<char>,
    now_b: i64,
    lease_b: u64,
    owner_b: Seq<char>,
)
    requires
        q.wf(),
        now_a + lease_a <= i64::MAX,
        now_b + lease_b <= i64::MAX,
        owner_a != owner_b,
        q.dequeued(now_a, lease_a, owner_a).is_ok(),
        q.dequeued(now_a, lease_a, owner_a).unwrap().is_some(),
        q.after_dequeue(now_a, lease_a, owner_a).dequeued(now_b, lease_b, owner_b).is_ok(),
        q.after_dequeue(now_a, lease_a, owner_a).dequeued(now_b, lease_b, owner_b).unwrap().is_some(),
    ensures
        ({
            let first = q.dequeued(now_a, lease_a, owner_a).unwrap().unwrap();
            let second = q.after_dequeue(now_a, lease_a, owner_a).dequeued(
                now_b,
                lease_b,
                owner_b,
            ).unwrap().unwrap();
            first.id != second.id || now_a + lease_a < now_b
        }),
{
    let mid = q.after_dequeue(now_a, lease_a, owner_a);
    let at = q.claim(now_a).unwrap().unwrap();
    let bt = mid.claim(now_b).unwrap().unwrap();
    assert(q.first_eligible(now_a, at));
    assert(mid.first_eligible(now_b, bt));
    step_keeps_order(q, QueueOp::Dequeue { now: now_a, lease_seconds: lease_a, owner: owner_a });
    if at == bt {
        assert(mid.entries[at].eligible(now_b));
    } else {
        assert(mid.entries[bt] == q.entries[bt]);
        if at < bt {
            assert(q.entries[at].id < q.entries[bt].id);
        } else {
            assert(q.entries[bt].id < q.entries[at].id);
        }
    }
}

/// An entry that is taken in, claimed and marked applied is then listed among the
/// applied ones, with the payload that was taken in. This is stated of a store in
/// which nothing older can be claimed and every applied payload can be read.
pub proof fn applied_entry_is_listed(
    q: QueueView,
    x: ChangeRequestView,
    now_in: i64,
    now_claim: i64,
    lease_seconds: u64,
    owner: Seq<char>,
    now_done: i64,
)
    requires
        q.wf(),
        q.enqueued().is_ok(),
        q.claim_position(now_claim).is_none(),
        q.listed(QueueStatus::Applied).is_ok(),
        now_claim + lease_seconds <= i64::MAX,
    ensures
        ({
            let id = q.enqueued().unwrap();
            let taken = q.after_enqueue(x, now_in);
            let claimed = taken.after_dequeue(now_claim, lease_seconds, owner);
            let done = claimed.after_mark_applied(id, now_done);
            &&& taken.dequeued(now_claim, lease_seconds, owner).is_ok()
            &&& taken.dequeued(now_claim, lease_seconds, owner).unwrap().is_some()
            &&& taken.dequeued(now_claim, lease_seconds, owner).unwrap().unwrap().id == id
            &&& claimed.marked_applied(id).is_ok()
            &&& done.listed(QueueStatus::Applied).is_ok()
            &&& exists|i: int|
                0 <= i < done.listed(QueueStatus::Applied).unwrap().len() && (
                #[trigger] done.listed(QueueStatus::Applied).unwrap()[i]).payload == x
                    && done.listed(QueueStatus::Applied).unwrap()[i].id == id
        }),
{
    let id = q.enqueued().unwrap();
    let taken = q.after_enqueue(x, now_in);
    let at = q.entries.len() as int;
    assert(taken.entries[at] == q.fresh_entry(x, now_in));
    assert forall|k: int| 0 <= k < at implies !(#[trigger] taken.entries[k]).eligible(
        now_claim,
    ) by {
        assert(taken.entries[k] == q.entries[k]);
        lemma_nothing_eligible(q, now_claim, k);
    }
    assert(taken.first_eligible(now_claim, at));
    let chosen = choose|c: int| taken.first_eligible(now_claim, c);
    if chosen < at {
        assert(!taken.entries[chosen].eligible(now_claim));
    }
    if chosen > at {
        assert(!taken.entries[at].eligible(now_claim));
    }
    assert(taken.claim(now_claim) == Ok::<Option<int>, QueueError>(Some(at)));
    let claimed = taken.after_dequeue(now_claim, lease_seconds, owner);
    step_keeps_order(q, QueueOp::Enqueue { request: x, now: now_in });
    step_keeps_order(
        taken,
        QueueOp::Dequeue { now: now_claim, lease_seconds, owner },
    );
    lemma_position_of(claimed, at);
    assert(claimed.entries[at].id == id);
    let done = claimed.after_mark_applied(id, now_done);
    let entry = done.entries[at];
    assert(entry.status == QueueStatus::Applied && entry.payload == Some(x) && entry.id == id);
    assert forall|i: int|
        0 <= i < done.entries.len() && (#[trigger] done.entries[i]).status
            == QueueStatus::Applied implies done.entries[i].payload.is_some() by {
        if i != at {
            assert(done.entries[i] == q.entries[i]);
        }
    }
    let pred = |e: EntryView| e.status == QueueStatus::Applied;
    done.entries.lemma_filter_contains(pred, at);
    let rows = done.entries.filter(pred);
    assert(rows.contains(entry));
    let i = choose|i: int| 0 <= i < rows.len() && rows[i] == entry;
    let listed = done.listed(QueueStatus::Applied).unwrap();
    assert(listed[i] == entry.record());
}

/// Marking an entry applied a second time changes nothing, and succeeds as the first
/// time did.
pub proof fn mark_applied_is_idempotent(q: QueueView, id: i64, now_first: i64, now_second: i64)
    requires
        q.marked_applied(id).is_ok(),
    ensures
        q.after_mark_applied(id, now_first).marked_applied(id).is_ok(),
        q.after_mark_applied(id, now_first).after_mark_applied(id, now_second)
            == q.after_mark_applied(id, now_first),
{
    lemma_position_sound(q, id);
    match q.position(id) {
        Some(at) => {
            lemma_position_after_update(q, at, q.entries[at].applied(now_first), id);
        },
        None => {},
    }
}

/// Marking an applied entry applied changes nothing.
pub proof fn mark_applied_on_applied_is_no_op(q: QueueView, id: i64, now: i64)
    requires
        q.status_of(id) == Some(QueueStatus::Applied),
    ensures
        q.marked_applied(id).is_ok(),
        q.after_mark_applied(id, now) == q,
{
}

/// The entry that a claim hands out is in progress, was claimed at least once, and
/// holds the lease that was asked for: until `now + lease_seconds`, for the owner who
/// claimed it.
pub proof fn claimed_entry_holds_the_lease(
    q: QueueView,
    now: i64,
    lease_seconds: u64,
    owner: Seq<char>,
)
    requires
        q.wf(),
        now + lease_seconds <= i64::MAX,
        q.dequeued(now, lease_seconds, owner).is_ok(),
        q.dequeued(now, lease_seconds, owner).unwrap().is_some(),
    ensures
        ({
            let record = q.dequeued(now, lease_seconds, owner).unwrap().unwrap();
            &&& record.status == QueueStatus::InProgress
            &&& record.attempts >= 1
            &&& record.leased_until == Some((now + lease_seconds) as i64)
            &&& record.lease_owner == Some(owner)
            &&& record.updated_at == now
            &&& q.after_dequeue(now, lease_seconds, owner).status_of(record.id) == Some(
                QueueStatus::InProgress,
            )
        }),
{
    let at = q.claim(now).unwrap().unwrap();
    assert(q.first_eligible(now, at));
    assert(q.entries[at].wf());
    step_keeps_order(q, QueueOp::Dequeue { now, lease_seconds, owner });
    lemma_position_of(q.after_dequeue(now, lease_seconds, owner), at);
}

/// A terminal entry stays as it is: whatever operation follows, the entry that is
/// applied or failed has that status still and is unchanged, or is gone.
pub proof fn terminal_status_is_final(q: QueueView, op: QueueOp, id: i64)
    requires
        q.wf(),
        op.admitted(),
        q.status_of(id).is_some(),
        q.status_of(id).unwrap().terminal(),
    ensures
        q.step(op).position(id).is_none() || q.step(op).entries[q.step(op).position(id).unwrap()]
            == q.entries[q.position(id).unwrap()],
{
    let post = q.step(op);
    lemma_position_sound(q, id);
    lemma_position_sound(post, id);
    let at = q.position(id).unwrap();
    match op {
        QueueOp::Enqueue { request, now } => {
            if q.enqueued().is_ok() {
                assert(post.entries[at] == q.entries[at]);
                step_keeps_order(q, op);
                lemma_position_of(post, at);
            }
        },
        QueueOp::Dequeue { now, lease_seconds, owner } => {
            match q.claim(now) {
                Ok(Some(c)) => {
                    assert(q.first_eligible(now, c));
                    lemma_position_after_update(
                        q,
                        c,
                        q.entries[c].claimed(now, (now + lease_seconds) as i64, owner),
                        id,
                    );
                },
                _ => {},
            }
        },
        QueueOp::MarkApplied { id: target, now } => {
            match q.position(target) {
                Some(c) => {
                    lemma_position_sound(q, target);
                    lemma_position_after_update(q, c, q.entries[c].applied(now), id);
                },
                None => {},
            }
        },
        QueueOp::MarkRetry { id: target, error, now } => {
            match q.position(target) {
                Some(c) => {
                    lemma_position_sound(q, target);
                    lemma_position_after_update(
                        q,
                        c,
                        q.entries[c].released(QueueStatus::Pending, error, now),
                        id,
                    );
                },
                None => {},
            }
        },
        QueueOp::MarkFailed { id: target, error, now } => {
            if q.fails_now(target) {
                let c = q.position(target).unwrap();
                lemma_position_sound(q, target);
                lemma_position_after_update(
                    q,
                    c,
                    q.entries[c].released(QueueStatus::Failed, error, now),
                    id,
                );
            }
        },
        QueueOp::Cleanup { ttl_secs, now } => {
            if q.logged().is_ok() {
                lemma_swept_entry_was_there(q, post, now - ttl_secs, true, id);
            }
        },
        QueueOp::PurgeApplied { ttl_secs, now } => {
            lemma_swept_entry_was_there(q, post, now - ttl_secs, false, id);
        },
        _ => {},
    }
}

/// The journal is only ever added to: after an operation it holds what it held, and
/// at most one event more, under an id that was never given out before.
pub proof fn journal_is_append_only(q: QueueView, op: QueueOp)
    requires
        q.wf(),
        op.admitted(),
    ensures
        q.step(op).logs == q.logs || (q.step(op).logs.len() == q.logs.len() + 1 && q.step(
            op,
        ).logs.drop_last() == q.logs && q.step(op).logs.last().id == q.last_log_id + 1),
{
    let post = q.step(op);
    match op {
        QueueOp::LogEvent { queue_id, task_id, level, message, details, now } => {
            if q.logged().is_ok() {
                assert(post.logs.drop_last() =~= q.logs);
            }
        },
        QueueOp::Cleanup { ttl_secs, now } => {
            if q.logged().is_ok() {
                assert(post.logs.drop_last() =~= q.logs);
            }
        },
        _ => {},
    }
}

/// A dead letter is never changed: every dead letter that is there after an operation
/// was there before as it is, or it is the one that the operation wrote, under an id
/// that was never given out before.
pub proof fn dead_letters_are_never_changed(q: QueueView, op: QueueOp, k: int)
    requires
        q.wf(),
        op.admitted(),
        0 <= k < q.step(op).dead_letters.len(),
    ensures
        q.dead_letters.contains(q.step(op).dead_letters[k]) || q.step(op).dead_letters[k].id
            == q.last_dead_letter_id + 1,
{
    let post = q.step(op);
    match op {
        QueueOp::MarkFailed { id, error, now } => {
            if q.fails_now(id) {
                if k < q.dead_letters.len() {
                    assert(q.dead_letters[k] == post.dead_letters[k]);
                }
            } else {
                assert(q.dead_letters[k] == post.dead_letters[k]);
            }
        },
        QueueOp::PurgeDeadLetters { ttl_secs, now } => {
            let pred = |d: DeadLetterView| d.failed_at >= now - ttl_secs;
            assert(post.dead_letters == q.dead_letters.filter(pred));
            lemma_filter_keeps_letter_order(q.dead_letters, pred);
            let j = choose|j: int|
                0 <= j < q.dead_letters.len() && q.dead_letters[j] == post.dead_letters[k];
            assert(q.dead_letters[j] == post.dead_letters[k]);
        },
        _ => {
            assert(q.dead_letters[k] == post.dead_letters[k]);
        },
    }
}

} // verus!
