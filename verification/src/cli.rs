use vstd::prelude::*;
use crate::doctor::DEFAULT_APPLIED_RETENTION_SECS;
use crate::models::{DeadLetterRecord, DeadLetterRecordView, QueueRecord, QueueRecordView};
use crate::queue::{dead_records_view, records_view};

verus! {

/// The first `limit` of a list, or all of it where no limit is set or the list is
/// shorter.
pub open spec fn limited<T>(list: Seq<T>, limit: Option<usize>) -> Seq<T> {
    match limit {
        Some(n) => if n < list.len() {
            list.take(n as int)
        } else {
            list
        },
        None => list,
    }
}

/// The entries that were made at `since` or later, in their order; all where no time
/// is set.
pub open spec fn records_since(records: Seq<QueueRecordView>, since: Option<i64>) -> Seq<
    QueueRecordView,
> {
    match since {
        Some(t) => records.filter(|r: QueueRecordView| r.created_at >= t),
        None => records,
    }
}

/// The dead letters that were written at `since` or later, in their order; all where
/// no time is set.
pub open spec fn letters_since(records: Seq<DeadLetterRecordView>, since: Option<i64>) -> Seq<
    DeadLetterRecordView,
> {
    match since {
        Some(t) => records.filter(|r: DeadLetterRecordView| r.failed_at >= t),
        None => records,
    }
}

/// What a listing of entries shows: those made at `since` or later, and of these the
/// first `limit`.
pub fn select_records(records: &Vec<QueueRecord>, since: Option<i64>, limit: Option<usize>) -> (out:
    Vec<QueueRecord>)
    ensures
        records_view(out@) == limited(records_since(records_view(records@), since), limit),
{
    let ghost views = records_view(records@);
    let mut kept: Vec<QueueRecord> = Vec::new();
    match since {
        None => {
            let mut i: usize = 0;
            while i < records.len()
                invariant
                    i <= records.len(),
                    kept@.len() == i,
                    forall|k: int| 0 <= k < i ==> (#[trigger] kept@[k])@ == records@[k]@,
                decreases records.len() - i,
            {
                kept.push(records[i].clone());
                i = i + 1;
            }
            proof {
                assert(records_view(kept@) =~= views);
            }
        },
        Some(t) => {
            let ghost pred = |r: QueueRecordView| r.created_at >= t;
            let mut i: usize = 0;
            proof {
                assert(views.take(0) =~= Seq::empty());
                Seq::<QueueRecordView>::empty().lemma_filter_len(pred);
                assert(records_view(kept@) =~= views.take(0).filter(pred));
            }
            while i < records.len()
                invariant
                    i <= records.len(),
                    views == records_view(records@),
                    pred == (|r: QueueRecordView| r.created_at >= t),
                    records_view(kept@) == views.take(i as int).filter(pred),
                decreases records.len() - i,
            {
                let record = &records[i];
                proof {
                    assert(views[i as int] == record@);
                    assert(views.take(i + 1) =~= views.take(i as int).push(record@));
                    Seq::lemma_filter_push(views.take(i as int), record@, pred);
                }
                if record.created_at >= t {
                    let ghost before = records_view(kept@);
                    kept.push(record.clone());
                    proof {
                        assert(records_view(kept@) =~= before.push(record@));
                    }
                }
                i = i + 1;
            }
            proof {
                assert(views.take(views.len() as int) =~= views);
            }
        },
    }
    match limit {
        Some(n) => {
            if n < kept.len() {
                let ghost whole = records_view(kept@);
                kept.truncate(n);
                proof {
                    assert(records_view(kept@) =~= whole.take(n as int));
                }
            }
        },
        None => {},
    }
    kept
}

/// What a listing of dead letters shows: those written at `since` or later, and of
/// these the first `limit`.
pub fn select_dead_letters(
    records: &Vec<DeadLetterRecord>,
    since: Option<i64>,
    limit: Option<usize>,
) -> (out: Vec<DeadLetterRecord>)
    ensures
        dead_records_view(out@) == limited(letters_since(dead_records_view(records@), since), limit),
{
    let ghost views = dead_records_view(records@);
    let mut kept: Vec<DeadLetterRecord> = Vec::new();
    match since {
        None => {
            let mut i: usize = 0;
            while i < records.len()
                invariant
                    i <= records.len(),
                    kept@.len() == i,
                    forall|k: int| 0 <= k < i ==> (#[trigger] kept@[k])@ == records@[k]@,
                decreases records.len() - i,
            {
                kept.push(records[i].clone());
                i = i + 1;
            }
            proof {
                assert(dead_records_view(kept@) =~= views);
            }
        },
        Some(t) => {
            let ghost pred = |r: DeadLetterRecordView| r.failed_at >= t;
            let mut i: usize = 0;
            proof {
                assert(views.take(0) =~= Seq::empty());
                Seq::<DeadLetterRecordView>::empty().lemma_filter_len(pred);
                assert(dead_records_view(kept@) =~= views.take(0).filter(pred));
            }
            while i < records.len()
                invariant
                    i <= records.len(),
                    views == dead_records_view(records@),
                    pred == (|r: DeadLetterRecordView| r.failed_at >= t),
                    dead_records_view(kept@) == views.take(i as int).filter(pred),
                decreases records.len() - i,
            {
                let record = &records[i];
                proof {
                    assert(views[i as int] == record@);
                    assert(views.take(i + 1) =~= views.take(i as int).push(record@));
                    Seq::lemma_filter_push(views.take(i as int), record@, pred);
                }
                if record.failed_at >= t {
                    let ghost before = dead_records_view(kept@);
                    kept.push(record.clone());
                    proof {
                        assert(dead_records_view(kept@) =~= before.push(record@));
                    }
                }
                i = i + 1;
            }
            proof {
                assert(views.take(views.len() as int) =~= views);
            }
        },
    }
    match limit {
        Some(n) => {
            if n < kept.len() {
                let ghost whole = dead_records_view(kept@);
                kept.truncate(n);
                proof {
                    assert(dead_records_view(kept@) =~= whole.take(n as int));
                }
            }
        },
        None => {},
    }
    kept
}

/// The age beyond which a cleanup removes terminal entries: the one that is asked
/// for, or a week where none is; and a second at least.
pub open spec fn cleanup_age(ttl_seconds: Option<i64>) -> i64 {
    let asked = match ttl_seconds {
        Some(t) => t,
        None => DEFAULT_APPLIED_RETENTION_SECS,
    };
    if asked < 1 {
        1
    } else {
        asked
    }
}

/// The age beyond which a cleanup removes terminal entries.
pub fn cleanup_ttl(ttl_seconds: Option<i64>) -> (ttl: i64)
    ensures
        ttl == cleanup_age(ttl_seconds),
        ttl >= 1,
{
    let asked = match ttl_seconds {
        Some(t) => t,
        None => DEFAULT_APPLIED_RETENTION_SECS,
    };
    if asked < 1 {
        1
    } else {
        asked
    }
}

} // verus!
