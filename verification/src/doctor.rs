use vstd::prelude::*;
use crate::journal::{fields_view, DetailField, DetailFieldView, DetailValue, DetailValueView, NamedInt, NamedIntView};
use crate::models::WalCheckpointStats;
use crate::order::greatest_of;
use crate::queue::SqliteQueue;
use crate::schema::{check_schema, schema_fault, SchemaListing, SchemaListingView};
use crate::store::QueueView;
use crate::text::{
    decimal, push_decimal, push_signed_decimal, push_text, signed_decimal, strings_view,
};

verus! {

/// How long an applied entry is kept, in seconds: a week.
pub const DEFAULT_APPLIED_RETENTION_SECS: i64 = 604800;

/// How long a dead letter is kept, in seconds: thirty days.
pub const DEFAULT_DEADLETTER_RETENTION_SECS: i64 = 2592000;

/// The stretch in which repeated requests are counted, in seconds: five minutes.
pub const DEFAULT_DEDUP_WINDOW_SECS: i64 = 300;

/// What the diagnostics found.
#[derive(Clone, Copy, Debug, PartialEq, Eq, Structural)]
pub struct DoctorReport {
    /// Applied entries that are older than they are kept.
    pub stale_applied: usize,
    /// Dead letters that are older than they are kept.
    pub stale_dead_letters: usize,
    /// Events `dedup_hit` of the last five minutes.
    pub dedup_hits: usize,
    /// When the last cleanup was written down, if ever.
    pub last_cleanup: Option<i64>,
    /// How long ago an entry was last touched, if there is one, held to what can be
    /// written.
    pub timestamp_skew_secs: Option<i64>,
    pub wal: WalCheckpointStats,
}

/// A time that is subtracted from another, held to the times that can be written.
pub open spec fn held_difference(a: i64, b: i64) -> i64 {
    if a - b > i64::MAX {
        i64::MAX
    } else if a - b < i64::MIN {
        i64::MIN
    } else {
        (a - b) as i64
    }
}

fn difference(a: i64, b: i64) -> (d: i64)
    ensures
        d == held_difference(a, b),
{
    let wide: i128 = (a as i128) - (b as i128);
    if wide > i64::MAX as i128 {
        i64::MAX
    } else if wide < i64::MIN as i128 {
        i64::MIN
    } else {
        wide as i64
    }
}

/// What the diagnostics find in a store at `now`.
pub open spec fn findings(q: QueueView, wal: WalCheckpointStats, now: i64) -> DoctorReport {
    DoctorReport {
        stale_applied: q.applied_older_than(DEFAULT_APPLIED_RETENTION_SECS, now) as usize,
        stale_dead_letters: q.dead_letters_older_than(DEFAULT_DEADLETTER_RETENTION_SECS, now) as usize,
        dedup_hits: q.event_count_since(
            "dedup_hit"@,
            held_difference(now, DEFAULT_DEDUP_WINDOW_SECS),
        ) as usize,
        last_cleanup: greatest_of(q.event_times("cleanup"@)),
        timestamp_skew_secs: match greatest_of(q.update_times()) {
            Some(t) => Some(held_difference(now, t)),
            None => None,
        },
        wal,
    }
}

/// A number that may be absent, as a detail.
pub open spec fn optional_int(value: Option<i64>) -> DetailValueView {
    match value {
        Some(v) => DetailValueView::Int(v),
        None => DetailValueView::Missing,
    }
}

/// What the journal keeps of the diagnostics.
pub open spec fn report_details(report: DoctorReport) -> Seq<DetailFieldView> {
    seq![
        DetailFieldView {
            key: "applied_retention_secs"@,
            value: DetailValueView::Int(DEFAULT_APPLIED_RETENTION_SECS),
        },
        DetailFieldView {
            key: "dead_letter_retention_secs"@,
            value: DetailValueView::Int(DEFAULT_DEADLETTER_RETENTION_SECS),
        },
        DetailFieldView {
            key: "stale_applied_rows"@,
            value: DetailValueView::Count(report.stale_applied as u64),
        },
        DetailFieldView {
            key: "stale_dead_letters"@,
            value: DetailValueView::Count(report.stale_dead_letters as u64),
        },
        DetailFieldView {
            key: "dedup_window_secs"@,
            value: DetailValueView::Int(DEFAULT_DEDUP_WINDOW_SECS),
        },
        DetailFieldView { key: "dedup_hits"@, value: DetailValueView::Count(report.dedup_hits as u64) },
        DetailFieldView { key: "last_cleanup"@, value: optional_int(report.last_cleanup) },
        DetailFieldView {
            key: "timestamp_skew_secs"@,
            value: optional_int(report.timestamp_skew_secs),
        },
        DetailFieldView {
            key: "wal_checkpoint"@,
            value: DetailValueView::Group(
                seq![
                    NamedIntView { key: "checkpointed"@, value: report.wal.checkpointed },
                    NamedIntView { key: "log"@, value: report.wal.log },
                    NamedIntView { key: "wal"@, value: report.wal.wal },
                ],
            ),
        },
    ]
}

/// What the diagnostics print, line by line.
pub open spec fn report_lines(report: DoctorReport) -> Seq<Seq<char>> {
    seq![
        "Queue diagnostics: schema OK"@,
        "- applied rows older than "@ + signed_decimal(DEFAULT_APPLIED_RETENTION_SECS as int)
            + "s: "@ + decimal(report.stale_applied as nat),
        "- dead letters older than "@ + signed_decimal(DEFAULT_DEADLETTER_RETENTION_SECS as int)
            + "s: "@ + decimal(report.stale_dead_letters as nat),
        "- dedup hits within "@ + signed_decimal(DEFAULT_DEDUP_WINDOW_SECS as int) + "s window: "@
            + decimal(report.dedup_hits as nat),
        match report.last_cleanup {
            Some(t) => "- last cleanup sweep recorded at epoch "@ + signed_decimal(t as int),
            None => "- cleanup sweep not yet run"@,
        },
    ] + (match report.timestamp_skew_secs {
        Some(skew) => seq![
            "- timestamp skew (now - latest update): "@ + signed_decimal(skew as int) + "s"@,
        ],
        None => Seq::empty(),
    }) + seq![
        "- WAL checkpoint (passive): checkpointed="@ + signed_decimal(
            report.wal.checkpointed as int,
        ) + ", log="@ + signed_decimal(report.wal.log as int) + ", wal="@ + signed_decimal(
            report.wal.wal as int,
        ),
    ]
}

fn optional_int_value(value: Option<i64>) -> (out: DetailValue)
    ensures
        out@ == optional_int(value),
{
    match value {
        Some(v) => DetailValue::Int(v),
        None => DetailValue::Missing,
    }
}

fn make_field(key: &str, value: DetailValue) -> (out: DetailField)
    ensures
        out@ == (DetailFieldView { key: key@, value: value@ }),
{
    DetailField { key: key.to_owned(), value }
}

/// What the journal keeps of the diagnostics.
pub fn details_of(report: &DoctorReport) -> (out: Vec<DetailField>)
    ensures
        fields_view(out@) == report_details(*report),
{
    let mut out: Vec<DetailField> = Vec::new();
    out.push(make_field("applied_retention_secs", DetailValue::Int(DEFAULT_APPLIED_RETENTION_SECS)));
    out.push(
        make_field("dead_letter_retention_secs", DetailValue::Int(DEFAULT_DEADLETTER_RETENTION_SECS)),
    );
    out.push(make_field("stale_applied_rows", DetailValue::Count(report.stale_applied as u64)));
    out.push(make_field("stale_dead_letters", DetailValue::Count(report.stale_dead_letters as u64)));
    out.push(make_field("dedup_window_secs", DetailValue::Int(DEFAULT_DEDUP_WINDOW_SECS)));
    out.push(make_field("dedup_hits", DetailValue::Count(report.dedup_hits as u64)));
    out.push(make_field("last_cleanup", optional_int_value(report.last_cleanup)));
    out.push(make_field("timestamp_skew_secs", optional_int_value(report.timestamp_skew_secs)));
    let mut group: Vec<NamedInt> = Vec::new();
    group.push(NamedInt { key: "checkpointed".to_owned(), value: report.wal.checkpointed });
    group.push(NamedInt { key: "log".to_owned(), value: report.wal.log });
    group.push(NamedInt { key: "wal".to_owned(), value: report.wal.wal });
    proof {
        assert(crate::journal::named_ints_view(group@) =~= seq![
            NamedIntView { key: "checkpointed"@, value: report.wal.checkpointed },
            NamedIntView { key: "log"@, value: report.wal.log },
            NamedIntView { key: "wal"@, value: report.wal.wal },
        ]);
    }
    out.push(make_field("wal_checkpoint", DetailValue::Group(group)));
    proof {
        assert(fields_view(out@) =~= report_details(*report));
    }
    out
}

/// What the diagnostics print, line by line.
pub fn lines_of(report: &DoctorReport) -> (out: Vec<String>)
    ensures
        strings_view(out@) == report_lines(*report),
{
    let mut out: Vec<String> = Vec::new();
    out.push("Queue diagnostics: schema OK".to_owned());
    let mut applied = String::new();
    push_text(&mut applied, "- applied rows older than ");
    push_signed_decimal(&mut applied, DEFAULT_APPLIED_RETENTION_SECS);
    push_text(&mut applied, "s: ");
    push_decimal(&mut applied, report.stale_applied as u64);
    out.push(applied);
    let mut dead = String::new();
    push_text(&mut dead, "- dead letters older than ");
    push_signed_decimal(&mut dead, DEFAULT_DEADLETTER_RETENTION_SECS);
    push_text(&mut dead, "s: ");
    push_decimal(&mut dead, report.stale_dead_letters as u64);
    out.push(dead);
    let mut dedup = String::new();
    push_text(&mut dedup, "- dedup hits within ");
    push_signed_decimal(&mut dedup, DEFAULT_DEDUP_WINDOW_SECS);
    push_text(&mut dedup, "s window: ");
    push_decimal(&mut dedup, report.dedup_hits as u64);
    out.push(dedup);
    match report.last_cleanup {
        Some(t) => {
            let mut line = String::new();
            push_text(&mut line, "- last cleanup sweep recorded at epoch ");
            push_signed_decimal(&mut line, t);
            out.push(line);
        },
        None => {
            out.push("- cleanup sweep not yet run".to_owned());
        },
    }
    match report.timestamp_skew_secs {
        Some(skew) => {
            let mut line = String::new();
            push_text(&mut line, "- timestamp skew (now - latest update): ");
            push_signed_decimal(&mut line, skew);
            push_text(&mut line, "s");
            out.push(line);
        },
        None => {},
    }
    let mut wal = String::new();
    push_text(&mut wal, "- WAL checkpoint (passive): checkpointed=");
    push_signed_decimal(&mut wal, report.wal.checkpointed);
    push_text(&mut wal, ", log=");
    push_signed_decimal(&mut wal, report.wal.log);
    push_text(&mut wal, ", wal=");
    push_signed_decimal(&mut wal, report.wal.wal);
    out.push(wal);
    proof {
        assert(strings_view(out@) =~= report_lines(*report));
    }
    out
}

/// What a run of the diagnostics returned, the fault by its view.
pub open spec fn run_view(result: Result<DoctorReport, String>) -> Result<DoctorReport, Seq<char>> {
    match result {
        Ok(r) => Ok(r),
        Err(e) => Err(e@),
    }
}

/// What the diagnostics return: the fault of the schema, or what was found.
pub open spec fn diagnosed(
    q: QueueView,
    listing: SchemaListingView,
    wal: WalCheckpointStats,
    now: i64,
) -> Result<DoctorReport, Seq<char>> {
    match schema_fault(listing) {
        Some(fault) => Err(fault),
        None => Ok(findings(q, wal, now)),
    }
}

/// The store after the diagnostics: where the schema is in order, the journal has one
/// more event, `diagnostics passed`, with what was found.
pub open spec fn after_diagnosis(
    q: QueueView,
    listing: SchemaListingView,
    wal: WalCheckpointStats,
    now: i64,
) -> QueueView {
    match schema_fault(listing) {
        Some(fault) => q,
        None => q.after_log_event(
            0,
            "doctor"@,
            "info"@,
            "diagnostics passed"@,
            Some(report_details(findings(q, wal, now))),
            now,
        ),
    }
}

/// Runs the diagnostics on what the store's file reports of its schema and of its last
/// checkpoint. Succeeds exactly where the schema lacks nothing.
pub fn run(queue: &mut SqliteQueue, listing: &SchemaListing, wal: WalCheckpointStats, now: i64) -> (result:
    Result<DoctorReport, String>)
    ensures
        run_view(result) == diagnosed(old(queue)@, listing@, wal, now),
        final(queue)@ == after_diagnosis(old(queue)@, listing@, wal, now),
        final(queue).file() == old(queue).file(),
{
    match check_schema(listing) {
        Err(fault) => {
            return Err(fault);
        },
        Ok(()) => {},
    }
    let skew = match queue.max_updated_timestamp() {
        Some(t) => Some(difference(now, t)),
        None => None,
    };
    let report = DoctorReport {
        stale_applied: queue.count_applied_older_than(DEFAULT_APPLIED_RETENTION_SECS, now),
        stale_dead_letters: queue.count_dead_letters_older_than(
            DEFAULT_DEADLETTER_RETENTION_SECS,
            now,
        ),
        dedup_hits: queue.count_events_since(
            "dedup_hit",
            difference(now, DEFAULT_DEDUP_WINDOW_SECS),
        ),
        last_cleanup: queue.last_event_time("cleanup"),
        timestamp_skew_secs: skew,
        wal,
    };
    let details = details_of(&report);
    let _ = queue.log_event(0, "doctor", "info", "diagnostics passed", Some(details), now);
    Ok(report)
}

} // verus!
