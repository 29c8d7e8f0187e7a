use vstd::prelude::*;
use std::collections::VecDeque;
use crate::journal::{fields_view, DetailField, DetailFieldView, DetailValue, DetailValueView};
use crate::queue::SqliteQueue;
use crate::store::QueueView;
use crate::text::{strings_view, trim, trimmed};

verus! {

/// How many paths the list of the files changed last holds at most.
pub const RECENT_FILES: usize = 10;

/// What happened to a file.
#[derive(Clone, Copy, Debug, PartialEq, Eq, Structural)]
pub enum FsEventKind {
    Create,
    Modify,
    Remove,
    /// The file was read, or something happened that changes nothing.
    Other,
}

impl FsEventKind {
    /// Whether the event is one that is written down: a file was made, changed or
    /// taken away.
    pub open spec fn is_change(self) -> bool {
        self != FsEventKind::Other
    }
}

/// The views of the paths in a list, one for one.
pub open spec fn paths_view(files: Seq<String>) -> Seq<Seq<char>> {
    strings_view(files)
}

/// The list of the files changed last after one more: the new path stands first, and
/// the last one leaves where the list would grow beyond ten.
pub open spec fn noted(files: Seq<Seq<char>>, path: Seq<char>) -> Seq<Seq<char>> {
    let grown = seq![path] + files;
    if grown.len() > RECENT_FILES {
        grown.drop_last()
    } else {
        grown
    }
}

/// Puts a path at the head of the list of the files changed last, and drops the last
/// one where the list would grow beyond ten.
pub fn note_modified(files: &mut VecDeque<String>, path: String)
    ensures
        paths_view(final(files)@) == noted(paths_view(old(files)@), path@),
{
    files.push_front(path);
    proof {
        assert(paths_view(files@) =~= seq![path@] + paths_view(old(files)@));
    }
    if files.len() > RECENT_FILES {
        let ghost grown = files@;
        let _ = files.pop_back();
        proof {
            assert(paths_view(files@) =~= paths_view(grown).drop_last());
        }
    }
}

/// What the journal keeps of a change to a file.
pub open spec fn change_details(path: Seq<char>, event: Seq<char>) -> Seq<DetailFieldView> {
    seq![
        DetailFieldView { key: "path"@, value: DetailValueView::Text(path) },
        DetailFieldView { key: "event"@, value: DetailValueView::Text(event) },
    ]
}

/// The store after a change to a file was taken in: one event in the journal and one
/// record among the changes to files, both of the trimmed path. Another event leaves
/// the store as it is.
pub open spec fn after_file_event(
    q: QueueView,
    kind: FsEventKind,
    event: Seq<char>,
    path: Seq<char>,
    now: i64,
) -> QueueView {
    if kind.is_change() {
        q.after_log_event(
            0,
            "fsnotify"@,
            "info"@,
            "file modified"@,
            Some(change_details(trimmed(path), event)),
            now,
        ).after_record_file_event(
            trimmed(path),
            event,
            "fsnotify"@,
            Some(change_details(trimmed(path), event)),
            now,
        )
    } else {
        q
    }
}

fn make_details(path: &str, event: &str) -> (out: Vec<DetailField>)
    ensures
        fields_view(out@) == change_details(path@, event@),
{
    let mut out: Vec<DetailField> = Vec::new();
    out.push(DetailField { key: "path".to_owned(), value: DetailValue::Text(path.to_owned()) });
    out.push(DetailField { key: "event".to_owned(), value: DetailValue::Text(event.to_owned()) });
    proof {
        assert(fields_view(out@) =~= change_details(path@, event@));
    }
    out
}

/// Takes in what the notifier saw of one file: where a file was made, changed or taken
/// away, its path goes to the head of the list of the files changed last, and the
/// store gets an event and a record; else nothing changes. `event` names the kind as
/// it is written down.
pub fn on_file_event(
    queue: &mut SqliteQueue,
    files: &mut VecDeque<String>,
    kind: FsEventKind,
    event: &str,
    path: &str,
    now: i64,
)
    ensures
        final(queue)@ == after_file_event(old(queue)@, kind, event@, path@, now),
        final(queue).file() == old(queue).file(),
        paths_view(final(files)@) == if kind.is_change() {
            noted(paths_view(old(files)@), trimmed(path@))
        } else {
            paths_view(old(files)@)
        },
{
    match kind {
        FsEventKind::Other => {
            return ;
        },
        _ => {},
    }
    let trimmed_path = trim(path);
    note_modified(files, trimmed_path.clone());
    let _ = queue.log_event(
        0,
        "fsnotify",
        "info",
        "file modified",
        Some(make_details(trimmed_path.as_str(), event)),
        now,
    );
    let _ = queue.record_file_event(
        trimmed_path.as_str(),
        event,
        "fsnotify",
        Some(make_details(trimmed_path.as_str(), event)),
        now,
    );
}

} // verus!
