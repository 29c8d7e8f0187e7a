use vstd::prelude::*;
use crate::text::{clone_strings, strings_view, text_eq};

verus! {

/// A number under a name, inside a detail that groups several.
#[derive(Debug)]
pub struct NamedInt {
    pub key: String,
    pub value: i64,
}

pub struct NamedIntView {
    pub key: Seq<char>,
    pub value: i64,
}

impl View for NamedInt {
    type V = NamedIntView;

    open spec fn view(&self) -> NamedIntView {
        NamedIntView { key: self.key@, value: self.value }
    }
}

impl Clone for NamedInt {
    fn clone(&self) -> (out: Self)
        ensures
            out@ == self@,
    {
        NamedInt { key: self.key.clone(), value: self.value }
    }
}

/// The views of a sequence of named numbers, one for one.
pub open spec fn named_ints_view(v: Seq<NamedInt>) -> Seq<NamedIntView> {
    v.map_values(|n: NamedInt| n@)
}

fn clone_named_ints(v: &Vec<NamedInt>) -> (out: Vec<NamedInt>)
    ensures
        named_ints_view(out@) == named_ints_view(v@),
{
    let mut out: Vec<NamedInt> = Vec::new();
    let mut i: usize = 0;
    while i < v.len()
        invariant
            i <= v.len(),
            out@.len() == i,
            forall|k: int| 0 <= k < i ==> out@[k]@ == v@[k]@,
        decreases v.len() - i,
    {
        out.push(v[i].clone());
        i = i + 1;
    }
    proof {
        assert(named_ints_view(out@) =~= named_ints_view(v@));
    }
    out
}

/// What one field of an event's details holds.
#[derive(Debug)]
pub enum DetailValue {
    /// A number that may be negative.
    Int(i64),
    /// A count or a measure: a number that is never negative.
    Count(u64),
    Flag(bool),
    Text(String),
    List(Vec<String>),
    /// Several numbers under one name.
    Group(Vec<NamedInt>),
    /// The field is there and holds nothing.
    Missing,
    /// A value that the queue stores and hands back without reading it.
    Opaque(String),
}

pub enum DetailValueView {
    Int(i64),
    Count(u64),
    Flag(bool),
    Text(Seq<char>),
    List(Seq<Seq<char>>),
    Group(Seq<NamedIntView>),
    Missing,
    Opaque(Seq<char>),
}

impl View for DetailValue {
    type V = DetailValueView;

    open spec fn view(&self) -> DetailValueView {
        match self {
            DetailValue::Int(i) => DetailValueView::Int(*i),
            DetailValue::Count(n) => DetailValueView::Count(*n),
            DetailValue::Flag(b) => DetailValueView::Flag(*b),
            DetailValue::Text(s) => DetailValueView::Text(s@),
            DetailValue::List(l) => DetailValueView::List(strings_view(l@)),
            DetailValue::Group(g) => DetailValueView::Group(named_ints_view(g@)),
            DetailValue::Missing => DetailValueView::Missing,
            DetailValue::Opaque(s) => DetailValueView::Opaque(s@),
        }
    }
}

impl Clone for DetailValue {
    fn clone(&self) -> (out: Self)
        ensures
            out@ == self@,
    {
        match self {
            DetailValue::Int(i) => DetailValue::Int(*i),
            DetailValue::Count(n) => DetailValue::Count(*n),
            DetailValue::Flag(b) => DetailValue::Flag(*b),
            DetailValue::Text(s) => DetailValue::Text(s.clone()),
            DetailValue::List(l) => DetailValue::List(clone_strings(l)),
            DetailValue::Group(g) => DetailValue::Group(clone_named_ints(g)),
            DetailValue::Missing => DetailValue::Missing,
            DetailValue::Opaque(s) => DetailValue::Opaque(s.clone()),
        }
    }
}

/// One named field of an event's details.
#[derive(Debug)]
pub struct DetailField {
    pub key: String,
    pub value: DetailValue,
}

pub struct DetailFieldView {
    pub key: Seq<char>,
    pub value: DetailValueView,
}

impl View for DetailField {
    type V = DetailFieldView;

    open spec fn view(&self) -> DetailFieldView {
        DetailFieldView { key: self.key@, value: self.value@ }
    }
}

impl Clone for DetailField {
    fn clone(&self) -> (out: Self)
        ensures
            out@ == self@,
    {
        DetailField { key: self.key.clone(), value: self.value.clone() }
    }
}

/// The views of a sequence of fields, one for one.
pub open spec fn fields_view(v: Seq<DetailField>) -> Seq<DetailFieldView> {
    v.map_values(|f: DetailField| f@)
}

/// The view of details that may be absent.
pub open spec fn details_view(d: Option<Vec<DetailField>>) -> Option<Seq<DetailFieldView>> {
    match d {
        Some(fields) => Some(fields_view(fields@)),
        None => None,
    }
}

/// A copy of a list of fields.
pub fn clone_fields(v: &Vec<DetailField>) -> (out: Vec<DetailField>)
    ensures
        fields_view(out@) == fields_view(v@),
{
    let mut out: Vec<DetailField> = Vec::new();
    let mut i: usize = 0;
    while i < v.len()
        invariant
            i <= v.len(),
            out@.len() == i,
            forall|k: int| 0 <= k < i ==> out@[k]@ == v@[k]@,
        decreases v.len() - i,
    {
        out.push(v[i].clone());
        i = i + 1;
    }
    proof {
        assert(fields_view(out@) =~= fields_view(v@));
    }
    out
}

/// A copy of details that may be absent.
pub fn clone_details(d: &Option<Vec<DetailField>>) -> (out: Option<Vec<DetailField>>)
    ensures
        details_view(out) == details_view(*d),
{
    match d {
        Some(fields) => Some(clone_fields(fields)),
        None => None,
    }
}

/// The field at `at` is the first one named `key`.
pub open spec fn is_first_field(fields: Seq<DetailFieldView>, key: Seq<char>, at: int) -> bool {
    &&& 0 <= at < fields.len()
    &&& fields[at].key == key
    &&& forall|k: int| 0 <= k < at ==> (#[trigger] fields[k]).key != key
}

/// The measure that details hold under `key`: the count of the first field of that
/// name, if it is a count; nothing if there are no details, no such field, or the
/// field holds something else.
pub open spec fn measure(details: Option<Seq<DetailFieldView>>, key: Seq<char>) -> Option<u64> {
    match details {
        Some(fields) => {
            if exists|at: int| is_first_field(fields, key, at) {
                let at = choose|at: int| is_first_field(fields, key, at);
                match fields[at].value {
                    DetailValueView::Count(m) => Some(m),
                    _ => None,
                }
            } else {
                None
            }
        },
        None => None,
    }
}

/// Reads a measure out of an event's details: the count held by the first field named
/// `key`.
pub fn read_measure(details: &Option<Vec<DetailField>>, key: &str) -> (out: Option<u64>)
    ensures
        out == measure(details_view(*details), key@),
{
    match details {
        None => None,
        Some(fields) => {
            let ghost fv = fields_view(fields@);
            let mut i: usize = 0;
            while i < fields.len()
                invariant
                    i <= fields.len(),
                    fv == fields_view(fields@),
                    details_view(*details) == Some(fv),
                    forall|j: int| 0 <= j < i ==> (#[trigger] fv[j]).key != key@,
                decreases fields.len() - i,
            {
                proof {
                    assert(fv[i as int] == fields@[i as int]@);
                }
                if text_eq(fields[i].key.as_str(), key) {
                    let found = match &fields[i].value {
                        DetailValue::Count(m) => Some(*m),
                        _ => None,
                    };
                    proof {
                        assert(is_first_field(fv, key@, i as int));
                        let at = choose|at: int| is_first_field(fv, key@, at);
                        assert(at == i) by {
                            if at < i {
                                assert(fv[at].key != key@);
                            }
                            if at > i {
                                assert(fv[i as int].key != key@);
                            }
                        }
                    }
                    return found;
                }
                i = i + 1;
            }
            proof {
                assert forall|at: int| !is_first_field(fv, key@, at) by {
                    if 0 <= at < fv.len() {
                        assert(fv[at].key != key@);
                    }
                }
            }
            None
        },
    }
}

/// One event of the journal. Events are added and never changed.
#[derive(Debug)]
pub struct ChangeQueueLog {
    pub id: i64,
    /// The entry that the event is about; 0 for an event about none.
    pub queue_id: i64,
    pub task_id: String,
    pub level: String,
    pub message: String,
    pub details: Option<Vec<DetailField>>,
    pub created_at: i64,
}

pub struct ChangeQueueLogView {
    pub id: i64,
    pub queue_id: i64,
    pub task_id: Seq<char>,
    pub level: Seq<char>,
    pub message: Seq<char>,
    pub details: Option<Seq<DetailFieldView>>,
    pub created_at: i64,
}

impl View for ChangeQueueLog {
    type V = ChangeQueueLogView;

    open spec fn view(&self) -> ChangeQueueLogView {
        ChangeQueueLogView {
            id: self.id,
            queue_id: self.queue_id,
            task_id: self.task_id@,
            level: self.level@,
            message: self.message@,
            details: details_view(self.details),
            created_at: self.created_at,
        }
    }
}

impl Clone for ChangeQueueLog {
    fn clone(&self) -> (out: Self)
        ensures
            out@ == self@,
    {
        ChangeQueueLog {
            id: self.id,
            queue_id: self.queue_id,
            task_id: self.task_id.clone(),
            level: self.level.clone(),
            message: self.message.clone(),
            details: clone_details(&self.details),
            created_at: self.created_at,
        }
    }
}

/// One change to a file that the notifier saw.
#[derive(Debug)]
pub struct FileModification {
    pub id: i64,
    pub path: String,
    pub event: String,
    pub source: String,
    pub details: Option<Vec<DetailField>>,
    pub created_at: i64,
}

pub struct FileModificationView {
    pub id: i64,
    pub path: Seq<char>,
    pub event: Seq<char>,
    pub source: Seq<char>,
    pub details: Option<Seq<DetailFieldView>>,
    pub created_at: i64,
}

impl View for FileModification {
    type V = FileModificationView;

    open spec fn view(&self) -> FileModificationView {
        FileModificationView {
            id: self.id,
            path: self.path@,
            event: self.event@,
            source: self.source@,
            details: details_view(self.details),
            created_at: self.created_at,
        }
    }
}

impl Clone for FileModification {
    fn clone(&self) -> (out: Self)
        ensures
            out@ == self@,
    {
        FileModification {
            id: self.id,
            path: self.path.clone(),
            event: self.event.clone(),
            source: self.source.clone(),
            details: clone_details(&self.details),
            created_at: self.created_at,
        }
    }
}

/// The views of a sequence of events, one for one.
pub open spec fn logs_view(v: Seq<ChangeQueueLog>) -> Seq<ChangeQueueLogView> {
    v.map_values(|l: ChangeQueueLog| l@)
}

/// The views of a sequence of records of changes to files, one for one.
pub open spec fn file_events_view(v: Seq<FileModification>) -> Seq<FileModificationView> {
    v.map_values(|f: FileModification| f@)
}

} // verus!
