use vstd::prelude::*;
use crate::text::{push_text, strings_view, text_eq};

verus! {

/// The names that the store's file reports: the columns and the indexes of the queue's
/// table, and the columns of the dead letters' table.
#[derive(Debug)]
pub struct SchemaListing {
    pub queue_columns: Vec<String>,
    pub queue_indexes: Vec<String>,
    pub dead_letter_columns: Vec<String>,
}

pub struct SchemaListingView {
    pub queue_columns: Seq<Seq<char>>,
    pub queue_indexes: Seq<Seq<char>>,
    pub dead_letter_columns: Seq<Seq<char>>,
}

impl View for SchemaListing {
    type V = SchemaListingView;

    open spec fn view(&self) -> SchemaListingView {
        SchemaListingView {
            queue_columns: strings_view(self.queue_columns@),
            queue_indexes: strings_view(self.queue_indexes@),
            dead_letter_columns: strings_view(self.dead_letter_columns@),
        }
    }
}

/// The columns that the queue's table must have, in the order in which they are looked
/// for.
pub open spec fn required_columns() -> Seq<Seq<char>> {
    seq![
        "id"@,
        "status"@,
        "payload"@,
        "attempts"@,
        "leased_until"@,
        "lease_owner"@,
        "updated_at"@,
    ]
}

/// The first of the required names, from place `from` on, that is not among `names`.
pub open spec fn first_missing(names: Seq<Seq<char>>, required: Seq<Seq<char>>, from: int) -> Option<
    Seq<char>,
>
    decreases required.len() - from,
{
    if from < 0 || from >= required.len() {
        None
    } else if !names.contains(required[from]) {
        Some(required[from])
    } else {
        first_missing(names, required, from + 1)
    }
}

/// What is wrong with a schema, in words: the first thing that is missing, or nothing
/// where all required columns and indexes are there.
pub open spec fn schema_fault(listing: SchemaListingView) -> Option<Seq<char>> {
    match first_missing(listing.queue_columns, required_columns(), 0) {
        Some(column) => Some("missing column "@ + column + " in change_queue"@),
        None => {
            if !listing.queue_indexes.contains("idx_change_queue_status"@) {
                Some("missing idx_change_queue_status"@)
            } else if !listing.queue_indexes.contains("idx_change_queue_status_lease_id"@) {
                Some("missing idx_change_queue_status_lease_id"@)
            } else if !listing.dead_letter_columns.contains("failed_at"@) {
                Some("missing failed_at in dead_letters"@)
            } else {
                None
            }
        },
    }
}

/// Whether `name` is among `names`.
pub fn has_name(names: &Vec<String>, name: &str) -> (found: bool)
    ensures
        found == strings_view(names@).contains(name@),
{
    let mut i: usize = 0;
    while i < names.len()
        invariant
            i <= names.len(),
            forall|k: int| 0 <= k < i ==> strings_view(names@)[k] != name@,
        decreases names.len() - i,
    {
        proof {
            assert(strings_view(names@)[i as int] == names@[i as int]@);
        }
        if text_eq(names[i].as_str(), name) {
            return true;
        }
        i = i + 1;
    }
    false
}

/// Looks for everything that the queue needs in what the store's file reports. Succeeds
/// exactly when every required column and index is there; else names the first thing
/// that is missing.
pub fn check_schema(listing: &SchemaListing) -> (result: Result<(), String>)
    ensures
        match result {
            Ok(()) => schema_fault(listing@).is_none(),
            Err(message) => schema_fault(listing@) == Some(message@),
        },
{
    let required: [&str; 7] = [
        "id",
        "status",
        "payload",
        "attempts",
        "leased_until",
        "lease_owner",
        "updated_at",
    ];
    let ghost wanted = required_columns();
    proof {
        assert(wanted.len() == 7);
        assert forall|k: int| 0 <= k < 7 implies required@[k]@ == #[trigger] wanted[k] by {
        }
    }
    let mut i: usize = 0;
    while i < 7
        invariant
            i <= 7,
            wanted == required_columns(),
            wanted.len() == 7,
            forall|k: int| 0 <= k < 7 ==> required@[k]@ == #[trigger] wanted[k],
            first_missing(listing@.queue_columns, wanted, 0) == first_missing(
                listing@.queue_columns,
                wanted,
                i as int,
            ),
        decreases 7 - i,
    {
        let column: &str = required[i];
        assert(column@ == wanted[i as int]);
        if !has_name(&listing.queue_columns, column) {
            let mut message = String::new();
            push_text(&mut message, "missing column ");
            push_text(&mut message, column);
            push_text(&mut message, " in change_queue");
            proof {
                assert(message@ =~= "missing column "@ + column@ + " in change_queue"@);
            }
            return Err(message);
        }
        i = i + 1;
    }
    if !has_name(&listing.queue_indexes, "idx_change_queue_status") {
        return Err("missing idx_change_queue_status".to_owned());
    }
    if !has_name(&listing.queue_indexes, "idx_change_queue_status_lease_id") {
        return Err("missing idx_change_queue_status_lease_id".to_owned());
    }
    if !has_name(&listing.dead_letter_columns, "failed_at") {
        return Err("missing failed_at in dead_letters".to_owned());
    }
    Ok(())
}

} // verus!
