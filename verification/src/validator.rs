use vstd::prelude::*;
use crate::digest::{patch_digest, patch_hash};
use crate::models::{
    ChangeOperation, ChangeOperationView, ChangeRequest, ChangeRequestView, OperationKind,
    ValidationResult,
};
use crate::text::{
    blank, chars_of, contains, contains_seq, decimal, is_blank, push_decimal, push_text,
    replace, replace_char, strings_view, text_eq,
};

verus! {

/// A character that parts the segments of a path.
pub open spec fn is_separator(c: char) -> bool {
    c == '/' || c == '\\'
}

/// A path that begins at the root.
pub open spec fn is_absolute(path: Seq<char>) -> bool {
    path.len() > 0 && path[0] == '/'
}

/// The segment `..` stands in `path` at position `at`: two dots with a separator, or an
/// end of the path, on either side.
pub open spec fn parent_segment_at(path: Seq<char>, at: int) -> bool {
    &&& 0 <= at
    &&& at + 2 <= path.len()
    &&& path[at] == '.'
    &&& path[at + 1] == '.'
    &&& (at == 0 || is_separator(path[at - 1]))
    &&& (at + 2 == path.len() || is_separator(path[at + 2]))
}

/// The path has a segment `..`, which would lead out of the working tree.
pub open spec fn has_parent_segment(path: Seq<char>) -> bool {
    exists|at: int| parent_segment_at(path, at)
}

/// The path with `/` for every `\`, as patch headers write it.
pub open spec fn normalized_path(path: Seq<char>) -> Seq<char> {
    replace_char(path, '\\', '/')
}

/// The header line that a patch has for the file it writes.
pub open spec fn add_marker(path: Seq<char>) -> Seq<char> {
    "+++ b/"@ + normalized_path(path)
}

/// The header line that a patch has for the file it takes away.
pub open spec fn remove_marker(path: Seq<char>) -> Seq<char> {
    "--- a/"@ + normalized_path(path)
}

/// `changes[index]`, the words that every message on a change begins with.
pub open spec fn change_label(index: nat) -> Seq<char> {
    "changes["@ + decimal(index) + "]"@
}

/// One message if the condition holds, none otherwise.
pub open spec fn message_if(cond: bool, message: Seq<char>) -> Seq<Seq<char>> {
    if cond {
        seq![message]
    } else {
        Seq::empty()
    }
}

/// The faults of a change's path and patch taken by themselves.
pub open spec fn operation_errors(index: nat, change: ChangeOperationView) -> Seq<Seq<char>> {
    message_if(blank(change.path), change_label(index) + ".path is required"@) + message_if(
        blank(change.patch),
        change_label(index) + ".patch is required"@,
    ) + message_if(
        is_absolute(change.path),
        change_label(index) + ".path must be relative, got "@ + change.path,
    ) + message_if(
        has_parent_segment(change.path),
        change_label(index) + ".path must not contain '..', got "@ + change.path,
    )
}

/// The faults of a patch whose headers do not name the change's file in the way that
/// its operation asks for. A change with a blank path has none here.
pub open spec fn alignment_errors(index: nat, change: ChangeOperationView) -> Seq<Seq<char>> {
    if blank(change.path) {
        Seq::empty()
    } else {
        let has_add = contains_seq(change.patch, add_marker(change.path));
        let has_remove = contains_seq(change.patch, remove_marker(change.path));
        match change.operation {
            OperationKind::Add => message_if(
                !has_add,
                change_label(index) + ": add operation patch must mention "@ + add_marker(
                    change.path,
                ),
            ),
            OperationKind::Update => message_if(
                !has_add,
                change_label(index) + ": update patch must mention "@ + add_marker(change.path),
            ) + message_if(
                !has_remove,
                change_label(index) + ": update patch must mention "@ + remove_marker(
                    change.path,
                ),
            ),
            OperationKind::Delete => message_if(
                !has_remove,
                change_label(index) + ": delete patch must mention "@ + remove_marker(
                    change.path,
                ),
            ),
        }
    }
}

/// The fault of a hash that is given and is not `digest`. A change with a blank patch,
/// or without a hash, has none here.
pub open spec fn hash_errors_against(
    index: nat,
    change: ChangeOperationView,
    digest: Seq<char>,
) -> Seq<Seq<char>> {
    if blank(change.patch) {
        Seq::empty()
    } else {
        match change.patch_hash {
            Some(expected) => message_if(
                expected != digest,
                change_label(index) + ": patch_hash mismatch (expected "@ + digest + ", got "@
                    + expected + ")"@,
            ),
            None => Seq::empty(),
        }
    }
}

/// The fault of a hash that is given and is not the digest of the patch: its SHA-256
/// in lower-case hexadecimal.
pub open spec fn hash_errors(index: nat, change: ChangeOperationView) -> Seq<Seq<char>> {
    hash_errors_against(index, change, patch_digest(change.patch))
}

/// Every fault of one change, in the order in which they are reported.
pub open spec fn change_errors(index: nat, change: ChangeOperationView) -> Seq<Seq<char>> {
    operation_errors(index, change) + alignment_errors(index, change) + hash_errors(
        index,
        change,
    )
}

/// The faults of the first `n` changes, change by change.
pub open spec fn changes_errors(changes: Seq<ChangeOperationView>, n: nat) -> Seq<Seq<char>>
    decreases n,
{
    if n == 0 {
        Seq::empty()
    } else {
        changes_errors(changes, (n - 1) as nat) + change_errors(
            (n - 1) as nat,
            changes[n - 1],
        )
    }
}

/// The faults of the request apart from its single changes.
pub open spec fn header_errors(request: ChangeRequestView) -> Seq<Seq<char>> {
    message_if(blank(request.task_id), "task_id is required"@) + message_if(
        blank(request.agent),
        "agent is required"@,
    ) + message_if(request.changes.len() == 0, "changes must not be empty"@) + message_if(
        request.checks.len() == 0,
        "checks must not be empty"@,
    )
}

/// Every fault of a change request, in the order in which they are reported. The
/// request is valid when there is none.
pub open spec fn request_errors(request: ChangeRequestView) -> Seq<Seq<char>> {
    header_errors(request) + changes_errors(request.changes, request.changes.len())
}

/// Adds one message to the list.
fn report(errors: &mut Vec<String>, message: String)
    ensures
        strings_view(final(errors)@) == strings_view(old(errors)@) + seq![message@],
{
    errors.push(message);
    proof {
        assert(strings_view(errors@) =~= strings_view(old(errors)@) + seq![message@]);
    }
}

/// The words that every message on the change at `index` begins with.
fn label(index: usize) -> (out: String)
    ensures
        out@ == change_label(index as nat),
{
    let mut out = String::new();
    push_text(&mut out, "changes[");
    push_decimal(&mut out, index as u64);
    push_text(&mut out, "]");
    proof {
        assert(out@ =~= change_label(index as nat));
    }
    out
}

/// Whether the path begins at the root.
fn path_is_absolute(path: &Vec<char>) -> (b: bool)
    ensures
        b == is_absolute(path@),
{
    path.len() > 0 && path[0] == '/'
}

fn separator(c: char) -> (b: bool)
    ensures
        b == is_separator(c),
{
    c == '/' || c == '\\'
}

/// Whether the path has a segment `..`.
fn path_has_parent_segment(path: &Vec<char>) -> (b: bool)
    ensures
        b == has_parent_segment(path@),
{
    if path.len() < 2 {
        return false;
    }
    let last: usize = path.len() - 2;
    let mut at: usize = 0;
    while at <= last
        invariant
            path.len() >= 2,
            last == path.len() - 2,
            at <= last + 1,
            forall|k: int| 0 <= k < at ==> !parent_segment_at(path@, k),
        decreases last + 1 - at,
    {
        if path[at] == '.' && path[at + 1] == '.' && (at == 0 || separator(path[at - 1])) && (at
            + 2 == path.len() || separator(path[at + 2])) {
            assert(parent_segment_at(path@, at as int));
            return true;
        }
        at = at + 1;
    }
    false
}

/// Reports the faults of a change's path and patch taken by themselves: a blank path,
/// a blank patch, a path that begins at the root, a path with a segment `..`.
pub fn validate_change_operation(index: usize, change: &ChangeOperation, errors: &mut Vec<String>)
    ensures
        strings_view(final(errors)@) == strings_view(old(errors)@) + operation_errors(
            index as nat,
            change@,
        ),
{
    let ghost start = strings_view(errors@);
    if is_blank(change.path.as_str()) {
        let mut message = label(index);
        push_text(&mut message, ".path is required");
        report(errors, message);
    }
    let ghost first = strings_view(errors@);
    if is_blank(change.patch.as_str()) {
        let mut message = label(index);
        push_text(&mut message, ".patch is required");
        report(errors, message);
    }
    let ghost second = strings_view(errors@);
    let path = chars_of(change.path.as_str());
    if path_is_absolute(&path) {
        let mut message = label(index);
        push_text(&mut message, ".path must be relative, got ");
        push_text(&mut message, change.path.as_str());
        report(errors, message);
    }
    let ghost third = strings_view(errors@);
    if path_has_parent_segment(&path) {
        let mut message = label(index);
        push_text(&mut message, ".path must not contain '..', got ");
        push_text(&mut message, change.path.as_str());
        report(errors, message);
    }
    proof {
        let c = change@;
        let i = index as nat;
        assert(first == start + message_if(
            blank(c.path),
            change_label(i) + ".path is required"@,
        ));
        assert(second == first + message_if(
            blank(c.patch),
            change_label(i) + ".patch is required"@,
        ));
        assert(third == second + message_if(
            is_absolute(c.path),
            change_label(i) + ".path must be relative, got "@ + c.path,
        ));
        assert(strings_view(errors@) == third + message_if(
            has_parent_segment(c.path),
            change_label(i) + ".path must not contain '..', got "@ + c.path,
        ));
        assert(strings_view(errors@) =~= start + operation_errors(i, c));
    }
}

/// Reports a patch whose headers do not name the change's file: an add must mention
/// `+++ b/<path>`, a delete `--- a/<path>`, an update both. A blank path is passed over.
pub fn validate_patch_alignment(index: usize, change: &ChangeOperation, errors: &mut Vec<String>)
    ensures
        strings_view(final(errors)@) == strings_view(old(errors)@) + alignment_errors(
            index as nat,
            change@,
        ),
{
    let ghost start = strings_view(errors@);
    if is_blank(change.path.as_str()) {
        proof {
            assert(start =~= start + alignment_errors(index as nat, change@));
        }
        return ;
    }
    let normalized = replace(change.path.as_str(), '\\', '/');
    let mut add = String::new();
    push_text(&mut add, "+++ b/");
    push_text(&mut add, normalized.as_str());
    let mut remove = String::new();
    push_text(&mut remove, "--- a/");
    push_text(&mut remove, normalized.as_str());
    proof {
        assert(add@ =~= add_marker(change@.path));
        assert(remove@ =~= remove_marker(change@.path));
    }
    let has_add = contains(change.patch.as_str(), add.as_str());
    let has_remove = contains(change.patch.as_str(), remove.as_str());
    match change.operation {
        OperationKind::Add => {
            if !has_add {
                let mut message = label(index);
                push_text(&mut message, ": add operation patch must mention ");
                push_text(&mut message, add.as_str());
                report(errors, message);
            }
        },
        OperationKind::Update => {
            if !has_add {
                let mut message = label(index);
                push_text(&mut message, ": update patch must mention ");
                push_text(&mut message, add.as_str());
                report(errors, message);
            }
            let ghost first = strings_view(errors@);
            if !has_remove {
                let mut message = label(index);
                push_text(&mut message, ": update patch must mention ");
                push_text(&mut message, remove.as_str());
                report(errors, message);
            }
            proof {
                assert(first == start + message_if(
                    !has_add,
                    change_label(index as nat) + ": update patch must mention "@ + add_marker(
                        change@.path,
                    ),
                ));
            }
        },
        OperationKind::Delete => {
            if !has_remove {
                let mut message = label(index);
                push_text(&mut message, ": delete patch must mention ");
                push_text(&mut message, remove.as_str());
                report(errors, message);
            }
        },
    }
    proof {
        assert(strings_view(errors@) =~= start + alignment_errors(index as nat, change@));
    }
}

/// Reports a hash that is given and is not `digest`, the digest that was computed of
/// the patch. A blank patch is passed over, and so is a change without a hash.
pub fn check_patch_hash(index: usize, change: &ChangeOperation, digest: &str, errors: &mut Vec<String>)
    ensures
        strings_view(final(errors)@) == strings_view(old(errors)@) + hash_errors_against(
            index as nat,
            change@,
            digest@,
        ),
{
    let ghost start = strings_view(errors@);
    if is_blank(change.patch.as_str()) {
        proof {
            assert(start =~= start + hash_errors_against(index as nat, change@, digest@));
        }
        return ;
    }
    match &change.patch_hash {
        Some(expected) => {
            if !text_eq(expected.as_str(), digest) {
                let mut message = label(index);
                push_text(&mut message, ": patch_hash mismatch (expected ");
                push_text(&mut message, digest);
                push_text(&mut message, ", got ");
                push_text(&mut message, expected.as_str());
                push_text(&mut message, ")");
                report(errors, message);
            }
        },
        None => {},
    }
    proof {
        assert(strings_view(errors@) =~= start + hash_errors_against(index as nat, change@, digest@));
    }
}

/// Reports a hash that is given and is not the SHA-256 digest of the patch in lower-case
/// hexadecimal. A blank patch is passed over, and so is a change without a hash.
pub fn validate_patch_hash(index: usize, change: &ChangeOperation, errors: &mut Vec<String>)
    ensures
        strings_view(final(errors)@) == strings_view(old(errors)@) + hash_errors(
            index as nat,
            change@,
        ),
{
    let calculated = patch_hash(change.patch.as_str());
    check_patch_hash(index, change, calculated.as_str(), errors);
}

/// Reports every fault of one change.
fn validate_change(index: usize, change: &ChangeOperation, errors: &mut Vec<String>)
    ensures
        strings_view(final(errors)@) == strings_view(old(errors)@) + change_errors(
            index as nat,
            change@,
        ),
{
    validate_change_operation(index, change, errors);
    validate_patch_alignment(index, change, errors);
    validate_patch_hash(index, change, errors);
    proof {
        assert(strings_view(errors@) =~= strings_view(old(errors)@) + (operation_errors(
            index as nat,
            change@,
        ) + alignment_errors(index as nat, change@) + hash_errors(index as nat, change@)));
    }
}

/// Checks a change request before anything is done with it. The result names every
/// fault, in order: of the request as a whole first, then of each change in turn; the
/// request is valid exactly when there is none. The same request always gives the same
/// result.
pub fn validate_change_request(request: &ChangeRequest) -> (result: ValidationResult)
    ensures
        strings_view(result.errors@) == request_errors(request@),
        result.valid == (request_errors(request@).len() == 0),
{
    let mut errors: Vec<String> = Vec::new();
    proof {
        assert(strings_view(errors@) =~= Seq::empty());
    }
    if is_blank(request.task_id.as_str()) {
        report(&mut errors, "task_id is required".to_owned());
    }
    let ghost first = strings_view(errors@);
    if is_blank(request.agent.as_str()) {
        report(&mut errors, "agent is required".to_owned());
    }
    let ghost second = strings_view(errors@);
    if request.changes.len() == 0 {
        report(&mut errors, "changes must not be empty".to_owned());
    }
    let ghost third = strings_view(errors@);
    if request.checks.len() == 0 {
        report(&mut errors, "checks must not be empty".to_owned());
    }
    proof {
        let r = request@;
        assert(first =~= message_if(blank(r.task_id), "task_id is required"@));
        assert(second == first + message_if(blank(r.agent), "agent is required"@));
        assert(third == second + message_if(
            r.changes.len() == 0,
            "changes must not be empty"@,
        ));
        assert(strings_view(errors@) == third + message_if(
            r.checks.len() == 0,
            "checks must not be empty"@,
        ));
        assert(strings_view(errors@) =~= header_errors(r) + changes_errors(r.changes, 0));
    }
    let mut index: usize = 0;
    while index < request.changes.len()
        invariant
            index <= request.changes.len(),
            strings_view(errors@) == header_errors(request@) + changes_errors(
                request@.changes,
                index as nat,
            ),
        decreases request.changes.len() - index,
    {
        let ghost before = changes_errors(request@.changes, index as nat);
        let change = &request.changes[index];
        validate_change(index, change, &mut errors);
        proof {
            assert(request@.changes[index as int] == change@);
            assert(changes_errors(request@.changes, (index + 1) as nat) == before
                + change_errors(index as nat, change@));
            assert(strings_view(errors@) =~= header_errors(request@) + (before + change_errors(
                index as nat,
                change@,
            )));
        }
        index = index + 1;
    }
    let valid = errors.len() == 0;
    ValidationResult { valid, errors }
}

/// The validator is a function of what a request holds: two requests that hold the
/// same have the same list of faults, and are valid or invalid together, whenever
/// and wherever they are checked.
pub proof fn validation_is_deterministic(a: ChangeRequest, b: ChangeRequest)
    requires
        a@ == b@,
    ensures
        request_errors(a@) == request_errors(b@),
        (request_errors(a@).len() == 0) == (request_errors(b@).len() == 0),
{
}

} // verus!
