use vstd::prelude::*;
use crate::models::ChangeRequest;
use crate::queue::SqliteQueue;
use crate::store::QueueError;
use crate::text::chars_of;

verus! {

/// The path names a file with the extension `json`: it ends in `.json`, and before
/// that stands at least one character of the file's name.
pub open spec fn is_request_path(path: Seq<char>) -> bool {
    &&& path.len() >= 6
    &&& path.subrange(path.len() - 5, path.len() as int) == seq!['.', 'j', 's', 'o', 'n']
    &&& path[path.len() - 6] != '/'
}

/// Whether a file that appeared in the watched directory is taken for a change
/// request.
pub fn is_request_file(path: &str) -> (wanted: bool)
    ensures
        wanted == is_request_path(path@),
{
    let chars = chars_of(path);
    let n = chars.len();
    if n < 6 {
        return false;
    }
    let ends = chars[n - 5] == '.' && chars[n - 4] == 'j' && chars[n - 3] == 's' && chars[n - 2]
        == 'o' && chars[n - 1] == 'n';
    proof {
        let tail = path@.subrange(n - 5, n as int);
        if ends {
            assert(tail =~= seq!['.', 'j', 's', 'o', 'n']);
        } else {
            assert(tail[0] == chars@[n - 5] && tail[1] == chars@[n - 4] && tail[2] == chars@[n - 3]
                && tail[3] == chars@[n - 2] && tail[4] == chars@[n - 1]);
        }
    }
    ends && chars[n - 6] != '/'
}

/// Takes a change request that was read from a file into the queue.
pub fn ingest_change_request(queue: &mut SqliteQueue, request: &ChangeRequest, now: i64) -> (result:
    Result<i64, QueueError>)
    ensures
        result == old(queue)@.enqueued(),
        final(queue)@ == old(queue)@.after_enqueue(request@, now),
        final(queue).file() == old(queue).file(),
{
    queue.enqueue(request, now)
}

} // verus!
