use vstd::prelude::*;
use crate::models::{ChangeOperation, ChangeOperationView, OperationKind};
use crate::text::{contains, contains_seq, push_text};

verus! {

/// Why a patch could not be applied: what was said, and what the tool that tried it
/// wrote.
#[derive(Debug)]
pub struct ApplyFailure {
    pub patch: String,
    pub stdout: String,
    pub stderr: String,
    pub source: String,
}

pub struct ApplyFailureView {
    pub patch: Seq<char>,
    pub stdout: Seq<char>,
    pub stderr: Seq<char>,
    pub source: Seq<char>,
}

impl View for ApplyFailure {
    type V = ApplyFailureView;

    open spec fn view(&self) -> ApplyFailureView {
        ApplyFailureView {
            patch: self.patch@,
            stdout: self.stdout@,
            stderr: self.stderr@,
            source: self.source@,
        }
    }
}

impl ApplyFailureView {
    /// The failure in one line.
    pub open spec fn message(self) -> Seq<char> {
        "apply failure: "@ + self.source
    }
}

impl Clone for ApplyFailure {
    fn clone(&self) -> (out: Self)
        ensures
            out@ == self@,
    {
        ApplyFailure {
            patch: self.patch.clone(),
            stdout: self.stdout.clone(),
            stderr: self.stderr.clone(),
            source: self.source.clone(),
        }
    }
}

impl ApplyFailure {
    /// The failure of a patch, from what was said and what the tool wrote.
    pub fn new(source: String, patch: String, stdout: String, stderr: String) -> (out: Self)
        ensures
            out@ == (ApplyFailureView {
                patch: patch@,
                stdout: stdout@,
                stderr: stderr@,
                source: source@,
            }),
    {
        ApplyFailure { patch, stdout, stderr, source }
    }

    /// The failure in one line: `apply failure: ` and what was said.
    pub fn to_string(&self) -> (out: String)
        ensures
            out@ == self@.message(),
    {
        let mut out = String::new();
        push_text(&mut out, "apply failure: ");
        push_text(&mut out, self.source.as_str());
        proof {
            assert(out@ =~= self@.message());
        }
        out
    }
}

/// Why a patch did not give a new content.
#[derive(Clone, Copy, Debug, PartialEq, Eq, Structural)]
pub enum PatchFault {
    /// The text is no patch.
    Parse,
    /// The patch does not fit the content.
    Apply,
}

impl PatchFault {
    /// The fault in words.
    pub open spec fn words(self) -> Seq<char> {
        match self {
            PatchFault::Parse => "parse patch text"@,
            PatchFault::Apply => "apply patch contents"@,
        }
    }

    /// The fault in words.
    pub fn message(&self) -> (out: String)
        ensures
            out@ == self.words(),
    {
        match self {
            PatchFault::Parse => "parse patch text".to_owned(),
            PatchFault::Apply => "apply patch contents".to_owned(),
        }
    }
}

/// What the crate diffy makes of a patch and the content that it is for: the new
/// content, or the fault.
pub uninterp spec fn patched(base: Seq<char>, patch_text: Seq<char>) -> Result<Seq<char>, PatchFault>;

/// What a patching returned, the content by its view.
pub open spec fn patched_view(result: Result<String, PatchFault>) -> Result<Seq<char>, PatchFault> {
    match result {
        Ok(content) => Ok(content@),
        Err(fault) => Err(fault),
    }
}

/// Reads the patch with `Patch::from_str` of the crate diffy and applies it to the
/// content with diffy's `apply`. The result is the new content; the fault is `Parse`
/// where the first call fails and `Apply` where the second does. That the outcome
/// depends on the content and the patch alone is taken on trust; nothing else is
/// claimed of it.
#[verifier::external_body]
fn apply_patch_contents(base: &str, patch_text: &str) -> (result: Result<String, PatchFault>)
    ensures
        patched_view(result) == patched(base@, patch_text@),
{
    match diffy::Patch::from_str(patch_text) {
        Err(_) => Err(PatchFault::Parse),
        Ok(patch) => match diffy::apply(base, &patch) {
            Ok(content) => Ok(content),
            Err(_) => Err(PatchFault::Apply),
        },
    }
}

/// Whether a failed trial of a patch may be for want of a directory: the tool said
/// that a file or directory is not there.
pub open spec fn wants_directory(failure: ApplyFailureView) -> bool {
    contains_seq(failure.stderr, "No such file or directory"@)
}

/// Whether a failed trial of a patch may be for want of a directory, so that the trial
/// is worth repeating once the directories are made.
pub fn needs_directory_retry(failure: &ApplyFailure) -> (retry: bool)
    ensures
        retry == wants_directory(failure@),
{
    contains(failure.stderr.as_str(), "No such file or directory")
}

/// Whether a change may go on although its trial failed: the patch fits what the file
/// holds.
pub fn fallback_accepts(existing: &str, patch_text: &str) -> (accepted: bool)
    ensures
        accepted == patched(existing@, patch_text@).is_ok(),
{
    apply_patch_contents(existing, patch_text).is_ok()
}

/// What is done to the file of a change.
#[derive(Debug)]
pub enum FileAction {
    /// The file is written with this content, and the directories above it are made.
    Write { content: String },
    /// The file is taken away.
    Remove,
}

pub enum FileActionView {
    Write { content: Seq<char> },
    Remove,
}

impl View for FileAction {
    type V = FileActionView;

    open spec fn view(&self) -> FileActionView {
        match self {
            FileAction::Write { content } => FileActionView::Write { content: content@ },
            FileAction::Remove => FileActionView::Remove,
        }
    }
}

/// What a planning returned, by its views.
pub open spec fn action_result_view(result: Result<FileAction, String>) -> Result<
    FileActionView,
    Seq<char>,
> {
    match result {
        Ok(action) => Ok(action@),
        Err(message) => Err(message@),
    }
}

/// What is done to the file of a change, given what patching came to: a file that is
/// deleted is taken away, which fails where it is not there; any other file is written
/// with the new content, which fails where patching failed.
pub open spec fn action_for(
    change: ChangeOperationView,
    exists: bool,
    outcome: Result<Seq<char>, PatchFault>,
) -> Result<FileActionView, Seq<char>> {
    match change.operation {
        OperationKind::Delete => if exists {
            Ok(FileActionView::Remove)
        } else {
            Err("delete failed: "@ + change.path + " does not exist"@)
        },
        _ => match outcome {
            Ok(content) => Ok(FileActionView::Write { content }),
            Err(fault) => Err(fault.words()),
        },
    }
}

/// The content that the patch of a change is applied to: nothing for a new file, and
/// for any other what the file holds.
pub open spec fn patch_base(change: ChangeOperationView, existing: Seq<char>) -> Seq<char> {
    if change.operation == OperationKind::Add {
        Seq::empty()
    } else {
        existing
    }
}

/// What is done to the file of a change. A new file gets what the patch makes of
/// nothing; a file that is updated gets what the patch makes of what it holds, or of
/// nothing where it cannot be read; a file that is deleted is taken away, which fails
/// where it is not there.
pub open spec fn file_action(change: ChangeOperationView, exists: bool, existing: Seq<char>) -> Result<
    FileActionView,
    Seq<char>,
> {
    action_for(change, exists, patched(patch_base(change, existing), change.patch))
}

/// Decides what is done to the file of a change from what patching came to. For a
/// change that deletes, the outcome of patching is not looked at.
pub fn choose_action(change: &ChangeOperation, exists: bool, outcome: Result<String, PatchFault>) -> (result:
    Result<FileAction, String>)
    ensures
        action_result_view(result) == action_for(change@, exists, patched_view(outcome)),
{
    match change.operation {
        OperationKind::Delete => {
            if exists {
                Ok(FileAction::Remove)
            } else {
                let mut message = String::new();
                push_text(&mut message, "delete failed: ");
                push_text(&mut message, change.path.as_str());
                push_text(&mut message, " does not exist");
                proof {
                    assert(message@ =~= "delete failed: "@ + change@.path + " does not exist"@);
                }
                Err(message)
            }
        },
        _ => match outcome {
            Ok(content) => Ok(FileAction::Write { content }),
            Err(fault) => Err(fault.message()),
        },
    }
}

/// Decides what is done to the file of a change. `exists` says whether the file is
/// there; `existing` is what it holds, or nothing where it cannot be read.
pub fn plan_change(change: &ChangeOperation, exists: bool, existing: &str) -> (result: Result<
    FileAction,
    String,
>)
    ensures
        action_result_view(result) == file_action(change@, exists, existing@),
{
    let outcome = match change.operation {
        OperationKind::Add => {
            proof {
                crate::text::lemma_empty_text();
            }
            apply_patch_contents("", change.patch.as_str())
        },
        _ => apply_patch_contents(existing, change.patch.as_str()),
    };
    choose_action(change, exists, outcome)
}

/// What a trial of a patch by git comes to: nothing where git accepted it; else the
/// failure, with the patch and what git wrote.
pub open spec fn trial_outcome(
    patch: Seq<char>,
    success: bool,
    status: Seq<char>,
    stdout: Seq<char>,
    stderr: Seq<char>,
) -> Option<ApplyFailureView> {
    if success {
        None
    } else {
        Some(
            ApplyFailureView {
                patch,
                stdout,
                stderr,
                source: "git apply --check failed ("@ + status + ")"@,
            },
        )
    }
}

/// The view of a failure that may be absent.
pub open spec fn failure_option_view(failure: Option<ApplyFailure>) -> Option<ApplyFailureView> {
    match failure {
        Some(f) => Some(f@),
        None => None,
    }
}

/// Takes in how git's trial of a patch ended.
pub fn trial_result(
    change: &ChangeOperation,
    success: bool,
    status: &str,
    stdout: String,
    stderr: String,
) -> (failure: Option<ApplyFailure>)
    ensures
        failure_option_view(failure) == trial_outcome(
            change@.patch,
            success,
            status@,
            stdout@,
            stderr@,
        ),
{
    if success {
        return None;
    }
    let mut source = String::new();
    push_text(&mut source, "git apply --check failed (");
    push_text(&mut source, status);
    push_text(&mut source, ")");
    proof {
        assert(source@ =~= "git apply --check failed ("@ + status@ + ")"@);
    }
    Some(ApplyFailure::new(source, change.patch.clone(), stdout, stderr))
}

} // verus!
