use vstd::prelude::*;
use crate::text::push_text;

verus! {

/// Why a check did not pass: the command, what was said, and what the command wrote.
#[derive(Debug)]
pub struct CheckFailure {
    pub command: String,
    pub stdout: String,
    pub stderr: String,
    pub source: String,
}

pub struct CheckFailureView {
    pub command: Seq<char>,
    pub stdout: Seq<char>,
    pub stderr: Seq<char>,
    pub source: Seq<char>,
}

impl View for CheckFailure {
    type V = CheckFailureView;

    open spec fn view(&self) -> CheckFailureView {
        CheckFailureView {
            command: self.command@,
            stdout: self.stdout@,
            stderr: self.stderr@,
            source: self.source@,
        }
    }
}

impl CheckFailureView {
    /// The failure in one line.
    pub open spec fn message(self) -> Seq<char> {
        "check failure: "@ + self.source
    }
}

impl Clone for CheckFailure {
    fn clone(&self) -> (out: Self)
        ensures
            out@ == self@,
    {
        CheckFailure {
            command: self.command.clone(),
            stdout: self.stdout.clone(),
            stderr: self.stderr.clone(),
            source: self.source.clone(),
        }
    }
}

impl CheckFailure {
    /// The failure of a check, from what was said and what the command wrote.
    pub fn new(source: String, command: String, stdout: String, stderr: String) -> (out: Self)
        ensures
            out@ == (CheckFailureView {
                command: command@,
                stdout: stdout@,
                stderr: stderr@,
                source: source@,
            }),
    {
        CheckFailure { command, stdout, stderr, source }
    }

    /// The failure in one line: `check failure: ` and what was said.
    pub fn to_string(&self) -> (out: String)
        ensures
            out@ == self@.message(),
    {
        let mut out = String::new();
        push_text(&mut out, "check failure: ");
        push_text(&mut out, self.source.as_str());
        proof {
            assert(out@ =~= self@.message());
        }
        out
    }
}

/// What a run of a check comes to: nothing where the command succeeded; else the
/// failure, with the command and what it wrote.
pub open spec fn check_outcome(
    check: Seq<char>,
    success: bool,
    status: Seq<char>,
    stdout: Seq<char>,
    stderr: Seq<char>,
) -> Option<CheckFailureView> {
    if success {
        None
    } else {
        Some(
            CheckFailureView {
                command: check,
                stdout,
                stderr,
                source: "check failed: "@ + check + " (exit "@ + status + ")"@,
            },
        )
    }
}

/// The view of a failure that may be absent.
pub open spec fn check_failure_view(failure: Option<CheckFailure>) -> Option<CheckFailureView> {
    match failure {
        Some(f) => Some(f@),
        None => None,
    }
}

/// Takes in how the run of one check ended. The checks of a request are run in their
/// order, and the first failure ends them.
pub fn check_result(check: &str, success: bool, status: &str, stdout: String, stderr: String) -> (failure:
    Option<CheckFailure>)
    ensures
        check_failure_view(failure) == check_outcome(check@, success, status@, stdout@, stderr@),
{
    if success {
        return None;
    }
    let mut source = String::new();
    push_text(&mut source, "check failed: ");
    push_text(&mut source, check);
    push_text(&mut source, " (exit ");
    push_text(&mut source, status);
    push_text(&mut source, ")");
    proof {
        assert(source@ =~= "check failed: "@ + check@ + " (exit "@ + status@ + ")"@);
    }
    Some(CheckFailure::new(source, check.to_owned(), stdout, stderr))
}

} // verus!
