use vstd::prelude::*;
use crate::models::{AgentSession, AgentSessionView};
use crate::text::{
    blank, is_blank, opt_string_view, push_text, strings_view, trim, trimmed,
};

verus! {

/// Something that answers a prompt: the outside tool, or what stands in for it.
pub trait AgentHarness {
    fn run(&self, prompt: &str) -> Result<String, String>;
}

/// How the outside tool is called.
#[derive(Debug)]
pub struct CopilotHarness {
    pub binary: String,
    pub model: String,
    pub session: Option<String>,
    pub allow_all_tools: bool,
}

pub struct CopilotHarnessView {
    pub binary: Seq<char>,
    pub model: Seq<char>,
    pub session: Option<Seq<char>>,
    pub allow_all_tools: bool,
}

impl View for CopilotHarness {
    type V = CopilotHarnessView;

    open spec fn view(&self) -> CopilotHarnessView {
        CopilotHarnessView {
            binary: self.binary@,
            model: self.model@,
            session: opt_string_view(self.session),
            allow_all_tools: self.allow_all_tools,
        }
    }
}

impl CopilotHarnessView {
    /// The harness for a model and, where one is known, a session: the session's model
    /// and permission go before the model named, and the session is taken up again.
    pub open spec fn for_session(model: Seq<char>, session: Option<AgentSessionView>) -> CopilotHarnessView {
        match session {
            Some(s) => CopilotHarnessView {
                binary: "copilot"@,
                model: s.model,
                session: Some(s.resume_id),
                allow_all_tools: s.allow_all_tools,
            },
            None => CopilotHarnessView {
                binary: "copilot"@,
                model,
                session: None,
                allow_all_tools: true,
            },
        }
    }

    /// The arguments with which the tool is called for a prompt. A session is taken up
    /// again by its id; without one the model is named. Then comes the permission for
    /// all tools, where it is given, and the prompt, to be answered without more ado.
    pub open spec fn arguments(self, prompt: Seq<char>) -> Seq<Seq<char>> {
        (match self.session {
            Some(id) => seq!["--resume"@, id],
            None => seq!["--model"@, self.model],
        }) + (if self.allow_all_tools {
            seq!["--allow-all-tools"@]
        } else {
            Seq::empty()
        }) + seq!["--silent"@, "-p"@, prompt]
    }
}

/// The view of a session that may be absent.
pub open spec fn session_ref_view(session: Option<&AgentSession>) -> Option<AgentSessionView> {
    match session {
        Some(s) => Some(s@),
        None => None,
    }
}

/// What the tool's exit is taken to say: its output where it succeeded; else a line
/// that names the exit status and, where they are not blank, what the tool wrote to
/// its error stream and to its output, each trimmed.
pub open spec fn exit_message(status: Seq<char>, stdout: Seq<char>, stderr: Seq<char>) -> Seq<char> {
    "copilot exited with "@ + status + (if blank(stderr) {
        Seq::empty()
    } else {
        ", stderr: "@ + trimmed(stderr)
    }) + (if blank(stdout) {
        Seq::empty()
    } else {
        ", stdout: "@ + trimmed(stdout)
    })
}

/// What a run of the tool comes to.
pub open spec fn run_outcome(
    success: bool,
    status: Seq<char>,
    output: Option<Seq<char>>,
    stdout: Seq<char>,
    stderr: Seq<char>,
) -> Result<Seq<char>, Seq<char>> {
    if !success {
        Err(exit_message(status, stdout, stderr))
    } else {
        match output {
            Some(text) => Ok(text),
            None => Err("decode copilot output"@),
        }
    }
}

/// What a run of the tool returned, by its views.
pub open spec fn text_result_view(result: Result<String, String>) -> Result<Seq<char>, Seq<char>> {
    match result {
        Ok(s) => Ok(s@),
        Err(e) => Err(e@),
    }
}

impl CopilotHarness {
    /// The harness for a model, without a session and with all tools allowed.
    pub fn new(model: String) -> (out: Self)
        ensures
            out@ == CopilotHarnessView::for_session(model@, None),
    {
        CopilotHarness {
            binary: "copilot".to_owned(),
            model,
            session: None,
            allow_all_tools: true,
        }
    }

    /// The harness for a model and, where one is known, a session.
    pub fn with_session(model: String, session: Option<&AgentSession>) -> (out: Self)
        ensures
            out@ == CopilotHarnessView::for_session(model@, session_ref_view(session)),
    {
        match session {
            Some(s) => CopilotHarness {
                binary: "copilot".to_owned(),
                model: s.model.clone(),
                session: Some(s.resume_id.clone()),
                allow_all_tools: s.allow_all_tools,
            },
            None => CopilotHarness {
                binary: "copilot".to_owned(),
                model,
                session: None,
                allow_all_tools: true,
            },
        }
    }

    /// The arguments with which the tool is called for a prompt.
    pub fn build_command(&self, prompt: &str) -> (args: Vec<String>)
        ensures
            strings_view(args@) == self@.arguments(prompt@),
    {
        let mut args: Vec<String> = Vec::new();
        match &self.session {
            Some(id) => {
                args.push("--resume".to_owned());
                args.push(id.clone());
            },
            None => {
                args.push("--model".to_owned());
                args.push(self.model.clone());
            },
        }
        if self.allow_all_tools {
            args.push("--allow-all-tools".to_owned());
        }
        args.push("--silent".to_owned());
        args.push("-p".to_owned());
        args.push(prompt.to_owned());
        proof {
            assert(strings_view(args@) =~= self@.arguments(prompt@));
        }
        args
    }

    /// What a run of the tool comes to, from how it ended: `success` and `status` are
    /// its exit, `output` what it wrote where that is valid UTF-8, `stdout` and
    /// `stderr` what it wrote to either stream, read leniently.
    pub fn interpret_run(
        success: bool,
        status: &str,
        output: Option<String>,
        stdout: &str,
        stderr: &str,
    ) -> (result: Result<String, String>)
        ensures
            text_result_view(result) == run_outcome(
                success,
                status@,
                opt_string_view(output),
                stdout@,
                stderr@,
            ),
    {
        if !success {
            let mut message = String::new();
            push_text(&mut message, "copilot exited with ");
            push_text(&mut message, status);
            if !is_blank(stderr) {
                push_text(&mut message, ", stderr: ");
                let t = trim(stderr);
                push_text(&mut message, t.as_str());
            }
            if !is_blank(stdout) {
                push_text(&mut message, ", stdout: ");
                let t = trim(stdout);
                push_text(&mut message, t.as_str());
            }
            proof {
                assert(message@ =~= exit_message(status@, stdout@, stderr@));
            }
            return Err(message);
        }
        match output {
            Some(text) => Ok(text),
            None => Err("decode copilot output".to_owned()),
        }
    }
}

} // verus!
