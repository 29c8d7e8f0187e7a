use vstd::prelude::*;
use crate::text::{chars_of, occurs_at, push_text, string_of, trim, trimmed};

verus! {

/// The language of a project, by the file that marks it.
pub open spec fn language_of(has_cargo: bool, has_package: bool, has_pyproject: bool) -> Seq<char> {
    if has_cargo {
        "Rust (Cargo)"@
    } else if has_package {
        "Node.js (npm)"@
    } else if has_pyproject {
        "Python (poetry)"@
    } else {
        "Unknown"@
    }
}

/// The language of a project: `has_cargo`, `has_package` and `has_pyproject` say
/// whether the target holds `Cargo.toml`, `package.json` and `pyproject.toml`.
pub fn detect_language(has_cargo: bool, has_package: bool, has_pyproject: bool) -> (out: String)
    ensures
        out@ == language_of(has_cargo, has_package, has_pyproject),
{
    if has_cargo {
        "Rust (Cargo)".to_owned()
    } else if has_package {
        "Node.js (npm)".to_owned()
    } else if has_pyproject {
        "Python (poetry)".to_owned()
    } else {
        "Unknown".to_owned()
    }
}

/// A text with every `from` replaced by `to`, from left to right: what was replaced is
/// not looked at again. Where `from` is empty, the text stays as it is.
pub open spec fn replaced(text: Seq<char>, from: Seq<char>, to: Seq<char>) -> Seq<char>
    decreases text.len(),
{
    if from.len() == 0 || text.len() < from.len() {
        text
    } else if occurs_at(text, from, 0) {
        to + replaced(text.skip(from.len() as int), from, to)
    } else {
        seq![text[0]] + replaced(text.skip(1), from, to)
    }
}

/// Whether `needle` stands in `hay` at `at`.
fn stands_at(hay: &Vec<char>, needle: &Vec<char>, at: usize) -> (b: bool)
    requires
        at <= hay.len(),
    ensures
        b == occurs_at(hay@.skip(at as int), needle@, 0),
{
    if needle.len() > hay.len() - at {
        return false;
    }
    let mut j: usize = 0;
    while j < needle.len()
        invariant
            j <= needle.len(),
            at + needle.len() <= hay.len(),
            forall|k: int| 0 <= k < j ==> hay@[at + k] == needle@[k],
        decreases needle.len() - j,
    {
        if hay[at + j] != needle[j] {
            proof {
                let sub = hay@.skip(at as int).subrange(0, needle@.len() as int);
                assert(sub[j as int] == hay@[at + j]);
            }
            return false;
        }
        j = j + 1;
    }
    proof {
        assert(hay@.skip(at as int).subrange(0, needle@.len() as int) =~= needle@);
    }
    true
}

/// The text with every `from` replaced by `to`.
pub fn replace_text(text: &str, from: &str, to: &str) -> (out: String)
    ensures
        out@ == replaced(text@, from@, to@),
{
    let hay = chars_of(text);
    let pin = chars_of(from);
    let with = chars_of(to);
    if pin.len() == 0 {
        return text.to_owned();
    }
    let mut out: Vec<char> = Vec::new();
    let mut at: usize = 0;
    proof {
        assert(hay@.skip(0) =~= hay@);
    }
    while at < hay.len()
        invariant
            at <= hay.len(),
            pin@.len() > 0,
            pin@ == from@,
            with@ == to@,
            replaced(hay@, pin@, with@) == out@ + replaced(hay@.skip(at as int), pin@, with@),
        decreases hay.len() - at,
    {
        let ghost rest = hay@.skip(at as int);
        if stands_at(&hay, &pin, at) {
            let ghost before = out@;
            let mut k: usize = 0;
            while k < with.len()
                invariant
                    k <= with.len(),
                    out@ == before + with@.take(k as int),
                decreases with.len() - k,
            {
                out.push(with[k]);
                proof {
                    assert(out@ =~= before + with@.take(k + 1));
                }
                k = k + 1;
            }
            proof {
                assert(with@.take(with@.len() as int) =~= with@);
                assert(rest.skip(pin@.len() as int) =~= hay@.skip(at + pin@.len()));
                assert(out@ + replaced(hay@.skip(at + pin@.len()), pin@, with@) =~= before + (with@
                    + replaced(rest.skip(pin@.len() as int), pin@, with@)));
            }
            at = at + pin.len();
        } else {
            let ghost before = out@;
            out.push(hay[at]);
            proof {
                assert(rest[0] == hay@[at as int]);
                assert(rest.skip(1) =~= hay@.skip(at + 1));
                if rest.len() < pin@.len() {
                    lemma_replaced_short(rest, pin@, with@);
                    lemma_replaced_short(rest.skip(1), pin@, with@);
                    assert(rest =~= seq![rest[0]] + rest.skip(1));
                }
                assert(out@ + replaced(hay@.skip(at + 1), pin@, with@) =~= before + (seq![rest[0]]
                    + replaced(rest.skip(1), pin@, with@)));
            }
            at = at + 1;
        }
    }
    proof {
        assert(hay@.skip(hay@.len() as int) =~= Seq::empty());
        assert(out@ + Seq::<char>::empty() =~= out@);
    }
    string_of(&out)
}

/// A text that is shorter than what is to be replaced stays as it is.
proof fn lemma_replaced_short(text: Seq<char>, from: Seq<char>, to: Seq<char>)
    requires
        text.len() < from.len(),
    ensures
        replaced(text, from, to) == text,
{
}

/// The guide of an export: the template with the target's path, its language and the
/// state of its repository put in for their marks, in this order.
pub open spec fn export_guide(
    template: Seq<char>,
    target_path: Seq<char>,
    language: Seq<char>,
    git_status: Seq<char>,
) -> Seq<char> {
    replaced(
        replaced(replaced(template, "{{target_path}}"@, target_path), "{{language}}"@, language),
        "{{git_status}}"@,
        git_status,
    )
}

/// Fills in the guide of an export.
pub fn render_export_guide(template: &str, target_path: &str, language: &str, git_status: &str) -> (out:
    String)
    ensures
        out@ == export_guide(template@, target_path@, language@, git_status@),
{
    let first = replace_text(template, "{{target_path}}", target_path);
    let second = replace_text(first.as_str(), "{{language}}", language);
    replace_text(second.as_str(), "{{git_status}}", git_status)
}

/// What is said of the state of the target's repository: where git ran and
/// succeeded, what it wrote, trimmed; where it ran and failed, that it failed and
/// what it wrote to its error stream, trimmed; where it could not be run, that and
/// why.
pub open spec fn git_status_text(
    ran: bool,
    success: bool,
    stdout: Seq<char>,
    stderr: Seq<char>,
    fault: Seq<char>,
) -> Seq<char> {
    if !ran {
        "git status unavailable: "@ + fault
    } else if success {
        trimmed(stdout)
    } else {
        "git status failed: "@ + trimmed(stderr)
    }
}

/// Says how the target's repository stands, from how the run of git ended. `ran` says
/// whether git could be run at all, and `fault` why not.
pub fn describe_git_status(ran: bool, success: bool, stdout: &str, stderr: &str, fault: &str) -> (out:
    String)
    ensures
        out@ == git_status_text(ran, success, stdout@, stderr@, fault@),
{
    if !ran {
        let mut out = String::new();
        push_text(&mut out, "git status unavailable: ");
        push_text(&mut out, fault);
        proof {
            assert(out@ =~= "git status unavailable: "@ + fault@);
        }
        out
    } else if success {
        trim(stdout)
    } else {
        let mut out = String::new();
        push_text(&mut out, "git status failed: ");
        let t = trim(stderr);
        push_text(&mut out, t.as_str());
        proof {
            assert(out@ =~= "git status failed: "@ + trimmed(stderr@));
        }
        out
    }
}

/// The prompt file of a skill that brings none of its own.
pub open spec fn skill_prompt(skill: Seq<char>, skills_dir: Seq<char>) -> Seq<char> {
    "# "@ + skill
        + " skill prompt\n\nThis file contains instructions that an agent can use to interact with the Hyperion system to execute the `"@
        + skill
        + "` skill.\n\nEnvironment\n- The `hyperion` binary must be available in PATH (build with `cargo build --release`), or run from the repository root using `cargo run --`.\n- The exported bundle contains a `skills/` directory at `"@
        + skills_dir
        + "` with the skill implementation.\n\nQuick command examples\n- Run an interactive agent with a short prompt:\n  hyperion agent --model gpt-5-mini \\\""@
        + skill
        + ": <describe the task>\\\"\n\n- Submit a task request file (JSON):\n  hyperion request path/to/request.json --model gpt-5-mini --agents 1\n\n- Decompose a request into assignments:\n  hyperion orchestrate path/to/request.json\n\n- Start a worker to process queued tasks:\n  hyperion worker --worker-id "@
        + skill
        + "-worker\n\n- Run the integrated stack (workers + TUI):\n  hyperion run\n\n- Apply changes produced by agents:\n  hyperion apply path/to/changes.json\n\nNotes\n- Inspect `skills/"@
        + skill
        + "` inside the exported bundle for implementation details.\n- Use these prompts and the CLI examples to automate or orchestrate the skill.\n"@
}

/// Writes the prompt file of a skill that brings none of its own.
pub fn render_skill_prompt(skill: &str, skills_dir: &str) -> (out: String)
    ensures
        out@ == skill_prompt(skill@, skills_dir@),
{
    let mut out = String::new();
    push_text(&mut out, "# ");
    push_text(&mut out, skill);
    push_text(
        &mut out,
        " skill prompt\n\nThis file contains instructions that an agent can use to interact with the Hyperion system to execute the `",
    );
    push_text(&mut out, skill);
    push_text(
        &mut out,
        "` skill.\n\nEnvironment\n- The `hyperion` binary must be available in PATH (build with `cargo build --release`), or run from the repository root using `cargo run --`.\n- The exported bundle contains a `skills/` directory at `",
    );
    push_text(&mut out, skills_dir);
    push_text(
        &mut out,
        "` with the skill implementation.\n\nQuick command examples\n- Run an interactive agent with a short prompt:\n  hyperion agent --model gpt-5-mini \\\"",
    );
    push_text(&mut out, skill);
    push_text(
        &mut out,
        ": <describe the task>\\\"\n\n- Submit a task request file (JSON):\n  hyperion request path/to/request.json --model gpt-5-mini --agents 1\n\n- Decompose a request into assignments:\n  hyperion orchestrate path/to/request.json\n\n- Start a worker to process queued tasks:\n  hyperion worker --worker-id ",
    );
    push_text(&mut out, skill);
    push_text(
        &mut out,
        "-worker\n\n- Run the integrated stack (workers + TUI):\n  hyperion run\n\n- Apply changes produced by agents:\n  hyperion apply path/to/changes.json\n\nNotes\n- Inspect `skills/",
    );
    push_text(&mut out, skill);
    push_text(
        &mut out,
        "` inside the exported bundle for implementation details.\n- Use these prompts and the CLI examples to automate or orchestrate the skill.\n",
    );
    proof {
        assert(out@ =~= skill_prompt(skill@, skills_dir@));
    }
    out
}

/// The prompt file of a skill that brings a description of its own: the description
/// under the skill's heading, and the commands that go with every skill.
pub open spec fn described_skill_prompt(skill: Seq<char>, description: Seq<char>) -> Seq<char> {
    "# "@ + skill + " skill prompt\n\n"@ + description
        + "\n\nCLI examples\n- hyperion agent --model gpt-5-mini \""@ + skill
        + ": <describe the task>\"\n- hyperion request path/to/request.json --model gpt-5-mini --agents 1\n- hyperion orchestrate path/to/request.json\n- hyperion worker --worker-id "@
        + skill
        + "-worker\n- hyperion run\n- hyperion apply path/to/changes.json\n\nInspect the skill implementation in skills/"@
        + skill + " for more details.\n"@
}

/// Writes the prompt file of a skill that brings a description of its own.
pub fn render_described_skill_prompt(skill: &str, description: &str) -> (out: String)
    ensures
        out@ == described_skill_prompt(skill@, description@),
{
    let mut out = String::new();
    push_text(&mut out, "# ");
    push_text(&mut out, skill);
    push_text(&mut out, " skill prompt\n\n");
    push_text(&mut out, description);
    push_text(&mut out, "\n\nCLI examples\n- hyperion agent --model gpt-5-mini \"");
    push_text(&mut out, skill);
    push_text(
        &mut out,
        ": <describe the task>\"\n- hyperion request path/to/request.json --model gpt-5-mini --agents 1\n- hyperion orchestrate path/to/request.json\n- hyperion worker --worker-id ",
    );
    push_text(&mut out, skill);
    push_text(
        &mut out,
        "-worker\n- hyperion run\n- hyperion apply path/to/changes.json\n\nInspect the skill implementation in skills/",
    );
    push_text(&mut out, skill);
    push_text(&mut out, " for more details.\n");
    proof {
        assert(out@ =~= described_skill_prompt(skill@, description@));
    }
    out
}

/// The place of the last dot of a name that is not its first character.
pub open spec fn is_stem_end(name: Seq<char>, at: int) -> bool {
    &&& 0 < at < name.len()
    &&& name[at] == '.'
    &&& forall|k: int| at < k < name.len() ==> name[k] != '.'
}

/// The name of the skill that an entry of the skills' directory holds: for a
/// directory its name; for a file its name up to its last dot, where that dot is not
/// the first character, and else its whole name.
pub open spec fn skill_name_of(file_name: Seq<char>, is_file: bool) -> Seq<char> {
    if is_file && exists|at: int| is_stem_end(file_name, at) {
        file_name.take(choose|at: int| is_stem_end(file_name, at))
    } else {
        file_name
    }
}

/// The name of the skill that an entry of the skills' directory holds.
pub fn skill_name(file_name: &str, is_file: bool) -> (out: String)
    ensures
        out@ == skill_name_of(file_name@, is_file),
{
    if !is_file {
        return file_name.to_owned();
    }
    let chars = chars_of(file_name);
    let mut at: usize = chars.len();
    while at > 1
        invariant
            is_file,
            at <= chars.len(),
            chars@ == file_name@,
            forall|k: int| at <= k < chars.len() ==> chars@[k] != '.',
        decreases at,
    {
        at = at - 1;
        if chars[at] == '.' {
            let mut kept: Vec<char> = Vec::new();
            let mut i: usize = 0;
            while i < at
                invariant
                    i <= at < chars.len(),
                    kept@ == chars@.take(i as int),
                decreases at - i,
            {
                kept.push(chars[i]);
                proof {
                    assert(kept@ =~= chars@.take(i + 1));
                }
                i = i + 1;
            }
            proof {
                assert(is_stem_end(chars@, at as int));
                let chosen = choose|c: int| is_stem_end(chars@, c);
                if chosen < at {
                    assert(chars@[at as int] != '.');
                }
                if chosen > at {
                    assert(chars@[chosen] != '.');
                }
                assert(chosen == at);
            }
            return string_of(&kept);
        }
    }
    proof {
        assert forall|c: int| !is_stem_end(chars@, c) by {
            if 0 < c < chars@.len() && chars@[c] == '.' {
                assert(c >= at);
            }
        }
    }
    file_name.to_owned()
}

} // verus!
