use vstd::prelude::*;
use crate::models::{
    approvals_view, clone_approvals, ApprovalRecord, ApprovalRecordView, AssignmentMetadata,
    AssignmentMetadataView, RequestedChange, RequestedChangeView, TaskAssignment,
    TaskAssignmentView,
};
use crate::orchestrator::assignments_view;
use crate::text::{
    blank, chars_of, clone_strings, decimal, is_blank, push_decimal, push_text, string_of,
    strings_view, trim, trimmed,
};

verus! {

/// The pieces into which the separator parts a text, in their order: one more than
/// there are separators.
pub open spec fn split(s: Seq<char>, sep: char) -> Seq<Seq<char>>
    decreases s.len(),
{
    if s.len() == 0 {
        seq![Seq::empty()]
    } else {
        let rest = split(s.drop_last(), sep);
        if s.last() == sep {
            rest.push(Seq::empty())
        } else {
            rest.update(rest.len() - 1, rest.last().push(s.last()))
        }
    }
}

/// The pieces trimmed, without those that are then empty.
pub open spec fn kept_pieces(pieces: Seq<Seq<char>>) -> Seq<Seq<char>> {
    pieces.map_values(|p: Seq<char>| trimmed(p)).filter(|p: Seq<char>| p.len() > 0)
}

/// There is always a piece.
proof fn lemma_split_some(s: Seq<char>, sep: char)
    ensures
        split(s, sep).len() > 0,
    decreases s.len(),
{
    if s.len() > 0 {
        lemma_split_some(s.drop_last(), sep);
    }
}

/// The pieces into which the separator parts a text.
fn split_text(text: &str, sep: char) -> (pieces: Vec<String>)
    ensures
        strings_view(pieces@) == split(text@, sep),
{
    let chars = chars_of(text);
    let mut done: Vec<String> = Vec::new();
    let mut current: Vec<char> = Vec::new();
    let mut i: usize = 0;
    proof {
        assert(chars@.take(0) =~= Seq::empty());
        assert(strings_view(done@).push(current@) =~= split(chars@.take(0), sep));
    }
    while i < chars.len()
        invariant
            i <= chars.len(),
            strings_view(done@).push(current@) == split(chars@.take(i as int), sep),
        decreases chars.len() - i,
    {
        let c = chars[i];
        proof {
            let next = chars@.take(i + 1);
            assert(next.drop_last() =~= chars@.take(i as int));
            assert(next.last() == c);
        }
        if c == sep {
            let ghost before = strings_view(done@);
            let piece = string_of(&current);
            done.push(piece);
            current = Vec::new();
            proof {
                assert(strings_view(done@) =~= before.push(piece@));
                assert(strings_view(done@).push(current@) =~= before.push(piece@).push(
                    Seq::empty(),
                ));
            }
        } else {
            let ghost before = current@;
            current.push(c);
            proof {
                let rest = strings_view(done@).push(before);
                assert(rest.update(rest.len() - 1, rest.last().push(c)) =~= strings_view(
                    done@,
                ).push(current@));
            }
        }
        i = i + 1;
    }
    let ghost before = strings_view(done@);
    let piece = string_of(&current);
    done.push(piece);
    proof {
        assert(chars@.take(chars@.len() as int) =~= chars@);
        assert(strings_view(done@) =~= before.push(piece@));
    }
    done
}

/// The pieces trimmed, without those that are then empty.
fn keep_pieces(pieces: &Vec<String>) -> (kept: Vec<String>)
    ensures
        strings_view(kept@) == kept_pieces(strings_view(pieces@)),
{
    let ghost views = strings_view(pieces@);
    let ghost trim_all = |p: Seq<char>| trimmed(p);
    let ghost full = |p: Seq<char>| p.len() > 0;
    let mut kept: Vec<String> = Vec::new();
    let mut i: usize = 0;
    proof {
        assert(views.take(0).map_values(trim_all) =~= Seq::empty());
        Seq::<Seq<char>>::empty().lemma_filter_len(full);
        assert(strings_view(kept@) =~= views.take(0).map_values(trim_all).filter(full));
    }
    while i < pieces.len()
        invariant
            i <= pieces.len(),
            views == strings_view(pieces@),
            trim_all == (|p: Seq<char>| trimmed(p)),
            full == (|p: Seq<char>| p.len() > 0),
            strings_view(kept@) == views.take(i as int).map_values(trim_all).filter(full),
        decreases pieces.len() - i,
    {
        let piece = trim(pieces[i].as_str());
        proof {
            assert(views[i as int] == pieces@[i as int]@);
            assert(views.take(i + 1).map_values(trim_all) =~= views.take(i as int).map_values(
                trim_all,
            ).push(piece@));
            Seq::lemma_filter_push(views.take(i as int).map_values(trim_all), piece@, full);
        }
        if piece.as_str().unicode_len() > 0 {
            let ghost before = strings_view(kept@);
            kept.push(piece);
            proof {
                assert(strings_view(kept@) =~= before.push(piece@));
            }
        }
        i = i + 1;
    }
    proof {
        assert(views.take(views.len() as int) =~= views);
    }
    kept
}

/// The tags that a line names: the one default where the line is blank; else what
/// stands between its commas, trimmed, without what is then empty.
pub open spec fn tags_of(input: Seq<char>, default: Seq<char>) -> Seq<Seq<char>> {
    if blank(input) {
        seq![default]
    } else {
        kept_pieces(split(input, ','))
    }
}

/// Reads the tags that a line names.
pub fn prompt_tags(input: &str, default: &str) -> (tags: Vec<String>)
    ensures
        strings_view(tags@) == tags_of(input@, default@),
{
    if is_blank(input) {
        let mut tags: Vec<String> = Vec::new();
        tags.push(default.to_owned());
        proof {
            assert(strings_view(tags@) =~= seq![default@]);
        }
        return tags;
    }
    let pieces = split_text(input, ',');
    keep_pieces(&pieces)
}

/// The instructions that a line gives: the two that always stand, and then what
/// stands between the line's semicolons, trimmed, without what is then empty.
pub open spec fn instructions_of(input: Seq<char>) -> Seq<Seq<char>> {
    crate::orchestrator::standing_instructions() + (if blank(input) {
        Seq::empty()
    } else {
        kept_pieces(split(input, ';'))
    })
}

/// Reads the instructions that a line gives.
pub fn prompt_instructions(input: &str) -> (instructions: Vec<String>)
    ensures
        strings_view(instructions@) == instructions_of(input@),
{
    let mut instructions: Vec<String> = Vec::new();
    instructions.push("Keep changes isolated to the listed files.".to_owned());
    instructions.push("Provide a structured JSON change request on completion.".to_owned());
    proof {
        assert(strings_view(instructions@) =~= crate::orchestrator::standing_instructions());
    }
    if !is_blank(input) {
        let pieces = split_text(input, ';');
        let kept = keep_pieces(&pieces);
        let mut i: usize = 0;
        let ghost head = strings_view(instructions@);
        while i < kept.len()
            invariant
                i <= kept.len(),
                strings_view(instructions@) == head + strings_view(kept@).take(i as int),
            decreases kept.len() - i,
        {
            let ghost before = strings_view(instructions@);
            instructions.push(kept[i].clone());
            proof {
                assert(strings_view(instructions@) =~= before.push(kept@[i as int]@));
                assert(strings_view(kept@).take(i + 1) =~= strings_view(kept@).take(i as int).push(
                    kept@[i as int]@,
                ));
            }
            i = i + 1;
        }
        proof {
            assert(strings_view(kept@).take(kept@.len() as int) =~= strings_view(kept@));
        }
    } else {
        proof {
            assert(strings_view(instructions@) =~= instructions_of(input@));
        }
    }
    instructions
}

/// Whether an answer asks for one more approval: it begins with `y` or `Y`.
pub open spec fn wants_approval(answer: Seq<char>) -> bool {
    answer.len() > 0 && (answer[0] == 'y' || answer[0] == 'Y')
}

/// Whether an answer asks for one more approval.
pub fn prompt_approvals(answer: &str) -> (wanted: bool)
    ensures
        wanted == wants_approval(answer@),
{
    let chars = chars_of(answer);
    chars.len() > 0 && (chars[0] == 'y' || chars[0] == 'Y')
}

/// What the cast builder was told of a request as a whole.
#[derive(Debug)]
pub struct CastAnswers {
    pub request_id: String,
    pub intent: String,
    pub complexity: u8,
    pub sample_diff: String,
    pub telemetry_anchors: Vec<String>,
    pub approvals: Vec<ApprovalRecord>,
    pub instructions: Vec<String>,
}

pub struct CastAnswersView {
    pub request_id: Seq<char>,
    pub intent: Seq<char>,
    pub complexity: u8,
    pub sample_diff: Seq<char>,
    pub telemetry_anchors: Seq<Seq<char>>,
    pub approvals: Seq<ApprovalRecordView>,
    pub instructions: Seq<Seq<char>>,
}

impl View for CastAnswers {
    type V = CastAnswersView;

    open spec fn view(&self) -> CastAnswersView {
        CastAnswersView {
            request_id: self.request_id@,
            intent: self.intent@,
            complexity: self.complexity,
            sample_diff: self.sample_diff@,
            telemetry_anchors: strings_view(self.telemetry_anchors@),
            approvals: approvals_view(self.approvals@),
            instructions: strings_view(self.instructions@),
        }
    }
}

/// The assignment that the cast builder makes for the change at `index`: what was
/// told of the request as a whole goes into each.
pub open spec fn cast_assignment(
    answers: CastAnswersView,
    change: RequestedChangeView,
    index: nat,
) -> TaskAssignmentView {
    TaskAssignmentView {
        task_id: answers.request_id + "-"@ + decimal(index + 1),
        parent_request_id: answers.request_id,
        summary: change.summary,
        file_targets: seq![change.path],
        instructions: answers.instructions,
        metadata: AssignmentMetadataView {
            intent: answers.intent,
            complexity: answers.complexity,
            sample_diff: Some(answers.sample_diff),
            telemetry_anchors: answers.telemetry_anchors,
            approvals: answers.approvals,
            agent_model: Some("gpt-5-mini"@),
        },
        phase_id: None,
        blocking_on_failure: true,
    }
}

/// The assignments that the cast builder makes: one for each change, in their order.
pub fn run_cast_builder(answers: &CastAnswers, changes: &Vec<RequestedChange>) -> (out: Vec<
    TaskAssignment,
>)
    ensures
        assignments_view(out@) == Seq::new(
            changes@.len(),
            |i: int| cast_assignment(answers@, changes@[i]@, i as nat),
        ),
{
    let mut out: Vec<TaskAssignment> = Vec::new();
    let mut index: usize = 0;
    while index < changes.len()
        invariant
            index <= changes.len(),
            out@.len() == index,
            forall|k: int|
                0 <= k < index ==> (#[trigger] out@[k])@ == cast_assignment(
                    answers@,
                    changes@[k]@,
                    k as nat,
                ),
        decreases changes.len() - index,
    {
        let change = &changes[index];
        let mut task_id = String::new();
        push_text(&mut task_id, answers.request_id.as_str());
        push_text(&mut task_id, "-");
        push_decimal(&mut task_id, (index as u64) + 1);
        let mut file_targets: Vec<String> = Vec::new();
        file_targets.push(change.path.clone());
        let assignment = TaskAssignment {
            task_id,
            parent_request_id: answers.request_id.clone(),
            summary: change.summary.clone(),
            file_targets,
            instructions: clone_strings(&answers.instructions),
            metadata: AssignmentMetadata {
                intent: answers.intent.clone(),
                complexity: answers.complexity,
                sample_diff: Some(answers.sample_diff.clone()),
                telemetry_anchors: clone_strings(&answers.telemetry_anchors),
                approvals: clone_approvals(&answers.approvals),
                agent_model: Some("gpt-5-mini".to_owned()),
            },
            phase_id: None,
            blocking_on_failure: true,
        };
        proof {
            let want = cast_assignment(answers@, change@, index as nat);
            assert(assignment@.task_id =~= want.task_id);
            assert(assignment@.file_targets =~= want.file_targets);
        }
        out.push(assignment);
        index = index + 1;
    }
    proof {
        assert(assignments_view(out@) =~= Seq::new(
            changes@.len(),
            |i: int| cast_assignment(answers@, changes@[i]@, i as nat),
        ));
    }
    out
}

/// Where the cast builder writes a request unless it is told otherwise.
pub open spec fn cast_target(request_id: Seq<char>) -> Seq<char> {
    "taskjson/"@ + request_id + ".json"@
}

/// Where the cast builder writes a request unless it is told otherwise.
pub fn default_target(request_id: &str) -> (path: String)
    ensures
        path@ == cast_target(request_id@),
{
    let mut path = String::new();
    push_text(&mut path, "taskjson/");
    push_text(&mut path, request_id);
    push_text(&mut path, ".json");
    proof {
        assert(path@ =~= cast_target(request_id@));
    }
    path
}

} // verus!
