use vstd::prelude::*;
use crate::journal::{file_events_view, logs_view, ChangeQueueLog, FileModification};
use crate::metrics::{window_start, QueueMetrics, Tally};
use crate::models::{
    approvals_view, AgentSession, AgentSessionView, ApprovalRecord, ApprovalRecordView,
    QueueRecord, QueueRecordView, QueueStatus, StatusCounts,
};
use crate::queue::{records_view, session_option_view, SqliteQueue};
use crate::store::QueueView;
use crate::text::{
    before_at, compare_text, decimal, join, joined, opt_string_view, push_decimal,
    push_signed_decimal, push_text, signed_decimal, strings_view, text_before, text_eq,
    TextOrder,
};
use crate::worker::{excerpt, excerpt_of};

verus! {

/// What the dashboard is told when it starts.
#[derive(Debug)]
pub struct TuiConfig {
    pub db_path: String,
    pub worker_count: usize,
    pub agent_count: usize,
}

pub struct TuiConfigView {
    pub db_path: Seq<char>,
    pub worker_count: usize,
    pub agent_count: usize,
}

impl View for TuiConfig {
    type V = TuiConfigView;

    open spec fn view(&self) -> TuiConfigView {
        TuiConfigView {
            db_path: self.db_path@,
            worker_count: self.worker_count,
            agent_count: self.agent_count,
        }
    }
}

/// What the dashboard shows and how: which statuses and which agent, how often it
/// looks again, which entry is picked, and which panes are open.
#[derive(Debug)]
pub struct TuiState {
    pub status_index: usize,
    pub agent_filter: Option<String>,
    pub refresh_index: usize,
    pub selected_index: usize,
    pub show_detail: bool,
    pub show_events: bool,
}

pub struct TuiStateView {
    pub status_index: usize,
    pub agent_filter: Option<Seq<char>>,
    pub refresh_index: usize,
    pub selected_index: usize,
    pub show_detail: bool,
    pub show_events: bool,
}

impl View for TuiState {
    type V = TuiStateView;

    open spec fn view(&self) -> TuiStateView {
        TuiStateView {
            status_index: self.status_index,
            agent_filter: opt_string_view(self.agent_filter),
            refresh_index: self.refresh_index,
            selected_index: self.selected_index,
            show_detail: self.show_detail,
            show_events: self.show_events,
        }
    }
}

impl TuiStateView {
    /// The dashboard as it opens: all statuses and agents, a look every half second,
    /// the first entry picked, both panes open.
    pub open spec fn initial() -> TuiStateView {
        TuiStateView {
            status_index: 0,
            agent_filter: None,
            refresh_index: 1,
            selected_index: 0,
            show_detail: true,
            show_events: true,
        }
    }

}

impl Default for TuiState {
    fn default() -> (out: Self)
        ensures
            out@ == TuiStateView::initial(),
    {
        TuiState {
            status_index: 0,
            agent_filter: None,
            refresh_index: 1,
            selected_index: 0,
            show_detail: true,
            show_events: true,
        }
    }
}

/// The status that the filter at `index` lets through; all where it is the first.
pub open spec fn status_filter(index: usize) -> Option<QueueStatus> {
    if index == 1 {
        Some(QueueStatus::Pending)
    } else if index == 2 {
        Some(QueueStatus::InProgress)
    } else if index == 3 {
        Some(QueueStatus::Applied)
    } else if index == 4 {
        Some(QueueStatus::Failed)
    } else {
        None
    }
}

/// The milliseconds between two looks for the choice at `index`.
pub open spec fn refresh_interval(index: usize) -> u64 {
    if index == 0 {
        200
    } else if index == 1 {
        500
    } else if index == 2 {
        1000
    } else {
        2000
    }
}

/// The status that the filter at `index` lets through.
pub fn status_filter_at(index: usize) -> (out: Option<QueueStatus>)
    ensures
        out == status_filter(index),
{
    if index == 1 {
        Some(QueueStatus::Pending)
    } else if index == 2 {
        Some(QueueStatus::InProgress)
    } else if index == 3 {
        Some(QueueStatus::Applied)
    } else if index == 4 {
        Some(QueueStatus::Failed)
    } else {
        None
    }
}

/// The milliseconds between two looks for the choice at `index`.
pub fn refresh_interval_at(index: usize) -> (out: u64)
    ensures
        out == refresh_interval(index),
{
    if index == 0 {
        200
    } else if index == 1 {
        500
    } else if index == 2 {
        1000
    } else {
        2000
    }
}

/// A text cut to `max` characters, with a mark where more followed.
pub fn truncate(value: &str, max: usize) -> (out: String)
    ensures
        out@ == excerpt_of(value@, max as nat),
{
    excerpt(value, max)
}

/// The name at `at` is the first that equals `current`.
pub open spec fn is_first_name(names: Seq<Seq<char>>, current: Seq<char>, at: int) -> bool {
    &&& 0 <= at < names.len()
    &&& names[at] == current
    &&& forall|k: int| 0 <= k < at ==> #[trigger] names[k] != current
}

/// The agent that the filter goes to next: from none to the first name, from a name to
/// the one after it, from the last name to none; and to the first name from one that
/// is not in the list. Without names the filter stays off.
pub open spec fn next_agent(names: Seq<Seq<char>>, current: Option<Seq<char>>) -> Option<Seq<char>> {
    if names.len() == 0 {
        None
    } else {
        match current {
            Some(c) => after_name(names, c),
            None => Some(names[0]),
        }
    }
}

/// The name after the first `current` in a list that is not empty: nothing where that
/// is the last name, and the first name where `current` is not in the list.
pub open spec fn after_name(names: Seq<Seq<char>>, current: Seq<char>) -> Option<Seq<char>> {
    if exists|at: int| is_first_name(names, current, at) {
        let at = choose|at: int| is_first_name(names, current, at);
        if at + 1 < names.len() {
            Some(names[at + 1])
        } else {
            None
        }
    } else {
        Some(names[0])
    }
}

/// The view of a name that may be absent.
pub open spec fn name_view(current: Option<&str>) -> Option<Seq<char>> {
    match current {
        Some(c) => Some(c@),
        None => None,
    }
}

/// The agent that the filter goes to next.
pub fn cycle_agent_filter(names: &Vec<String>, current: Option<&str>) -> (out: Option<String>)
    ensures
        opt_string_view(out) == next_agent(strings_view(names@), name_view(current)),
{
    if names.len() == 0 {
        return None;
    }
    let ghost views = strings_view(names@);
    proof {
        assert(views[0] == names@[0]@);
    }
    match current {
        None => Some(names[0].clone()),
        Some(c) => {
            let mut at: usize = 0;
            while at < names.len()
                invariant
                    at <= names.len(),
                    names.len() > 0,
                    name_view(current) == Some(c@),
                    views == strings_view(names@),
                    forall|k: int| 0 <= k < at ==> #[trigger] views[k] != c@,
                decreases names.len() - at,
            {
                proof {
                    assert(views[at as int] == names@[at as int]@);
                }
                if text_eq(names[at].as_str(), c) {
                    proof {
                        assert(is_first_name(views, c@, at as int));
                        let chosen = choose|k: int| is_first_name(views, c@, k);
                        if chosen < at {
                            assert(views[chosen] != c@);
                        }
                        if chosen > at {
                            assert(views[at as int] != c@);
                        }
                        assert(chosen == at);
                    }
                    if at + 1 < names.len() {
                        let next = names[at + 1].clone();
                        proof {
                            assert(views[at + 1] == names@[at + 1]@);
                            assert(next@ == views[at + 1]);
                        }
                        return Some(next);
                    }
                    return None;
                }
                at = at + 1;
            }
            proof {
                assert forall|k: int| !is_first_name(views, c@, k) by {
                    if 0 <= k < views.len() {
                        assert(views[k] != c@);
                    }
                }
            }
            Some(names[0].clone())
        },
    }
}

/// What the cast builder wrote down of its last export.
#[derive(Debug)]
pub struct CastBuilderContext {
    pub request_id: String,
    pub summary: String,
    pub intent: String,
    pub complexity: u8,
    pub telemetry_anchors: Vec<String>,
    pub approvals: Vec<ApprovalRecord>,
    pub exported_at: Option<u64>,
}

pub struct CastBuilderContextView {
    pub request_id: Seq<char>,
    pub summary: Seq<char>,
    pub intent: Seq<char>,
    pub complexity: u8,
    pub telemetry_anchors: Seq<Seq<char>>,
    pub approvals: Seq<ApprovalRecordView>,
    pub exported_at: Option<u64>,
}

impl View for CastBuilderContext {
    type V = CastBuilderContextView;

    open spec fn view(&self) -> CastBuilderContextView {
        CastBuilderContextView {
            request_id: self.request_id@,
            summary: self.summary@,
            intent: self.intent@,
            complexity: self.complexity,
            telemetry_anchors: strings_view(self.telemetry_anchors@),
            approvals: approvals_view(self.approvals@),
            exported_at: self.exported_at,
        }
    }
}

/// The names of those who approved, one for one.
pub open spec fn approvers(approvals: Seq<ApprovalRecordView>) -> Seq<Seq<char>> {
    approvals.map_values(|a: ApprovalRecordView| a.approver)
}

/// The pane on the cast builder.
pub open spec fn cast_text(ctx: Option<CastBuilderContextView>) -> Seq<char> {
    match ctx {
        None => "Cast Builder: no exports yet."@,
        Some(c) => "Request: "@ + c.request_id + "\nSummary: "@ + c.summary + "\nIntent: "@
            + c.intent + "\nComplexity: "@ + decimal(c.complexity as nat) + "/10\nAnchors: "@ + (
        if c.telemetry_anchors.len() == 0 {
            "none"@
        } else {
            joined(c.telemetry_anchors, ", "@)
        }) + "\nApprovals: "@ + (if c.approvals.len() == 0 {
            "none"@
        } else {
            joined(approvers(c.approvals), ", "@)
        }) + "\nExported: "@ + (match c.exported_at {
            Some(t) => decimal(t as nat) + "s since epoch"@,
            None => "n/a"@,
        }),
    }
}

/// The view of a context that may be absent.
pub open spec fn context_view(ctx: Option<&CastBuilderContext>) -> Option<CastBuilderContextView> {
    match ctx {
        Some(c) => Some(c@),
        None => None,
    }
}

/// The pane on the cast builder.
pub fn format_cast_builder_text(ctx: Option<&CastBuilderContext>) -> (out: String)
    ensures
        out@ == cast_text(context_view(ctx)),
{
    let context = match ctx {
        None => {
            return "Cast Builder: no exports yet.".to_owned();
        },
        Some(c) => c,
    };
    let mut out = String::new();
    push_text(&mut out, "Request: ");
    push_text(&mut out, context.request_id.as_str());
    push_text(&mut out, "\nSummary: ");
    push_text(&mut out, context.summary.as_str());
    push_text(&mut out, "\nIntent: ");
    push_text(&mut out, context.intent.as_str());
    push_text(&mut out, "\nComplexity: ");
    push_decimal(&mut out, context.complexity as u64);
    push_text(&mut out, "/10\nAnchors: ");
    if context.telemetry_anchors.len() == 0 {
        push_text(&mut out, "none");
    } else {
        let anchors = join(&context.telemetry_anchors, ", ");
        push_text(&mut out, anchors.as_str());
    }
    push_text(&mut out, "\nApprovals: ");
    if context.approvals.len() == 0 {
        push_text(&mut out, "none");
    } else {
        let mut names: Vec<String> = Vec::new();
        let mut i: usize = 0;
        while i < context.approvals.len()
            invariant
                i <= context.approvals.len(),
                names@.len() == i,
                forall|k: int|
                    0 <= k < i ==> (#[trigger] names@[k])@ == context@.approvals[k].approver,
            decreases context.approvals.len() - i,
        {
            proof {
                assert(context@.approvals[i as int] == context.approvals@[i as int]@);
            }
            names.push(context.approvals[i].approver.clone());
            i = i + 1;
        }
        proof {
            assert(strings_view(names@) =~= approvers(context@.approvals));
        }
        let listed = join(&names, ", ");
        push_text(&mut out, listed.as_str());
    }
    push_text(&mut out, "\nExported: ");
    match context.exported_at {
        Some(t) => {
            push_decimal(&mut out, t);
            push_text(&mut out, "s since epoch");
        },
        None => {
            push_text(&mut out, "n/a");
        },
    }
    proof {
        assert(out@ =~= cast_text(Some(context@)));
    }
    out
}

/// A key that the dashboard knows.
#[derive(Clone, Copy, Debug, PartialEq, Eq, Structural)]
pub enum DashboardKey {
    Quit,
    CycleStatus,
    CycleAgent,
    CycleRefresh,
    ToggleDetail,
    ToggleEvents,
    Up,
    Down,
    Other,
}

/// The key that a character stands for.
pub open spec fn key_of(c: char) -> DashboardKey {
    if c == 'q' {
        DashboardKey::Quit
    } else if c == 's' {
        DashboardKey::CycleStatus
    } else if c == 'a' {
        DashboardKey::CycleAgent
    } else if c == 'r' {
        DashboardKey::CycleRefresh
    } else if c == 'd' {
        DashboardKey::ToggleDetail
    } else if c == 'e' {
        DashboardKey::ToggleEvents
    } else {
        DashboardKey::Other
    }
}

/// The key that a character stands for.
pub fn key_for(c: char) -> (key: DashboardKey)
    ensures
        key == key_of(c),
{
    if c == 'q' {
        DashboardKey::Quit
    } else if c == 's' {
        DashboardKey::CycleStatus
    } else if c == 'a' {
        DashboardKey::CycleAgent
    } else if c == 'r' {
        DashboardKey::CycleRefresh
    } else if c == 'd' {
        DashboardKey::ToggleDetail
    } else if c == 'e' {
        DashboardKey::ToggleEvents
    } else {
        DashboardKey::Other
    }
}

/// The choice after the one at `index` among `count`: the next one, and the first one
/// after the last.
pub open spec fn next_choice(index: usize, count: usize) -> usize {
    if index + 1 < count {
        (index + 1) as usize
    } else {
        0
    }
}

/// The dashboard after a key. `names` are the agents that can be filtered by, and
/// `shown` is the number of entries that the filters let through.
pub open spec fn after_key(
    state: TuiStateView,
    key: DashboardKey,
    names: Seq<Seq<char>>,
    shown: nat,
) -> TuiStateView {
    match key {
        DashboardKey::CycleStatus => TuiStateView {
            status_index: next_choice(state.status_index, 5),
            selected_index: 0,
            ..state
        },
        DashboardKey::CycleAgent => TuiStateView {
            agent_filter: next_agent(names, state.agent_filter),
            selected_index: 0,
            ..state
        },
        DashboardKey::CycleRefresh => TuiStateView {
            refresh_index: next_choice(state.refresh_index, 4),
            ..state
        },
        DashboardKey::ToggleDetail => TuiStateView { show_detail: !state.show_detail, ..state },
        DashboardKey::ToggleEvents => TuiStateView { show_events: !state.show_events, ..state },
        DashboardKey::Up => TuiStateView {
            selected_index: if state.selected_index > 0 {
                (state.selected_index - 1) as usize
            } else {
                state.selected_index
            },
            ..state
        },
        DashboardKey::Down => TuiStateView {
            selected_index: if shown == 0 {
                state.selected_index
            } else if state.selected_index + 1 < shown {
                (state.selected_index + 1) as usize
            } else {
                (shown - 1) as usize
            },
            ..state
        },
        _ => state,
    }
}

/// Takes a key. Returns whether the dashboard goes on: it ends on the key to quit,
/// and nothing else changes then.
pub fn on_key(state: &mut TuiState, key: DashboardKey, names: &Vec<String>, shown: usize) -> (goes_on:
    bool)
    ensures
        goes_on == (key != DashboardKey::Quit),
        final(state)@ == after_key(old(state)@, key, strings_view(names@), shown as nat),
{
    match key {
        DashboardKey::Quit => {
            return false;
        },
        DashboardKey::CycleStatus => {
            state.status_index = if state.status_index < 4 {
                state.status_index + 1
            } else {
                0
            };
            state.selected_index = 0;
        },
        DashboardKey::CycleAgent => {
            let next = match &state.agent_filter {
                Some(current) => cycle_agent_filter(names, Some(current.as_str())),
                None => cycle_agent_filter(names, None),
            };
            state.agent_filter = next;
            state.selected_index = 0;
        },
        DashboardKey::CycleRefresh => {
            state.refresh_index = if state.refresh_index < 3 {
                state.refresh_index + 1
            } else {
                0
            };
        },
        DashboardKey::ToggleDetail => {
            state.show_detail = !state.show_detail;
        },
        DashboardKey::ToggleEvents => {
            state.show_events = !state.show_events;
        },
        DashboardKey::Up => {
            if state.selected_index > 0 {
                state.selected_index = state.selected_index - 1;
            }
        },
        DashboardKey::Down => {
            if shown > 0 {
                if state.selected_index < shown - 1 {
                    state.selected_index = state.selected_index + 1;
                } else {
                    state.selected_index = shown - 1;
                }
            }
        },
        DashboardKey::Other => {},
    }
    true
}

/// Whether the filters let an entry through.
pub open spec fn shows(state: TuiStateView, record: QueueRecordView) -> bool {
    &&& (status_filter(state.status_index).is_none() || status_filter(state.status_index)
        == Some(record.status))
    &&& (state.agent_filter.is_none() || state.agent_filter == Some(record.payload.agent))
}

/// The entries that the filters let through, in their order.
pub open spec fn shown_records(history: Seq<QueueRecordView>, state: TuiStateView) -> Seq<
    QueueRecordView,
> {
    history.filter(|r: QueueRecordView| shows(state, r))
}

/// The entries that the filters let through, in their order.
pub fn visible_records(history: &Vec<QueueRecord>, state: &TuiState) -> (out: Vec<QueueRecord>)
    ensures
        records_view(out@) == shown_records(records_view(history@), state@),
{
    let mut out: Vec<QueueRecord> = Vec::new();
    let filter = status_filter_at(state.status_index);
    let ghost views = records_view(history@);
    let ghost pred = |r: QueueRecordView| shows(state@, r);
    let mut i: usize = 0;
    proof {
        assert(views.take(0) =~= Seq::empty());
        Seq::<QueueRecordView>::empty().lemma_filter_len(pred);
        assert(records_view(out@) =~= views.take(0).filter(pred));
    }
    while i < history.len()
        invariant
            i <= history.len(),
            views == records_view(history@),
            pred == (|r: QueueRecordView| shows(state@, r)),
            filter == status_filter(state.status_index),
            records_view(out@) == views.take(i as int).filter(pred),
        decreases history.len() - i,
    {
        let record = &history[i];
        proof {
            assert(views[i as int] == record@);
            assert(views.take(i + 1) =~= views.take(i as int).push(record@));
            Seq::lemma_filter_push(views.take(i as int), record@, pred);
        }
        let status_ok = match filter {
            Some(s) => s == record.status,
            None => true,
        };
        let agent_ok = match &state.agent_filter {
            Some(a) => text_eq(a.as_str(), record.payload.agent.as_str()),
            None => true,
        };
        if status_ok && agent_ok {
            let ghost before = records_view(out@);
            out.push(record.clone());
            proof {
                assert(records_view(out@) =~= before.push(record@));
            }
        }
        i = i + 1;
    }
    proof {
        assert(views.take(views.len() as int) =~= views);
    }
    out
}

/// The place that is picked among `shown` entries: the first where there is none,
/// the last where the place picked lies beyond it.
pub open spec fn held_selection(selected: usize, shown: nat) -> usize {
    if shown == 0 {
        0
    } else if selected >= shown {
        (shown - 1) as usize
    } else {
        selected
    }
}

/// Holds the place picked to the entries that are shown.
pub fn clamp_selection(state: &mut TuiState, shown: usize)
    ensures
        final(state)@ == (TuiStateView {
            selected_index: held_selection(old(state)@.selected_index, shown as nat),
            ..old(state)@
        }),
{
    if shown == 0 {
        state.selected_index = 0;
    } else if state.selected_index >= shown {
        state.selected_index = shown - 1;
    }
}

/// The names stand in the order of strings, each once.
pub open spec fn names_ascend(names: Seq<Seq<char>>) -> bool {
    forall|i: int, j: int|
        0 <= i < j < names.len() ==> text_before(#[trigger] names[i], #[trigger] names[j])
}

/// The names are those of the agents of the entries, and no others.
pub open spec fn names_of(names: Seq<Seq<char>>, history: Seq<QueueRecordView>) -> bool {
    &&& forall|i: int| 0 <= i < history.len() ==> names.contains((#[trigger] history[i]).payload.agent)
    &&& forall|k: int|
        0 <= k < names.len() ==> exists|i: int|
            0 <= i < history.len() && history[i].payload.agent == #[trigger] names[k]
}

/// The order of strings passes on: what comes before a text comes before all that the
/// text comes before.
pub proof fn lemma_order_passes_on(a: Seq<char>, b: Seq<char>, c: Seq<char>)
    requires
        text_before(a, b),
        text_before(b, c),
    ensures
        text_before(a, c),
{
    let n = choose|n: int| before_at(a, b, n);
    let m = choose|m: int| before_at(b, c, m);
    if n < m {
        assert(before_at(a, c, n)) by {
            assert(b[n] == c[n]);
        }
    } else if n > m {
        assert(before_at(a, c, m)) by {
            assert(a[m] == b[m]);
        }
    } else {
        assert(before_at(a, c, n));
    }
}

/// The agents of the entries, each once, in the order of strings.
pub fn agent_names(history: &Vec<QueueRecord>) -> (names: Vec<String>)
    ensures
        names_ascend(strings_view(names@)),
        names_of(strings_view(names@), records_view(history@)),
{
    let mut names: Vec<String> = Vec::new();
    let ghost views = records_view(history@);
    let mut i: usize = 0;
    while i < history.len()
        invariant
            i <= history.len(),
            views == records_view(history@),
            names_ascend(strings_view(names@)),
            names_of(strings_view(names@), views.take(i as int)),
        decreases history.len() - i,
    {
        let agent = &history[i].payload.agent;
        proof {
            assert(views[i as int] == history@[i as int]@);
        }
        let ghost old_names = strings_view(names@);
        let mut at: usize = 0;
        let mut stop = false;
        let mut known = false;
        while at < names.len() && !stop
            invariant
                at <= names.len(),
                old_names == strings_view(names@),
                forall|k: int| 0 <= k < at ==> text_before(#[trigger] old_names[k], agent@),
                stop ==> at < names.len(),
                stop && known ==> old_names[at as int] == agent@,
                stop && !known ==> text_before(agent@, old_names[at as int]),
                known ==> stop,
            decreases names.len() - at + (if stop { 0int } else { 1int }),
        {
            proof {
                assert(old_names[at as int] == names@[at as int]@);
            }
            match compare_text(names[at].as_str(), agent.as_str()) {
                TextOrder::Before => {
                    at = at + 1;
                },
                TextOrder::Same => {
                    known = true;
                    stop = true;
                },
                TextOrder::After => {
                    stop = true;
                },
            }
        }
        let ghost seen = views.take(i as int);
        let ghost next = views.take(i + 1);
        proof {
            assert(next =~= seen.push(views[i as int]));
        }
        if !known {
            let ghost before = names@;
            names.insert(at, agent.clone());
            proof {
                let new_names = strings_view(names@);
                assert(names@ == before.insert(at as int, names@[at as int]));
                assert forall|k: int| 0 <= k < new_names.len() implies #[trigger] new_names[k] == (
                if k < at {
                    old_names[k]
                } else if k == at {
                    agent@
                } else {
                    old_names[k - 1]
                }) by {
                    if k < at {
                        assert(names@[k] == before[k]);
                        assert(old_names[k] == before[k]@);
                    } else if k > at {
                        assert(names@[k] == before[k - 1]);
                        assert(old_names[k - 1] == before[k - 1]@);
                    }
                }
                assert forall|a: int, b: int| 0 <= a < b < new_names.len() implies text_before(
                    #[trigger] new_names[a],
                    #[trigger] new_names[b],
                ) by {
                    if b < at {
                        assert(text_before(old_names[a], old_names[b]));
                    } else if b == at {
                        assert(text_before(old_names[a], agent@));
                    } else if a < at {
                        assert(text_before(old_names[a], old_names[b - 1]));
                    } else if a == at {
                        if b - 1 == at {
                            assert(text_before(agent@, old_names[at as int]));
                        } else {
                            assert(text_before(old_names[at as int], old_names[b - 1]));
                            lemma_order_passes_on(agent@, old_names[at as int], old_names[b - 1]);
                        }
                    } else {
                        assert(text_before(old_names[a - 1], old_names[b - 1]));
                    }
                }
                assert forall|r: int| 0 <= r < next.len() implies new_names.contains(
                    (#[trigger] next[r]).payload.agent,
                ) by {
                    if r < i {
                        assert(next[r] == seen[r]);
                        assert(old_names.contains(seen[r].payload.agent));
                        let k = choose|k: int|
                            0 <= k < old_names.len() && old_names[k] == seen[r].payload.agent;
                        if k < at {
                            assert(new_names[k] == old_names[k]);
                        } else {
                            assert(new_names[k + 1] == old_names[k]);
                        }
                    } else {
                        assert(new_names[at as int] == agent@);
                    }
                }
                assert forall|k: int| 0 <= k < new_names.len() implies exists|r: int|
                    0 <= r < next.len() && next[r].payload.agent == #[trigger] new_names[k] by {
                    if k == at {
                        assert(next[i as int].payload.agent == new_names[k]);
                    } else {
                        let o = if k < at {
                            k
                        } else {
                            k - 1
                        };
                        assert(new_names[k] == old_names[o]);
                        let r = choose|r: int|
                            0 <= r < seen.len() && seen[r].payload.agent == old_names[o];
                        assert(next[r] == seen[r]);
                    }
                }
            }
        } else {
            proof {
                assert forall|r: int| 0 <= r < next.len() implies old_names.contains(
                    (#[trigger] next[r]).payload.agent,
                ) by {
                    if r < i {
                        assert(next[r] == seen[r]);
                    } else {
                        assert(old_names[at as int] == agent@);
                    }
                }
                assert forall|k: int| 0 <= k < old_names.len() implies exists|r: int|
                    0 <= r < next.len() && next[r].payload.agent == #[trigger] old_names[k] by {
                    let r = choose|r: int|
                        0 <= r < seen.len() && seen[r].payload.agent == old_names[k];
                    assert(next[r] == seen[r]);
                }
            }
        }
        i = i + 1;
    }
    proof {
        assert(views.take(views.len() as int) =~= views);
    }
    names
}

/// A truth value in words.
pub open spec fn flag_text(b: bool) -> Seq<char> {
    if b {
        "true"@
    } else {
        "false"@
    }
}

fn push_flag(out: &mut String, b: bool)
    ensures
        final(out)@ == old(out)@ + flag_text(b),
{
    if b {
        push_text(out, "true");
    } else {
        push_text(out, "false");
    }
}

/// The pane that counts the queue.
pub open spec fn summary_text(counts: StatusCounts, dead_letters: nat) -> Seq<char> {
    "Queue Overview\nPending: "@ + decimal(counts.pending as nat) + "\nIn Progress: "@ + decimal(
        counts.in_progress as nat,
    ) + "\nApplied: "@ + decimal(counts.applied as nat) + "\nFailed: "@ + decimal(
        counts.failed as nat,
    ) + "\nDead Letters: "@ + decimal(dead_letters)
}

/// The pane that counts the queue.
pub fn format_summary(counts: &StatusCounts, dead_letters: usize) -> (out: String)
    ensures
        out@ == summary_text(*counts, dead_letters as nat),
{
    let mut out = String::new();
    push_text(&mut out, "Queue Overview\nPending: ");
    push_decimal(&mut out, counts.pending as u64);
    push_text(&mut out, "\nIn Progress: ");
    push_decimal(&mut out, counts.in_progress as u64);
    push_text(&mut out, "\nApplied: ");
    push_decimal(&mut out, counts.applied as u64);
    push_text(&mut out, "\nFailed: ");
    push_decimal(&mut out, counts.failed as u64);
    push_text(&mut out, "\nDead Letters: ");
    push_decimal(&mut out, dead_letters as u64);
    proof {
        assert(out@ =~= summary_text(*counts, dead_letters as nat));
    }
    out
}

/// The line on the session that was used last.
pub open spec fn session_text(session: Option<AgentSessionView>) -> Seq<char> {
    match session {
        Some(s) => "Session: "@ + s.resume_id + " (allow_all_tools="@ + flag_text(
            s.allow_all_tools,
        ) + ", last_used="@ + signed_decimal(s.last_used as int) + ")"@,
        None => "Session: <none>"@,
    }
}

/// The pane on what runs.
pub open spec fn runtime_text(config: TuiConfigView, session: Option<AgentSessionView>) -> Seq<char> {
    "Runtime Insights\nDB: "@ + config.db_path + "\nWorkers: "@ + decimal(
        config.worker_count as nat,
    ) + "\nAgents: "@ + decimal(config.agent_count as nat) + "\n"@ + session_text(session)
}

/// The pane on what runs.
pub fn format_runtime(config: &TuiConfig, session: &Option<AgentSession>) -> (out: String)
    ensures
        out@ == runtime_text(config@, session_option_view(*session)),
{
    let mut out = String::new();
    push_text(&mut out, "Runtime Insights\nDB: ");
    push_text(&mut out, config.db_path.as_str());
    push_text(&mut out, "\nWorkers: ");
    push_decimal(&mut out, config.worker_count as u64);
    push_text(&mut out, "\nAgents: ");
    push_decimal(&mut out, config.agent_count as u64);
    push_text(&mut out, "\n");
    let ghost head = out@;
    match session {
        Some(s) => {
            push_text(&mut out, "Session: ");
            push_text(&mut out, s.resume_id.as_str());
            push_text(&mut out, " (allow_all_tools=");
            push_flag(&mut out, s.allow_all_tools);
            push_text(&mut out, ", last_used=");
            push_signed_decimal(&mut out, s.last_used);
            push_text(&mut out, ")");
            proof {
                assert(out@ =~= head + session_text(Some(s@)));
            }
        },
        None => {
            push_text(&mut out, "Session: <none>");
        },
    }
    proof {
        assert(out@ =~= runtime_text(config@, session_option_view(*session)));
    }
    out
}

/// A time that may be absent, as `Debug` writes it.
pub open spec fn optional_time_text(t: Option<i64>) -> Seq<char> {
    match t {
        Some(v) => "Some("@ + signed_decimal(v as int) + ")"@,
        None => "None"@,
    }
}

/// A text that may be absent, with `<none>` for none.
pub open spec fn or_none(t: Option<Seq<char>>) -> Seq<char> {
    match t {
        Some(v) => v,
        None => "<none>"@,
    }
}

/// What is said of the entry that is picked.
pub open spec fn record_text(record: QueueRecordView) -> Seq<char> {
    "Task: "@ + record.payload.task_id + "\nAgent: "@ + record.payload.agent + "\nStatus: "@
        + record.status.name() + "\nAttempts: "@ + signed_decimal(record.attempts as int)
        + "\nLease until: "@ + optional_time_text(record.leased_until) + "\nLease owner: "@
        + or_none(record.lease_owner) + "\nLast error: "@ + or_none(record.last_error)
}

/// The pane on the entry that is picked.
pub open spec fn detail_text(state: TuiStateView, shown: Seq<QueueRecordView>) -> Seq<char> {
    if !state.show_detail {
        "Detail pane hidden. Press 'd' to show."@
    } else if state.selected_index < shown.len() {
        record_text(shown[state.selected_index as int])
    } else {
        "No queue records match the current filter."@
    }
}

/// The pane on the entry that is picked.
pub fn format_detail(state: &TuiState, shown: &Vec<QueueRecord>) -> (out: String)
    ensures
        out@ == detail_text(state@, records_view(shown@)),
{
    if !state.show_detail {
        return "Detail pane hidden. Press 'd' to show.".to_owned();
    }
    if state.selected_index >= shown.len() {
        return "No queue records match the current filter.".to_owned();
    }
    let record = &shown[state.selected_index];
    proof {
        assert(records_view(shown@)[state.selected_index as int] == record@);
    }
    let mut out = String::new();
    push_text(&mut out, "Task: ");
    push_text(&mut out, record.payload.task_id.as_str());
    push_text(&mut out, "\nAgent: ");
    push_text(&mut out, record.payload.agent.as_str());
    push_text(&mut out, "\nStatus: ");
    push_text(&mut out, record.status.as_str());
    push_text(&mut out, "\nAttempts: ");
    push_signed_decimal(&mut out, record.attempts);
    push_text(&mut out, "\nLease until: ");
    let ghost head = out@;
    match record.leased_until {
        Some(v) => {
            push_text(&mut out, "Some(");
            push_signed_decimal(&mut out, v);
            push_text(&mut out, ")");
        },
        None => {
            push_text(&mut out, "None");
        },
    }
    proof {
        assert(out@ =~= head + optional_time_text(record@.leased_until));
    }
    push_text(&mut out, "\nLease owner: ");
    match &record.lease_owner {
        Some(v) => push_text(&mut out, v.as_str()),
        None => push_text(&mut out, "<none>"),
    }
    push_text(&mut out, "\nLast error: ");
    match &record.last_error {
        Some(v) => push_text(&mut out, v.as_str()),
        None => push_text(&mut out, "<none>"),
    }
    proof {
        assert(out@ =~= record_text(record@));
    }
    out
}

/// The pane on the files changed last: the first five of them, one to a line.
pub open spec fn modified_text(files: Seq<Seq<char>>) -> Seq<char> {
    if files.len() == 0 {
        "No recent modifications"@
    } else {
        joined(
            files.take(
                if files.len() < 5 {
                    files.len() as int
                } else {
                    5
                },
            ),
            "\n"@,
        )
    }
}

/// The pane on the files changed last.
pub fn format_modified(files: &Vec<String>) -> (out: String)
    ensures
        out@ == modified_text(strings_view(files@)),
{
    if files.len() == 0 {
        return "No recent modifications".to_owned();
    }
    let count: usize = if files.len() < 5 {
        files.len()
    } else {
        5
    };
    let mut first: Vec<String> = Vec::new();
    let mut i: usize = 0;
    while i < count
        invariant
            count <= files.len(),
            i <= count,
            first@.len() == i,
            forall|k: int| 0 <= k < i ==> (#[trigger] first@[k])@ == files@[k]@,
        decreases count - i,
    {
        first.push(files[i].clone());
        i = i + 1;
    }
    proof {
        assert(strings_view(first@) =~= strings_view(files@).take(count as int));
    }
    join(&first, "\n")
}

/// The mark of the row that is picked.
pub open spec fn pick_mark(picked: bool) -> Seq<char> {
    if picked {
        seq!['\u{279c}']
    } else {
        Seq::empty()
    }
}

/// The row of an entry in the table of the queue: its id, task, agent, status and
/// claims, and a mark where it is the one picked.
pub open spec fn queue_row(record: QueueRecordView, picked: bool) -> Seq<Seq<char>> {
    seq![
        signed_decimal(record.id as int),
        record.payload.task_id,
        record.payload.agent,
        record.status.name(),
        signed_decimal(record.attempts as int),
        pick_mark(picked),
    ]
}

/// The row of an entry in the table of the history: its task, agent, status and
/// claims.
pub open spec fn history_row(record: QueueRecordView) -> Seq<Seq<char>> {
    seq![
        record.payload.task_id,
        record.payload.agent,
        record.status.name(),
        signed_decimal(record.attempts as int),
    ]
}

/// The rows of the first `limit` entries in the table of the queue.
pub open spec fn queue_rows(shown: Seq<QueueRecordView>, selected: usize, limit: nat) -> Seq<
    Seq<Seq<char>>,
> {
    Seq::new(
        if shown.len() < limit {
            shown.len()
        } else {
            limit
        },
        |i: int| queue_row(shown[i], i == selected),
    )
}

/// The rows of the first `limit` entries in the table of the history.
pub open spec fn history_rows(history: Seq<QueueRecordView>, limit: nat) -> Seq<Seq<Seq<char>>> {
    Seq::new(
        if history.len() < limit {
            history.len()
        } else {
            limit
        },
        |i: int| history_row(history[i]),
    )
}

/// The views of the rows of a table, one for one.
pub open spec fn rows_text(rows: Seq<Vec<String>>) -> Seq<Seq<Seq<char>>> {
    rows.map_values(|r: Vec<String>| strings_view(r@))
}

fn number_text(n: i64) -> (out: String)
    ensures
        out@ == signed_decimal(n as int),
{
    let mut out = String::new();
    push_signed_decimal(&mut out, n);
    proof {
        assert(out@ =~= signed_decimal(n as int));
    }
    out
}

/// The rows of the first `limit` entries in the table of the queue.
pub fn format_queue_rows(shown: &Vec<QueueRecord>, selected: usize, limit: usize) -> (rows: Vec<
    Vec<String>,
>)
    ensures
        rows_text(rows@) == queue_rows(records_view(shown@), selected, limit as nat),
{
    let count: usize = if shown.len() < limit {
        shown.len()
    } else {
        limit
    };
    let mut rows: Vec<Vec<String>> = Vec::new();
    let mut i: usize = 0;
    while i < count
        invariant
            count <= shown.len(),
            i <= count,
            rows@.len() == i,
            forall|k: int|
                0 <= k < i ==> strings_view((#[trigger] rows@[k])@) == queue_row(
                    records_view(shown@)[k],
                    k == selected,
                ),
        decreases count - i,
    {
        let record = &shown[i];
        proof {
            assert(records_view(shown@)[i as int] == record@);
        }
        let mut row: Vec<String> = Vec::new();
        row.push(number_text(record.id));
        row.push(record.payload.task_id.clone());
        row.push(record.payload.agent.clone());
        row.push(record.status.as_str().to_owned());
        row.push(number_text(record.attempts));
        if i == selected {
            row.push(string_of_mark());
        } else {
            row.push(String::new());
        }
        proof {
            assert(strings_view(row@) =~= queue_row(record@, i == selected));
        }
        rows.push(row);
        i = i + 1;
    }
    proof {
        assert(rows_text(rows@) =~= queue_rows(records_view(shown@), selected, limit as nat));
    }
    rows
}

fn string_of_mark() -> (out: String)
    ensures
        out@ == pick_mark(true),
{
    let mut chars: Vec<char> = Vec::new();
    chars.push('\u{279c}');
    crate::text::string_of(&chars)
}

/// The rows of the first `limit` entries in the table of the history.
pub fn format_history_rows(history: &Vec<QueueRecord>, limit: usize) -> (rows: Vec<Vec<String>>)
    ensures
        rows_text(rows@) == history_rows(records_view(history@), limit as nat),
{
    let count: usize = if history.len() < limit {
        history.len()
    } else {
        limit
    };
    let mut rows: Vec<Vec<String>> = Vec::new();
    let mut i: usize = 0;
    while i < count
        invariant
            count <= history.len(),
            i <= count,
            rows@.len() == i,
            forall|k: int|
                0 <= k < i ==> strings_view((#[trigger] rows@[k])@) == history_row(
                    records_view(history@)[k],
                ),
        decreases count - i,
    {
        let record = &history[i];
        proof {
            assert(records_view(history@)[i as int] == record@);
        }
        let mut row: Vec<String> = Vec::new();
        row.push(record.payload.task_id.clone());
        row.push(record.payload.agent.clone());
        row.push(record.status.as_str().to_owned());
        row.push(number_text(record.attempts));
        proof {
            assert(strings_view(row@) =~= history_row(record@));
        }
        rows.push(row);
        i = i + 1;
    }
    proof {
        assert(rows_text(rows@) =~= history_rows(records_view(history@), limit as nat));
    }
    rows
}

/// What the dashboard draws at one look.
#[derive(Debug)]
pub struct DashboardFrame {
    pub summary: String,
    pub runtime: String,
    pub queue_rows: Vec<Vec<String>>,
    pub history_rows: Vec<Vec<String>>,
    pub detail: String,
    pub metrics: QueueMetrics,
    pub logs: Vec<ChangeQueueLog>,
    pub file_events: Vec<FileModification>,
    /// The agents that can be filtered by.
    pub agent_names: Vec<String>,
    /// How many entries the filters let through.
    pub shown: usize,
}

/// The last hundred entries, the newest first; none where one of them cannot be read.
pub open spec fn history_of(q: QueueView) -> Seq<QueueRecordView> {
    match q.recent(100) {
        Ok(records) => records,
        Err(e) => Seq::empty(),
    }
}

/// Whether `frame` is what the dashboard draws of the store `q` when it is in the state
/// `state` and the place picked has been held to the entries that the filters let
/// through. The history is the last hundred entries; the tables show ten of the
/// entries let through and eight of the history; the logs and the changes to files
/// are the eight newest; the metrics are those of the last minute before `now`.
pub open spec fn is_frame_of(
    frame: DashboardFrame,
    q: QueueView,
    config: TuiConfigView,
    state: TuiStateView,
    now: i64,
) -> bool {
    let shown = shown_records(history_of(q), state);
    &&& frame.shown == shown.len()
    &&& frame.summary@ == summary_text(q.status_counts(), q.dead_letters.len())
    &&& frame.runtime@ == runtime_text(config, q.latest_session())
    &&& rows_text(frame.queue_rows@) == queue_rows(shown, state.selected_index, 10)
    &&& rows_text(frame.history_rows@) == history_rows(history_of(q), 8)
    &&& frame.detail@ == detail_text(state, shown)
    &&& logs_view(frame.logs@) == q.newest_logs(8)
    &&& file_events_view(frame.file_events@) == q.newest_file_events(8)
    &&& frame.metrics.status_counts == q.status_counts()
    &&& frame.metrics.window_seconds == 60
    &&& frame.metrics.timestamp == now
    &&& frame.metrics.tally() == Tally::of(
        q.logs,
        window_start(Some(60i64), now) as int,
        q.logs.len(),
    )
    &&& names_ascend(strings_view(frame.agent_names@))
    &&& names_of(strings_view(frame.agent_names@), history_of(q))
}

/// The state of the dashboard with the place picked held to the entries of the store
/// that the filters let through.
pub open spec fn held_state(state: TuiStateView, q: QueueView) -> TuiStateView {
    TuiStateView {
        selected_index: held_selection(
            state.selected_index,
            shown_records(history_of(q), state).len(),
        ),
        ..state
    }
}

/// The filters do not look at the place that is picked.
proof fn lemma_shown_whatever_is_picked(history: Seq<QueueRecordView>, a: TuiStateView, b: TuiStateView)
    requires
        a.status_index == b.status_index,
        a.agent_filter == b.agent_filter,
    ensures
        shown_records(history, a) == shown_records(history, b),
{
    assert forall|r: QueueRecordView| shows(a, r) == shows(b, r) by {
    }
    assert((|r: QueueRecordView| shows(a, r)) =~= (|r: QueueRecordView| shows(b, r)));
}

/// Looks at the queue once and makes what the dashboard draws. The place picked is
/// held to the entries that the filters let through.
pub fn run_dashboard_with_config(
    queue: &SqliteQueue,
    config: &TuiConfig,
    state: &mut TuiState,
    now: i64,
) -> (frame: DashboardFrame)
    ensures
        final(state)@ == held_state(old(state)@, queue@),
        is_frame_of(frame, queue@, config@, final(state)@, now),
{
    let history = match queue.recent_records(100) {
        Ok(records) => records,
        Err(_) => Vec::new(),
    };
    proof {
        assert(records_view(history@) =~= history_of(queue@));
    }
    let shown = visible_records(&history, state);
    let ghost before = state@;
    clamp_selection(state, shown.len());
    proof {
        lemma_shown_whatever_is_picked(history_of(queue@), state@, before);
    }
    let counts = queue.status_counts();
    let session = queue.latest_agent_session();
    DashboardFrame {
        summary: format_summary(&counts, queue.dead_letter_count()),
        runtime: format_runtime(config, &session),
        queue_rows: format_queue_rows(&shown, state.selected_index, 10),
        history_rows: format_history_rows(&history, 8),
        detail: format_detail(state, &shown),
        metrics: queue.queue_metrics(Some(60), now),
        logs: queue.recent_logs(8),
        file_events: queue.recent_file_events(8),
        agent_names: agent_names(&history),
        shown: shown.len(),
    }
}

/// What the dashboard is told where nothing is known of the store but the usual name
/// of its file.
pub open spec fn plain_config() -> TuiConfigView {
    TuiConfigView { db_path: "hyperion.db"@, worker_count: 0, agent_count: 0 }
}

/// Looks at the queue once with the dashboard as it opens: every entry is let
/// through and the first is picked.
pub fn run_dashboard(queue: &SqliteQueue, now: i64) -> (frame: DashboardFrame)
    ensures
        is_frame_of(frame, queue@, plain_config(), TuiStateView::initial(), now),
        frame.shown == history_of(queue@).len(),
{
    let config = TuiConfig { db_path: "hyperion.db".to_owned(), worker_count: 0, agent_count: 0 };
    let mut state = TuiState::default();
    proof {
        lemma_all_shown(history_of(queue@));
    }
    run_dashboard_with_config(queue, &config, &mut state, now)
}

/// The dashboard as it opens lets every entry through.
proof fn lemma_all_shown(history: Seq<QueueRecordView>)
    ensures
        shown_records(history, TuiStateView::initial()) == history,
    decreases history.len(),
{
    reveal(Seq::filter);
    if history.len() > 0 {
        lemma_all_shown(history.drop_last());
        assert(history.drop_last().push(history.last()) =~= history);
    }
}

/// A pane that is open or closed, in words.
pub open spec fn on_off(open: bool) -> Seq<char> {
    if open {
        "on"@
    } else {
        "off"@
    }
}

/// The pane that tells the keys, with what each stands at.
pub open spec fn guidance_text(state: TuiStateView, window_seconds: i64) -> Seq<char> {
    "Controls\nq: Quit\ns: Cycle status filter ("@ + (match status_filter(state.status_index) {
        Some(status) => status.name(),
        None => "all"@,
    }) + ")\na: Cycle agent ("@ + (match state.agent_filter {
        Some(agent) => agent,
        None => "all agents"@,
    }) + ")\nr: Refresh "@ + decimal(refresh_interval(state.refresh_index) as nat)
        + "ms\nd: Toggle detail pane ("@ + on_off(state.show_detail)
        + ")\ne: Toggle events ("@ + on_off(state.show_events)
        + ")\narrow/\u{2193}: move selection\nhyperion request <file>: enqueue task request\nhyperion queue-metrics --format json --since "@
        + signed_decimal(window_seconds as int) + ": export throughput/latency/lease stats\n"@
}

/// The pane that tells the keys.
pub fn format_guidance(state: &TuiState, window_seconds: i64) -> (out: String)
    ensures
        out@ == guidance_text(state@, window_seconds),
{
    let mut out = String::new();
    push_text(&mut out, "Controls\nq: Quit\ns: Cycle status filter (");
    match status_filter_at(state.status_index) {
        Some(status) => push_text(&mut out, status.as_str()),
        None => push_text(&mut out, "all"),
    }
    push_text(&mut out, ")\na: Cycle agent (");
    match &state.agent_filter {
        Some(agent) => push_text(&mut out, agent.as_str()),
        None => push_text(&mut out, "all agents"),
    }
    push_text(&mut out, ")\nr: Refresh ");
    push_decimal(&mut out, refresh_interval_at(state.refresh_index));
    push_text(&mut out, "ms\nd: Toggle detail pane (");
    push_text(&mut out, if state.show_detail { "on" } else { "off" });
    push_text(&mut out, ")\ne: Toggle events (");
    push_text(&mut out, if state.show_events { "on" } else { "off" });
    push_text(
        &mut out,
        ")\narrow/\u{2193}: move selection\nhyperion request <file>: enqueue task request\nhyperion queue-metrics --format json --since ",
    );
    push_signed_decimal(&mut out, window_seconds);
    push_text(&mut out, ": export throughput/latency/lease stats\n");
    proof {
        assert(out@ =~= guidance_text(state@, window_seconds));
    }
    out
}

/// The pane on the metrics, with the throughput and the averages as they are handed
/// in.
pub open spec fn metrics_text(
    window_seconds: i64,
    throughput: Seq<char>,
    avg_dequeue_latency: Seq<char>,
    avg_apply_duration: Seq<char>,
    avg_poll_interval: Seq<char>,
    lease_contention_events: usize,
) -> Seq<char> {
    "Window: "@ + signed_decimal(window_seconds as int) + "s\nThroughput: "@ + throughput
        + "\nAvg dequeue latency: "@ + avg_dequeue_latency + "\nAvg apply duration: "@
        + avg_apply_duration + "\nAvg poll interval: "@ + avg_poll_interval
        + "\nLease contention events: "@ + decimal(lease_contention_events as nat)
}

/// The pane on the metrics. The throughput and the averages are handed in as they
/// are to be shown, with their units, or as `n/a`.
pub fn format_metrics(
    window_seconds: i64,
    throughput: &str,
    avg_dequeue_latency: &str,
    avg_apply_duration: &str,
    avg_poll_interval: &str,
    lease_contention_events: usize,
) -> (out: String)
    ensures
        out@ == metrics_text(
            window_seconds,
            throughput@,
            avg_dequeue_latency@,
            avg_apply_duration@,
            avg_poll_interval@,
            lease_contention_events,
        ),
{
    let mut out = String::new();
    push_text(&mut out, "Window: ");
    push_signed_decimal(&mut out, window_seconds);
    push_text(&mut out, "s\nThroughput: ");
    push_text(&mut out, throughput);
    push_text(&mut out, "\nAvg dequeue latency: ");
    push_text(&mut out, avg_dequeue_latency);
    push_text(&mut out, "\nAvg apply duration: ");
    push_text(&mut out, avg_apply_duration);
    push_text(&mut out, "\nAvg poll interval: ");
    push_text(&mut out, avg_poll_interval);
    push_text(&mut out, "\nLease contention events: ");
    push_decimal(&mut out, lease_contention_events as u64);
    proof {
        assert(out@ =~= metrics_text(
            window_seconds,
            throughput@,
            avg_dequeue_latency@,
            avg_apply_duration@,
            avg_poll_interval@,
            lease_contention_events,
        ));
    }
    out
}

} // verus!
