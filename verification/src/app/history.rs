//! The transcript: its entries, and what is read off and changed in them.

use vstd::prelude::*;
use crate::editor::text_of;
use crate::nav::monus;
use crate::text::{begins_with, blank, is_blank, same, starts_with};

verus! {

/// Calls that a collapsed tool box shows.
pub const TOOLBOX_VISIBLE: usize = 5;

/// Columns by which agent text is indented.
pub const AGENT_INDENT: usize = 2;

/// Time of day.
#[derive(Debug, Clone, Copy, PartialEq, Eq, Structural)]
pub struct Timestamp {
    pub hour: u8,
    pub minute: u8,
}

/// State of a tool call.
#[derive(Debug, Clone, Copy, PartialEq, Eq, Structural)]
pub enum ToolCallState {
    Processing,
    Success,
    /// The model made a bad call.
    BadCall,
    /// The tool failed.
    Failed,
}

/// A call in a tool box.
pub struct ToolCall {
    pub call_id: String,
    pub tool: String,
    pub summary: String,
    pub full_input: String,
    pub output: String,
    pub state: ToolCallState,
}

#[verifier::ext_equal]
pub struct CallView {
    pub call_id: Seq<char>,
    pub tool: Seq<char>,
    pub summary: Seq<char>,
    pub full_input: Seq<char>,
    pub output: Seq<char>,
    pub state: ToolCallState,
}

impl View for ToolCall {
    type V = CallView;

    open spec fn view(&self) -> CallView {
        CallView {
            call_id: self.call_id@,
            tool: self.tool@,
            summary: self.summary@,
            full_input: self.full_input@,
            output: self.output@,
            state: self.state,
        }
    }
}

pub open spec fn call_views(v: Seq<ToolCall>) -> Seq<CallView> {
    v.map_values(|c: ToolCall| c@)
}

/// How a delegation ended.
pub struct SubagentOutcome {
    /// Milliseconds that it took.
    pub duration: u64,
    pub failed: bool,
    pub report: String,
}

#[verifier::ext_equal]
pub struct SettledView {
    pub duration: u64,
    pub failed: bool,
    pub report: Seq<char>,
}

impl View for SubagentOutcome {
    type V = SettledView;

    open spec fn view(&self) -> SettledView {
        SettledView { duration: self.duration, failed: self.failed, report: self.report@ }
    }
}

pub open spec fn settled_of(o: Option<SubagentOutcome>) -> Option<SettledView> {
    match o {
        Some(s) => Some(s@),
        None => None,
    }
}

/// An entry of the transcript.
pub enum HistoryEntry {
    Plain { line: String },
    LocalCommand { label: String, output: String, failed: bool },
    ToolLine { call_id: String, tool: String, summary: String, state: ToolCallState },
    ToolBox { calls: Vec<ToolCall>, view_offset: usize, follow: bool, expanded: bool },
    Diff { tool: String, path: String, old_text: String, new_text: String },
    User { text: String, timestamp: Timestamp },
    Agent {
        name: String,
        text: String,
        reasoning: String,
        timestamp: Timestamp,
        expanded: bool,
        think_duration: Option<u64>,
    },
    Subagent {
        parent: String,
        child: String,
        spawned_at: u64,
        outcome: Option<SubagentOutcome>,
        expanded: bool,
    },
    CompactBoundary {
        predecessor_short_id: String,
        seed_tool_count: usize,
        seed_tool_tokens: u64,
    },
}

pub enum EntryView {
    Plain { line: Seq<char> },
    LocalCommand { label: Seq<char>, output: Seq<char>, failed: bool },
    ToolLine { call_id: Seq<char>, tool: Seq<char>, summary: Seq<char>, state: ToolCallState },
    ToolBox { calls: Seq<CallView>, view_offset: int, follow: bool, expanded: bool },
    Diff { tool: Seq<char>, path: Seq<char>, old_text: Seq<char>, new_text: Seq<char> },
    User { text: Seq<char>, timestamp: Timestamp },
    Agent {
        name: Seq<char>,
        text: Seq<char>,
        reasoning: Seq<char>,
        timestamp: Timestamp,
        expanded: bool,
        think_duration: Option<u64>,
    },
    Subagent {
        parent: Seq<char>,
        child: Seq<char>,
        spawned_at: u64,
        outcome: Option<SettledView>,
        expanded: bool,
    },
    CompactBoundary {
        predecessor_short_id: Seq<char>,
        seed_tool_count: nat,
        seed_tool_tokens: u64,
    },
}

impl View for HistoryEntry {
    type V = EntryView;

    open spec fn view(&self) -> EntryView {
        match self {
            HistoryEntry::Plain { line } => EntryView::Plain { line: line@ },
            HistoryEntry::LocalCommand { label, output, failed } => EntryView::LocalCommand {
                label: label@,
                output: output@,
                failed: *failed,
            },
            HistoryEntry::ToolLine { call_id, tool, summary, state } => EntryView::ToolLine {
                call_id: call_id@,
                tool: tool@,
                summary: summary@,
                state: *state,
            },
            HistoryEntry::ToolBox { calls, view_offset, follow, expanded } => EntryView::ToolBox {
                calls: call_views(calls@),
                view_offset: *view_offset as int,
                follow: *follow,
                expanded: *expanded,
            },
            HistoryEntry::Diff { tool, path, old_text, new_text } => EntryView::Diff {
                tool: tool@,
                path: path@,
                old_text: old_text@,
                new_text: new_text@,
            },
            HistoryEntry::User { text, timestamp } => EntryView::User {
                text: text@,
                timestamp: *timestamp,
            },
            HistoryEntry::Agent { name, text, reasoning, timestamp, expanded, think_duration } =>
                EntryView::Agent {
                name: name@,
                text: text@,
                reasoning: reasoning@,
                timestamp: *timestamp,
                expanded: *expanded,
                think_duration: *think_duration,
            },
            HistoryEntry::Subagent { parent, child, spawned_at, outcome, expanded } =>
                EntryView::Subagent {
                parent: parent@,
                child: child@,
                spawned_at: *spawned_at,
                outcome: settled_of(*outcome),
                expanded: *expanded,
            },
            HistoryEntry::CompactBoundary {
                predecessor_short_id,
                seed_tool_count,
                seed_tool_tokens,
            } => EntryView::CompactBoundary {
                predecessor_short_id: predecessor_short_id@,
                seed_tool_count: *seed_tool_count as nat,
                seed_tool_tokens: *seed_tool_tokens,
            },
        }
    }
}

pub type Entries = Seq<EntryView>;

pub open spec fn entry_views(v: Seq<HistoryEntry>) -> Entries {
    v.map_values(|e: HistoryEntry| e@)
}

/// A plain line.
pub open spec fn plain_entry(line: Seq<char>) -> EntryView {
    EntryView::Plain { line }
}

/// Append an entry.
pub fn push_entry(history: &mut Vec<HistoryEntry>, e: HistoryEntry)
    ensures
        entry_views(final(history)@) == entry_views(old(history)@).push(e@),
{
    history.push(e);
    proof {
        assert(entry_views(history@) =~= entry_views(old(history)@).push(e@));
    }
}

/// Append a plain line.
pub fn push_plain(history: &mut Vec<HistoryEntry>, line: String)
    ensures
        entry_views(final(history)@) == entry_views(old(history)@).push(plain_entry(line@)),
{
    push_entry(history, HistoryEntry::Plain { line });
}

// ---- The last response ----------------------------------------------------

/// Whether an entry is an agent message with text.
pub open spec fn is_spoken(e: EntryView) -> bool {
    e is Agent && !is_blank(e->Agent_text)
}

/// Position of the last agent message with text before `n`, or -1.
pub open spec fn last_spoken(s: Entries, n: int) -> int
    decreases n,
{
    if n <= 0 {
        -1
    } else if is_spoken(s[n - 1]) {
        n - 1
    } else {
        last_spoken(s, n - 1)
    }
}

/// Name and text of the last agent message with text.
pub open spec fn last_message(s: Entries) -> Option<(Seq<char>, Seq<char>)> {
    let i = last_spoken(s, s.len() as int);
    if i >= 0 {
        Some((s[i]->name, s[i]->Agent_text))
    } else {
        None
    }
}

/// Name and text of the last agent message with text among the first `n` entries.
pub fn agent_message_among(history: &Vec<HistoryEntry>, n: usize) -> (r: Option<(String, String)>)
    requires
        n <= history@.len(),
    ensures
        match r {
            Some((name, text)) => last_message(entry_views(history@).take(n as int)) == Some(
                (name@, text@),
            ),
            None => last_message(entry_views(history@).take(n as int)) is None,
        },
{
    let ghost all = entry_views(history@).take(n as int);
    let mut i: usize = n;
    while i > 0
        invariant
            i <= n <= history@.len(),
            all == entry_views(history@).take(n as int),
            last_spoken(all, all.len() as int) == last_spoken(all, i as int),
        decreases i,
    {
        proof {
            assert(all[i - 1] == history@[i - 1]@);
        }
        match &history[i - 1] {
            HistoryEntry::Agent { name, text, .. } => {
                if !blank(text.as_str()) {
                    return Some((name.clone(), text.clone()));
                }
            },
            _ => {},
        }
        i = i - 1;
    }
    None
}

/// Name and text of the last agent message with text.
pub fn last_agent_message(history: &Vec<HistoryEntry>) -> (r: Option<(String, String)>)
    ensures
        match r {
            Some((n, t)) => last_message(entry_views(history@)) == Some((n@, t@)),
            None => last_message(entry_views(history@)) is None,
        },
{
    proof {
        let all = entry_views(history@);
        assert(all.take(all.len() as int) =~= all);
    }
    agent_message_among(history, history.len())
}

/// Text of the last agent message that has some.
pub fn last_agent_text(history: &Vec<HistoryEntry>) -> (r: Option<String>)
    ensures
        text_of(r) == (match last_message(entry_views(history@)) {
            Some((n, t)) => Some(t),
            None => None,
        }),
{
    match last_agent_message(history) {
        Some((_n, t)) => Some(t),
        None => None,
    }
}

// ---- Turns ----------------------------------------------------------------

/// A user message with the agent's final answer.
pub struct PredictionTurn {
    pub user: String,
    pub agent: String,
}

#[verifier::ext_equal]
pub struct TurnView {
    pub user: Seq<char>,
    pub agent: Seq<char>,
}

impl View for PredictionTurn {
    type V = TurnView;

    open spec fn view(&self) -> TurnView {
        TurnView { user: self.user@, agent: self.agent@ }
    }
}

pub open spec fn turn_views(v: Seq<PredictionTurn>) -> Seq<TurnView> {
    v.map_values(|t: PredictionTurn| t@)
}

/// Turns in the making, and whether the last one waits for an answer.
pub struct Turns {
    pub turns: Seq<TurnView>,
    pub open: bool,
}

impl Turns {
    /// One more entry: a user message opens a turn or joins the open one, an
    /// agent message answers the last turn, nothing else counts.
    pub open spec fn with_entry(self, e: EntryView) -> Turns {
        match e {
            EntryView::User { text, .. } => if self.open && self.turns.len() > 0 {
                let t = self.turns.last();
                Turns {
                    turns: self.turns.drop_last().push(
                        TurnView { user: t.user + "\n\n"@ + text, ..t },
                    ),
                    ..self
                }
            } else {
                Turns {
                    turns: self.turns.push(TurnView { user: text, agent: Seq::empty() }),
                    open: true,
                }
            },
            EntryView::Agent { text, .. } => if self.turns.len() > 0 {
                let t = self.turns.last();
                Turns {
                    turns: self.turns.drop_last().push(
                        TurnView {
                            agent: if t.agent.len() == 0 {
                                text
                            } else {
                                t.agent.push('\n') + text
                            },
                            ..t
                        },
                    ),
                    open: false,
                }
            } else {
                self
            },
            _ => self,
        }
    }
}

/// The turns of a transcript.
pub open spec fn turns_of(s: Entries) -> Turns
    decreases s.len(),
{
    if s.len() == 0 {
        Turns { turns: Seq::empty(), open: false }
    } else {
        turns_of(s.drop_last()).with_entry(s.last())
    }
}

/// Tool calls, diffs, reports and notices never change the turns.
pub proof fn only_messages_make_turns(s: Entries, e: EntryView)
    requires
        !(e is User),
        !(e is Agent),
    ensures
        turns_of(s.push(e)) == turns_of(s),
{
    assert(s.push(e).drop_last() =~= s);
}

/// The turns of a transcript: one user text and one answer each, without tool
/// calls and reasoning.
pub fn turns_from_history(history: &Vec<HistoryEntry>) -> (r: Vec<PredictionTurn>)
    ensures
        turn_views(r@) == turns_of(entry_views(history@)).turns,
{
    let mut turns: Vec<PredictionTurn> = Vec::new();
    let mut open: bool = false;
    let ghost all = entry_views(history@);
    let mut i: usize = 0;
    proof {
        assert(all.take(0) =~= Entries::empty());
        assert(turn_views(turns@) =~= Seq::empty());
    }
    while i < history.len()
        invariant
            i <= history@.len(),
            all == entry_views(history@),
            turn_views(turns@) == turns_of(all.take(i as int)).turns,
            open == turns_of(all.take(i as int)).open,
        decreases history@.len() - i,
    {
        let ghost before = turn_views(turns@);
        proof {
            assert(all.take(i + 1).drop_last() =~= all.take(i as int));
            assert(all.take(i + 1).last() == history@[i as int]@);
        }
        let n: usize = turns.len();
        match &history[i] {
            HistoryEntry::User { text, .. } => {
                if open && n > 0 {
                    let last: PredictionTurn = turns.pop().unwrap();
                    let mut user: String = last.user;
                    user.append("\n\n");
                    user.append(text.as_str());
                    turns.push(PredictionTurn { user, agent: last.agent });
                } else {
                    turns.push(PredictionTurn { user: text.clone(), agent: String::new() });
                    open = true;
                }
            },
            HistoryEntry::Agent { text, .. } => {
                if n > 0 {
                    let last: PredictionTurn = turns.pop().unwrap();
                    let agent: String = if last.agent.as_str().is_empty() {
                        text.clone()
                    } else {
                        let mut a: String = last.agent;
                        a.push('\n');
                        a.append(text.as_str());
                        a
                    };
                    turns.push(PredictionTurn { user: last.user, agent });
                    open = false;
                }
            },
            _ => {},
        }
        proof {
            assert(turn_views(turns@) =~= turns_of(all.take(i + 1)).turns);
        }
        i = i + 1;
    }
    proof {
        assert(all.take(i as int) =~= all);
    }
    turns
}

// ---- Delegations ----------------------------------------------------------

/// Position of the last running delegation to `child` before `n`, or -1.
pub open spec fn last_running(s: Entries, child: Seq<char>, n: int) -> int
    decreases n,
{
    if n <= 0 {
        -1
    } else if s[n - 1] is Subagent && s[n - 1]->child == child && s[n - 1]->outcome is None {
        n - 1
    } else {
        last_running(s, child, n - 1)
    }
}

/// Whether a report tells of a failure.
pub open spec fn reports_failure(report: Seq<char>) -> bool {
    begins_with(report, "Error: "@)
}

/// The transcript with the report of `child` at time `now`: it settles the last
/// running delegation, or stands on its own when there is none.
pub open spec fn settled(s: Entries, child: Seq<char>, report: Seq<char>, now: u64) -> Entries {
    let i = last_running(s, child, s.len() as int);
    let failed = reports_failure(report);
    if i >= 0 {
        let e = s[i];
        s.update(
            i,
            EntryView::Subagent {
                parent: e->parent,
                child: e->child,
                spawned_at: e->spawned_at,
                outcome: Some(
                    SettledView {
                        duration: monus(now as int, e->spawned_at as int) as u64,
                        failed,
                        report,
                    },
                ),
                expanded: e->Subagent_expanded,
            },
        )
    } else {
        s.push(
            EntryView::Subagent {
                parent: Seq::empty(),
                child,
                spawned_at: now,
                outcome: Some(SettledView { duration: 0, failed, report }),
                expanded: false,
            },
        )
    }
}

pub proof fn lemma_last_running(s: Entries, child: Seq<char>, n: int)
    requires
        0 <= n <= s.len(),
    ensures
        -1 <= last_running(s, child, n) < n,
        last_running(s, child, n) >= 0 ==> s[last_running(s, child, n)] is Subagent
            && s[last_running(s, child, n)]->child == child
            && s[last_running(s, child, n)]->outcome is None,
    decreases n,
{
    if n > 0 {
        lemma_last_running(s, child, n - 1);
    }
}

/// A report is never lost: afterwards some delegation to the child holds it.
pub proof fn reports_are_kept(s: Entries, child: Seq<char>, report: Seq<char>, now: u64)
    ensures
        exists|i: int|
            #![trigger settled(s, child, report, now)[i]]
            0 <= i < settled(s, child, report, now).len() && settled(s, child, report, now)[i]
                is Subagent && settled(s, child, report, now)[i]->child == child
                && settled(s, child, report, now)[i]->outcome is Some
                && settled(s, child, report, now)[i]->outcome->0.report == report,
{
    lemma_last_running(s, child, s.len() as int);
    let i = last_running(s, child, s.len() as int);
    let all = settled(s, child, report, now);
    if i >= 0 {
        assert(all[i]->outcome->0.report == report);
    } else {
        assert(all[s.len() as int]->outcome->0.report == report);
    }
}

/// Settle the last running delegation to `child` with its report.
pub fn settle_subagent_in(
    history: &mut Vec<HistoryEntry>,
    child: &str,
    report: String,
    now: u64,
)
    ensures
        entry_views(final(history)@) == settled(entry_views(old(history)@), child@, report@, now),
{
    let failed: bool = starts_with(report.as_str(), "Error: ");
    let ghost all = entry_views(history@);
    let mut i: usize = history.len();
    while i > 0
        invariant
            i <= history@.len(),
            all == entry_views(history@),
            all == entry_views(old(history)@),
            failed == reports_failure(report@),
            last_running(all, child@, all.len() as int) == last_running(all, child@, i as int),
        decreases i,
    {
        proof {
            assert(all[i - 1] == history@[i - 1]@);
        }
        let hit: Option<u64> = match &history[i - 1] {
            HistoryEntry::Subagent { child: c, spawned_at, outcome, .. } => if outcome.is_none()
                && same(c.as_str(), child) {
                Some(*spawned_at)
            } else {
                None
            },
            _ => None,
        };
        match hit {
            Some(at) => {
                let duration: u64 = if now >= at {
                    now - at
                } else {
                    0
                };
                let done = SubagentOutcome { duration, failed, report };
                match &mut history[i - 1] {
                    HistoryEntry::Subagent { outcome, .. } => {
                        *outcome = Some(done);
                    },
                    _ => {},
                }
                proof {
                    assert(entry_views(history@) =~= settled(all, child@, report@, now));
                }
                return;
            },
            None => {},
        }
        i = i - 1;
    }
    push_entry(
        history,
        HistoryEntry::Subagent {
            parent: String::new(),
            child: String::from_str(child),
            spawned_at: now,
            outcome: Some(SubagentOutcome { duration: 0, failed, report }),
            expanded: false,
        },
    );
}

} // verus!
