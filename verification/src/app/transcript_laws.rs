//! What the events of the engine make of the transcript.

use vstd::prelude::*;
use crate::app::events::{Edits, EventContext, TurnEvent, edit_at};
use crate::app::history::{CallView, Entries, EntryView, SettledView, ToolCallState, last_running, reports_failure};
use crate::app::state::AppView;
use crate::app::stream::{StreamView, awaited_tag, routed};
use crate::app::transcript::{holds_call, last_call, last_tool, tool_updated};
use crate::text::{clipped_line, first_line_of, has_char, is_blank, lemma_has_char};

verus! {

/// The call `c` of a box is the last one with this id.
pub open spec fn is_last_call(calls: Seq<CallView>, id: Seq<char>, c: int) -> bool {
    &&& 0 <= c < calls.len()
    &&& calls[c].call_id == id
    &&& forall|j: int| c < j < calls.len() ==> (#[trigger] calls[j]).call_id != id
}

/// An entry shows the call `id`: as a line of its own, or in a box of calls.
pub open spec fn shows_call(e: EntryView, id: Seq<char>) -> bool {
    ||| e is ToolLine && e->ToolLine_call_id == id
    ||| e is ToolBox && exists|c: int| #[trigger] is_last_call(e->calls, id, c)
}

/// Entry `k` is the last one that shows the call `id`.
pub open spec fn is_last_shown(s: Entries, id: Seq<char>, k: int) -> bool {
    &&& 0 <= k < s.len()
    &&& shows_call(s[k], id)
    &&& forall|j: int| k < j < s.len() ==> !shows_call(#[trigger] s[j], id)
}

/// A call that came to an end: its state is `state`, what it put out is kept unless its tool
/// only reads, and what was asked of it stays.
pub open spec fn call_ended(
    before: CallView,
    after: CallView,
    state: ToolCallState,
    out: Seq<char>,
) -> bool {
    &&& after.state == state
    &&& after.call_id == before.call_id
    &&& after.tool == before.tool
    &&& after.summary == before.summary
    &&& after.full_input == before.full_input
    &&& before.tool == "read"@ || before.tool == "readlock"@ || before.tool == "unlock"@
        ==> after.output == before.output
    &&& before.tool != "read"@ && before.tool != "readlock"@ && before.tool != "unlock"@
        ==> after.output == out
}

/// The transcript `after` is `before` with the last call `id` in state `state`, and nothing
/// else changed.
pub open spec fn only_that_call_ended(
    before: Entries,
    after: Entries,
    id: Seq<char>,
    k: int,
    state: ToolCallState,
    out: Seq<char>,
) -> bool {
    &&& after.len() == before.len()
    &&& forall|j: int| 0 <= j < before.len() && j != k ==> #[trigger] after[j] == before[j]
    &&& before[k] is ToolLine ==> after[k] == (EntryView::ToolLine {
        call_id: id,
        tool: before[k]->ToolLine_tool,
        summary: before[k]->ToolLine_summary,
        state,
    })
    &&& before[k] is ToolBox ==> {
        &&& after[k] is ToolBox
        &&& after[k]->calls.len() == before[k]->calls.len()
        &&& forall|c: int|
            0 <= c < before[k]->calls.len() ==> if is_last_call(before[k]->calls, id, c) {
                call_ended(before[k]->calls[c], #[trigger] after[k]->calls[c], state, out)
            } else {
                after[k]->calls[c] == before[k]->calls[c]
            }
    }
}

proof fn lemma_last_call(calls: Seq<CallView>, id: Seq<char>, n: int)
    requires
        0 <= n <= calls.len(),
        forall|j: int| n <= j < calls.len() ==> (#[trigger] calls[j]).call_id != id,
    ensures
        ({
            let k = last_call(calls, id, n);
            &&& -1 <= k < n
            &&& k >= 0 ==> is_last_call(calls, id, k)
            &&& k < 0 ==> forall|c: int| !#[trigger] is_last_call(calls, id, c)
            &&& forall|c: int| #[trigger] is_last_call(calls, id, c) ==> c == k
        }),
    decreases n,
{
    if n > 0 && calls[n - 1].call_id != id {
        lemma_last_call(calls, id, n - 1);
    } else if n > 0 {
        assert forall|c: int| #[trigger] is_last_call(calls, id, c) implies c == n - 1 by {
            if c < n - 1 {
                assert(calls[n - 1].call_id != id);
            }
        }
    } else {
        assert forall|c: int| !#[trigger] is_last_call(calls, id, c) by {}
    }
}

proof fn lemma_holds(e: EntryView, id: Seq<char>)
    ensures
        holds_call(e, id) == shows_call(e, id),
{
    if e is ToolBox {
        lemma_last_call(e->calls, id, e->calls.len() as int);
    }
}

proof fn lemma_last_shown(s: Entries, id: Seq<char>, n: int)
    requires
        0 <= n <= s.len(),
        forall|j: int| n <= j < s.len() ==> !shows_call(#[trigger] s[j], id),
    ensures
        ({
            let k = last_tool(s, id, n);
            &&& -1 <= k < n
            &&& k >= 0 ==> is_last_shown(s, id, k)
            &&& k < 0 ==> forall|j: int| 0 <= j < s.len() ==> !shows_call(#[trigger] s[j], id)
            &&& forall|j: int| #[trigger] is_last_shown(s, id, j) ==> j == k
        }),
    decreases n,
{
    if n > 0 {
        lemma_holds(s[n - 1], id);
        if !holds_call(s[n - 1], id) {
            lemma_last_shown(s, id, n - 1);
        } else {
            assert forall|j: int| #[trigger] is_last_shown(s, id, j) implies j == n - 1 by {
                if j < n - 1 {
                    assert(!shows_call(s[n - 1], id));
                }
            }
        }
    }
}

proof fn lemma_updated(
    s: Entries,
    id: Seq<char>,
    k: int,
    state: ToolCallState,
    out: Seq<char>,
    truncated: bool,
)
    requires
        is_last_shown(s, id, k),
    ensures
        only_that_call_ended(
            s,
            tool_updated(s, id, state, Some((out, truncated))),
            id,
            k,
            state,
            if truncated {
                out + "\n… (output truncated)"@
            } else {
                out
            },
        ),
{
    lemma_last_shown(s, id, s.len() as int);
    let e = s[k];
    if e is ToolBox {
        lemma_last_call(e->calls, id, e->calls.len() as int);
        let c = last_call(e->calls, id, e->calls.len() as int);
        let after = tool_updated(s, id, state, Some((out, truncated)))[k];
        assert forall|j: int|
            0 <= j < e->calls.len() implies if is_last_call(e->calls, id, j) {
            call_ended(
                e->calls[j],
                #[trigger] after->calls[j],
                state,
                if truncated {
                    out + "\n… (output truncated)"@
                } else {
                    out
                },
            )
        } else {
            after->calls[j] == e->calls[j]
        } by {
            if is_last_call(e->calls, id, j) {
                assert(j == c);
            }
        }
    }
}

/// When a call ends well, its state in the transcript is success, whether it stands in a box
/// or on a line of its own; its output is kept, and no other entry changes. A call that the
/// transcript does not show changes nothing.
pub proof fn ended_calls_succeed(v: AppView, event: TurnEvent, ctx: EventContext, estimate: u32, k: int)
    requires
        event is ToolEnd,
        forall|i: int|
            0 <= i < v.pending_edits.len() ==> (#[trigger] v.pending_edits[i]).0
                != event->ToolEnd_call_id@,
    ensures
        ({
            let after = v.after_event(event, ctx, estimate);
            let id = event->ToolEnd_call_id@;
            let out = event->output@;
            &&& is_last_shown(v.history, id, k) ==> only_that_call_ended(
                v.history,
                after.history,
                id,
                k,
                ToolCallState::Success,
                if event->truncated {
                    out + "\n… (output truncated)"@
                } else {
                    out
                },
            )
            &&& (forall|j: int| 0 <= j < v.history.len() ==> !shows_call(#[trigger] v.history[j], id))
                ==> after.history == v.history
        }),
{
    reveal(AppView::tool_ended);
    let id = event->ToolEnd_call_id@;
    lemma_no_edit(v.pending_edits, id, 0);
    lemma_last_shown(v.history, id, v.history.len() as int);
    if is_last_shown(v.history, id, k) {
        lemma_updated(
            v.history,
            id,
            k,
            ToolCallState::Success,
            event->output@,
            event->truncated,
        );
    }
    if forall|j: int| 0 <= j < v.history.len() ==> !shows_call(#[trigger] v.history[j], id) {
        let i = last_tool(v.history, id, v.history.len() as int);
        if i >= 0 {
            assert(shows_call(v.history[i], id));
        }
    }
}

proof fn lemma_no_edit(s: Edits, id: Seq<char>, from: int)
    requires
        0 <= from <= s.len(),
        forall|i: int| 0 <= i < s.len() ==> (#[trigger] s[i]).0 != id,
    ensures
        edit_at(s, id, from) == s.len(),
    decreases s.len() - from,
{
    if from < s.len() {
        assert(s[from].0 != id);
        lemma_no_edit(s, id, from + 1);
    }
}

/// When a call fails, its state is that of a bad call where the model made it badly, and of a
/// failed one where the tool failed; the error is kept as its output. A call that the
/// transcript does not show gets a line of its own in that state.
pub proof fn failed_calls_fail(v: AppView, event: TurnEvent, ctx: EventContext, estimate: u32, k: int)
    requires
        event is ToolError,
    ensures
        ({
            let after = v.after_event(event, ctx, estimate);
            let id = event->ToolError_call_id@;
            let state = if event->ToolError_kind is Invocation {
                ToolCallState::BadCall
            } else {
                ToolCallState::Failed
            };
            &&& is_last_shown(v.history, id, k) ==> only_that_call_ended(
                v.history,
                after.history,
                id,
                k,
                state,
                event->error@,
            )
            &&& (forall|j: int| 0 <= j < v.history.len() ==> !shows_call(#[trigger] v.history[j], id))
                ==> {
                let line = after.history[v.history.len() as int];
                &&& after.history.len() == v.history.len() + 1
                &&& after.history.take(v.history.len() as int) == v.history
                &&& line is ToolLine
                &&& line->ToolLine_call_id == id
                &&& line->ToolLine_tool == event->ToolError_tool@
                &&& line->ToolLine_state == state
            }
            &&& v.pending_edits.len() == 1 && v.pending_edits[0].0 == id
                ==> after.pending_edits.len() == 0
        }),
{
    reveal(AppView::tool_failed);
    let id = event->ToolError_call_id@;
    lemma_last_shown(v.history, id, v.history.len() as int);
    if is_last_shown(v.history, id, k) {
        let state = if event->ToolError_kind is Invocation {
            ToolCallState::BadCall
        } else {
            ToolCallState::Failed
        };
        lemma_updated(v.history, id, k, state, event->error@, false);
    }
    let after = v.after_event(event, ctx, estimate);
    if forall|j: int| 0 <= j < v.history.len() ==> !shows_call(#[trigger] v.history[j], id) {
        let i = last_tool(v.history, id, v.history.len() as int);
        if i >= 0 {
            assert(shows_call(v.history[i], id));
        }
        assert(after.history.take(v.history.len() as int) =~= v.history);
    }
}

/// A written file shows as a line that works until its call ends, and then as a success.
pub proof fn writes_are_lines(
    v: AppView,
    start: TurnEvent,
    end: TurnEvent,
    ctx: EventContext,
    then: EventContext,
    estimate: u32,
)
    requires
        start is ToolStart,
        end is ToolEnd,
        start->ToolStart_tool@ == "write"@ || start->ToolStart_tool@ == "writeunlock"@,
        start->ToolStart_call_id@ == end->ToolEnd_call_id@,
        v.pending is None,
        forall|i: int|
            0 <= i < v.pending_edits.len() ==> (#[trigger] v.pending_edits[i]).0
                != end->ToolEnd_call_id@,
    ensures
        ({
            let begun = v.after_event(start, ctx, estimate);
            let after = begun.after_event(end, then, estimate);
            let id = start->ToolStart_call_id@;
            let shown = match start->args@.path {
                Some(p) => p,
                None => start->args@.short,
            };
            &&& begun.history == v.history.push(
                EntryView::ToolLine {
                    call_id: id,
                    tool: start->ToolStart_tool@,
                    summary: shown,
                    state: ToolCallState::Processing,
                },
            )
            &&& after.history == v.history.push(
                EntryView::ToolLine {
                    call_id: id,
                    tool: start->ToolStart_tool@,
                    summary: shown,
                    state: ToolCallState::Success,
                },
            )
        }),
{
    reveal(AppView::tool_started);
    lemma_tool_names();
    let begun = v.after_event(start, ctx, estimate);
    let after = begun.after_event(end, then, estimate);
    let k = v.history.len() as int;
    assert(is_last_shown(begun.history, start->ToolStart_call_id@, k));
    ended_calls_succeed(begun, end, then, estimate, k);
    assert forall|j: int| 0 <= j < k implies #[trigger] after.history[j] == v.history[j] by {
        assert(begun.history[j] == v.history[j]);
    }
    assert(after.history =~= v.history.push(after.history[k]));
}

proof fn lemma_tool_names()
    ensures
        "write"@.len() == 5,
        "write"@[0] == 'w',
        "writeunlock"@.len() == 11,
        "edit"@.len() == 4,
        "edit"@[0] == 'e',
        "editunlock"@.len() == 10,
        "read"@.len() == 4,
        "read"@[0] == 'r',
        "readlock"@.len() == 8,
        "readlock"@[0] == 'r',
        "unlock"@.len() == 6,
        "bash"@.len() == 4,
        "bash"@[0] == 'b',
        "webfetch"@.len() == 8,
        "webfetch"@[0] == 'w',
{
    reveal_strlit("write");
    reveal_strlit("writeunlock");
    reveal_strlit("edit");
    reveal_strlit("editunlock");
    reveal_strlit("read");
    reveal_strlit("readlock");
    reveal_strlit("unlock");
    reveal_strlit("bash");
    reveal_strlit("webfetch");
}

/// An edit shows when it has been made, as a diff from the text that it replaced to the text
/// that it put there, and until then it shows nothing.
pub proof fn edits_become_diffs(
    v: AppView,
    start: TurnEvent,
    end: TurnEvent,
    ctx: EventContext,
    then: EventContext,
    estimate: u32,
)
    requires
        start is ToolStart,
        end is ToolEnd,
        start->ToolStart_tool@ == "edit"@ || start->ToolStart_tool@ == "editunlock"@,
        start->args@.path is Some,
        start->args@.old_string is Some,
        start->args@.new_string is Some,
        start->ToolStart_call_id@ == end->ToolEnd_call_id@,
        v.pending is None,
        forall|i: int|
            0 <= i < v.pending_edits.len() ==> (#[trigger] v.pending_edits[i]).0
                != end->ToolEnd_call_id@,
    ensures
        ({
            let begun = v.after_event(start, ctx, estimate);
            let after = begun.after_event(end, then, estimate);
            &&& begun.history == v.history
            &&& after.history == v.history.push(
                EntryView::Diff {
                    tool: end->ToolEnd_tool@,
                    path: start->args@.path->0,
                    old_text: start->args@.old_string->0,
                    new_text: start->args@.new_string->0,
                },
            )
            &&& after.pending_edits == v.pending_edits
        }),
{
    reveal(AppView::tool_started);
    reveal(AppView::tool_ended);
    lemma_tool_names();
    let id = start->ToolStart_call_id@;
    lemma_no_edit(v.pending_edits, id, 0);
    let begun = v.after_event(start, ctx, estimate);
    let n = v.pending_edits.len() as int;
    assert(begun.pending_edits[n].0 == id);
    lemma_edit_last(begun.pending_edits, id, 0);
    assert(begun.pending_edits.remove(n) =~= v.pending_edits);
}

proof fn lemma_edit_last(s: Edits, id: Seq<char>, from: int)
    requires
        0 <= from < s.len(),
        s[s.len() - 1].0 == id,
        forall|i: int| 0 <= i < s.len() - 1 ==> (#[trigger] s[i]).0 != id,
    ensures
        edit_at(s, id, from) == s.len() - 1,
    decreases s.len() - from,
{
    if from < s.len() - 1 {
        assert(s[from].0 != id);
        lemma_edit_last(s, id, from + 1);
    }
}

/// Any other call joins the box at the end of the transcript, or opens one, and works until it
/// ends. A shell command shows by its first line, a file tool by its path, a fetch by its
/// address, and anything else by its arguments.
pub proof fn started_calls_show(v: AppView, event: TurnEvent, ctx: EventContext, estimate: u32)
    requires
        event is ToolStart,
        event->ToolStart_tool@ != "write"@,
        event->ToolStart_tool@ != "writeunlock"@,
        event->ToolStart_tool@ != "edit"@,
        event->ToolStart_tool@ != "editunlock"@,
        v.pending is None,
    ensures
        ({
            let after = v.after_event(event, ctx, estimate);
            let tool = event->ToolStart_tool@;
            let args = event->args@;
            let n = v.history.len() as int;
            let joins = n > 0 && v.history[n - 1] is ToolBox;
            let last = after.history[after.history.len() - 1];
            let call = last->calls[last->calls.len() - 1];
            &&& after.history.len() == (if joins {
                n
            } else {
                n + 1
            })
            &&& last is ToolBox
            &&& joins ==> last->calls.take(last->calls.len() - 1) == v.history[n - 1]->calls
            &&& !joins ==> last->calls.len() == 1 && after.history.take(n) == v.history
            &&& call.call_id == event->ToolStart_call_id@
            &&& call.tool == tool
            &&& call.state == ToolCallState::Processing
            &&& call.output.len() == 0
            &&& tool == "bash"@ && args.command is Some ==> call.full_input == args.command->0
            &&& tool == "bash"@ && args.command is Some && !args.command->0.contains('\n')
                ==> call.summary == first_line_of(args.command->0)
            &&& tool == "bash"@ && args.command is Some && args.command->0.contains('\n')
                ==> call.summary == first_line_of(args.command->0) + " …"@
            &&& (tool == "read"@ || tool == "readlock"@ || tool == "unlock"@) && args.path is Some
                ==> call.summary == args.path->0 && call.full_input == args.path->0
            &&& tool == "webfetch"@ && args.url is Some ==> call.summary == args.url->0
            &&& tool != "bash"@ && tool != "read"@ && tool != "readlock"@ && tool != "unlock"@
                && tool != "webfetch"@ ==> call.summary == args.short && call.full_input
                == args.short
        }),
{
    reveal(AppView::tool_started);
    lemma_tool_names();
    let after = v.after_event(event, ctx, estimate);
    let n = v.history.len() as int;
    let last = after.history[after.history.len() - 1];
    if n > 0 && v.history[n - 1] is ToolBox {
        assert(last->calls.take(last->calls.len() - 1) =~= v.history[n - 1]->calls);
    } else {
        assert(after.history.take(n) =~= v.history);
    }
    if event->args@.command is Some {
        lemma_has_char(event->args@.command->0, '\n');
        let s = event->args@.command->0;
        if s.contains('\n') {
            let i = choose|i: int| 0 <= i < s.len() && s[i] == '\n';
            assert(has_char(s, '\n'));
        }
    }
}

/// A streamed answer becomes an entry of the agent when its final text comes: that text, or
/// what was streamed where the final text is blank, with its reasoning. The time of thinking
/// goes from its start to its first text.
pub proof fn answers_are_written_down(v: AppView, event: TurnEvent, ctx: EventContext, estimate: u32)
    requires
        event is AssistantText,
        v.pending is Some,
        !is_blank(event->AssistantText_text@),
        !v.pending->0.inside_think,
        v.pending->0.tag_partial.len() == 0,
    ensures
        ({
            let after = v.after_event(event, ctx, estimate);
            let p = v.pending->0;
            let began = match p.text_started_at {
                Some(t) => t,
                None => ctx.now,
            };
            &&& after.pending is None
            &&& after.history == v.history.push(
                EntryView::Agent {
                    name: p.name,
                    text: event->AssistantText_text@,
                    reasoning: p.reasoning,
                    timestamp: p.timestamp,
                    expanded: false,
                    think_duration: Some(
                        if began > p.started_at {
                            (began - p.started_at) as u64
                        } else {
                            0
                        },
                    ),
                },
            )
        }),
{
    reveal(AppView::text_finished);
    let p = v.pending->0;
    assert(event->AssistantText_text@ + p.tag_partial =~= event->AssistantText_text@);
}

/// The final text settles the streamed answer whatever it is: a blank one leaves what was
/// streamed, the beginning of a tag that was held back goes where the stream stands, and an
/// answer without text is dropped.
pub proof fn final_texts_settle_the_answer(
    v: AppView,
    event: TurnEvent,
    ctx: EventContext,
    estimate: u32,
)
    requires
        event is AssistantText,
    ensures
        ({
            let after = v.after_event(event, ctx, estimate);
            let p = v.pending->0;
            let given = event->AssistantText_text@;
            let said = if is_blank(given) {
                p.text
            } else {
                given
            };
            let text = if p.inside_think {
                said
            } else {
                said + p.tag_partial
            };
            let thought = if p.inside_think {
                p.reasoning + p.tag_partial
            } else {
                p.reasoning
            };
            let n = v.history.len() as int;
            &&& v.pending is None ==> after == v
            &&& v.pending is Some ==> after.pending is None
            &&& v.pending is Some && is_blank(text) ==> after.history == v.history
            &&& v.pending is Some && !is_blank(text) ==> {
                let e = after.history[n];
                &&& after.history.len() == n + 1
                &&& after.history.take(n) == v.history
                &&& e is Agent
                &&& e->name == p.name
                &&& e->Agent_text == text
                &&& e->reasoning == thought
                &&& e->Agent_timestamp == p.timestamp
                &&& !e->Agent_expanded
            }
        }),
{
    reveal(AppView::text_finished);
    let after = v.after_event(event, ctx, estimate);
    if v.pending is Some && after.history.len() == v.history.len() + 1 {
        assert(after.history.take(v.history.len() as int) =~= v.history);
    }
}

/// A failed call that the transcript does not show tells the first line of its error, up to
/// two hundred characters.
pub proof fn unseen_failures_tell_their_error(
    v: AppView,
    event: TurnEvent,
    ctx: EventContext,
    estimate: u32,
)
    requires
        event is ToolError,
        forall|j: int|
            0 <= j < v.history.len() ==> !shows_call(
                #[trigger] v.history[j],
                event->ToolError_call_id@,
            ),
    ensures
        v.after_event(event, ctx, estimate).history[v.history.len() as int]->summary
            == clipped_line(event->error@, 200),
{
    reveal(AppView::tool_failed);
    let id = event->ToolError_call_id@;
    lemma_last_shown(v.history, id, v.history.len() as int);
    let i = last_tool(v.history, id, v.history.len() as int);
    if i >= 0 {
        assert(shows_call(v.history[i], id));
    }
}

/// What the model thinks goes to the reasoning of the answer that is streamed, and a new round
/// of thinking opens a fresh answer of the agent it names and counts as work.
pub proof fn thinking_is_kept_apart(v: AppView, event: TurnEvent, ctx: EventContext, estimate: u32)
    ensures
        ({
            let after = v.after_event(event, ctx, estimate);
            &&& event is ReasoningDelta && v.pending is Some ==> after.pending is Some
                && after.pending->0.reasoning == v.pending->0.reasoning
                + event->ReasoningDelta_delta@ && after.pending->0.text == v.pending->0.text
                && after.history == v.history
            &&& event is ReasoningDelta && v.pending is None ==> after.pending is Some
                && after.pending->0.reasoning == event->ReasoningDelta_delta@
                && after.pending->0.text.len() == 0 && after.pending->0.name
                == event->ReasoningDelta_agent@
            &&& event is ThinkingStarted ==> after.pending is Some && after.pending->0.name
                == event->ThinkingStarted_agent@ && after.pending->0.text.len() == 0
                && after.pending->0.reasoning.len() == 0 && after.pending->0.started_at == ctx.now
                && after.work.busy && after.work.reconnect_attempt is None
                && after.editor.queue.len() == 0
        }),
{
    reveal(AppView::reasoning_streamed);
    reveal(AppView::thinking_started);
    if event is ReasoningDelta && v.pending is None {
        assert(Seq::<char>::empty() + event->ReasoningDelta_delta@
            =~= event->ReasoningDelta_delta@);
    }
    if event is ThinkingStarted {
        lemma_finalized_keeps(v.reconnect_set(None).ensured_busy(ctx));
    }
}

proof fn lemma_finalized_keeps(v: AppView)
    ensures
        v.finalized().work == v.work,
        v.finalized().editor == v.editor,
        v.finalized().pending is None,
        v.finalized().jobs == v.jobs,
        v.finalized().prediction == v.prediction,
        v.pending is None ==> v.finalized() == v,
        v.finalized().history.len() >= v.history.len(),
        v.finalized().history.take(v.history.len() as int) == v.history,
{
    assert(v.finalized().history.take(v.history.len() as int) =~= v.history);
    if v.pending is None {
        assert(v.finalized() == v);
    }
}

/// Text without angle brackets is shown as it comes, and inside reasoning it is reasoning.
pub proof fn plain_text_is_shown(s: StreamView, delta: Seq<char>)
    requires
        s.partial.len() == 0,
        forall|i: int| 0 <= i < delta.len() ==> #[trigger] delta[i] != '<',
    ensures
        ({
            let r = routed(s, delta);
            &&& r.partial.len() == 0
            &&& r.inside == s.inside
            &&& r.text == s.text + (if s.inside {
                Seq::empty()
            } else {
                delta
            })
            &&& r.reasoning == s.reasoning + (if s.inside {
                delta
            } else {
                Seq::empty()
            })
            &&& r.wrote == (s.wrote || (!s.inside && delta.len() > 0))
        }),
    decreases delta.len(),
{
    reveal_strlit("<think>");
    reveal_strlit("</think>");
    assert("<think>"@[0] == '<');
    assert("</think>"@[0] == '<');
    if delta.len() > 0 {
        let rest = delta.drop_last();
        assert forall|i: int| 0 <= i < rest.len() implies #[trigger] rest[i] != '<' by {
            assert(delta[i] != '<');
        }
        plain_text_is_shown(s, rest);
        let r = routed(s, rest);
        let c = delta.last();
        assert(delta[delta.len() - 1] != '<');
        let held = r.partial.push(c);
        assert(held[0] == c);
        assert(!r.starts_tag(held)) by {
            if r.starts_tag(held) {
                assert(awaited_tag(r.inside).subrange(0, held.len() as int)[0] == held[0]);
            }
        }
        assert(r.partial =~= Seq::empty());
        let f = r.flushed();
        assert(f =~= r);
        assert(!f.starts_tag(seq![c])) by {
            if f.starts_tag(seq![c]) {
                assert(awaited_tag(f.inside).subrange(0, 1)[0] == c);
            }
        }
        assert(delta =~= rest.push(c));
    }
    let r = routed(s, delta);
    assert(r.text =~= s.text + (if s.inside {
        Seq::empty()
    } else {
        delta
    }));
    assert(r.reasoning =~= s.reasoning + (if s.inside {
        delta
    } else {
        Seq::empty()
    }));
}

proof fn lemma_tag_begun(s: StreamView, tag: Seq<char>, k: int)
    requires
        s.partial.len() == 0,
        tag == awaited_tag(s.inside),
        0 <= k < tag.len(),
    ensures
        routed(s, tag.take(k)) == (StreamView { partial: tag.take(k), ..s }),
    decreases k,
{
    if k > 0 {
        lemma_tag_begun(s, tag, k - 1);
        assert(tag.take(k).drop_last() =~= tag.take(k - 1));
        let r = routed(s, tag.take(k - 1));
        assert(r.partial.push(tag[k - 1]) =~= tag.take(k));
        assert(tag.subrange(0, k) =~= tag.take(k));
        assert(r.starts_tag(tag.take(k)));
    } else {
        assert(tag.take(0) =~= Seq::empty());
        assert(s.partial =~= tag.take(0));
    }
}

/// The tag that opens reasoning, and the one that closes it, show nowhere: what follows the
/// first is reasoning, and what follows the second is shown again.
pub proof fn think_tags_switch(s: StreamView)
    requires
        s.partial.len() == 0,
    ensures
        !s.inside ==> routed(s, "<think>"@) == (StreamView { inside: true, ..s }),
        s.inside ==> routed(s, "</think>"@) == (StreamView { inside: false, ..s }),
{
    reveal_strlit("<think>");
    reveal_strlit("</think>");
    let tag = awaited_tag(s.inside);
    let k = tag.len() - 1;
    lemma_tag_begun(s, tag, k);
    assert(tag.drop_last() =~= tag.take(k));
    let r = routed(s, tag.take(k));
    assert(r.partial.push(tag[k]) =~= tag);
    assert(tag.subrange(0, tag.len() as int) =~= tag);
    assert(s.partial =~= Seq::empty());
    assert(routed(s, tag) =~= (StreamView { inside: !s.inside, ..s }));
}

/// A delegation shows from when it starts. Its report settles the last one to that agent that
/// still runs, with the time that it took, and tells a failure by how it begins; a report that
/// nothing waits for stands on its own.
pub proof fn delegations_are_settled(
    v: AppView,
    event: TurnEvent,
    ctx: EventContext,
    estimate: u32,
    k: int,
)
    requires
        v.pending is None,
    ensures
        ({
            let after = v.after_event(event, ctx, estimate);
            let n = v.history.len() as int;
            let child = event->SubagentReport_agent@;
            let report = event->report@;
            let failed = "Error: "@.is_prefix_of(report);
            let runs = |j: int|
                v.history[j] is Subagent && v.history[j]->child == child && v.history[j]->outcome
                    is None;
            &&& event is SubagentSpawned ==> after.history == v.history.push(
                EntryView::Subagent {
                    parent: event->parent@,
                    child: event->SubagentSpawned_child@,
                    spawned_at: ctx.now,
                    outcome: None,
                    expanded: false,
                },
            )
            &&& event is SubagentReport && 0 <= k < n && runs(k) && (forall|j: int|
                k < j < n ==> !#[trigger] runs(j)) ==> after.history.len() == n
                && after.history[k] == (EntryView::Subagent {
                parent: v.history[k]->parent,
                child,
                spawned_at: v.history[k]->spawned_at,
                outcome: Some(
                    SettledView {
                        duration: (if ctx.now > v.history[k]->spawned_at {
                            (ctx.now - v.history[k]->spawned_at) as u64
                        } else {
                            0
                        }),
                        failed,
                        report,
                    },
                ),
                expanded: v.history[k]->Subagent_expanded,
            }) && forall|j: int|
                0 <= j < n && j != k ==> #[trigger] after.history[j] == v.history[j]
            &&& event is SubagentReport && (forall|j: int| 0 <= j < n ==> !#[trigger] runs(j))
                ==> after.history.len() == n + 1 && after.history.take(n) == v.history
                && after.history[n] is Subagent && after.history[n]->child == child
                && after.history[n]->outcome is Some && after.history[n]->outcome->0.failed
                == failed && after.history[n]->outcome->0.report == report
        }),
{
    reveal(AppView::subagent_spawned);
    reveal(AppView::subagent_settled);
    lemma_finalized_keeps(v);
    let n = v.history.len() as int;
    let after = v.after_event(event, ctx, estimate);
    if event is SubagentReport {
        let child = event->SubagentReport_agent@;
        let report = event->report@;
        reveal_strlit("Error: ");
        assert(reports_failure(report) == "Error: "@.is_prefix_of(report)) by {
            if "Error: "@.len() <= report.len() {
                assert(report.subrange(0, 7) =~= report.take(7));
                assert forall|i: int| 0 <= i < 7 implies report.subrange(0, 7)[i] == report[i] by {}
            }
        }
        lemma_last_running(v.history, child, n);
        let i = last_running(v.history, child, n);
        let runs = |j: int|
            v.history[j] is Subagent && v.history[j]->child == child && v.history[j]->outcome
                is None;
        if i >= 0 {
            assert(runs(i));
            if 0 <= k < n && runs(k) && (forall|j: int| k < j < n ==> !#[trigger] runs(j)) {
                assert(i == k) by {
                    if i < k {
                        assert(!(v.history[k] is Subagent && v.history[k]->child == child
                            && v.history[k]->outcome is None));
                    }
                }
            }
        } else {
            if 0 <= k < n && runs(k) {
                assert(!(v.history[k] is Subagent && v.history[k]->child == child
                    && v.history[k]->outcome is None));
            }
            assert(after.history.take(n) =~= v.history);
        }
    }
}

proof fn lemma_last_running(s: Entries, child: Seq<char>, n: int)
    requires
        0 <= n <= s.len(),
    ensures
        ({
            let i = last_running(s, child, n);
            &&& -1 <= i < n
            &&& i >= 0 ==> s[i] is Subagent && s[i]->child == child && s[i]->outcome is None
            &&& forall|j: int|
                i < j < n ==> !((#[trigger] s[j]) is Subagent && s[j]->child == child
                    && s[j]->outcome is None)
        }),
    decreases n,
{
    if n > 0 {
        lemma_last_running(s, child, n - 1);
    }
}

/// When the agent goes idle the work is over: the clock stands, the answer is written down, a
/// lost connection is forgotten, and the next turn of predictions begins.
pub proof fn idle_ends_the_work(v: AppView, event: TurnEvent, ctx: EventContext, estimate: u32)
    requires
        event is AgentIdle,
        v.prediction.turn < u64::MAX,
    ensures
        ({
            let after = v.after_event(event, ctx, estimate);
            &&& !after.work.busy
            &&& after.work.span_started_at is None
            &&& after.work.reconnect_attempt is None
            &&& after.pending is None
            &&& after.pending_edits.len() == 0
            &&& after.prediction.turn == v.prediction.turn + 1
            &&& after.prediction.ghost_text is None
            &&& after.editor == v.editor
        }),
{
    reveal(AppView::agent_idle);
    lemma_finalized_keeps(v.reconnect_set(None));
}

} // verus!
