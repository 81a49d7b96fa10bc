//! What holds of every event of the engine.

use vstd::prelude::*;
use crate::app::events::{EventContext, ToolFailKind, TurnEvent};
use crate::app::history::{Entries, EntryView, ToolCallState, lemma_last_running, settled};
use crate::app::state::AppView;
use crate::app::stream::{StreamView, routed, routing_is_incremental};
use crate::app::transcript::{last_tool, tool_updated};
use crate::editor::EditorView;
use crate::text::joined;

verus! {

/// Whether an entry may change after it was written: a tool call gets its
/// result, a delegation its report.
pub open spec fn settles_later(before: EntryView, after: EntryView) -> bool {
    ||| before is ToolBox && after is ToolBox
    ||| before is ToolLine && after is ToolLine
    ||| before is Subagent && after is Subagent
}

/// Whether `after` holds all entries of `before` in their places, and maybe
/// more behind them.
pub open spec fn continues(before: Entries, after: Entries) -> bool {
    &&& before.len() <= after.len()
    &&& forall|i: int|
        #![trigger after[i]]
        #![trigger before[i]]
        0 <= i < before.len() ==> after[i] == before[i] || settles_later(before[i], after[i])
}

proof fn lemma_tool_updated(
    s: Entries,
    id: Seq<char>,
    state: ToolCallState,
    output: Option<(Seq<char>, bool)>,
)
    ensures
        continues(s, tool_updated(s, id, state, output)),
{
    lemma_last_tool(s, id, s.len() as int);
}

proof fn lemma_last_tool(s: Entries, id: Seq<char>, n: int)
    requires
        0 <= n <= s.len(),
    ensures
        -1 <= last_tool(s, id, n) < n,
    decreases n,
{
    if n > 0 {
        lemma_last_tool(s, id, n - 1);
    }
}

proof fn lemma_settled(s: Entries, child: Seq<char>, report: Seq<char>, now: u64)
    ensures
        continues(s, settled(s, child, report, now)),
{
    lemma_last_running(s, child, s.len() as int);
}

/// What an event keeps: the transcript, the typed text, a running span and the
/// knowledge that the daemon drains.
spec fn fair_step(v: AppView, event: TurnEvent, after: AppView) -> bool {
    &&& continues(v.history, after.history)
    &&& !(event is AgentIdle) && v.work.busy ==> after.work.busy
    &&& event is AgentIdle ==> !after.work.busy && after.work.span_started_at is None
        && after.pending is None
    &&& !(event is CompactReady) ==> after.editor == (EditorView {
        queue: after.editor.queue,
        ..v.editor
    })
    &&& !(event is ThinkingStarted) ==> after.editor.queue == v.editor.queue
    &&& v.link.draining ==> after.link.draining
}

proof fn lemma_answer_events(v: AppView, event: TurnEvent, ctx: EventContext, estimate: u32)
    requires
        event.about_answer(),
    ensures
        fair_step(v, event, v.after_event(event, ctx, estimate)),
{
    match event {
        TurnEvent::Reconnecting { .. } => {
            reveal(AppView::reconnecting);
        },
        TurnEvent::ThinkingStarted { .. } => {
            reveal(AppView::thinking_started);
        },
        TurnEvent::AssistantTextDelta { .. } => {
            reveal(AppView::text_streamed);
        },
        TurnEvent::ReasoningDelta { .. } => {
            reveal(AppView::reasoning_streamed);
        },
        TurnEvent::AssistantText { .. } => {
            reveal(AppView::text_finished);
        },
        TurnEvent::Usage { .. } => {
            reveal(AppView::used);
        },
        TurnEvent::AgentIdle => {
            reveal(AppView::agent_idle);
        },
        _ => {},
    }
}

proof fn lemma_tool_events(v: AppView, event: TurnEvent, ctx: EventContext, estimate: u32)
    requires
        event.about_tool(),
    ensures
        fair_step(v, event, v.after_event(event, ctx, estimate)),
{
    match event {
        TurnEvent::ToolStart { .. } => {
            reveal(AppView::tool_started);
        },
        TurnEvent::ToolEnd { output, truncated, call_id, .. } => {
            reveal(AppView::tool_ended);
            lemma_tool_updated(
                v.history,
                call_id@,
                ToolCallState::Success,
                Some((output@, truncated)),
            );
        },
        TurnEvent::ToolError { error, call_id, kind, .. } => {
            reveal(AppView::tool_failed);
            lemma_tool_updated(
                v.history,
                call_id@,
                match kind {
                    ToolFailKind::Invocation => ToolCallState::BadCall,
                    ToolFailKind::Execution => ToolCallState::Failed,
                },
                Some((error@, false)),
            );
        },
        TurnEvent::SubagentSpawned { .. } => {
            reveal(AppView::subagent_spawned);
        },
        TurnEvent::SubagentReport { agent, report } => {
            reveal(AppView::subagent_settled);
            lemma_settled(v.history, agent@, report@, ctx.now);
        },
        _ => {},
    }
}

proof fn lemma_job_events(v: AppView, event: TurnEvent, ctx: EventContext, estimate: u32)
    requires
        event.about_job(),
    ensures
        fair_step(v, event, v.after_event(event, ctx, estimate)),
{
    match event {
        TurnEvent::JobStarted { .. } => {
            reveal(AppView::job_started);
        },
        TurnEvent::JobProgress { .. } => {
            reveal(AppView::job_progressed);
        },
        TurnEvent::JobNote { .. } => {
            reveal(AppView::job_noted);
        },
        TurnEvent::JobCompleted { .. } => {
            reveal(AppView::job_completed);
        },
        _ => {},
    }
}

proof fn lemma_session_events(v: AppView, event: TurnEvent, ctx: EventContext, estimate: u32)
    requires
        event.about_session(),
    ensures
        fair_step(v, event, v.after_event(event, ctx, estimate)),
{
    match event {
        TurnEvent::PrimarySwapped { .. } => {
            reveal(AppView::primary_swapped);
        },
        TurnEvent::LlmModeChanged { .. } => {
            reveal(AppView::llm_mode_changed);
        },
        TurnEvent::InterruptRaised { .. } => {
            reveal(AppView::interrupted);
        },
        TurnEvent::ContextProjection { .. } => {
            reveal(AppView::projected);
        },
        TurnEvent::Pruned { .. } => {
            reveal(AppView::pruned);
        },
        TurnEvent::CompactReady { .. } => {
            reveal(AppView::compact_ready);
        },
        _ => {},
    }
}

proof fn lemma_daemon_events(v: AppView, event: TurnEvent, ctx: EventContext, estimate: u32)
    requires
        event.about_daemon(),
    ensures
        fair_step(v, event, v.after_event(event, ctx, estimate)),
{
    match event {
        TurnEvent::Notice { .. } => {
            reveal(AppView::noticed);
        },
        TurnEvent::SandboxState { .. } => {
            reveal(AppView::sandbox_shown);
        },
        TurnEvent::CaffeinateState { .. } => {
            reveal(AppView::caffeinated);
        },
        TurnEvent::PlanStatusState { .. } => {
            reveal(AppView::plan_status_set);
        },
        TurnEvent::DaemonDraining { .. } => {
            reveal(AppView::drained);
        },
        _ => {},
    }
}

proof fn lemma_step(v: AppView, event: TurnEvent, ctx: EventContext, estimate: u32)
    ensures
        fair_step(v, event, v.after_event(event, ctx, estimate)),
{
    if event.about_answer() {
        lemma_answer_events(v, event, ctx, estimate);
    } else if event.about_tool() {
        lemma_tool_events(v, event, ctx, estimate);
    } else if event.about_job() {
        lemma_job_events(v, event, ctx, estimate);
    } else if event.about_session() {
        lemma_session_events(v, event, ctx, estimate);
    } else {
        lemma_daemon_events(v, event, ctx, estimate);
    }
}

/// No event takes anything out of the transcript: entries stay where they are,
/// and only tool calls and delegations are filled in later.
pub proof fn transcript_is_kept(v: AppView, event: TurnEvent, ctx: EventContext, estimate: u32)
    ensures
        continues(v.history, v.after_event(event, ctx, estimate).history),
{
    lemma_step(v, event, ctx, estimate);
}

/// A working span ends when the agent goes idle, and on no other event.
pub proof fn only_idle_ends_a_span(v: AppView, event: TurnEvent, ctx: EventContext, estimate: u32)
    ensures
        event is AgentIdle ==> !v.after_event(event, ctx, estimate).work.busy && v.after_event(
            event,
            ctx,
            estimate,
        ).work.span_started_at is None && v.after_event(event, ctx, estimate).pending is None,
        !(event is AgentIdle) && v.work.busy ==> v.after_event(event, ctx, estimate).work.busy,
{
    lemma_step(v, event, ctx, estimate);
}

/// What is being typed is not touched by events: only a handoff replaces it, and
/// only a new round of the agent takes the queued messages.
pub proof fn events_leave_the_composer_alone(v: AppView, event: TurnEvent, ctx: EventContext, estimate: u32)
    ensures
        !(event is CompactReady) ==> v.after_event(event, ctx, estimate).editor == (EditorView {
            queue: v.after_event(event, ctx, estimate).editor.queue,
            ..v.editor
        }),
        !(event is ThinkingStarted) ==> v.after_event(event, ctx, estimate).editor.queue
            == v.editor.queue,
{
    lemma_step(v, event, ctx, estimate);
}

/// A draining daemon stays draining.
pub proof fn draining_is_final(v: AppView, event: TurnEvent, ctx: EventContext, estimate: u32)
    requires
        v.link.draining,
    ensures
        v.after_event(event, ctx, estimate).link.draining,
{
    lemma_step(v, event, ctx, estimate);
}

/// Queued messages are not lost: the round that takes them writes them down.
pub proof fn queued_messages_are_written_down(v: AppView, agent: Seq<char>, ctx: EventContext)
    ensures
        ({
            let after = v.thinking_started(agent, ctx);
            &&& after.editor.queue.len() == 0
            &&& v.editor.queue.len() > 0 ==> exists|i: int|
                0 <= i < after.history.len() && #[trigger] after.history[i] == (EntryView::User {
                    text: joined(v.editor.queue, "\n\n"@),
                    timestamp: ctx.time,
                })
        }),
{
    reveal(AppView::thinking_started);
    let after = v.thinking_started(agent, ctx);
    if v.editor.queue.len() > 0 {
        let i = v.finalized().history.len() as int;
        assert(after.history[i] == (EntryView::User {
            text: joined(v.editor.queue, "\n\n"@),
            timestamp: ctx.time,
        }));
    } else {
        assert(v.editor.queue.len() == 0);
    }
}

/// What became of the tags of queued messages is told behind them, tag by tag.
pub proof fn queued_tags_follow_the_messages(
    v: AppView,
    agent: Seq<char>,
    ctx: EventContext,
    i: int,
)
    requires
        v.pending is None,
        v.editor.queue.len() > 0,
        0 <= i < v.queued_tag_calls.len(),
    ensures
        ({
            let after = v.thinking_started(agent, ctx);
            let n = v.history.len() as int;
            let tag = v.queued_tag_calls[i];
            &&& after.history.len() == n + 1 + v.queued_tag_calls.len()
            &&& after.history[n] is User
            &&& after.history[n + 1 + i] == (EntryView::Plain {
                line: "  → "@ + tag.tool + "("@ + tag.path + ") "@ + (if tag.ok {
                    seq!['✓']
                } else {
                    seq!['✗']
                }) + " "@ + tag.detail,
            })
            &&& after.queued_tag_calls.len() == 0
        }),
{
    reveal(AppView::thinking_started);
}

proof fn lemma_text_grows(s: StreamView, delta: Seq<char>)
    ensures
        ({
            let r = routed(s, delta);
            &&& r.text.len() >= s.text.len()
            &&& r.wrote == (s.wrote || r.text.len() > s.text.len())
        }),
    decreases delta.len(),
{
    if delta.len() > 0 {
        lemma_text_grows(s, delta.drop_last());
    }
}

/// Thinking ends with the first piece that adds to the text of the answer; pieces of
/// reasoning and the beginning of a mark do not end it, and later text changes nothing.
pub proof fn first_text_ends_the_thinking(
    v: AppView,
    agent: Seq<char>,
    delta: Seq<char>,
    ctx: EventContext,
)
    requires
        v.pending is Some,
    ensures
        ({
            let p = v.pending->0;
            let q = v.text_streamed(agent, delta, ctx).pending->0;
            &&& v.text_streamed(agent, delta, ctx).pending is Some
            &&& q.text.len() >= p.text.len()
            &&& q.text_started_at == if p.text_started_at is Some {
                p.text_started_at
            } else if q.text.len() > p.text.len() {
                Some(ctx.now)
            } else {
                None
            }
            &&& q.name == p.name
            &&& q.started_at == p.started_at
            &&& q.timestamp == p.timestamp
        }),
{
    reveal(AppView::text_streamed);
    let p = v.pending->0;
    lemma_text_grows(
        StreamView {
            text: p.text,
            reasoning: p.reasoning,
            inside: p.inside_think,
            partial: p.tag_partial,
            wrote: false,
        },
        delta,
    );
}

proof fn lemma_wrote(s: StreamView, delta: Seq<char>)
    ensures
        ({
            let quiet = routed(StreamView { wrote: false, ..s }, delta);
            routed(s, delta) == StreamView { wrote: s.wrote || quiet.wrote, ..quiet }
        }),
    decreases delta.len(),
{
    if delta.len() > 0 {
        lemma_wrote(s, delta.drop_last());
    }
}

/// Two pieces of streamed text have the effect of one.
pub proof fn streamed_pieces_add_up(
    v: AppView,
    agent: Seq<char>,
    a: Seq<char>,
    b: Seq<char>,
    ctx: EventContext,
)
    ensures
        v.text_streamed(agent, a, ctx).text_streamed(agent, b, ctx) == v.text_streamed(
            agent,
            a + b,
            ctx,
        ),
{
    reveal(AppView::text_streamed);
    let p = v.streaming(agent, ctx);
    let s = StreamView {
        text: p.text,
        reasoning: p.reasoning,
        inside: p.inside_think,
        partial: p.tag_partial,
        wrote: false,
    };
    routing_is_incremental(s, a, b);
    lemma_wrote(routed(s, a), b);
    assert(v.text_streamed(agent, a, ctx).text_streamed(agent, b, ctx) =~= v.text_streamed(
        agent,
        a + b,
        ctx,
    ));
}

} // verus!
