//! What the events of the engine do to the application.

use vstd::prelude::*;
use crate::app::command::{EditView, LlmMode, PendingEditArgs, ToolArgs, ToolArgsView, edit_of, edit_tool, extract_edit_args, invocation, is_edit_tool, is_write_tool, tool_invocation, write_tool};
use crate::app::estimate::estimated_by;
use crate::app::history::{CallView, EntryView, HistoryEntry, Timestamp, ToolCall, ToolCallState, push_entry, settle_subagent_in, settled};
use crate::app::jobs::{ActiveJob, JobView, job_changed, job_touched, with_job, without_job};
use crate::app::state::{App, AppView, CompactView, ContextInfo, Link, PendingCompact, PendingMsg, PendingView, Runner, RunnerView, TOAST_TTL, TagExpansion, ToastKind, Work, edit_views, with_tags};
use crate::app::stream::{StreamView, route_text_delta, routed};
use crate::app::transcript::{call_started, last_tool, start_call, tool_updated, update_tool_state};
use crate::dialog::{DialogView, PageStateView, PageView};
use crate::dialog::question::{InterruptQuestionSet, QuestionDialog, QuestionView, question_views};
use crate::editor::{EditorView, text_of};
use crate::launch::{LaunchView, PlanStatusCounts};
use crate::text::{blank, clipped_line, concat2, concat3, decimal, first_line_truncated, is_blank, join, joined, push_decimal, same, texts};

verus! {

/// Why a tool call failed.
#[derive(Debug, Clone, Copy, PartialEq, Eq, Structural)]
pub enum ToolFailKind {
    /// The model made a bad call.
    Invocation,
    /// The tool failed.
    Execution,
}

/// An event of the engine.
#[allow(inconsistent_fields)]
pub enum TurnEvent {
    Reconnecting { attempt: u32 },
    ThinkingStarted { agent: String },
    AssistantTextDelta { agent: String, delta: String },
    ReasoningDelta { agent: String, delta: String },
    AssistantText { text: String },
    ToolStart { tool: String, args: ToolArgs, call_id: String },
    ToolEnd { tool: String, output: String, truncated: bool, call_id: String },
    ToolError { tool: String, error: String, call_id: String, kind: ToolFailKind },
    SubagentSpawned { parent: String, child: String },
    SubagentReport { agent: String, report: String },
    Usage { total: u64 },
    AgentIdle,
    PrimarySwapped { name: String },
    LlmModeChanged { mode: LlmMode },
    InterruptRaised { interrupt_id: u128, description: String, questions: InterruptQuestionSet },
    JobStarted { session_id: u128, job_id: String, label: String, kind: String },
    JobProgress { job_id: String },
    JobNote { job_id: String, text: String },
    Notice { text: String },
    JobCompleted { job_id: String, label: String, kind: String, failed: bool },
    ContextProjection { prunable_tokens: u64, cache_cold: bool },
    Pruned {
        auto: bool,
        bodies: u64,
        tokens_saved: u64,
        elided: Vec<String>,
        cache_break: bool,
    },
    CompactReady {
        new_session_id: u128,
        handoff: String,
        seed_tool_count: usize,
        seed_tool_tokens: u64,
    },
    SandboxState { enabled: bool },
    CaffeinateState { active: bool, lid_close_guaranteed: bool, message: Option<String> },
    PlanStatusState { project_id: String, ready: u64, in_progress: u64, interruptions: u64 },
    DaemonDraining { forced: bool },
}

/// The surroundings of an event: clock, a draw for the message of a new working
/// span, the lockout of dialogs, and whether the provider caches prompts.
#[derive(Debug, Clone, Copy)]
pub struct EventContext {
    pub now: u64,
    pub time: Timestamp,
    pub working_draw: usize,
    pub lockout_ms: u64,
    pub provider_caches: bool,
}

/// Questions that a dialog can be opened for.
pub open spec fn askable(set: InterruptQuestionSet) -> bool {
    &&& set.questions@.len() > 0
    &&& forall|i: int|
        0 <= i < set.questions@.len() ==> (#[trigger] set.questions@[i])@.options.len() + 2
            <= usize::MAX
}

impl TurnEvent {
    /// An interrupt asks something.
    pub open spec fn wf(self) -> bool {
        match self {
            TurnEvent::InterruptRaised { questions, .. } => askable(questions),
            _ => true,
        }
    }

    /// Events of streamed answers.
    pub open spec fn about_answer(self) -> bool {
        self is Reconnecting
            || self is ThinkingStarted
            || self is AssistantTextDelta
            || self is ReasoningDelta
            || self is AssistantText
            || self is Usage
            || self is AgentIdle
    }

    /// Events of tools and delegations.
    pub open spec fn about_tool(self) -> bool {
        self is ToolStart
            || self is ToolEnd
            || self is ToolError
            || self is SubagentSpawned
            || self is SubagentReport
    }

    /// Events of background jobs.
    pub open spec fn about_job(self) -> bool {
        self is JobStarted
            || self is JobProgress
            || self is JobNote
            || self is JobCompleted
    }

    /// Events of the session and its context.
    pub open spec fn about_session(self) -> bool {
        self is PrimarySwapped
            || self is LlmModeChanged
            || self is InterruptRaised
            || self is ContextProjection
            || self is Pruned
            || self is CompactReady
    }

    /// Events of the daemon.
    pub open spec fn about_daemon(self) -> bool {
        self is Notice
            || self is SandboxState
            || self is CaffeinateState
            || self is PlanStatusState
            || self is DaemonDraining
    }
}

/// The warning shown when something breaks the prompt cache.
pub open spec fn cache_warning() -> Seq<char> {
    "Heads up: switching busts the prompt cache — the next call re-sends the full prefix uncached."@
}

/// The warning that an action breaks the prompt cache; none with a provider
/// that caches nothing.
pub fn cache_break_warning(provider_caches: bool) -> (r: Option<String>)
    ensures
        text_of(r) == if provider_caches {
            Some(cache_warning())
        } else {
            None
        },
{
    if provider_caches {
        Some(
            String::from_str(
                "Heads up: switching busts the prompt cache — the next call re-sends the full prefix uncached.",
            ),
        )
    } else {
        None
    }
}

/// A fresh streamed answer.
pub open spec fn fresh_pending(agent: Seq<char>, ctx: EventContext) -> PendingView {
    PendingView {
        name: agent,
        text: Seq::empty(),
        reasoning: Seq::empty(),
        timestamp: ctx.time,
        started_at: ctx.now,
        text_started_at: None,
        inside_think: false,
        tag_partial: Seq::empty(),
    }
}

/// A fresh streamed answer.
pub fn new_pending(name: String, ctx: EventContext) -> (r: PendingMsg)
    ensures
        r@ == fresh_pending(name@, ctx),
{
    PendingMsg {
        name,
        text: String::new(),
        reasoning: String::new(),
        timestamp: ctx.time,
        started_at: ctx.now,
        text_started_at: None,
        inside_think: false,
        tag_partial: String::new(),
    }
}

// ---- Edits that are awaited -----------------------------------------------

pub type Edits = Seq<(Seq<char>, EditView)>;

/// Position of the edit of call `id`, or the number of edits.
pub open spec fn edit_at(s: Edits, id: Seq<char>, from: int) -> int
    decreases s.len() - from,
{
    if from >= s.len() {
        s.len() as int
    } else if s[from].0 == id {
        from
    } else {
        edit_at(s, id, from + 1)
    }
}

pub open spec fn with_edit(s: Edits, id: Seq<char>, e: EditView) -> Edits {
    let i = edit_at(s, id, 0);
    if i < s.len() {
        s.update(i, (id, e))
    } else {
        s.push((id, e))
    }
}

pub open spec fn without_edit(s: Edits, id: Seq<char>) -> Edits {
    let i = edit_at(s, id, 0);
    if i < s.len() {
        s.remove(i)
    } else {
        s
    }
}

// ---- The events one by one ------------------------------------------------

impl AppView {
    pub open spec fn ensured_busy(self, ctx: EventContext) -> AppView {
        if self.work.busy {
            self
        } else {
            self.span_drawn(ctx.now, ctx.working_draw)
        }
    }

    pub open spec fn reconnect_set(self, attempt: Option<u32>) -> AppView {
        AppView { work: Work { reconnect_attempt: attempt, ..self.work }, ..self }
    }

    /// The queued messages folded into one user message, with their tags.
    pub open spec fn queue_folded(self, ctx: EventContext) -> AppView {
        if self.editor.queue.len() == 0 {
            self
        } else {
            let folded = self.with_entry(
                EntryView::User {
                    text: joined(self.editor.queue, "\n\n"@),
                    timestamp: ctx.time,
                },
            );
            AppView {
                editor: EditorView { queue: Seq::empty(), ..self.editor },
                history: with_tags(folded.history, self.queued_tag_calls),
                queued_tag_calls: Seq::empty(),
                ..folded
            }
        }
    }

    #[verifier::opaque]
    pub open spec fn thinking_started(self, agent: Seq<char>, ctx: EventContext) -> AppView {
        AppView {
            pending: Some(fresh_pending(agent, ctx)),
            ..self.reconnect_set(None).ensured_busy(ctx).finalized().queue_folded(ctx)
        }
    }

    /// The streamed answer, begun if there is none.
    pub open spec fn streaming(self, agent: Seq<char>, ctx: EventContext) -> PendingView {
        match self.pending {
            Some(p) => p,
            None => fresh_pending(agent, ctx),
        }
    }

    #[verifier::opaque]
    pub open spec fn text_streamed(
        self,
        agent: Seq<char>,
        delta: Seq<char>,
        ctx: EventContext,
    ) -> AppView {
        let p = self.streaming(agent, ctx);
        let s = routed(
            StreamView {
                text: p.text,
                reasoning: p.reasoning,
                inside: p.inside_think,
                partial: p.tag_partial,
                wrote: false,
            },
            delta,
        );
        AppView {
            pending: Some(
                PendingView {
                    text: s.text,
                    reasoning: s.reasoning,
                    inside_think: s.inside,
                    tag_partial: s.partial,
                    text_started_at: if s.wrote && p.text_started_at is None {
                        Some(ctx.now)
                    } else {
                        p.text_started_at
                    },
                    ..p
                },
            ),
            ..self.reconnect_set(None)
        }
    }

    #[verifier::opaque]
    pub open spec fn reasoning_streamed(
        self,
        agent: Seq<char>,
        delta: Seq<char>,
        ctx: EventContext,
    ) -> AppView {
        let p = self.streaming(agent, ctx);
        AppView { pending: Some(PendingView { reasoning: p.reasoning + delta, ..p }), ..self }
    }

    /// The final text of an answer: it replaces what was streamed unless it is
    /// blank, and the answer is written down.
    #[verifier::opaque]
    pub open spec fn text_finished(self, text: Seq<char>, ctx: EventContext) -> AppView {
        (match self.pending {
            None => self,
            Some(p) => AppView {
                pending: Some(
                    PendingView {
                        text_started_at: match p.text_started_at {
                            Some(t) => Some(t),
                            None => Some(ctx.now),
                        },
                        text: if is_blank(text) {
                            p.text
                        } else {
                            text
                        },
                        ..p
                    },
                ),
                ..self
            },
        }).finalized()
    }

    #[verifier::opaque]
    pub open spec fn tool_started(
        self,
        tool: Seq<char>,
        args: ToolArgsView,
        call_id: Seq<char>,
    ) -> AppView {
        let v = self.finalized();
        let (summary, full_input) = invocation(tool, args);
        if edit_tool(tool) && edit_of(args) is Some {
            AppView { pending_edits: with_edit(v.pending_edits, call_id, edit_of(args)->0), ..v }
        } else if write_tool(tool) {
            v.with_entry(
                EntryView::ToolLine {
                    call_id,
                    tool,
                    summary,
                    state: ToolCallState::Processing,
                },
            )
        } else {
            AppView {
                history: call_started(
                    v.history,
                    CallView {
                        call_id,
                        tool,
                        summary,
                        full_input,
                        output: Seq::empty(),
                        state: ToolCallState::Processing,
                    },
                ),
                ..v
            }
        }
    }

    #[verifier::opaque]
    pub open spec fn tool_ended(
        self,
        tool: Seq<char>,
        output: Seq<char>,
        truncated: bool,
        call_id: Seq<char>,
    ) -> AppView {
        let i = edit_at(self.pending_edits, call_id, 0);
        if i < self.pending_edits.len() {
            let e = self.pending_edits[i].1;
            AppView {
                pending_edits: without_edit(self.pending_edits, call_id),
                ..self.with_entry(
                    EntryView::Diff { tool, path: e.path, old_text: e.old, new_text: e.new },
                )
            }
        } else {
            AppView {
                history: tool_updated(
                    self.history,
                    call_id,
                    ToolCallState::Success,
                    Some((output, truncated)),
                ),
                ..self
            }
        }
    }

    #[verifier::opaque]
    pub open spec fn tool_failed(
        self,
        tool: Seq<char>,
        error: Seq<char>,
        call_id: Seq<char>,
        kind: ToolFailKind,
    ) -> AppView {
        let v = AppView { pending_edits: without_edit(self.pending_edits, call_id), ..self };
        let state = match kind {
            ToolFailKind::Invocation => ToolCallState::BadCall,
            ToolFailKind::Execution => ToolCallState::Failed,
        };
        if last_tool(self.history, call_id, self.history.len() as int) >= 0 {
            AppView {
                history: tool_updated(self.history, call_id, state, Some((error, false))),
                ..v
            }
        } else {
            v.with_entry(
                EntryView::ToolLine { call_id, tool, summary: clipped_line(error, 200), state },
            )
        }
    }

    #[verifier::opaque]
    pub open spec fn subagent_spawned(
        self,
        parent: Seq<char>,
        child: Seq<char>,
        now: u64,
    ) -> AppView {
        self.finalized().with_entry(
            EntryView::Subagent { parent, child, spawned_at: now, outcome: None, expanded: false },
        )
    }

    #[verifier::opaque]
    pub open spec fn noticed(self, text: Seq<char>) -> AppView {
        self.finalized().said("⚠ "@ + text)
    }

    #[verifier::opaque]
    pub open spec fn agent_idle(self) -> AppView {
        let v = self.reconnect_set(None).finalized().span_ended();
        AppView { prediction: v.prediction.next_turn(), pending_edits: Seq::empty(), ..v }
    }

    #[verifier::opaque]
    pub open spec fn interrupted(
        self,
        interrupt_id: u128,
        description: Seq<char>,
        questions: Seq<PageView>,
        lockout: u64,
        now: u64,
    ) -> AppView {
        AppView {
            question_dialog: Some(
                QuestionView {
                    interrupt_id,
                    description,
                    questions,
                    state: DialogView {
                        pages: questions,
                        states: Seq::new(questions.len(), |i: int| PageStateView::empty()),
                        page: 0,
                        cursor: 0,
                        typing: questions[0].kind is Text,
                        created_at: now as nat,
                        lockout: lockout as nat,
                        scroll: 0,
                        viewport: 0,
                    },
                    result: None,
                },
            ),
            ..self
        }
    }

    #[verifier::opaque]
    pub open spec fn job_started(
        self,
        session_id: u128,
        job_id: Seq<char>,
        label: Seq<char>,
        kind: Seq<char>,
        now: u64,
    ) -> AppView {
        let v = AppView {
            jobs: with_job(
                self.jobs,
                job_id,
                JobView { session_id, label, kind, iteration: 0, last_activity: now },
            ),
            ..self
        };
        v.said("[job "@ + job_id + "] started: "@ + label)
    }

    #[verifier::opaque]
    pub open spec fn job_noted(self, job_id: Seq<char>, text: Seq<char>, now: u64) -> AppView {
        let v = AppView {
            jobs: job_changed(self.jobs, job_id, |j: JobView| job_touched(j, now, true)),
            ..self
        };
        v.finalized().said("[job "@ + job_id + " note] "@ + text)
    }

    #[verifier::opaque]
    pub open spec fn job_completed(
        self,
        job_id: Seq<char>,
        label: Seq<char>,
        kind: Seq<char>,
        failed: bool,
    ) -> AppView {
        let v = AppView { jobs: without_job(self.jobs, job_id), ..self };
        v.finalized().said(
            "[job "@ + job_id + "] "@ + kind + (if failed {
                " failed: "@
            } else {
                " ended: "@
            }) + label,
        )
    }

    #[verifier::opaque]
    pub open spec fn pruned(
        self,
        auto: bool,
        bodies: u64,
        tokens_saved: u64,
        elided: Seq<Seq<char>>,
        cache_break: bool,
        provider_caches: bool,
    ) -> AppView {
        let v = AppView { elided, ..self.finalized() };
        let how = if auto {
            "auto-pruned"@
        } else {
            "/prune"@
        };
        let told = v.said(
            if bodies == 0 {
                how + ": nothing to do (0% prunable)"@
            } else {
                how + ": collapsed "@ + decimal(bodies as nat) + " superseded snapshot"@ + (if bodies
                    == 1 {
                    ""@
                } else {
                    "s"@
                }) + " (~"@ + decimal(tokens_saved as nat) + " wire tokens reclaimed)"@
            },
        );
        if cache_break && provider_caches {
            told.said(cache_warning())
        } else {
            told
        }
    }

    #[verifier::opaque]
    pub open spec fn compact_ready(
        self,
        new_session_id: u128,
        handoff: Seq<char>,
        seed_tool_count: nat,
        seed_tool_tokens: u64,
    ) -> AppView {
        let v = self.finalized();
        let ready = AppView {
            editor: v.editor.recalled(handoff),
            pending_compact: Some(
                CompactView {
                    new_session_id,
                    seed_tool_count,
                    seed_tool_tokens,
                    predecessor_short_id: match v.runner {
                        RunnerView::Live { short_id, .. } => short_id,
                        _ => Seq::empty(),
                    },
                },
            ),
            ..v
        };
        ready.said(
            "/compact: handoff ready for review in the composer — "@ + decimal(seed_tool_count)
                + " seed tool(s), ~"@ + decimal(seed_tool_tokens as nat)
                + " tokens will re-run in the fresh session. Edit and submit to commit; the old session stays recoverable."@,
        )
    }

    #[verifier::opaque]
    pub open spec fn caffeinated(
        self,
        active: bool,
        guaranteed: bool,
        message: Option<Seq<char>>,
        now: u64,
    ) -> AppView {
        let v = AppView { link: Link { caffeinate_active: active, ..self.link }, ..self };
        match message {
            Some(m) => v.toasted(
                m,
                if active && !guaranteed {
                    ToastKind::Error
                } else {
                    ToastKind::Info
                },
                now as int,
                TOAST_TTL as int,
            ),
            None => v,
        }
    }

    #[verifier::opaque]
    pub open spec fn plan_status_set(
        self,
        project_id: Seq<char>,
        counts: PlanStatusCounts,
    ) -> AppView {
        if self.project_id == Some(project_id) {
            AppView { link: Link { plan_status: counts, ..self.link }, ..self }
        } else {
            self
        }
    }

    #[verifier::opaque]
    pub open spec fn drained(self, forced: bool, now: u64) -> AppView {
        let v = AppView { link: Link { draining: true, ..self.link }, ..self };
        if forced {
            v.toasted(
                "daemon shutdown forced — in-flight work was aborted"@,
                ToastKind::Error,
                now as int,
                TOAST_TTL as int,
            )
        } else {
            v.toasted(
                "finishing in-flight work, shutting down…"@,
                ToastKind::Info,
                now as int,
                TOAST_TTL as int,
            )
        }
    }

    #[verifier::opaque]
    pub open spec fn used(self, total: u64, estimate: u32) -> AppView {
        AppView {
            context: ContextInfo {
                last_usage: Some(total),
                estimate_at_last_usage: estimate,
                ..self.context
            },
            ..self
        }
    }

    #[verifier::opaque]
    pub open spec fn primary_swapped(self, name: Seq<char>) -> AppView {
        AppView { launch: LaunchView { agent_name: name, ..self.launch }, ..self }
    }

    #[verifier::opaque]
    pub open spec fn llm_mode_changed(self, mode: LlmMode) -> AppView {
        (AppView { context: ContextInfo { llm_mode: mode, ..self.context }, ..self }).said(
            "Switched to `"@ + mode.name() + "` LLM mode"@,
        )
    }

    #[verifier::opaque]
    pub open spec fn projected(self, prunable_tokens: u64, cache_cold: bool) -> AppView {
        AppView { context: ContextInfo { prunable_tokens, cache_cold, ..self.context }, ..self }
    }

    #[verifier::opaque]
    pub open spec fn sandbox_shown(self, enabled: bool, now: u64) -> AppView {
        self.toasted(
            if enabled {
                "sandbox on"@
            } else {
                "sandbox off"@
            },
            ToastKind::Info,
            now as int,
            TOAST_TTL as int,
        )
    }

    #[verifier::opaque]
    pub open spec fn job_progressed(self, job_id: Seq<char>, now: u64) -> AppView {
        AppView {
            jobs: job_changed(self.jobs, job_id, |j: JobView| job_touched(j, now, false)),
            ..self
        }
    }

    #[verifier::opaque]
    pub open spec fn subagent_settled(
        self,
        agent: Seq<char>,
        report: Seq<char>,
        now: u64,
    ) -> AppView {
        AppView { history: settled(self.history, agent, report, now), ..self }
    }

    #[verifier::opaque]
    pub open spec fn reconnecting(self, attempt: u32, ctx: EventContext) -> AppView {
        self.ensured_busy(ctx).reconnect_set(Some(attempt))
    }

    /// The application after an event.
    pub open spec fn after_event(
        self,
        event: TurnEvent,
        ctx: EventContext,
        estimate: u32,
    ) -> AppView {
        match event {
            TurnEvent::Reconnecting { attempt } => self.reconnecting(attempt, ctx),
            TurnEvent::ThinkingStarted { agent } => self.thinking_started(agent@, ctx),
            TurnEvent::AssistantTextDelta { agent, delta } => self.text_streamed(
                agent@,
                delta@,
                ctx,
            ),
            TurnEvent::ReasoningDelta { agent, delta } => self.reasoning_streamed(
                agent@,
                delta@,
                ctx,
            ),
            TurnEvent::AssistantText { text } => self.text_finished(text@, ctx),
            TurnEvent::ToolStart { tool, args, call_id } => self.tool_started(
                tool@,
                args@,
                call_id@,
            ),
            TurnEvent::ToolEnd { tool, output, truncated, call_id } => self.tool_ended(
                tool@,
                output@,
                truncated,
                call_id@,
            ),
            TurnEvent::ToolError { tool, error, call_id, kind } => self.tool_failed(
                tool@,
                error@,
                call_id@,
                kind,
            ),
            TurnEvent::SubagentSpawned { parent, child } => self.subagent_spawned(
                parent@,
                child@,
                ctx.now,
            ),
            TurnEvent::SubagentReport { agent, report } => self.subagent_settled(
                agent@,
                report@,
                ctx.now,
            ),
            TurnEvent::Usage { total } => self.used(total, estimate),
            TurnEvent::AgentIdle => self.agent_idle(),
            TurnEvent::PrimarySwapped { name } => self.primary_swapped(name@),
            TurnEvent::LlmModeChanged { mode } => self.llm_mode_changed(mode),
            TurnEvent::InterruptRaised { interrupt_id, description, questions } =>
                self.interrupted(
                interrupt_id,
                description@,
                question_views(questions.questions@),
                ctx.lockout_ms,
                ctx.now,
            ),
            TurnEvent::JobStarted { session_id, job_id, label, kind } => self.job_started(
                session_id,
                job_id@,
                label@,
                kind@,
                ctx.now,
            ),
            TurnEvent::JobProgress { job_id } => self.job_progressed(job_id@, ctx.now),
            TurnEvent::JobNote { job_id, text } => self.job_noted(job_id@, text@, ctx.now),
            TurnEvent::Notice { text } => self.noticed(text@),
            TurnEvent::JobCompleted { job_id, label, kind, failed } => self.job_completed(
                job_id@,
                label@,
                kind@,
                failed,
            ),
            TurnEvent::ContextProjection { prunable_tokens, cache_cold } => self.projected(
                prunable_tokens,
                cache_cold,
            ),
            TurnEvent::Pruned { auto, bodies, tokens_saved, elided, cache_break } => self.pruned(
                auto,
                bodies,
                tokens_saved,
                texts(elided@),
                cache_break,
                ctx.provider_caches,
            ),
            TurnEvent::CompactReady {
                new_session_id,
                handoff,
                seed_tool_count,
                seed_tool_tokens,
            } => self.compact_ready(
                new_session_id,
                handoff@,
                seed_tool_count as nat,
                seed_tool_tokens,
            ),
            TurnEvent::SandboxState { enabled } => self.sandbox_shown(enabled, ctx.now),
            TurnEvent::CaffeinateState { active, lid_close_guaranteed, message } =>
                self.caffeinated(active, lid_close_guaranteed, text_of(message), ctx.now),
            TurnEvent::PlanStatusState { project_id, ready, in_progress, interruptions } =>
                self.plan_status_set(
                project_id@,
                PlanStatusCounts { ready, in_progress, interruptions },
            ),
            TurnEvent::DaemonDraining { forced } => self.drained(forced, ctx.now),
        }
    }
}

/// Whether `after` is what an event makes of the application. A report of usage
/// takes the estimate of the context that `count` gives at this moment.
pub open spec fn event_applied<F: Fn(&str) -> usize>(
    before: AppView,
    event: TurnEvent,
    ctx: EventContext,
    count: F,
    after: AppView,
) -> bool {
    exists|e: u32|
        {
            &&& after == #[trigger] before.after_event(event, ctx, e)
            &&& event is Usage ==> estimated_by(count, before.context_texts(), e)
        }
}

// ---- Applying them --------------------------------------------------------

/// The position of the edit of call `id`, or the number of edits.
fn find_edit(edits: &Vec<(String, PendingEditArgs)>, id: &str) -> (r: usize)
    ensures
        r == edit_at(edit_views(edits@), id@, 0),
        r <= edits@.len(),
{
    let mut i: usize = 0;
    while i < edits.len() && !same(edits[i].0.as_str(), id)
        invariant
            i <= edits@.len(),
            edit_at(edit_views(edits@), id@, 0) == edit_at(edit_views(edits@), id@, i as int),
        decreases edits@.len() - i,
    {
        i = i + 1;
    }
    i
}

/// Await the edit of call `id`.
fn put_edit(edits: &mut Vec<(String, PendingEditArgs)>, id: String, e: PendingEditArgs)
    ensures
        edit_views(final(edits)@) == with_edit(edit_views(old(edits)@), id@, e@),
{
    let ghost before = edit_views(edits@);
    let i: usize = find_edit(edits, id.as_str());
    if i < edits.len() {
        edits.set(i, (id, e));
        proof {
            assert(edit_views(edits@) =~= before.update(i as int, (id@, e@)));
        }
    } else {
        edits.push((id, e));
        proof {
            assert(edit_views(edits@) =~= before.push((id@, e@)));
        }
    }
}

/// Take the awaited edit of call `id`, if there is one.
fn take_edit(edits: &mut Vec<(String, PendingEditArgs)>, id: &str) -> (r: Option<PendingEditArgs>)
    ensures
        edit_views(final(edits)@) == without_edit(edit_views(old(edits)@), id@),
        match r {
            Some(e) => {
                let i = edit_at(edit_views(old(edits)@), id@, 0);
                i < old(edits)@.len() && e@ == edit_views(old(edits)@)[i].1
            },
            None => edit_at(edit_views(old(edits)@), id@, 0) >= old(edits)@.len(),
        },
{
    let ghost before = edit_views(edits@);
    let i: usize = find_edit(edits, id);
    if i < edits.len() {
        let (_, e) = edits.remove(i);
        proof {
            assert(edit_views(edits@) =~= before.remove(i as int));
        }
        Some(e)
    } else {
        None
    }
}

impl App {
    fn ensure_busy(&mut self, ctx: EventContext)
        requires
            old(self).wf(),
        ensures
            final(self).wf(),
            final(self)@ == old(self)@.ensured_busy(ctx),
    {
        if !self.work.busy {
            self.begin_span(ctx.now, ctx.working_draw);
        }
    }

    fn set_reconnect(&mut self, attempt: Option<u32>)
        requires
            old(self).wf(),
        ensures
            final(self).wf(),
            final(self)@ == old(self)@.reconnect_set(attempt),
    {
        self.work = Work { reconnect_attempt: attempt, ..self.work };
    }

    fn fold_queue(&mut self, ctx: EventContext)
        requires
            old(self).wf(),
        ensures
            final(self).wf(),
            final(self)@ == old(self)@.queue_folded(ctx),
    {
        let ghost v = self@;
        if self.editor.queue.len() > 0 {
            let text: String = join(&self.editor.queue, "\n\n");
            push_entry(&mut self.history, HistoryEntry::User { text, timestamp: ctx.time });
            self.editor.queue = Vec::new();
            let mut calls: Vec<TagExpansion> = Vec::new();
            core::mem::swap(&mut self.queued_tag_calls, &mut calls);
            self.push_tag_call_entries(&calls);
            proof {
                assert(self@ =~= v.queue_folded(ctx));
            }
        }
    }

    fn start_thinking(&mut self, agent: String, ctx: EventContext)
        requires
            old(self).wf(),
        ensures
            final(self).wf(),
            final(self)@ == old(self)@.thinking_started(agent@, ctx),
    {
        proof {
            reveal(AppView::thinking_started);
        }
        let ghost v = self@;
        self.set_reconnect(None);
        self.ensure_busy(ctx);
        self.finalize_pending();
        self.fold_queue(ctx);
        self.pending = Some(new_pending(agent, ctx));
        proof {
            assert(self@ =~= v.thinking_started(agent@, ctx));
        }
    }

    fn stream_text(&mut self, agent: String, delta: &str, ctx: EventContext)
        requires
            old(self).wf(),
        ensures
            final(self).wf(),
            final(self)@ == old(self)@.text_streamed(agent@, delta@, ctx),
    {
        proof {
            reveal(AppView::text_streamed);
        }
        let ghost v = self@;
        self.set_reconnect(None);
        let mut p: PendingMsg = match self.pending.take() {
            Some(p) => p,
            None => new_pending(agent, ctx),
        };
        let wrote: bool = route_text_delta(
            delta,
            &mut p.text,
            &mut p.reasoning,
            &mut p.inside_think,
            &mut p.tag_partial,
        );
        if wrote && p.text_started_at.is_none() {
            p.text_started_at = Some(ctx.now);
        }
        self.pending = Some(p);
        proof {
            assert(self@ =~= v.text_streamed(agent@, delta@, ctx));
        }
    }

    fn stream_reasoning(&mut self, agent: String, delta: &str, ctx: EventContext)
        requires
            old(self).wf(),
        ensures
            final(self).wf(),
            final(self)@ == old(self)@.reasoning_streamed(agent@, delta@, ctx),
    {
        proof {
            reveal(AppView::reasoning_streamed);
        }
        let ghost v = self@;
        let mut p: PendingMsg = match self.pending.take() {
            Some(p) => p,
            None => new_pending(agent, ctx),
        };
        p.reasoning.append(delta);
        self.pending = Some(p);
        proof {
            assert(self@ =~= v.reasoning_streamed(agent@, delta@, ctx));
        }
    }

    fn finish_text(&mut self, text: String, ctx: EventContext)
        requires
            old(self).wf(),
        ensures
            final(self).wf(),
            final(self)@ == old(self)@.text_finished(text@, ctx),
    {
        proof {
            reveal(AppView::text_finished);
        }
        let ghost v = self@;
        match self.pending.take() {
            Some(p) => {
                let mut p: PendingMsg = p;
                if p.text_started_at.is_none() {
                    p.text_started_at = Some(ctx.now);
                }
                if !blank(text.as_str()) {
                    p.text = text;
                }
                self.pending = Some(p);
                proof {
                    let q = v.pending->0;
                    assert(self@ =~= (AppView {
                        pending: Some(
                            PendingView {
                                text_started_at: match q.text_started_at {
                                    Some(t) => Some(t),
                                    None => Some(ctx.now),
                                },
                                text: if is_blank(text@) {
                                    q.text
                                } else {
                                    text@
                                },
                                ..q
                            },
                        ),
                        ..v
                    }));
                }
            },
            None => {
                proof {
                    assert(self@ =~= v);
                }
            },
        }
        self.finalize_pending();
    }

    fn start_tool(&mut self, tool: String, args: &ToolArgs, call_id: String)
        requires
            old(self).wf(),
        ensures
            final(self).wf(),
            final(self)@ == old(self)@.tool_started(tool@, args@, call_id@),
    {
        proof {
            reveal(AppView::tool_started);
        }
        self.finalize_pending();
        let ghost v = self@;
        if is_edit_tool(tool.as_str()) {
            match extract_edit_args(args) {
                Some(e) => {
                    put_edit(&mut self.pending_edits, call_id, e);
                    proof {
                        assert(self@ =~= (AppView {
                            pending_edits: with_edit(v.pending_edits, call_id@, edit_of(args@)->0),
                            ..v
                        }));
                    }
                    return;
                },
                None => {},
            }
        }
        let (summary, full_input) = tool_invocation(tool.as_str(), args);
        if is_write_tool(tool.as_str()) {
            push_entry(
                &mut self.history,
                HistoryEntry::ToolLine { call_id, tool, summary, state: ToolCallState::Processing },
            );
            proof {
                assert(self@ =~= v.with_entry(
                    EntryView::ToolLine {
                        call_id: call_id@,
                        tool: tool@,
                        summary: summary@,
                        state: ToolCallState::Processing,
                    },
                ));
            }
        } else {
            let call = ToolCall {
                call_id,
                tool,
                summary,
                full_input,
                output: String::new(),
                state: ToolCallState::Processing,
            };
            let ghost c = call@;
            start_call(&mut self.history, call);
            proof {
                assert(self@ =~= (AppView { history: call_started(v.history, c), ..v }));
            }
        }
    }

    fn end_tool(&mut self, tool: String, output: String, truncated: bool, call_id: &str)
        requires
            old(self).wf(),
        ensures
            final(self).wf(),
            final(self)@ == old(self)@.tool_ended(tool@, output@, truncated, call_id@),
    {
        proof {
            reveal(AppView::tool_ended);
        }
        let ghost v = self@;
        match take_edit(&mut self.pending_edits, call_id) {
            Some(e) => {
                push_entry(
                    &mut self.history,
                    HistoryEntry::Diff { tool, path: e.path, old_text: e.old, new_text: e.new },
                );
            },
            None => {
                let _found: bool = update_tool_state(
                    &mut self.history,
                    call_id,
                    ToolCallState::Success,
                    Some((output, truncated)),
                );
            },
        }
        proof {
            assert(self@ =~= v.tool_ended(tool@, output@, truncated, call_id@));
        }
    }

    fn fail_tool(&mut self, tool: String, error: String, call_id: String, kind: ToolFailKind)
        requires
            old(self).wf(),
        ensures
            final(self).wf(),
            final(self)@ == old(self)@.tool_failed(tool@, error@, call_id@, kind),
    {
        proof {
            reveal(AppView::tool_failed);
        }
        let ghost v = self@;
        let _edit: Option<PendingEditArgs> = take_edit(&mut self.pending_edits, call_id.as_str());
        let state = match kind {
            ToolFailKind::Invocation => ToolCallState::BadCall,
            ToolFailKind::Execution => ToolCallState::Failed,
        };
        let summary: String = first_line_truncated(error.as_str(), 200);
        let found: bool = update_tool_state(
            &mut self.history,
            call_id.as_str(),
            state,
            Some((error, false)),
        );
        proof {
            assert(v.history.len() == old(self).history@.len());
        }
        if !found {
            push_entry(&mut self.history, HistoryEntry::ToolLine { call_id, tool, summary, state });
        }
        proof {
            assert(self@ =~= v.tool_failed(tool@, error@, call_id@, kind));
        }
    }

    fn spawn_subagent(&mut self, parent: String, child: String, ctx: EventContext)
        requires
            old(self).wf(),
        ensures
            final(self).wf(),
            final(self)@ == old(self)@.subagent_spawned(parent@, child@, ctx.now),
    {
        proof {
            reveal(AppView::subagent_spawned);
        }
        let ghost v = self@;
        self.finalize_pending();
        push_entry(
            &mut self.history,
            HistoryEntry::Subagent {
                parent,
                child,
                spawned_at: ctx.now,
                outcome: None,
                expanded: false,
            },
        );
        proof {
            assert(self@ =~= v.subagent_spawned(parent@, child@, ctx.now));
        }
    }

    fn settle_subagent(&mut self, agent: &str, report: String, now: u64)
        requires
            old(self).wf(),
        ensures
            final(self).wf(),
            final(self)@ == old(self)@.subagent_settled(agent@, report@, now),
    {
        proof {
            reveal(AppView::subagent_settled);
        }
        settle_subagent_in(&mut self.history, agent, report, now);
        proof {
            assert(self@ =~= (AppView {
                history: settled(old(self)@.history, agent@, report@, now),
                ..old(self)@
            }));
        }
    }

    fn go_idle(&mut self)
        requires
            old(self).wf(),
        ensures
            final(self).wf(),
            final(self)@ == old(self)@.agent_idle(),
    {
        proof {
            reveal(AppView::agent_idle);
        }
        let ghost v = self@;
        self.set_reconnect(None);
        self.finalize_pending();
        self.end_working_span();
        self.prediction.begin_turn();
        self.pending_edits = Vec::new();
        proof {
            assert(edit_views(self.pending_edits@) =~= Seq::empty());
            assert(self@ =~= v.agent_idle());
        }
    }

    pub(crate) fn raise_interrupt_at(
        &mut self,
        interrupt_id: u128,
        description: String,
        questions: InterruptQuestionSet,
        lockout: u64,
        now: u64,
    )
        requires
            old(self).wf(),
            askable(questions),
        ensures
            final(self).wf(),
            final(self)@ == old(self)@.interrupted(
                interrupt_id,
                description@,
                question_views(questions.questions@),
                lockout,
                now,
            ),
    {
        proof {
            reveal(AppView::interrupted);
        }
        let ghost v = self@;
        let d = QuestionDialog::new(interrupt_id, description, questions, lockout, now);
        self.question_dialog = Some(d);
        proof {
            let q = question_views(questions.questions@);
            assert(q[0] == questions.questions@[0]@);
            assert(self@ =~= v.interrupted(interrupt_id, description@, q, lockout, now));
        }
    }

    fn start_job(
        &mut self,
        session_id: u128,
        job_id: String,
        label: String,
        kind: String,
        now: u64,
    )
        requires
            old(self).wf(),
        ensures
            final(self).wf(),
            final(self)@ == old(self)@.job_started(session_id, job_id@, label@, kind@, now),
    {
        proof {
            reveal(AppView::job_started);
        }
        let ghost v = self@;
        let mut line: String = concat3("[job ", job_id.as_str(), "] started: ");
        line.append(label.as_str());
        self.jobs.insert(
            job_id,
            ActiveJob { session_id, label, kind, iteration: 0, last_activity: now },
        );
        self.say(line);
        proof {
            assert(self@ =~= v.job_started(session_id, job_id@, label@, kind@, now));
        }
    }

    fn progress_job(&mut self, job_id: &str, now: u64)
        requires
            old(self).wf(),
        ensures
            final(self).wf(),
            final(self)@ == old(self)@.job_progressed(job_id@, now),
    {
        proof {
            reveal(AppView::job_progressed);
        }
        let ghost v = self@;
        self.jobs.touch(job_id, now, false);
        proof {
            assert(self@ =~= (AppView { jobs: self@.jobs, ..v }));
        }
    }

    fn note_job(&mut self, job_id: &str, text: &str, now: u64)
        requires
            old(self).wf(),
        ensures
            final(self).wf(),
            final(self)@ == old(self)@.job_noted(job_id@, text@, now),
    {
        proof {
            reveal(AppView::job_noted);
        }
        let ghost v = self@;
        self.jobs.touch(job_id, now, true);
        proof {
            assert(self@ =~= (AppView { jobs: self@.jobs, ..v }));
        }
        self.finalize_pending();
        let mut line: String = concat3("[job ", job_id, " note] ");
        line.append(text);
        self.say(line);
    }

    fn complete_job(&mut self, job_id: &str, label: &str, kind: &str, failed: bool)
        requires
            old(self).wf(),
        ensures
            final(self).wf(),
            final(self)@ == old(self)@.job_completed(job_id@, label@, kind@, failed),
    {
        proof {
            reveal(AppView::job_completed);
        }
        let ghost v = self@;
        self.jobs.remove(job_id);
        proof {
            assert(self@ =~= (AppView { jobs: self@.jobs, ..v }));
        }
        self.finalize_pending();
        let mut line: String = concat3("[job ", job_id, "] ");
        line.append(kind);
        line.append(
            if failed {
                " failed: "
            } else {
                " ended: "
            },
        );
        line.append(label);
        self.say(line);
    }

    fn show_notice(&mut self, text: &str)
        requires
            old(self).wf(),
        ensures
            final(self).wf(),
            final(self)@ == old(self)@.noticed(text@),
    {
        proof {
            reveal(AppView::noticed);
        }
        self.finalize_pending();
        self.say(concat2("⚠ ", text));
    }

    fn report_prune(
        &mut self,
        auto: bool,
        bodies: u64,
        tokens_saved: u64,
        elided: Vec<String>,
        cache_break: bool,
        provider_caches: bool,
    )
        requires
            old(self).wf(),
        ensures
            final(self).wf(),
            final(self)@ == old(self)@.pruned(
                auto,
                bodies,
                tokens_saved,
                texts(elided@),
                cache_break,
                provider_caches,
            ),
    {
        proof {
            reveal(AppView::pruned);
        }
        self.finalize_pending();
        let ghost v = self@;
        self.elided = elided;
        proof {
            assert(self@ =~= (AppView { elided: texts(elided@), ..v }));
        }
        let mut line: String = String::from_str(
            if auto {
                "auto-pruned"
            } else {
                "/prune"
            },
        );
        if bodies == 0 {
            line.append(": nothing to do (0% prunable)");
        } else {
            line.append(": collapsed ");
            push_decimal(&mut line, bodies);
            line.append(" superseded snapshot");
            line.append(
                if bodies == 1 {
                    ""
                } else {
                    "s"
                },
            );
            line.append(" (~");
            push_decimal(&mut line, tokens_saved);
            line.append(" wire tokens reclaimed)");
        }
        self.say(line);
        if cache_break {
            match cache_break_warning(provider_caches) {
                Some(w) => {
                    self.say(w);
                },
                None => {},
            }
        }
    }

    fn offer_handoff(
        &mut self,
        new_session_id: u128,
        handoff: &str,
        seed_tool_count: usize,
        seed_tool_tokens: u64,
    )
        requires
            old(self).wf(),
        ensures
            final(self).wf(),
            final(self)@ == old(self)@.compact_ready(
                new_session_id,
                handoff@,
                seed_tool_count as nat,
                seed_tool_tokens,
            ),
    {
        proof {
            reveal(AppView::compact_ready);
        }
        self.finalize_pending();
        let ghost v = self@;
        self.editor.recall(handoff);
        let predecessor_short_id: String = match &self.runner {
            Runner::Live { short_id, .. } => short_id.clone(),
            _ => String::new(),
        };
        self.pending_compact = Some(
            PendingCompact {
                new_session_id,
                seed_tool_count,
                seed_tool_tokens,
                predecessor_short_id,
            },
        );
        let ghost ready = AppView {
            editor: v.editor.recalled(handoff@),
            pending_compact: Some(
                CompactView {
                    new_session_id,
                    seed_tool_count: seed_tool_count as nat,
                    seed_tool_tokens,
                    predecessor_short_id: predecessor_short_id@,
                },
            ),
            ..v
        };
        proof {
            assert(self@ =~= ready);
        }
        let mut line: String = String::from_str(
            "/compact: handoff ready for review in the composer — ",
        );
        push_decimal(&mut line, seed_tool_count as u64);
        line.append(" seed tool(s), ~");
        push_decimal(&mut line, seed_tool_tokens);
        line.append(
            " tokens will re-run in the fresh session. Edit and submit to commit; the old session stays recoverable.",
        );
        self.say(line);
    }

    fn set_caffeinated(
        &mut self,
        active: bool,
        guaranteed: bool,
        message: Option<String>,
        now: u64,
    )
        requires
            old(self).wf(),
        ensures
            final(self).wf(),
            final(self)@ == old(self)@.caffeinated(active, guaranteed, text_of(message), now),
    {
        proof {
            reveal(AppView::caffeinated);
        }
        self.link = Link { caffeinate_active: active, ..self.link };
        match message {
            Some(m) => {
                let kind = if active && !guaranteed {
                    ToastKind::Error
                } else {
                    ToastKind::Info
                };
                self.show_toast(m, kind, now);
            },
            None => {},
        }
    }

    fn set_plan_status(&mut self, project_id: &str, counts: PlanStatusCounts)
        requires
            old(self).wf(),
        ensures
            final(self).wf(),
            final(self)@ == old(self)@.plan_status_set(project_id@, counts),
    {
        proof {
            reveal(AppView::plan_status_set);
        }
        let ours: bool = match &self.project_id {
            Some(p) => same(p.as_str(), project_id),
            None => false,
        };
        if ours {
            self.link = Link { plan_status: counts, ..self.link };
        }
    }

    fn drain(&mut self, forced: bool, now: u64)
        requires
            old(self).wf(),
        ensures
            final(self).wf(),
            final(self)@ == old(self)@.drained(forced, now),
    {
        proof {
            reveal(AppView::drained);
        }
        self.link = Link { draining: true, ..self.link };
        if forced {
            self.show_toast(
                String::from_str("daemon shutdown forced — in-flight work was aborted"),
                ToastKind::Error,
                now,
            );
        } else {
            self.show_toast(
                String::from_str("finishing in-flight work, shutting down…"),
                ToastKind::Info,
                now,
            );
        }
    }

    fn retry_connection(&mut self, attempt: u32, ctx: EventContext)
        requires
            old(self).wf(),
        ensures
            final(self).wf(),
            final(self)@ == old(self)@.reconnecting(attempt, ctx),
    {
        proof {
            reveal(AppView::reconnecting);
        }
        self.ensure_busy(ctx);
        self.set_reconnect(Some(attempt));
    }

    fn note_usage(&mut self, total: u64, estimate: u32)
        requires
            old(self).wf(),
        ensures
            final(self).wf(),
            final(self)@ == old(self)@.used(total, estimate),
    {
        proof {
            reveal(AppView::used);
        }
        self.context = ContextInfo {
            last_usage: Some(total),
            estimate_at_last_usage: estimate,
            ..self.context
        };
    }

    pub(crate) fn swap_primary(&mut self, name: String)
        requires
            old(self).wf(),
        ensures
            final(self).wf(),
            final(self)@ == old(self)@.primary_swapped(name@),
    {
        proof {
            reveal(AppView::primary_swapped);
        }
        let ghost v = self@;
        self.launch.agent_name = name;
        proof {
            assert(self@ =~= v.primary_swapped(name@));
        }
    }

    fn change_llm_mode(&mut self, mode: LlmMode)
        requires
            old(self).wf(),
        ensures
            final(self).wf(),
            final(self)@ == old(self)@.llm_mode_changed(mode),
    {
        proof {
            reveal(AppView::llm_mode_changed);
        }
        self.context = ContextInfo { llm_mode: mode, ..self.context };
        self.say(concat3("Switched to `", mode.as_str(), "` LLM mode"));
    }

    fn note_projection(&mut self, prunable_tokens: u64, cache_cold: bool)
        requires
            old(self).wf(),
        ensures
            final(self).wf(),
            final(self)@ == old(self)@.projected(prunable_tokens, cache_cold),
    {
        proof {
            reveal(AppView::projected);
        }
        self.context = ContextInfo { prunable_tokens, cache_cold, ..self.context };
    }

    fn show_sandbox(&mut self, enabled: bool, now: u64)
        requires
            old(self).wf(),
        ensures
            final(self).wf(),
            final(self)@ == old(self)@.sandbox_shown(enabled, now),
    {
        proof {
            reveal(AppView::sandbox_shown);
        }
        let text: String = String::from_str(
            if enabled {
                "sandbox on"
            } else {
                "sandbox off"
            },
        );
        self.show_toast(text, ToastKind::Info, now);
    }

    #[verifier::spinoff_prover]
    fn apply_answer_event(&mut self, event: TurnEvent, ctx: EventContext, estimate: u32)
        requires
            old(self).wf(),
            event.wf(),
            event.about_answer(),
        ensures
            final(self).wf(),
            final(self)@ == old(self)@.after_event(event, ctx, estimate),
    {
        match event {
            TurnEvent::Reconnecting { attempt } => {
                self.retry_connection(attempt, ctx);
            },
            TurnEvent::ThinkingStarted { agent } => {
                self.start_thinking(agent, ctx);
            },
            TurnEvent::AssistantTextDelta { agent, delta } => {
                self.stream_text(agent, delta.as_str(), ctx);
            },
            TurnEvent::ReasoningDelta { agent, delta } => {
                self.stream_reasoning(agent, delta.as_str(), ctx);
            },
            TurnEvent::AssistantText { text } => {
                self.finish_text(text, ctx);
            },
            TurnEvent::Usage { total } => {
                self.note_usage(total, estimate);
            },
            TurnEvent::AgentIdle => {
                self.go_idle();
            },
            _ => {},
        }
    }

    #[verifier::spinoff_prover]
    fn apply_tool_event(&mut self, event: TurnEvent, ctx: EventContext)
        requires
            old(self).wf(),
            event.wf(),
            event.about_tool(),
        ensures
            final(self).wf(),
            forall|e: u32| final(self)@ == #[trigger] old(self)@.after_event(event, ctx, e),
    {
        match event {
            TurnEvent::ToolStart { tool, args, call_id } => {
                self.start_tool(tool, &args, call_id);
            },
            TurnEvent::ToolEnd { tool, output, truncated, call_id } => {
                self.end_tool(tool, output, truncated, call_id.as_str());
            },
            TurnEvent::ToolError { tool, error, call_id, kind } => {
                self.fail_tool(tool, error, call_id, kind);
            },
            TurnEvent::SubagentSpawned { parent, child } => {
                self.spawn_subagent(parent, child, ctx);
            },
            TurnEvent::SubagentReport { agent, report } => {
                self.settle_subagent(agent.as_str(), report, ctx.now);
            },
            _ => {},
        }
    }

    #[verifier::spinoff_prover]
    fn apply_job_event(&mut self, event: TurnEvent, ctx: EventContext)
        requires
            old(self).wf(),
            event.wf(),
            event.about_job(),
        ensures
            final(self).wf(),
            forall|e: u32| final(self)@ == #[trigger] old(self)@.after_event(event, ctx, e),
    {
        match event {
            TurnEvent::JobStarted { session_id, job_id, label, kind } => {
                self.start_job(session_id, job_id, label, kind, ctx.now);
            },
            TurnEvent::JobProgress { job_id } => {
                self.progress_job(job_id.as_str(), ctx.now);
            },
            TurnEvent::JobNote { job_id, text } => {
                self.note_job(job_id.as_str(), text.as_str(), ctx.now);
            },
            TurnEvent::JobCompleted { job_id, label, kind, failed } => {
                self.complete_job(job_id.as_str(), label.as_str(), kind.as_str(), failed);
            },
            _ => {},
        }
    }

    #[verifier::spinoff_prover]
    fn apply_session_event(&mut self, event: TurnEvent, ctx: EventContext)
        requires
            old(self).wf(),
            event.wf(),
            event.about_session(),
        ensures
            final(self).wf(),
            forall|e: u32| final(self)@ == #[trigger] old(self)@.after_event(event, ctx, e),
    {
        match event {
            TurnEvent::PrimarySwapped { name } => {
                self.swap_primary(name);
            },
            TurnEvent::LlmModeChanged { mode } => {
                self.change_llm_mode(mode);
            },
            TurnEvent::InterruptRaised { interrupt_id, description, questions } => {
                self.raise_interrupt_at(
                    interrupt_id,
                    description,
                    questions,
                    ctx.lockout_ms,
                    ctx.now,
                );
            },
            TurnEvent::ContextProjection { prunable_tokens, cache_cold } => {
                self.note_projection(prunable_tokens, cache_cold);
            },
            TurnEvent::Pruned { auto, bodies, tokens_saved, elided, cache_break } => {
                self.report_prune(
                    auto,
                    bodies,
                    tokens_saved,
                    elided,
                    cache_break,
                    ctx.provider_caches,
                );
            },
            TurnEvent::CompactReady {
                new_session_id,
                handoff,
                seed_tool_count,
                seed_tool_tokens,
            } => {
                self.offer_handoff(
                    new_session_id,
                    handoff.as_str(),
                    seed_tool_count,
                    seed_tool_tokens,
                );
            },
            _ => {},
        }
    }

    #[verifier::spinoff_prover]
    fn apply_daemon_event(&mut self, event: TurnEvent, ctx: EventContext)
        requires
            old(self).wf(),
            event.wf(),
            event.about_daemon(),
        ensures
            final(self).wf(),
            forall|e: u32| final(self)@ == #[trigger] old(self)@.after_event(event, ctx, e),
    {
        match event {
            TurnEvent::Notice { text } => {
                self.show_notice(text.as_str());
            },
            TurnEvent::SandboxState { enabled } => {
                self.show_sandbox(enabled, ctx.now);
            },
            TurnEvent::CaffeinateState { active, lid_close_guaranteed, message } => {
                self.set_caffeinated(active, lid_close_guaranteed, message, ctx.now);
            },
            TurnEvent::PlanStatusState { project_id, ready, in_progress, interruptions } => {
                self.set_plan_status(
                    project_id.as_str(),
                    PlanStatusCounts { ready, in_progress, interruptions },
                );
            },
            TurnEvent::DaemonDraining { forced } => {
                self.drain(forced, ctx.now);
            },
            _ => {},
        }
    }

    /// Apply an event of the engine. `count` counts tokens, for the estimate of the
    /// context that the provider's count is held against. Returns whether the next
    /// message is to be predicted: the agent has just gone idle.
    #[verifier::spinoff_prover]
    pub fn apply_event<F: Fn(&str) -> usize>(
        &mut self,
        event: TurnEvent,
        ctx: EventContext,
        count: F,
    ) -> (predict: bool)
        requires
            old(self).wf(),
            event.wf(),
            forall|t: &str| #[trigger] count.requires((t,)),
        ensures
            final(self).wf(),
            event_applied(old(self)@, event, ctx, count, final(self)@),
            predict == (event is AgentIdle),
    {
        let predict: bool = matches!(&event, TurnEvent::AgentIdle);
        let ghost v = self@;
        match &event {
            TurnEvent::Usage { .. } => {
                let estimate: u32 = self.estimate_context_tokens(count);
                self.apply_answer_event(event, ctx, estimate);
                proof {
                    assert(self@ == v.after_event(event, ctx, estimate));
                }
            },
            TurnEvent::Reconnecting { .. }
            | TurnEvent::ThinkingStarted { .. }
            | TurnEvent::AssistantTextDelta { .. }
            | TurnEvent::ReasoningDelta { .. }
            | TurnEvent::AssistantText { .. }
            | TurnEvent::AgentIdle => {
                self.apply_answer_event(event, ctx, 0);
                proof {
                    assert(self@ == v.after_event(event, ctx, 0));
                }
            },
            TurnEvent::ToolStart { .. }
            | TurnEvent::ToolEnd { .. }
            | TurnEvent::ToolError { .. }
            | TurnEvent::SubagentSpawned { .. }
            | TurnEvent::SubagentReport { .. } => {
                self.apply_tool_event(event, ctx);
            },
            TurnEvent::JobStarted { .. }
            | TurnEvent::JobProgress { .. }
            | TurnEvent::JobNote { .. }
            | TurnEvent::JobCompleted { .. } => {
                self.apply_job_event(event, ctx);
            },
            TurnEvent::PrimarySwapped { .. }
            | TurnEvent::LlmModeChanged { .. }
            | TurnEvent::InterruptRaised { .. }
            | TurnEvent::ContextProjection { .. }
            | TurnEvent::Pruned { .. }
            | TurnEvent::CompactReady { .. } => {
                self.apply_session_event(event, ctx);
            },
            TurnEvent::Notice { .. }
            | TurnEvent::SandboxState { .. }
            | TurnEvent::CaffeinateState { .. }
            | TurnEvent::PlanStatusState { .. }
            | TurnEvent::DaemonDraining { .. } => {
                self.apply_daemon_event(event, ctx);
            },
        }
        proof {
            if !(event is Usage) {
                assert(self@ == v.after_event(event, ctx, 0));
            }
        }
        predict
    }
}

} // verus!
