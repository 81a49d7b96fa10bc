//! Sessions: side conversations, resuming, handoffs, fresh sessions, and the
//! runner that a session is attached to.

use vstd::prelude::*;
use crate::app::effect::{Effect, EffectView};
use crate::app::events::EventContext;
use crate::app::history::{EntryView, HistoryEntry, SubagentOutcome, ToolCall, call_views, entry_views, push_entry};
use crate::app::ids::{id_form, id_text};
use crate::app::jobs::{JobTable, in_order};
use crate::app::state::{App, AppView, ContextInfo, Link, PendingCompact, PendingMsg, Runner, RunnerView, Screen, SideConversation, SideView, compact_of, side_of};
use crate::editor::{EditorView, text_of};
use crate::launch::LaunchView;
use crate::text::{concat2, concat3, decimal, lowered, push_decimal, same, trim, trimmed, trimmed_lower};

verus! {

// ---- Copies of entries ----------------------------------------------------

fn copy_call(c: &ToolCall) -> (r: ToolCall)
    ensures
        r@ == c@,
{
    ToolCall {
        call_id: c.call_id.clone(),
        tool: c.tool.clone(),
        summary: c.summary.clone(),
        full_input: c.full_input.clone(),
        output: c.output.clone(),
        state: c.state,
    }
}

fn copy_calls(v: &Vec<ToolCall>) -> (r: Vec<ToolCall>)
    ensures
        call_views(r@) == call_views(v@),
{
    let mut out: Vec<ToolCall> = Vec::new();
    let mut i: usize = 0;
    proof {
        assert(call_views(out@) =~= call_views(v@).take(0));
    }
    while i < v.len()
        invariant
            i <= v@.len(),
            call_views(out@) == call_views(v@).take(i as int),
        decreases v@.len() - i,
    {
        let ghost before = call_views(out@);
        let c: ToolCall = copy_call(&v[i]);
        out.push(c);
        proof {
            assert(call_views(out@) =~= before.push(c@));
            assert(call_views(v@).take(i + 1) =~= before.push(call_views(v@)[i as int]));
        }
        i = i + 1;
    }
    proof {
        assert(call_views(v@).take(i as int) =~= call_views(v@));
    }
    out
}

fn copy_entry(e: &HistoryEntry) -> (r: HistoryEntry)
    ensures
        r@ == e@,
{
    match e {
        HistoryEntry::Plain { line } => HistoryEntry::Plain { line: line.clone() },
        HistoryEntry::LocalCommand { label, output, failed } => HistoryEntry::LocalCommand {
            label: label.clone(),
            output: output.clone(),
            failed: *failed,
        },
        HistoryEntry::ToolLine { call_id, tool, summary, state } => HistoryEntry::ToolLine {
            call_id: call_id.clone(),
            tool: tool.clone(),
            summary: summary.clone(),
            state: *state,
        },
        HistoryEntry::ToolBox { calls, view_offset, follow, expanded } => HistoryEntry::ToolBox {
            calls: copy_calls(calls),
            view_offset: *view_offset,
            follow: *follow,
            expanded: *expanded,
        },
        HistoryEntry::Diff { tool, path, old_text, new_text } => HistoryEntry::Diff {
            tool: tool.clone(),
            path: path.clone(),
            old_text: old_text.clone(),
            new_text: new_text.clone(),
        },
        HistoryEntry::User { text, timestamp } => HistoryEntry::User {
            text: text.clone(),
            timestamp: *timestamp,
        },
        HistoryEntry::Agent { name, text, reasoning, timestamp, expanded, think_duration } =>
            HistoryEntry::Agent {
            name: name.clone(),
            text: text.clone(),
            reasoning: reasoning.clone(),
            timestamp: *timestamp,
            expanded: *expanded,
            think_duration: *think_duration,
        },
        HistoryEntry::Subagent { parent, child, spawned_at, outcome, expanded } =>
            HistoryEntry::Subagent {
            parent: parent.clone(),
            child: child.clone(),
            spawned_at: *spawned_at,
            outcome: match outcome {
                Some(o) => Some(
                    SubagentOutcome {
                        duration: o.duration,
                        failed: o.failed,
                        report: o.report.clone(),
                    },
                ),
                None => None,
            },
            expanded: *expanded,
        },
        HistoryEntry::CompactBoundary {
            predecessor_short_id,
            seed_tool_count,
            seed_tool_tokens,
        } => HistoryEntry::CompactBoundary {
            predecessor_short_id: predecessor_short_id.clone(),
            seed_tool_count: *seed_tool_count,
            seed_tool_tokens: *seed_tool_tokens,
        },
    }
}

/// A copy of a transcript.
pub fn copy_entries(v: &Vec<HistoryEntry>) -> (r: Vec<HistoryEntry>)
    ensures
        entry_views(r@) == entry_views(v@),
{
    let mut out: Vec<HistoryEntry> = Vec::new();
    let mut i: usize = 0;
    proof {
        assert(entry_views(out@) =~= entry_views(v@).take(0));
    }
    while i < v.len()
        invariant
            i <= v@.len(),
            entry_views(out@) == entry_views(v@).take(i as int),
        decreases v@.len() - i,
    {
        let ghost before = entry_views(out@);
        let e: HistoryEntry = copy_entry(&v[i]);
        out.push(e);
        proof {
            assert(entry_views(out@) =~= before.push(e@));
            assert(entry_views(v@).take(i + 1) =~= before.push(entry_views(v@)[i as int]));
        }
        i = i + 1;
    }
    proof {
        assert(entry_views(v@).take(i as int) =~= entry_views(v@));
    }
    out
}

// ---- Attaching ------------------------------------------------------------

/// A session that a runner is attached to.
pub struct Attached {
    pub session_id: u128,
    pub short_id: String,
    pub project_id: String,
}

#[verifier::ext_equal]
pub struct AttachedView {
    pub session_id: u128,
    pub short_id: Seq<char>,
    pub project_id: Seq<char>,
}

impl View for Attached {
    type V = AttachedView;

    open spec fn view(&self) -> AttachedView {
        AttachedView {
            session_id: self.session_id,
            short_id: self.short_id@,
            project_id: self.project_id@,
        }
    }
}

pub open spec fn attached_of(r: Result<Attached, String>) -> Result<AttachedView, Seq<char>> {
    match r {
        Ok(a) => Ok(a@),
        Err(e) => Err(e@),
    }
}

/// How the daemon is reached.
#[derive(Debug, Clone, Copy, PartialEq, Eq, Structural)]
pub enum LifecycleMode {
    /// A daemon of the application's own.
    AttachOwnEphemeral,
    /// The daemon of the machine, started where it does not run.
    AttachOrAutoPromote,
}

impl AttachedView {
    pub open spec fn live(self) -> RunnerView {
        RunnerView::Live {
            session_id: self.session_id,
            short_id: self.short_id,
            project_id: self.project_id,
        }
    }
}

/// The id under which a session is named: its short id, or the whole id.
pub open spec fn session_label(short_id: Seq<char>, id: u128) -> Seq<char> {
    if short_id.len() == 0 {
        id_form(id)
    } else {
        short_id
    }
}

/// The id under which a session is named.
pub fn label_of_session(short_id: &str, id: u128) -> (r: String)
    ensures
        r@ == session_label(short_id@, id),
{
    if short_id.unicode_len() == 0 {
        id_text(id)
    } else {
        String::from_str(short_id)
    }
}

impl AppView {
    /// The launch state with the ids of a session.
    pub open spec fn named(self, session_id: Option<u128>, short_id: Option<Seq<char>>) -> AppView {
        AppView {
            launch: LaunchView { session_id, session_short_id: short_id, ..self.launch },
            ..self
        }
    }

    /// An empty transcript, as a thread begins.
    pub open spec fn fresh_thread(self) -> AppView {
        AppView {
            history: Seq::empty(),
            editor: EditorView { queue: Seq::empty(), ..self.editor },
            pending: None,
            context: ContextInfo { prunable_tokens: 0, ..self.context },
            elided: Seq::empty(),
            ..self
        }
    }

    /// No jobs, and nothing to confirm about them.
    pub open spec fn without_jobs(self) -> AppView {
        AppView { jobs: Seq::empty(), pending_stop_confirm: None, ..self }
    }

    /// At the newest line.
    pub open spec fn at_newest(self) -> AppView {
        AppView { screen: Screen { scroll_offset: 0, ..self.screen }, ..self }
    }

    pub open spec fn with_persisted(self, on: bool) -> AppView {
        AppView { link: Link { session_persisted: on, ..self.link }, ..self }
    }

    /// Attached to a session of the daemon.
    pub open spec fn attached_to(self, a: AttachedView) -> AppView {
        AppView {
            runner: a.live(),
            ..self.named(Some(a.session_id), Some(a.short_id)).with_persisted(true)
        }
    }

    /// A reviewed handoff: it becomes the first message of the fresh session.
    #[verifier::opaque]
    pub open spec fn handoff_committed(
        self,
        handoff: Seq<char>,
        attached: Result<AttachedView, Seq<char>>,
        ctx: EventContext,
    ) -> AppView {
        match self.pending_compact {
            None => self,
            Some(p) => {
                let v = AppView { pending_compact: None, editor: self.editor.cleared(), ..self };
                match attached {
                    Err(e) => v.said("/compact: could not attach to fresh session: "@ + e),
                    Ok(a) => {
                        let fresh = v.fresh_thread().attached_to(a);
                        let marked = if p.predecessor_short_id.len() == 0 {
                            fresh
                        } else {
                            fresh.with_entry(
                                EntryView::CompactBoundary {
                                    predecessor_short_id: p.predecessor_short_id,
                                    seed_tool_count: p.seed_tool_count,
                                    seed_tool_tokens: p.seed_tool_tokens,
                                },
                            )
                        };
                        marked.said(
                            "/compact: committed — fresh session started ("@ + decimal(
                                p.seed_tool_count,
                            )
                                + " seed tool(s) re-running). Old session recoverable via `cockpit session resume`."@,
                        ).with_entry(
                            EntryView::User { text: handoff, timestamp: ctx.time },
                        ).span_drawn(ctx.now, ctx.working_draw)
                    },
                }
            },
        }
    }

    /// Another session resumed.
    #[verifier::opaque]
    pub open spec fn resumed(
        self,
        session_id: u128,
        attached: Result<AttachedView, Seq<char>>,
    ) -> AppView {
        match attached {
            Err(e) => self.said("/resume: could not attach to session: "@ + e),
            Ok(a) => (AppView {
                project_id: Some(a.project_id),
                ..self.fresh_thread().without_jobs().at_newest().attached_to(a)
            }).said(
                "/resume: switched to session "@ + session_label(a.short_id, session_id) + "."@,
            ),
        }
    }

    // ---- Side conversations -----------------------------------------------

    /// `/side`.
    #[verifier::opaque]
    pub open spec fn side_command(self, args: Seq<char>) -> (AppView, EffectView) {
        let arg = trim(args);
        if lowered(arg) == "end"@ {
            if self.side is Some {
                self.side_ended(true)
            } else {
                (self.said("/side: not in a side conversation"@), EffectView::Stay)
            }
        } else if arg.len() > 0 {
            (
                self.said("Usage: `/side` to start, `/side end` to discard"@),
                EffectView::Stay,
            )
        } else if self.side is Some {
            (
                self.said("/side: already in a side conversation (`/side end` to discard)"@),
                EffectView::Stay,
            )
        } else {
            match self.runner {
                RunnerView::Live { session_id, .. } => if self.link.session_persisted {
                    (self, EffectView::ForkSession { session_id })
                } else {
                    (
                        self.said("/side: send a message first — there's nothing to fork yet"@),
                        EffectView::Stay,
                    )
                },
                _ => (self.said("/side: no active session to fork from"@), EffectView::Stay),
            }
        }
    }

    /// The view of the main session, kept while a side conversation is open.
    pub open spec fn saved(self, side_session_id: u128, socket: Seq<char>) -> SideView {
        SideView {
            side_session_id,
            socket,
            runner: self.runner,
            history: self.history,
            queue: self.editor.queue,
            pending: self.pending,
            prunable_tokens: self.context.prunable_tokens,
            cache_cold: self.context.cache_cold,
            elided: self.elided,
            jobs: self.jobs,
            pending_stop_confirm: self.pending_stop_confirm,
            chat_scroll_offset: self.screen.scroll_offset as int,
            project_id: self.project_id,
            session_id: self.launch.session_id,
            session_short_id: self.launch.session_short_id,
            current_session_persisted: self.link.session_persisted,
        }
    }

    /// Onto the fork of a side conversation. The transcript stays visible.
    #[verifier::opaque]
    pub open spec fn side_entered(
        self,
        side_session_id: u128,
        side_short_id: Seq<char>,
        socket: Seq<char>,
        a: AttachedView,
    ) -> AppView {
        let v = AppView {
            side: Some(self.saved(side_session_id, socket)),
            runner: a.live(),
            project_id: Some(a.project_id),
            editor: EditorView { queue: Seq::empty(), ..self.editor },
            pending: None,
            context: ContextInfo { prunable_tokens: 0, cache_cold: true, ..self.context },
            elided: Seq::empty(),
            ..self
        };
        v.named(Some(a.session_id), Some(a.short_id)).with_persisted(
            false,
        ).without_jobs().at_newest().said(
            "Side conversation "@ + side_short_id
                + " — a throwaway fork. `/side end` (or Esc on an empty line) to discard and return."@,
        )
    }

    /// Back in the main session, as it was, with the fork to be discarded.
    #[verifier::opaque]
    pub open spec fn side_ended(self, announce: bool) -> (AppView, EffectView) {
        match self.side {
            None => (self, EffectView::Stay),
            Some(s) => {
                let v = AppView {
                    side: None,
                    runner: s.runner,
                    history: s.history,
                    editor: EditorView { queue: s.queue, ..self.editor },
                    pending: s.pending,
                    context: ContextInfo {
                        prunable_tokens: s.prunable_tokens,
                        cache_cold: s.cache_cold,
                        ..self.context
                    },
                    elided: s.elided,
                    jobs: s.jobs,
                    pending_stop_confirm: s.pending_stop_confirm,
                    screen: Screen { scroll_offset: s.chat_scroll_offset as usize, ..self.screen },
                    project_id: s.project_id,
                    ..self
                };
                let restored = v.named(s.session_id, s.session_short_id).with_persisted(
                    s.current_session_persisted,
                );
                (
                    if announce {
                        restored.said(
                            "Side conversation discarded — back in the main session."@,
                        )
                    } else {
                        restored
                    },
                    EffectView::DiscardSession {
                        socket: s.socket,
                        session_id: s.side_session_id,
                    },
                )
            },
        }
    }
}

/// A side conversation leaves the main session as it was: entered and ended
/// without a word, it changed nothing.
pub proof fn side_conversation_leaves_no_trace(
    v: AppView,
    id: u128,
    short_id: Seq<char>,
    socket: Seq<char>,
    a: AttachedView,
)
    requires
        v.side is None,
    ensures
        v.side_entered(id, short_id, socket, a).side_ended(false).0 == v,
        v.side_entered(id, short_id, socket, a).side_ended(false).1
            == (EffectView::DiscardSession { socket, session_id: id }),
{
    reveal(AppView::side_entered);
    reveal(AppView::side_ended);
    assert(v.side_entered(id, short_id, socket, a).side_ended(false).0 =~= v);
}

/// What is said and done in a side conversation does not reach the main session:
/// whatever the fork's transcript, queue, jobs and context have become, ending
/// it brings back those that were there when it began.
pub proof fn side_conversation_is_separate(
    v: AppView,
    id: u128,
    short_id: Seq<char>,
    socket: Seq<char>,
    a: AttachedView,
    later: AppView,
)
    requires
        v.side is None,
        later.side == v.side_entered(id, short_id, socket, a).side,
    ensures
        ({
            let back = later.side_ended(false).0;
            &&& back.side is None
            &&& back.runner == v.runner
            &&& back.history == v.history
            &&& back.editor.queue == v.editor.queue
            &&& back.pending == v.pending
            &&& back.jobs == v.jobs
            &&& back.elided == v.elided
            &&& back.context.prunable_tokens == v.context.prunable_tokens
            &&& back.context.cache_cold == v.context.cache_cold
            &&& back.pending_stop_confirm == v.pending_stop_confirm
            &&& back.screen.scroll_offset == v.screen.scroll_offset
            &&& back.project_id == v.project_id
            &&& back.launch.session_id == v.launch.session_id
            &&& back.launch.session_short_id == v.launch.session_short_id
            &&& back.link.session_persisted == v.link.session_persisted
        }),
{
    reveal(AppView::side_entered);
    reveal(AppView::side_ended);
}

/// Side conversations do not nest: `/side` inside one changes nothing but a line
/// in the transcript.
pub proof fn side_conversations_do_not_nest(v: AppView, args: Seq<char>)
    requires
        v.side is Some,
        trim(args).len() == 0,
    ensures
        v.side_command(args).1 is Stay,
        v.side_command(args).0.side == v.side,
        v.side_command(args).0.runner == v.runner,
{
    reveal(AppView::side_command);
    reveal_strlit("end");
    assert(lowered(trim(args)).len() == 0);
}


// ---- Doing it -------------------------------------------------------------

impl App {
    pub(crate) fn name_session(&mut self, session_id: Option<u128>, short_id: Option<String>)
        ensures
            old(self).wf() ==> final(self).wf(),
            final(self)@ == old(self)@.named(session_id, text_of(short_id)),
    {
        let ghost v = self@;
        self.launch.session_id = session_id;
        self.launch.session_short_id = short_id;
        proof {
            assert(self@ =~= v.named(session_id, text_of(short_id)));
        }
    }

    pub(crate) fn set_persisted(&mut self, on: bool)
        ensures
            old(self).wf() ==> final(self).wf(),
            final(self)@ == old(self)@.with_persisted(on),
    {
        self.link = Link { session_persisted: on, ..self.link };
    }

    /// Jump to the newest line.
    pub fn scroll_to_newest(&mut self)
        ensures
            old(self).wf() ==> final(self).wf(),
            final(self)@ == old(self)@.at_newest(),
    {
        self.screen = Screen { scroll_offset: 0, ..self.screen };
    }

    pub(crate) fn forget_jobs(&mut self)
        ensures
            old(self).wf() ==> final(self).wf(),
            final(self)@ == old(self)@.without_jobs(),
    {
        let ghost v = self@;
        self.jobs.clear();
        self.pending_stop_confirm = None;
        proof {
            assert(self@ =~= v.without_jobs());
        }
    }

    pub(crate) fn begin_thread(&mut self)
        ensures
            old(self).wf() ==> final(self).wf(),
            final(self)@ == old(self)@.fresh_thread(),
    {
        let ghost v = self@;
        self.history = Vec::new();
        self.editor.queue = Vec::new();
        self.pending = None;
        self.context = ContextInfo { prunable_tokens: 0, ..self.context };
        self.elided = Vec::new();
        proof {
            assert(self@ =~= v.fresh_thread());
        }
    }

    pub(crate) fn set_runner(&mut self, runner: Runner)
        ensures
            old(self).wf() ==> final(self).wf(),
            final(self)@ == (AppView { runner: runner@, ..old(self)@ }),
    {
        let ghost v = self@;
        self.runner = runner;
        proof {
            assert(self@ =~= (AppView { runner: runner@, ..v }));
        }
    }

    pub(crate) fn set_project(&mut self, project_id: Option<String>)
        ensures
            old(self).wf() ==> final(self).wf(),
            final(self)@ == (AppView { project_id: text_of(project_id), ..old(self)@ }),
    {
        let ghost v = self@;
        self.project_id = project_id;
        proof {
            assert(self@ =~= (AppView { project_id: text_of(project_id), ..v }));
        }
    }

    fn attach(&mut self, a: Attached)
        ensures
            old(self).wf() ==> final(self).wf(),
            final(self)@ == old(self)@.attached_to(a@),
    {
        self.name_session(Some(a.session_id), Some(a.short_id.clone()));
        self.set_persisted(true);
        self.set_runner(
            Runner::Live {
                session_id: a.session_id,
                short_id: a.short_id,
                project_id: a.project_id,
            },
        );
    }

    fn take_handoff(&mut self) -> (r: Option<PendingCompact>)
        requires
            old(self).wf(),
        ensures
            final(self).wf(),
            compact_of(r) == old(self)@.pending_compact,
            final(self)@ == if r is Some {
                AppView { pending_compact: None, editor: old(self)@.editor.cleared(), ..old(self)@ }
            } else {
                old(self)@
            },
    {
        let ghost v = self@;
        let p: Option<PendingCompact> = self.pending_compact.take();
        if p.is_some() {
            self.editor.clear();
            proof {
                assert(self@ =~= (AppView {
                    pending_compact: None,
                    editor: v.editor.cleared(),
                    ..v
                }));
            }
        } else {
            proof {
                assert(self@ =~= v);
            }
        }
        p
    }

    pub(crate) fn add_entry(&mut self, e: HistoryEntry)
        ensures
            old(self).wf() ==> final(self).wf(),
            final(self)@ == old(self)@.with_entry(e@),
    {
        let ghost v = self@;
        push_entry(&mut self.history, e);
        proof {
            assert(self@ =~= v.with_entry(e@));
        }
    }

    /// A reviewed handoff goes to the fresh session, if it could be attached.
    pub fn commit_compact(
        &mut self,
        handoff: String,
        attached: Result<Attached, String>,
        ctx: EventContext,
    )
        requires
            old(self).wf(),
        ensures
            final(self).wf(),
            final(self)@ == old(self)@.handoff_committed(handoff@, attached_of(attached), ctx),
    {
        proof {
            reveal(AppView::handoff_committed);
        }
        let p: PendingCompact = match self.take_handoff() {
            Some(p) => p,
            None => {
                return;
            },
        };
        match attached {
            Err(e) => {
                self.say(
                    concat2("/compact: could not attach to fresh session: ", e.as_str()),
                );
            },
            Ok(a) => {
                self.begin_thread();
                self.attach(a);
                self.mark_boundary(p);
                self.add_entry(HistoryEntry::User { text: handoff, timestamp: ctx.time });
                self.begin_span(ctx.now, ctx.working_draw);
            },
        }
    }

    fn mark_boundary(&mut self, p: PendingCompact)
        ensures
            old(self).wf() ==> final(self).wf(),
            final(self)@ == (if p@.predecessor_short_id.len() == 0 {
                old(self)@
            } else {
                old(self)@.with_entry(
                    EntryView::CompactBoundary {
                        predecessor_short_id: p@.predecessor_short_id,
                        seed_tool_count: p@.seed_tool_count,
                        seed_tool_tokens: p@.seed_tool_tokens,
                    },
                )
            }).said(
                "/compact: committed — fresh session started ("@ + decimal(p@.seed_tool_count)
                    + " seed tool(s) re-running). Old session recoverable via `cockpit session resume`."@,
            ),
    {
        let mut line: String = String::from_str(
            "/compact: committed — fresh session started (",
        );
        push_decimal(&mut line, p.seed_tool_count as u64);
        line.append(
            " seed tool(s) re-running). Old session recoverable via `cockpit session resume`.",
        );
        if p.predecessor_short_id.as_str().unicode_len() > 0 {
            self.add_entry(
                HistoryEntry::CompactBoundary {
                    predecessor_short_id: p.predecessor_short_id,
                    seed_tool_count: p.seed_tool_count,
                    seed_tool_tokens: p.seed_tool_tokens,
                },
            );
        }
        self.say(line);
    }

    /// Go on in another session, if it could be attached.
    pub fn resume_session(&mut self, session_id: u128, attached: Result<Attached, String>)
        ensures
            old(self).wf() ==> final(self).wf(),
            final(self)@ == old(self)@.resumed(session_id, attached_of(attached)),
    {
        proof {
            reveal(AppView::resumed);
        }
        match attached {
            Err(e) => {
                self.say(concat2("/resume: could not attach to session: ", e.as_str()));
            },
            Ok(a) => {
                let label: String = label_of_session(a.short_id.as_str(), session_id);
                let project: String = a.project_id.clone();
                self.begin_thread();
                self.forget_jobs();
                self.scroll_to_newest();
                self.attach(a);
                self.set_project(Some(project));
                self.say(concat3("/resume: switched to session ", label.as_str(), "."));
            },
        }
    }

    /// `/side`: start a side conversation, or end it.
    pub fn handle_side_command(&mut self, args: &str) -> (r: Effect)
        requires
            old(self).wf(),
        ensures
            final(self).wf(),
            (final(self)@, r@) == old(self)@.side_command(args@),
    {
        proof {
            reveal(AppView::side_command);
        }
        let arg: String = trimmed(args);
        let low: String = trimmed_lower(args);
        if same(low.as_str(), "end") {
            if self.side.is_some() {
                return self.end_side_conversation(true);
            }
            self.say_str("/side: not in a side conversation");
            return Effect::Stay;
        }
        if arg.as_str().unicode_len() > 0 {
            self.say_str("Usage: `/side` to start, `/side end` to discard");
            return Effect::Stay;
        }
        if self.side.is_some() {
            self.say_str("/side: already in a side conversation (`/side end` to discard)");
            return Effect::Stay;
        }
        match &self.runner {
            Runner::Live { session_id, .. } => {
                if self.link.session_persisted {
                    Effect::ForkSession { session_id: *session_id }
                } else {
                    self.say_str("/side: send a message first — there's nothing to fork yet");
                    Effect::Stay
                }
            },
            _ => {
                self.say_str("/side: no active session to fork from");
                Effect::Stay
            },
        }
    }

    /// The fork for a side conversation could not be made.
    pub fn side_fork_failed(&mut self, error: &str)
        ensures
            old(self).wf() ==> final(self).wf(),
            final(self)@ == old(self)@.said("/side: could not fork: "@ + error@),
    {
        self.say(concat2("/side: could not fork: ", error));
    }

    /// The fork for a side conversation could not be attached; it is to be
    /// discarded.
    pub fn side_attach_failed(&mut self, error: &str)
        ensures
            old(self).wf() ==> final(self).wf(),
            final(self)@ == old(self)@.said("/side: could not enter side conversation: "@ + error@),
    {
        self.say(concat2("/side: could not enter side conversation: ", error));
    }

    fn save_main(&mut self, side_session_id: u128, socket: String) -> (r: SideConversation)
        ensures
            r@ == old(self)@.saved(side_session_id, socket@),
            final(self)@ == (AppView {
                runner: RunnerView::Absent,
                editor: EditorView { queue: Seq::empty(), ..old(self)@.editor },
                pending: None,
                elided: Seq::empty(),
                jobs: Seq::empty(),
                pending_stop_confirm: None,
                ..old(self)@
            }),
            old(self).wf() ==> final(self).wf(),
    {
        let ghost v = self@;
        let history: Vec<HistoryEntry> = copy_entries(&self.history);
        let mut runner: Runner = Runner::Absent;
        core::mem::swap(&mut self.runner, &mut runner);
        let mut queue: Vec<String> = Vec::new();
        core::mem::swap(&mut self.editor.queue, &mut queue);
        let mut elided: Vec<String> = Vec::new();
        core::mem::swap(&mut self.elided, &mut elided);
        let mut jobs: JobTable = JobTable::new();
        core::mem::swap(&mut self.jobs, &mut jobs);
        let pending: Option<PendingMsg> = self.pending.take();
        let pending_stop_confirm: Option<Vec<String>> = self.pending_stop_confirm.take();
        let project_id: Option<String> = self.project_id.clone();
        let session_short_id: Option<String> = self.launch.session_short_id.clone();
        let side = SideConversation {
            side_session_id,
            socket,
            runner,
            history,
            queue,
            pending,
            prunable_tokens: self.context.prunable_tokens,
            cache_cold: self.context.cache_cold,
            elided,
            jobs,
            pending_stop_confirm,
            chat_scroll_offset: self.screen.scroll_offset,
            project_id,
            session_id: self.launch.session_id,
            session_short_id,
            current_session_persisted: self.link.session_persisted,
        };
        proof {
            assert(text_of(project_id) == v.project_id);
            assert(text_of(session_short_id) == v.launch.session_short_id);
            assert(side@ =~= v.saved(side_session_id, socket@));
            assert(self@ =~= (AppView {
                runner: RunnerView::Absent,
                editor: EditorView { queue: Seq::empty(), ..v.editor },
                pending: None,
                elided: Seq::empty(),
                jobs: Seq::empty(),
                pending_stop_confirm: None,
                ..v
            }));
        }
        side
    }

    fn set_side(&mut self, side: SideConversation)
        requires
            old(self).wf(),
            in_order(side@.jobs),
        ensures
            final(self).wf(),
            final(self)@ == (AppView { side: Some(side@), ..old(self)@ }),
    {
        let ghost v = self@;
        self.side = Some(side);
        proof {
            assert(self@ =~= (AppView { side: Some(side@), ..v }));
        }
    }

    /// Switch onto the fork of a side conversation. The transcript stays visible.
    pub fn enter_side_conversation(
        &mut self,
        side_session_id: u128,
        side_short_id: &str,
        socket: String,
        a: Attached,
    )
        requires
            old(self).wf(),
        ensures
            final(self).wf(),
            final(self)@ == old(self)@.side_entered(
                side_session_id,
                side_short_id@,
                socket@,
                a@,
            ),
    {
        proof {
            reveal(AppView::side_entered);
        }
        let ghost v = self@;
        let side: SideConversation = self.save_main(side_session_id, socket);
        self.set_side(side);
        self.context = ContextInfo { prunable_tokens: 0, cache_cold: true, ..self.context };
        self.set_project(Some(a.project_id.clone()));
        self.name_session(Some(a.session_id), Some(a.short_id.clone()));
        self.set_runner(
            Runner::Live {
                session_id: a.session_id,
                short_id: a.short_id,
                project_id: a.project_id,
            },
        );
        self.set_persisted(false);
        self.scroll_to_newest();
        self.say(
            concat3(
                "Side conversation ",
                side_short_id,
                " — a throwaway fork. `/side end` (or Esc on an empty line) to discard and return.",
            ),
        );
        proof {
            assert(self@ =~= v.side_entered(side_session_id, side_short_id@, socket@, a@));
        }
    }

    fn restore_main(&mut self, side: SideConversation)
        requires
            old(self).wf(),
            in_order(side@.jobs),
        ensures
            final(self).wf(),
            final(self)@ == (AppView {
                runner: side@.runner,
                history: side@.history,
                editor: EditorView { queue: side@.queue, ..old(self)@.editor },
                pending: side@.pending,
                elided: side@.elided,
                jobs: side@.jobs,
                pending_stop_confirm: side@.pending_stop_confirm,
                project_id: side@.project_id,
                ..old(self)@
            }).named(side@.session_id, side@.session_short_id),
    {
        let ghost v = self@;
        let ghost s = side@;
        self.runner = side.runner;
        self.history = side.history;
        self.editor.queue = side.queue;
        self.pending = side.pending;
        self.elided = side.elided;
        self.jobs = side.jobs;
        self.pending_stop_confirm = side.pending_stop_confirm;
        self.project_id = side.project_id;
        proof {
            assert(self@ =~= (AppView {
                runner: s.runner,
                history: s.history,
                editor: EditorView { queue: s.queue, ..v.editor },
                pending: s.pending,
                elided: s.elided,
                jobs: s.jobs,
                pending_stop_confirm: s.pending_stop_confirm,
                project_id: s.project_id,
                ..v
            }));
        }
        self.name_session(side.session_id, side.session_short_id);
    }

    fn take_side(&mut self) -> (r: Option<SideConversation>)
        requires
            old(self).wf(),
        ensures
            final(self).wf(),
            side_of(r) == old(self)@.side,
            r is Some ==> in_order(r->0@.jobs),
            final(self)@ == (AppView { side: None, ..old(self)@ }),
    {
        let ghost v = self@;
        let r: Option<SideConversation> = self.side.take();
        proof {
            assert(self@ =~= (AppView { side: None, ..v }));
        }
        r
    }

    /// End the side conversation, if one is open. What is left to do is to
    /// discard its session.
    pub fn end_side_conversation(&mut self, announce: bool) -> (r: Effect)
        requires
            old(self).wf(),
        ensures
            final(self).wf(),
            (final(self)@, r@) == old(self)@.side_ended(announce),
    {
        proof {
            reveal(AppView::side_ended);
        }
        let ghost v = self@;
        let side: SideConversation = match self.take_side() {
            Some(s) => s,
            None => {
                proof {
                    assert(self@ =~= v);
                }
                return Effect::Stay;
            },
        };
        let ghost s = side@;
        let effect = Effect::DiscardSession {
            socket: side.socket.clone(),
            session_id: side.side_session_id,
        };
        self.context = ContextInfo {
            prunable_tokens: side.prunable_tokens,
            cache_cold: side.cache_cold,
            ..self.context
        };
        self.screen = Screen { scroll_offset: side.chat_scroll_offset, ..self.screen };
        self.set_persisted(side.current_session_persisted);
        self.restore_main(side);
        if announce {
            self.say_str("Side conversation discarded — back in the main session.");
        }
        proof {
            assert(self@ =~= v.side_ended(announce).0);
        }
        effect
    }
}

} // verus!
