//! Sending a message: what goes out, what is shown, and what happens when it
//! reaches no worker.

use vstd::prelude::*;
use crate::app::control::DispatchOutcome;
use crate::app::effect::{Draft, DraftView, Effect, EffectView};
use crate::app::events::EventContext;
use crate::app::history::{EntryView, HistoryEntry};
use crate::app::state::{App, AppView, ExpansionView, Runner, RunnerView, TOAST_TTL, TagExpansion, ToastKind, expansion_views, with_tags};
use crate::composer::VimMode;
use crate::editor::{EditorView, text_of};
use crate::paste::{byte_lists, wire_images, wire_text};
use crate::text::{concat2, concat3, copy_strings, join, joined, texts, trim, trimmed};

verus! {

/// A message with its tags expanded.
pub struct Outgoing {
    pub text: String,
    pub images: Vec<Vec<u8>>,
    /// A working span was begun for the message.
    pub owns_span: bool,
}

/// The text of a message with the waiting blocks of `git` output.
pub open spec fn with_git_blocks(wire: Seq<char>, blocks: Seq<Seq<char>>) -> Seq<char> {
    if blocks.len() == 0 {
        wire
    } else if wire.len() == 0 {
        joined(blocks, "\n\n"@)
    } else {
        wire + "\n\n"@ + joined(blocks, "\n\n"@)
    }
}

impl EditorView {
    /// The composer emptied after its text was used; with vim editing it is in
    /// `mode` then.
    pub open spec fn spent(self, mode: VimMode) -> EditorView {
        let v = EditorView {
            at_dismissed: false,
            at_selected: 0,
            at_scroll: 0,
            ..self.cleared()
        };
        if v.composer.vim_enabled {
            v.in_mode(mode)
        } else {
            v
        }
    }
}

impl AppView {
    /// The text that the composer's text goes out as.
    pub open spec fn wire(self) -> Seq<char> {
        trim(
            wire_text(
                self.editor.composer.text,
                self.editor.registry.blocks,
                self.launch.active_model_supports_images,
            ),
        )
    }

    /// The images that go out with the composer's text.
    pub open spec fn images(self) -> Seq<Seq<u8>> {
        if self.launch.active_model_supports_images {
            wire_images(self.editor.registry.blocks)
        } else {
            Seq::empty()
        }
    }

    /// The composer's text submitted. Nothing happens when there is nothing to
    /// send. A draining daemon gets nothing; the text stays where it is. A
    /// reviewed handoff goes to its own session.
    #[verifier::opaque]
    pub open spec fn submitted(self, now: u64) -> (AppView, EffectView) {
        let shown = trim(self.editor.composer.text);
        if shown.len() == 0 && self.editor.registry.blocks.len() == 0 {
            (self, EffectView::Stay)
        } else if self.wire().len() == 0 && self.images().len() == 0 {
            (self, EffectView::Stay)
        } else if self.link.draining {
            (
                self.toasted(
                    "daemon is shutting down — message not sent"@,
                    ToastKind::Error,
                    now as int,
                    TOAST_TTL as int,
                ),
                EffectView::Stay,
            )
        } else {
            match self.pending_compact {
                Some(p) => (
                    self,
                    EffectView::AttachHandoff { session_id: p.new_session_id, handoff: shown },
                ),
                None => (
                    self.at_newest(),
                    EffectView::Send(
                        DraftView {
                            shown,
                            wire: self.wire(),
                            images: self.images(),
                            tags: self.editor.accepted_tags,
                        },
                    ),
                ),
            }
        }
    }

    /// A message with its tags expanded: queued while the agent works, else shown
    /// as the user's turn, which begins a working span.
    #[verifier::opaque]
    pub open spec fn message_expanded(
        self,
        shown: Seq<char>,
        expansions: Seq<ExpansionView>,
        ctx: EventContext,
    ) -> AppView {
        let v = AppView {
            pending_git_blocks: Seq::empty(),
            editor: EditorView { accepted_tags: Seq::empty(), ..self.editor },
            ..self
        };
        if v.work.busy {
            AppView {
                editor: EditorView { queue: v.editor.queue.push(shown), ..v.editor },
                queued_tag_calls: v.queued_tag_calls + expansions,
                ..v
            }
        } else {
            let turn = v.span_drawn(ctx.now, ctx.working_draw).with_entry(
                EntryView::User { text: shown, timestamp: ctx.time },
            );
            AppView {
                history: with_tags(turn.history, expansions),
                editor: EditorView {
                    prompt_history: v.editor.prompt_history.push(shown),
                    prompt_history_cursor: 0,
                    staged_draft: None,
                    ..v.editor
                },
                ..turn
            }
        }
    }

    /// What is said when a message reached no worker.
    pub open spec fn dispatch_note(self, outcome: DispatchOutcome) -> Option<Seq<char>> {
        match outcome {
            DispatchOutcome::QueueFull => Some(
                "engine: input queue full — wait for the current turn to finish"@,
            ),
            DispatchOutcome::DriverClosed => Some("engine: driver task has exited"@),
            DispatchOutcome::RunnerFailed => Some("engine: "@ + self.runner_error()),
            _ => None,
        }
    }

    pub open spec fn runner_error(self) -> Seq<char> {
        match self.runner {
            RunnerView::Failed(e) => e,
            _ => Seq::empty(),
        }
    }

    pub open spec fn said_maybe(self, line: Option<Seq<char>>) -> AppView {
        match line {
            Some(l) => self.said(l),
            None => self,
        }
    }

    /// The working span that a message began, ended again when the message
    /// reached no worker.
    pub open spec fn span_settled(self, owns_span: bool, outcome: DispatchOutcome) -> AppView {
        if owns_span && outcome.orphaned() {
            self.span_ended()
        } else {
            self
        }
    }

    /// A message dispatched: the composer is empty again, with vim editing in
    /// Normal mode, and a working span that nothing would end is ended.
    #[verifier::opaque]
    pub open spec fn dispatched(self, owns_span: bool, outcome: DispatchOutcome) -> AppView {
        let v = if outcome is Sent {
            self.with_persisted(true)
        } else {
            self
        };
        let w = v.said_maybe(self.dispatch_note(outcome)).span_settled(owns_span, outcome);
        AppView { editor: w.editor.spent(VimMode::Normal), ..w }
    }

    /// What is said when the turn of `/init` reached no worker.
    pub open spec fn init_note(self, outcome: DispatchOutcome) -> Option<Seq<char>> {
        match outcome {
            DispatchOutcome::Sent => None,
            DispatchOutcome::QueueFull => Some(
                "/init: engine input queue full — try again in a moment"@,
            ),
            DispatchOutcome::DriverClosed => Some("/init: engine driver task has exited"@),
            DispatchOutcome::RunnerFailed => Some("/init: engine: "@ + self.runner_error()),
            DispatchOutcome::NoRunner => Some("/init: no engine runner — cannot start"@),
        }
    }

    /// The turn of `/init` dispatched: without a worker its span is ended.
    #[verifier::opaque]
    pub open spec fn init_dispatched(self, outcome: DispatchOutcome) -> AppView {
        if outcome is Sent {
            self.with_persisted(true)
        } else {
            self.said_maybe(self.init_note(outcome)).span_ended()
        }
    }
}

/// A message that no worker took leaves the agent as idle as it was: the span it
/// began is over, and the message is still in the transcript.
pub proof fn orphaned_message_leaves_no_span(
    v: AppView,
    shown: Seq<char>,
    expansions: Seq<ExpansionView>,
    ctx: EventContext,
    outcome: DispatchOutcome,
)
    requires
        !v.work.busy,
        outcome.orphaned(),
    ensures
        ({
            let after = v.message_expanded(shown, expansions, ctx).dispatched(true, outcome);
            &&& !after.work.busy
            &&& after.work.span_started_at is None
            &&& after.history.contains(EntryView::User { text: shown, timestamp: ctx.time })
        }),
{
    reveal(AppView::message_expanded);
    reveal(AppView::dispatched);
    let after = v.message_expanded(shown, expansions, ctx).dispatched(true, outcome);
    assert(after.history[v.history.len() as int] == (EntryView::User {
        text: shown,
        timestamp: ctx.time,
    }));
}

/// A message sent while the agent works never ends its span, whatever becomes
/// of the message: it is queued, and nothing of the running turn changes.
pub proof fn queued_message_keeps_the_span(
    v: AppView,
    shown: Seq<char>,
    expansions: Seq<ExpansionView>,
    ctx: EventContext,
    outcome: DispatchOutcome,
)
    requires
        v.work.busy,
    ensures
        ({
            let after = v.message_expanded(shown, expansions, ctx).dispatched(false, outcome);
            &&& after.work == v.work
            &&& after.editor.queue == v.editor.queue.push(shown)
            &&& after.pending == v.pending
        }),
{
    reveal(AppView::message_expanded);
    reveal(AppView::dispatched);
}

/// A draining daemon takes no message: what was typed stays in the composer.
pub proof fn draining_daemon_refuses(v: AppView, now: u64)
    requires
        v.link.draining,
    ensures
        v.submitted(now).1 is Stay,
        v.submitted(now).0.editor == v.editor,
        v.submitted(now).0.history == v.history,
        v.submitted(now).0.work == v.work,
{
    reveal(AppView::submitted);
}

impl App {
    /// Submit what the composer holds.
    pub fn submit_input(&mut self, now: u64) -> (r: Effect)
        requires
            old(self).wf(),
        ensures
            final(self).wf(),
            (final(self)@, r@) == old(self)@.submitted(now),
    {
        proof {
            reveal(AppView::submitted);
        }
        let text: String = self.editor.composer.text();
        let shown: String = trimmed(text.as_str());
        if shown.as_str().unicode_len() == 0 && self.editor.registry.is_empty() {
            return Effect::Stay;
        }
        let (raw, images) = self.editor.registry.build_wire(
            self.editor.composer.chars(),
            self.launch.active_model_supports_images,
        );
        let wire: String = trimmed(raw.as_str());
        proof {
            assert(byte_lists(images@) == self@.images());
            assert(byte_lists(images@).len() == images@.len());
        }
        if wire.as_str().unicode_len() == 0 && images.len() == 0 {
            return Effect::Stay;
        }
        if self.link.draining {
            self.show_toast(
                String::from_str("daemon is shutting down — message not sent"),
                ToastKind::Error,
                now,
            );
            return Effect::Stay;
        }
        match &self.pending_compact {
            Some(p) => {
                return Effect::AttachHandoff { session_id: p.new_session_id, handoff: shown };
            },
            None => {},
        }
        let tags: Vec<String> = copy_strings(&self.editor.accepted_tags);
        self.scroll_to_newest();
        Effect::Send(Draft { shown, wire, images, tags })
    }

    fn take_git_blocks(&mut self) -> (r: Vec<String>)
        ensures
            old(self).wf() ==> final(self).wf(),
            texts(r@) == old(self)@.pending_git_blocks,
            final(self)@ == (AppView {
                pending_git_blocks: Seq::empty(),
                editor: EditorView { accepted_tags: Seq::empty(), ..old(self)@.editor },
                ..old(self)@
            }),
    {
        let ghost v = self@;
        let mut blocks: Vec<String> = Vec::new();
        core::mem::swap(&mut self.pending_git_blocks, &mut blocks);
        self.editor.accepted_tags = Vec::new();
        proof {
            assert(self@ =~= (AppView {
                pending_git_blocks: Seq::empty(),
                editor: EditorView { accepted_tags: Seq::empty(), ..v.editor },
                ..v
            }));
        }
        blocks
    }

    fn queue_message(&mut self, shown: String, expansions: Vec<TagExpansion>)
        ensures
            old(self).wf() ==> final(self).wf(),
            final(self)@ == (AppView {
                editor: EditorView {
                    queue: old(self)@.editor.queue.push(shown@),
                    ..old(self)@.editor
                },
                queued_tag_calls: old(self)@.queued_tag_calls + expansion_views(expansions@),
                ..old(self)@
            }),
    {
        let ghost v = self@;
        let ghost more = expansion_views(expansions@);
        let mut expansions: Vec<TagExpansion> = expansions;
        self.editor.queue.push(shown);
        self.queued_tag_calls.append(&mut expansions);
        proof {
            assert(texts(self.editor.queue@) =~= v.editor.queue.push(shown@));
            assert(expansion_views(self.queued_tag_calls@) =~= v.queued_tag_calls + more);
            assert(self@ =~= (AppView {
                editor: EditorView { queue: v.editor.queue.push(shown@), ..v.editor },
                queued_tag_calls: v.queued_tag_calls + more,
                ..v
            }));
        }
    }

    fn note_prompt(&mut self, shown: String)
        ensures
            old(self).wf() ==> final(self).wf(),
            final(self)@ == (AppView {
                editor: EditorView {
                    prompt_history: old(self)@.editor.prompt_history.push(shown@),
                    prompt_history_cursor: 0,
                    staged_draft: None,
                    ..old(self)@.editor
                },
                ..old(self)@
            }),
    {
        let ghost v = self@;
        self.editor.prompt_history.push(shown);
        self.editor.prompt_history_cursor = 0;
        self.editor.staged_draft = None;
        proof {
            assert(texts(self.editor.prompt_history@) =~= v.editor.prompt_history.push(shown@));
            assert(self@ =~= (AppView {
                editor: EditorView {
                    prompt_history: v.editor.prompt_history.push(shown@),
                    prompt_history_cursor: 0,
                    staged_draft: None,
                    ..v.editor
                },
                ..v
            }));
        }
    }

    /// A message with its tags expanded to `wire`: show it or queue it. What is
    /// returned goes to the worker.
    pub fn send_expanded(
        &mut self,
        draft: Draft,
        wire: String,
        expansions: Vec<TagExpansion>,
        ctx: EventContext,
    ) -> (r: Outgoing)
        requires
            old(self).wf(),
        ensures
            final(self).wf(),
            final(self)@ == old(self)@.message_expanded(
                draft@.shown,
                expansion_views(expansions@),
                ctx,
            ),
            r.text@ == with_git_blocks(wire@, old(self)@.pending_git_blocks),
            byte_lists(r.images@) == draft@.images,
            r.owns_span == !old(self)@.work.busy,
    {
        proof {
            reveal(AppView::message_expanded);
        }
        let blocks: Vec<String> = self.take_git_blocks();
        let text: String = if blocks.len() == 0 {
            wire
        } else {
            let all: String = join(&blocks, "\n\n");
            if wire.as_str().unicode_len() == 0 {
                all
            } else {
                concat3(wire.as_str(), "\n\n", all.as_str())
            }
        };
        let owns_span: bool = !self.work.busy;
        if owns_span {
            self.begin_span(ctx.now, ctx.working_draw);
            self.add_entry(
                HistoryEntry::User { text: draft.shown.clone(), timestamp: ctx.time },
            );
            self.push_tag_call_entries(&expansions);
            self.note_prompt(draft.shown);
        } else {
            self.queue_message(draft.shown, expansions);
        }
        Outgoing { text, images: draft.images, owns_span }
    }

    fn runner_error_text(&self) -> (r: String)
        ensures
            r@ == self@.runner_error(),
    {
        match &self.runner {
            Runner::Failed(e) => e.clone(),
            _ => String::new(),
        }
    }

    fn dispatch_line(&self, outcome: DispatchOutcome) -> (r: Option<String>)
        ensures
            text_of(r) == self@.dispatch_note(outcome),
    {
        match outcome {
            DispatchOutcome::QueueFull => Some(
                String::from_str(
                    "engine: input queue full — wait for the current turn to finish",
                ),
            ),
            DispatchOutcome::DriverClosed => Some(
                String::from_str("engine: driver task has exited"),
            ),
            DispatchOutcome::RunnerFailed => {
                let e: String = self.runner_error_text();
                Some(concat2("engine: ", e.as_str()))
            },
            _ => None,
        }
    }

    fn init_line(&self, outcome: DispatchOutcome) -> (r: Option<String>)
        ensures
            text_of(r) == self@.init_note(outcome),
    {
        match outcome {
            DispatchOutcome::Sent => None,
            DispatchOutcome::QueueFull => Some(
                String::from_str("/init: engine input queue full — try again in a moment"),
            ),
            DispatchOutcome::DriverClosed => Some(
                String::from_str("/init: engine driver task has exited"),
            ),
            DispatchOutcome::RunnerFailed => {
                let e: String = self.runner_error_text();
                Some(concat2("/init: engine: ", e.as_str()))
            },
            DispatchOutcome::NoRunner => Some(
                String::from_str("/init: no engine runner — cannot start"),
            ),
        }
    }

    fn say_maybe(&mut self, line: Option<String>)
        ensures
            old(self).wf() ==> final(self).wf(),
            final(self)@ == old(self)@.said_maybe(text_of(line)),
    {
        match line {
            Some(l) => {
                self.say(l);
            },
            None => {},
        }
    }

    /// Empty the composer after its text was used.
    pub fn spend_input(&mut self, mode: VimMode)
        requires
            old(self).wf(),
        ensures
            final(self).wf(),
            final(self)@ == (AppView { editor: old(self)@.editor.spent(mode), ..old(self)@ }),
    {
        let ghost v = self@;
        self.editor.clear();
        self.editor.at_dismissed = false;
        self.editor.at_selected = 0;
        self.editor.at_scroll = 0;
        if self.editor.composer.vim_enabled() {
            self.editor.composer.set_vim_mode(mode);
        }
        proof {
            assert(self.editor@ =~= v.editor.spent(mode));
            assert(self@ =~= (AppView { editor: v.editor.spent(mode), ..v }));
        }
    }

    /// A message was handed to the worker, or could not be.
    pub fn submit_finished(&mut self, owns_span: bool, outcome: DispatchOutcome)
        requires
            old(self).wf(),
        ensures
            final(self).wf(),
            final(self)@ == old(self)@.dispatched(owns_span, outcome),
    {
        proof {
            reveal(AppView::dispatched);
        }
        let note: Option<String> = self.dispatch_line(outcome);
        if matches!(outcome, DispatchOutcome::Sent) {
            self.set_persisted(true);
        }
        self.say_maybe(note);
        if owns_span && outcome.span_orphaned() {
            self.end_working_span();
        }
        self.spend_input(VimMode::Normal);
    }

    /// The turn of `/init` was handed to the worker, or could not be.
    pub fn init_turn_finished(&mut self, outcome: DispatchOutcome)
        ensures
            old(self).wf() ==> final(self).wf(),
            final(self)@ == old(self)@.init_dispatched(outcome),
    {
        proof {
            reveal(AppView::init_dispatched);
        }
        if matches!(outcome, DispatchOutcome::Sent) {
            self.set_persisted(true);
            return;
        }
        let note: Option<String> = self.init_line(outcome);
        self.say_maybe(note);
        self.end_working_span();
    }
}

} // verus!
