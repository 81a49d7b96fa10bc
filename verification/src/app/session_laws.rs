//! How messages are sent, and how sessions begin, go on and are left.

use vstd::prelude::*;
use crate::app::command::{CopyFormat, LlmMode, capped_lines, git_block_text, plain_text};
use crate::app::control::DispatchOutcome;
use crate::app::copy::{AttemptView, CopyAttempt, CopyOutcomeView, JobToCopy, OriginView, copy_note};
use crate::app::effect::{DraftView, EffectView};
use crate::app::events::EventContext;
use crate::app::history::{Entries, EntryView, is_spoken, last_spoken, turns_of};
use crate::app::ids::id_form;
use crate::app::life::{init_questions, launched};
use crate::app::prediction::{GhostView, PredictionRecord, PredictionView};
use crate::app::request::{RequestView, UsageKind, UsageView};
use crate::app::session::AttachedView;
use crate::app::slash::with_uses;
use crate::app::state::{AppView, ExpansionView, GuidanceView, Link, Overlays, RunnerView, Screen, Selection, Settings, ToastKind, ToastView};
use crate::app::submit::with_git_blocks;
use crate::daemon_prompt::{DaemonPaths, DaemonStatus};
use crate::launch::LaunchView;
use crate::paste::{wire_images, wire_text, wire_text_without_blocks};
use crate::text::{decimal, is_blank, joined, lemma_find_from, lemma_has_char, lowered, trim};

verus! {

/// A line that the application writes into the transcript.
pub open spec fn told(v: AppView, line: Seq<char>) -> AppView {
    AppView { history: v.history.push((EntryView::Plain { line })), ..v }
}

// ---- Messages -------------------------------------------------------------

/// A message goes out as it was typed, without the white space around it, with the tags
/// that were accepted, and the chat shows its newest line.
pub proof fn messages_are_sent_as_typed(v: AppView, now: u64)
    requires
        v.editor.registry.blocks.len() == 0,
        trim(v.editor.composer.text).len() > 0,
        !v.link.draining,
        v.pending_compact is None,
    ensures
        v.submitted(now) == (
            (AppView { screen: (Screen { scroll_offset: 0, ..v.screen }), ..v }),
            EffectView::Send(
                DraftView {
                    shown: trim(v.editor.composer.text),
                    wire: trim(v.editor.composer.text),
                    images: Seq::empty(),
                    tags: v.editor.accepted_tags,
                },
            ),
        ),
{
    reveal(AppView::submitted);
    wire_text_without_blocks(
        v.editor.composer.text,
        v.launch.active_model_supports_images,
    );
    assert(v.editor.registry.blocks =~= Seq::empty());
    assert(wire_images(v.editor.registry.blocks) =~= Seq::<Seq<u8>>::empty());
}

/// With paste blocks the text goes out with what the blocks stand for, and with the
/// images only where the model takes them.
pub proof fn blocks_go_out_in_full(v: AppView, now: u64)
    requires
        !v.link.draining,
        v.pending_compact is None,
        v.editor.registry.blocks.len() > 0,
        ({
            let vision = v.launch.active_model_supports_images;
            trim(wire_text(v.editor.composer.text, v.editor.registry.blocks, vision)).len() > 0
        }),
    ensures
        ({
            let vision = v.launch.active_model_supports_images;
            let d = v.submitted(now).1->Send_0;
            &&& v.submitted(now).1 is Send
            &&& d.shown == trim(v.editor.composer.text)
            &&& d.wire == trim(
                wire_text(v.editor.composer.text, v.editor.registry.blocks, vision),
            )
            &&& vision ==> d.images == wire_images(v.editor.registry.blocks)
            &&& !vision ==> d.images.len() == 0
            &&& d.tags == v.editor.accepted_tags
        }),
{
    reveal(AppView::submitted);
}

/// White space alone is no message: nothing is sent and nothing changes.
pub proof fn blank_messages_are_not_sent(v: AppView, now: u64)
    requires
        v.editor.registry.blocks.len() == 0,
        trim(v.editor.composer.text).len() == 0,
    ensures
        v.submitted(now) == (v, EffectView::Stay),
{
    reveal(AppView::submitted);
}

/// To a daemon that shuts down nothing is sent, and a toast says so for three seconds.
pub proof fn draining_daemons_are_told_of(v: AppView, now: u64)
    requires
        v.editor.registry.blocks.len() == 0,
        trim(v.editor.composer.text).len() > 0,
        v.link.draining,
        now + 3000 <= u64::MAX,
    ensures
        v.submitted(now) == (
            (AppView {
                toast: Some(
                    (ToastView {
                        text: "daemon is shutting down — message not sent"@,
                        kind: ToastKind::Error,
                        expires_at: now + 3000,
                    }),
                ),
                ..v
            }),
            EffectView::Stay,
        ),
{
    reveal(AppView::submitted);
    wire_text_without_blocks(
        v.editor.composer.text,
        v.launch.active_model_supports_images,
    );
    assert(v.editor.registry.blocks =~= Seq::empty());
}

/// A reviewed handoff goes to the session that was made for it.
pub proof fn handoffs_go_to_their_session(v: AppView, now: u64)
    requires
        v.editor.registry.blocks.len() == 0,
        trim(v.editor.composer.text).len() > 0,
        !v.link.draining,
        v.pending_compact is Some,
    ensures
        v.submitted(now) == (
            v,
            (EffectView::AttachHandoff {
                session_id: v.pending_compact->0.new_session_id,
                handoff: trim(v.editor.composer.text),
            }),
        ),
{
    reveal(AppView::submitted);
    wire_text_without_blocks(
        v.editor.composer.text,
        v.launch.active_model_supports_images,
    );
    assert(v.editor.registry.blocks =~= Seq::empty());
}

/// To an idle agent a message is a new turn: it stands in the transcript under the time,
/// with a line for each of its tags, it can be recalled, and the agent works from now on.
/// While the agent works it waits in the queue with its tags.
pub proof fn messages_begin_turns_or_wait(
    v: AppView,
    shown: Seq<char>,
    tags: Seq<ExpansionView>,
    ctx: EventContext,
)
    ensures
        ({
            let after = v.message_expanded(shown, tags, ctx);
            let n = v.history.len() as int;
            &&& after.pending_git_blocks.len() == 0
            &&& after.editor.accepted_tags.len() == 0
            &&& v.work.busy ==> {
                &&& after.history == v.history
                &&& after.work == v.work
                &&& after.editor.queue == v.editor.queue.push(shown)
                &&& after.editor.prompt_history == v.editor.prompt_history
                &&& after.queued_tag_calls == v.queued_tag_calls + tags
            }
            &&& !v.work.busy ==> {
                &&& after.history.len() == n + 1 + tags.len()
                &&& after.history.take(n) == v.history
                &&& after.history[n] == (EntryView::User { text: shown, timestamp: ctx.time })
                &&& forall|i: int|
                    0 <= i < tags.len() ==> #[trigger] after.history[n + 1 + i]
                        == (EntryView::Plain {
                        line: "  → "@ + tags[i].tool + "("@ + tags[i].path + ") "@ + (
                        if tags[i].ok {
                            seq!['✓']
                        } else {
                            seq!['✗']
                        }) + " "@ + tags[i].detail,
                    })
                &&& after.work.busy
                &&& after.work.span_started_at == Some(ctx.now)
                &&& after.editor.queue == v.editor.queue
                &&& after.editor.prompt_history == v.editor.prompt_history.push(shown)
                &&& after.editor.prompt_history_cursor == 0
                &&& after.editor.staged_draft is None
                &&& after.queued_tag_calls == v.queued_tag_calls
            }
        }),
{
    reveal(AppView::message_expanded);
    let after = v.message_expanded(shown, tags, ctx);
    if !v.work.busy {
        assert(after.history.take(v.history.len() as int) =~= v.history);
    }
}

/// What was sent leaves the composer empty, in vim editing in Normal mode. What reached
/// no worker is said, in words for each reason, and its span of work is over; what was
/// sent is written down by the daemon from then on.
pub proof fn dispatches_are_told(v: AppView, owns_span: bool, outcome: DispatchOutcome)
    ensures
        ({
            let after = v.dispatched(owns_span, outcome);
            let reached = outcome is Sent || outcome is NoRunner;
            &&& after.editor.composer.text.len() == 0
            &&& after.editor.registry.blocks.len() == 0
            &&& v.editor.composer.vim_enabled ==> after.editor.composer.vim_mode is Normal
            &&& after.link.session_persisted == (v.link.session_persisted || outcome is Sent)
            &&& outcome is QueueFull ==> after.history == told(
                v,
                "engine: input queue full — wait for the current turn to finish"@,
            ).history
            &&& outcome is DriverClosed ==> after.history == told(
                v,
                "engine: driver task has exited"@,
            ).history
            &&& outcome is RunnerFailed && v.runner is Failed ==> after.history == told(
                v,
                "engine: "@ + v.runner->Failed_0,
            ).history
            &&& reached ==> after.history == v.history && after.work == v.work
            &&& !reached && owns_span ==> !after.work.busy && after.work.span_started_at is None
            &&& !owns_span ==> after.work == v.work
        }),
{
    reveal(AppView::dispatched);
}

/// The turn of `/init` that reached no worker is said, and its span is over.
pub proof fn init_dispatches_are_told(v: AppView, outcome: DispatchOutcome)
    ensures
        ({
            let after = v.init_dispatched(outcome);
            &&& outcome is Sent ==> after == (AppView {
                link: (Link { session_persisted: true, ..v.link }),
                ..v
            })
            &&& !(outcome is Sent) ==> !after.work.busy && after.work.span_started_at is None
                && after.link == v.link
            &&& outcome is QueueFull ==> after.history == told(
                v,
                "/init: engine input queue full — try again in a moment"@,
            ).history
            &&& outcome is DriverClosed ==> after.history == told(
                v,
                "/init: engine driver task has exited"@,
            ).history
            &&& outcome is RunnerFailed && v.runner is Failed ==> after.history == told(
                v,
                "/init: engine: "@ + v.runner->Failed_0,
            ).history
            &&& outcome is NoRunner ==> after.history == told(
                v,
                "/init: no engine runner — cannot start"@,
            ).history
        }),
{
    reveal(AppView::init_dispatched);
}

/// The waiting blocks of `git` output follow the message, each after an empty line.
pub proof fn git_output_follows_the_message(wire: Seq<char>, a: Seq<char>, b: Seq<char>)
    ensures
        with_git_blocks(wire, Seq::empty()) == wire,
        wire.len() > 0 ==> with_git_blocks(wire, seq![a]) == wire + "\n\n"@ + a,
        wire.len() > 0 ==> with_git_blocks(wire, seq![a, b]) == wire + "\n\n"@ + a + "\n\n"@ + b,
        with_git_blocks(Seq::empty(), seq![a]) == a,
        with_git_blocks(Seq::empty(), seq![a, b]) == a + "\n\n"@ + b,
{
    reveal_with_fuel(crate::text::joined, 3);
    assert(seq![a, b].drop_last() =~= seq![a]);
    assert(seq![a].drop_last() =~= Seq::<Seq<char>>::empty());
    assert(joined(seq![a], "\n\n"@) =~= a);
    assert(joined(seq![a, b], "\n\n"@) =~= a + "\n\n"@ + b);
    assert(wire + "\n\n"@ + (a + "\n\n"@ + b) =~= wire + "\n\n"@ + a + "\n\n"@ + b);
}

// ---- Sessions -------------------------------------------------------------

/// A committed handoff is the first message of a fresh session: behind a mark of where it
/// came from, if that is known, and a line that says so. What was there before is gone
/// from the chat, and the agent works. Where the session could not be attached, the
/// transcript stays and says why.
pub proof fn handoffs_begin_a_session(
    v: AppView,
    handoff: Seq<char>,
    a: AttachedView,
    e: Seq<char>,
    ctx: EventContext,
)
    requires
        v.pending_compact is Some,
    ensures
        ({
            let p = v.pending_compact->0;
            let after = v.handoff_committed(handoff, Ok(a), ctx);
            let line = "/compact: committed — fresh session started ("@ + decimal(
                p.seed_tool_count,
            )
                + " seed tool(s) re-running). Old session recoverable via `cockpit session resume`."@;
            let said = EntryView::Plain { line };
            let first = EntryView::User { text: handoff, timestamp: ctx.time };
            let mark = EntryView::CompactBoundary {
                predecessor_short_id: p.predecessor_short_id,
                seed_tool_count: p.seed_tool_count,
                seed_tool_tokens: p.seed_tool_tokens,
            };
            &&& p.predecessor_short_id.len() == 0 ==> after.history == seq![said, first]
            &&& p.predecessor_short_id.len() > 0 ==> after.history == seq![mark, said, first]
            &&& after.pending_compact is None
            &&& after.editor.composer.text.len() == 0
            &&& after.editor.queue.len() == 0
            &&& after.runner == (RunnerView::Live {
                session_id: a.session_id,
                short_id: a.short_id,
                project_id: a.project_id,
            })
            &&& after.launch.session_id == Some(a.session_id)
            &&& after.launch.session_short_id == Some(a.short_id)
            &&& after.link.session_persisted
            &&& after.work.busy && after.work.span_started_at == Some(ctx.now)
        }),
        ({
            let after = v.handoff_committed(handoff, Err(e), ctx);
            &&& after.history == told(
                v,
                "/compact: could not attach to fresh session: "@ + e,
            ).history
            &&& after.pending_compact is None
            &&& after.runner == v.runner
            &&& after.work == v.work
        }),
{
    reveal(AppView::handoff_committed);
    let p = v.pending_compact->0;
    let after = v.handoff_committed(handoff, Ok(a), ctx);
    let line = "/compact: committed — fresh session started ("@ + decimal(p.seed_tool_count)
        + " seed tool(s) re-running). Old session recoverable via `cockpit session resume`."@;
    let said = EntryView::Plain { line };
    let first = EntryView::User { text: handoff, timestamp: ctx.time };
    let mark = EntryView::CompactBoundary {
        predecessor_short_id: p.predecessor_short_id,
        seed_tool_count: p.seed_tool_count,
        seed_tool_tokens: p.seed_tool_tokens,
    };
    if p.predecessor_short_id.len() == 0 {
        assert(after.history =~= seq![said, first]);
    } else {
        assert(after.history =~= seq![mark, said, first]);
    }
}

/// A resumed session begins with an empty chat that names it, by its short id where it
/// has one; nothing of the session before is left. One that could not be attached
/// changes nothing, and the transcript says why.
pub proof fn sessions_are_resumed(v: AppView, id: u128, a: AttachedView, e: Seq<char>)
    ensures
        ({
            let after = v.resumed(id, Ok(a));
            &&& a.short_id.len() > 0 ==> after.history == seq![
                (EntryView::Plain {
                    line: "/resume: switched to session "@ + a.short_id + "."@,
                }),
            ]
            &&& a.short_id.len() == 0 ==> after.history == seq![
                (EntryView::Plain {
                    line: "/resume: switched to session "@ + id_form(id) + "."@,
                }),
            ]
            &&& after.runner == (RunnerView::Live {
                session_id: a.session_id,
                short_id: a.short_id,
                project_id: a.project_id,
            })
            &&& after.project_id == Some(a.project_id)
            &&& after.launch.session_id == Some(a.session_id)
            &&& after.launch.session_short_id == Some(a.short_id)
            &&& after.link.session_persisted
            &&& after.editor.queue.len() == 0
            &&& after.editor.composer == v.editor.composer
            &&& after.pending is None
            &&& after.jobs.len() == 0
            &&& after.pending_stop_confirm is None
            &&& after.elided.len() == 0
            &&& after.context.prunable_tokens == 0
            &&& after.screen.scroll_offset == 0
        }),
        v.resumed(id, Err(e)) == told(v, "/resume: could not attach to session: "@ + e),
{
    reveal(AppView::resumed);
    let after = v.resumed(id, Ok(a));
    assert(after.history.len() == 1);
    assert(after.history =~= seq![after.history[0]]);
}

/// `/side` forks the session of the runner, once a message was accepted there; without
/// one it says what is missing. `/side end` ends what there is to end.
pub proof fn side_conversations_are_asked_for(v: AppView, args: Seq<char>)
    ensures
        ({
            let bare = trim(args).len() == 0;
            let end = lowered(trim(args)) == "end"@;
            &&& bare && v.side is None && v.runner is Live && v.link.session_persisted
                ==> v.side_command(args) == (
                v,
                (EffectView::ForkSession { session_id: v.runner->session_id }),
            )
            &&& bare && v.side is None && v.runner is Live && !v.link.session_persisted
                ==> v.side_command(args) == (
                told(v, "/side: send a message first — there's nothing to fork yet"@),
                EffectView::Stay,
            )
            &&& bare && v.side is None && !(v.runner is Live) ==> v.side_command(args) == (
                told(v, "/side: no active session to fork from"@),
                EffectView::Stay,
            )
            &&& bare && v.side is Some ==> v.side_command(args) == (
                told(v, "/side: already in a side conversation (`/side end` to discard)"@),
                EffectView::Stay,
            )
            &&& end && v.side is None ==> v.side_command(args) == (
                told(v, "/side: not in a side conversation"@),
                EffectView::Stay,
            )
            &&& end && v.side is Some ==> v.side_command(args).0.side is None
                && v.side_command(args).1 == (EffectView::DiscardSession {
                socket: v.side->0.socket,
                session_id: v.side->0.side_session_id,
            })
            &&& !bare && !end ==> v.side_command(args) == (
                told(v, "Usage: `/side` to start, `/side end` to discard"@),
                EffectView::Stay,
            )
        }),
{
    reveal(AppView::side_command);
    reveal(AppView::side_ended);
    reveal_strlit("end");
    assert(lowered(trim(args)).len() == trim(args).len());
}

/// In a side conversation the transcript goes on and the runner is that of the fork; it
/// has no queue, no jobs and no streamed answer of its own yet, and is not written down.
pub proof fn side_conversations_begin(
    v: AppView,
    id: u128,
    short_id: Seq<char>,
    socket: Seq<char>,
    a: AttachedView,
)
    ensures
        ({
            let after = v.side_entered(id, short_id, socket, a);
            &&& after.history == told(
                v,
                "Side conversation "@ + short_id
                    + " — a throwaway fork. `/side end` (or Esc on an empty line) to discard and return."@,
            ).history
            &&& after.side is Some
            &&& after.side->0.side_session_id == id
            &&& after.side->0.socket == socket
            &&& after.side->0.history == v.history
            &&& after.side->0.runner == v.runner
            &&& after.side->0.queue == v.editor.queue
            &&& after.side->0.jobs == v.jobs
            &&& after.runner == (RunnerView::Live {
                session_id: a.session_id,
                short_id: a.short_id,
                project_id: a.project_id,
            })
            &&& after.launch.session_id == Some(a.session_id)
            &&& after.project_id == Some(a.project_id)
            &&& after.editor.queue.len() == 0
            &&& after.jobs.len() == 0
            &&& after.pending is None
            &&& after.context.prunable_tokens == 0 && after.context.cache_cold
            &&& after.screen.scroll_offset == 0
            &&& !after.link.session_persisted
        }),
{
    reveal(AppView::side_entered);
}

/// A fresh session has an empty transcript, no queue, no jobs, no counts and no runner;
/// what is typed and what can be recalled is kept.
pub proof fn sessions_begin_empty(v: AppView, fresh: LaunchView, settings: Settings)
    ensures
        ({
            let after = v.renewed(fresh, settings);
            &&& after.history.len() == 0
            &&& after.editor.queue.len() == 0
            &&& after.editor.accepted_tags.len() == 0
            &&& after.editor.composer.text == v.editor.composer.text
            &&& after.editor.prompt_history == v.editor.prompt_history
            &&& after.editor.prompt_history_cursor == 0
            &&& after.jobs.len() == 0
            &&& after.runner is Absent
            &&& !after.link.session_persisted
            &&& !after.requests.new_session
            &&& after.pending is None
            &&& after.pending_usage.len() == 0 && after.usage_slash.len() == 0
                && after.usage_models.len() == 0 && after.usage_tags.len() == 0
            &&& after.project_id is None
            &&& after.pending_git_blocks.len() == 0
            &&& after.context.last_usage is None
            &&& after.screen.selection is None && after.screen.scroll_offset == 0
            &&& after.settings == settings
            &&& after.launch == (LaunchView { repo_status: v.launch.repo_status, ..fresh })
            &&& after.prediction.cached is None && after.prediction.ghost_text is None
        }),
{
    reveal(AppView::renewed);
    reveal(AppView::settings_reloaded);
}

/// New settings count at once: vim editing goes on and off with them, and without
/// prediction there is none.
pub proof fn settings_count_at_once(v: AppView, settings: Settings)
    ensures
        ({
            let after = v.settings_reloaded(settings);
            &&& after.settings == settings
            &&& after.editor.composer.vim_enabled == !(settings.vim is Disabled)
            &&& after.editor.composer.text == v.editor.composer.text
            &&& after.editor.composer.pos == v.editor.composer.pos
            &&& settings.vim is Disabled && v.editor.composer.vim_enabled
                ==> after.editor.composer.vim_mode is Insert
            &&& settings.predict is Off ==> after.prediction.cached is None
                && after.prediction.ghost_text is None
            &&& !(settings.predict is Off) ==> after.prediction == v.prediction
            &&& after.history == v.history
        }),
{
    reveal(AppView::settings_reloaded);
}

/// An adopted runner names the session and the project. The uses that waited for it are
/// sent in their order, the tags among them under its project.
pub proof fn runners_take_the_waiting_uses(
    v: AppView,
    a: AttachedView,
    models: Seq<(Seq<char>, u64)>,
    slash: Seq<(Seq<char>, u64)>,
    tags: Seq<(Seq<char>, u64)>,
    estimate: Option<GuidanceView>,
)
    ensures
        ({
            let after = v.adopted(a, models, slash, tags, estimate);
            let n = v.outbox.len() as int;
            &&& after.runner == (RunnerView::Live {
                session_id: a.session_id,
                short_id: a.short_id,
                project_id: a.project_id,
            })
            &&& after.project_id == Some(a.project_id)
            &&& after.launch.session_id == Some(a.session_id)
            &&& after.launch.session_short_id == Some(a.short_id)
            &&& after.pending_usage.len() == 0
            &&& after.outbox.len() == n + v.pending_usage.len()
            &&& after.outbox.take(n) == v.outbox
            &&& forall|i: int|
                0 <= i < v.pending_usage.len() ==> {
                    let u = v.pending_usage[i];
                    #[trigger] after.outbox[n + i] == RequestView::RecordUsage(
                        UsageView {
                            kind: u.kind,
                            key: u.key,
                            project_id: (if u.kind is Tag && u.project_id is None {
                                Some(a.project_id)
                            } else {
                                u.project_id
                            }),
                        },
                    )
                }
            &&& estimate is None ==> after.guidance == v.guidance
            &&& estimate is Some && estimate->0.file is Some ==> after.guidance == estimate
            &&& estimate is Some && estimate->0.system_tokens > 0 ==> after.guidance == estimate
            &&& estimate is Some && estimate->0.file is None && estimate->0.system_tokens == 0
                ==> after.guidance == v.guidance
        }),
{
    reveal(AppView::adopted);
    let after = v.adopted(a, models, slash, tags, estimate);
    assert(after.outbox.take(v.outbox.len() as int) =~= v.outbox);
}

/// A session is attached early only with a daemon of others that is connected, before
/// there is a runner, and not over the prompt for the daemon.
pub proof fn early_attaching(v: AppView)
    ensures
        v.may_attach() ==> v.runner is Absent && v.daemon_prompt is None && !v.link.daemonless
            && v.link.daemon_connected,
        v.runner is Absent && v.daemon_prompt is None && !v.link.daemonless
            && v.link.daemon_connected ==> v.may_attach(),
{
}

/// At launch a running daemon is connected. Where none runs the prompt asks, with its
/// first row in focus, and without knowing nothing is asked.
pub proof fn launch_asks_for_the_daemon(
    launch: LaunchView,
    settings: Settings,
    mode: LlmMode,
    mouse: bool,
    probe: Option<(DaemonStatus, DaemonPaths)>,
)
    ensures
        ({
            let v = launched(launch, settings, mode, mouse, probe);
            &&& v.link.daemon_connected == (probe is Some && (probe->0).0 is Running)
            &&& v.daemon_prompt is Some == (probe is Some && !((probe->0).0 is Running))
            &&& v.daemon_prompt is Some ==> v.daemon_prompt->0.status == (probe->0).0
                && v.daemon_prompt->0.cursor == 0 && v.daemon_prompt->0.chosen is None
                && v.daemon_prompt->0.error is None && v.daemon_prompt->0.pid_file
                == (probe->0).1.pid_file@ && v.daemon_prompt->0.socket == (probe->0).1.socket@
            &&& !v.link.daemonless && !v.link.draining && !v.link.session_persisted
            &&& v.launch == launch && v.settings == settings
            &&& v.context.llm_mode == mode && v.context.cache_cold
                && v.context.prunable_tokens == 0 && v.context.last_usage is None
            &&& v.requests.mouse_capture == mouse && !v.requests.new_session
                && !v.requests.external_edit && !v.requests.prune_confirm
            &&& v.history.len() == 0 && v.outbox.len() == 0 && v.jobs.len() == 0
            &&& v.runner is Absent && !v.work.busy && !v.pane.open && v.side is None
            &&& v.question_dialog is None && v.context_menu is None && v.toast is None
            &&& v.editor.composer.text.len() == 0 && v.editor.composer.vim_enabled == !(
            settings.vim is Disabled)
            &&& v.top_overlay() is None
            &&& v.pane.split.part * 2 == v.pane.split.whole
        }),
{
}

/// Closing the model picker says which model is active, with a star for a favorite. An
/// accepted choice is counted under the provider and the model.
pub proof fn chosen_models_are_told(v: AppView, fresh: LaunchView, accepted: bool)
    ensures
        ({
            let after = v.model_chosen(fresh, accepted);
            let name = (fresh.active_model->0).0 + "/"@ + (fresh.active_model->0).1;
            &&& !after.overlays.model_picker
            &&& after.launch == (LaunchView { repo_status: v.launch.repo_status, ..fresh })
            &&& fresh.active_model is None ==> after.history == told(
                v,
                "/model: no active model"@,
            ).history && after.outbox == v.outbox && after.pending_usage == v.pending_usage
            &&& fresh.active_model is Some && !fresh.active_model_is_favorite ==> after.history
                == told(v, "/model: active model is now "@ + name + ""@).history
            &&& fresh.active_model is Some && fresh.active_model_is_favorite ==> after.history
                == told(v, "/model: active model is now "@ + name + " (★)"@).history
            &&& !accepted ==> after.outbox == v.outbox && after.pending_usage == v.pending_usage
                && after.usage_models == v.usage_models
            &&& accepted && fresh.active_model is Some ==> {
                let w = AppView {
                    overlays: (Overlays { model_picker: false, ..v.overlays }),
                    launch: (LaunchView { repo_status: v.launch.repo_status, ..fresh }),
                    ..v
                };
                let counted = w.usage_recorded(
                    (UsageView { kind: UsageKind::Model, key: name, project_id: None }),
                );
                after.outbox == counted.outbox && after.pending_usage == counted.pending_usage
                    && after.usage_models == counted.usage_models
            }
        }),
{
    reveal(AppView::model_chosen);
    reveal(AppView::usage_recorded);
    let name = (fresh.active_model->0).0 + "/"@ + (fresh.active_model->0).1;
    let start = "/model: active model is now "@;
    let p = (fresh.active_model->0).0;
    let m = (fresh.active_model->0).1;
    assert(start + p + "/"@ + m + ""@ =~= start + name + ""@);
    assert(start + p + "/"@ + m + " (★)"@ =~= start + name + " (★)"@);
}

/// A use is counted at once. With a runner it goes to the daemon, without one it waits.
pub proof fn uses_are_sent_or_wait(v: AppView, u: UsageView)
    ensures
        ({
            let after = v.usage_recorded(u);
            let counts = match u.kind {
                UsageKind::Model => (v.usage_models, after.usage_models),
                UsageKind::Slash => (v.usage_slash, after.usage_slash),
                UsageKind::Tag => (v.usage_tags, after.usage_tags),
            };
            &&& counts.1 == with_uses(counts.0, u.key, 1)
            &&& !(u.kind is Model) ==> after.usage_models == v.usage_models
            &&& !(u.kind is Slash) ==> after.usage_slash == v.usage_slash
            &&& !(u.kind is Tag) ==> after.usage_tags == v.usage_tags
            &&& v.runner is Live ==> after.outbox == v.outbox.push(RequestView::RecordUsage(u))
                && after.pending_usage == v.pending_usage
            &&& !(v.runner is Live) ==> after.outbox == v.outbox && after.pending_usage
                == v.pending_usage.push(u)
        }),
{
    reveal(AppView::usage_recorded);
}

// ---- Commands of the shell and `/init` -------------------------------------

/// A local command that has run stands in the transcript with its label, whether it
/// failed, and its output without control sequences, and the chat shows it.
pub proof fn local_commands_are_shown(
    v: AppView,
    label: Seq<char>,
    raw: Seq<char>,
    failed: bool,
    args: Seq<char>,
    capped: Seq<char>,
)
    ensures
        v.command_ran(label, raw, failed) == (AppView {
            history: v.history.push(
                (EntryView::LocalCommand { label, output: capped_lines(plain_text(raw)), failed }),
            ),
            screen: (Screen { scroll_offset: 0, ..v.screen }),
            ..v
        }),
        v.git_ran(args, raw, failed, capped) == (AppView {
            history: v.history.push(
                (EntryView::LocalCommand {
                    label: "/git "@ + trim(args),
                    output: capped_lines(plain_text(raw)),
                    failed,
                }),
            ),
            screen: (Screen { scroll_offset: 0, ..v.screen }),
            pending_git_blocks: v.pending_git_blocks.push(git_block_text(trim(args), capped)),
            ..v
        }),
{
}

/// `/init` looks for the named file, or for the usual one, unless a turn is running. Its
/// turn stands in the transcript as a message of the user, and the agent works.
pub proof fn init_begins_a_turn(v: AppView, display: Seq<char>, ctx: EventContext)
    ensures
        v.work.busy ==> v.init_command(display) == (
            told(v, "/init: a turn is already running — wait for it to finish"@),
            EffectView::Stay,
        ),
        !v.work.busy && trim(display).len() == 0 ==> v.init_command(display) == (
            v,
            EffectView::FindInitTarget(None),
        ),
        !v.work.busy && trim(display).len() > 0 ==> v.init_command(display) == (
            v,
            EffectView::FindInitTarget(Some(trim(display))),
        ),
        ({
            let after = v.init_begun(display, ctx);
            &&& after.history == v.history.push(
                (EntryView::User { text: "/init "@ + display, timestamp: ctx.time }),
            )
            &&& after.work.busy && after.work.span_started_at == Some(ctx.now)
            &&& after.screen.scroll_offset == 0
            &&& after.editor == v.editor
        }),
{
}

/// For a file that is there `/init` asks one question with three answers.
pub proof fn init_asks_before_writing(
    v: AppView,
    display: Seq<char>,
    id: u128,
    lockout: u64,
    now: u64,
)
    ensures
        ({
            let after = v.init_asked(display, id, lockout, now);
            let q = after.question_dialog->0;
            &&& after.question_dialog is Some
            &&& q.interrupt_id == id && after.pending_init is Some
                && after.pending_init->0.interrupt_id == id
            &&& after.pending_init->0.display == display
            &&& q.questions.len() == 1
            &&& q.questions[0].kind is Select
            &&& q.questions[0].prompt == "`"@ + display
                + "` already exists — how should /init proceed?"@
            &&& q.questions[0].options.len() == 3
            &&& q.questions[0].options[0].id == "update"@
            &&& q.questions[0].options[0].label == "Update in place"@
            &&& q.questions[0].options[1].id == "overwrite"@
            &&& q.questions[0].options[1].label == "Overwrite from scratch"@
            &&& q.questions[0].options[2].id == "cancel"@
            &&& q.questions[0].options[2].label == "Cancel"@
            &&& q.state.page == 0 && q.state.cursor == 0 && !q.state.typing
            &&& q.state.created_at == now && q.state.lockout == lockout
            &&& q.result is None
        }),
{
    reveal(AppView::init_asked);
    reveal(AppView::interrupted);
    let q = v.init_asked(display, id, lockout, now).question_dialog->0;
    assert(q.questions == init_questions(display));
    assert(init_questions(display).len() == 1);
    let options = init_questions(display)[0].options;
    assert(options.len() == 3);
    assert(options[0].id == "update"@ && options[1].id == "overwrite"@ && options[2].id
        == "cancel"@);
    assert(q.state.typing == q.questions[0].kind is Text);
}

// ---- Predictions ----------------------------------------------------------

/// A prediction for this turn shows in an empty composer, and is kept while something is
/// typed; in long mode only its first line shows at first.
pub proof fn predictions_show(v: PredictionView, text: Seq<char>, long_mode: bool, empty: bool)
    ensures
        ({
            let after = v.with_result(v.turn, Some(text), long_mode, empty);
            &&& after.turn == v.turn
            &&& after.cached == Some((PredictionRecord { turn: v.turn, text, long_mode }))
            &&& empty ==> after.ghost_text == Some(
                (GhostView { text, long_mode, revealed: false }),
            )
            &&& !empty ==> after.ghost_text == v.ghost_text
        }),
        v.with_result(v.turn, None, long_mode, empty) == v,
        v.next_turn().cached is None && v.next_turn().ghost_text is None,
        v.turn < u64::MAX ==> v.next_turn().turn == v.turn + 1,
        v.next_turn().turn != v.turn,
        v.dropped().cached is None && v.dropped().ghost_text is None && v.dropped().turn == v.turn,
{
}

/// What shows of a prediction is its beginning: all of it, or in long mode the first of
/// several lines until it is unfolded.
pub proof fn ghosts_show_their_beginning(g: GhostView)
    ensures
        ({
            let n = g.shown().len() as int;
            &&& g.shown() == g.text.take(n)
            &&& g.revealed || !g.long_mode || !g.text.contains('\n') ==> n == g.text.len()
            &&& !g.revealed && g.long_mode && g.text.contains('\n') ==> n < g.text.len()
                && g.text[n] == '\n' && !g.shown().contains('\n')
        }),
{
    lemma_has_char(g.text, '\n');
    lemma_find_from(g.text, '\n', 0);
    assert(g.text.take(g.text.len() as int) =~= g.text);
}

/// A message is predicted only where that is set and an agent has said something.
pub proof fn predictions_need_an_answer(v: AppView, i: int)
    requires
        0 <= i < turns_of(v.history).turns.len(),
    ensures
        v.settings.predict is Off ==> !v.predictable(),
        !(v.settings.predict is Off) && !is_blank(turns_of(v.history).turns[i].agent)
            ==> v.predictable(),
{
}

// ---- Copies ---------------------------------------------------------------

/// `s[i]` is the last message of an agent with text among the first `n` entries.
pub open spec fn spoken_last(s: Entries, n: int, i: int) -> bool {
    &&& 0 <= i < n <= s.len()
    &&& s[i] is Agent && !is_blank(s[i]->Agent_text)
    &&& forall|j: int|
        i < j < n ==> !((#[trigger] s[j]) is Agent && !is_blank(s[j]->Agent_text))
}

proof fn lemma_spoken(s: Entries, n: int)
    requires
        0 <= n <= s.len(),
    ensures
        last_spoken(s, n) >= 0 ==> spoken_last(s, n, last_spoken(s, n)),
        last_spoken(s, n) < 0 ==> forall|j: int|
            0 <= j < n ==> !((#[trigger] s[j]) is Agent && !is_blank(s[j]->Agent_text)),
    decreases n,
{
    if n > 0 && !is_spoken(s[n - 1]) {
        lemma_spoken(s, n - 1);
    }
}

proof fn lemma_form_words()
    ensures
        ""@.len() == 0,
        "markdown"@.len() == 8 && "markdown"@[0] == 'm',
        "plain"@.len() == 5,
        "plaintext"@.len() == 9,
        "rich"@.len() == 4,
        "richtext"@.len() == 8 && "richtext"@[0] == 'r',
{
    reveal_strlit("");
    reveal_strlit("markdown");
    reveal_strlit("plain");
    reveal_strlit("plaintext");
    reveal_strlit("rich");
    reveal_strlit("richtext");
}

/// `/copy` copies the last message of an agent that has text, as markdown unless another
/// form is named.
pub proof fn last_messages_are_copied(v: AppView, args: Seq<char>, i: int, now: u64)
    requires
        spoken_last(v.history, v.history.len() as int, i),
    ensures
        trim(args).len() == 0 || lowered(trim(args)) == "markdown"@ ==> v.copy_command(args, now)
            == (
            v,
            Some(
                JobToCopy {
                    text: v.history[i]->Agent_text,
                    format: CopyFormat::Markdown,
                    origin: OriginView::Command,
                },
            ),
        ),
        lowered(trim(args)) == "plain"@ ==> v.copy_command(args, now) == (
            v,
            Some(
                JobToCopy {
                    text: v.history[i]->Agent_text,
                    format: CopyFormat::Plain,
                    origin: OriginView::Command,
                },
            ),
        ),
        lowered(trim(args)) == "rich"@ ==> v.copy_command(args, now) == (
            v,
            Some(
                JobToCopy {
                    text: v.history[i]->Agent_text,
                    format: CopyFormat::Rich,
                    origin: OriginView::Command,
                },
            ),
        ),
        v.settings.rich_text_copy ==> v.rich_copy(now) == (
            v,
            Some(
                JobToCopy {
                    text: v.history[i]->Agent_text,
                    format: CopyFormat::Rich,
                    origin: OriginView::LastMessage,
                },
            ),
        ),
{
    reveal(AppView::copy_command);
    reveal(AppView::rich_copy);
    lemma_spoken(v.history, v.history.len() as int);
    lemma_form_words();
    if trim(args).len() == 0 {
        assert(lowered(trim(args)) =~= ""@);
    }
}

/// Where no agent has said anything there is nothing to copy, and a toast says so.
pub proof fn nothing_to_copy_is_told(v: AppView, now: u64)
    requires
        forall|j: int|
            0 <= j < v.history.len() ==> !((#[trigger] v.history[j]) is Agent && !is_blank(
                v.history[j]->Agent_text,
            )),
        now + 3000 <= u64::MAX,
    ensures
        v.copy_command(Seq::empty(), now).1 is None,
        v.copy_command(Seq::empty(), now).0.toast == Some(
            (ToastView {
                text: "No response to copy yet."@,
                kind: ToastKind::Info,
                expires_at: now + 3000,
            }),
        ),
        v.settings.rich_text_copy ==> v.rich_copy(now).1 is None && v.rich_copy(now).0.toast
            == Some(
            (ToastView {
                text: "No agent message to copy yet."@,
                kind: ToastKind::Info,
                expires_at: now + 3000,
            }),
        ),
        !v.settings.rich_text_copy ==> v.rich_copy(now).1 is None && v.rich_copy(now).0.toast
            == Some(
            (ToastView {
                text: "Rich-text copy is disabled (toggle in /settings → ui)."@,
                kind: ToastKind::Info,
                expires_at: now + 3000,
            }),
        ),
{
    reveal(AppView::copy_command);
    reveal(AppView::rich_copy);
    lemma_spoken(v.history, v.history.len() as int);
    lemma_form_words();
    let none: Seq<char> = Seq::empty();
    assert(trim(none).len() == 0);
    assert(lowered(trim(none)) =~= ""@);
}

/// Markdown is copied as it is, plain text without its markup, but a selection as it is;
/// rich text that cannot be copied over SSH is copied as it is after all.
pub proof fn copies_are_tried(job: JobToCopy, e: Seq<char>)
    ensures
        job.format is Markdown ==> job.first_attempt() is Text,
        job.format is Rich ==> job.first_attempt() is Rich,
        job.format is Plain && job.origin is Selection ==> job.first_attempt() is Text,
        job.format is Plain && !(job.origin is Selection) ==> job.first_attempt() is Stripped,
        job.settled(job.first_attempt(), AttemptView::Done) == Some(CopyOutcomeView::Done),
        job.settled(job.first_attempt(), AttemptView::Failed(e)) == Some(
            CopyOutcomeView::Failed(e),
        ),
        job.format is Rich ==> job.settled(
            job.first_attempt(),
            AttemptView::UnsupportedOverSsh(e),
        ) is None && job.settled(CopyAttempt::Text, AttemptView::Done) == Some(
            CopyOutcomeView::PlainOverSsh,
        ),
        !(job.format is Rich) ==> job.settled(
            job.first_attempt(),
            AttemptView::UnsupportedOverSsh(e),
        ) == Some(CopyOutcomeView::Failed(e)),
{
}

/// What is said after a copy names what was copied and in which form.
pub proof fn copies_are_told(text: Seq<char>, title: Seq<char>, format: CopyFormat, e: Seq<char>)
    ensures
        ({
            let menu = JobToCopy { text, format, origin: OriginView::Menu(title) };
            let command = JobToCopy { text, format, origin: OriginView::Command };
            let selection = JobToCopy { text, format, origin: OriginView::Selection };
            let last = JobToCopy { text, format, origin: OriginView::LastMessage };
            let form = match format {
                CopyFormat::Rich => " as rich text."@,
                CopyFormat::Markdown => " as markdown."@,
                CopyFormat::Plain => " as plain text."@,
            };
            &&& copy_note(menu, CopyOutcomeView::Done) == "Copied "@ + title + form
            &&& copy_note(command, CopyOutcomeView::Done) == match format {
                CopyFormat::Rich => "Copied last response (rich)."@,
                CopyFormat::Markdown => "Copied last response (markdown)."@,
                CopyFormat::Plain => "Copied last response (plain)."@,
            }
            &&& copy_note(selection, CopyOutcomeView::Done) == "Copied "@ + decimal(text.len())
                + " chars to clipboard."@
            &&& copy_note(last, CopyOutcomeView::Done) == "Copied last agent message as rich text."@
            &&& copy_note(menu, CopyOutcomeView::Failed(e)) == "Copy failed: "@ + e
            &&& copy_note(selection, CopyOutcomeView::Failed(e)) == "Copy failed: "@ + e
            &&& copy_note(command, CopyOutcomeView::Failed(e)) == "Copy failed: "@ + e
            &&& copy_note(last, CopyOutcomeView::Failed(e)) == "Copy failed: "@ + e
            &&& copy_note(menu, CopyOutcomeView::PlainOverSsh) == "SSH — copied "@ + title
                + " as plain text (rich-text unavailable over SSH)."@
            &&& copy_note(command, CopyOutcomeView::PlainOverSsh)
                == "SSH — copied last response as plain text (rich copy unavailable over SSH)."@
            &&& copy_note(last, CopyOutcomeView::PlainOverSsh)
                == "SSH — copied as plain text (rich-text unavailable over SSH)."@
        }),
{
}

/// A copy shows what came of it for three seconds, as an error where it failed, and a
/// selection that was copied is dropped.
pub proof fn copies_show_a_toast(v: AppView, job: JobToCopy, outcome: CopyOutcomeView, now: u64)
    requires
        now + 3000 <= u64::MAX,
    ensures
        ({
            let after = v.copied(job, outcome, now);
            &&& after.toast is Some && after.toast->0.text == copy_note(job, outcome)
            &&& after.toast->0.expires_at == now + 3000
            &&& outcome is Failed ==> after.toast->0.kind is Error
            &&& !(outcome is Failed) ==> !(after.toast->0.kind is Error)
            &&& job.origin is Selection && !(outcome is Failed) ==> after.screen.selection is None
            &&& !(job.origin is Selection) || outcome is Failed ==> after.screen == v.screen
        }),
{
}

} // verus!
