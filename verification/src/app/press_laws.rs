//! What the keys outside the composer do.

use vstd::prelude::*;
use crate::app::command::CopyFormat;
use crate::app::commands::stop_requests;
use crate::app::copy::{JobToCopy, OriginView};
use crate::app::effect::{EffectView, InitMode, Overlay};
use crate::app::history::{EntryView, last_message};
use crate::app::prediction::{GhostView, PredictionView};
use crate::app::request::RequestView;
use crate::app::selection::selected_text;
use crate::app::session_laws::messages_are_sent_as_typed;
use crate::app::slash_laws::has_the_keys;
use crate::app::slash_run::KeyContext;
use crate::app::state::{AppView, Link, Pane, Requests, Screen, ToastKind, ToastView, Work};
use crate::app::transcript::{any_reasoning, reasoning_toggled};
use crate::context_menu::ContextMenuAction;
use crate::daemon_prompt::PromptView;
use crate::dialog::question::ResultView;
use crate::editor::{EditorView, SuggestionView};
use crate::editor_laws::types;
use crate::key::{KeyCode, KeyEvent};
use crate::text::{lemma_has_char, trim};

verus! {

/// No pane is open, and neither a question nor a menu waits for a key.
pub open spec fn undisturbed(v: AppView) -> bool {
    &&& !v.pane.open
    &&& !v.requests.prune_confirm
    &&& v.pending_stop_confirm is None
    &&& v.context_menu is None
}

/// `Ctrl+C` or `Ctrl+D` without Shift.
pub open spec fn leaves(key: KeyEvent) -> bool {
    key.ctrl && !key.shift && (key.code == KeyCode::Char('c') || key.code == KeyCode::Char('d'))
}

/// A modifier or a lock key.
pub open spec fn holds_only(key: KeyEvent) -> bool {
    key.code == KeyCode::Modifier || key.code == KeyCode::CapsLock || key.code == KeyCode::NumLock
        || key.code == KeyCode::ScrollLock
}

/// A key that means something takes the toast with it, a modifier does not.
pub open spec fn untoasted(v: AppView, key: KeyEvent) -> AppView {
    AppView {
        toast: if holds_only(key) {
            v.toast
        } else {
            None
        },
        ..v
    }
}

proof fn lemma_pressed(
    v: AppView,
    key: KeyEvent,
    ctx: KeyContext,
    suggestions: Seq<SuggestionView>,
)
    requires
        !v.pane.open,
        !leaves(key),
    ensures
        v.key_pressed(key, ctx, suggestions) == untoasted(v, key).inner_key(key, ctx, suggestions),
{
    reveal(AppView::key_pressed);
    reveal(AppView::pane_key);
    reveal(AppView::leave_key);
    assert(v.toast_dropped(key) =~= untoasted(v, key));
}

/// With a pane open, `Ctrl+X` closes it and ends its program, and `Ctrl+O` moves
/// the focus into it and out of it; the shape of the pane is kept.
pub proof fn panes_are_closed_and_focused(
    v: AppView,
    key: KeyEvent,
    ctx: KeyContext,
    suggestions: Seq<SuggestionView>,
)
    requires
        v.pane.open,
        key.ctrl,
        !key.shift,
    ensures
        ({
            let (after, effect) = v.key_pressed(key, ctx, suggestions);
            &&& key.code == KeyCode::Char('x') || key.code == KeyCode::Char('X') ==> {
                &&& effect == EffectView::TerminatePane
                &&& !after.pane.open && !after.pane.focused && !after.pane.dragging
                &&& after.pane.rect is None && after.pane.divider is None
                &&& after.pane.side == v.pane.side && after.pane.split == v.pane.split
                &&& after == (AppView { pane: after.pane, ..v })
            }
            &&& key.code == KeyCode::Char('o') || key.code == KeyCode::Char('O') ==> {
                &&& effect == EffectView::Stay
                &&& after == (AppView {
                    pane: (Pane { focused: !v.pane.focused, ..v.pane }),
                    ..v
                })
            }
        }),
{
    reveal(AppView::key_pressed);
    reveal(AppView::pane_key);
    if key.code == KeyCode::Char('x') || key.code == KeyCode::Char('X') {
        let after = v.key_pressed(key, ctx, suggestions).0;
        assert(after =~= (AppView { pane: after.pane, ..v }));
    }
}

/// `Ctrl+C` a second time within half a second leaves. Otherwise it says so, counts
/// from now on, and stops the turn of an agent that works.
pub proof fn ctrl_c_warns_then_leaves(
    v: AppView,
    key: KeyEvent,
    ctx: KeyContext,
    suggestions: Seq<SuggestionView>,
)
    requires
        !v.pane.open,
        key.ctrl,
        !key.shift,
        key.code == KeyCode::Char('c'),
        v.work.ctrl_c_armed_at is Some ==> v.work.ctrl_c_armed_at->0 <= ctx.now,
        ctx.now + 500 <= u64::MAX,
    ensures
        ({
            let (after, effect) = v.key_pressed(key, ctx, suggestions);
            let soon = v.work.ctrl_c_armed_at is Some && ctx.now <= v.work.ctrl_c_armed_at->0 + 500;
            &&& effect == if soon {
                EffectView::Quit
            } else {
                EffectView::Stay
            }
            &&& soon ==> after == (AppView {
                work: (Work { ctrl_c_armed_at: None, ..v.work }),
                ..v
            })
            &&& !soon ==> after == (AppView {
                work: (Work { ctrl_c_armed_at: Some(ctx.now), ..v.work }),
                outbox: (if v.work.busy {
                    v.outbox.push(RequestView::CancelTurn)
                } else {
                    v.outbox
                }),
                toast: Some(
                    (ToastView {
                        text: "Press ctrl+c again to exit"@,
                        kind: ToastKind::Info,
                        expires_at: ctx.now + 500,
                    }),
                ),
                ..v
            })
        }),
{
    reveal(AppView::key_pressed);
    reveal(AppView::pane_key);
    reveal(AppView::leave_key);
}

/// `Ctrl+D` leaves and changes nothing.
pub proof fn ctrl_d_leaves(
    v: AppView,
    key: KeyEvent,
    ctx: KeyContext,
    suggestions: Seq<SuggestionView>,
)
    requires
        !v.pane.open,
        key.ctrl,
        !key.shift,
        key.code == KeyCode::Char('d'),
    ensures
        v.key_pressed(key, ctx, suggestions) == (v, EffectView::Quit),
{
    reveal(AppView::key_pressed);
    reveal(AppView::pane_key);
    reveal(AppView::leave_key);
}

/// An armed `/prune` goes ahead on `y`, `Y` and Enter, and on any other key it is
/// called off.
pub proof fn prune_is_answered(
    v: AppView,
    key: KeyEvent,
    ctx: KeyContext,
    suggestions: Seq<SuggestionView>,
)
    requires
        !v.pane.open,
        v.requests.prune_confirm,
        !leaves(key),
        !holds_only(key),
    ensures
        v.key_pressed(key, ctx, suggestions).1 == EffectView::Stay,
        v.key_pressed(key, ctx, suggestions).0 == if key.code == KeyCode::Char('y') || key.code
            == KeyCode::Char('Y') || key.code == KeyCode::Enter {
            AppView {
                toast: None,
                requests: (Requests { prune_confirm: false, ..v.requests }),
                outbox: v.outbox.push(RequestView::Prune),
                ..v
            }
        } else {
            AppView {
                toast: None,
                requests: (Requests { prune_confirm: false, ..v.requests }),
                history: v.history.push((EntryView::Plain { line: "/prune: cancelled."@ })),
                ..v
            }
        },
{
    lemma_pressed(v, key, ctx, suggestions);
    reveal(AppView::inner_key);
    reveal(AppView::confirm_key);
}

/// An armed `/stop` goes ahead on `y` and `Y` alone. Each listed job that still runs
/// is asked to end, in the order of the list, and no other.
pub proof fn stop_is_answered(
    v: AppView,
    key: KeyEvent,
    ctx: KeyContext,
    suggestions: Seq<SuggestionView>,
)
    requires
        !v.pane.open,
        !v.requests.prune_confirm,
        v.pending_stop_confirm is Some,
        !leaves(key),
        !holds_only(key),
    ensures
        ({
            let (after, effect) = v.key_pressed(key, ctx, suggestions);
            let yes = key.code == KeyCode::Char('y') || key.code == KeyCode::Char('Y');
            &&& effect == EffectView::Stay
            &&& after.pending_stop_confirm is None
            &&& !yes ==> after.outbox == v.outbox && after.history == v.history.push(
                (EntryView::Plain { line: "/stop: cancelled."@ }),
            )
            &&& yes ==> {
                &&& after.outbox == v.outbox + stop_requests(v.jobs, v.pending_stop_confirm->0)
                &&& stop_requests(v.jobs, v.pending_stop_confirm->0).len() == 0 ==> after.history
                    == v.history.push((EntryView::Plain { line: "/stop: those jobs already ended."@ }))
                &&& stop_requests(v.jobs, v.pending_stop_confirm->0).len() > 0 ==> after.history
                    == v.history
            }
        }),
{
    lemma_pressed(v, key, ctx, suggestions);
    reveal(AppView::inner_key);
    reveal(AppView::confirm_key);
    reveal(AppView::stop_committed);
    let none: Seq<RequestView> = Seq::empty();
    assert(v.outbox + none =~= v.outbox);
    if stop_requests(v.jobs, v.pending_stop_confirm->0).len() == 0 {
        assert(stop_requests(v.jobs, v.pending_stop_confirm->0) =~= none);
    }
}

/// In the context menu the arrows, `k` and `j` walk round the items, Enter copies in
/// the form of the focused item, and other keys close the menu.
pub proof fn menus_are_walked(
    v: AppView,
    key: KeyEvent,
    ctx: KeyContext,
    suggestions: Seq<SuggestionView>,
)
    requires
        !v.pane.open,
        !v.requests.prune_confirm,
        v.pending_stop_confirm is None,
        v.context_menu is Some,
        v.context_menu->0.cursor < v.context_menu->0.items.len() <= usize::MAX,
        !leaves(key),
    ensures
        ({
            let (after, effect) = v.key_pressed(key, ctx, suggestions);
            let m = v.context_menu->0;
            let n = m.items.len();
            &&& key.code == KeyCode::Up || key.code == KeyCode::Char('k') ==> {
                &&& effect == EffectView::Stay
                &&& after.context_menu is Some
                &&& after.context_menu->0.items == m.items
                &&& after.context_menu->0.cursor == (if m.cursor == 0 {
                    n - 1
                } else {
                    m.cursor - 1
                })
            }
            &&& key.code == KeyCode::Down || key.code == KeyCode::Char('j') ==> {
                &&& effect == EffectView::Stay
                &&& after.context_menu is Some
                &&& after.context_menu->0.items == m.items
                &&& after.context_menu->0.cursor == (if m.cursor + 1 == n {
                    0
                } else {
                    m.cursor + 1
                })
            }
            &&& key.code == KeyCode::Esc ==> after == (AppView {
                context_menu: None,
                toast: None,
                ..v
            }) && effect == EffectView::Stay
            &&& holds_only(key) ==> after == v && effect == EffectView::Stay
            &&& key.code == KeyCode::Enter ==> {
                &&& after.context_menu is None
                &&& v.message_at(m.clicked_chat_row as int) is Some ==> effect == EffectView::Copy(
                    JobToCopy {
                        text: (v.message_at(m.clicked_chat_row as int)->0).1,
                        format: (match m.items[m.cursor as int] {
                            ContextMenuAction::CopyAsRichText => CopyFormat::Rich,
                            ContextMenuAction::CopyAsMarkdown => CopyFormat::Markdown,
                            ContextMenuAction::CopyAsPlainText => CopyFormat::Plain,
                        }),
                        origin: OriginView::Menu((v.message_at(m.clicked_chat_row as int)->0).0),
                    },
                )
                &&& v.message_at(m.clicked_chat_row as int) is None ==> effect == EffectView::Stay
                    && after.toast is Some && after.toast->0.text
                    == "No agent message to copy yet."@
            }
        }),
{
    lemma_pressed(v, key, ctx, suggestions);
    reveal(AppView::inner_key);
    reveal(AppView::confirm_key);
    reveal(AppView::menu_key);
    reveal(AppView::menu_copy);
    let w = AppView { context_menu: None, toast: None, ..v };
    assert(w.message_at(v.context_menu->0.clicked_chat_row as int) == v.message_at(
        v.context_menu->0.clicked_chat_row as int,
    ));
    if holds_only(key) {
        assert(v.key_pressed(key, ctx, suggestions).0 =~= v);
    }
    if key.code == KeyCode::Esc {
        assert(v.key_pressed(key, ctx, suggestions).0 =~= w);
    }
}

/// Esc drops a selection in the chat and nothing else.
pub proof fn esc_deselects(
    v: AppView,
    key: KeyEvent,
    ctx: KeyContext,
    suggestions: Seq<SuggestionView>,
)
    requires
        undisturbed(v),
        v.screen.selection is Some,
        key.code == KeyCode::Esc,
    ensures
        v.key_pressed(key, ctx, suggestions) == (
            (AppView { toast: None, screen: (Screen { selection: None, ..v.screen }), ..v }),
            EffectView::Stay,
        ),
{
    lemma_pressed(v, key, ctx, suggestions);
    reveal(AppView::inner_key);
    reveal(AppView::confirm_key);
    reveal(AppView::menu_key);
}

/// The prompt for the daemon: the arrows walk round its three rows, Enter starts the
/// daemon, goes on without it, or leaves, as its row says, and Esc leaves.
pub proof fn daemon_prompt_is_answered(
    v: AppView,
    key: KeyEvent,
    ctx: KeyContext,
    suggestions: Seq<SuggestionView>,
)
    requires
        undisturbed(v),
        v.screen.selection is None,
        v.daemon_prompt is Some,
        0 <= v.daemon_prompt->0.cursor < 3,
        !leaves(key),
    ensures
        ({
            let (after, effect) = v.key_pressed(key, ctx, suggestions);
            let row = v.daemon_prompt->0.cursor;
            &&& key.code == KeyCode::Up || key.code == KeyCode::Char('k') ==> {
                &&& effect == EffectView::Stay
                &&& after.daemon_prompt == Some(
                    (PromptView {
                        cursor: (if row == 0 {
                            2
                        } else {
                            row - 1
                        }),
                        ..v.daemon_prompt->0
                    }),
                )
            }
            &&& key.code == KeyCode::Down || key.code == KeyCode::Char('j') ==> {
                &&& effect == EffectView::Stay
                &&& after.daemon_prompt == Some(
                    (PromptView {
                        cursor: (if row == 2 {
                            0
                        } else {
                            row + 1
                        }),
                        ..v.daemon_prompt->0
                    }),
                )
            }
            &&& key.code == KeyCode::Enter && row == 0 ==> {
                &&& effect == EffectView::StartDaemon
                &&& after.daemon_prompt is Some
                &&& after.link == v.link
                &&& after.history == v.history
            }
            &&& key.code == KeyCode::Enter && row == 1 ==> {
                &&& effect == EffectView::OfferProviderSetup
                &&& after.daemon_prompt is None
                &&& after.link == (Link { daemonless: true, daemon_connected: true, ..v.link })
                &&& after.history == v.history.push(
                    (EntryView::Plain {
                        line:
                            "daemon: continuing without — features that need the daemon will be limited"@,
                    }),
                )
            }
            &&& key.code == KeyCode::Enter && row == 2 || key.code == KeyCode::Esc ==> {
                &&& effect == EffectView::Quit
                &&& after.link == v.link
                &&& after.history == v.history
            }
        }),
{
    lemma_pressed(v, key, ctx, suggestions);
    reveal(AppView::inner_key);
    reveal(AppView::confirm_key);
    reveal(AppView::menu_key);
    reveal(AppView::modal_key);
    reveal(AppView::prompt_key);
}

/// A question gets the keys. What it answers goes to the daemon under the id of the
/// question; dismissed, it goes there without answers. The answer to `/init` stays.
pub proof fn answers_go_to_the_daemon(v: AppView, key: KeyEvent, ctx: KeyContext,
    suggestions: Seq<SuggestionView>,
)
    requires
        undisturbed(v),
        v.screen.selection is None,
        v.daemon_prompt is None,
        v.question_dialog is Some,
        !leaves(key),
    ensures
        ({
            let (after, effect) = v.key_pressed(key, ctx, suggestions);
            let q = v.question_dialog->0;
            let asked = q.after_key(key, ctx.now as nat);
            let w = AppView { question_dialog: None, ..untoasted(v, key) };
            &&& !q.closes(key, ctx.now as nat) ==> after == (AppView {
                question_dialog: Some(asked),
                ..untoasted(v, key)
            }) && effect == EffectView::Stay
            &&& q.closes(key, ctx.now as nat) ==> after.question_dialog is None && after.editor
                == v.editor
            &&& q.closes(key, ctx.now as nat) && v.pending_init is None
                && asked.result is Some ==> effect == EffectView::Stay && match asked.result->0 {
                ResultView::Submit { interrupt_id, responses } => after == w.requesting(
                    RequestView::ResolveInterrupt { interrupt_id, responses: Some(responses) },
                ),
                ResultView::Cancel { interrupt_id } => after == w.requesting(
                    RequestView::ResolveInterrupt { interrupt_id, responses: None },
                ),
            }
            &&& q.closes(key, ctx.now as nat) && v.pending_init is Some
                && asked.result is Some ==> match asked.result->0 {
                ResultView::Submit { interrupt_id, responses } => {
                    &&& interrupt_id != v.pending_init->0.interrupt_id ==> after == w.requesting(
                        RequestView::ResolveInterrupt { interrupt_id, responses: Some(responses) },
                    )
                    &&& interrupt_id == v.pending_init->0.interrupt_id ==> after.outbox == v.outbox
                        && after.pending_init is None
                },
                ResultView::Cancel { interrupt_id } => {
                    &&& interrupt_id != v.pending_init->0.interrupt_id ==> after == w.requesting(
                        RequestView::ResolveInterrupt { interrupt_id, responses: None },
                    )
                    &&& interrupt_id == v.pending_init->0.interrupt_id ==> after.outbox == v.outbox
                        && after.pending_init is None
                },
            }
        }),
{
    lemma_pressed(v, key, ctx, suggestions);
    reveal(AppView::inner_key);
    reveal(AppView::confirm_key);
    reveal(AppView::menu_key);
    reveal(AppView::modal_key);
    reveal(AppView::question_key);
    reveal(AppView::question_resolved);
    reveal(AppView::init_chosen);
}

/// What is chosen for `/init` starts it in that way: to update the file or to write it
/// anew. Any other answer, and none, leaves the file alone.
pub proof fn init_does_what_was_chosen(v: AppView)
    requires
        v.pending_init is Some,
    ensures
        ({
            let p = v.pending_init->0;
            let w = AppView { pending_init: None, ..v };
            let left = w.said("/init: cancelled — `"@ + p.display + "` left untouched"@);
            &&& v.init_chosen(Some("update"@)) == (
                w,
                (EffectView::StartInit { display: p.display, mode: InitMode::Update }),
            )
            &&& v.init_chosen(Some("overwrite"@)) == (
                w,
                (EffectView::StartInit { display: p.display, mode: InitMode::Overwrite }),
            )
            &&& v.init_chosen(Some("cancel"@)) == (left, EffectView::Stay)
            &&& v.init_chosen(None) == (left, EffectView::Stay)
        }),
{
    reveal(AppView::init_chosen);
    reveal_strlit("update");
    reveal_strlit("overwrite");
    reveal_strlit("cancel");
    assert("update"@.len() == 6 && "update"@[0] == 'u');
    assert("cancel"@.len() == 6 && "cancel"@[0] == 'c');
    assert("overwrite"@.len() == 9);
}

/// The topmost overlay gets the keys: settings before the model picker, then the
/// statistics, the sessions, the skills, the plans and the permissions.
pub proof fn overlays_get_the_keys(
    v: AppView,
    key: KeyEvent,
    ctx: KeyContext,
    suggestions: Seq<SuggestionView>,
)
    requires
        undisturbed(v),
        v.screen.selection is None,
        v.daemon_prompt is None,
        v.question_dialog is None,
        !leaves(key),
    ensures
        ({
            let (after, effect) = v.key_pressed(key, ctx, suggestions);
            let o = v.overlays;
            let first = !o.settings && !o.model_picker && !o.stats;
            &&& o.settings ==> effect == EffectView::OverlayKey(Overlay::Settings)
            &&& !o.settings && o.model_picker ==> effect == EffectView::OverlayKey(
                Overlay::ModelPicker,
            )
            &&& !o.settings && !o.model_picker && o.stats ==> effect == EffectView::OverlayKey(
                Overlay::Stats,
            )
            &&& first && o.sessions ==> effect == EffectView::OverlayKey(Overlay::Sessions)
            &&& first && !o.sessions && o.skills ==> effect == EffectView::OverlayKey(
                Overlay::Skills,
            )
            &&& first && !o.sessions && !o.skills && o.plans ==> effect == EffectView::OverlayKey(
                Overlay::Plans,
            )
            &&& first && !o.sessions && !o.skills && !o.plans && o.permissions ==> effect
                == EffectView::OverlayKey(Overlay::Permissions)
            &&& !first || o.sessions || o.skills || o.plans || o.permissions ==> after == untoasted(
                v,
                key,
            )
            &&& first && !o.sessions && !o.skills && !o.plans && !o.permissions
                && v.context_pane is Some ==> {
                &&& effect == EffectView::Stay
                &&& after.context_pane == if key.code == KeyCode::Esc || key.code
                    == KeyCode::Char('q') {
                    None
                } else {
                    v.context_pane
                }
                &&& after.editor == v.editor
                &&& after.history == v.history
            }
        }),
{
    lemma_pressed(v, key, ctx, suggestions);
    reveal(AppView::inner_key);
    reveal(AppView::confirm_key);
    reveal(AppView::menu_key);
    reveal(AppView::modal_key);
}

/// An open overlay is seen as such, and a closed one is not.
pub proof fn overlays_open_and_close(v: AppView, o: Overlay)
    requires
        !v.covered(),
    ensures
        v.overlay_set(o, true).top_overlay() == Some(o),
        v.overlay_set(o, true).overlay_set(o, false) == v,
        v.overlay_set(o, true).covered(),
{
    assert(v.overlay_set(o, true).overlay_set(o, false) =~= v);
}

/// In the chat `Ctrl+G` asks for the editor, or says that there is none.
pub proof fn ctrl_g_edits_outside(
    v: AppView,
    key: KeyEvent,
    ctx: KeyContext,
    suggestions: Seq<SuggestionView>,
)
    requires
        has_the_keys(v),
        key.ctrl,
        key.code == KeyCode::Char('g'),
    ensures
        v.key_pressed(key, ctx, suggestions).1 == EffectView::Stay,
        v.key_pressed(key, ctx, suggestions).0 == if ctx.here.editor {
            AppView { toast: None, requests: (Requests { external_edit: true, ..v.requests }), ..v }
        } else {
            AppView {
                toast: None,
                history: v.history.push(
                    (EntryView::Plain { line: "No $EDITOR environment variable"@ }),
                ),
                ..v
            }
        },
{
    lemma_pressed(v, key, ctx, suggestions);
    lemma_shortcut(untoasted(v, key), key, ctx, suggestions);
    reveal(AppView::shortcut_key);
}

proof fn lemma_shortcut(
    v: AppView,
    key: KeyEvent,
    ctx: KeyContext,
    suggestions: Seq<SuggestionView>,
)
    requires
        has_the_keys(v),
        !(key.code is Esc) || v.screen.selection is None,
    ensures
        v.shortcut_key(key, ctx) is Some ==> v.inner_key(key, ctx, suggestions)
            == v.shortcut_key(key, ctx)->0,
        v.shortcut_key(key, ctx) is None ==> v.inner_key(key, ctx, suggestions) == v.composer_key(
            key,
            ctx,
            suggestions,
        ),
{
    reveal(AppView::inner_key);
    reveal(AppView::confirm_key);
    reveal(AppView::menu_key);
    reveal(AppView::modal_key);
}

/// `Ctrl+J` folds or unfolds reasoning, where there is any.
pub proof fn ctrl_j_folds_reasoning(
    v: AppView,
    key: KeyEvent,
    ctx: KeyContext,
    suggestions: Seq<SuggestionView>,
)
    requires
        has_the_keys(v),
        key.ctrl,
        key.code == KeyCode::Char('j'),
        any_reasoning(v.history),
    ensures
        v.key_pressed(key, ctx, suggestions) == (
            (AppView { toast: None, history: reasoning_toggled(v.history), ..v }),
            EffectView::Stay,
        ),
{
    lemma_pressed(v, key, ctx, suggestions);
    lemma_shortcut(untoasted(v, key), key, ctx, suggestions);
    reveal(AppView::shortcut_key);
}

/// `Ctrl+Shift+Y` copies the last message of the agent as rich text, and
/// `Ctrl+Shift+C` the selection.
pub proof fn copy_keys_copy(
    v: AppView,
    key: KeyEvent,
    ctx: KeyContext,
    suggestions: Seq<SuggestionView>,
)
    requires
        has_the_keys(v),
        key.ctrl,
        key.shift,
    ensures
        ({
            let (after, effect) = v.key_pressed(key, ctx, suggestions);
            &&& (key.code == KeyCode::Char('Y') || key.code == KeyCode::Char('y'))
                && v.settings.rich_text_copy && last_message(v.history) is Some ==> effect
                == EffectView::Copy(
                JobToCopy {
                    text: (last_message(v.history)->0).1,
                    format: CopyFormat::Rich,
                    origin: OriginView::LastMessage,
                },
            )
            &&& (key.code == KeyCode::Char('Y') || key.code == KeyCode::Char('y')) && !(
            v.settings.rich_text_copy && last_message(v.history) is Some) ==> effect
                == EffectView::Stay && after.toast is Some && after.history == v.history
            &&& (key.code == KeyCode::Char('C') || key.code == KeyCode::Char('c'))
                && v.screen.selection is Some && v.screen.chat_area is Some
                && v.selection_in_chat() && selected_text(
                v.grid,
                v.cont_rows,
                v.screen.chat_area->0,
                v.screen.selection->0,
            ).len() > 0 ==> effect == EffectView::Copy(
                JobToCopy {
                    text: selected_text(
                        v.grid,
                        v.cont_rows,
                        v.screen.chat_area->0,
                        v.screen.selection->0,
                    ),
                    format: CopyFormat::Plain,
                    origin: OriginView::Selection,
                },
            ) && after.screen == v.screen
            &&& (key.code == KeyCode::Char('C') || key.code == KeyCode::Char('c'))
                && v.screen.selection is None ==> effect == EffectView::Stay
        }),
{
    lemma_pressed(v, key, ctx, suggestions);
    if !(key.code is Esc) {
        lemma_shortcut(untoasted(v, key), key, ctx, suggestions);
    }
    reveal(AppView::shortcut_key);
    reveal(AppView::rich_copy);
    reveal(AppView::selection_copy);
}

/// Esc on an empty line discards a side conversation: the main session is back as it
/// was, and the fork is thrown away.
pub proof fn esc_ends_a_side_conversation(
    v: AppView,
    key: KeyEvent,
    ctx: KeyContext,
    suggestions: Seq<SuggestionView>,
)
    requires
        has_the_keys(v),
        v.screen.selection is None,
        v.editor.composer.text.len() == 0,
        v.side is Some,
        key.code == KeyCode::Esc,
        !key.ctrl,
    ensures
        ({
            let (after, effect) = v.key_pressed(key, ctx, suggestions);
            let s = v.side->0;
            &&& effect == (EffectView::DiscardSession {
                socket: s.socket,
                session_id: s.side_session_id,
            })
            &&& after.side is None
            &&& after.runner == s.runner
            &&& after.editor.queue == s.queue
            &&& after.launch.session_id == s.session_id
            &&& after.history == s.history.push(
                (EntryView::Plain {
                    line: "Side conversation discarded — back in the main session."@,
                }),
            )
        }),
{
    lemma_pressed(v, key, ctx, suggestions);
    lemma_shortcut(untoasted(v, key), key, ctx, suggestions);
    reveal(AppView::shortcut_key);
    reveal(AppView::side_ended);
}

/// Tab on an empty line takes the prediction. One of several lines that shows only
/// its first shows whole at first, and the next Tab takes it.
pub proof fn tab_takes_the_prediction(
    v: AppView,
    key: KeyEvent,
    ctx: KeyContext,
    suggestions: Seq<SuggestionView>,
)
    requires
        has_the_keys(v),
        v.editor.composer.text.len() == 0,
        v.prediction.ghost_text is Some,
        key.code == KeyCode::Tab,
        !key.ctrl,
    ensures
        ({
            let (after, effect) = v.key_pressed(key, ctx, suggestions);
            let g = v.prediction.ghost_text->0;
            let part = g.long_mode && !g.revealed && g.text.contains('\n');
            &&& effect == EffectView::Stay
            &&& part ==> after.editor == v.editor && after.prediction == (PredictionView {
                ghost_text: Some((GhostView { revealed: true, ..g })),
                ..v.prediction
            })
            &&& !part ==> {
                &&& after.prediction.cached is None && after.prediction.ghost_text is None
                &&& after.prediction.turn == v.prediction.turn
                &&& after.editor == v.editor.inserted(g.text)
            }
        }),
{
    lemma_pressed(v, key, ctx, suggestions);
    lemma_shortcut(untoasted(v, key), key, ctx, suggestions);
    reveal(AppView::shortcut_key);
    reveal(AppView::ghost_accepted);
    lemma_has_char(v.prediction.ghost_text->0.text, '\n');
}

/// A modifier alone answers nothing, closes nothing and drops nothing.
pub proof fn modifiers_alone_do_nothing(
    v: AppView,
    key: KeyEvent,
    ctx: KeyContext,
    suggestions: Seq<SuggestionView>,
)
    requires
        !v.pane.open,
        holds_only(key),
        v.question_dialog is None,
    ensures
        ({
            let (after, effect) = v.key_pressed(key, ctx, suggestions);
            &&& after.toast == v.toast
            &&& after.context_menu == v.context_menu
            &&& after.requests == v.requests
            &&& after.pending_stop_confirm == v.pending_stop_confirm
            &&& after.context_pane == v.context_pane
            &&& after.daemon_prompt == v.daemon_prompt
            &&& after.screen == v.screen
            &&& after.history == v.history
        }),
{
    lemma_pressed(v, key, ctx, suggestions);
    assert(untoasted(v, key) =~= v);
    reveal(AppView::inner_key);
    reveal(AppView::confirm_key);
    reveal(AppView::menu_key);
    reveal(AppView::modal_key);
    reveal(AppView::prompt_key);
    reveal(AppView::shortcut_key);
    reveal(AppView::composer_key);
    reveal(EditorView::pressed);
    if v.context_menu is None && !v.covered() {
        lemma_modifier_in_composer(v, key, ctx, suggestions);
    }
}

proof fn lemma_modifier_in_composer(
    v: AppView,
    key: KeyEvent,
    ctx: KeyContext,
    suggestions: Seq<SuggestionView>,
)
    requires
        holds_only(key),
    ensures
        ({
            let after = v.composer_key(key, ctx, suggestions).0;
            &&& after.toast == v.toast
            &&& after.context_menu == v.context_menu
            &&& after.requests == v.requests
            &&& after.pending_stop_confirm == v.pending_stop_confirm
            &&& after.context_pane == v.context_pane
            &&& after.daemon_prompt == v.daemon_prompt
            &&& after.screen == v.screen
            &&& after.history == v.history
        }),
{
    reveal(AppView::composer_key);
    reveal(EditorView::pressed);
}

/// A line behind `!` runs as a shell command, without the spaces around it, and the
/// composer is empty then; with nothing behind the `!` nothing runs.
pub proof fn shell_lines_run(
    v: AppView,
    key: KeyEvent,
    ctx: KeyContext,
    suggestions: Seq<SuggestionView>,
)
    requires
        has_the_keys(v),
        types(v.editor),
        key.code is Enter,
        !key.shift,
        !key.alt,
        suggestions.len() == 0,
        v.editor.composer.text.len() > 0,
        v.editor.composer.text[0] == '!',
    ensures
        ({
            let (after, effect) = v.key_pressed(key, ctx, suggestions);
            let command = trim(v.editor.composer.text.skip(1));
            &&& effect == if command.len() == 0 {
                EffectView::Stay
            } else {
                EffectView::RunShell(command)
            }
            &&& after.editor.composer.text.len() == 0
            &&& after.editor.registry.blocks.len() == 0
            &&& after.history == v.history
            &&& after.outbox == v.outbox
        }),
{
    lemma_pressed(v, key, ctx, suggestions);
    lemma_shortcut(untoasted(v, key), key, ctx, suggestions);
    reveal(AppView::shortcut_key);
    reveal(AppView::composer_key);
    reveal(AppView::completed);
    reveal(EditorView::pressed);
}

/// Enter sends what stands in the composer, unless it begins with `/` or `!`: without the
/// white space around it, and with the tags that were accepted.
pub proof fn enter_sends_the_message(
    v: AppView,
    key: KeyEvent,
    ctx: KeyContext,
    suggestions: Seq<SuggestionView>,
)
    requires
        has_the_keys(v),
        types(v.editor),
        key.code is Enter,
        !key.shift,
        !key.alt,
        suggestions.len() == 0,
        v.editor.composer.text.len() > 0,
        v.editor.composer.text[0] != '/',
        v.editor.composer.text[0] != '!',
        v.editor.registry.blocks.len() == 0,
        trim(v.editor.composer.text).len() > 0,
        !v.link.draining,
        v.pending_compact is None,
    ensures
        ({
            let (after, effect) = v.key_pressed(key, ctx, suggestions);
            &&& effect is Send
            &&& effect->Send_0.shown == trim(v.editor.composer.text)
            &&& effect->Send_0.wire == trim(v.editor.composer.text)
            &&& effect->Send_0.images.len() == 0
            &&& effect->Send_0.tags == v.editor.accepted_tags
            &&& after.editor == v.editor
            &&& after.history == v.history
            &&& after.screen.scroll_offset == 0
            &&& after.screen.selection is None
        }),
{
    lemma_pressed(v, key, ctx, suggestions);
    lemma_shortcut(untoasted(v, key), key, ctx, suggestions);
    reveal(AppView::shortcut_key);
    reveal(AppView::composer_key);
    reveal(AppView::completed);
    reveal(EditorView::pressed);
    messages_are_sent_as_typed(untoasted(v, key).deselected(), ctx.now);
}

/// A command that no name begins with is not run: Enter leaves it where it stands.
pub proof fn unknown_commands_stay(
    v: AppView,
    key: KeyEvent,
    ctx: KeyContext,
    suggestions: Seq<SuggestionView>,
)
    requires
        has_the_keys(v),
        types(v.editor),
        key.code is Enter,
        !key.shift,
        !key.alt,
        suggestions.len() == 0,
        v.editor.slash_query() is Some,
        v.editor.slash_query()->0 != "modelsettings"@,
        v.slash_ranking(ctx.here).len() == 0,
    ensures
        v.key_pressed(key, ctx, suggestions) == (
            (AppView { toast: None, screen: (Screen { selection: None, ..v.screen }), ..v }),
            EffectView::Stay,
        ),
{
    lemma_pressed(v, key, ctx, suggestions);
    lemma_shortcut(untoasted(v, key), key, ctx, suggestions);
    reveal(AppView::shortcut_key);
    reveal(AppView::composer_key);
    reveal(AppView::completed);
    reveal(EditorView::pressed);
    assert(v.editor.composer.text.len() > 0 && v.editor.composer.text[0] == '/');
}

/// What is selected is copied while both its ends lie in the chat; a selection with an end
/// in a row above or below the chat is dropped, and nothing is copied.
pub proof fn selections_outside_are_dropped(
    v: AppView,
    key: KeyEvent,
    ctx: KeyContext,
    suggestions: Seq<SuggestionView>,
)
    requires
        has_the_keys(v),
        key.ctrl,
        key.shift,
        key.code == KeyCode::Char('C') || key.code == KeyCode::Char('c'),
        v.screen.selection is Some,
        v.screen.chat_area is Some,
    ensures
        ({
            let (after, effect) = v.key_pressed(key, ctx, suggestions);
            let s = v.screen.selection->0;
            let area = v.screen.chat_area->0;
            let text = selected_text(v.grid, v.cont_rows, area, s);
            let top = area.y as int;
            let below = area.y + area.height;
            &&& s.anchor.1 < top || s.focus.1 < top || s.anchor.1 >= below || s.focus.1 >= below
                ==> effect == EffectView::Stay && after.screen.selection is None
            &&& area.x <= s.anchor.0 < area.x + area.width && area.x <= s.focus.0 < area.x
                + area.width && top <= s.anchor.1 < below && top <= s.focus.1 < below ==> {
                &&& after.screen.selection == v.screen.selection
                &&& text.len() > 0 ==> effect is Copy && effect->Copy_0.text == text
                &&& text.len() == 0 ==> effect == EffectView::Stay
            }
        }),
{
    lemma_pressed(v, key, ctx, suggestions);
    lemma_shortcut(untoasted(v, key), key, ctx, suggestions);
    reveal(AppView::shortcut_key);
    reveal(AppView::selection_copy);
}

} // verus!
