//! What holds of every key.

use vstd::prelude::*;
use crate::app::control::CTRL_C_EXIT_WINDOW;
use crate::app::effect::EffectView;
use crate::app::request::RequestView;
use crate::app::slash_run::KeyContext;
use crate::app::state::AppView;
use crate::editor::SuggestionView;
use crate::key::{KeyCode, KeyEvent};

verus! {

impl AppView {
    /// Something lies over the chat and takes the keys.
    pub open spec fn covered(self) -> bool {
        self.context_menu is Some || self.daemon_prompt is Some || self.question_dialog is Some
            || self.top_overlay() is Some || self.context_pane is Some
    }
}

/// No key leaks from a dialog, an overlay or a menu into the composer below it.
pub proof fn covered_composer_gets_no_keys(
    v: AppView,
    key: KeyEvent,
    ctx: KeyContext,
    suggestions: Seq<SuggestionView>,
)
    requires
        v.covered(),
    ensures
        v.key_pressed(key, ctx, suggestions).0.editor == v.editor,
{
    reveal(AppView::key_pressed);
    reveal(AppView::pane_key);
    reveal(AppView::leave_key);
    if v.pane_key(key) is None && v.leave_key(key, ctx.now) is None {
        lemma_covered_inner(v.toast_dropped(key), key, ctx, suggestions);
    }
}

proof fn lemma_covered_inner(
    v: AppView,
    key: KeyEvent,
    ctx: KeyContext,
    suggestions: Seq<SuggestionView>,
)
    requires
        v.covered(),
    ensures
        v.inner_key(key, ctx, suggestions).0.editor == v.editor,
{
    reveal(AppView::inner_key);
    reveal(AppView::confirm_key);
    reveal(AppView::stop_committed);
    if v.confirm_key(key) is None {
        lemma_menu_editor(v, key, ctx.now);
        lemma_modal_editor(v, key, ctx.now);
        reveal(AppView::menu_key);
        reveal(AppView::modal_key);
    }
}

proof fn lemma_menu_editor(v: AppView, key: KeyEvent, now: u64)
    ensures
        v.menu_key(key, now) is Some ==> (v.menu_key(key, now)->0).0.editor == v.editor,
{
    reveal(AppView::menu_key);
    reveal(AppView::menu_copy);
}

proof fn lemma_modal_editor(v: AppView, key: KeyEvent, now: u64)
    ensures
        v.modal_key(key, now) is Some ==> (v.modal_key(key, now)->0).0.editor == v.editor,
{
    reveal(AppView::modal_key);
    reveal(AppView::prompt_key);
    reveal(AppView::question_key);
    reveal(AppView::question_resolved);
    reveal(AppView::init_chosen);
}

/// A program in a focused pane gets every key but the two that are reserved, and
/// the application does not change.
pub proof fn focused_pane_gets_the_keys(
    v: AppView,
    key: KeyEvent,
    ctx: KeyContext,
    suggestions: Seq<SuggestionView>,
)
    requires
        v.pane.open,
        v.pane.focused,
        !key.ctrl_letter('x', 'X'),
        !key.ctrl_letter('o', 'O'),
    ensures
        v.key_pressed(key, ctx, suggestions) == (v, EffectView::ForwardToPane),
{
    reveal(AppView::key_pressed);
    reveal(AppView::pane_key);
}

/// Unless a pane takes it, `Ctrl+D` leaves whatever is open, and so does a second
/// `Ctrl+C` soon after the first.
pub proof fn leaving_always_works(
    v: AppView,
    key: KeyEvent,
    ctx: KeyContext,
    suggestions: Seq<SuggestionView>,
)
    requires
        v.pane_key(key) is None,
        key.ctrl,
        !key.shift,
        key.code == KeyCode::Char('d') || key.code == KeyCode::Char('c')
            && v.work.ctrl_c_armed_at is Some && v.work.ctrl_c_armed_at->0 <= ctx.now && ctx.now
            - v.work.ctrl_c_armed_at->0 <= CTRL_C_EXIT_WINDOW,
    ensures
        v.key_pressed(key, ctx, suggestions).1 is Quit,
{
    reveal(AppView::key_pressed);
    reveal(AppView::pane_key);
    reveal(AppView::leave_key);
}

/// An armed `/prune` is answered by the next key that neither the pane nor the
/// keys that leave take, and that key does nothing else: it reaches neither the
/// menus nor the composer.
pub proof fn armed_prune_takes_one_key(
    v: AppView,
    key: KeyEvent,
    ctx: KeyContext,
    suggestions: Seq<SuggestionView>,
)
    requires
        v.requests.prune_confirm,
        v.pane_key(key) is None,
        v.leave_key(key, ctx.now) is None,
        !key.only_modifier(),
    ensures
        ({
            let (after, effect) = v.key_pressed(key, ctx, suggestions);
            &&& !after.requests.prune_confirm
            &&& after.editor == v.editor
            &&& effect is Stay
            &&& (after.outbox == v.outbox.push(RequestView::Prune)) == (AppView::says_yes(key)
                || key.code is Enter)
        }),
{
    reveal(AppView::key_pressed);
    reveal(AppView::pane_key);
    reveal(AppView::leave_key);
    reveal(AppView::inner_key);
    reveal(AppView::confirm_key);
    let w = v.toast_dropped(key);
    if !(AppView::says_yes(key) || key.code is Enter) {
        assert(w.prune_cancelled().outbox.len() == v.outbox.len());
        assert(v.outbox.push(RequestView::Prune).len() == v.outbox.len() + 1);
    }
}

} // verus!
