//! What the keys do. A key goes to the first of several layers that takes it:
//! the pane, the keys that leave, a question that waits for an answer, the
//! context menu, the dialogs and overlays, the shortcuts, and at last the
//! composer.

use vstd::prelude::*;
use crate::app::control::{CTRL_C_EXIT_WINDOW, ctrl_c};
use crate::app::effect::{Effect, EffectView, Overlay, copy_effect, copying};
use crate::app::prediction::{GhostView, PredictionView};
use crate::app::request::{Request, RequestView, UsageKind, UsageView};
use crate::app::slash::{Availability, SlashCommand, command_names, names_of, ranking, slash_matches};
use crate::app::slash_run::KeyContext;
use crate::app::state::{App, AppView, Link, Pane, Requests, Screen, prompt_of, question_of};
use crate::app::transcript::{any_reasoning, reasoning_toggled, scan_reasoning, toggle_recent_reasoning};
use crate::composer::VimMode;
use crate::context_menu::{ContextMenu, menu_of};
use crate::daemon_prompt::{DaemonChoice, DaemonPromptDialog, PromptView};
use crate::dialog::question::{QuestionDialog, QuestionResult, ResolveResponse, ResponseView, ResultView, response_views};
use crate::editor::{EditorAction, EditorActionView, Suggestion, SuggestionView, suggestion_views, text_of};
use crate::key::{KeyCode, KeyEvent, is_ctrl_shift_c, is_ctrl_shift_y, is_modifier_only, is_pane_focus_toggle, is_pane_force_close};
use crate::nav::{min_int, min_usize};
use crate::text::{concat2, decimal, from_range, push_decimal, same, trim, trimmed};

verus! {

impl AppView {
    pub open spec fn with_screen(self, screen: Screen) -> AppView {
        AppView { screen, ..self }
    }

    pub open spec fn deselected(self) -> AppView {
        self.with_screen(Screen { selection: None, ..self.screen })
    }

    // ---- The pane ---------------------------------------------------------

    /// While a pane is open, `Ctrl+X` closes it and `Ctrl+O` moves the focus. All
    /// other keys go to the program in a focused pane.
    #[verifier::opaque]
    pub open spec fn pane_key(self, key: KeyEvent) -> Option<(AppView, EffectView)> {
        if !self.pane.open {
            None
        } else if key.ctrl_letter('x', 'X') {
            Some((self.pane_closed(), EffectView::TerminatePane))
        } else if key.ctrl_letter('o', 'O') {
            Some(
                (
                    AppView { pane: Pane { focused: !self.pane.focused, ..self.pane }, ..self },
                    EffectView::Stay,
                ),
            )
        } else if self.pane.focused {
            Some((self, EffectView::ForwardToPane))
        } else {
            None
        }
    }

    // ---- Leaving ----------------------------------------------------------

    /// `Ctrl+C` and `Ctrl+D`, without Shift.
    #[verifier::opaque]
    pub open spec fn leave_key(self, key: KeyEvent, now: u64) -> Option<(AppView, EffectView)> {
        if key.ctrl && !key.shift && key.code == KeyCode::Char('c') {
            let leaves = ctrl_c(
                now as int,
                self.work.ctrl_c_armed_at,
                CTRL_C_EXIT_WINDOW as int,
                self.work.busy,
            ).0 is Exit;
            Some(
                (
                    self.ctrl_c_pressed(now),
                    if leaves {
                        EffectView::Quit
                    } else {
                        EffectView::Stay
                    },
                ),
            )
        } else if key.ctrl && !key.shift && key.code == KeyCode::Char('d') {
            Some((self, EffectView::Quit))
        } else {
            None
        }
    }

    /// A toast goes with the next key.
    pub open spec fn toast_dropped(self, key: KeyEvent) -> AppView {
        if key.only_modifier() {
            self
        } else {
            AppView { toast: None, ..self }
        }
    }

    // ---- Questions that wait for one key ----------------------------------

    pub open spec fn says_yes(key: KeyEvent) -> bool {
        key.code == KeyCode::Char('y') || key.code == KeyCode::Char('Y')
    }

    /// An armed `/prune` or `/stop` takes the next key as its answer.
    #[verifier::opaque]
    pub open spec fn confirm_key(self, key: KeyEvent) -> Option<AppView> {
        if key.only_modifier() {
            None
        } else if self.requests.prune_confirm {
            Some(
                if AppView::says_yes(key) || key.code is Enter {
                    self.prune_committed()
                } else {
                    self.prune_cancelled()
                },
            )
        } else if self.pending_stop_confirm is Some {
            Some(
                if AppView::says_yes(key) {
                    self.stop_committed()
                } else {
                    self.stop_cancelled()
                },
            )
        } else {
            None
        }
    }

    // ---- The context menu -------------------------------------------------

    pub open spec fn menu_closed(self) -> AppView {
        AppView { context_menu: None, ..self }
    }

    /// The context menu takes all keys while it is open: arrows move, Enter
    /// chooses, anything else closes it.
    #[verifier::opaque]
    pub open spec fn menu_key(self, key: KeyEvent, now: u64) -> Option<(AppView, EffectView)> {
        match self.context_menu {
            None => None,
            Some(m) => Some(
                if key.code is Up || key.code == KeyCode::Char('k') {
                    (AppView { context_menu: Some(m.moved(true)), ..self }, EffectView::Stay)
                } else if key.code is Down || key.code == KeyCode::Char('j') {
                    (AppView { context_menu: Some(m.moved(false)), ..self }, EffectView::Stay)
                } else if key.code is Enter {
                    match m.focused() {
                        Some(action) => {
                            let c = self.menu_closed().menu_copy(action, m.clicked_chat_row, now);
                            (c.0, copying(c.1))
                        },
                        None => (self.menu_closed(), EffectView::Stay),
                    }
                } else if key.only_modifier() {
                    (self, EffectView::Stay)
                } else {
                    (self.menu_closed(), EffectView::Stay)
                },
            ),
        }
    }

    // ---- Dialogs and overlays ---------------------------------------------

    /// The prompt for the daemon.
    #[verifier::opaque]
    pub open spec fn prompt_key(self, key: KeyEvent) -> (AppView, EffectView) {
        let p = self.daemon_prompt->0.after_key(key);
        let taken = AppView {
            daemon_prompt: Some(PromptView { chosen: None, ..p }),
            ..self
        };
        if !PromptView::closes(key) {
            (AppView { daemon_prompt: Some(p), ..self }, EffectView::Stay)
        } else if p.chosen == Some(DaemonChoice::StartAndConnect) {
            (taken, EffectView::StartDaemon)
        } else if p.chosen == Some(DaemonChoice::ContinueWithout) {
            (
                AppView {
                    daemon_prompt: None,
                    link: Link { daemonless: true, daemon_connected: true, ..self.link },
                    ..self
                }.said(
                    "daemon: continuing without — features that need the daemon will be limited"@,
                ),
                EffectView::OfferProviderSetup,
            )
        } else {
            (taken, EffectView::Quit)
        }
    }

    /// The option that was chosen in a dialog with one question.
    pub open spec fn single_choice(result: ResultView) -> Option<Seq<char>> {
        match result {
            ResultView::Submit { responses, .. } => if responses.len() > 0 {
                match responses[0] {
                    ResponseView::Single { selected_id } => Some(selected_id),
                    _ => None,
                }
            } else {
                None
            },
            ResultView::Cancel { .. } => None,
        }
    }

    pub open spec fn result_id(result: ResultView) -> u128 {
        match result {
            ResultView::Submit { interrupt_id, .. } => interrupt_id,
            ResultView::Cancel { interrupt_id } => interrupt_id,
        }
    }

    /// The answers of a dialog: those to `/init` are used here, all others go to
    /// the daemon.
    #[verifier::opaque]
    pub open spec fn question_resolved(self, result: ResultView) -> (AppView, EffectView) {
        let id = AppView::result_id(result);
        if self.pending_init is Some && self.pending_init->0.interrupt_id == id {
            self.init_chosen(AppView::single_choice(result))
        } else {
            (
                self.requesting(
                    RequestView::ResolveInterrupt {
                        interrupt_id: id,
                        responses: match result {
                            ResultView::Submit { responses, .. } => Some(responses),
                            ResultView::Cancel { .. } => None,
                        },
                    },
                ),
                EffectView::Stay,
            )
        }
    }

    /// The question dialog.
    #[verifier::opaque]
    pub open spec fn question_key(self, key: KeyEvent, now: u64) -> (AppView, EffectView) {
        let q = self.question_dialog->0;
        let after = q.after_key(key, now as nat);
        if !q.closes(key, now as nat) {
            (AppView { question_dialog: Some(after), ..self }, EffectView::Stay)
        } else {
            let v = AppView { question_dialog: None, ..self };
            match after.result {
                Some(r) => v.question_resolved(r),
                None => (v, EffectView::Stay),
            }
        }
    }

    /// The open overlay that takes the keys.
    pub open spec fn top_overlay(self) -> Option<Overlay> {
        let o = self.overlays;
        if o.settings {
            Some(Overlay::Settings)
        } else if o.model_picker {
            Some(Overlay::ModelPicker)
        } else if o.stats {
            Some(Overlay::Stats)
        } else if o.sessions {
            Some(Overlay::Sessions)
        } else if o.skills {
            Some(Overlay::Skills)
        } else if o.plans {
            Some(Overlay::Plans)
        } else if o.permissions {
            Some(Overlay::Permissions)
        } else {
            None
        }
    }

    /// A dialog or an overlay takes all keys while it is open.
    #[verifier::opaque]
    pub open spec fn modal_key(self, key: KeyEvent, now: u64) -> Option<(AppView, EffectView)> {
        if self.daemon_prompt is Some {
            Some(self.prompt_key(key))
        } else if self.question_dialog is Some {
            Some(self.question_key(key, now))
        } else if self.top_overlay() is Some {
            Some((self, EffectView::OverlayKey(self.top_overlay()->0)))
        } else if self.context_pane is Some {
            Some(
                (
                    if key.code is Esc || key.code == KeyCode::Char('q') {
                        AppView { context_pane: None, ..self }
                    } else {
                        self
                    },
                    EffectView::Stay,
                ),
            )
        } else {
            None
        }
    }

    // ---- Shortcuts --------------------------------------------------------

    /// The accept key on the predicted message: it unfolds a long one first, and
    /// then puts it into the composer.
    #[verifier::opaque]
    pub open spec fn ghost_accepted(self) -> AppView {
        let g = self.prediction.ghost_text->0;
        if g.is_folded() {
            AppView {
                prediction: PredictionView {
                    ghost_text: Some(GhostView { revealed: true, ..g }),
                    ..self.prediction
                },
                ..self
            }
        } else {
            AppView {
                prediction: self.prediction.dropped(),
                editor: self.editor.inserted(g.text),
                ..self
            }
        }
    }

    /// The shortcuts of the chat.
    #[verifier::opaque]
    pub open spec fn shortcut_key(self, key: KeyEvent, ctx: KeyContext) -> Option<
        (AppView, EffectView),
    > {
        let empty = self.editor.composer.text.len() == 0;
        if key.ctrl && key.code == KeyCode::Char('j') && any_reasoning(self.history) {
            Some(
                (
                    AppView { history: reasoning_toggled(self.history), ..self },
                    EffectView::Stay,
                ),
            )
        } else if key.ctrl_shift_letter('y', 'Y') {
            Some((self.rich_copy(ctx.now).0, copying(self.rich_copy(ctx.now).1)))
        } else if key.ctrl_shift_letter('c', 'C') {
            Some((self.selection_copy().0, copying(self.selection_copy().1)))
        } else if key.ctrl && key.code == KeyCode::Char('g') {
            Some(
                (
                    if ctx.here.editor {
                        AppView {
                            requests: Requests { external_edit: true, ..self.requests },
                            ..self
                        }
                    } else {
                        self.said("No $EDITOR environment variable"@)
                    },
                    EffectView::Stay,
                ),
            )
        } else if key.code is Esc && empty && self.side is Some {
            Some(self.side_ended(true))
        } else if key.code is Tab && empty && self.prediction.ghost_text is Some {
            Some((self.ghost_accepted(), EffectView::Stay))
        } else {
            None
        }
    }

    // ---- The composer -----------------------------------------------------

    /// The commands that match what is typed.
    pub open spec fn slash_ranking(self, here: Availability) -> Seq<int> {
        match self.editor.slash_query() {
            Some(q) => ranking(36, q, self.usage_slash, here),
            None => Seq::empty(),
        }
    }

    /// What the composer holds completed or submitted: a shell command behind
    /// `!`, the highlighted slash command, or a message. `/modelsettings` stands
    /// for `/model-settings` without being in the menu.
    #[verifier::opaque]
    pub open spec fn completed(self, ctx: KeyContext) -> (AppView, EffectView) {
        let text = self.editor.composer.text;
        if text.len() > 0 && text[0] == '!' {
            (
                AppView { editor: self.editor.spent(VimMode::Insert), ..self },
                if trim(text.skip(1)).len() == 0 {
                    EffectView::Stay
                } else {
                    EffectView::RunShell(trim(text.skip(1)))
                },
            )
        } else if self.editor.slash_query() == Some("modelsettings"@) {
            self.slash_run("model-settings"@, ctx)
        } else if self.editor.slash_query() is Some {
            let ranked = self.slash_ranking(ctx.here);
            let n = ranked.len() as int;
            if n == 0 {
                (self, EffectView::Stay)
            } else {
                let i = min_int(self.editor.slash_selected, n - 1);
                self.slash_run(command_names()[ranked[i]], ctx)
            }
        } else {
            self.submitted(ctx.now)
        }
    }

    /// A key for the composer.
    #[verifier::opaque]
    pub open spec fn composer_key(
        self,
        key: KeyEvent,
        ctx: KeyContext,
        suggestions: Seq<SuggestionView>,
    ) -> (AppView, EffectView) {
        let v = if key.only_modifier() {
            self
        } else {
            self.deselected()
        };
        let (editor, action) = v.editor.pressed(
            key,
            suggestions,
            v.slash_ranking(ctx.here).len() as int,
        );
        let w = AppView { editor, ..v };
        match action {
            EditorActionView::Done => (w, EffectView::Stay),
            EditorActionView::Submit => w.completed(ctx),
            EditorActionView::TagAccepted(t) => (
                w.usage_recorded(
                    UsageView { kind: UsageKind::Tag, key: t, project_id: w.project_id },
                ),
                EffectView::Stay,
            ),
        }
    }

    // ---- All layers -------------------------------------------------------

    /// The layers behind the ones that work everywhere.
    #[verifier::opaque]
    pub open spec fn inner_key(
        self,
        key: KeyEvent,
        ctx: KeyContext,
        suggestions: Seq<SuggestionView>,
    ) -> (AppView, EffectView) {
        if self.confirm_key(key) is Some {
            (self.confirm_key(key)->0, EffectView::Stay)
        } else if self.menu_key(key, ctx.now) is Some {
            self.menu_key(key, ctx.now)->0
        } else if key.code is Esc && self.screen.selection is Some {
            (self.deselected(), EffectView::Stay)
        } else if self.modal_key(key, ctx.now) is Some {
            self.modal_key(key, ctx.now)->0
        } else if self.shortcut_key(key, ctx) is Some {
            self.shortcut_key(key, ctx)->0
        } else {
            self.composer_key(key, ctx, suggestions)
        }
    }

    /// The application after a key, and what is left to do.
    #[verifier::opaque]
    pub open spec fn key_pressed(
        self,
        key: KeyEvent,
        ctx: KeyContext,
        suggestions: Seq<SuggestionView>,
    ) -> (AppView, EffectView) {
        if self.pane_key(key) is Some {
            self.pane_key(key)->0
        } else if self.leave_key(key, ctx.now) is Some {
            self.leave_key(key, ctx.now)->0
        } else {
            self.toast_dropped(key).inner_key(key, ctx, suggestions)
        }
    }
}

pub open spec fn effect_of(e: Option<Effect>) -> Option<EffectView> {
    match e {
        Some(e) => Some(e@),
        None => None,
    }
}

/// Whether a layer that may have taken a key did what it should: `taken` is what
/// it does, if it takes the key.
pub open spec fn layer_done(
    before: AppView,
    after: AppView,
    taken: Option<(AppView, EffectView)>,
    r: Option<Effect>,
) -> bool {
    match taken {
        Some((v, e)) => after == v && effect_of(r) == Some(e),
        None => after == before && r is None,
    }
}

impl App {
    fn handle_pane_key(&mut self, key: KeyEvent) -> (r: Option<Effect>)
        ensures
            old(self).wf() ==> final(self).wf(),
            layer_done(old(self)@, final(self)@, old(self)@.pane_key(key), r),
    {
        proof {
            reveal(AppView::pane_key);
        }
        if !self.pane.open {
            return None;
        }
        if is_pane_force_close(&key) {
            self.close_pane();
            return Some(Effect::TerminatePane);
        }
        if is_pane_focus_toggle(&key) {
            let focused: bool = !self.pane.focused;
            self.pane = Pane { focused, ..self.pane };
            return Some(Effect::Stay);
        }
        if self.pane.focused {
            return Some(Effect::ForwardToPane);
        }
        None
    }

    fn handle_leave_key(&mut self, key: KeyEvent, now: u64) -> (r: Option<Effect>)
        ensures
            old(self).wf() ==> final(self).wf(),
            layer_done(old(self)@, final(self)@, old(self)@.leave_key(key, now), r),
    {
        proof {
            reveal(AppView::leave_key);
        }
        if key.ctrl && !key.shift && key.code == KeyCode::Char('c') {
            let leave: bool = self.handle_ctrl_c(now);
            return Some(
                if leave {
                    Effect::Quit
                } else {
                    Effect::Stay
                },
            );
        }
        if key.ctrl && !key.shift && key.code == KeyCode::Char('d') {
            return Some(Effect::Quit);
        }
        None
    }

    fn drop_toast(&mut self, key: KeyEvent)
        ensures
            old(self).wf() ==> final(self).wf(),
            final(self)@ == old(self)@.toast_dropped(key),
    {
        let ghost v = self@;
        if !is_modifier_only(&key) {
            self.toast = None;
            proof {
                assert(self@ =~= (AppView { toast: None, ..v }));
            }
        }
    }

    fn handle_confirm_key(&mut self, key: KeyEvent) -> (r: bool)
        ensures
            old(self).wf() ==> final(self).wf(),
            match old(self)@.confirm_key(key) {
                Some(v) => r && final(self)@ == v,
                None => !r && final(self)@ == old(self)@,
            },
    {
        proof {
            reveal(AppView::confirm_key);
        }
        if is_modifier_only(&key) {
            return false;
        }
        let yes: bool = key.code == KeyCode::Char('y') || key.code == KeyCode::Char('Y');
        if self.requests.prune_confirm {
            if yes || matches!(key.code, KeyCode::Enter) {
                self.commit_prune();
            } else {
                self.cancel_prune();
            }
            return true;
        }
        if self.pending_stop_confirm.is_some() {
            if yes {
                self.commit_stop();
            } else {
                self.cancel_stop();
            }
            return true;
        }
        false
    }

    pub(crate) fn take_menu(&mut self) -> (r: Option<ContextMenu>)
        ensures
            old(self).wf() ==> final(self).wf(),
            menu_of(r) == old(self)@.context_menu,
            final(self)@ == old(self)@.menu_closed(),
    {
        let ghost v = self@;
        let m: Option<ContextMenu> = self.context_menu.take();
        proof {
            assert(self@ =~= v.menu_closed());
        }
        m
    }

    pub(crate) fn put_menu(&mut self, m: ContextMenu)
        ensures
            old(self).wf() && m@.items.len() <= 3 ==> final(self).wf(),
            final(self)@ == (AppView { context_menu: Some(m@), ..old(self)@ }),
    {
        let ghost v = self@;
        self.context_menu = Some(m);
        proof {
            assert(self@ =~= (AppView { context_menu: Some(m@), ..v }));
        }
    }

    fn handle_menu_key(&mut self, key: KeyEvent, now: u64) -> (r: Option<Effect>)
        ensures
            old(self).wf() ==> final(self).wf(),
            layer_done(old(self)@, final(self)@, old(self)@.menu_key(key, now), r),
    {
        proof {
            reveal(AppView::menu_key);
        }
        let ghost v = self@;
        let mut m: ContextMenu = match self.take_menu() {
            Some(m) => m,
            None => {
                proof {
                    assert(self@ =~= v);
                }
                return None;
            },
        };
        if matches!(key.code, KeyCode::Up) || key.code == KeyCode::Char('k') {
            m.move_cursor(-1);
            self.put_menu(m);
            return Some(Effect::Stay);
        }
        if matches!(key.code, KeyCode::Down) || key.code == KeyCode::Char('j') {
            m.move_cursor(1);
            self.put_menu(m);
            return Some(Effect::Stay);
        }
        if matches!(key.code, KeyCode::Enter) {
            return match m.focused_action() {
                Some(action) => Some(
                    copy_effect(
                        self.execute_context_menu_action(action, m.clicked_chat_row, now),
                    ),
                ),
                None => Some(Effect::Stay),
            };
        }
        if is_modifier_only(&key) {
            self.put_menu(m);
            proof {
                assert(self@ =~= v);
            }
        }
        Some(Effect::Stay)
    }

    pub(crate) fn deselect(&mut self)
        ensures
            old(self).wf() ==> final(self).wf(),
            final(self)@ == old(self)@.deselected(),
    {
        self.screen = Screen { selection: None, ..self.screen };
    }

    fn set_prompt(&mut self, p: Option<DaemonPromptDialog>)
        ensures
            old(self).wf() ==> final(self).wf(),
            final(self)@ == (AppView { daemon_prompt: prompt_of(p), ..old(self)@ }),
    {
        let ghost v = self@;
        self.daemon_prompt = p;
        proof {
            assert(self@ =~= (AppView { daemon_prompt: prompt_of(p), ..v }));
        }
    }

    fn take_prompt(&mut self) -> (r: Option<DaemonPromptDialog>)
        ensures
            old(self).wf() ==> final(self).wf(),
            prompt_of(r) == old(self)@.daemon_prompt,
            final(self)@ == (AppView { daemon_prompt: None, ..old(self)@ }),
    {
        let ghost v = self@;
        let p: Option<DaemonPromptDialog> = self.daemon_prompt.take();
        proof {
            assert(self@ =~= (AppView { daemon_prompt: None, ..v }));
        }
        p
    }

    fn handle_prompt_key(&mut self, key: KeyEvent) -> (r: Effect)
        requires
            old(self)@.daemon_prompt is Some,
        ensures
            old(self).wf() ==> final(self).wf(),
            (final(self)@, r@) == old(self)@.prompt_key(key),
    {
        proof {
            reveal(AppView::prompt_key);
        }
        let mut p: DaemonPromptDialog = match self.take_prompt() {
            Some(p) => p,
            None => {
                return Effect::Stay;
            },
        };
        if !p.handle_key(key) {
            self.set_prompt(Some(p));
            return Effect::Stay;
        }
        match p.take_choice() {
            Some(DaemonChoice::StartAndConnect) => {
                self.set_prompt(Some(p));
                Effect::StartDaemon
            },
            Some(DaemonChoice::ContinueWithout) => {
                self.link = Link { daemonless: true, daemon_connected: true, ..self.link };
                self.say_str(
                    "daemon: continuing without — features that need the daemon will be limited",
                );
                Effect::OfferProviderSetup
            },
            _ => {
                self.set_prompt(Some(p));
                Effect::Quit
            },
        }
    }

    /// The daemon was started from the prompt.
    pub fn daemon_started(&mut self, pid: u32)
        ensures
            old(self).wf() ==> final(self).wf(),
            final(self)@ == (AppView {
                daemon_prompt: None,
                link: Link { daemon_connected: true, ..old(self)@.link },
                ..old(self)@
            }).said(
                "daemon: spawned (pid "@ + decimal(pid as nat)
                    + "); stop later with `cockpit daemon stop`"@,
            ),
    {
        self.set_prompt(None);
        self.link = Link { daemon_connected: true, ..self.link };
        let mut line: String = String::from_str("daemon: spawned (pid ");
        push_decimal(&mut line, pid as u64);
        line.append("); stop later with `cockpit daemon stop`");
        self.say(line);
    }

    /// The daemon could not be started; the prompt says why.
    pub fn daemon_start_failed(&mut self, error: &str)
        ensures
            old(self).wf() ==> final(self).wf(),
            final(self)@ == (AppView {
                daemon_prompt: match old(self)@.daemon_prompt {
                    Some(p) => Some(
                        PromptView { error: Some("failed to spawn daemon: "@ + error@), ..p },
                    ),
                    None => None,
                },
                ..old(self)@
            }),
    {
        match self.take_prompt() {
            Some(p) => {
                let mut p: DaemonPromptDialog = p;
                p.set_error(concat2("failed to spawn daemon: ", error));
                self.set_prompt(Some(p));
            },
            None => {},
        }
    }

    /// The answers of a dialog.
    pub fn resolve_question_dialog(&mut self, result: QuestionResult) -> (r: Effect)
        ensures
            old(self).wf() ==> final(self).wf(),
            (final(self)@, r@) == old(self)@.question_resolved(result@),
    {
        proof {
            reveal(AppView::question_resolved);
        }
        let id: u128 = match &result {
            QuestionResult::Submit { interrupt_id, .. } => *interrupt_id,
            QuestionResult::Cancel { interrupt_id } => *interrupt_id,
        };
        let here: bool = match &self.pending_init {
            Some(p) => p.interrupt_id == id,
            None => false,
        };
        if here {
            let choice: Option<String> = match &result {
                QuestionResult::Submit { responses, .. } => chosen_id(responses),
                QuestionResult::Cancel { .. } => None,
            };
            return match &choice {
                Some(c) => self.resolve_init_choice(Some(c.as_str())),
                None => self.resolve_init_choice(None),
            };
        }
        let responses: Option<Vec<ResolveResponse>> = match result {
            QuestionResult::Submit { responses, .. } => Some(responses),
            QuestionResult::Cancel { .. } => None,
        };
        self.request(Request::ResolveInterrupt { interrupt_id: id, responses });
        Effect::Stay
    }

    fn take_question(&mut self) -> (r: Option<QuestionDialog>)
        requires
            old(self).wf(),
        ensures
            final(self).wf(),
            question_of(r) == old(self)@.question_dialog,
            r is Some ==> r->0.wf(),
            final(self)@ == (AppView { question_dialog: None, ..old(self)@ }),
    {
        let ghost v = self@;
        let q: Option<QuestionDialog> = self.question_dialog.take();
        proof {
            assert(self@ =~= (AppView { question_dialog: None, ..v }));
        }
        q
    }

    fn put_question(&mut self, q: QuestionDialog)
        requires
            old(self).wf(),
            q.wf(),
        ensures
            final(self).wf(),
            final(self)@ == (AppView { question_dialog: Some(q@), ..old(self)@ }),
    {
        let ghost v = self@;
        self.question_dialog = Some(q);
        proof {
            assert(self@ =~= (AppView { question_dialog: Some(q@), ..v }));
        }
    }

    fn handle_question_key(&mut self, key: KeyEvent, now: u64) -> (r: Effect)
        requires
            old(self).wf(),
            old(self)@.question_dialog is Some,
        ensures
            final(self).wf(),
            (final(self)@, r@) == old(self)@.question_key(key, now),
    {
        proof {
            reveal(AppView::question_key);
        }
        let ghost v = self@;
        let mut q: QuestionDialog = match self.take_question() {
            Some(q) => q,
            None => {
                return Effect::Stay;
            },
        };
        if !q.handle_key(key, now) {
            self.put_question(q);
            return Effect::Stay;
        }
        match q.take_result() {
            Some(result) => self.resolve_question_dialog(result),
            None => Effect::Stay,
        }
    }

    /// The open overlay that takes the keys.
    pub fn active_overlay(&self) -> (r: Option<Overlay>)
        ensures
            r == self@.top_overlay(),
    {
        let o = self.overlays;
        if o.settings {
            Some(Overlay::Settings)
        } else if o.model_picker {
            Some(Overlay::ModelPicker)
        } else if o.stats {
            Some(Overlay::Stats)
        } else if o.sessions {
            Some(Overlay::Sessions)
        } else if o.skills {
            Some(Overlay::Skills)
        } else if o.plans {
            Some(Overlay::Plans)
        } else if o.permissions {
            Some(Overlay::Permissions)
        } else {
            None
        }
    }

    fn close_context(&mut self)
        ensures
            old(self).wf() ==> final(self).wf(),
            final(self)@ == (AppView { context_pane: None, ..old(self)@ }),
    {
        let ghost v = self@;
        self.context_pane = None;
        proof {
            assert(self@ =~= (AppView { context_pane: None, ..v }));
        }
    }

    fn handle_modal_key(&mut self, key: KeyEvent, now: u64) -> (r: Option<Effect>)
        requires
            old(self).wf(),
        ensures
            final(self).wf(),
            layer_done(old(self)@, final(self)@, old(self)@.modal_key(key, now), r),
    {
        proof {
            reveal(AppView::modal_key);
        }
        if self.daemon_prompt.is_some() {
            return Some(self.handle_prompt_key(key));
        }
        if self.question_dialog.is_some() {
            return Some(self.handle_question_key(key, now));
        }
        match self.active_overlay() {
            Some(o) => {
                return Some(Effect::OverlayKey(o));
            },
            None => {},
        }
        if self.context_pane.is_some() {
            if matches!(key.code, KeyCode::Esc) || key.code == KeyCode::Char('q') {
                self.close_context();
            }
            return Some(Effect::Stay);
        }
        None
    }

    fn accept_ghost(&mut self)
        requires
            old(self).wf(),
            old(self)@.prediction.ghost_text is Some,
        ensures
            final(self).wf(),
            final(self)@ == old(self)@.ghost_accepted(),
    {
        proof {
            reveal(AppView::ghost_accepted);
        }
        let ghost v = self@;
        match self.prediction.advance_ghost() {
            Some(text) => {
                self.prediction.consume();
                self.editor.insert_text_raw(text.as_str());
            },
            None => {},
        }
        proof {
            assert(self@ =~= v.ghost_accepted());
        }
    }

    fn toggle_reasoning(&mut self)
        ensures
            old(self).wf() ==> final(self).wf(),
            final(self)@ == (AppView {
                history: reasoning_toggled(old(self)@.history),
                ..old(self)@
            }),
    {
        let ghost v = self@;
        toggle_recent_reasoning(&mut self.history);
        proof {
            assert(self@ =~= (AppView { history: reasoning_toggled(v.history), ..v }));
        }
    }

    fn handle_shortcut_key(&mut self, key: KeyEvent, ctx: KeyContext) -> (r: Option<Effect>)
        requires
            old(self).wf(),
        ensures
            final(self).wf(),
            layer_done(old(self)@, final(self)@, old(self)@.shortcut_key(key, ctx), r),
    {
        proof {
            reveal(AppView::shortcut_key);
        }
        if key.ctrl && key.code == KeyCode::Char('j') && scan_reasoning(&self.history).0 {
            self.toggle_reasoning();
            return Some(Effect::Stay);
        }
        if is_ctrl_shift_y(&key) {
            return Some(copy_effect(self.copy_last_agent_message_as_rich_text(ctx.now)));
        }
        if is_ctrl_shift_c(&key) {
            return Some(copy_effect(self.copy_selection_plaintext()));
        }
        if key.ctrl && key.code == KeyCode::Char('g') {
            if ctx.here.editor {
                self.requests = Requests { external_edit: true, ..self.requests };
            } else {
                self.say_str("No $EDITOR environment variable");
            }
            return Some(Effect::Stay);
        }
        let empty: bool = self.editor.composer.char_count() == 0;
        if matches!(key.code, KeyCode::Esc) && empty && self.side.is_some() {
            return Some(self.end_side_conversation(true));
        }
        if matches!(key.code, KeyCode::Tab) && empty && self.prediction.ghost().is_some() {
            self.accept_ghost();
            return Some(Effect::Stay);
        }
        None
    }

    /// The commands that match what is typed.
    pub fn slash_suggestions(&self, here: Availability) -> (r: Vec<SlashCommand>)
        requires
            self.wf(),
        ensures
            names_of(r@) == self@.slash_ranking(here).map_values(|i: int| command_names()[i]),
            r@.len() == self@.slash_ranking(here).len(),
    {
        match self.editor.slash_query() {
            Some(q) => {
                let r: Vec<SlashCommand> = slash_matches(q.as_str(), &self.usage_slash, here);
                proof {
                    assert(names_of(r@).len() == r@.len());
                }
                r
            },
            None => {
                let r: Vec<SlashCommand> = Vec::new();
                proof {
                    assert(names_of(r@) =~= self@.slash_ranking(here).map_values(
                        |i: int| command_names()[i],
                    ));
                }
                r
            },
        }
    }

    /// Complete or submit what the composer holds.
    pub fn complete_or_submit(&mut self, ctx: KeyContext) -> (r: Effect)
        requires
            old(self).wf(),
        ensures
            final(self).wf(),
            (final(self)@, r@) == old(self)@.completed(ctx),
    {
        proof {
            reveal(AppView::completed);
        }
        let chars: &Vec<char> = self.editor.composer.chars();
        if chars.len() > 0 && chars[0] == '!' {
            let n: usize = chars.len();
            let line: String = from_range(chars, 1, n);
            let cmd: String = trimmed(line.as_str());
            proof {
                let t = self@.editor.composer.text;
                assert(t.subrange(1, t.len() as int) =~= t.skip(1));
            }
            self.spend_input(VimMode::Insert);
            return if cmd.as_str().unicode_len() == 0 {
                Effect::Stay
            } else {
                Effect::RunShell(cmd)
            };
        }
        let query: Option<String> = self.editor.slash_query();
        let alias: bool = match &query {
            Some(q) => same(q.as_str(), "modelsettings"),
            None => false,
        };
        if alias {
            return self.execute_slash(SlashCommand::model_settings_alias(), ctx);
        }
        if query.is_some() {
            let matches: Vec<SlashCommand> = self.slash_suggestions(ctx.here);
            if matches.len() == 0 {
                return Effect::Stay;
            }
            let i: usize = min_usize(self.editor.slash_selected, matches.len() - 1);
            let cmd: SlashCommand = matches[i];
            proof {
                assert(names_of(matches@)[i as int] == cmd.name@);
            }
            return self.execute_slash(cmd, ctx);
        }
        self.submit_input(ctx.now)
    }

    fn press_composer(
        &mut self,
        key: KeyEvent,
        suggestions: &Vec<Suggestion>,
        slash_count: usize,
    ) -> (r: EditorAction)
        requires
            old(self).wf(),
        ensures
            final(self).wf(),
            ({
                let p = old(self)@.editor.pressed(
                    key,
                    suggestion_views(suggestions@),
                    slash_count as int,
                );
                &&& final(self)@ == (AppView { editor: p.0, ..old(self)@ })
                &&& r@ == p.1
            }),
    {
        let ghost v = self@;
        let r: EditorAction = self.editor.press(key, suggestions, slash_count);
        proof {
            assert(self@ =~= (AppView { editor: self.editor@, ..v }));
        }
        r
    }

    fn handle_composer_key(
        &mut self,
        key: KeyEvent,
        ctx: KeyContext,
        suggestions: &Vec<Suggestion>,
    ) -> (r: Effect)
        requires
            old(self).wf(),
        ensures
            final(self).wf(),
            (final(self)@, r@) == old(self)@.composer_key(
                key,
                ctx,
                suggestion_views(suggestions@),
            ),
    {
        proof {
            reveal(AppView::composer_key);
        }
        if !is_modifier_only(&key) {
            self.deselect();
        }
        let n: usize = self.slash_suggestions(ctx.here).len();
        match self.press_composer(key, suggestions, n) {
            EditorAction::Done => Effect::Stay,
            EditorAction::Submit => self.complete_or_submit(ctx),
            EditorAction::TagAccepted(t) => {
                let project_id: Option<String> = match &self.project_id {
                    Some(p) => Some(p.clone()),
                    None => None,
                };
                self.record_usage(UsageKind::Tag, t, project_id);
                Effect::Stay
            },
        }
    }

    fn handle_inner_key(
        &mut self,
        key: KeyEvent,
        ctx: KeyContext,
        suggestions: &Vec<Suggestion>,
    ) -> (r: Effect)
        requires
            old(self).wf(),
        ensures
            final(self).wf(),
            (final(self)@, r@) == old(self)@.inner_key(key, ctx, suggestion_views(suggestions@)),
    {
        proof {
            reveal(AppView::inner_key);
        }
        if self.handle_confirm_key(key) {
            return Effect::Stay;
        }
        match self.handle_menu_key(key, ctx.now) {
            Some(e) => {
                return e;
            },
            None => {},
        }
        if matches!(key.code, KeyCode::Esc) && self.screen.selection.is_some() {
            self.deselect();
            return Effect::Stay;
        }
        match self.handle_modal_key(key, ctx.now) {
            Some(e) => {
                return e;
            },
            None => {},
        }
        match self.handle_shortcut_key(key, ctx) {
            Some(e) => {
                return e;
            },
            None => {},
        }
        self.handle_composer_key(key, ctx, suggestions)
    }

    /// Handle a key, with the suggestions for the active `@` token. Returns what
    /// is left to do.
    pub fn handle_key(
        &mut self,
        key: KeyEvent,
        ctx: KeyContext,
        suggestions: &Vec<Suggestion>,
    ) -> (r: Effect)
        requires
            old(self).wf(),
        ensures
            final(self).wf(),
            (final(self)@, r@) == old(self)@.key_pressed(
                key,
                ctx,
                suggestion_views(suggestions@),
            ),
    {
        proof {
            reveal(AppView::key_pressed);
        }
        match self.handle_pane_key(key) {
            Some(e) => {
                return e;
            },
            None => {},
        }
        match self.handle_leave_key(key, ctx.now) {
            Some(e) => {
                return e;
            },
            None => {},
        }
        self.drop_toast(key);
        self.handle_inner_key(key, ctx, suggestions)
    }
}

fn chosen_id(responses: &Vec<ResolveResponse>) -> (r: Option<String>)
    ensures
        text_of(r) == if responses@.len() > 0 {
            match response_views(responses@)[0] {
                ResponseView::Single { selected_id } => Some(selected_id),
                _ => None,
            }
        } else {
            None
        },
{
    if responses.len() == 0 {
        return None;
    }
    match &responses[0] {
        ResolveResponse::Single { selected_id } => Some(selected_id.clone()),
        _ => None,
    }
}

} // verus!
