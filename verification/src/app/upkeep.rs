//! What happens between the keys: pastes, predictions, progress of tasks, and
//! what is opened and closed from outside.

use vstd::prelude::*;
use crate::app::effect::Overlay;
use crate::app::estimate::{capped_rows, composer_height, history_height};
use crate::app::events::askable;
use crate::app::history::{PredictionTurn, turn_views, turns_from_history, turns_of};
use crate::app::state::{App, AppView, Overlays, PredictNextMessage, Requests};
use crate::composer::{INPUT_PREFIX, VimMode};
use crate::context_pane::{ContextPane, ContextSnapshot};
use crate::daemon_prompt::DIALOG_HEIGHT;
use crate::dialog::PageView;
use crate::dialog::question::{InterruptQuestion, InterruptQuestionSet, question_views};
use crate::editor::{AUTOCOMPLETE_ROWS, text_of};
use crate::launch::{LaunchView, RepoStatus};
use crate::text::{blank, contains, from_range, has_text, is_blank, same, texts, to_chars};
use crate::width::display_width;

verus! {

/// The shape of the cursor.
#[derive(Debug, Clone, Copy, PartialEq, Eq, Structural)]
pub enum CursorShape {
    Bar,
    Block,
}

/// Rows that the parts of the screen ask for.
#[derive(Debug, Clone, Copy, PartialEq, Eq, Structural)]
pub struct Heights {
    pub input: u16,
    pub indicator: u16,
    pub queue: u16,
    pub popup: u16,
    pub history: u16,
    pub dialog: u16,
    pub compact: u16,
}

/// A plan that needs attention: its questions, or a single one.
pub struct AttentionItem {
    pub interrupt_id: u128,
    pub description: String,
    pub questions: Option<InterruptQuestionSet>,
    pub question: Option<InterruptQuestion>,
}

impl AttentionItem {
    /// The pages that ask the questions.
    pub open spec fn pages(self) -> Option<Seq<PageView>> {
        match self.questions {
            Some(set) => Some(question_views(set.questions@)),
            None => match self.question {
                Some(q) => Some(seq![q@]),
                None => None,
            },
        }
    }

    /// Questions that a dialog can be opened for.
    pub open spec fn wf(self) -> bool {
        &&& self.questions is Some ==> askable(self.questions->0)
        &&& self.question is Some ==> self.question->0@.options.len() + 2 <= usize::MAX
    }
}

/// Whether a line of progress tells of a changed configuration.
pub open spec fn tells_of_models(line: Seq<char>) -> bool {
    has_text(line, "model(s)"@) || ends_with_text(line, ": done"@)
}

pub open spec fn ends_with_text(s: Seq<char>, t: Seq<char>) -> bool {
    t.len() <= s.len() && s.skip(s.len() - t.len()) == t
}

fn text_ends_with(s: &str, t: &str) -> (r: bool)
    ensures
        r == ends_with_text(s@, t@),
{
    let a: Vec<char> = to_chars(s);
    let b: Vec<char> = to_chars(t);
    if b.len() > a.len() {
        return false;
    }
    let tail: String = from_range(&a, a.len() - b.len(), a.len());
    proof {
        assert(a@.subrange(a@.len() - b@.len(), a@.len() as int) =~= a@.skip(
            a@.len() - b@.len(),
        ));
    }
    same(tail.as_str(), t)
}

/// `text` without the newline that editors put at the end.
pub open spec fn without_one_newline(text: Seq<char>) -> Seq<char> {
    if text.len() > 0 && text.last() == '\n' {
        text.drop_last()
    } else {
        text
    }
}

impl AppView {
    /// An image pasted into the composer. A toast says so when the model takes
    /// none.
    pub open spec fn image_pasted(self, png: Seq<u8>, now: u64) -> AppView {
        let v = AppView { editor: self.editor.image_pasted(png), ..self };
        if self.launch.active_model_supports_images {
            v
        } else {
            v.informed(
                "Current model has no image support — this image will be sent as a text note."@,
                now,
            )
        }
    }

    /// A paste. Only the composer takes it; an image on the clipboard goes
    /// before the text.
    #[verifier::opaque]
    pub open spec fn pasted(
        self,
        data: Seq<char>,
        image: Option<Seq<u8>>,
        tokens: nat,
        condense: bool,
        now: u64,
    ) -> AppView {
        if self.pane.open || self.covered() {
            self
        } else {
            match image {
                Some(png) => self.image_pasted(png, now),
                None => AppView {
                    editor: self.editor.text_pasted(data, tokens, condense),
                    ..self
                },
            }
        }
    }

    /// The overlays with one opened or closed.
    pub open spec fn overlay_set(self, o: Overlay, on: bool) -> AppView {
        let v = self.overlays;
        AppView {
            overlays: match o {
                Overlay::Settings => Overlays { settings: on, ..v },
                Overlay::ModelPicker => Overlays { model_picker: on, ..v },
                Overlay::Stats => Overlays { stats: on, ..v },
                Overlay::Sessions => Overlays { sessions: on, ..v },
                Overlay::Skills => Overlays { skills: on, ..v },
                Overlay::Plans => Overlays { plans: on, ..v },
                Overlay::Permissions => Overlays { permissions: on, ..v },
            },
            ..self
        }
    }

    /// Whether there is an answer to predict a message from.
    pub open spec fn predictable(self) -> bool {
        let turns = turns_of(self.history).turns;
        !(self.settings.predict is Off) && exists|i: int|
            0 <= i < turns.len() && !is_blank((#[trigger] turns[i]).agent)
    }
}

impl App {
    fn insert_image(&mut self, png: Vec<u8>, now: u64)
        requires
            old(self).wf(),
        ensures
            final(self).wf(),
            final(self)@ == old(self)@.image_pasted(png@, now),
    {
        let ghost v = self@;
        self.editor.insert_image_block(png);
        proof {
            assert(self@ =~= (AppView { editor: v.editor.image_pasted(png@), ..v }));
        }
        if !self.launch.active_model_supports_images {
            self.inform(
                "Current model has no image support — this image will be sent as a text note.",
                now,
            );
        }
    }

    fn editor_text(&mut self, data: String, tokens: u64, condense: bool)
        requires
            old(self).wf(),
        ensures
            final(self).wf(),
            final(self)@ == (AppView {
                editor: old(self)@.editor.text_pasted(data@, tokens as nat, condense),
                ..old(self)@
            }),
    {
        let ghost v = self@;
        self.editor.paste_text(data, tokens, condense);
        proof {
            assert(self@ =~= (AppView {
                editor: v.editor.text_pasted(data@, tokens as nat, condense),
                ..v
            }));
        }
    }

    /// Whether something lies over the chat and takes the keys.
    pub fn is_covered(&self) -> (r: bool)
        ensures
            r == self@.covered(),
    {
        self.context_menu.is_some() || self.daemon_prompt.is_some()
            || self.question_dialog.is_some() || self.active_overlay().is_some()
            || self.context_pane.is_some()
    }

    /// A bracketed paste of `data`, with the image on the clipboard if there is
    /// one. `tokens` is the estimated size of the text, `condense` whether it is
    /// long enough for a block.
    pub fn handle_paste(
        &mut self,
        data: String,
        image: Option<Vec<u8>>,
        tokens: u64,
        condense: bool,
        now: u64,
    )
        requires
            old(self).wf(),
        ensures
            final(self).wf(),
            final(self)@ == old(self)@.pasted(
                data@,
                match image {
                    Some(png) => Some(png@),
                    None => None,
                },
                tokens as nat,
                condense,
                now,
            ),
    {
        proof {
            reveal(AppView::pasted);
        }
        if self.pane.open || self.is_covered() {
            return;
        }
        match image {
            Some(png) => {
                self.insert_image(png, now);
            },
            None => {
                self.editor_text(data, tokens, condense);
            },
        }
    }

    /// Open or close an overlay that lives outside.
    pub fn set_overlay(&mut self, o: Overlay, on: bool)
        ensures
            old(self).wf() ==> final(self).wf(),
            final(self)@ == old(self)@.overlay_set(o, on),
    {
        let v = self.overlays;
        self.overlays = match o {
            Overlay::Settings => Overlays { settings: on, ..v },
            Overlay::ModelPicker => Overlays { model_picker: on, ..v },
            Overlay::Stats => Overlays { stats: on, ..v },
            Overlay::Sessions => Overlays { sessions: on, ..v },
            Overlay::Skills => Overlays { skills: on, ..v },
            Overlay::Plans => Overlays { plans: on, ..v },
            Overlay::Permissions => Overlays { permissions: on, ..v },
        };
    }

    /// Open the overlay of the context window on a snapshot.
    pub fn open_context_pane(&mut self, snapshot: ContextSnapshot)
        ensures
            old(self).wf() ==> final(self).wf(),
            final(self)@ == (AppView {
                context_pane: Some(ContextPane { snapshot }),
                ..old(self)@
            }),
    {
        let ghost v = self@;
        self.context_pane = Some(ContextPane::open(snapshot));
        proof {
            assert(self@ =~= (AppView { context_pane: Some(ContextPane { snapshot }), ..v }));
        }
    }

    /// Open the question dialog for a plan that needs attention. One without
    /// questions opens nothing.
    pub fn open_attention_dialog(&mut self, item: AttentionItem, lockout: u64, now: u64)
        requires
            old(self).wf(),
            item.wf(),
        ensures
            final(self).wf(),
            final(self)@ == match item.pages() {
                Some(pages) => old(self)@.interrupted(
                    item.interrupt_id,
                    item.description@,
                    pages,
                    lockout,
                    now,
                ),
                None => old(self)@,
            },
    {
        let set: InterruptQuestionSet = match item.questions {
            Some(set) => set,
            None => match item.question {
                Some(q) => {
                    let mut questions: Vec<InterruptQuestion> = Vec::new();
                    questions.push(q);
                    proof {
                        assert(question_views(questions@) =~= seq![q@]);
                        assert(questions@[0] == q);
                    }
                    InterruptQuestionSet { questions }
                },
                None => {
                    return;
                },
            },
        };
        self.raise_interrupt_at(item.interrupt_id, item.description, set, lockout, now);
    }

    /// Whether the next message is to be predicted: predictions are on, and an
    /// agent has answered something. Returns the number of the turn and the
    /// turns to predict from.
    pub fn prediction_request(&self) -> (r: Option<(u64, Vec<PredictionTurn>)>)
        ensures
            match r {
                Some((turn, turns)) => self@.predictable() && turn == self@.prediction.turn
                    && turn_views(turns@) == turns_of(self@.history).turns,
                None => !self@.predictable(),
            },
    {
        if matches!(self.settings.predict, PredictNextMessage::Off) {
            return None;
        }
        let turns: Vec<PredictionTurn> = turns_from_history(&self.history);
        let ghost all = turns_of(self@.history).turns;
        let mut i: usize = 0;
        while i < turns.len()
            invariant
                i <= turns@.len() == all.len(),
                all == turn_views(turns@),
                all == turns_of(self@.history).turns,
                !(self@.settings.predict is Off),
                forall|k: int| 0 <= k < i ==> is_blank((#[trigger] all[k]).agent),
            decreases turns@.len() - i,
        {
            proof {
                assert(all[i as int] == turns@[i as int]@);
            }
            if !blank(turns[i].agent.as_str()) {
                return Some((self.prediction.turn(), turns));
            }
            i = i + 1;
        }
        None
    }

    /// A prediction came in.
    pub fn drain_prediction(&mut self, turn: u64, text: Option<String>)
        ensures
            old(self).wf() ==> final(self).wf(),
            final(self)@ == (AppView {
                prediction: old(self)@.prediction.with_result(
                    turn,
                    text_of(text),
                    old(self)@.settings.predict is Long,
                    old(self)@.editor.composer.text.len() == 0,
                ),
                ..old(self)@
            }),
    {
        let ghost v = self@;
        let long: bool = matches!(self.settings.predict, PredictNextMessage::Long);
        let empty: bool = self.editor.composer.char_count() == 0;
        self.prediction.on_result(turn, text, long, empty);
        proof {
            assert(self@ =~= (AppView { prediction: self@.prediction, ..v }));
        }
    }

    /// Bring the predicted message in line with the composer.
    pub fn sync_prediction_ghost(&mut self)
        ensures
            old(self).wf() ==> final(self).wf(),
            final(self)@ == (AppView {
                prediction: old(self)@.prediction.reconciled(
                    old(self)@.editor.composer.text.len() == 0,
                ),
                ..old(self)@
            }),
    {
        let ghost v = self@;
        let empty: bool = self.editor.composer.char_count() == 0;
        self.prediction.reconcile(empty);
        proof {
            assert(self@ =~= (AppView { prediction: self@.prediction, ..v }));
        }
    }

    /// Lines of progress of a fetch of models. Returns whether the launch state
    /// is to be read anew.
    pub fn drain_fetch_progress(&mut self, lines: Vec<String>) -> (r: bool)
        ensures
            old(self).wf() ==> final(self).wf(),
            final(self)@ == old(self)@.said_all(texts(lines@)),
            r == exists|i: int| 0 <= i < lines@.len() && tells_of_models(#[trigger] texts(lines@)[i]),
    {
        let mut tells: bool = false;
        let ghost all = texts(lines@);
        let mut i: usize = 0;
        while i < lines.len()
            invariant
                i <= lines@.len() == all.len(),
                all == texts(lines@),
                tells == exists|k: int| 0 <= k < i && tells_of_models(#[trigger] all[k]),
            decreases lines@.len() - i,
        {
            proof {
                assert(all[i as int] == lines@[i as int]@);
            }
            if contains(lines[i].as_str(), "model(s)") || text_ends_with(
                lines[i].as_str(),
                ": done",
            ) {
                tells = true;
            }
            i = i + 1;
        }
        self.say_all(lines);
        tells
    }

    /// The shape that the cursor should have: a block while vim editing takes
    /// commands.
    pub fn cursor_shape(&self) -> (r: CursorShape)
        ensures
            r == if self@.editor.composer.vim_enabled && !(self@.editor.composer.vim_mode
                is Insert) {
                CursorShape::Block
            } else {
                CursorShape::Bar
            },
    {
        if self.editor.composer.vim_enabled() && !matches!(
            self.editor.composer.vim_mode(),
            VimMode::Insert
        ) {
            CursorShape::Block
        } else {
            CursorShape::Bar
        }
    }

    /// The agent that the runner works with.
    pub fn sync_active_agent(&mut self, name: String)
        requires
            old(self).wf(),
        ensures
            final(self).wf(),
            final(self)@ == old(self)@.primary_swapped(name@),
    {
        self.swap_primary(name);
    }

    /// The state of the repository as it was last found.
    pub fn sync_repo_status(&mut self, status: Option<RepoStatus>)
        ensures
            old(self).wf() ==> final(self).wf(),
            final(self)@ == (AppView {
                launch: LaunchView {
                    repo_status: match status {
                        Some(s) => Some(s@),
                        None => None,
                    },
                    ..old(self)@.launch
                },
                ..old(self)@
            }),
    {
        let ghost v = self@;
        self.launch.repo_status = status;
        proof {
            assert(self@ =~= (AppView { launch: self@.launch, ..v }));
        }
    }

    /// Take the request to edit the composer's text in the editor.
    pub fn take_external_edit(&mut self) -> (r: bool)
        ensures
            old(self).wf() ==> final(self).wf(),
            r == old(self)@.requests.external_edit,
            final(self)@ == (AppView {
                requests: Requests { external_edit: false, ..old(self)@.requests },
                ..old(self)@
            }),
    {
        let r: bool = self.requests.external_edit;
        self.requests = Requests { external_edit: false, ..self.requests };
        r
    }

    /// The text that came back from the editor.
    pub fn external_edit_finished(&mut self, text: &str)
        requires
            old(self).wf(),
        ensures
            final(self).wf(),
            final(self)@ == (AppView {
                editor: old(self)@.editor.recalled(without_one_newline(text@)),
                ..old(self)@
            }),
    {
        let ghost v = self@;
        let chars: Vec<char> = to_chars(text);
        let n: usize = chars.len();
        if n > 0 && chars[n - 1] == '\n' {
            let t: String = from_range(&chars, 0, n - 1);
            proof {
                assert(chars@.subrange(0, n - 1) =~= chars@.drop_last());
            }
            self.editor.recall(t.as_str());
        } else {
            self.editor.recall(text);
        }
        proof {
            assert(self@ =~= (AppView {
                editor: v.editor.recalled(without_one_newline(text@)),
                ..v
            }));
        }
    }

    /// Rows that the parts of the screen ask for, on a terminal `columns` wide.
    /// The heights of the settings and of the model picker are given.
    pub fn geometry(
        &self,
        columns: u16,
        now: u64,
        settings_height: u16,
        picker_height: u16,
    ) -> (r: Heights)
        requires
            self.wf(),
        ensures
            r.input == composer_height(
                self@.editor.composer.text,
                display_width(INPUT_PREFIX@) as int,
                columns as int,
            ),
            r.indicator == if self@.span_elapsed(now) is Some {
                1int
            } else {
                0
            },
            r.queue == if self@.editor.queue.len() == 0 {
                0int
            } else {
                capped_rows(self@.editor.queue.len() as int % 0x10000 + 2)
            },
            r.popup == if self@.editor.slash_query() is Some || self@.editor.at_popup_active() {
                AUTOCOMPLETE_ROWS as int
            } else if self@.vim_hint() {
                1
            } else {
                0
            },
            r.history == capped_rows(
                history_height(self@.history, self@.history.len() as int) + if self@.pending
                    is Some {
                    1int
                } else {
                    0
                },
            ),
            r.dialog == if self@.daemon_prompt is Some {
                DIALOG_HEIGHT as int
            } else if self@.overlays.settings {
                settings_height as int
            } else if self@.overlays.model_picker {
                picker_height as int
            } else {
                0
            },
            r.compact == if self@.question_dialog is Some {
                self@.question_dialog->0.height()
            } else {
                0
            },
    {
        let dialog: u16 = if self.daemon_prompt.is_some() {
            DIALOG_HEIGHT
        } else if self.overlays.settings {
            settings_height
        } else if self.overlays.model_picker {
            picker_height
        } else {
            0
        };
        let compact: u16 = match &self.question_dialog {
            Some(d) => d.desired_height(),
            None => 0,
        };
        Heights {
            input: self.input_height(columns),
            indicator: self.indicator_lines(now),
            queue: self.queue_lines(),
            popup: self.popup_lines(),
            history: self.total_history_lines(),
            dialog,
            compact,
        }
    }
}

} // verus!
