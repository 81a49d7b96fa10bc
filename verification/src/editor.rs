//! The input side of the application: the composer with its paste blocks, its
//! `@` and slash popups, the queue of pending messages and the prompt history,
//! and what each key does to them.

use vstd::prelude::*;
use crate::composer::{Composer, ComposerView, Motion, Operator, VimMode, at_partial, at_sign, line_deletion, line_end, line_start, motion_stays_in_text, motion_target, position_above, position_below};
use crate::key::{KeyCode, KeyEvent};
use crate::nav::{max_int, min_int, monus, next_index, prev_index, scroll_top};
use crate::paste::{BlockView, PasteContentView, PasteRegistry, RegistryView, after_insert, after_remove, block_after, block_before, expandable, image_label, snap, snap_leaves_blocks, synced, text_label};
use crate::tag::{tag_after, tag_before};
use crate::text::{lemma_find_from, space_from, texts};

verus! {

/// Rows that the autocomplete popups take.
pub const AUTOCOMPLETE_ROWS: u16 = 6;

/// A path offered for an `@` token.
pub struct Suggestion {
    pub replacement: String,
    pub display: String,
    pub is_dir: bool,
    /// Whether the path needs quotes when it is sent.
    pub needs_quoting: bool,
}

pub struct SuggestionView {
    pub replacement: Seq<char>,
    pub display: Seq<char>,
    pub is_dir: bool,
    pub needs_quoting: bool,
}

impl View for Suggestion {
    type V = SuggestionView;

    open spec fn view(&self) -> SuggestionView {
        SuggestionView {
            replacement: self.replacement@,
            display: self.display@,
            is_dir: self.is_dir,
            needs_quoting: self.needs_quoting,
        }
    }
}

pub open spec fn suggestion_views(v: Seq<Suggestion>) -> Seq<SuggestionView> {
    v.map_values(|s: Suggestion| s@)
}

/// What is left to do after the editor handled a key.
pub enum EditorAction {
    /// Nothing.
    Done,
    /// Complete or submit what the composer holds.
    Submit,
    /// A tag was accepted for good; its use is recorded.
    TagAccepted(String),
}

pub enum EditorActionView {
    Done,
    Submit,
    TagAccepted(Seq<char>),
}

impl View for EditorAction {
    type V = EditorActionView;

    open spec fn view(&self) -> EditorActionView {
        match self {
            EditorAction::Done => EditorActionView::Done,
            EditorAction::Submit => EditorActionView::Submit,
            EditorAction::TagAccepted(t) => EditorActionView::TagAccepted(t@),
        }
    }
}

/// The composer and everything that its keys act on.
pub struct Editor {
    pub composer: Composer,
    pub registry: PasteRegistry,
    /// Accepted tag paths that need quotes when they are sent.
    pub accepted_tags: Vec<String>,
    /// Highlighted row and scroll offset of the `@` popup.
    pub at_selected: usize,
    pub at_scroll: usize,
    /// The popup was dismissed for the current token.
    pub at_dismissed: bool,
    /// Highlighted row and scroll offset of the slash menu.
    pub slash_selected: usize,
    pub slash_scroll: usize,
    /// Messages submitted while a turn was running.
    pub queue: Vec<String>,
    /// Submitted messages, oldest first.
    pub prompt_history: Vec<String>,
    /// 0 at the live text; `n` at the `n`th most recent message.
    pub prompt_history_cursor: usize,
    /// The live text while a message is recalled, unless it was empty.
    pub staged_draft: Option<String>,
}

#[verifier::ext_equal]
pub struct EditorView {
    pub composer: ComposerView,
    pub registry: RegistryView,
    pub accepted_tags: Seq<Seq<char>>,
    pub at_selected: int,
    pub at_scroll: int,
    pub at_dismissed: bool,
    pub slash_selected: int,
    pub slash_scroll: int,
    pub queue: Seq<Seq<char>>,
    pub prompt_history: Seq<Seq<char>>,
    pub prompt_history_cursor: int,
    pub staged_draft: Option<Seq<char>>,
}

/// The text of an optional string.
pub open spec fn text_of(s: Option<String>) -> Option<Seq<char>> {
    match s {
        Some(t) => Some(t@),
        None => None,
    }
}

impl View for Editor {
    type V = EditorView;

    open spec fn view(&self) -> EditorView {
        EditorView {
            composer: self.composer@,
            registry: self.registry@,
            accepted_tags: texts(self.accepted_tags@),
            at_selected: self.at_selected as int,
            at_scroll: self.at_scroll as int,
            at_dismissed: self.at_dismissed,
            slash_selected: self.slash_selected as int,
            slash_scroll: self.slash_scroll as int,
            queue: texts(self.queue@),
            prompt_history: texts(self.prompt_history@),
            prompt_history_cursor: self.prompt_history_cursor as int,
            staged_draft: text_of(self.staged_draft),
        }
    }
}

/// The slash query of `text`: what follows a leading `/` up to white space.
pub open spec fn slash_query_of(text: Seq<char>) -> Option<Seq<char>> {
    if text.len() > 0 && text[0] == '/' {
        Some(text.subrange(1, space_from(text, 1)))
    } else {
        None
    }
}

impl EditorView {
    /// An empty editor, in Insert mode.
    pub open spec fn fresh(vim_enabled: bool) -> EditorView {
        EditorView {
            composer: ComposerView {
                text: Seq::empty(),
                pos: 0,
                vim_mode: VimMode::Insert,
                vim_enabled,
                pending_g: false,
                pending_find: None,
            },
            registry: RegistryView::empty(),
            accepted_tags: Seq::empty(),
            at_selected: 0,
            at_scroll: 0,
            at_dismissed: false,
            slash_selected: 0,
            slash_scroll: 0,
            queue: Seq::empty(),
            prompt_history: Seq::empty(),
            prompt_history_cursor: 0,
            staged_draft: None,
        }
    }

    pub open spec fn blocks(self) -> Seq<BlockView> {
        self.registry.blocks
    }

    /// The cursor stands in the text, every paste block stands where the
    /// registry says, and the history cursor is in range.
    pub open spec fn wf(self) -> bool {
        &&& self.composer.in_text()
        &&& synced(self.composer.text, self.blocks())
        &&& 0 <= self.prompt_history_cursor <= self.prompt_history.len()
    }

    // ---- Edits that keep the paste blocks whole ----------------------------

    pub open spec fn moved(self, pos: int) -> EditorView {
        EditorView { composer: self.composer.at(pos), ..self }
    }

    /// Text typed at the cursor, which first leaves a block that it stands
    /// inside of.
    pub open spec fn inserted(self, t: Seq<char>) -> EditorView {
        let at = snap(self.blocks(), self.composer.pos, true);
        EditorView {
            composer: self.composer.at(at).typed(t),
            registry: RegistryView {
                blocks: after_insert(self.blocks(), at, t.len() as int),
                ..self.registry
            },
            ..self
        }
    }

    /// The text from `lo` up to `hi` removed, with the whole of every block
    /// that it touches; the cursor where it stood.
    pub open spec fn removed(self, lo: int, hi: int) -> EditorView {
        if lo == hi {
            self
        } else {
            let a = snap(self.blocks(), lo, false);
            let b = snap(self.blocks(), hi, true);
            EditorView {
                composer: self.composer.cut(a, b),
                registry: RegistryView {
                    blocks: after_remove(self.blocks(), a, b),
                    ..self.registry
                },
                ..self
            }
        }
    }

    /// The composer holds `t` and no paste block.
    pub open spec fn recalled(self, t: Seq<char>) -> EditorView {
        EditorView {
            composer: self.composer.with_text(t),
            registry: RegistryView::empty(),
            ..self
        }
    }

    pub open spec fn cleared(self) -> EditorView {
        self.recalled(Seq::empty())
    }

    /// A block with `label` for `content` inserted at the cursor.
    pub open spec fn with_block(self, label: Seq<char>, content: PasteContentView) -> EditorView {
        let at = snap(self.blocks(), self.composer.pos, true);
        let typed = self.inserted(label);
        EditorView {
            registry: typed.registry.with_block(
                BlockView { start: at, end: at + label.len(), label, content },
            ),
            ..typed
        }
    }

    /// The character left of the cursor deleted.
    pub open spec fn backspaced(self) -> EditorView {
        let p = snap(self.blocks(), self.composer.pos, false);
        if p == 0 {
            self.moved(0)
        } else {
            self.removed(p - 1, p)
        }
    }

    /// The character right of the cursor deleted.
    pub open spec fn deleted_forward(self) -> EditorView {
        let p = snap(self.blocks(), self.composer.pos, true);
        if p == self.composer.text.len() {
            self.moved(p)
        } else {
            self.removed(p, p + 1)
        }
    }

    /// One step left; a block is one step.
    pub open spec fn stepped_left(self) -> EditorView {
        let start = block_before(self.blocks(), self.composer.pos);
        self.moved(
            if start >= 0 {
                start
            } else {
                snap(self.blocks(), monus(self.composer.pos, 1), false)
            },
        )
    }

    /// One step right; a block is one step.
    pub open spec fn stepped_right(self) -> EditorView {
        let end = block_after(self.blocks(), self.composer.pos);
        self.moved(
            if end >= 0 {
                end
            } else {
                snap(
                    self.blocks(),
                    min_int(self.composer.pos + 1, self.composer.text.len() as int),
                    true,
                )
            },
        )
    }

    /// A word motion, which leaves a block in the direction of travel.
    pub open spec fn word_moved(self, motion: Motion, forward: bool) -> EditorView {
        self.moved(
            snap(
                self.blocks(),
                motion_target(self.composer.text, self.composer.pos, motion),
                forward,
            ),
        )
    }

    /// The span of `motion` deleted, blocks whole.
    pub open spec fn deleted_along(self, motion: Motion) -> EditorView {
        let to = motion_target(self.composer.text, self.composer.pos, motion);
        self.removed(min_int(self.composer.pos, to), max_int(self.composer.pos, to))
    }

    /// The current line deleted, blocks whole.
    pub open spec fn line_deleted(self) -> EditorView {
        let (from, to) = line_deletion(self.composer.text, self.composer.pos);
        let left = self.removed(from, to);
        left.moved(line_start(left.composer.text, left.composer.pos))
    }

    pub open spec fn opened_below(self) -> EditorView {
        self.moved(line_end(self.composer.text, self.composer.pos)).inserted(seq!['\n'])
    }

    pub open spec fn opened_above(self) -> EditorView {
        let opened = self.moved(line_start(self.composer.text, self.composer.pos)).inserted(
            seq!['\n'],
        );
        opened.moved(opened.composer.pos - 1)
    }

    /// The `@` token at the cursor replaced by `@` and `t`; nothing without one.
    pub open spec fn token_replaced(self, t: Seq<char>) -> EditorView {
        let at = at_sign(self.composer.text, self.composer.pos);
        if self.at_query() is None {
            self
        } else {
            self.removed(at + 1, self.composer.pos).inserted(t)
        }
    }

    pub open spec fn in_mode(self, mode: VimMode) -> EditorView {
        EditorView { composer: self.composer.in_mode(mode), ..self }
    }

    pub open spec fn with_pending_g(self, on: bool) -> EditorView {
        EditorView { composer: self.composer.with_pending_g(on), ..self }
    }

    pub open spec fn with_pending_find(self, dir: Option<bool>) -> EditorView {
        EditorView { composer: self.composer.with_pending_find(dir), ..self }
    }

    // ---- Popups ------------------------------------------------------------

    pub open spec fn at_query(self) -> Option<Seq<char>> {
        at_partial(self.composer.text, self.composer.pos)
    }

    /// The `@` popup shows: a token is active and was not dismissed.
    pub open spec fn at_popup_active(self) -> bool {
        !self.at_dismissed && self.at_query() is Some
    }

    pub open spec fn slash_query(self) -> Option<Seq<char>> {
        slash_query_of(self.composer.text)
    }

    /// Without an active token the dismissal is forgotten.
    pub open spec fn at_refreshed(self) -> EditorView {
        if self.at_query() is None {
            EditorView { at_dismissed: false, at_selected: 0, at_scroll: 0, ..self }
        } else {
            self
        }
    }

    pub open spec fn at_window_reset(self) -> EditorView {
        EditorView { at_selected: 0, at_scroll: 0, ..self }
    }

    pub open spec fn slash_window_reset(self) -> EditorView {
        EditorView { slash_selected: 0, slash_scroll: 0, ..self }
    }

    /// The highlight of the `@` popup moved over `n` rows.
    pub open spec fn at_moved(self, up: bool, n: int) -> EditorView {
        if n == 0 {
            self
        } else {
            let row = if up {
                prev_index(self.at_selected, n)
            } else {
                next_index(self.at_selected, n)
            };
            EditorView {
                at_selected: row,
                at_scroll: scroll_top(row, self.at_scroll, n, AUTOCOMPLETE_ROWS as int),
                ..self
            }
        }
    }

    /// The highlight of the slash menu moved over `n` rows.
    pub open spec fn slash_moved(self, up: bool, n: int) -> EditorView {
        if n == 0 {
            self
        } else {
            let row = if up {
                prev_index(self.slash_selected, n)
            } else {
                next_index(self.slash_selected, n)
            };
            EditorView {
                slash_selected: row,
                slash_scroll: scroll_top(row, self.slash_scroll, n, AUTOCOMPLETE_ROWS as int),
                ..self
            }
        }
    }

    /// A path that needs quotes is remembered once.
    pub open spec fn tag_noted(self, s: SuggestionView) -> EditorView {
        if s.needs_quoting && !self.accepted_tags.contains(s.replacement) {
            EditorView { accepted_tags: self.accepted_tags.push(s.replacement), ..self }
        } else {
            self
        }
    }

    /// The suggestion that would be accepted.
    pub open spec fn chosen(self, suggestions: Seq<SuggestionView>) -> SuggestionView {
        suggestions[min_int(self.at_selected, suggestions.len() - 1)]
    }

    /// The highlighted suggestion accepted. `enter` ends the tag with a space;
    /// without it a directory stays open for its entries.
    pub open spec fn suggestion_accepted(
        self,
        suggestions: Seq<SuggestionView>,
        enter: bool,
    ) -> EditorView {
        let s = self.chosen(suggestions);
        let placed = self.token_replaced(s.replacement).at_window_reset();
        if enter || !s.is_dir {
            EditorView { at_dismissed: true, ..placed.tag_noted(s).inserted(seq![' ']) }
        } else {
            placed
        }
    }

    pub open spec fn acceptance(
        self,
        suggestions: Seq<SuggestionView>,
        enter: bool,
    ) -> EditorActionView {
        let s = self.chosen(suggestions);
        if enter || !s.is_dir {
            EditorActionView::TagAccepted(s.replacement)
        } else {
            EditorActionView::Done
        }
    }

    // ---- Prompt history ----------------------------------------------------

    pub open spec fn on_first_line(self) -> bool {
        line_start(self.composer.text, self.composer.pos) == 0
    }

    pub open spec fn on_last_line(self) -> bool {
        line_end(self.composer.text, self.composer.pos) == self.composer.text.len()
    }

    /// Message number `n` from the end.
    pub open spec fn past_prompt(self, n: int) -> Seq<char> {
        self.prompt_history[self.prompt_history.len() - n]
    }

    /// One step back in the prompt history. Inside a text of several lines the
    /// cursor moves up first; with an empty composer a queued message comes
    /// back first.
    pub open spec fn history_up(self) -> EditorView {
        if !self.on_first_line() {
            self.moved(position_above(self.composer.text, self.composer.pos))
        } else if self.prompt_history_cursor == 0 && self.composer.text.len() == 0
            && self.queue.len() > 0 {
            EditorView { queue: self.queue.drop_last(), ..self.recalled(self.queue.last()) }
        } else if self.prompt_history_cursor >= self.prompt_history.len() {
            self
        } else {
            let n = self.prompt_history_cursor + 1;
            EditorView {
                prompt_history_cursor: n,
                staged_draft: if self.prompt_history_cursor > 0 {
                    self.staged_draft
                } else if self.composer.text.len() == 0 {
                    None
                } else {
                    Some(self.composer.text)
                },
                ..self.recalled(self.past_prompt(n))
            }
        }
    }

    /// One step forth in the prompt history; past the newest message the staged
    /// draft comes back.
    pub open spec fn history_down(self) -> EditorView {
        if !self.on_last_line() {
            self.moved(position_below(self.composer.text, self.composer.pos))
        } else if self.prompt_history_cursor == 0 {
            self
        } else {
            let n = self.prompt_history_cursor - 1;
            if n == 0 {
                EditorView {
                    prompt_history_cursor: 0,
                    staged_draft: None,
                    ..self.recalled(
                        match self.staged_draft {
                            Some(t) => t,
                            None => Seq::empty(),
                        },
                    )
                }
            } else {
                EditorView { prompt_history_cursor: n, ..self.recalled(self.past_prompt(n)) }
            }
        }
    }

    // ---- Keys --------------------------------------------------------------

    pub open spec fn tag_left(self) -> Option<(int, int)> {
        tag_before(self.composer.text, self.composer.pos, self.accepted_tags)
    }

    pub open spec fn tag_right(self) -> Option<(int, int)> {
        tag_after(self.composer.text, self.composer.pos, self.accepted_tags)
    }

    /// Backspace: a paste block or a completed tag left of the cursor goes
    /// whole, otherwise one character.
    pub open spec fn backspace_key(self) -> EditorView {
        let start = block_before(self.blocks(), self.composer.pos);
        if start >= 0 {
            self.removed(start, self.composer.pos).at_refreshed().at_window_reset()
        } else if !self.at_popup_active() && self.tag_left() is Some {
            let (s, e) = self.tag_left()->0;
            self.removed(s, e).at_refreshed().at_window_reset()
        } else {
            let left = self.backspaced();
            (if left.tag_left() is Some {
                EditorView { at_dismissed: true, ..left }
            } else {
                left.at_refreshed()
            }).at_window_reset().slash_window_reset()
        }
    }

    /// Delete: a paste block or a completed tag right of the cursor goes whole,
    /// otherwise one character.
    pub open spec fn delete_key(self) -> EditorView {
        let end = block_after(self.blocks(), self.composer.pos);
        if end >= 0 {
            self.removed(self.composer.pos, end).at_refreshed().at_window_reset()
        } else if !self.at_popup_active() && self.tag_right() is Some {
            let (s, e) = self.tag_right()->0;
            self.removed(s, e).at_refreshed().at_window_reset()
        } else {
            self.deleted_forward().at_refreshed().at_window_reset().slash_window_reset()
        }
    }

    /// What a key does while the `@` popup shows; `None` when the key is not
    /// the popup's.
    pub open spec fn at_popup_key(
        self,
        key: KeyEvent,
        suggestions: Seq<SuggestionView>,
    ) -> Option<(EditorView, EditorActionView)> {
        match key.code {
            KeyCode::Esc => Some(
                (
                    EditorView { at_dismissed: true, at_selected: 0, ..self },
                    EditorActionView::Done,
                ),
            ),
            KeyCode::Up => Some(
                (self.at_moved(true, suggestions.len() as int), EditorActionView::Done),
            ),
            KeyCode::Down => Some(
                (self.at_moved(false, suggestions.len() as int), EditorActionView::Done),
            ),
            KeyCode::Tab => Some(
                if suggestions.len() == 0 {
                    (self, EditorActionView::Done)
                } else {
                    (
                        self.suggestion_accepted(suggestions, false),
                        self.acceptance(suggestions, false),
                    )
                },
            ),
            KeyCode::Enter => if suggestions.len() == 0 {
                None
            } else {
                Some(
                    (
                        self.suggestion_accepted(suggestions, true),
                        self.acceptance(suggestions, true),
                    ),
                )
            },
            _ => None,
        }
    }

    /// What a key does to the text in Insert mode.
    pub open spec fn text_key(self, key: KeyEvent) -> (EditorView, EditorActionView) {
        match key.code {
            KeyCode::Esc => (
                if self.slash_query() is Some {
                    self.cleared().slash_window_reset()
                } else if self.composer.vim_enabled {
                    self.in_mode(VimMode::Normal).with_pending_g(false)
                } else {
                    self
                },
                EditorActionView::Done,
            ),
            KeyCode::Enter => if key.shift || key.alt {
                (
                    self.inserted(seq!['\n']).at_refreshed().slash_window_reset(),
                    EditorActionView::Done,
                )
            } else {
                (self, EditorActionView::Submit)
            },
            KeyCode::Backspace => (self.backspace_key(), EditorActionView::Done),
            KeyCode::Delete => (self.delete_key(), EditorActionView::Done),
            KeyCode::Left => (self.stepped_left(), EditorActionView::Done),
            KeyCode::Right => (self.stepped_right(), EditorActionView::Done),
            KeyCode::Up => (self.history_up(), EditorActionView::Done),
            KeyCode::Down => (self.history_down(), EditorActionView::Done),
            KeyCode::Home => (
                self.moved(line_start(self.composer.text, self.composer.pos)),
                EditorActionView::Done,
            ),
            KeyCode::End => (
                self.moved(line_end(self.composer.text, self.composer.pos)),
                EditorActionView::Done,
            ),
            KeyCode::Char(ch) => if key.ctrl {
                (
                    if ch == 'j' {
                        self.inserted(seq!['\n']).slash_window_reset()
                    } else {
                        self
                    },
                    EditorActionView::Done,
                )
            } else {
                (
                    self.inserted(seq![ch]).at_refreshed().at_window_reset().slash_window_reset(),
                    EditorActionView::Done,
                )
            },
            _ => (self, EditorActionView::Done),
        }
    }

    /// A key in Insert mode, with the suggestions for the active `@` token and
    /// the number of commands that match the slash query.
    pub open spec fn insert_key(
        self,
        key: KeyEvent,
        suggestions: Seq<SuggestionView>,
        slash_count: int,
    ) -> (EditorView, EditorActionView) {
        if self.at_popup_active() && self.at_popup_key(key, suggestions) is Some {
            self.at_popup_key(key, suggestions)->0
        } else if self.slash_query() is Some && (key.code is Up || key.code is Down) {
            (self.slash_moved(key.code is Up, slash_count), EditorActionView::Done)
        } else {
            self.text_key(key)
        }
    }

    /// A character in Normal mode, after pending keys were cleared.
    pub open spec fn normal_char(self, ch: char, was_pending_g: bool) -> EditorView {
        if ch == 'h' {
            self.stepped_left()
        } else if ch == 'l' {
            self.stepped_right()
        } else if ch == 'k' {
            self.history_up()
        } else if ch == 'j' {
            self.history_down()
        } else if ch == 'w' {
            self.word_moved(Motion::WordForward(false), true)
        } else if ch == 'W' {
            self.word_moved(Motion::WordForward(true), true)
        } else if ch == 'b' {
            self.word_moved(Motion::WordBackward(false), false)
        } else if ch == 'B' {
            self.word_moved(Motion::WordBackward(true), false)
        } else if ch == '0' {
            self.moved(line_start(self.composer.text, self.composer.pos))
        } else if ch == '$' {
            self.moved(line_end(self.composer.text, self.composer.pos))
        } else if ch == 'G' {
            self.moved(line_start(self.composer.text, self.composer.text.len() as int))
        } else if ch == 'g' {
            if was_pending_g {
                self.moved(0)
            } else {
                self.with_pending_g(true)
            }
        } else if ch == 'f' {
            self.with_pending_find(Some(true))
        } else if ch == 'F' {
            self.with_pending_find(Some(false))
        } else if ch == 'i' {
            self.in_mode(VimMode::Insert)
        } else if ch == 'I' {
            self.moved(line_start(self.composer.text, self.composer.pos)).in_mode(VimMode::Insert)
        } else if ch == 'a' {
            self.stepped_right().in_mode(VimMode::Insert)
        } else if ch == 'A' {
            self.moved(line_end(self.composer.text, self.composer.pos)).in_mode(VimMode::Insert)
        } else if ch == 'x' {
            let end = block_after(self.blocks(), self.composer.pos);
            if end >= 0 {
                self.removed(self.composer.pos, end)
            } else {
                self.deleted_forward()
            }
        } else if ch == 'D' {
            self.deleted_along(Motion::LineEnd)
        } else if ch == 'C' {
            self.deleted_along(Motion::LineEnd).in_mode(VimMode::Insert)
        } else if ch == 'o' {
            self.opened_below().in_mode(VimMode::Insert)
        } else if ch == 'O' {
            self.opened_above().in_mode(VimMode::Insert)
        } else if ch == 'd' {
            self.in_mode(VimMode::Operator(Operator::Delete))
        } else if ch == 'c' {
            self.in_mode(VimMode::Operator(Operator::Change))
        } else {
            self
        }
    }

    /// A key in Normal mode.
    pub open spec fn normal_key(
        self,
        key: KeyEvent,
        slash_count: int,
    ) -> (EditorView, EditorActionView) {
        if self.slash_query() is Some && (key.code is Up || key.code is Down) {
            (
                self.slash_moved(key.code is Up, slash_count).with_pending_g(false),
                EditorActionView::Done,
            )
        } else {
            match key.code {
                KeyCode::Esc => (self.with_pending_g(false), EditorActionView::Done),
                KeyCode::Enter => if key.shift || key.alt {
                    (self.with_pending_g(false).inserted(seq!['\n']), EditorActionView::Done)
                } else {
                    (self.with_pending_g(false), EditorActionView::Submit)
                },
                KeyCode::Left => (
                    self.moved(monus(self.composer.pos, 1)).with_pending_g(false),
                    EditorActionView::Done,
                ),
                KeyCode::Right => (
                    self.moved(
                        min_int(self.composer.pos + 1, self.composer.text.len() as int),
                    ).with_pending_g(false),
                    EditorActionView::Done,
                ),
                KeyCode::Up => (self.history_up().with_pending_g(false), EditorActionView::Done),
                KeyCode::Down => (
                    self.history_down().with_pending_g(false),
                    EditorActionView::Done,
                ),
                KeyCode::Char(ch) => {
                    let ready = self.with_pending_g(false).with_pending_find(None);
                    (
                        match self.composer.pending_find {
                            Some(true) => EditorView {
                                composer: ready.composer.found_forward(ch),
                                ..ready
                            },
                            Some(false) => EditorView {
                                composer: ready.composer.found_backward(ch),
                                ..ready
                            },
                            None => ready.normal_char(ch, self.composer.pending_g),
                        },
                        EditorActionView::Done,
                    )
                },
                _ => (self, EditorActionView::Done),
            }
        }
    }

    /// The mode after an operator was applied.
    pub open spec fn operated(self, op: Operator) -> EditorView {
        self.in_mode(
            if op == Operator::Change {
                VimMode::Insert
            } else {
                VimMode::Normal
            },
        )
    }

    /// The key after `d` or `c`: a motion or the doubled operator applies it,
    /// `g` waits for a second `g`, every other key cancels it.
    pub open spec fn operator_key(self, key: KeyEvent, op: Operator) -> EditorView {
        let ready = self.with_pending_g(false);
        if key.code is Esc {
            self.in_mode(VimMode::Normal).with_pending_g(false)
        } else if key.code == KeyCode::Char('g') {
            if self.composer.pending_g {
                self.deleted_along(Motion::TextStart).with_pending_g(false).operated(op)
            } else {
                self.with_pending_g(true)
            }
        } else if key.code == KeyCode::Char('w') {
            ready.deleted_along(Motion::WordForward(false)).operated(op)
        } else if key.code == KeyCode::Char('W') {
            ready.deleted_along(Motion::WordForward(true)).operated(op)
        } else if key.code == KeyCode::Char('b') {
            ready.deleted_along(Motion::WordBackward(false)).operated(op)
        } else if key.code == KeyCode::Char('B') {
            ready.deleted_along(Motion::WordBackward(true)).operated(op)
        } else if key.code == KeyCode::Char('$') {
            ready.deleted_along(Motion::LineEnd).operated(op)
        } else if key.code == KeyCode::Char('0') {
            ready.deleted_along(Motion::LineStart).operated(op)
        } else if key.code == KeyCode::Char('G') {
            ready.deleted_along(Motion::TextEnd).operated(op)
        } else if key.code == KeyCode::Char('d') && op == Operator::Delete {
            ready.line_deleted().operated(op)
        } else if key.code == KeyCode::Char('c') && op == Operator::Change {
            ready.moved(line_start(ready.composer.text, ready.composer.pos)).deleted_along(
                Motion::LineEnd,
            ).operated(op)
        } else {
            ready.in_mode(VimMode::Normal)
        }
    }

    /// A key for the composer, in whatever mode it is.
    #[verifier::opaque]
    pub open spec fn pressed(
        self,
        key: KeyEvent,
        suggestions: Seq<SuggestionView>,
        slash_count: int,
    ) -> (EditorView, EditorActionView) {
        if !self.composer.vim_enabled {
            self.insert_key(key, suggestions, slash_count)
        } else {
            match self.composer.vim_mode {
                VimMode::Normal => self.normal_key(key, slash_count),
                VimMode::Operator(op) => (self.operator_key(key, op), EditorActionView::Done),
                VimMode::Insert => self.insert_key(key, suggestions, slash_count),
            }
        }
    }

    // ---- Pastes ------------------------------------------------------------

    /// All popup windows after the text changed by a paste.
    pub open spec fn popups_reset(self) -> EditorView {
        self.at_refreshed().at_window_reset().slash_window_reset()
    }

    /// Pasted text: pasted again behind its own block the block becomes the
    /// text; otherwise it becomes a block (`condense`) or is inserted as it is.
    pub open spec fn text_pasted(
        self,
        data: Seq<char>,
        tokens: nat,
        condense: bool,
    ) -> EditorView {
        let start = expandable(self.blocks(), self.composer.pos, data);
        if data.len() == 0 {
            self
        } else if start >= 0 {
            self.removed(start, self.composer.pos).inserted(data).popups_reset()
        } else if condense {
            self.with_block(
                text_label(self.registry.next_number, tokens),
                PasteContentView::Text(data),
            ).popups_reset()
        } else {
            self.inserted(data).popups_reset()
        }
    }

    pub open spec fn image_pasted(self, png: Seq<u8>) -> EditorView {
        self.with_block(
            image_label(self.registry.next_number),
            PasteContentView::Image(png),
        ).popups_reset()
    }
}

// ---- Laws -----------------------------------------------------------------

/// Recalling a message from the live text and stepping forth again brings the
/// live text back and leaves the history where it was.
pub proof fn recall_and_return_restores_the_draft(v: EditorView)
    requires
        v.wf(),
        v.prompt_history_cursor == 0,
        v.on_first_line(),
        v.prompt_history.len() > 0,
        v.composer.text.len() > 0 || v.queue.len() == 0,
    ensures
        v.history_up().history_down().composer.text == v.composer.text,
        v.history_up().history_down().prompt_history_cursor == 0,
        v.history_up().history_down().prompt_history == v.prompt_history,
        v.history_up().history_down().queue == v.queue,
{
    let up = v.history_up();
    lemma_find_from(up.composer.text, '\n', up.composer.pos);
    if v.composer.text.len() == 0 {
        assert(v.composer.text =~= Seq::empty());
    }
}

/// Deleting along a motion never touches text outside the span, widened to the
/// blocks that it crosses: what is left is a prefix and a suffix of the text.
pub proof fn deletion_keeps_the_rest(v: EditorView, motion: Motion)
    requires
        v.wf(),
    ensures
        ({
            let d = v.deleted_along(motion);
            let n = d.composer.text.len();
            &&& n <= v.composer.text.len()
            &&& exists|k: int|
                #![trigger v.composer.text.take(k)]
                0 <= k <= n && d.composer.text == v.composer.text.take(k) + v.composer.text.skip(
                    v.composer.text.len() - n + k,
                )
        }),
{
    let text = v.composer.text;
    let to = motion_target(text, v.composer.pos, motion);
    motion_stays_in_text(text, v.composer.pos, motion);
    let lo = min_int(v.composer.pos, to);
    let hi = max_int(v.composer.pos, to);
    let d = v.deleted_along(motion);
    let n = d.composer.text.len();
    if lo == hi {
        assert(text =~= text.take(n as int) + text.skip(text.len() - n + n));
    } else {
        snap_leaves_blocks(text, v.blocks(), lo, false);
        snap_leaves_blocks(text, v.blocks(), hi, true);
        let a = snap(v.blocks(), lo, false);
        let b = snap(v.blocks(), hi, true);
        assert(d.composer.text =~= text.take(a) + text.skip(text.len() - n + a));
    }
}

/// The text that is typed stands before the cursor, and a Backspace takes the
/// last character of it away again, as long as no paste block is around.
pub proof fn typed_character_can_be_taken_back(v: EditorView, ch: char)
    requires
        v.wf(),
        v.blocks().len() == 0,
    ensures
        v.inserted(seq![ch]).backspaced().composer == v.composer,
        v.inserted(seq![ch]).composer.text[v.composer.pos] == ch,
{
    let typed = v.inserted(seq![ch]);
    assert(after_insert(v.blocks(), v.composer.pos, 1) =~= Seq::empty());
    assert(typed.blocks() =~= Seq::empty());
    assert(typed.backspaced().composer.text =~= v.composer.text);
}

} // verus!
