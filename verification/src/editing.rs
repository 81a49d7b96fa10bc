//! The operations of the [`Editor`].

use vstd::prelude::*;
use crate::composer::{Composer, Motion, Operator, VimMode, line_end, line_start, motion_stays_in_text};
use crate::editor::{AUTOCOMPLETE_ROWS, Editor, EditorAction, EditorView, Suggestion, suggestion_views, text_of};
use crate::key::{KeyCode, KeyEvent};
use crate::nav::{min_int, min_usize, monus, windowed_scroll, wrap_next, wrap_prev};
use crate::paste::{BlockView, PasteBlock, PasteContent, PasteContentView, PasteRegistry, insert_keeps_blocks, lemma_block_after, lemma_block_before, lemma_expandable, register_keeps_blocks, remove_keeps_blocks, snap_leaves_blocks, text_label};
use crate::tag::{tag_ending_at, tag_starting_at};
use crate::text::{find_space, from_range, list_has, push_decimal, texts};

verus! {

impl Editor {
    /// See [`EditorView::wf`].
    pub open spec fn wf(&self) -> bool {
        self@.wf()
    }

    /// An editor with an empty composer.
    pub fn new(vim_enabled: bool) -> (r: Editor)
        ensures
            r.wf(),
            r@ == EditorView::fresh(vim_enabled),
    {
        let mut composer = Composer::new(vim_enabled);
        composer.set_vim_mode(VimMode::Insert);
        let e = Editor {
            composer,
            registry: PasteRegistry::new(),
            accepted_tags: Vec::new(),
            at_selected: 0,
            at_scroll: 0,
            at_dismissed: false,
            slash_selected: 0,
            slash_scroll: 0,
            queue: Vec::new(),
            prompt_history: Vec::new(),
            prompt_history_cursor: 0,
            staged_draft: None,
        };
        proof {
            assert(texts(e.accepted_tags@) =~= Seq::empty());
            assert(texts(e.queue@) =~= Seq::empty());
            assert(texts(e.prompt_history@) =~= Seq::empty());
        }
        e
    }

    // ---- Edits that keep the paste blocks whole ----------------------------

    /// Insert text at the cursor, outside any paste block.
    pub fn insert_text_raw(&mut self, text: &str)
        requires
            old(self).wf(),
        ensures
            final(self).wf(),
            final(self)@ == old(self)@.inserted(text@),
    {
        let ghost v = self@;
        proof {
            snap_leaves_blocks(v.composer.text, v.blocks(), v.composer.pos, true);
        }
        let pos: usize = self.composer.position();
        let at: usize = self.registry.skip_cursor(pos, true);
        proof {
            insert_keeps_blocks(v.composer.text, v.blocks(), at as int, text@);
        }
        let before: usize = self.composer.char_count();
        self.composer.set_position(at);
        self.composer.insert_str(text);
        let total: usize = self.composer.char_count();
        proof {
            assert(total == before + text@.len());
            assert forall|i: int| 0 <= i < v.blocks().len() implies (#[trigger] v.blocks()[i]).end
                + (total - before) <= usize::MAX && v.blocks()[i].start <= v.blocks()[i].end by {
                assert(v.blocks()[i].stands_in(v.composer.text));
            }
        }
        self.registry.shift_for_insert(at, total - before);
        proof {
            assert(self@ =~= v.inserted(text@));
        }
    }

    /// Insert one character at the cursor, outside any paste block.
    pub fn composer_insert_char(&mut self, ch: char)
        requires
            old(self).wf(),
        ensures
            final(self).wf(),
            final(self)@ == old(self)@.inserted(seq![ch]),
    {
        let mut s: String = String::new();
        s.push(ch);
        proof {
            assert(s@ =~= seq![ch]);
        }
        self.insert_text_raw(s.as_str());
    }

    /// Remove the text from `lo` up to `hi` with every block that it touches.
    pub fn remove_span(&mut self, lo: usize, hi: usize)
        requires
            old(self).wf(),
            lo <= hi <= old(self)@.composer.text.len(),
        ensures
            final(self).wf(),
            final(self)@ == old(self)@.removed(lo as int, hi as int),
    {
        if lo == hi {
            return;
        }
        let ghost v = self@;
        let a: usize = self.registry.skip_cursor(lo, false);
        let b: usize = self.registry.skip_cursor(hi, true);
        proof {
            snap_leaves_blocks(v.composer.text, v.blocks(), lo as int, false);
            snap_leaves_blocks(v.composer.text, v.blocks(), hi as int, true);
            remove_keeps_blocks(v.composer.text, v.blocks(), a as int, b as int);
            assert forall|i: int| 0 <= i < v.blocks().len() implies (#[trigger] v.blocks()[i]).start
                <= v.blocks()[i].end by {
                assert(v.blocks()[i].stands_in(v.composer.text));
            }
        }
        self.composer.delete_range(a, b);
        self.registry.remove_range(a, b);
        proof {
            assert(self@ =~= v.removed(lo as int, hi as int));
        }
    }

    /// Replace the composer's text; no paste block is left.
    pub fn recall(&mut self, text: &str)
        requires
            old(self).wf(),
        ensures
            final(self).wf(),
            final(self)@ == old(self)@.recalled(text@),
    {
        self.composer.set(text);
        self.registry.clear();
        proof {
            assert(self@ =~= old(self)@.recalled(text@));
        }
    }

    /// Empty the composer.
    pub fn clear(&mut self)
        requires
            old(self).wf(),
        ensures
            final(self).wf(),
            final(self)@ == old(self)@.cleared(),
    {
        self.composer.clear();
        self.registry.clear();
        proof {
            assert(self@ =~= old(self)@.cleared());
        }
    }

    /// Insert a paste block at the cursor.
    fn insert_block(&mut self, label: String, content: PasteContent)
        requires
            old(self).wf(),
            label@.len() > 0,
        ensures
            final(self).wf(),
            final(self)@ == old(self)@.with_block(label@, content@),
    {
        let ghost v = self@;
        let pos: usize = self.composer.position();
        let at: usize = self.registry.skip_cursor(pos, true);
        proof {
            snap_leaves_blocks(v.composer.text, v.blocks(), v.composer.pos, true);
        }
        self.insert_text_raw(label.as_str());
        let end: usize = self.composer.position();
        let ghost b = BlockView {
            start: at as int,
            end: end as int,
            label: label@,
            content: content@,
        };
        proof {
            let typed = v.inserted(label@);
            assert(self@ == typed);
            assert(typed.composer.text.subrange(b.start, b.end) =~= label@);
            assert forall|i: int| 0 <= i < typed.blocks().len() implies (
            #[trigger] typed.blocks()[i]).end <= b.start || typed.blocks()[i].start >= b.end by {
                assert(v.blocks()[i].stands_in(v.composer.text));
            }
            register_keeps_blocks(typed.composer.text, typed.blocks(), b);
        }
        self.registry.register(PasteBlock { start: at, end, label, content });
        proof {
            assert(self@ =~= v.with_block(b.label, b.content));
        }
    }

    /// Condense pasted text into a block.
    pub fn insert_text_block(&mut self, full: String, tokens: u64)
        requires
            old(self).wf(),
        ensures
            final(self).wf(),
            final(self)@ == old(self)@.with_block(
                text_label(old(self)@.registry.next_number, tokens as nat),
                PasteContentView::Text(full@),
            ),
    {
        let mut label: String = String::from_str("[Pasted text #");
        push_decimal(&mut label, self.registry.next_number());
        label.append(", ");
        push_decimal(&mut label, tokens);
        label.append(" tokens]");
        proof {
            reveal_strlit("[Pasted text #");
        }
        self.insert_block(label, PasteContent::Text(full));
    }

    /// Insert a pasted image as a block.
    pub fn insert_image_block(&mut self, png: Vec<u8>)
        requires
            old(self).wf(),
        ensures
            final(self).wf(),
            final(self)@ == old(self)@.image_pasted(png@),
    {
        let mut label: String = String::from_str("[Pasted image #");
        push_decimal(&mut label, self.registry.next_number());
        label.append("]");
        proof {
            reveal_strlit("[Pasted image #");
        }
        self.insert_block(label, PasteContent::Image(png));
        self.reset_popups();
    }

    /// A bracketed paste of text. `tokens` is its estimated size, `condense`
    /// whether it is long enough for a block.
    pub fn paste_text(&mut self, data: String, tokens: u64, condense: bool)
        requires
            old(self).wf(),
        ensures
            final(self).wf(),
            final(self)@ == old(self)@.text_pasted(data@, tokens as nat, condense),
    {
        let ghost v = self@;
        if data.as_str().is_empty() {
            return;
        }
        let pos: usize = self.composer.position();
        proof {
            lemma_expandable(v.composer.text, v.blocks(), v.composer.pos, data@);
        }
        match self.registry.text_ending_at(pos, data.as_str()) {
            Some(start) => {
                self.remove_span(start, pos);
                self.insert_text_raw(data.as_str());
            },
            None => {
                if condense {
                    self.insert_text_block(data, tokens);
                } else {
                    self.insert_text_raw(data.as_str());
                }
            },
        }
        self.reset_popups();
    }

    fn reset_popups(&mut self)
        requires
            old(self).wf(),
        ensures
            final(self).wf(),
            final(self)@ == old(self)@.popups_reset(),
    {
        self.refresh_at_dismiss();
        self.reset_at_window();
        self.reset_slash_window();
    }

    /// Delete the character left of the cursor.
    pub fn composer_delete_left(&mut self)
        requires
            old(self).wf(),
        ensures
            final(self).wf(),
            final(self)@ == old(self)@.backspaced(),
    {
        let ghost v = self@;
        proof {
            snap_leaves_blocks(v.composer.text, v.blocks(), v.composer.pos, false);
        }
        let pos: usize = self.composer.position();
        let p: usize = self.registry.skip_cursor(pos, false);
        if p == 0 {
            self.composer.set_position(0);
            proof {
                assert(self@ =~= v.backspaced());
            }
        } else {
            self.remove_span(p - 1, p);
        }
    }

    /// Delete the character right of the cursor.
    pub fn composer_delete_right(&mut self)
        requires
            old(self).wf(),
        ensures
            final(self).wf(),
            final(self)@ == old(self)@.deleted_forward(),
    {
        let ghost v = self@;
        proof {
            snap_leaves_blocks(v.composer.text, v.blocks(), v.composer.pos, true);
        }
        let pos: usize = self.composer.position();
        let p: usize = self.registry.skip_cursor(pos, true);
        if p == self.composer.char_count() {
            self.composer.set_position(p);
            proof {
                assert(self@ =~= v.deleted_forward());
            }
        } else {
            self.remove_span(p, p + 1);
        }
    }

    /// Move left one character or one block.
    pub fn composer_move_left(&mut self)
        requires
            old(self).wf(),
        ensures
            final(self).wf(),
            final(self)@ == old(self)@.stepped_left(),
    {
        let ghost v = self@;
        let pos: usize = self.composer.position();
        proof {
            lemma_block_before(v.composer.text, v.blocks(), v.composer.pos);
            snap_leaves_blocks(v.composer.text, v.blocks(), monus(v.composer.pos, 1), false);
        }
        match self.registry.block_ending_at(pos) {
            Some(start) => {
                self.composer.set_position(start);
            },
            None => {
                let left: usize = if pos > 0 {
                    pos - 1
                } else {
                    0
                };
                let landed: usize = self.registry.skip_cursor(left, false);
                self.composer.set_position(landed);
            },
        }
        proof {
            assert(self@ =~= v.stepped_left());
        }
    }

    /// Move right one character or one block.
    pub fn composer_move_right(&mut self)
        requires
            old(self).wf(),
        ensures
            final(self).wf(),
            final(self)@ == old(self)@.stepped_right(),
    {
        let ghost v = self@;
        let pos: usize = self.composer.position();
        let len: usize = self.composer.char_count();
        proof {
            lemma_block_after(v.composer.text, v.blocks(), v.composer.pos);
            snap_leaves_blocks(
                v.composer.text,
                v.blocks(),
                min_int(v.composer.pos + 1, v.composer.text.len() as int),
                true,
            );
        }
        match self.registry.block_starting_at(pos) {
            Some(end) => {
                self.composer.set_position(end);
            },
            None => {
                let right: usize = if pos < len {
                    pos + 1
                } else {
                    len
                };
                let landed: usize = self.registry.skip_cursor(right, true);
                self.composer.set_position(landed);
            },
        }
        proof {
            assert(self@ =~= v.stepped_right());
        }
    }

    /// Move along a word motion; a block that it lands in is left in the
    /// direction of travel.
    pub fn vim_motion(&mut self, motion: Motion, forward: bool)
        requires
            old(self).wf(),
        ensures
            final(self).wf(),
            final(self)@ == old(self)@.word_moved(motion, forward),
    {
        let ghost v = self@;
        let to: usize = self.composer.target(motion);
        proof {
            snap_leaves_blocks(v.composer.text, v.blocks(), to as int, forward);
        }
        let landed: usize = self.registry.skip_cursor(to, forward);
        self.composer.set_position(landed);
        proof {
            assert(self@ =~= v.word_moved(motion, forward));
        }
    }

    /// Delete along a motion, removing every block that the span touches.
    pub fn block_aware_delete(&mut self, motion: Motion)
        requires
            old(self).wf(),
        ensures
            final(self).wf(),
            final(self)@ == old(self)@.deleted_along(motion),
    {
        let pos: usize = self.composer.position();
        let to: usize = self.composer.target(motion);
        if pos <= to {
            self.remove_span(pos, to);
        } else {
            self.remove_span(to, pos);
        }
    }

    /// Delete the current line with its blocks.
    pub fn delete_current_line_block_aware(&mut self)
        requires
            old(self).wf(),
        ensures
            final(self).wf(),
            final(self)@ == old(self)@.line_deleted(),
    {
        let ghost v = self@;
        let start: usize = self.composer.target(Motion::LineStart);
        let end: usize = self.composer.target(Motion::LineEnd);
        let len: usize = self.composer.char_count();
        proof {
            motion_stays_in_text(v.composer.text, v.composer.pos, Motion::LineStart);
            motion_stays_in_text(v.composer.text, v.composer.pos, Motion::LineEnd);
        }
        if end < len {
            self.remove_span(start, end + 1);
        } else if start > 0 {
            self.remove_span(start - 1, len);
        } else {
            self.remove_span(0, len);
        }
        self.composer.move_line_start();
        proof {
            assert(self@ =~= v.line_deleted());
        }
    }

    /// Open a line below the current one.
    pub fn open_below(&mut self)
        requires
            old(self).wf(),
        ensures
            final(self).wf(),
            final(self)@ == old(self)@.opened_below(),
    {
        self.composer.move_line_end();
        proof {
            assert(self@ =~= old(self)@.moved(
                line_end(old(self)@.composer.text, old(self)@.composer.pos),
            ));
        }
        self.composer_insert_char('\n');
    }

    /// Open a line above the current one.
    pub fn open_above(&mut self)
        requires
            old(self).wf(),
        ensures
            final(self).wf(),
            final(self)@ == old(self)@.opened_above(),
    {
        self.composer.move_line_start();
        proof {
            assert(self@ =~= old(self)@.moved(
                line_start(old(self)@.composer.text, old(self)@.composer.pos),
            ));
            snap_leaves_blocks(
                self@.composer.text,
                self@.blocks(),
                self@.composer.pos,
                true,
            );
        }
        self.composer_insert_char('\n');
        self.composer.move_left();
        proof {
            assert(self@ =~= old(self)@.opened_above());
        }
    }

    /// Replace the `@` token at the cursor.
    pub fn replace_at_token(&mut self, replacement: &str)
        requires
            old(self).wf(),
        ensures
            final(self).wf(),
            final(self)@ == old(self)@.token_replaced(replacement@),
    {
        let pos: usize = self.composer.position();
        let at: usize = match self.composer.at_position() {
            None => {
                return;
            },
            Some(at) => at,
        };
        self.remove_span(at + 1, pos);
        self.insert_text_raw(replacement);
    }

    // ---- Popups ------------------------------------------------------------

    /// Whether the `@` popup shows.
    pub fn at_popup_active(&self) -> (r: bool)
        requires
            self.wf(),
        ensures
            r == self@.at_popup_active(),
    {
        !self.at_dismissed && self.composer.at_query().is_some()
    }

    /// The query of a slash command that is being typed.
    pub fn slash_query(&self) -> (r: Option<String>)
        ensures
            text_of(r) == self@.slash_query(),
    {
        let v: &Vec<char> = self.composer.chars();
        if v.len() > 0 && v[0] == '/' {
            let end: usize = find_space(v, 1);
            Some(from_range(v, 1, end))
        } else {
            None
        }
    }

    /// Forget the dismissal once no `@` token is active.
    pub fn refresh_at_dismiss(&mut self)
        requires
            old(self).wf(),
        ensures
            final(self).wf(),
            final(self)@ == old(self)@.at_refreshed(),
    {
        if self.composer.at_query().is_none() {
            self.at_dismissed = false;
            self.at_selected = 0;
            self.at_scroll = 0;
        }
    }

    /// Highlight the first `@` suggestion.
    pub fn reset_at_window(&mut self)
        ensures
            final(self)@ == old(self)@.at_window_reset(),
    {
        self.at_selected = 0;
        self.at_scroll = 0;
    }

    /// Highlight the first slash command.
    pub fn reset_slash_window(&mut self)
        ensures
            final(self)@ == old(self)@.slash_window_reset(),
    {
        self.slash_selected = 0;
        self.slash_scroll = 0;
    }

    fn move_at(&mut self, up: bool, n: usize)
        requires
            old(self).wf(),
        ensures
            final(self).wf(),
            final(self)@ == old(self)@.at_moved(up, n as int),
    {
        if n > 0 {
            self.at_selected = if up {
                wrap_prev(self.at_selected, n)
            } else {
                wrap_next(self.at_selected, n)
            };
            self.at_scroll = windowed_scroll(
                self.at_selected,
                self.at_scroll,
                n,
                AUTOCOMPLETE_ROWS as usize,
            );
        }
    }

    fn move_slash(&mut self, up: bool, n: usize)
        requires
            old(self).wf(),
        ensures
            final(self).wf(),
            final(self)@ == old(self)@.slash_moved(up, n as int),
    {
        if n > 0 {
            self.slash_selected = if up {
                wrap_prev(self.slash_selected, n)
            } else {
                wrap_next(self.slash_selected, n)
            };
            self.slash_scroll = windowed_scroll(
                self.slash_selected,
                self.slash_scroll,
                n,
                AUTOCOMPLETE_ROWS as usize,
            );
        }
    }

    /// Remember a path that needs quotes.
    fn note_accepted_tag(&mut self, s: &Suggestion)
        requires
            old(self).wf(),
        ensures
            final(self).wf(),
            final(self)@ == old(self)@.tag_noted(s@),
    {
        if s.needs_quoting && !list_has(&self.accepted_tags, s.replacement.as_str()) {
            let ghost before = self.accepted_tags@;
            self.accepted_tags.push(s.replacement.clone());
            proof {
                assert(texts(self.accepted_tags@) =~= texts(before).push(s.replacement@));
                assert(self@ =~= old(self)@.tag_noted(s@));
            }
        }
    }

    /// Accept the highlighted suggestion.
    pub fn accept_at_suggestion(&mut self, suggestions: &Vec<Suggestion>, enter: bool) -> (r:
        EditorAction)
        requires
            old(self).wf(),
            suggestions@.len() > 0,
        ensures
            final(self).wf(),
            final(self)@ == old(self)@.suggestion_accepted(suggestion_views(suggestions@), enter),
            r@ == old(self)@.acceptance(suggestion_views(suggestions@), enter),
    {
        let idx: usize = min_usize(self.at_selected, suggestions.len() - 1);
        let s: &Suggestion = &suggestions[idx];
        proof {
            assert(s@ == old(self)@.chosen(suggestion_views(suggestions@)));
        }
        self.replace_at_token(s.replacement.as_str());
        self.reset_at_window();
        if enter || !s.is_dir {
            self.note_accepted_tag(s);
            self.composer_insert_char(' ');
            self.at_dismissed = true;
            EditorAction::TagAccepted(s.replacement.clone())
        } else {
            EditorAction::Done
        }
    }

    // ---- Prompt history ----------------------------------------------------

    /// The Up key: see [`EditorView::history_up`].
    pub fn history_up(&mut self)
        requires
            old(self).wf(),
        ensures
            final(self).wf(),
            final(self)@ == old(self)@.history_up(),
    {
        let ghost v = self@;
        if self.composer.target(Motion::LineStart) != 0 {
            self.composer.move_up();
            proof {
                assert(self@ =~= v.history_up());
            }
            return;
        }
        if self.prompt_history_cursor == 0 && self.composer.is_empty() && self.queue.len() > 0 {
            let ghost q = self.queue@;
            match self.queue.pop() {
                Some(last) => {
                    proof {
                        assert(texts(self.queue@) =~= texts(q).drop_last());
                        assert(last@ == texts(q).last());
                    }
                    self.recall(last.as_str());
                },
                None => {},
            }
            proof {
                assert(self@ =~= v.history_up());
            }
            return;
        }
        if self.prompt_history_cursor >= self.prompt_history.len() {
            return;
        }
        if self.prompt_history_cursor == 0 {
            self.staged_draft = if self.composer.is_empty() {
                None
            } else {
                Some(self.composer.text())
            };
        }
        self.prompt_history_cursor = self.prompt_history_cursor + 1;
        let idx: usize = self.prompt_history.len() - self.prompt_history_cursor;
        let text: String = self.prompt_history[idx].clone();
        self.recall(text.as_str());
        proof {
            assert(self@ =~= v.history_up());
        }
    }

    /// The Down key: see [`EditorView::history_down`].
    pub fn history_down(&mut self)
        requires
            old(self).wf(),
        ensures
            final(self).wf(),
            final(self)@ == old(self)@.history_down(),
    {
        let ghost v = self@;
        if self.composer.target(Motion::LineEnd) != self.composer.char_count() {
            self.composer.move_down();
            proof {
                assert(self@ =~= v.history_down());
            }
            return;
        }
        if self.prompt_history_cursor == 0 {
            return;
        }
        self.prompt_history_cursor = self.prompt_history_cursor - 1;
        if self.prompt_history_cursor == 0 {
            let draft: Option<String> = self.staged_draft.take();
            match draft {
                Some(t) => self.recall(t.as_str()),
                None => self.clear(),
            }
        } else {
            let idx: usize = self.prompt_history.len() - self.prompt_history_cursor;
            let text: String = self.prompt_history[idx].clone();
            self.recall(text.as_str());
        }
        proof {
            assert(self@ =~= v.history_down());
        }
    }

    // ---- Keys --------------------------------------------------------------

    /// The completed tag that ends at the cursor.
    pub fn completed_tag_left(&self) -> (r: Option<(usize, usize)>)
        requires
            self.wf(),
        ensures
            match r {
                Some((a, b)) => self@.tag_left() == Some((a as int, b as int)) && a < b
                    <= self@.composer.text.len(),
                None => self@.tag_left() is None,
            },
    {
        tag_ending_at(self.composer.chars(), self.composer.position(), &self.accepted_tags)
    }

    /// The completed tag that starts at the cursor.
    pub fn completed_tag_right(&self) -> (r: Option<(usize, usize)>)
        requires
            self.wf(),
        ensures
            match r {
                Some((a, b)) => self@.tag_right() == Some((a as int, b as int)) && a < b
                    <= self@.composer.text.len(),
                None => self@.tag_right() is None,
            },
    {
        tag_starting_at(self.composer.chars(), self.composer.position(), &self.accepted_tags)
    }

    fn key_backspace(&mut self)
        requires
            old(self).wf(),
        ensures
            final(self).wf(),
            final(self)@ == old(self)@.backspace_key(),
    {
        let ghost v = self@;
        let pos: usize = self.composer.position();
        proof {
            lemma_block_before(v.composer.text, v.blocks(), v.composer.pos);
        }
        match self.registry.block_ending_at(pos) {
            Some(start) => {
                self.remove_span(start, pos);
                self.refresh_at_dismiss();
                self.reset_at_window();
                return;
            },
            None => {},
        }
        if !self.at_popup_active() {
            match self.completed_tag_left() {
                Some((s, e)) => {
                    self.remove_span(s, e);
                    self.refresh_at_dismiss();
                    self.reset_at_window();
                    return;
                },
                None => {},
            }
        }
        self.composer_delete_left();
        if self.completed_tag_left().is_some() {
            self.at_dismissed = true;
        } else {
            self.refresh_at_dismiss();
        }
        self.reset_at_window();
        self.reset_slash_window();
    }

    fn key_delete(&mut self)
        requires
            old(self).wf(),
        ensures
            final(self).wf(),
            final(self)@ == old(self)@.delete_key(),
    {
        let ghost v = self@;
        let pos: usize = self.composer.position();
        proof {
            lemma_block_after(v.composer.text, v.blocks(), v.composer.pos);
        }
        match self.registry.block_starting_at(pos) {
            Some(end) => {
                self.remove_span(pos, end);
                self.refresh_at_dismiss();
                self.reset_at_window();
                return;
            },
            None => {},
        }
        if !self.at_popup_active() {
            match self.completed_tag_right() {
                Some((s, e)) => {
                    self.remove_span(s, e);
                    self.refresh_at_dismiss();
                    self.reset_at_window();
                    return;
                },
                None => {},
            }
        }
        self.composer_delete_right();
        self.refresh_at_dismiss();
        self.reset_at_window();
        self.reset_slash_window();
    }

    fn text_key(&mut self, key: KeyEvent) -> (r: EditorAction)
        requires
            old(self).wf(),
        ensures
            final(self).wf(),
            final(self)@ == old(self)@.text_key(key).0,
            r@ == old(self)@.text_key(key).1,
    {
        let ghost v = self@;
        match key.code {
            KeyCode::Esc => {
                if self.slash_query().is_some() {
                    self.clear();
                    self.reset_slash_window();
                } else if self.composer.vim_enabled() {
                    self.composer.set_vim_mode(VimMode::Normal);
                    self.composer.set_pending_g(false);
                }
            },
            KeyCode::Enter => {
                if key.shift || key.alt {
                    self.composer_insert_char('\n');
                    self.refresh_at_dismiss();
                    self.reset_slash_window();
                } else {
                    return EditorAction::Submit;
                }
            },
            KeyCode::Backspace => {
                self.key_backspace();
            },
            KeyCode::Delete => {
                self.key_delete();
            },
            KeyCode::Left => {
                self.composer_move_left();
            },
            KeyCode::Right => {
                self.composer_move_right();
            },
            KeyCode::Up => {
                self.history_up();
            },
            KeyCode::Down => {
                self.history_down();
            },
            KeyCode::Home => {
                self.composer.move_line_start();
            },
            KeyCode::End => {
                self.composer.move_line_end();
            },
            KeyCode::Char(ch) => {
                if key.ctrl {
                    if ch == 'j' {
                        self.composer_insert_char('\n');
                        self.reset_slash_window();
                    }
                } else {
                    self.composer_insert_char(ch);
                    self.refresh_at_dismiss();
                    self.reset_at_window();
                    self.reset_slash_window();
                }
            },
            _ => {},
        }
        proof {
            assert(self@ =~= v.text_key(key).0);
        }
        EditorAction::Done
    }

    /// A key in Insert mode, or with vim editing off. `suggestions` are those
    /// for the active `@` token, `slash_count` the number of commands that match
    /// the slash query.
    pub fn handle_key_insert(
        &mut self,
        key: KeyEvent,
        suggestions: &Vec<Suggestion>,
        slash_count: usize,
    ) -> (r: EditorAction)
        requires
            old(self).wf(),
        ensures
            final(self).wf(),
            final(self)@ == old(self)@.insert_key(
                key,
                suggestion_views(suggestions@),
                slash_count as int,
            ).0,
            r@ == old(self)@.insert_key(
                key,
                suggestion_views(suggestions@),
                slash_count as int,
            ).1,
    {
        if self.at_popup_active() {
            match key.code {
                KeyCode::Esc => {
                    self.at_dismissed = true;
                    self.at_selected = 0;
                    return EditorAction::Done;
                },
                KeyCode::Up => {
                    self.move_at(true, suggestions.len());
                    return EditorAction::Done;
                },
                KeyCode::Down => {
                    self.move_at(false, suggestions.len());
                    return EditorAction::Done;
                },
                KeyCode::Tab => {
                    if suggestions.len() > 0 {
                        return self.accept_at_suggestion(suggestions, false);
                    }
                    return EditorAction::Done;
                },
                KeyCode::Enter => {
                    if suggestions.len() > 0 {
                        return self.accept_at_suggestion(suggestions, true);
                    }
                },
                _ => {},
            }
        }
        if matches!(key.code, KeyCode::Up | KeyCode::Down) && self.slash_query().is_some() {
            self.move_slash(matches!(key.code, KeyCode::Up), slash_count);
            return EditorAction::Done;
        }
        self.text_key(key)
    }

    fn normal_char(&mut self, ch: char, was_pending_g: bool)
        requires
            old(self).wf(),
        ensures
            final(self).wf(),
            final(self)@ == old(self)@.normal_char(ch, was_pending_g),
    {
        let ghost v = self@;
        if ch == 'h' {
            self.composer_move_left();
        } else if ch == 'l' {
            self.composer_move_right();
        } else if ch == 'k' {
            self.history_up();
        } else if ch == 'j' {
            self.history_down();
        } else if ch == 'w' {
            self.vim_motion(Motion::WordForward(false), true);
        } else if ch == 'W' {
            self.vim_motion(Motion::WordForward(true), true);
        } else if ch == 'b' {
            self.vim_motion(Motion::WordBackward(false), false);
        } else if ch == 'B' {
            self.vim_motion(Motion::WordBackward(true), false);
        } else if ch == '0' {
            self.composer.move_line_start();
        } else if ch == '$' {
            self.composer.move_line_end();
        } else if ch == 'G' {
            self.composer.move_buffer_end();
        } else if ch == 'g' {
            if was_pending_g {
                self.composer.move_buffer_start();
            } else {
                self.composer.set_pending_g(true);
            }
        } else if ch == 'f' {
            self.composer.set_pending_find(Some(true));
        } else if ch == 'F' {
            self.composer.set_pending_find(Some(false));
        } else if ch == 'i' {
            self.composer.set_vim_mode(VimMode::Insert);
        } else if ch == 'I' {
            self.composer.move_line_start();
            self.composer.set_vim_mode(VimMode::Insert);
        } else if ch == 'a' {
            self.composer_move_right();
            self.composer.set_vim_mode(VimMode::Insert);
        } else if ch == 'A' {
            self.composer.move_line_end();
            self.composer.set_vim_mode(VimMode::Insert);
        } else if ch == 'x' {
            proof {
                lemma_block_after(v.composer.text, v.blocks(), v.composer.pos);
            }
            let pos: usize = self.composer.position();
            match self.registry.block_starting_at(pos) {
                Some(end) => {
                    self.remove_span(pos, end);
                },
                None => {
                    self.composer_delete_right();
                },
            }
        } else if ch == 'D' {
            self.block_aware_delete(Motion::LineEnd);
        } else if ch == 'C' {
            self.block_aware_delete(Motion::LineEnd);
            self.composer.set_vim_mode(VimMode::Insert);
        } else if ch == 'o' {
            self.open_below();
            self.composer.set_vim_mode(VimMode::Insert);
        } else if ch == 'O' {
            self.open_above();
            self.composer.set_vim_mode(VimMode::Insert);
        } else if ch == 'd' {
            self.composer.set_vim_mode(VimMode::Operator(Operator::Delete));
        } else if ch == 'c' {
            self.composer.set_vim_mode(VimMode::Operator(Operator::Change));
        }
        proof {
            assert(self@ =~= v.normal_char(ch, was_pending_g));
        }
    }

    /// A key in Normal mode.
    pub fn handle_key_normal(&mut self, key: KeyEvent, slash_count: usize) -> (r: EditorAction)
        requires
            old(self).wf(),
        ensures
            final(self).wf(),
            final(self)@ == old(self)@.normal_key(key, slash_count as int).0,
            r@ == old(self)@.normal_key(key, slash_count as int).1,
    {
        let ghost v = self@;
        if matches!(key.code, KeyCode::Up | KeyCode::Down) && self.slash_query().is_some() {
            self.move_slash(matches!(key.code, KeyCode::Up), slash_count);
            self.composer.set_pending_g(false);
            proof {
                assert(self@ =~= v.normal_key(key, slash_count as int).0);
            }
            return EditorAction::Done;
        }
        match key.code {
            KeyCode::Esc => {
                self.composer.set_pending_g(false);
            },
            KeyCode::Enter => {
                self.composer.set_pending_g(false);
                proof {
                    assert(self@ =~= v.with_pending_g(false));
                }
                if key.shift || key.alt {
                    self.composer_insert_char('\n');
                } else {
                    return EditorAction::Submit;
                }
            },
            KeyCode::Left => {
                self.composer.move_left();
                self.composer.set_pending_g(false);
            },
            KeyCode::Right => {
                self.composer.move_right();
                self.composer.set_pending_g(false);
            },
            KeyCode::Up => {
                self.history_up();
                self.composer.set_pending_g(false);
            },
            KeyCode::Down => {
                self.history_down();
                self.composer.set_pending_g(false);
            },
            KeyCode::Char(ch) => {
                let was_pending_g: bool = self.composer.pending_g();
                let pending_find: Option<bool> = self.composer.pending_find();
                self.composer.set_pending_g(false);
                self.composer.set_pending_find(None);
                proof {
                    assert(self@ =~= v.with_pending_g(false).with_pending_find(None));
                }
                match pending_find {
                    Some(forward) => {
                        if forward {
                            self.composer.find_char_forward(ch);
                        } else {
                            self.composer.find_char_backward(ch);
                        }
                    },
                    None => {
                        self.normal_char(ch, was_pending_g);
                    },
                }
            },
            _ => {},
        }
        proof {
            assert(self@ =~= v.normal_key(key, slash_count as int).0);
        }
        EditorAction::Done
    }

    /// The key after an operator. `dd`/`cc` apply it to the current line, a
    /// motion to the span that it covers; any other key cancels it.
    pub fn handle_key_operator(&mut self, key: KeyEvent, op: Operator)
        requires
            old(self).wf(),
        ensures
            final(self).wf(),
            final(self)@ == old(self)@.operator_key(key, op),
    {
        let ghost v = self@;
        let after: VimMode = if op == Operator::Change {
            VimMode::Insert
        } else {
            VimMode::Normal
        };
        if matches!(key.code, KeyCode::Esc) {
            self.composer.set_vim_mode(VimMode::Normal);
            self.composer.set_pending_g(false);
            proof {
                assert(self@ =~= v.operator_key(key, op));
            }
            return;
        }
        if key.code == KeyCode::Char('g') {
            if self.composer.pending_g() {
                self.block_aware_delete(Motion::TextStart);
                self.composer.set_pending_g(false);
                self.composer.set_vim_mode(after);
            } else {
                self.composer.set_pending_g(true);
            }
            proof {
                assert(self@ =~= v.operator_key(key, op));
            }
            return;
        }
        self.composer.set_pending_g(false);
        proof {
            assert(self@ =~= v.with_pending_g(false));
        }
        let mut applied: bool = true;
        if key.code == KeyCode::Char('w') {
            self.block_aware_delete(Motion::WordForward(false));
        } else if key.code == KeyCode::Char('W') {
            self.block_aware_delete(Motion::WordForward(true));
        } else if key.code == KeyCode::Char('b') {
            self.block_aware_delete(Motion::WordBackward(false));
        } else if key.code == KeyCode::Char('B') {
            self.block_aware_delete(Motion::WordBackward(true));
        } else if key.code == KeyCode::Char('$') {
            self.block_aware_delete(Motion::LineEnd);
        } else if key.code == KeyCode::Char('0') {
            self.block_aware_delete(Motion::LineStart);
        } else if key.code == KeyCode::Char('G') {
            self.block_aware_delete(Motion::TextEnd);
        } else if key.code == KeyCode::Char('d') && op == Operator::Delete {
            self.delete_current_line_block_aware();
        } else if key.code == KeyCode::Char('c') && op == Operator::Change {
            let ghost w = self@;
            self.composer.move_line_start();
            proof {
                assert(self@ =~= w.moved(line_start(w.composer.text, w.composer.pos)));
            }
            self.block_aware_delete(Motion::LineEnd);
        } else {
            applied = false;
        }
        self.composer.set_vim_mode(
            if applied {
                after
            } else {
                VimMode::Normal
            },
        );
        proof {
            assert(self@ =~= v.operator_key(key, op));
        }
    }
}


impl Editor {
    /// A key for the composer, in whatever mode it is.
    pub fn press(
        &mut self,
        key: KeyEvent,
        suggestions: &Vec<Suggestion>,
        slash_count: usize,
    ) -> (r: EditorAction)
        requires
            old(self).wf(),
        ensures
            final(self).wf(),
            (final(self)@, r@) == old(self)@.pressed(
                key,
                suggestion_views(suggestions@),
                slash_count as int,
            ),
    {
        proof {
            reveal(EditorView::pressed);
        }
        if self.composer.vim_enabled() {
            match self.composer.vim_mode() {
                VimMode::Normal => {
                    return self.handle_key_normal(key, slash_count);
                },
                VimMode::Operator(op) => {
                    self.handle_key_operator(key, op);
                    return EditorAction::Done;
                },
                VimMode::Insert => {},
            }
        }
        self.handle_key_insert(key, suggestions, slash_count)
    }
}

} // verus!
