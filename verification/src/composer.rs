//! Prompt composer: a text buffer with a cursor and vim-style editing.
//!
//! The cursor stands between characters; `cursor` reports it as a byte offset
//! into the text.
//!
//! Modes:
//!   - `Insert`: standard editor.
//!   - `Normal`: motions and single-key edits.
//!   - `Operator`: pending after `d`/`c`, awaiting a motion.

use vstd::prelude::*;
use crate::nav::{max_int, min_int, min_usize, monus};
use crate::text::{byte_at, byte_offset, count_char, count_upto, find, find_from, find_space, floor_position, from_chars, from_range, insert_span, is_floor_position, is_space, is_whitespace, lemma_find_from, lemma_rfind_before, lemma_space_from, push_range, remove_span, rfind, rfind_before, to_chars, with_inserted, without};
use crate::width::{display_width, text_width};

verus! {

/// Prompt glyph shown at the start of the composer input line.
pub const INPUT_PREFIX: &'static str = "❯ ";

/// Display width of [`INPUT_PREFIX`] in terminal columns.
pub fn input_prefix_width() -> (r: usize)
    ensures
        r == display_width(INPUT_PREFIX@),
{
    text_width(INPUT_PREFIX)
}

#[derive(Debug, Clone, Copy, PartialEq, Eq, Structural)]
pub enum VimMode {
    Insert,
    Normal,
    Operator(Operator),
}

#[derive(Debug, Clone, Copy, PartialEq, Eq, Structural)]
pub enum Operator {
    Delete,
    Change,
    Yank,
}

// ---- Lines ----------------------------------------------------------------

/// Start of the line that holds position `pos`.
pub open spec fn line_start(s: Seq<char>, pos: int) -> int {
    rfind_before(s, '\n', pos) + 1
}

/// End of the line that holds position `pos` (before its newline).
pub open spec fn line_end(s: Seq<char>, pos: int) -> int {
    find_from(s, '\n', pos)
}

/// Position on the line above `pos`, in the same column where the line is long
/// enough and at its end otherwise; `pos` itself on the first line.
pub open spec fn position_above(s: Seq<char>, pos: int) -> int {
    let start = line_start(s, pos);
    if start == 0 {
        pos
    } else {
        let above = line_start(s, start - 1);
        above + min_int(pos - start, start - 1 - above)
    }
}

/// Position on the line below `pos`, in the same column where the line is long
/// enough and at its end otherwise; `pos` itself on the last line.
pub open spec fn position_below(s: Seq<char>, pos: int) -> int {
    let end = line_end(s, pos);
    if end == s.len() {
        pos
    } else {
        end + 1 + min_int(pos - line_start(s, pos), line_end(s, end + 1) - (end + 1))
    }
}

/// Start of line number `line`, or of the last line when there are fewer.
pub open spec fn nth_line_start(s: Seq<char>, line: nat) -> int
    decreases line,
{
    if line == 0 {
        0
    } else {
        let start = nth_line_start(s, (line - 1) as nat);
        let end = find_from(s, '\n', start);
        if end == s.len() {
            start
        } else {
            end + 1
        }
    }
}

/// Position at column `col` of line `line`, clamped to the lines and columns
/// that there are.
pub open spec fn position_of(s: Seq<char>, line: nat, col: nat) -> int {
    let start = nth_line_start(s, line);
    min_int(start + col, line_end(s, start))
}

/// The span that deleting the line at `pos` removes: the line with its
/// newline; the last line goes with the newline before it.
pub open spec fn line_deletion(s: Seq<char>, pos: int) -> (int, int) {
    let start = line_start(s, pos);
    let end = line_end(s, pos);
    if end < s.len() {
        (start, end + 1)
    } else if start > 0 {
        (start - 1, s.len() as int)
    } else {
        (0, s.len() as int)
    }
}

// ---- Words ----------------------------------------------------------------

/// What a character is to a word motion.
#[derive(Debug, Clone, Copy, PartialEq, Eq, Structural)]
pub enum CharClass {
    Space,
    Word,
    Punctuation,
}

/// Whether `char::is_alphanumeric` holds of `c`.
pub uninterp spec fn is_alphanumeric(c: char) -> bool;

/// `char::is_alphanumeric`: whether the character has the Unicode property
/// `Alphabetic` or one of the general categories for numbers. Of the ASCII
/// characters these are the letters and the digits; which others they are is
/// named, not stated.
pub assume_specification[ char::is_alphanumeric ](c: char) -> (r: bool)
    ensures
        r == is_alphanumeric(c),
        c <= '\x7f' ==> r == is_ascii_letter_or_digit(c),
;

pub open spec fn is_ascii_letter_or_digit(c: char) -> bool {
    'a' <= c <= 'z' || 'A' <= c <= 'Z' || '0' <= c <= '9'
}

/// A letter or a digit.
pub open spec fn is_letter_or_digit(c: char) -> bool {
    if c <= '\x7f' {
        is_ascii_letter_or_digit(c)
    } else {
        is_alphanumeric(c)
    }
}

/// Class of `c`; with `big_word` only white space parts words.
pub open spec fn class_of(c: char, big_word: bool) -> CharClass {
    if is_space(c) {
        CharClass::Space
    } else if big_word || is_letter_or_digit(c) || c == '_' {
        CharClass::Word
    } else {
        CharClass::Punctuation
    }
}

pub open spec fn classes_of(s: Seq<char>, big_word: bool) -> Seq<CharClass> {
    s.map_values(|c: char| class_of(c, big_word))
}

/// First position at or after `from` whose class is not `class`.
pub open spec fn skip_class(k: Seq<CharClass>, class: CharClass, from: int) -> int
    decreases k.len() - from,
{
    if from >= k.len() {
        k.len() as int
    } else if k[from] != class {
        from
    } else {
        skip_class(k, class, from + 1)
    }
}

/// Start of the run of `class` that ends at `to`.
pub open spec fn rskip_class(k: Seq<CharClass>, class: CharClass, to: int) -> int
    decreases to,
{
    if to <= 0 {
        0
    } else if k[to - 1] != class {
        to
    } else {
        rskip_class(k, class, to - 1)
    }
}

/// Where a forward word motion from `pos` lands: past the rest of the current
/// run of one class and past the white space after it.
pub open spec fn word_forward(k: Seq<CharClass>, pos: int) -> int {
    if pos >= k.len() {
        pos
    } else {
        let past = if k[pos] == CharClass::Space {
            pos
        } else {
            skip_class(k, k[pos], pos)
        };
        skip_class(k, CharClass::Space, past)
    }
}

/// Where a backward word motion from `pos` lands: at the start of the nearest
/// run of one class before the white space before `pos`.
pub open spec fn word_backward(k: Seq<CharClass>, pos: int) -> int {
    let end = rskip_class(k, CharClass::Space, pos);
    if end == 0 {
        0
    } else {
        rskip_class(k, k[end - 1], end)
    }
}

proof fn lemma_skip_class(k: Seq<CharClass>, class: CharClass, from: int)
    requires
        0 <= from <= k.len(),
    ensures
        from <= skip_class(k, class, from) <= k.len(),
        skip_class(k, class, from) < k.len() ==> k[skip_class(k, class, from)] != class,
        forall|i: int| from <= i < skip_class(k, class, from) ==> k[i] == class,
    decreases k.len() - from,
{
    if from < k.len() && k[from] == class {
        lemma_skip_class(k, class, from + 1);
    }
}

proof fn lemma_rskip_class(k: Seq<CharClass>, class: CharClass, to: int)
    requires
        0 <= to <= k.len(),
    ensures
        0 <= rskip_class(k, class, to) <= to,
        rskip_class(k, class, to) > 0 ==> k[rskip_class(k, class, to) - 1] != class,
        forall|i: int| rskip_class(k, class, to) <= i < to ==> k[i] == class,
    decreases to,
{
    if to > 0 && k[to - 1] == class {
        lemma_rskip_class(k, class, to - 1);
    }
}

/// A forward word motion moves on, unless at the end, and lands at the end or
/// on a character that is no white space.
pub proof fn word_forward_lands_on_a_word(k: Seq<CharClass>, pos: int)
    requires
        0 <= pos <= k.len(),
    ensures
        pos <= word_forward(k, pos) <= k.len(),
        pos < k.len() ==> pos < word_forward(k, pos),
        word_forward(k, pos) < k.len() ==> k[word_forward(k, pos)] != CharClass::Space,
{
    if pos < k.len() {
        lemma_skip_class(k, k[pos], pos);
        let past = if k[pos] == CharClass::Space {
            pos
        } else {
            skip_class(k, k[pos], pos)
        };
        lemma_skip_class(k, CharClass::Space, past);
    }
}

/// A backward word motion moves back, unless at the start, and lands at the
/// first character of a run of one class or at the start of the text.
pub proof fn word_backward_lands_on_a_run_start(k: Seq<CharClass>, pos: int)
    requires
        0 <= pos <= k.len(),
    ensures
        0 <= word_backward(k, pos) <= pos,
        0 < pos ==> word_backward(k, pos) < pos,
        word_backward(k, pos) > 0 ==> {
            &&& k[word_backward(k, pos)] != CharClass::Space
            &&& k[word_backward(k, pos) - 1] != k[word_backward(k, pos)]
        },
{
    lemma_rskip_class(k, CharClass::Space, pos);
    let end = rskip_class(k, CharClass::Space, pos);
    if end > 0 {
        lemma_rskip_class(k, k[end - 1], end);
        let start = rskip_class(k, k[end - 1], end);
        if start == end {
            assert(k[end - 1] != k[end - 1]);
        }
        assert(k[start] == k[end - 1]);
    }
}

/// The classes of the characters of a text.
pub fn classify(v: &Vec<char>, big_word: bool) -> (r: Vec<CharClass>)
    ensures
        r@ == classes_of(v@, big_word),
{
    let mut out: Vec<CharClass> = Vec::new();
    let mut i: usize = 0;
    while i < v.len()
        invariant
            i <= v@.len(),
            out@ == classes_of(v@.take(i as int), big_word),
        decreases v@.len() - i,
    {
        let c: char = v[i];
        let class: CharClass = if is_whitespace(c) {
            CharClass::Space
        } else if big_word || c.is_alphanumeric() || c == '_' {
            CharClass::Word
        } else {
            CharClass::Punctuation
        };
        out.push(class);
        i = i + 1;
        proof {
            assert(out@ =~= classes_of(v@.take(i as int), big_word));
        }
    }
    proof {
        assert(v@.take(v@.len() as int) =~= v@);
    }
    out
}

/// Landing position of a forward word motion over classified text.
pub fn next_word(k: &Vec<CharClass>, pos: usize) -> (r: usize)
    requires
        pos <= k@.len(),
    ensures
        r == word_forward(k@, pos as int),
        pos <= r <= k@.len(),
{
    if pos >= k.len() {
        return pos;
    }
    let class: CharClass = k[pos];
    let mut i: usize = pos;
    if class != CharClass::Space {
        while i < k.len() && k[i] == class
            invariant
                pos <= i <= k@.len(),
                skip_class(k@, class, pos as int) == skip_class(k@, class, i as int),
            decreases k@.len() - i,
        {
            i = i + 1;
        }
    }
    let past: usize = i;
    while i < k.len() && k[i] == CharClass::Space
        invariant
            pos <= past <= i <= k@.len(),
            skip_class(k@, CharClass::Space, past as int) == skip_class(
                k@,
                CharClass::Space,
                i as int,
            ),
        decreases k@.len() - i,
    {
        i = i + 1;
    }
    i
}

/// Landing position of a backward word motion over classified text.
pub fn previous_word(k: &Vec<CharClass>, pos: usize) -> (r: usize)
    requires
        pos <= k@.len(),
    ensures
        r == word_backward(k@, pos as int),
        r <= pos,
{
    let mut i: usize = pos;
    while i > 0 && k[i - 1] == CharClass::Space
        invariant
            i <= pos <= k@.len(),
            rskip_class(k@, CharClass::Space, pos as int) == rskip_class(
                k@,
                CharClass::Space,
                i as int,
            ),
        decreases i,
    {
        i = i - 1;
    }
    if i == 0 {
        return 0;
    }
    let end: usize = i;
    let class: CharClass = k[i - 1];
    while i > 0 && k[i - 1] == class
        invariant
            i <= end <= pos <= k@.len(),
            rskip_class(k@, class, end as int) == rskip_class(k@, class, i as int),
        decreases i,
    {
        i = i - 1;
    }
    i
}

// ---- `@` tokens -----------------------------------------------------------

/// Position of the `@` of the token that `pos` stands in: the last `@` before
/// `pos`, at the start of the text or after white space; -1 if there is none.
pub open spec fn at_sign(s: Seq<char>, pos: int) -> int {
    let at = rfind_before(s, '@', pos);
    if at > 0 && !is_space(s[at - 1]) {
        -1
    } else {
        at
    }
}

/// The partial path between the `@` and `pos`, when no white space parts them.
pub open spec fn at_partial(s: Seq<char>, pos: int) -> Option<Seq<char>> {
    let at = at_sign(s, pos);
    if at < 0 || exists|i: int| at < i < pos && is_space(s[i]) {
        None
    } else {
        Some(s.subrange(at + 1, pos))
    }
}

// ---- Motions --------------------------------------------------------------

/// A motion that an operator can be applied to.
#[derive(Debug, Clone, Copy, PartialEq, Eq, Structural)]
pub enum Motion {
    WordForward(bool),
    WordBackward(bool),
    LineEnd,
    LineStart,
    TextStart,
    TextEnd,
}

/// Where a motion from `pos` lands.
pub open spec fn motion_target(s: Seq<char>, pos: int, motion: Motion) -> int {
    match motion {
        Motion::WordForward(big) => word_forward(classes_of(s, big), pos),
        Motion::WordBackward(big) => word_backward(classes_of(s, big), pos),
        Motion::LineEnd => line_end(s, pos),
        Motion::LineStart => line_start(s, pos),
        Motion::TextStart => 0,
        Motion::TextEnd => s.len() as int,
    }
}

/// Motions stay inside the text.
pub proof fn motion_stays_in_text(s: Seq<char>, pos: int, motion: Motion)
    requires
        0 <= pos <= s.len(),
    ensures
        0 <= motion_target(s, pos, motion) <= s.len(),
        (motion is WordForward || motion is LineEnd || motion is TextEnd) ==> pos <= motion_target(
            s,
            pos,
            motion,
        ),
        (motion is WordBackward || motion is LineStart || motion is TextStart) ==> motion_target(
            s,
            pos,
            motion,
        ) <= pos,
{
    match motion {
        Motion::WordForward(big) => word_forward_lands_on_a_word(classes_of(s, big), pos),
        Motion::WordBackward(big) => word_backward_lands_on_a_run_start(classes_of(s, big), pos),
        Motion::LineEnd => lemma_find_from(s, '\n', pos),
        Motion::LineStart => lemma_rfind_before(s, '\n', pos),
        Motion::TextStart => {},
        Motion::TextEnd => {},
    }
}

// ---- The composer ---------------------------------------------------------

/// The prompt buffer with its cursor and editing mode.
pub struct Composer {
    chars: Vec<char>,
    pos: usize,
    vim_mode: VimMode,
    vim_enabled: bool,
    pending_g: bool,
    pending_find: Option<bool>,
}

/// What a composer holds: the text, the cursor as a character position, the
/// mode, and the pending `g` and `f`/`F` keys.
#[verifier::ext_equal]
pub struct ComposerView {
    pub text: Seq<char>,
    pub pos: int,
    pub vim_mode: VimMode,
    pub vim_enabled: bool,
    pub pending_g: bool,
    pub pending_find: Option<bool>,
}

impl ComposerView {
    /// Vim editing switched; off, the composer is in Insert mode with no pending
    /// keys.
    pub open spec fn with_vim(self, on: bool) -> ComposerView {
        if on {
            ComposerView { vim_enabled: true, ..self }
        } else {
            ComposerView {
                vim_enabled: false,
                vim_mode: VimMode::Insert,
                pending_g: false,
                pending_find: None,
                ..self
            }
        }
    }

    /// The same composer with the cursor at `pos`.
    pub open spec fn at(self, pos: int) -> ComposerView {
        ComposerView { pos, ..self }
    }

    /// The composer without the text from `from` up to `to`, the cursor at
    /// `from`.
    pub open spec fn cut(self, from: int, to: int) -> ComposerView {
        ComposerView { text: without(self.text, from, to), pos: from, ..self }
    }

    /// The composer with `t` inserted at the cursor, the cursor behind it.
    pub open spec fn typed(self, t: Seq<char>) -> ComposerView {
        ComposerView {
            text: with_inserted(self.text, self.pos, t),
            pos: self.pos + t.len(),
            ..self
        }
    }

    /// The composer with text `t`, the cursor at its end.
    pub open spec fn with_text(self, t: Seq<char>) -> ComposerView {
        ComposerView { text: t, pos: t.len() as int, ..self }
    }

    /// The composer in another mode.
    pub open spec fn in_mode(self, vim_mode: VimMode) -> ComposerView {
        ComposerView { vim_mode, ..self }
    }

    pub open spec fn with_pending_g(self, pending_g: bool) -> ComposerView {
        ComposerView { pending_g, ..self }
    }

    pub open spec fn with_pending_find(self, pending_find: Option<bool>) -> ComposerView {
        ComposerView { pending_find, ..self }
    }

    /// The composer after an operator deleted along `motion`: the span between
    /// the cursor and the landing position is gone.
    pub open spec fn deleted_along(self, motion: Motion) -> ComposerView {
        let to = motion_target(self.text, self.pos, motion);
        self.cut(min_int(self.pos, to), max_int(self.pos, to))
    }

    /// The composer after its current line was deleted.
    pub open spec fn line_deleted(self) -> ComposerView {
        let (from, to) = line_deletion(self.text, self.pos);
        let left = self.cut(from, to);
        left.at(line_start(left.text, from))
    }

    /// Where a forward search for `target` on the current line lands: on its
    /// next occurrence past the character at the cursor.
    pub open spec fn found_forward(self, target: char) -> ComposerView {
        let end = line_end(self.text, self.pos);
        let hit = find_from(self.text, target, self.pos + 1);
        if self.pos < end && hit < end {
            self.at(hit)
        } else {
            self
        }
    }

    /// Where a backward search for `target` on the current line lands.
    pub open spec fn found_backward(self, target: char) -> ComposerView {
        let hit = rfind_before(self.text, target, self.pos);
        if hit >= line_start(self.text, self.pos) {
            self.at(hit)
        } else {
            self
        }
    }

    /// The composer with the `@` token at the cursor replaced by `@` and `t`.
    /// Without an active token nothing changes.
    pub open spec fn at_token_replaced(self, t: Seq<char>) -> ComposerView {
        let at = at_sign(self.text, self.pos);
        if at_partial(self.text, self.pos) is None {
            self
        } else {
            ComposerView {
                text: self.text.subrange(0, at + 1) + t + self.text.subrange(
                    self.pos,
                    self.text.len() as int,
                ),
                pos: at + 1 + t.len(),
                ..self
            }
        }
    }

    /// Number of lines: newlines plus one.
    pub open spec fn line_total(self) -> int {
        count_char(self.text, '\n') as int + 1
    }

    /// The line that the cursor stands in, from 0.
    pub open spec fn cursor_line(self) -> int {
        count_char(self.text.take(self.pos), '\n') as int
    }

    pub open spec fn in_text(self) -> bool {
        0 <= self.pos <= self.text.len()
    }
}

impl View for Composer {
    type V = ComposerView;

    closed spec fn view(&self) -> ComposerView {
        ComposerView {
            text: self.chars@,
            pos: self.pos as int,
            vim_mode: self.vim_mode,
            vim_enabled: self.vim_enabled,
            pending_g: self.pending_g,
            pending_find: self.pending_find,
        }
    }
}

impl Composer {
    /// The cursor stands inside the text or at one of its ends.
    pub open spec fn wf(&self) -> bool {
        self@.in_text()
    }

    /// An empty composer; with vim editing it starts in Normal mode.
    pub fn new(vim_enabled: bool) -> (r: Composer)
        ensures
            r.wf(),
            r@ == (ComposerView {
                text: Seq::empty(),
                pos: 0,
                vim_mode: if vim_enabled {
                    VimMode::Normal
                } else {
                    VimMode::Insert
                },
                vim_enabled,
                pending_g: false,
                pending_find: None,
            }),
    {
        Composer {
            chars: Vec::new(),
            pos: 0,
            vim_mode: if vim_enabled {
                VimMode::Normal
            } else {
                VimMode::Insert
            },
            vim_enabled,
            pending_g: false,
            pending_find: None,
        }
    }

    /// Switch vim editing; off, the composer returns to Insert mode and drops
    /// pending keys.
    pub fn set_vim_enabled(&mut self, enabled: bool)
        ensures
            final(self)@ == old(self)@.with_vim(enabled),
    {
        self.vim_enabled = enabled;
        if !enabled {
            self.vim_mode = VimMode::Insert;
            self.pending_g = false;
            self.pending_find = None;
        }
    }

    pub fn pending_g(&self) -> (r: bool)
        ensures
            r == self@.pending_g,
    {
        self.pending_g
    }

    pub fn set_pending_g(&mut self, on: bool)
        ensures
            final(self)@ == old(self)@.with_pending_g(on),
    {
        self.pending_g = on;
    }

    pub fn pending_find(&self) -> (r: Option<bool>)
        ensures
            r == self@.pending_find,
    {
        self.pending_find
    }

    pub fn set_pending_find(&mut self, dir: Option<bool>)
        ensures
            final(self)@ == old(self)@.with_pending_find(dir),
    {
        self.pending_find = dir;
    }

    /// `f<char>`: move forward on the current line to the next occurrence of
    /// `target`, past the character under the cursor. Stays where it is when
    /// there is none.
    pub fn find_char_forward(&mut self, target: char)
        requires
            old(self).wf(),
        ensures
            final(self).wf(),
            final(self)@ == old(self)@.found_forward(target),
    {
        proof {
            lemma_find_from(self@.text, '\n', self@.pos);
        }
        let end: usize = find(&self.chars, '\n', self.pos);
        if self.pos >= end {
            return;
        }
        proof {
            lemma_find_from(self@.text, target, self@.pos + 1);
        }
        let hit: usize = find(&self.chars, target, self.pos + 1);
        if hit < end {
            self.pos = hit;
        }
    }

    /// `F<char>`: move backward on the current line to the previous occurrence
    /// of `target`. Stays where it is when there is none.
    pub fn find_char_backward(&mut self, target: char)
        requires
            old(self).wf(),
        ensures
            final(self).wf(),
            final(self)@ == old(self)@.found_backward(target),
    {
        let start: usize = self.current_line_start();
        match rfind(&self.chars, target, self.pos) {
            Some(hit) => {
                if hit >= start {
                    self.pos = hit;
                }
            },
            None => {},
        }
    }

    /// The text of the buffer.
    pub fn text(&self) -> (r: String)
        ensures
            r@ == self@.text,
    {
        from_chars(&self.chars)
    }

    /// The characters of the buffer.
    pub fn chars(&self) -> (r: &Vec<char>)
        ensures
            r@ == self@.text,
    {
        &self.chars
    }

    /// Byte offset of the cursor.
    pub fn cursor(&self) -> (r: usize)
        requires
            self.wf(),
        ensures
            r == byte_at(self@.text, self@.pos),
    {
        byte_offset(&self.chars, self.pos)
    }

    /// Character position of the cursor.
    pub fn position(&self) -> (r: usize)
        ensures
            r == self@.pos,
    {
        self.pos
    }

    /// Number of characters in the buffer.
    pub fn char_count(&self) -> (r: usize)
        ensures
            r == self@.text.len(),
    {
        self.chars.len()
    }

    /// Move the cursor to byte offset `byte`: past the end it stops at the end,
    /// inside a character before that character.
    pub fn set_cursor(&mut self, byte: usize)
        ensures
            final(self).wf(),
            final(self)@ == old(self)@.at(final(self)@.pos),
            is_floor_position(old(self)@.text, byte as int, final(self)@.pos),
    {
        self.pos = floor_position(&self.chars, byte);
    }

    /// Move the cursor to character position `pos`.
    pub fn set_position(&mut self, pos: usize)
        requires
            pos <= old(self)@.text.len(),
        ensures
            final(self).wf(),
            final(self)@ == old(self)@.at(pos as int),
    {
        self.pos = pos;
    }

    /// Move the cursor to column `col` of line `line`, both clamped to what the
    /// text has.
    pub fn set_cursor_from_line_col(&mut self, line: usize, col: usize)
        ensures
            final(self).wf(),
            final(self)@ == old(self)@.at(position_of(old(self)@.text, line as nat, col as nat)),
    {
        let mut start: usize = 0;
        let mut done: usize = 0;
        while done < line
            invariant
                done <= line,
                start <= self.chars@.len(),
                start == nth_line_start(self.chars@, done as nat),
                self@ == old(self)@,
            decreases line - done,
        {
            let end: usize = find(&self.chars, '\n', start);
            done = done + 1;
            if end < self.chars.len() {
                start = end + 1;
            }
        }
        proof {
            lemma_find_from(self@.text, '\n', start as int);
        }
        let end: usize = find(&self.chars, '\n', start);
        self.pos = if col > end - start {
            end
        } else {
            start + col
        };
    }

    pub fn is_empty(&self) -> (r: bool)
        ensures
            r == (self@.text.len() == 0),
    {
        self.chars.len() == 0
    }

    pub fn vim_mode(&self) -> (r: VimMode)
        ensures
            r == self@.vim_mode,
    {
        self.vim_mode
    }

    pub fn set_vim_mode(&mut self, mode: VimMode)
        ensures
            final(self)@ == old(self)@.in_mode(mode),
    {
        self.vim_mode = mode;
    }

    pub fn vim_enabled(&self) -> (r: bool)
        ensures
            r == self@.vim_enabled,
    {
        self.vim_enabled
    }

    /// Empty the buffer. The mode stays.
    pub fn clear(&mut self)
        ensures
            final(self).wf(),
            final(self)@ == old(self)@.with_text(Seq::empty()),
    {
        self.chars = Vec::new();
        self.pos = 0;
    }

    /// Replace the whole text, the cursor at its end.
    pub fn set(&mut self, text: &str)
        ensures
            final(self).wf(),
            final(self)@ == old(self)@.with_text(text@),
    {
        self.chars = to_chars(text);
        self.pos = self.chars.len();
    }

    /// Insert one character at the cursor.
    pub fn insert_char(&mut self, ch: char)
        requires
            old(self).wf(),
        ensures
            final(self).wf(),
            final(self)@ == old(self)@.typed(seq![ch]),
    {
        self.chars.insert(self.pos, ch);
        proof {
            assert(self.chars@ =~= with_inserted(old(self)@.text, old(self)@.pos, seq![ch]));
            assert(self.chars.len() == self.chars@.len());
        }
        self.pos = self.pos + 1;
    }

    /// Insert text at the cursor.
    pub fn insert_str(&mut self, text: &str)
        requires
            old(self).wf(),
        ensures
            final(self).wf(),
            final(self)@ == old(self)@.typed(text@),
    {
        let t: Vec<char> = to_chars(text);
        self.chars = insert_span(&self.chars, self.pos, &t);
        proof {
            assert(self.chars.len() == self.chars@.len());
        }
        self.pos = self.pos + t.len();
    }

    /// Remove the text between two positions and put the cursor there.
    pub fn delete_range(&mut self, from: usize, to: usize)
        requires
            from <= to <= old(self)@.text.len(),
        ensures
            final(self).wf(),
            final(self)@ == old(self)@.cut(from as int, to as int),
    {
        self.chars = remove_span(&self.chars, from, to);
        self.pos = from;
    }

    /// Delete the character before the cursor.
    pub fn delete_left(&mut self)
        requires
            old(self).wf(),
        ensures
            final(self).wf(),
            final(self)@ == if old(self)@.pos == 0 {
                old(self)@
            } else {
                old(self)@.cut(old(self)@.pos - 1, old(self)@.pos)
            },
    {
        if self.pos > 0 {
            self.delete_range(self.pos - 1, self.pos);
        }
    }

    /// Delete the character after the cursor.
    pub fn delete_right(&mut self)
        requires
            old(self).wf(),
        ensures
            final(self).wf(),
            final(self)@ == if old(self)@.pos == old(self)@.text.len() {
                old(self)@
            } else {
                old(self)@.cut(old(self)@.pos, old(self)@.pos + 1)
            },
    {
        if self.pos < self.chars.len() {
            self.delete_range(self.pos, self.pos + 1);
        }
    }

    pub fn move_left(&mut self)
        requires
            old(self).wf(),
        ensures
            final(self).wf(),
            final(self)@ == old(self)@.at(monus(old(self)@.pos, 1)),
    {
        if self.pos > 0 {
            self.pos = self.pos - 1;
        }
    }

    pub fn move_right(&mut self)
        requires
            old(self).wf(),
        ensures
            final(self).wf(),
            final(self)@ == old(self)@.at(
                min_int(old(self)@.pos + 1, old(self)@.text.len() as int),
            ),
    {
        if self.pos < self.chars.len() {
            self.pos = self.pos + 1;
        }
    }

    fn current_line_start(&self) -> (r: usize)
        requires
            self.wf(),
        ensures
            r == line_start(self@.text, self@.pos),
            r <= self@.pos,
            r > 0 ==> self@.text[r - 1] == '\n',
    {
        proof {
            lemma_rfind_before(self@.text, '\n', self@.pos);
        }
        match rfind(&self.chars, '\n', self.pos) {
            Some(i) => i + 1,
            None => 0,
        }
    }

    /// Move up one line, keeping the column where the line is long enough.
    pub fn move_up(&mut self)
        requires
            old(self).wf(),
        ensures
            final(self).wf(),
            final(self)@ == old(self)@.at(position_above(old(self)@.text, old(self)@.pos)),
    {
        let start: usize = self.current_line_start();
        if start == 0 {
            return;
        }
        proof {
            lemma_rfind_before(self@.text, '\n', start - 1);
        }
        let above: usize = match rfind(&self.chars, '\n', start - 1) {
            Some(i) => i + 1,
            None => 0,
        };
        self.pos = above + min_usize(self.pos - start, start - 1 - above);
    }

    /// Move down one line, keeping the column where the line is long enough.
    pub fn move_down(&mut self)
        requires
            old(self).wf(),
        ensures
            final(self).wf(),
            final(self)@ == old(self)@.at(position_below(old(self)@.text, old(self)@.pos)),
    {
        let start: usize = self.current_line_start();
        proof {
            lemma_find_from(self@.text, '\n', self@.pos);
        }
        let end: usize = find(&self.chars, '\n', self.pos);
        if end == self.chars.len() {
            return;
        }
        let below: usize = end + 1;
        let below_end: usize = find(&self.chars, '\n', below);
        self.pos = below + min_usize(self.pos - start, below_end - below);
    }

    pub fn move_line_start(&mut self)
        requires
            old(self).wf(),
        ensures
            final(self).wf(),
            final(self)@ == old(self)@.at(line_start(old(self)@.text, old(self)@.pos)),
    {
        self.pos = self.current_line_start();
    }

    pub fn move_line_end(&mut self)
        requires
            old(self).wf(),
        ensures
            final(self).wf(),
            final(self)@ == old(self)@.at(line_end(old(self)@.text, old(self)@.pos)),
    {
        self.pos = find(&self.chars, '\n', self.pos);
    }

    /// Move to the start of the buffer (`gg`).
    pub fn move_buffer_start(&mut self)
        ensures
            final(self).wf(),
            final(self)@ == old(self)@.at(0),
    {
        self.pos = 0;
    }

    /// Move to the start of the last line of the buffer (`G`).
    pub fn move_buffer_end(&mut self)
        ensures
            final(self).wf(),
            final(self)@ == old(self)@.at(
                line_start(old(self)@.text, old(self)@.text.len() as int),
            ),
    {
        self.pos = match rfind(&self.chars, '\n', self.chars.len()) {
            Some(i) => i + 1,
            None => 0,
        };
    }

    /// The position that `motion` lands on from the cursor.
    pub fn target(&self, motion: Motion) -> (r: usize)
        requires
            self.wf(),
        ensures
            r == motion_target(self@.text, self@.pos, motion),
            r <= self@.text.len(),
    {
        proof {
            motion_stays_in_text(self@.text, self@.pos, motion);
        }
        match motion {
            Motion::WordForward(big) => {
                let k: Vec<CharClass> = classify(&self.chars, big);
                next_word(&k, self.pos)
            },
            Motion::WordBackward(big) => {
                let k: Vec<CharClass> = classify(&self.chars, big);
                previous_word(&k, self.pos)
            },
            Motion::LineEnd => find(&self.chars, '\n', self.pos),
            Motion::LineStart => self.current_line_start(),
            Motion::TextStart => 0,
            Motion::TextEnd => self.chars.len(),
        }
    }

    /// Move along `motion`.
    pub fn move_along(&mut self, motion: Motion)
        requires
            old(self).wf(),
        ensures
            final(self).wf(),
            final(self)@ == old(self)@.at(
                motion_target(old(self)@.text, old(self)@.pos, motion),
            ),
    {
        self.pos = self.target(motion);
    }

    /// Delete between the cursor and where `motion` lands.
    pub fn delete_along(&mut self, motion: Motion)
        requires
            old(self).wf(),
        ensures
            final(self).wf(),
            final(self)@ == old(self)@.deleted_along(motion),
    {
        let to: usize = self.target(motion);
        if to <= self.pos {
            self.delete_range(to, self.pos);
        } else {
            self.delete_range(self.pos, to);
        }
    }

    /// Word-forward (`w`/`W`). With `big_word` only white space parts words;
    /// without it the motion also stops where letters meet punctuation.
    pub fn move_word_forward(&mut self, big_word: bool)
        requires
            old(self).wf(),
        ensures
            final(self).wf(),
            final(self)@ == old(self)@.at(
                motion_target(old(self)@.text, old(self)@.pos, Motion::WordForward(big_word)),
            ),
    {
        self.move_along(Motion::WordForward(big_word));
    }

    /// Word-backward (`b`/`B`).
    pub fn move_word_backward(&mut self, big_word: bool)
        requires
            old(self).wf(),
        ensures
            final(self).wf(),
            final(self)@ == old(self)@.at(
                motion_target(old(self)@.text, old(self)@.pos, Motion::WordBackward(big_word)),
            ),
    {
        self.move_along(Motion::WordBackward(big_word));
    }

    /// Delete up to where `w`/`W` would land.
    pub fn delete_word_forward(&mut self, big_word: bool)
        requires
            old(self).wf(),
        ensures
            final(self).wf(),
            final(self)@ == old(self)@.deleted_along(Motion::WordForward(big_word)),
    {
        self.delete_along(Motion::WordForward(big_word));
    }

    /// Delete back to where `b`/`B` would land.
    pub fn delete_word_backward(&mut self, big_word: bool)
        requires
            old(self).wf(),
        ensures
            final(self).wf(),
            final(self)@ == old(self)@.deleted_along(Motion::WordBackward(big_word)),
    {
        self.delete_along(Motion::WordBackward(big_word));
    }

    /// `d$`: delete to the end of the current line.
    pub fn delete_to_line_end(&mut self)
        requires
            old(self).wf(),
        ensures
            final(self).wf(),
            final(self)@ == old(self)@.deleted_along(Motion::LineEnd),
    {
        self.delete_along(Motion::LineEnd);
    }

    /// `d0`: delete back to the start of the current line.
    pub fn delete_to_line_start(&mut self)
        requires
            old(self).wf(),
        ensures
            final(self).wf(),
            final(self)@ == old(self)@.deleted_along(Motion::LineStart),
    {
        self.delete_along(Motion::LineStart);
    }

    /// `dd`: delete the line under the cursor with its newline. The last line
    /// goes with the newline before it, so that no empty line is left behind.
    /// The cursor lands at the start of the line that is then current.
    pub fn delete_current_line(&mut self)
        requires
            old(self).wf(),
        ensures
            final(self).wf(),
            final(self)@ == old(self)@.line_deleted(),
    {
        let start: usize = self.current_line_start();
        proof {
            lemma_find_from(self@.text, '\n', self@.pos);
        }
        let end: usize = find(&self.chars, '\n', self.pos);
        if end < self.chars.len() {
            self.delete_range(start, end + 1);
        } else if start > 0 {
            self.delete_range(start - 1, self.chars.len());
        } else {
            self.delete_range(0, self.chars.len());
        }
        self.move_line_start();
    }

    /// `dG`: delete to the end of the buffer.
    pub fn delete_to_buffer_end(&mut self)
        requires
            old(self).wf(),
        ensures
            final(self).wf(),
            final(self)@ == old(self)@.deleted_along(Motion::TextEnd),
    {
        self.delete_along(Motion::TextEnd);
    }

    /// `dgg`: delete from the start of the buffer to the cursor.
    pub fn delete_to_buffer_start(&mut self)
        requires
            old(self).wf(),
        ensures
            final(self).wf(),
            final(self)@ == old(self)@.deleted_along(Motion::TextStart),
    {
        self.delete_along(Motion::TextStart);
    }

    /// `o`: open an empty line below the current one and land on it.
    pub fn open_below(&mut self)
        requires
            old(self).wf(),
        ensures
            final(self).wf(),
            final(self)@ == old(self)@.at(line_end(old(self)@.text, old(self)@.pos)).typed(
                seq!['\n'],
            ),
    {
        self.move_line_end();
        self.insert_char('\n');
    }

    /// `O`: open an empty line above the current one and land on it.
    pub fn open_above(&mut self)
        requires
            old(self).wf(),
        ensures
            final(self).wf(),
            final(self)@ == ({
                let start = line_start(old(self)@.text, old(self)@.pos);
                old(self)@.at(start).typed(seq!['\n']).at(start)
            }),
    {
        self.move_line_start();
        self.insert_char('\n');
        self.move_left();
    }

    /// Number of lines: newlines plus one, which must be a `usize`.
    pub fn line_count(&self) -> (r: usize)
        requires
            self@.line_total() <= usize::MAX,
        ensures
            r == self@.line_total(),
            self@.in_text() ==> self@.cursor_line() < r,
    {
        proof {
            assert(self@.text.take(self@.text.len() as int) =~= self@.text);
            if self@.in_text() {
                cursor_line_is_a_line(self@);
            }
        }
        count_upto(&self.chars, '\n', self.chars.len()) + 1
    }

    /// Position of the `@` of the token at the cursor. The `@` must stand at the
    /// start of the text or after white space, so that addresses such as
    /// `user@example.com` are no token, and no white space may follow it.
    pub(crate) fn at_position(&self) -> (r: Option<usize>)
        requires
            self.wf(),
        ensures
            match r {
                Some(at) => at_partial(self@.text, self@.pos) is Some && at == at_sign(
                    self@.text,
                    self@.pos,
                ) && at < self@.pos,
                None => at_partial(self@.text, self@.pos) is None,
            },
    {
        proof {
            lemma_rfind_before(self@.text, '@', self@.pos);
        }
        match rfind(&self.chars, '@', self.pos) {
            None => None,
            Some(at) => {
                if at > 0 && !is_whitespace(self.chars[at - 1]) {
                    return None;
                }
                let space: usize = find_space(&self.chars, at + 1);
                proof {
                    lemma_space_from(self@.text, at + 1);
                }
                if space < self.pos {
                    return None;
                }
                proof {
                    assert forall|i: int| at < i < self@.pos implies !is_space(self@.text[i]) by {}
                }
                Some(at)
            },
        }
    }

    /// The partial path of the `@` token at the cursor.
    pub fn at_query(&self) -> (r: Option<String>)
        requires
            self.wf(),
        ensures
            match r {
                Some(q) => at_partial(self@.text, self@.pos) == Some(q@),
                None => at_partial(self@.text, self@.pos) is None,
            },
    {
        match self.at_position() {
            Some(at) => Some(from_range(&self.chars, at + 1, self.pos)),
            None => None,
        }
    }

    /// Replace the `@partial` left of the cursor with `@{replacement}`. Nothing
    /// changes when no `@` token is active.
    pub fn replace_at_token(&mut self, replacement: &str)
        requires
            old(self).wf(),
        ensures
            final(self).wf(),
            final(self)@ == old(self)@.at_token_replaced(replacement@),
    {
        let at: usize = match self.at_position() {
            None => {
                return;
            },
            Some(at) => at,
        };
        let t: Vec<char> = to_chars(replacement);
        let mut new: Vec<char> = Vec::new();
        push_range(&mut new, &self.chars, 0, at + 1);
        push_range(&mut new, &t, 0, t.len());
        let new_pos: usize = new.len();
        push_range(&mut new, &self.chars, self.pos, self.chars.len());
        proof {
            assert(t@.subrange(0, t@.len() as int) =~= t@);
            assert(new@ =~= old(self)@.at_token_replaced(replacement@).text);
        }
        self.chars = new;
        self.pos = new_pos;
    }

    /// The cursor's line and column, both counted in characters from 0.
    pub fn cursor_line_col(&self) -> (r: (usize, usize))
        requires
            self.wf(),
        ensures
            r.0 == self@.cursor_line(),
            r.1 == self@.pos - line_start(self@.text, self@.pos),
    {
        let line: usize = count_upto(&self.chars, '\n', self.pos);
        let start: usize = self.current_line_start();
        (line, self.pos - start)
    }
}

proof fn lemma_count_char_prefix(s: Seq<char>, c: char, n: int)
    requires
        0 <= n <= s.len(),
    ensures
        count_char(s.take(n), c) <= count_char(s, c),
    decreases s.len(),
{
    if n < s.len() {
        lemma_count_char_prefix(s.drop_last(), c, n);
        assert(s.drop_last().take(n) =~= s.take(n));
    } else {
        assert(s.take(n) =~= s);
    }
}

/// The cursor's line is below the number of lines, wherever the cursor stands.
pub proof fn cursor_line_is_a_line(c: ComposerView)
    requires
        c.in_text(),
    ensures
        c.cursor_line() < c.line_total(),
{
    lemma_count_char_prefix(c.text, '\n', c.pos);
}

} // verus!
