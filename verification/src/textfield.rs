//! A one-line text field.

use vstd::prelude::*;
use crate::key::{KeyCode, KeyEvent};
use crate::nav::{min_int, monus};
use crate::text::{byte_at, byte_offset, from_chars, from_range, remove_span, to_chars, trim, trim_bounds, with_inserted, without};

verus! {

/// Text with a cursor.
pub struct TextField {
    chars: Vec<char>,
    pos: usize,
}

/// The text of a field and the cursor as a character position.
#[verifier::ext_equal]
pub struct FieldView {
    pub text: Seq<char>,
    pub pos: int,
}

impl FieldView {
    pub open spec fn empty() -> FieldView {
        FieldView { text: Seq::empty(), pos: 0 }
    }

    pub open spec fn in_text(self) -> bool {
        0 <= self.pos <= self.text.len()
    }

    /// The field after a key: characters are inserted, Backspace and Delete
    /// remove one, the arrows, Home and End move the cursor.
    pub open spec fn after_key(self, key: KeyEvent) -> FieldView {
        match key.code {
            KeyCode::Char(c) => if key.ctrl || key.alt {
                self
            } else {
                FieldView {
                    text: with_inserted(self.text, self.pos, seq![c]),
                    pos: self.pos + 1,
                }
            },
            KeyCode::Backspace => if self.pos == 0 {
                self
            } else {
                FieldView {
                    text: without(self.text, self.pos - 1, self.pos),
                    pos: self.pos - 1,
                }
            },
            KeyCode::Delete => if self.pos == self.text.len() {
                self
            } else {
                FieldView { text: without(self.text, self.pos, self.pos + 1), pos: self.pos }
            },
            KeyCode::Left => FieldView { pos: monus(self.pos, 1), ..self },
            KeyCode::Right => FieldView {
                pos: min_int(self.pos + 1, self.text.len() as int),
                ..self
            },
            KeyCode::Home => FieldView { pos: 0, ..self },
            KeyCode::End => FieldView { pos: self.text.len() as int, ..self },
            _ => self,
        }
    }
}

impl View for TextField {
    type V = FieldView;

    closed spec fn view(&self) -> FieldView {
        FieldView { text: self.chars@, pos: self.pos as int }
    }
}

impl TextField {
    pub open spec fn wf(&self) -> bool {
        self@.in_text()
    }

    pub fn new() -> (r: TextField)
        ensures
            r.wf(),
            r@ == FieldView::empty(),
    {
        TextField { chars: Vec::new(), pos: 0 }
    }

    pub fn text(&self) -> (r: String)
        ensures
            r@ == self@.text,
    {
        from_chars(&self.chars)
    }

    /// Byte offset of the cursor.
    pub fn cursor(&self) -> (r: usize)
        requires
            self.wf(),
        ensures
            r == byte_at(self@.text, self@.pos),
    {
        byte_offset(&self.chars, self.pos)
    }

    /// The cursor counted in characters.
    pub fn cursor_col(&self) -> (r: usize)
        ensures
            r == self@.pos,
    {
        self.pos
    }

    pub fn at_end(&self) -> (r: bool)
        ensures
            r == (self@.pos == self@.text.len()),
    {
        self.pos == self.chars.len()
    }

    /// Whether the field holds nothing but white space.
    pub fn is_blank(&self) -> (r: bool)
        ensures
            r == (trim(self@.text).len() == 0),
    {
        let (a, b) = trim_bounds(&self.chars);
        proof {
            assert(trim(self@.text).len() == b - a);
        }
        a == b
    }

    /// The text without the white space around it.
    pub fn trimmed(&self) -> (r: String)
        ensures
            r@ == trim(self@.text),
    {
        let (a, b) = trim_bounds(&self.chars);
        from_range(&self.chars, a, b)
    }

    /// Replace the text, the cursor at its end.
    pub fn set(&mut self, text: &str)
        ensures
            final(self).wf(),
            final(self)@ == (FieldView { text: text@, pos: text@.len() as int }),
    {
        self.chars = to_chars(text);
        self.pos = self.chars.len();
    }

    pub fn clear(&mut self)
        ensures
            final(self).wf(),
            final(self)@ == FieldView::empty(),
    {
        self.chars = Vec::new();
        self.pos = 0;
    }

    pub fn handle_key(&mut self, key: KeyEvent)
        requires
            old(self).wf(),
        ensures
            final(self).wf(),
            final(self)@ == old(self)@.after_key(key),
    {
        match key.code {
            KeyCode::Char(c) => {
                if !key.ctrl && !key.alt {
                    self.chars.insert(self.pos, c);
                    proof {
                        assert(self.chars@ =~= with_inserted(old(self)@.text, old(self)@.pos, seq![c]));
                        assert(self.chars.len() == self.chars@.len());
                    }
                    self.pos = self.pos + 1;
                }
            },
            KeyCode::Backspace => {
                if self.pos > 0 {
                    self.chars = remove_span(&self.chars, self.pos - 1, self.pos);
                    self.pos = self.pos - 1;
                }
            },
            KeyCode::Delete => {
                if self.pos < self.chars.len() {
                    self.chars = remove_span(&self.chars, self.pos, self.pos + 1);
                }
            },
            KeyCode::Left => {
                if self.pos > 0 {
                    self.pos = self.pos - 1;
                }
            },
            KeyCode::Right => {
                if self.pos < self.chars.len() {
                    self.pos = self.pos + 1;
                }
            },
            KeyCode::Home => {
                self.pos = 0;
            },
            KeyCode::End => {
                self.pos = self.chars.len();
            },
            _ => {},
        }
    }
}

} // verus!
