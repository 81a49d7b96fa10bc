//! Key presses as plain values.

use vstd::prelude::*;

verus! {

#[derive(Debug, Clone, Copy, PartialEq, Eq, Structural)]
pub enum KeyCode {
    Char(char),
    Enter,
    Esc,
    Backspace,
    Delete,
    Left,
    Right,
    Up,
    Down,
    Home,
    End,
    Tab,
    BackTab,
    PageUp,
    PageDown,
    CapsLock,
    ScrollLock,
    NumLock,
    Modifier,
    Other,
}

#[derive(Debug, Clone, Copy, PartialEq, Eq, Structural)]
pub enum KeyEventKind {
    Press,
    Repeat,
    Release,
}

#[derive(Debug, Clone, Copy, PartialEq, Eq, Structural)]
pub struct KeyEvent {
    pub code: KeyCode,
    pub ctrl: bool,
    pub shift: bool,
    pub alt: bool,
    pub kind: KeyEventKind,
}

impl KeyEvent {
    /// A press of `code` without modifiers.
    pub fn plain(code: KeyCode) -> (r: KeyEvent)
        ensures
            r == (KeyEvent {
                code,
                ctrl: false,
                shift: false,
                alt: false,
                kind: KeyEventKind::Press,
            }),
    {
        KeyEvent { code, ctrl: false, shift: false, alt: false, kind: KeyEventKind::Press }
    }

    /// A modifier or lock key on its own.
    pub open spec fn only_modifier(self) -> bool {
        self.code is Modifier || self.code is CapsLock || self.code is NumLock
            || self.code is ScrollLock
    }

    /// Control held without Shift, with the letter `lower` or `upper`.
    pub open spec fn ctrl_letter(self, lower: char, upper: char) -> bool {
        self.ctrl && !self.shift && (self.code == KeyCode::Char(lower) || self.code
            == KeyCode::Char(upper))
    }

    /// Control and Shift with a letter, in either of the forms in which
    /// terminals report it.
    pub open spec fn ctrl_shift_letter(self, lower: char, upper: char) -> bool {
        self.ctrl && (self.code == KeyCode::Char(upper) || (self.shift && self.code
            == KeyCode::Char(lower)))
    }
}

/// Whether the key is handled at all: releases are not.
pub fn accepts_key(key: &KeyEvent) -> (r: bool)
    ensures
        r == !(key.kind is Release),
{
    matches!(key.kind, KeyEventKind::Press | KeyEventKind::Repeat)
}

/// Whether a modifier or lock key was pressed on its own.
pub fn is_modifier_only(key: &KeyEvent) -> (r: bool)
    ensures
        r == key.only_modifier(),
{
    matches!(
        key.code,
        KeyCode::Modifier | KeyCode::CapsLock | KeyCode::NumLock | KeyCode::ScrollLock
    )
}

/// `Ctrl+X`: force-close the embedded pane.
pub fn is_pane_force_close(key: &KeyEvent) -> (r: bool)
    ensures
        r == key.ctrl_letter('x', 'X'),
{
    key.ctrl && !key.shift && (key.code == KeyCode::Char('x') || key.code == KeyCode::Char('X'))
}

/// `Ctrl+O`: toggle focus between the embedded pane and the composer.
pub fn is_pane_focus_toggle(key: &KeyEvent) -> (r: bool)
    ensures
        r == key.ctrl_letter('o', 'O'),
{
    key.ctrl && !key.shift && (key.code == KeyCode::Char('o') || key.code == KeyCode::Char('O'))
}

/// `Ctrl+Shift+Y`.
pub fn is_ctrl_shift_y(key: &KeyEvent) -> (r: bool)
    ensures
        r == key.ctrl_shift_letter('y', 'Y'),
{
    key.ctrl && (key.code == KeyCode::Char('Y') || (key.shift && key.code == KeyCode::Char('y')))
}

/// `Ctrl+Shift+C`.
pub fn is_ctrl_shift_c(key: &KeyEvent) -> (r: bool)
    ensures
        r == key.ctrl_shift_letter('c', 'C'),
{
    key.ctrl && (key.code == KeyCode::Char('C') || (key.shift && key.code == KeyCode::Char('c')))
}

} // verus!
