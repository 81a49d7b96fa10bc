//! What the mouse does.

use vstd::prelude::*;
use crate::app::command::PaneSide;
use crate::app::effect::{Effect, EffectView, Overlay, copy_effect, copying};
use crate::app::history::EntryView;
use crate::app::keys::layer_done;
use crate::app::state::{App, AppView, Pane, Screen, Selection, Split};
use crate::app::transcript::{box_scrolled, box_toggled, chip_toggled, scroll_box, toggle_box, toggle_chip};
use crate::composer::{INPUT_PREFIX, VimMode, input_prefix_width, position_of};
use crate::context_menu::{ContextMenu, MenuView, menu_items};
use crate::editor::EditorView;
use crate::geometry::{Rect, point_in};
use crate::nav::{max_int, min_int, monus};
use crate::width::display_width;

verus! {

#[derive(Debug, Clone, Copy, PartialEq, Eq, Structural)]
pub enum MouseButton {
    Left,
    Right,
    Middle,
}

#[derive(Debug, Clone, Copy, PartialEq, Eq, Structural)]
pub enum MouseKind {
    Down(MouseButton),
    Up(MouseButton),
    Drag(MouseButton),
    Moved,
    ScrollUp,
    ScrollDown,
    ScrollLeft,
    ScrollRight,
}

/// A mouse event at a cell of the terminal.
#[derive(Debug, Clone, Copy, PartialEq, Eq, Structural)]
pub struct MouseEvent {
    pub kind: MouseKind,
    pub column: u16,
    pub row: u16,
}

/// The surroundings of a mouse event: the terminal, whether the clipboard is out
/// of reach, and the clock.
#[derive(Debug, Clone, Copy)]
pub struct MouseContext {
    pub terminal: Rect,
    pub is_ssh: bool,
    pub now: u64,
}

/// Lines that a turn of the wheel scrolls.
pub const WHEEL_LINES: usize = 3;

// ---- The pane -------------------------------------------------------------

/// The share of a pane whose divider is dragged to a cell, between 15 and 85
/// percent.
pub open spec fn dragged_split(side: PaneSide, body: Rect, col: int, row: int) -> Option<Split> {
    let across = max_int(body.width as int, 1);
    let down = max_int(body.height as int, 1);
    match side {
        PaneSide::Left => Some(bounded_split(monus(col, body.x as int), across)),
        PaneSide::Right => Some(bounded_split(monus(body.right(), col), across)),
        PaneSide::Top => Some(bounded_split(monus(row, body.y as int), down)),
        PaneSide::Bottom => Some(bounded_split(monus(body.bottom(), row), down)),
        PaneSide::Full => None,
    }
}

pub open spec fn bounded_split(part: int, whole: int) -> Split {
    if part * 100 < 15 * whole {
        Split { part: 15, whole: 100 }
    } else if part * 100 > 85 * whole {
        Split { part: 85, whole: 100 }
    } else {
        Split { part: part as u32, whole: whole as u32 }
    }
}

/// However a divider is dragged, both sides keep at least 15 percent.
pub proof fn split_leaves_room(side: PaneSide, body: Rect, col: u16, row: u16)
    ensures
        match dragged_split(side, body, col as int, row as int) {
            Some(s) => s.whole > 0 && 15 * s.whole <= 100 * s.part <= 85 * s.whole,
            None => side is Full,
        },
{
}

fn bound_split(part: u32, whole: u32) -> (r: Split)
    requires
        part <= 0x1_ffff,
        1 <= whole <= 0xffff,
    ensures
        r == bounded_split(part as int, whole as int),
{
    if part * 100 < 15 * whole {
        Split { part: 15, whole: 100 }
    } else if part * 100 > 85 * whole {
        Split { part: 85, whole: 100 }
    } else {
        Split { part, whole }
    }
}

fn less(a: u32, b: u32) -> (r: u32)
    ensures
        r == monus(a as int, b as int),
{
    if a > b {
        a - b
    } else {
        0
    }
}

fn at_least_one(n: u16) -> (r: u32)
    ensures
        r == max_int(n as int, 1),
{
    if n == 0 {
        1
    } else {
        n as u32
    }
}

/// The share of a pane whose divider is dragged to a cell.
pub fn split_for_drag(side: PaneSide, body: Rect, col: u16, row: u16) -> (r: Option<Split>)
    ensures
        r == dragged_split(side, body, col as int, row as int),
{
    let across: u32 = at_least_one(body.width);
    let down: u32 = at_least_one(body.height);
    match side {
        PaneSide::Left => Some(bound_split(less(col as u32, body.x as u32), across)),
        PaneSide::Right => Some(
            bound_split(less(body.x as u32 + body.width as u32, col as u32), across),
        ),
        PaneSide::Top => Some(bound_split(less(row as u32, body.y as u32), down)),
        PaneSide::Bottom => Some(
            bound_split(less(body.y as u32 + body.height as u32, row as u32), down),
        ),
        PaneSide::Full => None,
    }
}

pub open spec fn in_area(area: Option<Rect>, m: MouseEvent) -> bool {
    area is Some && area->0.has(m.column as int, m.row as int)
}

/// A cell moved into an area.
pub open spec fn clamped(area: Option<Rect>, col: int, row: int) -> (u16, u16) {
    match area {
        None => (col as u16, row as u16),
        Some(a) => (
            min_int(max_int(col, a.x as int), a.x + monus(a.width as int, 1)) as u16,
            min_int(max_int(row, a.y as int), a.y + monus(a.height as int, 1)) as u16,
        ),
    }
}

/// What a row of the chat belongs to.
pub open spec fn row_target(rows: Seq<Option<usize>>, rel: int) -> Option<usize> {
    if 0 <= rel < rows.len() {
        rows[rel]
    } else {
        None
    }
}

/// The place in the composer's text under a click: its line and column. The box
/// has a border, but none at the top when a queue is above it.
pub open spec fn click_target(
    outer: Rect,
    queue_above: bool,
    prefix: int,
    m: MouseEvent,
) -> Option<(int, int)> {
    let top = min_int(
        outer.y + if queue_above {
            0int
        } else {
            1
        },
        0xffff,
    );
    let bottom = outer.y + monus(outer.height as int, 1);
    let left = min_int(outer.x + 1, 0xffff);
    let right = outer.x + monus(outer.width as int, 1);
    if outer.has(m.column as int, m.row as int) && top <= m.row < bottom && left <= m.column
        < right {
        Some((m.row - top, monus(m.column - left, prefix)))
    } else {
        None
    }
}

impl MouseKind {
    /// A click or a turn of the wheel.
    pub open spec fn is_meant(self) -> bool {
        self is Down || self is ScrollUp || self is ScrollDown
    }
}

impl EditorView {
    /// A click at a place of the text: the cursor goes there, ready to type.
    #[verifier::opaque]
    pub open spec fn clicked(self, line: nat, col: nat) -> EditorView {
        let v = self.moved(position_of(self.composer.text, line, col));
        if v.composer.vim_enabled && v.composer.vim_mode is Normal {
            v.in_mode(VimMode::Insert)
        } else {
            v
        }
    }
}

impl AppView {
    /// A mouse event over the pane: its divider is dragged, or the program in
    /// the pane gets it.
    #[verifier::opaque]
    pub open spec fn pane_mouse(self, m: MouseEvent) -> Option<(AppView, EffectView)> {
        if self.pane.dragging {
            let pane = if m.kind == MouseKind::Drag(MouseButton::Left) {
                match self.pane.body {
                    Some(body) => match dragged_split(
                        self.pane.side,
                        body,
                        m.column as int,
                        m.row as int,
                    ) {
                        Some(split) => Pane { split, ..self.pane },
                        None => self.pane,
                    },
                    None => self.pane,
                }
            } else if m.kind == MouseKind::Up(MouseButton::Left) {
                Pane { dragging: false, ..self.pane }
            } else {
                self.pane
            };
            Some((AppView { pane, ..self }, EffectView::Stay))
        } else if m.kind == MouseKind::Down(MouseButton::Left) && in_area(self.pane.divider, m) {
            Some((AppView { pane: Pane { dragging: true, ..self.pane }, ..self }, EffectView::Stay))
        } else if in_area(self.pane.rect, m) {
            let focused = self.pane.focused || m.kind is Down;
            Some(
                (
                    AppView { pane: Pane { focused, ..self.pane }, ..self },
                    if focused {
                        EffectView::ForwardMouse
                    } else {
                        EffectView::Stay
                    },
                ),
            )
        } else {
            None
        }
    }

    /// The overlay that the wheel scrolls.
    pub open spec fn wheel_overlay(self) -> Option<Overlay> {
        let o = self.overlays;
        if o.stats {
            Some(Overlay::Stats)
        } else if o.sessions {
            Some(Overlay::Sessions)
        } else if o.skills {
            Some(Overlay::Skills)
        } else if o.plans {
            Some(Overlay::Plans)
        } else if o.permissions {
            Some(Overlay::Permissions)
        } else {
            None
        }
    }

    /// A mouse event while a context menu is open.
    #[verifier::opaque]
    pub open spec fn menu_mouse(self, m: MouseEvent, ctx: MouseContext) -> (AppView, EffectView) {
        if m.kind == MouseKind::Down(MouseButton::Left) {
            match self.context_menu->0.item_at(m.column as int, m.row as int, ctx.terminal) {
                Some(action) => {
                    let row = self.context_menu->0.clicked_chat_row;
                    let c = self.menu_closed().menu_copy(action, row, ctx.now);
                    (c.0, copying(c.1))
                },
                None => (self.menu_closed(), EffectView::Stay),
            }
        } else if m.kind.is_meant() {
            (self.menu_closed(), EffectView::Stay)
        } else {
            (self, EffectView::Stay)
        }
    }

    /// The chat scrolled by `n` lines, within what there is.
    pub open spec fn chat_scrolled(self, n: int, up: bool) -> AppView {
        let most = monus(self.screen.total_lines as int, self.screen.visible_lines as int);
        self.with_screen(
            Screen {
                scroll_offset: if up {
                    min_int(self.screen.scroll_offset + n, most) as usize
                } else {
                    monus(self.screen.scroll_offset as int, n) as usize
                },
                ..self.screen
            },
        )
    }

    /// Whether the tool box under a row takes a turn of the wheel.
    pub open spec fn box_takes_wheel(self, rel: int, up: bool) -> bool {
        match row_target(self.box_rows, rel) {
            Some(i) => i < self.history.len() && box_scrolled(self.history[i as int], up).1,
            None => false,
        }
    }

    /// A turn of the wheel over the chat: a folded tool box takes it until it is
    /// at its end, then the chat scrolls.
    #[verifier::opaque]
    pub open spec fn wheel_turned(self, m: MouseEvent, up: bool) -> AppView {
        if !in_area(self.screen.chat_area, m) {
            self
        } else {
            let v = self.deselected();
            let rel = m.row - self.screen.chat_area->0.y;
            if v.box_takes_wheel(rel, up) {
                let i = row_target(v.box_rows, rel)->0 as int;
                AppView {
                    history: v.history.update(i, box_scrolled(v.history[i], up).0),
                    ..v
                }
            } else {
                v.chat_scrolled(WHEEL_LINES as int, up)
            }
        }
    }

    /// The selection while the button is held, and when it is released.
    pub open spec fn selection_dragged(self, m: MouseEvent) -> AppView {
        match self.screen.selection {
            Some(s) => if s.active {
                self.with_screen(
                    Screen {
                        selection: Some(
                            Selection {
                                focus: clamped(
                                    self.screen.chat_area,
                                    m.column as int,
                                    m.row as int,
                                ),
                                ..s
                            },
                        ),
                        ..self.screen
                    },
                )
            } else {
                self
            },
            None => self,
        }
    }

    pub open spec fn selection_released(self) -> AppView {
        match self.screen.selection {
            Some(s) => self.with_screen(
                Screen { selection: Some(Selection { active: false, ..s }), ..self.screen },
            ),
            None => self,
        }
    }

    /// A left click in the chat: it unfolds reasoning or a tool box, or begins a
    /// selection.
    #[verifier::opaque]
    pub open spec fn chat_clicked(self, m: MouseEvent) -> AppView {
        if !in_area(self.screen.chat_area, m) {
            self.deselected()
        } else {
            let rel = m.row - self.screen.chat_area->0.y;
            match row_target(self.clickable_rows, rel) {
                Some(i) => self.chip_clicked(i),
                None => match row_target(self.box_rows, rel) {
                    Some(i) => self.box_clicked(i),
                    None => self.selection_begun(m),
                },
            }
        }
    }

    /// The reasoning or the report of entry `i` folded or unfolded.
    pub open spec fn chip_clicked(self, i: usize) -> AppView {
        let v = self.deselected();
        AppView {
            history: if i < v.history.len() {
                v.history.update(i as int, chip_toggled(v.history[i as int]))
            } else {
                v.history
            },
            ..v
        }
    }

    /// The tool box of entry `i` folded or unfolded.
    pub open spec fn box_clicked(self, i: usize) -> AppView {
        let v = self.deselected();
        AppView {
            history: if i < v.history.len() {
                v.history.update(i as int, box_toggled(v.history[i as int]))
            } else {
                v.history
            },
            ..v
        }
    }

    /// A selection that begins at a cell.
    pub open spec fn selection_begun(self, m: MouseEvent) -> AppView {
        self.with_screen(
            Screen {
                selection: Some(
                    Selection {
                        anchor: (m.column, m.row),
                        focus: (m.column, m.row),
                        active: true,
                    },
                ),
                ..self.screen
            },
        )
    }

    /// The place in the composer's text under a click.
    pub open spec fn composer_target(self, m: MouseEvent) -> Option<(int, int)> {
        match self.screen.input_area {
            Some(area) => click_target(
                area,
                self.editor.queue.len() > 0,
                display_width(INPUT_PREFIX@) as int,
                m,
            ),
            None => None,
        }
    }

    /// A left click: into the composer, or into the chat.
    #[verifier::opaque]
    pub open spec fn left_clicked(self, m: MouseEvent) -> AppView {
        match self.composer_target(m) {
            Some((line, col)) => {
                let v = self.deselected();
                AppView { editor: v.editor.clicked(line as nat, col as nat), ..v }
            },
            None => self.chat_clicked(m),
        }
    }

    /// A right click in the chat opens the context menu.
    pub open spec fn menu_opened(self, m: MouseEvent, is_ssh: bool) -> AppView {
        AppView {
            context_menu: Some(
                MenuView {
                    preferred_origin: (m.column, m.row),
                    clicked_chat_row: (m.row - self.screen.chat_area->0.y) as usize,
                    cursor: 0,
                    items: menu_items(is_ssh),
                },
            ),
            ..self
        }
    }

    /// A mouse event that reaches the chat and the composer.
    #[verifier::opaque]
    pub open spec fn open_mouse(self, m: MouseEvent, is_ssh: bool) -> AppView {
        if m.kind == MouseKind::Down(MouseButton::Right) && in_area(self.screen.chat_area, m) {
            self.menu_opened(m, is_ssh)
        } else if m.kind is ScrollUp {
            self.wheel_turned(m, true)
        } else if m.kind is ScrollDown {
            self.wheel_turned(m, false)
        } else if m.kind == MouseKind::Drag(MouseButton::Left) {
            self.selection_dragged(m)
        } else if m.kind == MouseKind::Up(MouseButton::Left) {
            self.selection_released()
        } else if m.kind == MouseKind::Down(MouseButton::Left) {
            self.left_clicked(m)
        } else {
            self
        }
    }

    /// A toast goes with the next click or turn of the wheel.
    pub open spec fn toast_clicked(self, m: MouseEvent) -> AppView {
        if m.kind.is_meant() {
            AppView { toast: None, ..self }
        } else {
            self
        }
    }

    /// The application after a mouse event, and what is left to do. An overlay
    /// takes all of them, and so does an open menu.
    #[verifier::opaque]
    pub open spec fn mouse_used(self, m: MouseEvent, ctx: MouseContext) -> (AppView, EffectView) {
        let v = self.toast_clicked(m);
        if v.wheel_overlay() is Some {
            let overlay = v.wheel_overlay()->0;
            (
                v,
                if m.kind is ScrollUp {
                    EffectView::OverlayWheel { overlay, up: true }
                } else if m.kind is ScrollDown {
                    EffectView::OverlayWheel { overlay, up: false }
                } else {
                    EffectView::Stay
                },
            )
        } else if v.context_pane is Some {
            (v, EffectView::Stay)
        } else if v.pane.open && v.pane_mouse(m) is Some {
            v.pane_mouse(m)->0
        } else if v.context_menu is Some {
            v.menu_mouse(m, ctx)
        } else {
            (v.open_mouse(m, ctx.is_ssh), EffectView::Stay)
        }
    }
}

/// Dragging keeps the selection inside the chat.
pub proof fn selection_stays_in_the_chat(v: AppView, m: MouseEvent)
    requires
        v.screen.chat_area is Some,
        v.screen.chat_area->0.on_screen(),
        v.screen.chat_area->0.width > 0,
        v.screen.chat_area->0.height > 0,
        v.screen.selection is Some,
        v.screen.selection->0.active,
    ensures
        ({
            let f = v.selection_dragged(m).screen.selection->0.focus;
            v.screen.chat_area->0.has(f.0 as int, f.1 as int)
        }),
{
}

/// Under an overlay the mouse changes nothing in the chat and the composer.
pub proof fn overlays_take_the_mouse(v: AppView, m: MouseEvent, ctx: MouseContext)
    requires
        v.wheel_overlay() is Some || v.context_pane is Some,
    ensures
        v.mouse_used(m, ctx).0 == v.toast_clicked(m),
{
    reveal(AppView::mouse_used);
}

/// The chat never scrolls past its oldest line, and down never past the newest.
pub proof fn scrolling_stays_in_the_chat(v: AppView, n: int, up: bool)
    requires
        0 <= n,
        v.screen.scroll_offset <= monus(
            v.screen.total_lines as int,
            v.screen.visible_lines as int,
        ),
    ensures
        0 <= v.chat_scrolled(n, up).screen.scroll_offset <= monus(
            v.screen.total_lines as int,
            v.screen.visible_lines as int,
        ),
{
}

/// Scrolling back and forth by the wheel returns to the same line, unless the
/// top was reached.
pub proof fn wheel_returns(v: AppView, n: int)
    requires
        0 <= n,
        v.screen.scroll_offset + n <= monus(
            v.screen.total_lines as int,
            v.screen.visible_lines as int,
        ),
    ensures
        v.chat_scrolled(n, true).chat_scrolled(n, false) == v,
{
    assert(v.chat_scrolled(n, true).chat_scrolled(n, false) =~= v);
}


fn target_at(rows: &Vec<Option<usize>>, rel: usize) -> (r: Option<usize>)
    ensures
        r == row_target(rows@, rel as int),
{
    if rel < rows.len() {
        rows[rel]
    } else {
        None
    }
}

fn hits(area: Option<Rect>, m: &MouseEvent) -> (r: bool)
    ensures
        r == in_area(area, *m),
{
    match area {
        Some(a) => point_in(a, m.column, m.row),
        None => false,
    }
}

fn clamp_axis(c: u16, from: u16, len: u16) -> (r: u16)
    ensures
        r == min_int(max_int(c as int, from as int), from + monus(len as int, 1)),
{
    let last: u32 = from as u32 + if len > 0 {
        (len - 1) as u32
    } else {
        0
    };
    let low: u16 = if c > from {
        c
    } else {
        from
    };
    if low as u32 > last {
        last as u16
    } else {
        low
    }
}

/// The place in the composer's text under a click: its line and column.
pub fn composer_cursor_target_for_click(
    outer: Rect,
    queue_above: bool,
    mouse: &MouseEvent,
) -> (r: Option<(usize, usize)>)
    ensures
        match r {
            Some((line, col)) => click_target(
                outer,
                queue_above,
                display_width(INPUT_PREFIX@) as int,
                *mouse,
            ) == Some((line as int, col as int)),
            None => click_target(
                outer,
                queue_above,
                display_width(INPUT_PREFIX@) as int,
                *mouse,
            ) is None,
        },
{
    if !point_in(outer, mouse.column, mouse.row) {
        return None;
    }
    let top: u32 = if queue_above || outer.y == 0xffff {
        outer.y as u32
    } else {
        outer.y as u32 + 1
    };
    let bottom: u32 = outer.y as u32 + less(outer.height as u32, 1);
    let left: u32 = if outer.x == 0xffff {
        outer.x as u32
    } else {
        outer.x as u32 + 1
    };
    let right: u32 = outer.x as u32 + less(outer.width as u32, 1);
    let row: u32 = mouse.row as u32;
    let col: u32 = mouse.column as u32;
    if row < top || row >= bottom || col < left || col >= right {
        return None;
    }
    let prefix: usize = input_prefix_width();
    let c: usize = (col - left) as usize;
    Some(
        (
            (row - top) as usize,
            if c > prefix {
                c - prefix
            } else {
                0
            },
        ),
    )
}

impl App {
    /// Whether a mouse event is over the chat as it was last drawn.
    pub fn mouse_in_chat_area(&self, mouse: &MouseEvent) -> (r: bool)
        ensures
            r == in_area(self@.screen.chat_area, *mouse),
    {
        hits(self.screen.chat_area, mouse)
    }

    /// A cell moved into the chat as it was last drawn.
    pub fn clamp_to_chat_area(&self, col: u16, row: u16) -> (r: (u16, u16))
        ensures
            r == clamped(self@.screen.chat_area, col as int, row as int),
    {
        match self.screen.chat_area {
            None => (col, row),
            Some(a) => (clamp_axis(col, a.x, a.width), clamp_axis(row, a.y, a.height)),
        }
    }

    /// Scroll the chat back by `n` lines, as far as there are any.
    pub fn scroll_chat_up(&mut self, n: usize)
        ensures
            old(self).wf() ==> final(self).wf(),
            final(self)@ == old(self)@.chat_scrolled(n as int, true),
    {
        let total: usize = self.screen.total_lines;
        let visible: usize = self.screen.visible_lines;
        let most: usize = if total > visible {
            total - visible
        } else {
            0
        };
        let offset: usize = self.screen.scroll_offset;
        let next: usize = if offset >= most || n > most - offset {
            most
        } else {
            offset + n
        };
        self.screen = Screen { scroll_offset: next, ..self.screen };
    }

    /// Scroll the chat towards the newest line by `n` lines.
    pub fn scroll_chat_down(&mut self, n: usize)
        ensures
            old(self).wf() ==> final(self).wf(),
            final(self)@ == old(self)@.chat_scrolled(n as int, false),
    {
        let offset: usize = self.screen.scroll_offset;
        let next: usize = if offset > n {
            offset - n
        } else {
            0
        };
        self.screen = Screen { scroll_offset: next, ..self.screen };
    }

    fn resize_split_to(&mut self, col: u16, row: u16)
        ensures
            old(self).wf() ==> final(self).wf(),
            final(self)@ == (AppView {
                pane: match old(self)@.pane.body {
                    Some(body) => match dragged_split(
                        old(self)@.pane.side,
                        body,
                        col as int,
                        row as int,
                    ) {
                        Some(split) => Pane { split, ..old(self)@.pane },
                        None => old(self)@.pane,
                    },
                    None => old(self)@.pane,
                },
                ..old(self)@
            }),
    {
        match self.pane.body {
            Some(body) => match split_for_drag(self.pane.side, body, col, row) {
                Some(split) => {
                    self.pane = Pane { split, ..self.pane };
                },
                None => {},
            },
            None => {},
        }
    }

    /// A mouse event while a pane is open. Returns `None` when it is for the
    /// chat and the composer.
    pub fn handle_pane_mouse(&mut self, mouse: &MouseEvent) -> (r: Option<Effect>)
        ensures
            old(self).wf() ==> final(self).wf(),
            layer_done(old(self)@, final(self)@, old(self)@.pane_mouse(*mouse), r),
    {
        proof {
            reveal(AppView::pane_mouse);
        }
        if self.pane.dragging {
            if mouse.kind == MouseKind::Drag(MouseButton::Left) {
                self.resize_split_to(mouse.column, mouse.row);
            } else if mouse.kind == MouseKind::Up(MouseButton::Left) {
                self.pane = Pane { dragging: false, ..self.pane };
            }
            return Some(Effect::Stay);
        }
        if mouse.kind == MouseKind::Down(MouseButton::Left) && hits(self.pane.divider, mouse) {
            self.pane = Pane { dragging: true, ..self.pane };
            return Some(Effect::Stay);
        }
        if hits(self.pane.rect, mouse) {
            let focused: bool = self.pane.focused || matches!(mouse.kind, MouseKind::Down(_));
            self.pane = Pane { focused, ..self.pane };
            return Some(
                if focused {
                    Effect::ForwardMouse
                } else {
                    Effect::Stay
                },
            );
        }
        None
    }

    fn overlay_for_wheel(&self) -> (r: Option<Overlay>)
        ensures
            r == self@.wheel_overlay(),
    {
        let o = self.overlays;
        if o.stats {
            Some(Overlay::Stats)
        } else if o.sessions {
            Some(Overlay::Sessions)
        } else if o.skills {
            Some(Overlay::Skills)
        } else if o.plans {
            Some(Overlay::Plans)
        } else if o.permissions {
            Some(Overlay::Permissions)
        } else {
            None
        }
    }

    fn handle_menu_mouse(&mut self, mouse: MouseEvent, ctx: MouseContext) -> (r: Effect)
        requires
            old(self).wf(),
            old(self)@.context_menu is Some,
            ctx.terminal.on_screen(),
        ensures
            final(self).wf(),
            (final(self)@, r@) == old(self)@.menu_mouse(mouse, ctx),
    {
        proof {
            reveal(AppView::menu_mouse);
        }
        let ghost v = self@;
        let menu: ContextMenu = match self.take_menu() {
            Some(m) => m,
            None => {
                return Effect::Stay;
            },
        };
        match mouse.kind {
            MouseKind::Down(MouseButton::Left) => match menu.hit_test(
                mouse.column,
                mouse.row,
                ctx.terminal,
            ) {
                Some(action) => copy_effect(
                    self.execute_context_menu_action(action, menu.clicked_chat_row, ctx.now),
                ),
                None => Effect::Stay,
            },
            MouseKind::Down(_) | MouseKind::ScrollUp | MouseKind::ScrollDown => Effect::Stay,
            _ => {
                self.put_menu(menu);
                proof {
                    assert(self@ =~= v);
                }
                Effect::Stay
            },
        }
    }

    /// Scroll the tool box under a row of the chat. Returns whether it moved.
    pub fn scroll_box_at_row(&mut self, rel: usize, up: bool) -> (r: bool)
        ensures
            old(self).wf() ==> final(self).wf(),
            r == old(self)@.box_takes_wheel(rel as int, up),
            final(self)@ == if r {
                let i = row_target(old(self)@.box_rows, rel as int)->0 as int;
                AppView {
                    history: old(self)@.history.update(
                        i,
                        box_scrolled(old(self)@.history[i], up).0,
                    ),
                    ..old(self)@
                }
            } else {
                old(self)@
            },
    {
        let ghost v = self@;
        if rel >= self.box_rows.len() {
            return false;
        }
        match self.box_rows[rel] {
            None => false,
            Some(i) => {
                let moved: bool = scroll_box(&mut self.history, i, up);
                proof {
                    assert(v.history.len() == old(self).history@.len());
                    if i < v.history.len() {
                        if !moved {
                            lemma_box_stays(v.history[i as int], up);
                            assert(v.history.update(i as int, v.history[i as int]) =~= v.history);
                            assert(self@ =~= v);
                        } else {
                            assert(self@ =~= (AppView {
                                history: v.history.update(
                                    i as int,
                                    box_scrolled(v.history[i as int], up).0,
                                ),
                                ..v
                            }));
                        }
                    } else {
                        assert(self@ =~= v);
                    }
                }
                moved
            },
        }
    }

    fn handle_wheel(&mut self, mouse: &MouseEvent, up: bool)
        ensures
            old(self).wf() ==> final(self).wf(),
            final(self)@ == old(self)@.wheel_turned(*mouse, up),
    {
        proof {
            reveal(AppView::wheel_turned);
        }
        let area: Rect = match self.screen.chat_area {
            Some(a) => a,
            None => {
                return;
            },
        };
        if !point_in(area, mouse.column, mouse.row) {
            return;
        }
        self.deselect();
        let rel: usize = (mouse.row - area.y) as usize;
        if !self.scroll_box_at_row(rel, up) {
            if up {
                self.scroll_chat_up(WHEEL_LINES);
            } else {
                self.scroll_chat_down(WHEEL_LINES);
            }
        }
    }

    fn click_chip(&mut self, i: usize)
        ensures
            old(self).wf() ==> final(self).wf(),
            final(self)@ == old(self)@.chip_clicked(i),
    {
        self.deselect();
        let ghost v = self@;
        let ghost n = self.history@.len();
        toggle_chip(&mut self.history, i);
        proof {
            assert(v.history.len() == n);
            assert(self@ =~= (AppView { history: self@.history, ..v }));
        }
    }

    fn click_box(&mut self, i: usize)
        ensures
            old(self).wf() ==> final(self).wf(),
            final(self)@ == old(self)@.box_clicked(i),
    {
        self.deselect();
        let ghost v = self@;
        let ghost n = self.history@.len();
        let _toggled: bool = toggle_box(&mut self.history, i);
        proof {
            assert(v.history.len() == n);
            assert(self@ =~= (AppView { history: self@.history, ..v }));
        }
    }

    fn begin_selection(&mut self, mouse: &MouseEvent)
        ensures
            old(self).wf() ==> final(self).wf(),
            final(self)@ == old(self)@.selection_begun(*mouse),
    {
        self.screen = Screen {
            selection: Some(
                Selection {
                    anchor: (mouse.column, mouse.row),
                    focus: (mouse.column, mouse.row),
                    active: true,
                },
            ),
            ..self.screen
        };
    }

    fn handle_chat_click(&mut self, mouse: &MouseEvent)
        ensures
            old(self).wf() ==> final(self).wf(),
            final(self)@ == old(self)@.chat_clicked(*mouse),
    {
        proof {
            reveal(AppView::chat_clicked);
        }
        if !self.mouse_in_chat_area(mouse) {
            self.deselect();
            return;
        }
        let top: u16 = match self.screen.chat_area {
            Some(a) => a.y,
            None => 0,
        };
        let rel: usize = (mouse.row - top) as usize;
        match target_at(&self.clickable_rows, rel) {
            Some(i) => {
                self.click_chip(i);
                return;
            },
            None => {},
        }
        match target_at(&self.box_rows, rel) {
            Some(i) => {
                self.click_box(i);
            },
            None => {
                self.begin_selection(mouse);
            },
        }
    }

    fn click_composer(&mut self, line: usize, col: usize)
        requires
            old(self).wf(),
        ensures
            final(self).wf(),
            final(self)@ == (AppView {
                editor: old(self)@.editor.clicked(line as nat, col as nat),
                ..old(self)@
            }),
    {
        proof {
            reveal(EditorView::clicked);
        }
        let ghost v = self@;
        self.editor.composer.set_cursor_from_line_col(line, col);
        if self.editor.composer.vim_enabled() && matches!(
            self.editor.composer.vim_mode(),
            VimMode::Normal
        ) {
            self.editor.composer.set_vim_mode(VimMode::Insert);
        }
        proof {
            assert(self.editor@ =~= v.editor.clicked(line as nat, col as nat));
            assert(self@ =~= (AppView {
                editor: v.editor.clicked(line as nat, col as nat),
                ..v
            }));
        }
    }

    fn handle_left_click(&mut self, mouse: &MouseEvent)
        requires
            old(self).wf(),
        ensures
            final(self).wf(),
            final(self)@ == old(self)@.left_clicked(*mouse),
    {
        proof {
            reveal(AppView::left_clicked);
        }
        let target: Option<(usize, usize)> = match self.screen.input_area {
            Some(area) => composer_cursor_target_for_click(
                area,
                self.editor.queue.len() > 0,
                mouse,
            ),
            None => None,
        };
        match target {
            Some((line, col)) => {
                self.deselect();
                self.click_composer(line, col);
            },
            None => {
                self.handle_chat_click(mouse);
            },
        }
    }

    fn open_menu(&mut self, mouse: &MouseEvent, is_ssh: bool)
        requires
            old(self).wf(),
            in_area(old(self)@.screen.chat_area, *mouse),
        ensures
            final(self).wf(),
            final(self)@ == old(self)@.menu_opened(*mouse, is_ssh),
    {
        let top: u16 = match self.screen.chat_area {
            Some(a) => a.y,
            None => 0,
        };
        let menu = ContextMenu {
            preferred_origin: (mouse.column, mouse.row),
            clicked_chat_row: (mouse.row - top) as usize,
            cursor: 0,
            items: ContextMenu::build_items(is_ssh),
        };
        self.put_menu(menu);
    }

    fn drag_selection(&mut self, mouse: &MouseEvent)
        ensures
            old(self).wf() ==> final(self).wf(),
            final(self)@ == old(self)@.selection_dragged(*mouse),
    {
        match self.screen.selection {
            Some(s) => {
                if s.active {
                    let focus: (u16, u16) = self.clamp_to_chat_area(mouse.column, mouse.row);
                    self.screen = Screen {
                        selection: Some(Selection { focus, ..s }),
                        ..self.screen
                    };
                }
            },
            None => {},
        }
    }

    fn release_selection(&mut self)
        ensures
            old(self).wf() ==> final(self).wf(),
            final(self)@ == old(self)@.selection_released(),
    {
        match self.screen.selection {
            Some(s) => {
                self.screen = Screen {
                    selection: Some(Selection { active: false, ..s }),
                    ..self.screen
                };
            },
            None => {},
        }
    }

    fn handle_open_mouse(&mut self, mouse: &MouseEvent, is_ssh: bool)
        requires
            old(self).wf(),
        ensures
            final(self).wf(),
            final(self)@ == old(self)@.open_mouse(*mouse, is_ssh),
    {
        proof {
            reveal(AppView::open_mouse);
        }
        if mouse.kind == MouseKind::Down(MouseButton::Right) && self.mouse_in_chat_area(mouse) {
            self.open_menu(mouse, is_ssh);
        } else if mouse.kind == MouseKind::ScrollUp {
            self.handle_wheel(mouse, true);
        } else if mouse.kind == MouseKind::ScrollDown {
            self.handle_wheel(mouse, false);
        } else if mouse.kind == MouseKind::Drag(MouseButton::Left) {
            self.drag_selection(mouse);
        } else if mouse.kind == MouseKind::Up(MouseButton::Left) {
            self.release_selection();
        } else if mouse.kind == MouseKind::Down(MouseButton::Left) {
            self.handle_left_click(mouse);
        }
    }

    fn click_toast(&mut self, mouse: &MouseEvent)
        ensures
            old(self).wf() ==> final(self).wf(),
            final(self)@ == old(self)@.toast_clicked(*mouse),
    {
        let ghost v = self@;
        if matches!(
            mouse.kind,
            MouseKind::Down(_) | MouseKind::ScrollUp | MouseKind::ScrollDown
        ) {
            self.toast = None;
            proof {
                assert(self@ =~= (AppView { toast: None, ..v }));
            }
        }
    }

    /// Handle a mouse event. Returns what is left to do.
    pub fn handle_mouse(&mut self, mouse: MouseEvent, ctx: MouseContext) -> (r: Effect)
        requires
            old(self).wf(),
            ctx.terminal.on_screen(),
        ensures
            final(self).wf(),
            (final(self)@, r@) == old(self)@.mouse_used(mouse, ctx),
    {
        proof {
            reveal(AppView::mouse_used);
        }
        self.click_toast(&mouse);
        match self.overlay_for_wheel() {
            Some(overlay) => {
                return if mouse.kind == MouseKind::ScrollUp {
                    Effect::OverlayWheel { overlay, up: true }
                } else if mouse.kind == MouseKind::ScrollDown {
                    Effect::OverlayWheel { overlay, up: false }
                } else {
                    Effect::Stay
                };
            },
            None => {},
        }
        if self.context_pane.is_some() {
            return Effect::Stay;
        }
        if self.pane.open {
            match self.handle_pane_mouse(&mouse) {
                Some(e) => {
                    return e;
                },
                None => {},
            }
        }
        if self.context_menu.is_some() {
            return self.handle_menu_mouse(mouse, ctx);
        }
        self.handle_open_mouse(&mouse, ctx.is_ssh);
        Effect::Stay
    }
}

proof fn lemma_box_stays(e: EntryView, up: bool)
    ensures
        !box_scrolled(e, up).1 ==> box_scrolled(e, up).0 == e,
{
}

} // verus!
