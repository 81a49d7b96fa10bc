//! The context menu of the chat area: copy the message under the click.

use vstd::prelude::*;
use crate::geometry::{Rect, point_in};
use crate::nav::{max_int, min_int, monus, next_index, prev_index, wrap_next, wrap_prev};
use crate::style::{Color, Line, LineView, Span, Style, line_views, push_line, rawsp, sp};
use crate::text::to_chars;

verus! {

#[derive(Debug, Clone, Copy, PartialEq, Eq, Structural)]
pub enum ContextMenuAction {
    /// HTML with a plain-text alternative; only where the local clipboard is
    /// in reach.
    CopyAsRichText,
    /// The markdown source.
    CopyAsMarkdown,
    /// The message without markup.
    CopyAsPlainText,
}

impl ContextMenuAction {
    pub open spec fn spec_label(self) -> Seq<char> {
        match self {
            ContextMenuAction::CopyAsRichText => "Copy as rich text"@,
            ContextMenuAction::CopyAsMarkdown => "Copy as markdown"@,
            ContextMenuAction::CopyAsPlainText => "Copy as plain text"@,
        }
    }

    pub fn label(self) -> (r: &'static str)
        ensures
            r@ == self.spec_label(),
            r@.len() <= 18,
    {
        proof {
            reveal_strlit("Copy as rich text");
            reveal_strlit("Copy as markdown");
            reveal_strlit("Copy as plain text");
        }
        match self {
            ContextMenuAction::CopyAsRichText => "Copy as rich text",
            ContextMenuAction::CopyAsMarkdown => "Copy as markdown",
            ContextMenuAction::CopyAsPlainText => "Copy as plain text",
        }
    }
}

/// An open menu.
#[derive(Debug)]
pub struct ContextMenu {
    /// Where the top left corner should be.
    pub preferred_origin: (u16, u16),
    /// Row of the chat area that was clicked.
    pub clicked_chat_row: usize,
    /// The focused item.
    pub cursor: usize,
    pub items: Vec<ContextMenuAction>,
}

/// The items of a menu: rich text only where the local clipboard is in reach.
pub open spec fn menu_items(is_ssh: bool) -> Seq<ContextMenuAction> {
    if is_ssh {
        seq![ContextMenuAction::CopyAsMarkdown, ContextMenuAction::CopyAsPlainText]
    } else {
        seq![
            ContextMenuAction::CopyAsRichText,
            ContextMenuAction::CopyAsMarkdown,
            ContextMenuAction::CopyAsPlainText,
        ]
    }
}

/// Length of the longest label.
pub open spec fn widest_label(items: Seq<ContextMenuAction>) -> nat
    decreases items.len(),
{
    if items.len() == 0 {
        0
    } else {
        let rest = widest_label(items.drop_last());
        if items.last().spec_label().len() > rest {
            items.last().spec_label().len()
        } else {
            rest
        }
    }
}

/// Where a menu of `width` by `height` goes: left of the right edge, and above
/// the click when there is no room below it. Whatever the click, it goes inside
/// an area that it fits into.
pub open spec fn placed(origin: (u16, u16), width: int, height: int, area: Rect) -> (int, int) {
    let x = if origin.0 + width > area.right() {
        monus(area.right(), width)
    } else {
        origin.0 as int
    };
    let y = if origin.1 + height > area.bottom() {
        min_int(monus(origin.1 as int, height), monus(area.bottom(), height))
    } else {
        origin.1 as int
    };
    (max_int(x, area.x as int), max_int(y, area.y as int))
}

#[verifier::ext_equal]
pub struct MenuView {
    pub preferred_origin: (u16, u16),
    pub clicked_chat_row: usize,
    pub cursor: usize,
    pub items: Seq<ContextMenuAction>,
}

impl View for ContextMenu {
    type V = MenuView;

    open spec fn view(&self) -> MenuView {
        MenuView {
            preferred_origin: self.preferred_origin,
            clicked_chat_row: self.clicked_chat_row,
            cursor: self.cursor,
            items: self.items@,
        }
    }
}

pub open spec fn menu_of(m: Option<ContextMenu>) -> Option<MenuView> {
    match m {
        Some(m) => Some(m@),
        None => None,
    }
}

impl MenuView {
    /// The focus moved up or down, wrapping.
    pub open spec fn moved(self, up: bool) -> MenuView {
        let n = self.items.len() as int;
        MenuView {
            cursor: if n == 0 {
                self.cursor
            } else if up {
                prev_index(self.cursor as int, n) as usize
            } else {
                next_index(self.cursor as int, n) as usize
            },
            ..self
        }
    }

    /// The focused item.
    pub open spec fn focused(self) -> Option<ContextMenuAction> {
        if self.cursor < self.items.len() {
            Some(self.items[self.cursor as int])
        } else {
            None
        }
    }

    pub open spec fn spec_placement(self, area: Rect) -> Rect {
        let w = widest_label(self.items) + 4;
        let h = self.items.len() + 2;
        let (x, y) = placed(self.preferred_origin, w as int, h as int, area);
        Rect { x: x as u16, y: y as u16, width: w as u16, height: h as u16 }
    }

    /// Few enough items for a screen, and an area on the screen.
    pub open spec fn fits(self, area: Rect) -> bool {
        self.items.len() + 2 <= u16::MAX && area.on_screen()
    }

    /// The item under a cell. The first and the last row are borders and belong
    /// to no item; the items fill the rows between them.
    pub open spec fn item_at(self, col: int, row: int, area: Rect) -> Option<ContextMenuAction> {
        let m = self.spec_placement(area);
        let i = row - (m.y + 1);
        if m.has(col, row) && 0 <= i < self.items.len() {
            Some(self.items[i])
        } else {
            None
        }
    }
}

impl ContextMenu {
    /// The items offered: with `is_ssh` no rich text.
    pub fn build_items(is_ssh: bool) -> (r: Vec<ContextMenuAction>)
        ensures
            r@ == menu_items(is_ssh),
    {
        let mut items: Vec<ContextMenuAction> = Vec::new();
        if !is_ssh {
            items.push(ContextMenuAction::CopyAsRichText);
        }
        items.push(ContextMenuAction::CopyAsMarkdown);
        items.push(ContextMenuAction::CopyAsPlainText);
        proof {
            assert(items@ =~= menu_items(is_ssh));
        }
        items
    }

    /// Move the focus up (`delta` below 0) or down (above 0), wrapping.
    pub fn move_cursor(&mut self, delta: i32)
        ensures
            final(self)@ == if delta == 0 {
                old(self)@
            } else {
                old(self)@.moved(delta < 0)
            },
    {
        let len: usize = self.items.len();
        if len == 0 {
            return;
        }
        if delta < 0 {
            self.cursor = wrap_prev(self.cursor, len);
        } else if delta > 0 {
            self.cursor = wrap_next(self.cursor, len);
        }
    }

    pub fn focused_action(&self) -> (r: Option<ContextMenuAction>)
        ensures
            r == self@.focused(),
    {
        if self.cursor < self.items.len() {
            Some(self.items[self.cursor])
        } else {
            None
        }
    }

    fn render_width(&self) -> (r: u16)
        ensures
            r == widest_label(self.items@) + 4,
            r <= 22,
    {
        let mut widest: usize = 0;
        let mut i: usize = 0;
        proof {
            assert(self.items@.take(0) =~= Seq::empty());
        }
        while i < self.items.len()
            invariant
                i <= self.items@.len(),
                widest == widest_label(self.items@.take(i as int)),
                widest <= 18,
            decreases self.items@.len() - i,
        {
            proof {
                assert(self.items@.take(i + 1).drop_last() =~= self.items@.take(i as int));
            }
            let label: Vec<char> = to_chars(self.items[i].label());
            if label.len() > widest {
                widest = label.len();
            }
            i = i + 1;
        }
        proof {
            assert(self.items@.take(i as int) =~= self.items@);
        }
        widest as u16 + 4
    }

    /// Where the menu shows in `full_area`.
    pub fn placement(&self, full_area: Rect) -> (r: Rect)
        requires
            self@.fits(full_area),
        ensures
            r == self@.spec_placement(full_area),
            r.x == placed(
                self.preferred_origin,
                r.width as int,
                r.height as int,
                full_area,
            ).0,
            r.y == placed(
                self.preferred_origin,
                r.width as int,
                r.height as int,
                full_area,
            ).1,
            r.width == widest_label(self.items@) + 4,
            r.height == self.items@.len() + 2,
    {
        let width: u32 = self.render_width() as u32;
        let height: u32 = self.items.len() as u32 + 2;
        let right: u32 = full_area.x as u32 + full_area.width as u32;
        let bottom: u32 = full_area.y as u32 + full_area.height as u32;
        let mut x: u32 = self.preferred_origin.0 as u32;
        let mut y: u32 = self.preferred_origin.1 as u32;
        if x + width > right {
            x = if right >= width {
                right - width
            } else {
                0
            };
        }
        if x < full_area.x as u32 {
            x = full_area.x as u32;
        }
        if y + height > bottom {
            let above: u32 = if y >= height {
                y - height
            } else {
                0
            };
            let lowest: u32 = if bottom >= height {
                bottom - height
            } else {
                0
            };
            y = if above < lowest {
                above
            } else {
                lowest
            };
        }
        if y < full_area.y as u32 {
            y = full_area.y as u32;
        }
        Rect::new(x as u16, y as u16, width as u16, height as u16)
    }

    /// The item under the cell `(col, row)` of the menu as it shows in
    /// `full_area`.
    pub fn hit_test(&self, col: u16, row: u16, full_area: Rect) -> (r: Option<ContextMenuAction>)
        requires
            self@.fits(full_area),
        ensures
            r == self@.item_at(col as int, row as int, full_area),
    {
        let menu: Rect = self.placement(full_area);
        if !point_in(menu, col, row) {
            return None;
        }
        if row == menu.y {
            return None;
        }
        let i: usize = (row - menu.y - 1) as usize;
        if i < self.items.len() {
            Some(self.items[i])
        } else {
            None
        }
    }
}

/// A menu shows inside every area that it fits into.
pub proof fn menu_shows_inside(origin: (u16, u16), width: int, height: int, area: Rect)
    requires
        0 <= width <= area.width,
        0 <= height <= area.height,
    ensures
        ({
            let (x, y) = placed(origin, width, height, area);
            &&& area.x <= x && x + width <= area.right()
            &&& area.y <= y && y + height <= area.bottom()
        }),
{
}

/// A menu opens at the click where there is room for it. Without room below it ends in the
/// row above the click, and without room at the right it ends at the right edge.
pub proof fn menu_keeps_to_the_click(origin: (u16, u16), width: int, height: int, area: Rect)
    requires
        0 <= width <= area.width,
        0 <= height <= area.height,
        area.has(origin.0 as int, origin.1 as int),
    ensures
        ({
            let (x, y) = placed(origin, width, height, area);
            &&& origin.0 + width <= area.x + area.width ==> x == origin.0
            &&& origin.0 + width > area.x + area.width ==> x + width == area.x + area.width
            &&& origin.1 + height <= area.y + area.height ==> y == origin.1
            &&& origin.1 + height > area.y + area.height && origin.1 - height >= area.y ==> y
                + height == origin.1
        }),
{
}

/// The rows of the menu: the focused one is marked.
pub open spec fn menu_line(item: ContextMenuAction, focused: bool) -> LineView {
    seq![
        rawsp(
            if focused {
                "▸ "@
            } else {
                "  "@
            },
        ),
        sp(
            item.spec_label(),
            if focused {
                Style::fg(Color::Yellow).bold()
            } else {
                Style::fg(Color::White)
            },
        ),
    ]
}

/// The rows of a menu.
pub fn render_context_menu(menu: &ContextMenu) -> (r: Vec<Line>)
    ensures
        line_views(r@) == Seq::new(
            menu.items@.len(),
            |i: int| menu_line(menu.items@[i], i == menu.cursor),
        ),
{
    let mut lines: Vec<Line> = Vec::new();
    let ghost all = Seq::new(
        menu.items@.len(),
        |i: int| menu_line(menu.items@[i], i == menu.cursor),
    );
    let mut i: usize = 0;
    proof {
        assert(line_views(lines@) =~= all.take(0));
    }
    while i < menu.items.len()
        invariant
            i <= menu.items@.len(),
            all == Seq::new(
                menu.items@.len(),
                |j: int| menu_line(menu.items@[j], j == menu.cursor),
            ),
            line_views(lines@) == all.take(i as int),
        decreases menu.items@.len() - i,
    {
        let focused: bool = i == menu.cursor;
        let marker: &str = if focused {
            "▸ "
        } else {
            "  "
        };
        let style: Style = if focused {
            Style::fg(Color::Yellow).bold()
        } else {
            Style::fg(Color::White)
        };
        push_line(
            &mut lines,
            Line::of2(
                Span::raw(String::from_str(marker)),
                Span::new(menu.items[i].label(), style),
            ),
        );
        proof {
            assert(all.take(i + 1) =~= all.take(i as int).push(all[i as int]));
        }
        i = i + 1;
    }
    proof {
        assert(all.take(i as int) =~= all);
    }
    lines
}

} // verus!
