//! Rectangles of terminal cells.

use vstd::prelude::*;

verus! {

#[derive(Debug, Clone, Copy, PartialEq, Eq, Structural)]
pub struct Rect {
    pub x: u16,
    pub y: u16,
    pub width: u16,
    pub height: u16,
}

impl Rect {
    /// Column just past the right edge.
    pub open spec fn right(self) -> int {
        self.x + self.width
    }

    /// Row just past the bottom edge.
    pub open spec fn bottom(self) -> int {
        self.y + self.height
    }

    /// Whether a cell lies in the rectangle.
    pub open spec fn has(self, col: int, row: int) -> bool {
        self.x <= col < self.right() && self.y <= row < self.bottom()
    }

    /// Whether `other` lies in the rectangle.
    pub open spec fn covers(self, other: Rect) -> bool {
        self.x <= other.x && other.right() <= self.right() && self.y <= other.y && other.bottom()
            <= self.bottom()
    }

    /// Whether the edges are cell coordinates.
    pub open spec fn on_screen(self) -> bool {
        self.right() <= u16::MAX && self.bottom() <= u16::MAX
    }

    pub fn new(x: u16, y: u16, width: u16, height: u16) -> (r: Rect)
        ensures
            r == (Rect { x, y, width, height }),
    {
        Rect { x, y, width, height }
    }
}

/// Whether the cell at `(col, row)` lies in `rect`.
pub fn point_in(rect: Rect, col: u16, row: u16) -> (r: bool)
    ensures
        r == rect.has(col as int, row as int),
{
    let right: u32 = rect.x as u32 + rect.width as u32;
    let bottom: u32 = rect.y as u32 + rect.height as u32;
    col >= rect.x && (col as u32) < right && row >= rect.y && (row as u32) < bottom
}

} // verus!
