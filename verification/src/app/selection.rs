//! Drag selection in the chat: which cells it covers and which text they hold.

use vstd::prelude::*;
use crate::app::history::AGENT_INDENT;
use crate::app::state::{Selection, grid_views};
use crate::geometry::Rect;
use crate::nav::{max_int, min_int, monus};
use crate::text::{blank, from_range, is_blank, texts, to_chars};

verus! {

pub type Cells = Seq<Seq<char>>;

impl Selection {
    /// First and last cell in reading order, `(column, row)`.
    pub open spec fn span(self) -> ((u16, u16), (u16, u16)) {
        let a = self.anchor;
        let f = self.focus;
        if a.1 < f.1 || a.1 == f.1 && a.0 <= f.0 {
            (a, f)
        } else {
            (f, a)
        }
    }

    /// First and last cell in reading order, `(column, row)`.
    pub fn ordered(&self) -> (r: ((u16, u16), (u16, u16)))
        ensures
            r == self.span(),
    {
        let (a_col, a_row) = self.anchor;
        let (f_col, f_row) = self.focus;
        if a_row < f_row || a_row == f_row && a_col <= f_col {
            (self.anchor, self.focus)
        } else {
            (self.focus, self.anchor)
        }
    }
}

/// A selection does not depend on the direction in which it was drawn, and its
/// ends are in reading order.
pub proof fn selection_has_no_direction(s: Selection)
    ensures
        s.span() == (Selection { anchor: s.focus, focus: s.anchor, ..s }).span(),
        s.span() == (s.anchor, s.focus) || s.span() == (s.focus, s.anchor),
        s.span().0.1 <= s.span().1.1,
        s.span().0.1 == s.span().1.1 ==> s.span().0.0 <= s.span().1.0,
{
}

/// First cell from `i` on that holds more than white space, or the number of
/// cells.
pub open spec fn first_content(row: Cells, i: int) -> int
    decreases row.len() - i,
{
    if i >= row.len() {
        row.len() as int
    } else if !is_blank(row[i]) {
        i
    } else {
        first_content(row, i + 1)
    }
}

/// Last cell before `n` that holds more than white space, or -1.
pub open spec fn last_content(row: Cells, n: int) -> int
    decreases n,
{
    if n <= 0 {
        -1
    } else if !is_blank(row[n - 1]) {
        n - 1
    } else {
        last_content(row, n - 1)
    }
}

/// First and last cell of a row that hold more than white space.
pub open spec fn bounds_of(row: Cells) -> Option<(int, int)> {
    if first_content(row, 0) < row.len() {
        Some((first_content(row, 0), last_content(row, row.len() as int)))
    } else {
        None
    }
}

pub open spec fn cell_bounds(b: Option<(usize, usize)>) -> Option<(int, int)> {
    match b {
        Some((a, z)) => Some((a as int, z as int)),
        None => None,
    }
}

proof fn lemma_last_content(row: Cells, n: int, i: int)
    requires
        0 <= i < n <= row.len(),
        !is_blank(row[i]),
    ensures
        i <= last_content(row, n) < n,
    decreases n,
{
    if i < n - 1 && is_blank(row[n - 1]) {
        lemma_last_content(row, n - 1, i);
    }
}

/// First and last cell of a row that hold more than white space, or `None` for
/// a row of white space.
pub fn content_bounds(row: &Vec<String>) -> (r: Option<(usize, usize)>)
    ensures
        cell_bounds(r) == bounds_of(texts(row@)),
        r is Some ==> (r->0).0 <= (r->0).1 < row@.len(),
{
    let ghost cells = texts(row@);
    let mut i: usize = 0;
    while i < row.len() && blank(row[i].as_str())
        invariant
            i <= row@.len() == cells.len(),
            cells == texts(row@),
            first_content(cells, 0) == first_content(cells, i as int),
        decreases row@.len() - i,
    {
        i = i + 1;
    }
    if i >= row.len() {
        return None;
    }
    let mut n: usize = row.len();
    proof {
        lemma_last_content(cells, n as int, i as int);
    }
    while blank(row[n - 1].as_str())
        invariant
            i < n <= row@.len() == cells.len(),
            cells == texts(row@),
            !is_blank(cells[i as int]),
            i == first_content(cells, 0),
            last_content(cells, cells.len() as int) == last_content(cells, n as int),
        decreases n,
    {
        n = n - 1;
    }
    Some((i, n - 1))
}

// ---- Text -----------------------------------------------------------------

/// The cells from `first` up to `last` put together, as far as there are any.
pub open spec fn cells_text(row: Cells, first: int, last: int) -> Seq<char>
    decreases last - first + 1,
{
    if last < first {
        Seq::empty()
    } else {
        cells_text(row, first, last - 1) + if last < row.len() {
            row[last]
        } else {
            Seq::empty()
        }
    }
}

/// `s` without the spaces at its end.
pub open spec fn no_trailing_spaces(s: Seq<char>) -> Seq<char>
    decreases s.len(),
{
    if s.len() > 0 && s.last() == ' ' {
        no_trailing_spaces(s.drop_last())
    } else {
        s
    }
}

/// Number of spaces that `s` begins with, `max` at most.
pub open spec fn leading_spaces(s: Seq<char>, max: int) -> int
    decreases s.len(),
{
    if max > 0 && s.len() > 0 && s[0] == ' ' {
        1 + leading_spaces(s.drop_first(), max - 1)
    } else {
        0
    }
}

/// `s` without the indent of messages and without spaces at its end.
pub open spec fn unpadded(s: Seq<char>) -> Seq<char> {
    let t = no_trailing_spaces(s);
    t.skip(leading_spaces(t, AGENT_INDENT as int))
}

/// The text of the selected part of screen row `row`, if that row is drawn.
pub open spec fn selected_row(
    grid: Seq<Cells>,
    area: Rect,
    sel: Selection,
    row: int,
) -> Option<Seq<char>> {
    let (start, end) = sel.span();
    let g = monus(row, area.y as int);
    if g >= grid.len() {
        None
    } else {
        let first = if row == start.1 {
            monus(start.0 as int, area.x as int)
        } else {
            0
        };
        let last = if row == end.1 {
            monus(end.0 as int, area.x as int)
        } else {
            monus(grid[g].len() as int, 1)
        };
        Some(unpadded(cells_text(grid[g], first, last)))
    }
}

/// The text of the selected rows before screen row `to`; `None` before the
/// first of them. A row that continues the one above follows a space, any other
/// a newline.
pub open spec fn selected_rows(
    grid: Seq<Cells>,
    cont_rows: Seq<bool>,
    area: Rect,
    sel: Selection,
    to: int,
) -> Option<Seq<char>>
    decreases to,
{
    if to <= sel.span().0.1 {
        None
    } else {
        let above = selected_rows(grid, cont_rows, area, sel, to - 1);
        match selected_row(grid, area, sel, to - 1) {
            None => above,
            Some(t) => match above {
                None => Some(t),
                Some(a) => {
                    let g = monus(to - 1, area.y as int);
                    let continues = g < cont_rows.len() && cont_rows[g];
                    Some(
                        a.push(
                            if continues {
                                ' '
                            } else {
                                '\n'
                            },
                        ) + t,
                    )
                },
            },
        }
    }
}

/// The selected text.
pub open spec fn selected_text(
    grid: Seq<Cells>,
    cont_rows: Seq<bool>,
    area: Rect,
    sel: Selection,
) -> Seq<char> {
    match selected_rows(grid, cont_rows, area, sel, sel.span().1.1 + 1) {
        Some(t) => t,
        None => Seq::empty(),
    }
}

fn row_text(row: &Vec<String>, first: usize, last: usize) -> (r: String)
    ensures
        r@ == cells_text(texts(row@), first as int, last as int),
{
    let ghost cells = texts(row@);
    let mut out: String = String::new();
    let mut i: usize = first;
    while i < row.len() && i <= last
        invariant
            cells == texts(row@),
            first <= i,
            i <= row@.len() || i == first,
            i <= last + 1 || i == first,
            out@ == cells_text(cells, first as int, i - 1),
        decreases row@.len() - i,
    {
        out.append(row[i].as_str());
        proof {
            assert(cells[i as int] == row@[i as int]@);
        }
        i = i + 1;
    }
    proof {
        if i <= last {
            lemma_cells_past_end(cells, first as int, i as int, last as int);
        } else if last < first {
            assert(cells_text(cells, first as int, last as int) =~= Seq::empty());
            assert(cells_text(cells, first as int, first - 1) =~= Seq::empty());
        }
    }
    out
}

proof fn lemma_cells_past_end(row: Cells, first: int, i: int, last: int)
    requires
        row.len() <= i,
        first <= i <= last,
    ensures
        cells_text(row, first, i - 1) == cells_text(row, first, last),
    decreases last - i,
{
    if i < last {
        lemma_cells_past_end(row, first, i, last - 1);
    }
    assert(cells_text(row, first, last - 1) + Seq::empty() =~= cells_text(row, first, last - 1));
}

/// `s` without the indent of messages and without spaces at its end.
fn unpad(s: &str) -> (r: String)
    ensures
        r@ == unpadded(s@),
{
    let v: Vec<char> = to_chars(s);
    let mut n: usize = v.len();
    proof {
        assert(v@.take(n as int) =~= v@);
    }
    while n > 0 && v[n - 1] == ' '
        invariant
            n <= v@.len(),
            no_trailing_spaces(v@) == no_trailing_spaces(v@.take(n as int)),
        decreases n,
    {
        proof {
            assert(v@.take(n as int).drop_last() =~= v@.take(n - 1));
        }
        n = n - 1;
    }
    let ghost t = v@.take(n as int);
    let mut k: usize = 0;
    proof {
        assert(t.skip(0) =~= t);
    }
    while k < AGENT_INDENT && k < n && v[k] == ' '
        invariant
            k <= n <= v@.len(),
            k <= AGENT_INDENT,
            t == v@.take(n as int),
            leading_spaces(t, AGENT_INDENT as int) == k + leading_spaces(
                t.skip(k as int),
                AGENT_INDENT - k,
            ),
        decreases n - k,
    {
        proof {
            assert(t.skip(k as int).drop_first() =~= t.skip(k + 1));
        }
        k = k + 1;
    }
    proof {
        assert(v@.subrange(k as int, n as int) =~= t.skip(k as int));
    }
    from_range(&v, k, n)
}

/// The text under a selection, from the cells of the chat as they were drawn.
/// Rows lose the indent of messages and the spaces at their end; rows that
/// continue a wrapped line are joined to it by a space.
pub fn extract_selection_plaintext(
    grid: &Vec<Vec<String>>,
    cont_rows: &Vec<bool>,
    area: Rect,
    sel: Selection,
) -> (r: String)
    ensures
        r@ == selected_text(grid_views(grid@), cont_rows@, area, sel),
{
    let ghost all = grid_views(grid@);
    let (start, end) = sel.ordered();
    let mut out: String = String::new();
    let mut started: bool = false;
    let mut row: u32 = start.1 as u32;
    while row <= end.1 as u32
        invariant
            start.1 <= row <= end.1 + 1 || row == start.1,
            (start, end) == sel.span(),
            all == grid_views(grid@),
            started == (selected_rows(all, cont_rows@, area, sel, row as int) is Some),
            started ==> out@ == selected_rows(all, cont_rows@, area, sel, row as int)->0,
            !started ==> out@ == Seq::<char>::empty(),
        decreases end.1 + 1 - row,
    {
        let g: usize = if row > area.y as u32 {
            (row - area.y as u32) as usize
        } else {
            0
        };
        if g < grid.len() {
            let cells: &Vec<String> = &grid[g];
            proof {
                assert(all[g as int] == texts(cells@));
            }
            let first: usize = if row == start.1 as u32 && start.0 > area.x {
                (start.0 - area.x) as usize
            } else {
                0
            };
            let last: usize = if row == end.1 as u32 {
                if end.0 > area.x {
                    (end.0 - area.x) as usize
                } else {
                    0
                }
            } else if cells.len() > 0 {
                cells.len() - 1
            } else {
                0
            };
            let raw: String = row_text(cells, first, last);
            let t: String = unpad(raw.as_str());
            if started {
                let continues: bool = g < cont_rows.len() && cont_rows[g];
                out.push(
                    if continues {
                        ' '
                    } else {
                        '\n'
                    },
                );
            }
            out.append(t.as_str());
            proof {
                if !started {
                    assert(out@ =~= t@);
                }
            }
            started = true;
        }
        row = row + 1;
    }
    proof {
        selection_has_no_direction(sel);
    }
    out
}

// ---- Highlight ------------------------------------------------------------

/// The columns of screen row `row` that are highlighted: the selected part of
/// what the row holds. Rows of controls and of white space are left out.
pub open spec fn highlighted(
    grid: Seq<Cells>,
    chip_rows: Seq<bool>,
    area: Rect,
    sel: Selection,
    row: int,
) -> Option<(int, int)> {
    let (start, end) = sel.span();
    let g = monus(row, area.y as int);
    if row < area.y || row > area.y + monus(area.height as int, 1) || g >= grid.len() || (g
        < chip_rows.len() && chip_rows[g]) || bounds_of(grid[g]) is None {
        None
    } else {
        let (content_first, content_last) = bounds_of(grid[g])->0;
        let first = max_int(
            if row == start.1 {
                start.0 as int
            } else {
                area.x as int
            },
            (area.x + content_first) % 0x10000,
        );
        let last = min_int(
            if row == end.1 {
                end.0 as int
            } else {
                area.x + monus(area.width as int, 1)
            },
            (area.x + content_last) % 0x10000,
        );
        if first > last {
            None
        } else {
            Some((first, last))
        }
    }
}

/// The highlighted stretches, `(row, first column, last column)`, of the rows
/// before screen row `to`.
pub open spec fn highlights(
    grid: Seq<Cells>,
    chip_rows: Seq<bool>,
    area: Rect,
    sel: Selection,
    to: int,
) -> Seq<(int, int, int)>
    decreases to,
{
    if to <= sel.span().0.1 {
        Seq::empty()
    } else {
        let above = highlights(grid, chip_rows, area, sel, to - 1);
        match highlighted(grid, chip_rows, area, sel, to - 1) {
            Some((first, last)) => above.push((to - 1, first, last)),
            None => above,
        }
    }
}

pub open spec fn stretch_views(v: Seq<(u16, u16, u16)>) -> Seq<(int, int, int)> {
    v.map_values(|s: (u16, u16, u16)| (s.0 as int, s.1 as int, s.2 as int))
}

/// Only selected cells of the chat are highlighted.
pub proof fn highlight_stays_inside(
    grid: Seq<Cells>,
    chip_rows: Seq<bool>,
    area: Rect,
    sel: Selection,
    row: int,
)
    requires
        area.on_screen(),
        forall|i: int| 0 <= i < grid.len() ==> (#[trigger] grid[i]).len() <= area.width,
    ensures
        match highlighted(grid, chip_rows, area, sel, row) {
            None => true,
            Some((first, last)) => {
                &&& first <= last
                &&& area.y <= row
                &&& row == sel.span().0.1 ==> sel.span().0.0 <= first
                &&& row == sel.span().1.1 ==> last <= sel.span().1.0
                &&& area.x <= first && last < area.right()
            },
        },
{
    let g = monus(row, area.y as int);
    if highlighted(grid, chip_rows, area, sel, row) is Some {
        lemma_bounds(grid[g]);
        assert(grid[g].len() <= area.width);
    }
}

proof fn lemma_bounds(row: Cells)
    ensures
        bounds_of(row) is Some ==> 0 <= (bounds_of(row)->0).0 <= (bounds_of(row)->0).1 < row.len(),
{
    lemma_first_content(row, 0);
    if first_content(row, 0) < row.len() {
        lemma_last_content(row, row.len() as int, first_content(row, 0));
    }
}

proof fn lemma_first_content(row: Cells, i: int)
    requires
        0 <= i <= row.len(),
    ensures
        i <= first_content(row, i) <= row.len(),
        first_content(row, i) < row.len() ==> !is_blank(row[first_content(row, i)]),
    decreases row.len() - i,
{
    if i < row.len() && is_blank(row[i]) {
        lemma_first_content(row, i + 1);
    }
}

fn cut_to_screen(x: u16, col: usize) -> (r: u16)
    ensures
        r == (x + col) % 0x10000,
{
    let sum: u128 = x as u128 + col as u128;
    (sum % 0x10000) as u16
}

/// The stretches of cells to highlight for a selection, `(row, first column,
/// last column)`.
pub fn selection_highlight(
    area: Rect,
    sel: Selection,
    chip_rows: &Vec<bool>,
    grid: &Vec<Vec<String>>,
) -> (r: Vec<(u16, u16, u16)>)
    requires
        area.on_screen(),
    ensures
        stretch_views(r@) == highlights(
            grid_views(grid@),
            chip_rows@,
            area,
            sel,
            sel.span().1.1 + 1,
        ),
{
    let ghost all = grid_views(grid@);
    let (start, end) = sel.ordered();
    let right: u16 = area.x + if area.width > 0 {
        area.width - 1
    } else {
        0
    };
    let bottom: u16 = area.y + if area.height > 0 {
        area.height - 1
    } else {
        0
    };
    let mut out: Vec<(u16, u16, u16)> = Vec::new();
    let mut row: u32 = start.1 as u32;
    proof {
        selection_has_no_direction(sel);
        assert(stretch_views(out@) =~= Seq::empty());
    }
    while row <= end.1 as u32
        invariant
            start.1 <= row <= end.1 + 1,
            (start, end) == sel.span(),
            all == grid_views(grid@),
            right == area.x + monus(area.width as int, 1),
            bottom == area.y + monus(area.height as int, 1),
            stretch_views(out@) == highlights(all, chip_rows@, area, sel, row as int),
        decreases end.1 + 1 - row,
    {
        if row >= area.y as u32 && row <= bottom as u32 {
            let g: usize = (row - area.y as u32) as usize;
            let chip: bool = g < chip_rows.len() && chip_rows[g];
            if !chip && g < grid.len() {
                proof {
                    assert(all[g as int] == texts(grid@[g as int]@));
                }
                match content_bounds(&grid[g]) {
                    None => {},
                    Some((content_first, content_last)) => {
                        let a: u16 = if row == start.1 as u32 {
                            start.0
                        } else {
                            area.x
                        };
                        let z: u16 = if row == end.1 as u32 {
                            end.0
                        } else {
                            right
                        };
                        let ca: u16 = cut_to_screen(area.x, content_first);
                        let cz: u16 = cut_to_screen(area.x, content_last);
                        let first: u16 = if a > ca {
                            a
                        } else {
                            ca
                        };
                        let last: u16 = if z < cz {
                            z
                        } else {
                            cz
                        };
                        if first <= last {
                            let ghost before = stretch_views(out@);
                            out.push((row as u16, first, last));
                            proof {
                                assert(stretch_views(out@) =~= before.push(
                                    (row as int, first as int, last as int),
                                ));
                            }
                        }
                    },
                }
            }
        }
        row = row + 1;
    }
    out
}

} // verus!
