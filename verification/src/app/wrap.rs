//! Soft wrapping of the composer's text and the place of the cursor in it.

use vstd::prelude::*;
use crate::nav::{max_int, max_usize, min_int, monus};
use crate::text::{lemma_newline_parts, newline_parts, split_newlines, texts, to_chars};

verus! {

/// One past the last space of `s` between `lo` and `hi`, or `lo`.
pub open spec fn last_break(s: Seq<char>, lo: int, hi: int) -> int
    decreases hi - lo,
{
    if hi <= lo {
        lo
    } else if s[hi - 1] == ' ' {
        hi
    } else {
        last_break(s, lo, hi - 1)
    }
}

/// End of the row that begins at `idx`: behind the last space that fits, or
/// after `budget` characters when none does.
pub open spec fn row_end(s: Seq<char>, idx: int, budget: int) -> int {
    if s.len() - idx <= budget {
        s.len() as int
    } else if last_break(s, idx, idx + budget) > idx {
        last_break(s, idx, idx + budget)
    } else {
        idx + budget
    }
}

proof fn lemma_last_break(s: Seq<char>, lo: int, hi: int)
    requires
        lo <= hi,
    ensures
        lo <= last_break(s, lo, hi) <= hi,
    decreases hi - lo,
{
    if lo < hi && s[hi - 1] != ' ' {
        lemma_last_break(s, lo, hi - 1);
    }
}

/// The rows of `s` from `idx` on.
pub open spec fn rows_from(s: Seq<char>, budget: int, idx: int) -> Seq<(int, int)>
    decreases s.len() - idx,
    when budget > 0
    via rows_from_decreases
{
    if s.len() - idx <= budget {
        seq![(idx, s.len() as int)]
    } else {
        seq![(idx, row_end(s, idx, budget))] + rows_from(s, budget, row_end(s, idx, budget))
    }
}

#[via_fn]
proof fn rows_from_decreases(s: Seq<char>, budget: int, idx: int) {
    if s.len() - idx > budget {
        lemma_last_break(s, idx, idx + budget);
    }
}

/// The rows of a line of text that is `budget` characters wide, as ranges of
/// characters. A line without characters takes one row.
pub open spec fn wrapped(s: Seq<char>, budget: int) -> Seq<(int, int)> {
    if s.len() == 0 {
        seq![(0int, 0int)]
    } else if budget <= 0 {
        seq![(0int, s.len() as int)]
    } else {
        rows_from(s, budget, 0)
    }
}

/// Whether `rows` cut the range from `from` to `to` into consecutive pieces.
pub open spec fn tiles(rows: Seq<(int, int)>, from: int, to: int) -> bool {
    &&& rows.len() > 0
    &&& rows[0].0 == from
    &&& rows.last().1 == to
    &&& forall|i: int| 0 <= i < rows.len() ==> (#[trigger] rows[i]).0 <= rows[i].1
    &&& forall|i: int| 0 <= i < rows.len() - 1 ==> (#[trigger] rows[i]).1 == rows[i + 1].0
}

proof fn lemma_rows_from(s: Seq<char>, budget: int, idx: int)
    requires
        budget > 0,
        0 <= idx < s.len(),
    ensures
        tiles(rows_from(s, budget, idx), idx, s.len() as int),
        forall|i: int|
            0 <= i < rows_from(s, budget, idx).len() ==> 0 < (#[trigger] rows_from(
                s,
                budget,
                idx,
            )[i]).1 - rows_from(s, budget, idx)[i].0 <= budget,
        rows_from(s, budget, idx).len() <= s.len() - idx,
    decreases s.len() - idx,
{
    let rows = rows_from(s, budget, idx);
    if s.len() - idx > budget {
        lemma_last_break(s, idx, idx + budget);
        let e = row_end(s, idx, budget);
        let rest = rows_from(s, budget, e);
        lemma_rows_from(s, budget, e);
        assert(rows == seq![(idx, e)] + rest);
        assert forall|i: int| 0 <= i < rows.len() - 1 implies (#[trigger] rows[i]).1 == rows[i
            + 1].0 by {
            if i > 0 {
                assert(rows[i] == rest[i - 1]);
                assert(rows[i + 1] == rest[i]);
            } else {
                assert(rows[1] == rest[0]);
            }
        }
        assert forall|i: int| 0 <= i < rows.len() implies 0 < (#[trigger] rows[i]).1 - rows[i].0
            <= budget by {
            if i > 0 {
                assert(rows[i] == rest[i - 1]);
            }
        }
        assert(rows.last() == rest.last());
    }
}

/// The rows of a line tile it: nothing is lost or shown twice. Each row fits the
/// budget, and no row is empty unless the line is.
pub proof fn rows_tile_the_line(s: Seq<char>, budget: int)
    ensures
        tiles(wrapped(s, budget), 0, s.len() as int),
        budget > 0 ==> forall|i: int|
            0 <= i < wrapped(s, budget).len() ==> (#[trigger] wrapped(s, budget)[i]).1 - wrapped(
                s,
                budget,
            )[i].0 <= budget,
        s.len() > 0 ==> forall|i: int|
            0 <= i < wrapped(s, budget).len() ==> (#[trigger] wrapped(s, budget)[i]).0 < wrapped(
                s,
                budget,
            )[i].1,
        1 <= wrapped(s, budget).len() <= s.len() + 1,
{
    if s.len() > 0 && budget > 0 {
        lemma_rows_from(s, budget, 0);
        let rows = rows_from(s, budget, 0);
        assert forall|i: int| 0 <= i < wrapped(s, budget).len() implies (#[trigger] wrapped(
            s,
            budget,
        )[i]).0 < wrapped(s, budget)[i].1 by {
            assert(0 < rows[i].1 - rows[i].0);
        }
    }
}

pub open spec fn row_views(v: Seq<(usize, usize)>) -> Seq<(int, int)> {
    v.map_values(|r: (usize, usize)| (r.0 as int, r.1 as int))
}

/// Cut a line into rows at most `budget` characters wide. A row ends behind the
/// last space that fits, or after `budget` characters when there is none.
pub fn wrap_logical_line_chunks(line: &str, budget: usize) -> (r: Vec<(usize, usize)>)
    ensures
        row_views(r@) == wrapped(line@, budget as int),
        r@.len() >= 1,
{
    let chars: Vec<char> = to_chars(line);
    let n: usize = chars.len();
    let mut out: Vec<(usize, usize)> = Vec::new();
    proof {
        rows_tile_the_line(line@, budget as int);
    }
    if n == 0 || budget == 0 {
        out.push((0, n));
        proof {
            assert(row_views(out@) =~= wrapped(line@, budget as int));
        }
        return out;
    }
    let mut idx: usize = 0;
    proof {
        assert(row_views(out@) + rows_from(chars@, budget as int, 0) =~= rows_from(
            chars@,
            budget as int,
            0,
        ));
    }
    while n - idx > budget
        invariant
            n == chars@.len(),
            idx < n,
            budget > 0,
            row_views(out@) + rows_from(chars@, budget as int, idx as int) == rows_from(
                chars@,
                budget as int,
                0,
            ),
        decreases n - idx,
    {
        let max_end: usize = idx + budget;
        let mut b: usize = max_end;
        while b > idx && chars[b - 1] != ' '
            invariant
                n == chars@.len(),
                idx <= b <= max_end <= n,
                last_break(chars@, idx as int, max_end as int) == last_break(
                    chars@,
                    idx as int,
                    b as int,
                ),
            decreases b,
        {
            b = b - 1;
        }
        let end: usize = if b > idx {
            b
        } else {
            max_end
        };
        let ghost before = row_views(out@);
        out.push((idx, end));
        proof {
            assert(row_views(out@) =~= before.push((idx as int, end as int)));
            assert(row_views(out@) + rows_from(chars@, budget as int, end as int) =~= before
                + rows_from(chars@, budget as int, idx as int));
        }
        idx = end;
    }
    let ghost before = row_views(out@);
    out.push((idx, n));
    proof {
        assert(row_views(out@) =~= before + rows_from(chars@, budget as int, idx as int));
    }
    out
}

// ---- The cursor -----------------------------------------------------------

/// Rows that the first `n` lines take.
pub open spec fn rows_of_lines(lines: Seq<Seq<char>>, n: int, budget: int) -> int
    decreases n,
{
    if n <= 0 {
        0
    } else {
        rows_of_lines(lines, n - 1, budget) + wrapped(lines[n - 1], budget).len()
    }
}

/// Whether row `i` holds column `col`. The last row also holds the column just
/// past its end.
pub open spec fn row_holds(rows: Seq<(int, int)>, i: int, col: int) -> bool {
    rows[i].0 <= col && (col < rows[i].1 || i == rows.len() - 1 && col == rows[i].1)
}

/// First row from `i` on that holds column `col`, or the number of rows.
pub open spec fn row_of(rows: Seq<(int, int)>, col: int, i: int) -> int
    decreases rows.len() - i,
{
    if i >= rows.len() {
        rows.len() as int
    } else if row_holds(rows, i, col) {
        i
    } else {
        row_of(rows, col, i + 1)
    }
}

/// Characters that fit into a row behind the prefix.
pub open spec fn text_budget(width: int, prefix: int) -> int {
    max_int(monus(width, prefix), 1)
}

/// Row and column of the cursor in the composer's box, `width` columns wide,
/// with the text behind a prefix. A column past the end counts as the end.
pub open spec fn cursor_place(
    text: Seq<char>,
    line: int,
    col: int,
    prefix: int,
    width: int,
) -> (int, int) {
    let budget = text_budget(width, prefix);
    let lines = newline_parts(text);
    if width <= 0 {
        (0, 0)
    } else if line >= lines.len() {
        (rows_of_lines(lines, lines.len() as int, budget), prefix)
    } else {
        let rows = wrapped(lines[line], budget);
        let above = rows_of_lines(lines, line, budget);
        let i = row_of(rows, col, 0);
        if i < rows.len() {
            (above + i, prefix + (col - rows[i].0))
        } else {
            (above + rows.len() - 1, prefix + (rows.last().1 - rows.last().0))
        }
    }
}

/// Characters of the first `n` lines, with their line ends.
spec fn chars_of_lines(lines: Seq<Seq<char>>, n: int) -> int
    decreases n,
{
    if n <= 0 {
        0
    } else {
        chars_of_lines(lines, n - 1) + lines[n - 1].len() + 1
    }
}

proof fn lemma_chars_prefix(a: Seq<Seq<char>>, b: Seq<Seq<char>>, n: int)
    requires
        0 <= n <= a.len(),
        n <= b.len(),
        forall|i: int| 0 <= i < n ==> a[i] == b[i],
    ensures
        chars_of_lines(a, n) == chars_of_lines(b, n),
    decreases n,
{
    if n > 0 {
        lemma_chars_prefix(a, b, n - 1);
    }
}

proof fn lemma_chars_of_lines(text: Seq<char>)
    ensures
        chars_of_lines(newline_parts(text), newline_parts(text).len() as int) == text.len() + 1,
    decreases text.len(),
{
    lemma_newline_parts(text);
    let lines = newline_parts(text);
    if text.len() > 0 {
        lemma_chars_of_lines(text.drop_last());
        lemma_newline_parts(text.drop_last());
        let before = newline_parts(text.drop_last());
        if text.last() == '\n' {
            lemma_chars_prefix(lines, before, before.len() as int);
        } else {
            lemma_chars_prefix(lines, before, before.len() - 1);
        }
    } else {
        assert(chars_of_lines(lines, 0) == 0);
        assert(chars_of_lines(lines, 1) == 1);
    }
}

proof fn lemma_chars_grow(lines: Seq<Seq<char>>, n: int, m: int)
    requires
        0 <= n <= m <= lines.len(),
    ensures
        chars_of_lines(lines, n) <= chars_of_lines(lines, m),
    decreases m - n,
{
    if n < m {
        lemma_chars_grow(lines, n, m - 1);
    }
}

proof fn lemma_rows_of_lines(lines: Seq<Seq<char>>, n: int, budget: int)
    requires
        0 <= n <= lines.len(),
    ensures
        0 <= rows_of_lines(lines, n, budget) <= chars_of_lines(lines, n),
    decreases n,
{
    if n > 0 {
        lemma_rows_of_lines(lines, n - 1, budget);
        rows_tile_the_line(lines[n - 1], budget);
    }
}

proof fn lemma_row_of(rows: Seq<(int, int)>, col: int, i: int)
    requires
        0 <= i <= rows.len(),
    ensures
        i <= row_of(rows, col, i) <= rows.len(),
        row_of(rows, col, i) < rows.len() ==> row_holds(rows, row_of(rows, col, i), col),
    decreases rows.len() - i,
{
    if i < rows.len() && !row_holds(rows, i, col) {
        lemma_row_of(rows, col, i + 1);
    }
}

proof fn lemma_row_exists(rows: Seq<(int, int)>, from: int, to: int, col: int, i: int)
    requires
        tiles(rows, from, to),
        0 <= i < rows.len(),
        rows[i].0 <= col <= to,
    ensures
        row_of(rows, col, i) < rows.len(),
    decreases rows.len() - i,
{
    if !row_holds(rows, i, col) {
        assert(rows[i].1 <= col);
        if i < rows.len() - 1 {
            lemma_row_exists(rows, from, to, col, i + 1);
        }
    }
}

/// A column of the text has a place: its row holds it, behind the prefix and
/// within the width of the box, with one column to spare for the end of a row.
pub proof fn cursor_stays_in_the_box(
    text: Seq<char>,
    line: int,
    col: int,
    prefix: int,
    width: int,
)
    requires
        0 <= prefix < width,
        0 <= line < newline_parts(text).len(),
        0 <= col <= newline_parts(text)[line].len(),
    ensures
        prefix <= cursor_place(text, line, col, prefix, width).1 <= width,
        ({
            let budget = text_budget(width, prefix);
            let lines = newline_parts(text);
            let above = rows_of_lines(lines, line, budget);
            let row = cursor_place(text, line, col, prefix, width).0;
            above <= row < above + wrapped(lines[line], budget).len() && wrapped(
                lines[line],
                budget,
            )[row - above].0 <= col <= wrapped(lines[line], budget)[row - above].1
        }),
{
    let budget = text_budget(width, prefix);
    let l = newline_parts(text)[line];
    let rows = wrapped(l, budget);
    rows_tile_the_line(l, budget);
    lemma_row_exists(rows, 0, l.len() as int, col, 0);
    lemma_row_of(rows, col, 0);
}

proof fn lemma_tile_order(rows: Seq<(int, int)>, from: int, to: int, i: int, j: int)
    requires
        tiles(rows, from, to),
        0 <= i < j < rows.len(),
    ensures
        rows[i].1 <= rows[j].0,
    decreases j - i,
{
    assert(rows[j - 1].1 == rows[j - 1 + 1].0);
    if i < j - 1 {
        lemma_tile_order(rows, from, to, i, j - 1);
        assert(rows[j - 1].0 <= rows[j - 1].1);
    }
}

proof fn lemma_one_row_holds(rows: Seq<(int, int)>, to: int, col: int, i: int)
    requires
        tiles(rows, 0, to),
        0 <= i < rows.len(),
        row_holds(rows, i, col),
    ensures
        row_of(rows, col, 0) == i,
{
    let n = rows.len() as int;
    let k = row_of(rows, col, 0);
    lemma_row_of(rows, col, 0);
    if i < n - 1 {
        lemma_tile_order(rows, 0, to, i, n - 1);
    }
    assert(rows[0].0 <= col) by {
        if i > 0 {
            lemma_tile_order(rows, 0, to, 0, i);
            assert(rows[0].0 <= rows[0].1);
        }
    }
    assert(rows[n - 1].0 <= rows[n - 1].1);
    assert(col <= to);
    lemma_row_exists(rows, 0, to, col, 0);
    assert(row_holds(rows, k, col));
    if k < i {
        lemma_tile_order(rows, 0, to, k, i);
    }
    if i < k {
        lemma_tile_order(rows, 0, to, i, k);
    }
}

/// The cursor begins at the top, behind the prefix. A character further on it stands one
/// column to the right, or at the beginning of the next row. Past the end of a line it
/// stands where the line ends.
pub proof fn cursor_moves_with_the_text(
    text: Seq<char>,
    line: int,
    col: int,
    beyond: int,
    prefix: int,
    width: int,
)
    requires
        0 <= prefix < width,
        0 <= line < newline_parts(text).len(),
        0 <= col < newline_parts(text)[line].len(),
        newline_parts(text)[line].len() <= beyond,
    ensures
        cursor_place(text, 0, 0, prefix, width) == (0int, prefix),
        ({
            let here = cursor_place(text, line, col, prefix, width);
            let next = cursor_place(text, line, col + 1, prefix, width);
            next == (here.0, here.1 + 1) || next == (here.0 + 1, prefix)
        }),
        cursor_place(text, line, beyond, prefix, width) == cursor_place(
            text,
            line,
            newline_parts(text)[line].len() as int,
            prefix,
            width,
        ),
{
    let budget = text_budget(width, prefix);
    let lines = newline_parts(text);
    let l = lines[line];
    let to = l.len() as int;
    let rows = wrapped(l, budget);
    rows_tile_the_line(lines[0], budget);
    rows_tile_the_line(l, budget);
    assert(row_holds(wrapped(lines[0], budget), 0, 0));
    lemma_row_exists(rows, 0, to, col, 0);
    lemma_row_of(rows, col, 0);
    let i = row_of(rows, col, 0);
    assert(row_holds(rows, i, col));
    assert(col < rows[i].1);
    if col + 1 < rows[i].1 || i == rows.len() - 1 {
        assert(row_holds(rows, i, col + 1));
        lemma_one_row_holds(rows, to, col + 1, i);
    } else {
        assert(rows[i + 1].0 == col + 1);
        assert(rows[i + 1].0 < rows[i + 1].1);
        assert(row_holds(rows, i + 1, col + 1));
        lemma_one_row_holds(rows, to, col + 1, i + 1);
    }
    assert(row_holds(rows, rows.len() - 1, to));
    lemma_one_row_holds(rows, to, to, rows.len() - 1);
    if beyond > to {
        lemma_row_of(rows, beyond, 0);
        let k = row_of(rows, beyond, 0);
        if k < rows.len() - 1 {
            lemma_tile_order(rows, 0, to, k, rows.len() - 1);
        }
    }
}

/// The line below begins in the row below the last row of a line, behind the prefix.
pub proof fn lines_begin_below(text: Seq<char>, line: int, prefix: int, width: int)
    requires
        0 <= prefix < width,
        0 <= line < newline_parts(text).len() - 1,
    ensures
        ({
            let len = newline_parts(text)[line].len() as int;
            cursor_place(text, line + 1, 0, prefix, width) == (
                cursor_place(text, line, len, prefix, width).0 + 1,
                prefix,
            )
        }),
{
    let budget = text_budget(width, prefix);
    let lines = newline_parts(text);
    let to = lines[line].len() as int;
    let rows = wrapped(lines[line], budget);
    let below = wrapped(lines[line + 1], budget);
    rows_tile_the_line(lines[line], budget);
    rows_tile_the_line(lines[line + 1], budget);
    assert(rows.last().0 <= rows.last().1);
    assert(row_holds(rows, rows.len() - 1, to));
    lemma_one_row_holds(rows, to, to, rows.len() - 1);
    assert(row_holds(below, 0, 0));
}

/// Row and column of the cursor in the composer's box.
pub fn cursor_visual_pos(
    text: &str,
    cursor_line: usize,
    cursor_col: usize,
    prefix: usize,
    wrap_width: usize,
) -> (r: (usize, usize))
    ensures
        r.0 == min_int(
            cursor_place(
                text@,
                cursor_line as int,
                cursor_col as int,
                prefix as int,
                wrap_width as int,
            ).0,
            usize::MAX as int,
        ),
        r.1 == min_int(
            cursor_place(
                text@,
                cursor_line as int,
                cursor_col as int,
                prefix as int,
                wrap_width as int,
            ).1,
            usize::MAX as int,
        ),
{
    if wrap_width == 0 {
        return (0, 0);
    }
    let budget: usize = max_usize(
        if wrap_width > prefix {
            wrap_width - prefix
        } else {
            0
        },
        1,
    );
    let lines: Vec<String> = split_newlines(text);
    let chars: Vec<char> = to_chars(text);
    let n: usize = chars.len();
    let ghost parts = newline_parts(text@);
    proof {
        lemma_chars_of_lines(text@);
    }
    let mut above: u128 = 0;
    let mut i: usize = 0;
    while i < lines.len() && i < cursor_line
        invariant
            i <= lines@.len() == parts.len(),
            i <= cursor_line,
            parts == texts(lines@),
            n == text@.len(),
            chars_of_lines(parts, parts.len() as int) == n + 1,
            above == rows_of_lines(parts, i as int, budget as int),
            above <= n + 1,
        decreases lines@.len() - i,
    {
        let rows: Vec<(usize, usize)> = wrap_logical_line_chunks(lines[i].as_str(), budget);
        proof {
            assert(parts[i as int] == lines@[i as int]@);
            lemma_rows_of_lines(parts, i + 1, budget as int);
            lemma_chars_grow(parts, i + 1, parts.len() as int);
            assert(row_views(rows@).len() == rows@.len());
        }
        above = above + rows.len() as u128;
        i = i + 1;
    }
    if i >= lines.len() {
        return (row_or_max(above), prefix);
    }
    let rows: Vec<(usize, usize)> = wrap_logical_line_chunks(lines[i].as_str(), budget);
    let ghost all = row_views(rows@);
    proof {
        assert(parts[i as int] == lines@[i as int]@);
        lemma_rows_of_lines(parts, i + 1, budget as int);
        lemma_chars_grow(parts, i + 1, parts.len() as int);
        rows_tile_the_line(parts[i as int], budget as int);
    }
    let m: usize = rows.len();
    let mut c: usize = 0;
    while c < m
        invariant
            c <= m == rows@.len(),
            all == row_views(rows@),
            tiles(all, 0, parts[i as int].len() as int),
            above + m <= n + 1,
            row_of(all, cursor_col as int, 0) == row_of(all, cursor_col as int, c as int),
            text@.len() == n,
            wrap_width > 0,
            i == cursor_line,
            i < parts.len(),
            parts == newline_parts(text@),
            all == wrapped(parts[i as int], budget as int),
            budget == text_budget(wrap_width as int, prefix as int),
            above == rows_of_lines(parts, i as int, budget as int),
        decreases m - c,
    {
        let (start, end) = rows[c];
        proof {
            assert(all[c as int] == (start as int, end as int));
        }
        if cursor_col >= start && (cursor_col < end || c + 1 == m && cursor_col == end) {
            return (row_or_max(above + c as u128), sum_or_max(prefix, cursor_col - start));
        }
        c = c + 1;
    }
    let (start, end) = rows[m - 1];
    proof {
        assert(all.last() == (start as int, end as int));
    }
    (row_or_max(above + (m - 1) as u128), sum_or_max(prefix, end - start))
}

fn row_or_max(a: u128) -> (r: usize)
    ensures
        r == min_int(a as int, usize::MAX as int),
{
    if a > usize::MAX as u128 {
        usize::MAX
    } else {
        a as usize
    }
}

fn sum_or_max(a: usize, b: usize) -> (r: usize)
    ensures
        r == min_int(a + b, usize::MAX as int),
{
    if a > usize::MAX - b {
        usize::MAX
    } else {
        a + b
    }
}

} // verus!
