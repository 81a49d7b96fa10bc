//! What holds of every diff that is shown.

use vstd::prelude::*;
use crate::diff::{DiffStyle, LineTag, PairState, all_lines, column_width, count_tag, counts_text, diff_rows, ellipsis_row, header_row, inline_row, inline_rows, padded, padding_is_exact, pair_rows, paired, paired_row, side_rows, summary_row, without_newline};
use crate::nav::min_int;
use crate::style::{Color, LineView, Style, line_text};
use crate::text::decimal;

verus! {

/// A line as a column of `col` characters shows it.
pub open spec fn cell_of(line: Seq<char>, col: nat) -> Seq<char> {
    padded(without_newline(line), col)
}

/// Whether a row of two columns has a line on a side: a removed line has none
/// beside it on the right unless an added one is paired with it, and the other way
/// round.
pub open spec fn has_cell(l: LineView, right: bool) -> bool {
    l.len() == 4 && if right {
        l[3].style == Style::fg(Color::Green) || l[1].style != Style::fg(Color::Red)
    } else {
        l[1].style == Style::fg(Color::Red) || l[3].style != Style::fg(Color::Green)
    }
}

/// One column of a side-by-side diff, read from top to bottom.
pub open spec fn column_read(rows: Seq<LineView>, right: bool) -> Seq<Seq<char>>
    decreases rows.len(),
{
    if rows.len() == 0 {
        Seq::empty()
    } else {
        let rest = column_read(rows.drop_last(), right);
        let l = rows.last();
        if has_cell(l, right) {
            rest.push(
                l[if right {
                    3int
                } else {
                    1int
                }].text,
            )
        } else {
            rest
        }
    }
}

/// The lines that one of the two texts has: all but those tagged `other`.
pub open spec fn lines_without(
    changes: Seq<(LineTag, Seq<char>)>,
    other: LineTag,
    col: nat,
) -> Seq<Seq<char>>
    decreases changes.len(),
{
    if changes.len() == 0 {
        Seq::empty()
    } else {
        let rest = lines_without(changes.drop_last(), other, col);
        if changes.last().0 == other {
            rest
        } else {
            rest.push(cell_of(changes.last().1, col))
        }
    }
}

proof fn lemma_read_concat(a: Seq<LineView>, b: Seq<LineView>, right: bool)
    ensures
        column_read(a + b, right) == column_read(a, right) + column_read(b, right),
    decreases b.len(),
{
    if b.len() == 0 {
        assert(a + b =~= a);
        assert(column_read(a, right) + column_read(b, right) =~= column_read(a, right));
    } else {
        lemma_read_concat(a, b.drop_last(), right);
        assert((a + b).drop_last() =~= a + b.drop_last());
        assert(column_read(a + b, right) =~= column_read(a, right) + column_read(b, right));
    }
}

proof fn lemma_without_concat(
    a: Seq<(LineTag, Seq<char>)>,
    b: Seq<(LineTag, Seq<char>)>,
    other: LineTag,
    col: nat,
)
    ensures
        lines_without(a + b, other, col) == lines_without(a, other, col) + lines_without(
            b,
            other,
            col,
        ),
    decreases b.len(),
{
    if b.len() == 0 {
        assert(a + b =~= a);
        assert(lines_without(a, other, col) + lines_without(b, other, col) =~= lines_without(
            a,
            other,
            col,
        ));
    } else {
        lemma_without_concat(a, b.drop_last(), other, col);
        assert((a + b).drop_last() =~= a + b.drop_last());
        assert(lines_without(a + b, other, col) =~= lines_without(a, other, col) + lines_without(
            b,
            other,
            col,
        ));
    }
}

spec fn waiting(t: Seq<Seq<char>>, col: nat) -> Seq<Seq<char>> {
    t.map_values(|s: Seq<char>| padded(s, col))
}

proof fn lemma_read_pairs(left: Seq<Seq<char>>, right: Seq<Seq<char>>, col: nat, k: int)
    requires
        0 <= k <= pair_rows(left, right, col).len(),
    ensures
        column_read(pair_rows(left, right, col).take(k), false) == waiting(
            left.take(min_int(k, left.len() as int)),
            col,
        ),
        column_read(pair_rows(left, right, col).take(k), true) == waiting(
            right.take(min_int(k, right.len() as int)),
            col,
        ),
    decreases k,
{
    let rows = pair_rows(left, right, col);
    if k > 0 {
        lemma_read_pairs(left, right, col, k - 1);
        assert(rows.take(k).drop_last() =~= rows.take(k - 1));
        assert(rows.take(k).last() == paired_row(left, right, k - 1, col));
    }
    assert(column_read(rows.take(k), false) =~= waiting(
        left.take(min_int(k, left.len() as int)),
        col,
    ));
    assert(column_read(rows.take(k), true) =~= waiting(
        right.take(min_int(k, right.len() as int)),
        col,
    ));
}

proof fn lemma_read_flushed(p: PairState, col: nat)
    ensures
        column_read(p.flushed(col).rows, false) == column_read(p.rows, false) + waiting(p.left, col),
        column_read(p.flushed(col).rows, true) == column_read(p.rows, true) + waiting(p.right, col),
{
    let rows = pair_rows(p.left, p.right, col);
    let n = rows.len() as int;
    lemma_read_pairs(p.left, p.right, col, n);
    assert(rows.take(n) =~= rows);
    assert(p.left.take(min_int(n, p.left.len() as int)) =~= p.left);
    assert(p.right.take(min_int(n, p.right.len() as int)) =~= p.right);
    lemma_read_concat(p.rows, rows, false);
    lemma_read_concat(p.rows, rows, true);
}

proof fn lemma_read_paired(changes: Seq<(LineTag, Seq<char>)>, col: nat)
    ensures
        column_read(paired(changes, col).rows, false) + waiting(paired(changes, col).left, col)
            == lines_without(changes, LineTag::Insert, col),
        column_read(paired(changes, col).rows, true) + waiting(paired(changes, col).right, col)
            == lines_without(changes, LineTag::Delete, col),
    decreases changes.len(),
{
    let p = paired(changes, col);
    if changes.len() > 0 {
        lemma_read_paired(changes.drop_last(), col);
        let q = paired(changes.drop_last(), col);
        let cell = cell_of(changes.last().1, col);
        if changes.last().0 is Equal {
            lemma_read_flushed(q, col);
            assert(p.rows.drop_last() =~= q.flushed(col).rows);
            let l = p.rows.last();
            assert(has_cell(l, true) && has_cell(l, false));
            assert(l[1].text == cell && l[3].text == cell);
            assert(waiting(p.left, col) =~= Seq::empty());
            assert(waiting(p.right, col) =~= Seq::empty());
        } else if changes.last().0 is Delete {
            assert(waiting(p.left, col) =~= waiting(q.left, col).push(cell));
        } else {
            assert(waiting(p.right, col) =~= waiting(q.right, col).push(cell));
        }
    }
    assert(column_read(p.rows, false) + waiting(p.left, col) =~= lines_without(
        changes,
        LineTag::Insert,
        col,
    ));
    assert(column_read(p.rows, true) + waiting(p.right, col) =~= lines_without(
        changes,
        LineTag::Delete,
        col,
    ));
}

proof fn lemma_read_sides(groups: Seq<Seq<(LineTag, Seq<char>)>>, col: nat)
    ensures
        column_read(side_rows(groups, col), false) == lines_without(
            all_lines(groups),
            LineTag::Insert,
            col,
        ),
        column_read(side_rows(groups, col), true) == lines_without(
            all_lines(groups),
            LineTag::Delete,
            col,
        ),
    decreases groups.len(),
{
    if groups.len() > 0 {
        let before = side_rows(groups.drop_last(), col);
        let gap = before.push(ellipsis_row());
        let rows = paired(groups.last(), col).flushed(col).rows;
        lemma_read_sides(groups.drop_last(), col);
        lemma_read_paired(groups.last(), col);
        lemma_read_flushed(paired(groups.last(), col), col);
        lemma_without_concat(all_lines(groups.drop_last()), groups.last(), LineTag::Insert, col);
        lemma_without_concat(all_lines(groups.drop_last()), groups.last(), LineTag::Delete, col);
        assert(gap.drop_last() =~= before);
        lemma_read_concat(before, rows, false);
        lemma_read_concat(before, rows, true);
        lemma_read_concat(gap, rows, false);
        lemma_read_concat(gap, rows, true);
    }
}

/// Side by side, the left column read from top to bottom is the old text as far as
/// the groups go, and the right column the new text: unchanged lines stand in both,
/// removed ones on the left only, added ones on the right only.
pub proof fn columns_read_as_the_two_texts(
    tool: Seq<char>,
    path: Seq<char>,
    changes: Seq<(LineTag, Seq<char>)>,
    groups: Seq<Seq<(LineTag, Seq<char>)>>,
    width: int,
)
    requires
        width >= 80,
    ensures
        ({
            let rows = diff_rows(tool, path, changes, groups, DiffStyle::SideBySide, width);
            let col = ((width - 5) / 2) as nat;
            &&& column_read(rows, false) == lines_without(all_lines(groups), LineTag::Insert, col)
            &&& column_read(rows, true) == lines_without(all_lines(groups), LineTag::Delete, col)
        }),
{
    let head = seq![
        header_row(
            tool,
            path,
            count_tag(changes, LineTag::Insert),
            count_tag(changes, LineTag::Delete),
        ),
    ];
    let none = Seq::<LineView>::empty();
    let col = column_width(width);
    let body = side_rows(groups, col);
    assert(head.drop_last() =~= none);
    assert(head.last().len() == 6);
    assert(column_read(none, true) == Seq::<Seq<char>>::empty());
    assert(column_read(none, false) == Seq::<Seq<char>>::empty());
    lemma_read_sides(groups, col);
    lemma_read_concat(head, body, false);
    lemma_read_concat(head, body, true);
    assert(column_read(head + body, false) =~= column_read(body, false));
    assert(column_read(head + body, true) =~= column_read(body, true));
}

proof fn lemma_equal_cells_pairs(left: Seq<Seq<char>>, right: Seq<Seq<char>>, col: nat, i: int)
    requires
        0 <= i < pair_rows(left, right, col).len(),
    ensures
        ({
            let l = pair_rows(left, right, col)[i];
            l.len() == 4 && (l[1].style == Style::fg(Color::Red) || l[3].style == Style::fg(
                Color::Green,
            ))
        }),
{
}

/// A row without color shows the same line on both sides.
pub open spec fn plain_rows_mirror(rows: Seq<LineView>) -> bool {
    forall|i: int|
        0 <= i < rows.len() && (#[trigger] rows[i]).len() == 4 && rows[i][1].style
            == Style::plain() && rows[i][3].style == Style::plain() ==> rows[i][1].text
            == rows[i][3].text
}

proof fn lemma_mirror_paired(changes: Seq<(LineTag, Seq<char>)>, col: nat)
    ensures
        plain_rows_mirror(paired(changes, col).rows),
    decreases changes.len(),
{
    if changes.len() > 0 {
        lemma_mirror_paired(changes.drop_last(), col);
        lemma_mirror_flushed(paired(changes.drop_last(), col), col);
    }
}

proof fn lemma_mirror_flushed(p: PairState, col: nat)
    requires
        plain_rows_mirror(p.rows),
    ensures
        plain_rows_mirror(p.flushed(col).rows),
{
    let rows = p.flushed(col).rows;
    assert forall|i: int|
        0 <= i < rows.len() && (#[trigger] rows[i]).len() == 4 && rows[i][1].style
            == Style::plain() && rows[i][3].style == Style::plain() implies rows[i][1].text
        == rows[i][3].text by {
        if i < p.rows.len() {
            assert(rows[i] == p.rows[i]);
        } else {
            lemma_equal_cells_pairs(p.left, p.right, col, i - p.rows.len());
            assert(rows[i] == pair_rows(p.left, p.right, col)[i - p.rows.len()]);
        }
    }
}

/// Side by side, a row without color is an unchanged line: it shows the same text in
/// both columns.
pub proof fn unchanged_lines_mirror(groups: Seq<Seq<(LineTag, Seq<char>)>>, col: nat)
    ensures
        plain_rows_mirror(side_rows(groups, col)),
    decreases groups.len(),
{
    if groups.len() > 0 {
        unchanged_lines_mirror(groups.drop_last(), col);
        lemma_mirror_paired(groups.last(), col);
        lemma_mirror_flushed(paired(groups.last(), col), col);
    }
}

/// The lines of an inline diff: for every row of one line its mark and its text.
pub open spec fn inline_read(rows: Seq<LineView>) -> Seq<(Seq<char>, Seq<char>)>
    decreases rows.len(),
{
    if rows.len() == 0 {
        Seq::empty()
    } else {
        let rest = inline_read(rows.drop_last());
        let l = rows.last();
        if l.len() == 3 {
            rest.push((l[1].text, l[2].text))
        } else {
            rest
        }
    }
}

/// The mark and the text that a line of a diff should show inline.
pub open spec fn marked(changes: Seq<(LineTag, Seq<char>)>) -> Seq<(Seq<char>, Seq<char>)> {
    changes.map_values(
        |c: (LineTag, Seq<char>)|
            (
                if c.0 is Delete {
                    seq!['-', ' ']
                } else if c.0 is Insert {
                    seq!['+', ' ']
                } else {
                    seq![' ', ' ']
                },
                without_newline(c.1),
            ),
    )
}

proof fn lemma_inline_concat(a: Seq<LineView>, b: Seq<LineView>)
    ensures
        inline_read(a + b) == inline_read(a) + inline_read(b),
    decreases b.len(),
{
    if b.len() == 0 {
        assert(a + b =~= a);
        assert(inline_read(a) + inline_read(b) =~= inline_read(a));
    } else {
        lemma_inline_concat(a, b.drop_last());
        assert((a + b).drop_last() =~= a + b.drop_last());
        assert(inline_read(a + b) =~= inline_read(a) + inline_read(b));
    }
}

proof fn lemma_inline_group(changes: Seq<(LineTag, Seq<char>)>)
    ensures
        inline_read(changes.map_values(|c: (LineTag, Seq<char>)| inline_row(c))) == marked(changes),
    decreases changes.len(),
{
    let rows = changes.map_values(|c: (LineTag, Seq<char>)| inline_row(c));
    if changes.len() > 0 {
        lemma_inline_group(changes.drop_last());
        assert(rows.drop_last() =~= changes.drop_last().map_values(
            |c: (LineTag, Seq<char>)| inline_row(c),
        ));
        reveal_strlit("- ");
        reveal_strlit("+ ");
        reveal_strlit("  ");
        assert("- "@ =~= seq!['-', ' ']);
        assert("+ "@ =~= seq!['+', ' ']);
        assert("  "@ =~= seq![' ', ' ']);
    }
    assert(inline_read(rows) =~= marked(changes));
}

/// Inline, the rows of the body are the lines of the groups in order, removed ones
/// behind a minus, added ones behind a plus, and unchanged ones behind a blank.
pub proof fn inline_rows_read_as_the_groups(groups: Seq<Seq<(LineTag, Seq<char>)>>)
    ensures
        inline_read(inline_rows(groups)) == marked(all_lines(groups)),
    decreases groups.len(),
{
    if groups.len() > 0 {
        let before = inline_rows(groups.drop_last());
        let gap = before.push(ellipsis_row());
        let rows = groups.last().map_values(|c: (LineTag, Seq<char>)| inline_row(c));
        inline_rows_read_as_the_groups(groups.drop_last());
        lemma_inline_group(groups.last());
        assert(gap.drop_last() =~= before);
        lemma_inline_concat(before, rows);
        lemma_inline_concat(gap, rows);
    }
    assert(inline_read(inline_rows(groups)) =~= marked(all_lines(groups)));
}

/// Where lines were left out between two groups, a row says so: there is one such
/// row less than there are groups.
pub proof fn gaps_are_marked(groups: Seq<Seq<(LineTag, Seq<char>)>>)
    requires
        forall|i: int| 0 <= i < groups.len() ==> (#[trigger] groups[i]).len() > 0,
    ensures
        inline_rows(groups).len() == all_lines(groups).len() + if groups.len() > 0 {
            groups.len() - 1
        } else {
            0
        },
        groups.len() > 0 ==> inline_rows(groups).len() > 0,
    decreases groups.len(),
{
    if groups.len() > 0 {
        assert forall|i: int| 0 <= i < groups.drop_last().len() implies (
        #[trigger] groups.drop_last()[i]).len() > 0 by {
            assert(groups[i].len() > 0);
        }
        gaps_are_marked(groups.drop_last());
        assert(groups[groups.len() - 1].len() > 0);
    }
}

/// The head of a diff names the tool and the path, and counts the added lines behind
/// a plus and the removed ones behind a minus; a hidden diff is one such line.
pub proof fn heads_count_the_changes(
    tool: Seq<char>,
    path: Seq<char>,
    changes: Seq<(LineTag, Seq<char>)>,
    groups: Seq<Seq<(LineTag, Seq<char>)>>,
    style: DiffStyle,
    width: int,
)
    ensures
        ({
            let rows = diff_rows(tool, path, changes, groups, style, width);
            let counts = "(+"@ + decimal(count_tag(changes, LineTag::Insert)) + " −"@ + decimal(
                count_tag(changes, LineTag::Delete),
            ) + ")"@;
            &&& rows.len() > 0
            &&& style is Hidden ==> rows.len() == 1 && line_text(rows[0]) == "  edited "@ + path
                + " "@ + counts
            &&& !(style is Hidden) ==> line_text(rows[0]) == "  ✓ "@ + tool + ": "@ + path + " "@
                + counts
        }),
{
    let added = count_tag(changes, LineTag::Insert);
    let removed = count_tag(changes, LineTag::Delete);
    reveal_with_fuel(line_text, 8);
    let h = header_row(tool, path, added, removed);
    let s = summary_row(path, added, removed);
    reveal_strlit("  ");
    reveal_strlit("✓ ");
    reveal_strlit("  ✓ ");
    reveal_strlit("edited ");
    reveal_strlit("  edited ");
    lemma_line_text6(h);
    lemma_line_text3(s);
    assert("  "@ + "✓ "@ =~= "  ✓ "@);
    assert("  "@ + "edited "@ =~= "  edited "@);
    let counts = counts_text(added, removed);
    assert(line_text(h) =~= "  ✓ "@ + tool + ": "@ + path + " "@ + counts);
    assert(line_text(s) =~= "  edited "@ + path + " "@ + counts);
}

proof fn lemma_line_text3(l: LineView)
    requires
        l.len() == 3,
    ensures
        line_text(l) == l[0].text + l[1].text + l[2].text,
{
    reveal_with_fuel(line_text, 5);
    assert(line_text(l) =~= l[0].text + l[1].text + l[2].text);
}

proof fn lemma_line_text6(l: LineView)
    requires
        l.len() == 6,
    ensures
        line_text(l) == l[0].text + l[1].text + l[2].text + l[3].text + l[4].text + l[5].text,
{
    reveal_with_fuel(line_text, 8);
    assert(line_text(l) =~= l[0].text + l[1].text + l[2].text + l[3].text + l[4].text + l[5].text);
}

/// A column shows a line that fits at its left edge and fills up with blanks; of a
/// longer one it shows the beginning and an ellipsis.
pub proof fn cells_show_their_line(line: Seq<char>, col: nat)
    requires
        col > 0,
        line.len() == 0 || line.last() != '\n',
    ensures
        cell_of(line, col).len() == col,
        cell_of(line.push('\n'), col) == cell_of(line, col),
        line.len() <= col ==> cell_of(line, col).take(line.len() as int) == line && forall|i: int|
            line.len() <= i < col ==> cell_of(line, col)[i] == ' ',
        line.len() > col ==> cell_of(line, col).take(col - 1) == line.take(col - 1) && cell_of(
            line,
            col,
        )[col - 1] == '…',
{
    padding_is_exact(line, col);
    assert(line.push('\n').drop_last() =~= line);
    let c = cell_of(line, col);
    if line.len() <= col {
        assert(c.take(line.len() as int) =~= line);
    } else {
        assert(c.take(col - 1) =~= line.take(col - 1));
    }
}

/// A diff shows its two columns from eighty cells on, each half as wide as what the indent
/// and the rule between them leave; in less room, and where it is asked for, it shows its
/// lines one below the other, and a hidden one shows none.
pub proof fn diffs_follow_the_style(
    tool: Seq<char>,
    path: Seq<char>,
    changes: Seq<(LineTag, Seq<char>)>,
    groups: Seq<Seq<(LineTag, Seq<char>)>>,
    width: int,
)
    ensures
        diff_rows(tool, path, changes, groups, DiffStyle::Inline, width).skip(1) == inline_rows(
            groups,
        ),
        width < 80 ==> diff_rows(tool, path, changes, groups, DiffStyle::SideBySide, width).skip(1)
            == inline_rows(groups),
        width >= 80 ==> diff_rows(tool, path, changes, groups, DiffStyle::SideBySide, width).skip(
            1,
        ) == side_rows(groups, ((width - 5) / 2) as nat),
        diff_rows(tool, path, changes, groups, DiffStyle::Hidden, width).len() == 1,
{
    let inline = diff_rows(tool, path, changes, groups, DiffStyle::Inline, width);
    let side = diff_rows(tool, path, changes, groups, DiffStyle::SideBySide, width);
    assert(inline.skip(1) =~= inline_rows(groups));
    if width < 80 {
        assert(side.skip(1) =~= inline_rows(groups));
    } else {
        assert(column_width(width) == (width - 5) / 2);
        assert(side.skip(1) =~= side_rows(groups, ((width - 5) / 2) as nat));
    }
}

/// The number of lines with a tag counts every line that has it, and no other.
pub proof fn counting_goes_line_by_line(
    a: Seq<(LineTag, Seq<char>)>,
    c: (LineTag, Seq<char>),
    tag: LineTag,
)
    ensures
        count_tag(Seq::empty(), tag) == 0,
        count_tag(a.push(c), tag) == count_tag(a, tag) + if c.0 == tag {
            1nat
        } else {
            0nat
        },
{
    assert(a.push(c).drop_last() =~= a);
}

} // verus!
