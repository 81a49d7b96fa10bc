//! Diffs of edits: side by side, inline, or as one summary line.

use vstd::prelude::*;
use crate::nav::{max_int, max_usize, min_int, monus};
use crate::style::{Color, Line, LineView, Span, Style, line_views, push_line, push_lines, rawsp, sp};
use crate::text::{concat2, concat3, decimal, from_chars, from_range, push_decimal, push_repeated, spaces, texts, to_chars};

verus! {

/// Narrower than this a side-by-side diff shows inline.
pub const SIDE_BY_SIDE_MIN_WIDTH: u16 = 80;

/// Unchanged lines kept around a change.
pub const CONTEXT_LINES: usize = 3;

pub const LEFT_INDENT: &'static str = "  ";

pub const COL_SEPARATOR: &'static str = " │ ";

/// How diffs show.
#[derive(Debug, Clone, Copy, PartialEq, Eq, Structural)]
pub enum DiffStyle {
    SideBySide,
    Inline,
    Hidden,
}

/// What happened to a line.
#[derive(Debug, Clone, Copy, PartialEq, Eq, Structural)]
pub enum LineTag {
    Equal,
    Delete,
    Insert,
}

/// A line of a diff, with its newline.
#[derive(Debug)]
pub struct LineChange {
    pub tag: LineTag,
    pub value: String,
}

pub open spec fn change_views(v: Seq<LineChange>) -> Seq<(LineTag, Seq<char>)> {
    v.map_values(|c: LineChange| (c.tag, c.value@))
}

pub open spec fn group_views(v: Seq<Vec<LineChange>>) -> Seq<Seq<(LineTag, Seq<char>)>> {
    v.map_values(|g: Vec<LineChange>| change_views(g@))
}

pub open spec fn operation_views(v: Seq<Vec<Vec<LineChange>>>) -> Seq<
    Seq<Seq<(LineTag, Seq<char>)>>,
> {
    v.map_values(|g: Vec<Vec<LineChange>>| group_views(g@))
}

/// The lines of one side of a diff: all but those tagged `other`.
pub open spec fn side(changes: Seq<(LineTag, Seq<char>)>, other: LineTag) -> Seq<char>
    decreases changes.len(),
{
    if changes.len() == 0 {
        Seq::empty()
    } else {
        let rest = side(changes.drop_last(), other);
        if changes.last().0 == other {
            rest
        } else {
            rest + changes.last().1
        }
    }
}

/// The changes from `old` to `new` that `similar::TextDiff::from_lines` finds,
/// line by line.
pub uninterp spec fn line_diff(old: Seq<char>, new: Seq<char>) -> Seq<(LineTag, Seq<char>)>;

/// These changes in groups with `n` unchanged lines around them, by
/// `similar::TextDiff::grouped_ops`: for each group the lines of each of its
/// operations.
pub uninterp spec fn grouped_diff(old: Seq<char>, new: Seq<char>, n: nat) -> Seq<
    Seq<Seq<(LineTag, Seq<char>)>>,
>;

/// The lines of several lists, one after the other.
pub open spec fn all_lines(lists: Seq<Seq<(LineTag, Seq<char>)>>) -> Seq<(LineTag, Seq<char>)>
    decreases lists.len(),
{
    if lists.len() == 0 {
        Seq::empty()
    } else {
        all_lines(lists.drop_last()) + lists.last()
    }
}

/// The lines of each group, those of its operations joined.
pub open spec fn joined_groups(groups: Seq<Seq<Seq<(LineTag, Seq<char>)>>>) -> Seq<
    Seq<(LineTag, Seq<char>)>,
> {
    groups.map_values(|ops: Seq<Seq<(LineTag, Seq<char>)>>| all_lines(ops))
}

/// The added and removed lines, in order.
pub open spec fn changed_lines(changes: Seq<(LineTag, Seq<char>)>) -> Seq<(LineTag, Seq<char>)>
    decreases changes.len(),
{
    if changes.len() == 0 {
        Seq::empty()
    } else {
        let rest = changed_lines(changes.drop_last());
        if changes.last().0 is Equal {
            rest
        } else {
            rest.push(changes.last())
        }
    }
}

/// `similar::TextDiff::from_lines` and `iter_all_changes`: every line of both
/// texts in order, tagged. Which of several possible diffs it finds is left to
/// that crate; whichever it is, the lines that are not insertions make up the
/// old text and those that are not deletions the new one.
#[verifier::external_body]
pub(crate) fn all_changes(old: &str, new: &str) -> (r: Vec<LineChange>)
    ensures
        change_views(r@) == line_diff(old@, new@),
        side(change_views(r@), LineTag::Insert) == old@,
        side(change_views(r@), LineTag::Delete) == new@,
{
    let diff = similar::TextDiff::from_lines(old, new);
    diff.iter_all_changes()
        .map(|c| LineChange {
            tag: match c.tag() {
                similar::ChangeTag::Equal => LineTag::Equal,
                similar::ChangeTag::Delete => LineTag::Delete,
                similar::ChangeTag::Insert => LineTag::Insert,
            },
            value: c.value().to_string(),
        })
        .collect()
}

/// `similar::TextDiff::grouped_ops` and `iter_changes`: the changes in groups
/// with `n` unchanged lines around each, the lines of each operation on their
/// own. The result is named. How the lines are grouped is left to that crate, but
/// only unchanged lines are left out: the added and removed lines of all groups
/// are those of the whole diff, in order. It computes `2 * n`, which must not
/// overflow.
#[verifier::external_body]
fn grouped_operations(old: &str, new: &str, n: usize) -> (r: Vec<Vec<Vec<LineChange>>>)
    requires
        n <= usize::MAX / 2,
    ensures
        operation_views(r@) == grouped_diff(old@, new@, n as nat),
        changed_lines(all_lines(joined_groups(operation_views(r@)))) == changed_lines(
            line_diff(old@, new@),
        ),
{
    let diff = similar::TextDiff::from_lines(old, new);
    let line = |c: similar::Change<&str>| LineChange {
        tag: match c.tag() {
            similar::ChangeTag::Equal => LineTag::Equal,
            similar::ChangeTag::Delete => LineTag::Delete,
            similar::ChangeTag::Insert => LineTag::Insert,
        },
        value: c.value().to_string(),
    };
    let lines = |op: &similar::DiffOp| diff.iter_changes(op).map(line).collect();
    diff.grouped_ops(n).iter().map(|g| g.iter().map(lines).collect()).collect()
}

fn join_operations(ops: Vec<Vec<LineChange>>) -> (r: Vec<LineChange>)
    ensures
        change_views(r@) == all_lines(group_views(ops@)),
{
    let ghost all = group_views(ops@);
    let n: usize = ops.len();
    let mut ops: Vec<Vec<LineChange>> = ops;
    let mut out: Vec<LineChange> = Vec::new();
    let mut i: usize = 0;
    proof {
        assert(all.take(0) =~= Seq::empty());
        assert(change_views(out@) =~= Seq::empty());
    }
    while i < n
        invariant
            i <= n == ops@.len() == all.len(),
            forall|k: int| i <= k < n ==> change_views((#[trigger] ops@[k])@) == all[k],
            change_views(out@) == all_lines(all.take(i as int)),
        decreases n - i,
    {
        let ghost before = change_views(out@);
        let mut part: Vec<LineChange> = Vec::new();
        core::mem::swap(&mut part, &mut ops[i]);
        let ghost added = change_views(part@);
        out.append(&mut part);
        proof {
            assert(change_views(out@) =~= before + added);
            assert(all.take(i + 1).drop_last() =~= all.take(i as int));
        }
        i = i + 1;
    }
    proof {
        assert(all.take(i as int) =~= all);
    }
    out
}

/// The changes from `old` to `new` in groups, with `n` unchanged lines around
/// each.
pub(crate) fn grouped_changes(old: &str, new: &str, n: usize) -> (r: Vec<Vec<LineChange>>)
    requires
        n <= usize::MAX / 2,
    ensures
        group_views(r@) == joined_groups(grouped_diff(old@, new@, n as nat)),
        changed_lines(all_lines(group_views(r@))) == changed_lines(line_diff(old@, new@)),
{
    let groups: Vec<Vec<Vec<LineChange>>> = grouped_operations(old, new, n);
    let ghost all = joined_groups(operation_views(groups@));
    let m: usize = groups.len();
    let mut groups: Vec<Vec<Vec<LineChange>>> = groups;
    let mut out: Vec<Vec<LineChange>> = Vec::new();
    let mut i: usize = 0;
    proof {
        assert(group_views(out@) =~= all.take(0));
    }
    while i < m
        invariant
            i <= m == groups@.len() == all.len(),
            forall|k: int|
                i <= k < m ==> all_lines(group_views((#[trigger] groups@[k])@)) == all[k],
            group_views(out@) == all.take(i as int),
        decreases m - i,
    {
        let mut ops: Vec<Vec<LineChange>> = Vec::new();
        core::mem::swap(&mut ops, &mut groups[i]);
        let ghost before = group_views(out@);
        let joined: Vec<LineChange> = join_operations(ops);
        out.push(joined);
        proof {
            assert(group_views(out@) =~= before.push(change_views(joined@)));
            assert(all.take(i + 1) =~= all.take(i as int).push(all[i as int]));
        }
        i = i + 1;
    }
    proof {
        assert(all.take(i as int) =~= all);
    }
    out
}

// ---- Counting -------------------------------------------------------------

/// Number of lines with tag `tag`.
pub open spec fn count_tag(changes: Seq<(LineTag, Seq<char>)>, tag: LineTag) -> nat
    decreases changes.len(),
{
    if changes.len() == 0 {
        0
    } else {
        count_tag(changes.drop_last(), tag) + if changes.last().0 == tag {
            1nat
        } else {
            0nat
        }
    }
}

/// Lines added and removed.
pub fn count_tags(changes: &Vec<LineChange>) -> (r: (usize, usize))
    ensures
        r.0 == count_tag(change_views(changes@), LineTag::Insert),
        r.1 == count_tag(change_views(changes@), LineTag::Delete),
{
    let mut added: usize = 0;
    let mut removed: usize = 0;
    let ghost all = change_views(changes@);
    let mut i: usize = 0;
    proof {
        assert(all.take(0) =~= Seq::empty());
    }
    while i < changes.len()
        invariant
            i <= changes@.len(),
            all == change_views(changes@),
            added == count_tag(all.take(i as int), LineTag::Insert),
            removed == count_tag(all.take(i as int), LineTag::Delete),
            added <= i,
            removed <= i,
        decreases changes@.len() - i,
    {
        proof {
            assert(all.take(i + 1).drop_last() =~= all.take(i as int));
            assert(all.take(i + 1).last() == (changes@[i as int].tag, changes@[i as int].value@));
        }
        if changes[i].tag == LineTag::Insert {
            added = added + 1;
        } else if changes[i].tag == LineTag::Delete {
            removed = removed + 1;
        }
        i = i + 1;
    }
    proof {
        assert(all.take(i as int) =~= all);
    }
    (added, removed)
}

/// Lines that the diff from `old` to `new` adds and removes.
pub fn count_changes(old: &str, new: &str) -> (r: (usize, usize))
    ensures
        r.0 == count_tag(line_diff(old@, new@), LineTag::Insert),
        r.1 == count_tag(line_diff(old@, new@), LineTag::Delete),
{
    let changes: Vec<LineChange> = all_changes(old, new);
    count_tags(&changes)
}

// ---- Rows -----------------------------------------------------------------

/// `s` without a newline at its end.
pub open spec fn without_newline(s: Seq<char>) -> Seq<char> {
    if s.len() > 0 && s.last() == '\n' {
        s.drop_last()
    } else {
        s
    }
}

/// `s` without a newline at its end.
pub fn strip_trailing_newline(s: &str) -> (r: String)
    ensures
        r@ == without_newline(s@),
{
    let v: Vec<char> = to_chars(s);
    let n: usize = v.len();
    if n > 0 && v[n - 1] == '\n' {
        proof {
            assert(v@.subrange(0, n - 1) =~= v@.drop_last());
        }
        from_range(&v, 0, n - 1)
    } else {
        from_chars(&v)
    }
}

/// `s` made exactly `width` characters long: padded with spaces, or cut with an
/// ellipsis at the end.
pub open spec fn padded(s: Seq<char>, width: nat) -> Seq<char> {
    if s.len() > width {
        s.take(monus(width as int, 1)).push('…')
    } else {
        s + spaces((width - s.len()) as nat)
    }
}

/// Padding and cutting give exactly the width asked for (at least 1).
pub proof fn padding_is_exact(s: Seq<char>, width: nat)
    requires
        width > 0,
    ensures
        padded(s, width).len() == width,
{
}

/// `s` padded or cut to `width` characters.
pub fn pad_to_width(s: &str, width: usize) -> (r: String)
    ensures
        r@ == padded(s@, width as nat),
{
    let v: Vec<char> = to_chars(s);
    if v.len() > width {
        let keep: usize = if width > 0 {
            width - 1
        } else {
            0
        };
        let mut out: String = from_range(&v, 0, keep);
        proof {
            assert(v@.subrange(0, keep as int) =~= v@.take(keep as int));
        }
        out.push('…');
        out
    } else {
        let mut out: String = String::from_str(s);
        push_repeated(&mut out, ' ', width - v.len());
        out
    }
}

pub open spec fn grey_style() -> Style {
    Style::fg(Color::Indexed(244))
}

/// The counts of a diff.
pub open spec fn counts_text(added: nat, removed: nat) -> Seq<char> {
    "(+"@ + decimal(added) + " −"@ + decimal(removed) + ")"@
}

pub open spec fn header_row(
    tool: Seq<char>,
    path: Seq<char>,
    added: nat,
    removed: nat,
) -> LineView {
    seq![
        rawsp(LEFT_INDENT@),
        sp("✓ "@, Style::fg(Color::Cyan)),
        sp(tool + ": "@, Style::fg(Color::Cyan)),
        rawsp(path),
        rawsp(" "@),
        sp(counts_text(added, removed), grey_style()),
    ]
}

/// The one line of a hidden diff.
pub open spec fn summary_row(path: Seq<char>, added: nat, removed: nat) -> LineView {
    seq![
        rawsp(LEFT_INDENT@),
        rawsp("edited "@ + path + " "@),
        sp(counts_text(added, removed), grey_style()),
    ]
}

pub open spec fn ellipsis_row() -> LineView {
    seq![rawsp(LEFT_INDENT@), sp("…"@, grey_style().dim())]
}

/// A line of an inline diff.
pub open spec fn inline_row(c: (LineTag, Seq<char>)) -> LineView {
    let (prefix, style) = match c.0 {
        LineTag::Delete => ("- "@, Style::fg(Color::Red)),
        LineTag::Insert => ("+ "@, Style::fg(Color::Green)),
        LineTag::Equal => ("  "@, Style::plain()),
    };
    seq![rawsp(LEFT_INDENT@), sp(prefix, style), sp(without_newline(c.1), style)]
}

/// `rows` preceded by an ellipsis when something stands before them.
pub open spec fn with_gap(before: Seq<LineView>, rows: Seq<LineView>) -> Seq<LineView> {
    if before.len() > 0 {
        before.push(ellipsis_row()) + rows
    } else {
        before + rows
    }
}

/// The body of an inline diff.
pub open spec fn inline_rows(groups: Seq<Seq<(LineTag, Seq<char>)>>) -> Seq<LineView>
    decreases groups.len(),
{
    if groups.len() == 0 {
        Seq::empty()
    } else {
        with_gap(
            inline_rows(groups.drop_last()),
            groups.last().map_values(|c: (LineTag, Seq<char>)| inline_row(c)),
        )
    }
}

/// Characters of each column of a side-by-side diff.
pub open spec fn column_width(width: int) -> nat {
    max_int(monus(width, 5) / 2, 4) as nat
}

pub open spec fn pair_row(
    left: Seq<char>,
    left_style: Style,
    right: Seq<char>,
    right_style: Style,
    col: nat,
) -> LineView {
    seq![
        rawsp(LEFT_INDENT@),
        sp(padded(left, col), left_style),
        sp(COL_SEPARATOR@, grey_style()),
        sp(padded(right, col), right_style),
    ]
}

/// Row `i` of removed lines beside added lines; the shorter side stays empty.
pub open spec fn paired_row(
    left: Seq<Seq<char>>,
    right: Seq<Seq<char>>,
    i: int,
    col: nat,
) -> LineView {
    pair_row(
        if i < left.len() {
            left[i]
        } else {
            Seq::empty()
        },
        if i < left.len() {
            Style::fg(Color::Red)
        } else {
            Style::plain()
        },
        if i < right.len() {
            right[i]
        } else {
            Seq::empty()
        },
        if i < right.len() {
            Style::fg(Color::Green)
        } else {
            Style::plain()
        },
        col,
    )
}

/// The rows of removed lines beside added lines.
pub open spec fn pair_rows(
    left: Seq<Seq<char>>,
    right: Seq<Seq<char>>,
    col: nat,
) -> Seq<LineView> {
    Seq::new(
        max_int(left.len() as int, right.len() as int) as nat,
        |i: int| paired_row(left, right, i, col),
    )
}

/// A side-by-side group in the making: finished rows, and the removed and added
/// lines that wait to be paired.
#[verifier::ext_equal]
pub struct PairState {
    pub rows: Seq<LineView>,
    pub left: Seq<Seq<char>>,
    pub right: Seq<Seq<char>>,
}

impl PairState {
    pub open spec fn flushed(self, col: nat) -> PairState {
        PairState {
            rows: self.rows + pair_rows(self.left, self.right, col),
            left: Seq::empty(),
            right: Seq::empty(),
        }
    }

    /// The group with one more line: removed and added lines wait, an equal
    /// line shows on both sides below what waited.
    pub open spec fn with_change(self, c: (LineTag, Seq<char>), col: nat) -> PairState {
        let value = without_newline(c.1);
        match c.0 {
            LineTag::Delete => PairState { left: self.left.push(value), ..self },
            LineTag::Insert => PairState { right: self.right.push(value), ..self },
            LineTag::Equal => {
                let f = self.flushed(col);
                PairState {
                    rows: f.rows.push(
                        pair_row(value, Style::plain(), value, Style::plain(), col),
                    ),
                    ..f
                }
            },
        }
    }
}

/// A group after its lines were taken in.
pub open spec fn paired(changes: Seq<(LineTag, Seq<char>)>, col: nat) -> PairState
    decreases changes.len(),
{
    if changes.len() == 0 {
        PairState { rows: Seq::empty(), left: Seq::empty(), right: Seq::empty() }
    } else {
        paired(changes.drop_last(), col).with_change(changes.last(), col)
    }
}

/// The body of a side-by-side diff.
pub open spec fn side_rows(groups: Seq<Seq<(LineTag, Seq<char>)>>, col: nat) -> Seq<LineView>
    decreases groups.len(),
{
    if groups.len() == 0 {
        Seq::empty()
    } else {
        with_gap(
            side_rows(groups.drop_last(), col),
            paired(groups.last(), col).flushed(col).rows,
        )
    }
}

/// A diff with its changes and groups given.
pub open spec fn diff_rows(
    tool: Seq<char>,
    path: Seq<char>,
    changes: Seq<(LineTag, Seq<char>)>,
    groups: Seq<Seq<(LineTag, Seq<char>)>>,
    style: DiffStyle,
    width: int,
) -> Seq<LineView> {
    let added = count_tag(changes, LineTag::Insert);
    let removed = count_tag(changes, LineTag::Delete);
    match style {
        DiffStyle::Hidden => seq![summary_row(path, added, removed)],
        DiffStyle::Inline => seq![header_row(tool, path, added, removed)] + inline_rows(groups),
        DiffStyle::SideBySide => seq![header_row(tool, path, added, removed)] + if width
            >= SIDE_BY_SIDE_MIN_WIDTH {
            side_rows(groups, column_width(width))
        } else {
            inline_rows(groups)
        },
    }
}

// ---- What shows -----------------------------------------------------------

/// A row of an inline diff for an added or a removed line.
pub open spec fn is_change_row(l: LineView) -> bool {
    l.len() == 3 && (l[1].text == "- "@ || l[1].text == "+ "@)
}

/// The rows for added and removed lines, in order.
pub open spec fn change_rows(rows: Seq<LineView>) -> Seq<LineView>
    decreases rows.len(),
{
    if rows.len() == 0 {
        Seq::empty()
    } else {
        let rest = change_rows(rows.drop_last());
        if is_change_row(rows.last()) {
            rest.push(rows.last())
        } else {
            rest
        }
    }
}

/// What the column at span `i` shows in `style`, row by row.
pub open spec fn column_texts(rows: Seq<LineView>, i: int, style: Style) -> Seq<Seq<char>>
    decreases rows.len(),
{
    if rows.len() == 0 {
        Seq::empty()
    } else {
        let rest = column_texts(rows.drop_last(), i, style);
        let l = rows.last();
        if l.len() == 4 && l[i].style == style {
            rest.push(l[i].text)
        } else {
            rest
        }
    }
}

/// The lines with tag `tag` as a column of `col` characters shows them.
pub open spec fn tagged_texts(
    changes: Seq<(LineTag, Seq<char>)>,
    tag: LineTag,
    col: nat,
) -> Seq<Seq<char>>
    decreases changes.len(),
{
    if changes.len() == 0 {
        Seq::empty()
    } else {
        let rest = tagged_texts(changes.drop_last(), tag, col);
        if changes.last().0 == tag {
            rest.push(padded(without_newline(changes.last().1), col))
        } else {
            rest
        }
    }
}

/// Whether all added and removed lines of `changes` show, in order and each once:
/// inline as rows of their own, side by side the removed ones on the left and the
/// added ones on the right. A hidden diff shows none.
pub open spec fn every_change_shows(
    rows: Seq<LineView>,
    changes: Seq<(LineTag, Seq<char>)>,
    style: DiffStyle,
    width: int,
) -> bool {
    if style is Hidden {
        true
    } else if style is SideBySide && width >= SIDE_BY_SIDE_MIN_WIDTH {
        let col = column_width(width);
        &&& column_texts(rows, 1, Style::fg(Color::Red)) == tagged_texts(
            changes,
            LineTag::Delete,
            col,
        )
        &&& column_texts(rows, 3, Style::fg(Color::Green)) == tagged_texts(
            changes,
            LineTag::Insert,
            col,
        )
    } else {
        change_rows(rows) == changed_lines(changes).map_values(
            |c: (LineTag, Seq<char>)| inline_row(c),
        )
    }
}

proof fn lemma_changed_concat(a: Seq<(LineTag, Seq<char>)>, b: Seq<(LineTag, Seq<char>)>)
    ensures
        changed_lines(a + b) == changed_lines(a) + changed_lines(b),
    decreases b.len(),
{
    if b.len() == 0 {
        assert(a + b =~= a);
        assert(changed_lines(a) + changed_lines(b) =~= changed_lines(a));
    } else {
        lemma_changed_concat(a, b.drop_last());
        assert((a + b).drop_last() =~= a + b.drop_last());
        assert(changed_lines(a + b) =~= changed_lines(a) + changed_lines(b));
    }
}

proof fn lemma_change_rows_concat(a: Seq<LineView>, b: Seq<LineView>)
    ensures
        change_rows(a + b) == change_rows(a) + change_rows(b),
    decreases b.len(),
{
    if b.len() == 0 {
        assert(a + b =~= a);
        assert(change_rows(a) + change_rows(b) =~= change_rows(a));
    } else {
        lemma_change_rows_concat(a, b.drop_last());
        assert((a + b).drop_last() =~= a + b.drop_last());
        assert(change_rows(a + b) =~= change_rows(a) + change_rows(b));
    }
}

proof fn lemma_column_concat(a: Seq<LineView>, b: Seq<LineView>, i: int, style: Style)
    ensures
        column_texts(a + b, i, style) == column_texts(a, i, style) + column_texts(b, i, style),
    decreases b.len(),
{
    if b.len() == 0 {
        assert(a + b =~= a);
        assert(column_texts(a, i, style) + column_texts(b, i, style) =~= column_texts(a, i, style));
    } else {
        lemma_column_concat(a, b.drop_last(), i, style);
        assert((a + b).drop_last() =~= a + b.drop_last());
        assert(column_texts(a + b, i, style) =~= column_texts(a, i, style) + column_texts(
            b,
            i,
            style,
        ));
    }
}

proof fn lemma_tagged_concat(
    a: Seq<(LineTag, Seq<char>)>,
    b: Seq<(LineTag, Seq<char>)>,
    tag: LineTag,
    col: nat,
)
    ensures
        tagged_texts(a + b, tag, col) == tagged_texts(a, tag, col) + tagged_texts(b, tag, col),
    decreases b.len(),
{
    if b.len() == 0 {
        assert(a + b =~= a);
        assert(tagged_texts(a, tag, col) + tagged_texts(b, tag, col) =~= tagged_texts(a, tag, col));
    } else {
        lemma_tagged_concat(a, b.drop_last(), tag, col);
        assert((a + b).drop_last() =~= a + b.drop_last());
        assert(tagged_texts(a + b, tag, col) =~= tagged_texts(a, tag, col) + tagged_texts(
            b,
            tag,
            col,
        ));
    }
}

/// Which lines have a tag is seen from the changed lines alone.
proof fn lemma_tagged_changed(changes: Seq<(LineTag, Seq<char>)>, tag: LineTag, col: nat)
    requires
        !(tag is Equal),
    ensures
        tagged_texts(changed_lines(changes), tag, col) == tagged_texts(changes, tag, col),
    decreases changes.len(),
{
    if changes.len() > 0 {
        lemma_tagged_changed(changes.drop_last(), tag, col);
        if !(changes.last().0 is Equal) {
            assert(changed_lines(changes).drop_last() =~= changed_lines(changes.drop_last()));
        }
    }
}

proof fn lemma_group_rows(changes: Seq<(LineTag, Seq<char>)>)
    ensures
        change_rows(changes.map_values(|c: (LineTag, Seq<char>)| inline_row(c))) == changed_lines(
            changes,
        ).map_values(|c: (LineTag, Seq<char>)| inline_row(c)),
    decreases changes.len(),
{
    let rows = changes.map_values(|c: (LineTag, Seq<char>)| inline_row(c));
    if changes.len() == 0 {
        assert(change_rows(rows) =~= changed_lines(changes).map_values(
            |c: (LineTag, Seq<char>)| inline_row(c),
        ));
    } else {
        lemma_group_rows(changes.drop_last());
        assert(rows.drop_last() =~= changes.drop_last().map_values(
            |c: (LineTag, Seq<char>)| inline_row(c),
        ));
        reveal_strlit("- ");
        reveal_strlit("+ ");
        reveal_strlit("  ");
        assert("  "@[0] == ' ');
        assert("- "@[0] == '-');
        assert("+ "@[0] == '+');
        assert(rows.last() == inline_row(changes.last()));
        assert(is_change_row(rows.last()) == !(changes.last().0 is Equal));
        assert(change_rows(rows) =~= changed_lines(changes).map_values(
            |c: (LineTag, Seq<char>)| inline_row(c),
        ));
    }
}

proof fn lemma_inline_rows(groups: Seq<Seq<(LineTag, Seq<char>)>>)
    ensures
        change_rows(inline_rows(groups)) == changed_lines(all_lines(groups)).map_values(
            |c: (LineTag, Seq<char>)| inline_row(c),
        ),
    decreases groups.len(),
{
    let goal = changed_lines(all_lines(groups)).map_values(
        |c: (LineTag, Seq<char>)| inline_row(c),
    );
    if groups.len() > 0 {
        let before = inline_rows(groups.drop_last());
        let rows = groups.last().map_values(|c: (LineTag, Seq<char>)| inline_row(c));
        lemma_inline_rows(groups.drop_last());
        lemma_group_rows(groups.last());
        lemma_changed_concat(all_lines(groups.drop_last()), groups.last());
        lemma_change_rows_concat(before, rows);
        lemma_change_rows_concat(before.push(ellipsis_row()), rows);
        assert(before.push(ellipsis_row()).drop_last() =~= before);
        assert(change_rows(before.push(ellipsis_row())) == change_rows(before));
        assert(change_rows(inline_rows(groups)) =~= goal);
    } else {
        assert(change_rows(inline_rows(groups)) =~= goal);
    }
}

/// Texts as a column of `col` characters shows them.
spec fn all_padded(t: Seq<Seq<char>>, col: nat) -> Seq<Seq<char>> {
    t.map_values(|s: Seq<char>| padded(s, col))
}

proof fn lemma_pair_rows(left: Seq<Seq<char>>, right: Seq<Seq<char>>, col: nat, k: int)
    requires
        0 <= k <= pair_rows(left, right, col).len(),
    ensures
        column_texts(pair_rows(left, right, col).take(k), 1, Style::fg(Color::Red)) == all_padded(
            left.take(min_int(k, left.len() as int)),
            col,
        ),
        column_texts(pair_rows(left, right, col).take(k), 3, Style::fg(Color::Green))
            == all_padded(right.take(min_int(k, right.len() as int)), col),
    decreases k,
{
    let rows = pair_rows(left, right, col);
    let reds = column_texts(rows.take(k), 1, Style::fg(Color::Red));
    let greens = column_texts(rows.take(k), 3, Style::fg(Color::Green));
    if k > 0 {
        lemma_pair_rows(left, right, col, k - 1);
        assert(rows.take(k).drop_last() =~= rows.take(k - 1));
        assert(rows.take(k).last() == paired_row(left, right, k - 1, col));
    }
    assert(reds =~= all_padded(left.take(min_int(k, left.len() as int)), col));
    assert(greens =~= all_padded(right.take(min_int(k, right.len() as int)), col));
}

proof fn lemma_flushed(p: PairState, col: nat)
    ensures
        column_texts(p.flushed(col).rows, 1, Style::fg(Color::Red)) == column_texts(
            p.rows,
            1,
            Style::fg(Color::Red),
        ) + all_padded(p.left, col),
        column_texts(p.flushed(col).rows, 3, Style::fg(Color::Green)) == column_texts(
            p.rows,
            3,
            Style::fg(Color::Green),
        ) + all_padded(p.right, col),
{
    let rows = pair_rows(p.left, p.right, col);
    let n = rows.len() as int;
    lemma_pair_rows(p.left, p.right, col, n);
    assert(rows.take(n) =~= rows);
    assert(p.left.take(min_int(n, p.left.len() as int)) =~= p.left);
    assert(p.right.take(min_int(n, p.right.len() as int)) =~= p.right);
    lemma_column_concat(p.rows, rows, 1, Style::fg(Color::Red));
    lemma_column_concat(p.rows, rows, 3, Style::fg(Color::Green));
}

proof fn lemma_paired(changes: Seq<(LineTag, Seq<char>)>, col: nat)
    ensures
        column_texts(paired(changes, col).rows, 1, Style::fg(Color::Red)) + all_padded(
            paired(changes, col).left,
            col,
        ) == tagged_texts(changes, LineTag::Delete, col),
        column_texts(paired(changes, col).rows, 3, Style::fg(Color::Green)) + all_padded(
            paired(changes, col).right,
            col,
        ) == tagged_texts(changes, LineTag::Insert, col),
    decreases changes.len(),
{
    let p = paired(changes, col);
    let reds = column_texts(p.rows, 1, Style::fg(Color::Red)) + all_padded(p.left, col);
    let greens = column_texts(p.rows, 3, Style::fg(Color::Green)) + all_padded(p.right, col);
    if changes.len() > 0 {
        lemma_paired(changes.drop_last(), col);
        let q = paired(changes.drop_last(), col);
        if changes.last().0 is Equal {
            lemma_flushed(q, col);
            assert(p.rows.drop_last() =~= q.flushed(col).rows);
            let l = p.rows.last();
            assert(l[1].style == Style::plain() && l[3].style == Style::plain());
            assert(all_padded(p.left, col) =~= Seq::empty());
            assert(all_padded(p.right, col) =~= Seq::empty());
        } else if changes.last().0 is Delete {
            assert(all_padded(p.left, col) =~= all_padded(q.left, col).push(
                padded(without_newline(changes.last().1), col),
            ));
        } else {
            assert(all_padded(p.right, col) =~= all_padded(q.right, col).push(
                padded(without_newline(changes.last().1), col),
            ));
        }
    }
    assert(reds =~= tagged_texts(changes, LineTag::Delete, col));
    assert(greens =~= tagged_texts(changes, LineTag::Insert, col));
}

proof fn lemma_side_rows(groups: Seq<Seq<(LineTag, Seq<char>)>>, col: nat)
    ensures
        column_texts(side_rows(groups, col), 1, Style::fg(Color::Red)) == tagged_texts(
            all_lines(groups),
            LineTag::Delete,
            col,
        ),
        column_texts(side_rows(groups, col), 3, Style::fg(Color::Green)) == tagged_texts(
            all_lines(groups),
            LineTag::Insert,
            col,
        ),
    decreases groups.len(),
{
    if groups.len() > 0 {
        let red = Style::fg(Color::Red);
        let green = Style::fg(Color::Green);
        let before = side_rows(groups.drop_last(), col);
        let gap = before.push(ellipsis_row());
        let rows = paired(groups.last(), col).flushed(col).rows;
        lemma_side_rows(groups.drop_last(), col);
        lemma_paired(groups.last(), col);
        lemma_flushed(paired(groups.last(), col), col);
        lemma_tagged_concat(all_lines(groups.drop_last()), groups.last(), LineTag::Delete, col);
        lemma_tagged_concat(all_lines(groups.drop_last()), groups.last(), LineTag::Insert, col);
        assert(gap.drop_last() =~= before);
        lemma_column_concat(before, rows, 1, red);
        lemma_column_concat(before, rows, 3, green);
        lemma_column_concat(gap, rows, 1, red);
        lemma_column_concat(gap, rows, 3, green);
    }
}

/// A diff that is not hidden shows every added and every removed line, in order
/// and each once, where its groups leave out unchanged lines only. So what shows
/// is what the counts in the header are about.
pub proof fn diffs_show_every_change(
    tool: Seq<char>,
    path: Seq<char>,
    changes: Seq<(LineTag, Seq<char>)>,
    groups: Seq<Seq<(LineTag, Seq<char>)>>,
    style: DiffStyle,
    width: int,
)
    requires
        changed_lines(all_lines(groups)) == changed_lines(changes),
    ensures
        every_change_shows(
            diff_rows(tool, path, changes, groups, style, width),
            changes,
            style,
            width,
        ),
{
    let head = seq![
        header_row(
            tool,
            path,
            count_tag(changes, LineTag::Insert),
            count_tag(changes, LineTag::Delete),
        ),
    ];
    let col = column_width(width);
    let none = Seq::<LineView>::empty();
    assert(head.drop_last() =~= none);
    assert(head.last().len() == 6);
    if style is SideBySide && width >= SIDE_BY_SIDE_MIN_WIDTH {
        let red = Style::fg(Color::Red);
        let green = Style::fg(Color::Green);
        let rows = side_rows(groups, col);
        lemma_side_rows(groups, col);
        lemma_tagged_changed(changes, LineTag::Delete, col);
        lemma_tagged_changed(changes, LineTag::Insert, col);
        lemma_tagged_changed(all_lines(groups), LineTag::Delete, col);
        lemma_tagged_changed(all_lines(groups), LineTag::Insert, col);
        lemma_column_concat(head, rows, 1, red);
        lemma_column_concat(head, rows, 3, green);
        assert(column_texts(none, 1, red) == Seq::<Seq<char>>::empty());
        assert(column_texts(none, 3, green) == Seq::<Seq<char>>::empty());
        assert(column_texts(head, 1, red) == Seq::<Seq<char>>::empty());
        assert(column_texts(head, 3, green) == Seq::<Seq<char>>::empty());
        assert(column_texts(head + rows, 1, red) =~= column_texts(rows, 1, red));
        assert(column_texts(head + rows, 3, green) =~= column_texts(rows, 3, green));
    } else if !(style is Hidden) {
        let rows = inline_rows(groups);
        lemma_inline_rows(groups);
        lemma_change_rows_concat(head, rows);
        assert(change_rows(none) == none);
        assert(change_rows(head) == none);
        assert(change_rows(head + rows) =~= change_rows(rows));
    }
}

fn counts(added: usize, removed: usize) -> (r: String)
    ensures
        r@ == counts_text(added as nat, removed as nat),
{
    let mut out: String = String::from_str("(+");
    push_decimal(&mut out, added as u64);
    out.append(" −");
    push_decimal(&mut out, removed as u64);
    out.append(")");
    out
}

fn header_line(tool: &str, path: &str, added: usize, removed: usize) -> (r: Line)
    ensures
        r@ == header_row(tool@, path@, added as nat, removed as nat),
{
    let mut line: Line = Line::of2(
        Span::raw(String::from_str(LEFT_INDENT)),
        Span::new("✓ ", Style::fg(Color::Cyan)),
    );
    line.push(Span::styled(concat2(tool, ": "), Style::fg(Color::Cyan)));
    line.push(Span::raw(String::from_str(path)));
    line.push(Span::raw(String::from_str(" ")));
    line.push(Span::styled(counts(added, removed), Style::fg(Color::Indexed(244))));
    proof {
        assert(line@ =~= header_row(tool@, path@, added as nat, removed as nat));
    }
    line
}

fn summary_line(path: &str, added: usize, removed: usize) -> (r: Line)
    ensures
        r@ == summary_row(path@, added as nat, removed as nat),
{
    let mut line: Line = Line::of2(
        Span::raw(String::from_str(LEFT_INDENT)),
        Span::raw(concat3("edited ", path, " ")),
    );
    line.push(Span::styled(counts(added, removed), Style::fg(Color::Indexed(244))));
    proof {
        assert(line@ =~= summary_row(path@, added as nat, removed as nat));
    }
    line
}

fn ellipsis_line() -> (r: Line)
    ensures
        r@ == ellipsis_row(),
{
    Line::of2(
        Span::raw(String::from_str(LEFT_INDENT)),
        Span::new("…", Style::fg(Color::Indexed(244)).dim()),
    )
}

fn inline_line(c: &LineChange) -> (r: Line)
    ensures
        r@ == inline_row((c.tag, c.value@)),
{
    let (prefix, style): (&str, Style) = match c.tag {
        LineTag::Delete => ("- ", Style::fg(Color::Red)),
        LineTag::Insert => ("+ ", Style::fg(Color::Green)),
        LineTag::Equal => ("  ", Style::plain()),
    };
    let mut line: Line = Line::of2(
        Span::raw(String::from_str(LEFT_INDENT)),
        Span::new(prefix, style),
    );
    line.push(Span::styled(strip_trailing_newline(c.value.as_str()), style));
    proof {
        assert(line@ =~= inline_row((c.tag, c.value@)));
    }
    line
}

/// The body of an inline diff.
pub fn render_inline(groups: &Vec<Vec<LineChange>>) -> (r: Vec<Line>)
    ensures
        line_views(r@) == inline_rows(group_views(groups@)),
{
    let mut out: Vec<Line> = Vec::new();
    let ghost all = group_views(groups@);
    let mut i: usize = 0;
    proof {
        assert(all.take(0) =~= Seq::empty());
        assert(line_views(out@) =~= Seq::empty());
    }
    while i < groups.len()
        invariant
            i <= groups@.len(),
            all == group_views(groups@),
            line_views(out@) == inline_rows(all.take(i as int)),
        decreases groups@.len() - i,
    {
        let group: &Vec<LineChange> = &groups[i];
        let ghost rows = change_views(group@).map_values(
            |c: (LineTag, Seq<char>)| inline_row(c),
        );
        proof {
            assert(all.take(i + 1).drop_last() =~= all.take(i as int));
            assert(all.take(i + 1).last() == change_views(group@));
        }
        if out.len() > 0 {
            push_line(&mut out, ellipsis_line());
        }
        let ghost head = line_views(out@);
        let mut k: usize = 0;
        proof {
            assert(head + rows.take(0) =~= head);
        }
        while k < group.len()
            invariant
                k <= group@.len(),
                rows == change_views(group@).map_values(
                    |c: (LineTag, Seq<char>)| inline_row(c),
                ),
                line_views(out@) == head + rows.take(k as int),
            decreases group@.len() - k,
        {
            push_line(&mut out, inline_line(&group[k]));
            proof {
                assert(head + rows.take(k + 1) =~= (head + rows.take(k as int)).push(
                    rows[k as int],
                ));
            }
            k = k + 1;
        }
        proof {
            assert(rows.take(k as int) =~= rows);
        }
        i = i + 1;
    }
    proof {
        assert(all.take(i as int) =~= all);
    }
    out
}

/// Characters of each column of a side-by-side diff in a pane of `width`
/// columns.
pub fn side_by_side_column_width(width: u16) -> (r: usize)
    ensures
        r == column_width(width as int),
{
    let w: usize = width as usize;
    let usable: usize = if w >= 5 {
        w - 5
    } else {
        0
    };
    max_usize(usable / 2, 4)
}

fn side_by_side_row(
    left: &str,
    left_style: Style,
    right: &str,
    right_style: Style,
    col: usize,
) -> (r: Line)
    ensures
        r@ == pair_row(left@, left_style, right@, right_style, col as nat),
{
    let mut line: Line = Line::of2(
        Span::raw(String::from_str(LEFT_INDENT)),
        Span::styled(pad_to_width(left, col), left_style),
    );
    line.push(Span::new(COL_SEPARATOR, Style::fg(Color::Indexed(244))));
    line.push(Span::styled(pad_to_width(right, col), right_style));
    proof {
        assert(line@ =~= pair_row(left@, left_style, right@, right_style, col as nat));
    }
    line
}

/// Move the waiting lines into rows.
fn flush_pair(
    left: &mut Vec<String>,
    right: &mut Vec<String>,
    col: usize,
    out: &mut Vec<Line>,
)
    ensures
        final(left)@.len() == 0,
        final(right)@.len() == 0,
        line_views(final(out)@) == line_views(old(out)@) + pair_rows(
            texts(old(left)@),
            texts(old(right)@),
            col as nat,
        ),
{
    let n: usize = max_usize(left.len(), right.len());
    let ghost l = texts(left@);
    let ghost r = texts(right@);
    let ghost rows = pair_rows(l, r, col as nat);
    let ghost head = line_views(out@);
    let mut i: usize = 0;
    proof {
        assert(head + rows.take(0) =~= head);
        reveal_strlit("");
        assert(""@ =~= Seq::<char>::empty());
    }
    while i < n
        invariant
            i <= n == rows.len(),
            l == texts(left@),
            r == texts(right@),
            ""@ == Seq::<char>::empty(),
            rows == pair_rows(l, r, col as nat),
            line_views(out@) == head + rows.take(i as int),
        decreases n - i,
    {
        let has_left: bool = i < left.len();
        let has_right: bool = i < right.len();
        let left_style: Style = if has_left {
            Style::fg(Color::Red)
        } else {
            Style::plain()
        };
        let right_style: Style = if has_right {
            Style::fg(Color::Green)
        } else {
            Style::plain()
        };
        let lt: &str = if has_left {
            left[i].as_str()
        } else {
            ""
        };
        let rt: &str = if has_right {
            right[i].as_str()
        } else {
            ""
        };
        push_line(out, side_by_side_row(lt, left_style, rt, right_style, col));
        proof {
            assert(head + rows.take(i + 1) =~= (head + rows.take(i as int)).push(rows[i as int]));
        }
        i = i + 1;
    }
    proof {
        assert(rows.take(i as int) =~= rows);
    }
    left.clear();
    right.clear();
}

/// The body of a side-by-side diff.
pub fn render_side_by_side(groups: &Vec<Vec<LineChange>>, width: u16) -> (r: Vec<Line>)
    ensures
        line_views(r@) == side_rows(group_views(groups@), column_width(width as int)),
{
    let col: usize = side_by_side_column_width(width);
    let mut out: Vec<Line> = Vec::new();
    let ghost all = group_views(groups@);
    let ghost c = column_width(width as int);
    let mut i: usize = 0;
    proof {
        assert(all.take(0) =~= Seq::empty());
        assert(line_views(out@) =~= Seq::empty());
    }
    while i < groups.len()
        invariant
            i <= groups@.len(),
            col == c,
            all == group_views(groups@),
            line_views(out@) == side_rows(all.take(i as int), c),
        decreases groups@.len() - i,
    {
        let group: &Vec<LineChange> = &groups[i];
        let ghost changes = change_views(group@);
        proof {
            assert(all.take(i + 1).drop_last() =~= all.take(i as int));
            assert(all.take(i + 1).last() == changes);
        }
        if out.len() > 0 {
            push_line(&mut out, ellipsis_line());
        }
        let ghost head = line_views(out@);
        let mut left: Vec<String> = Vec::new();
        let mut right: Vec<String> = Vec::new();
        let mut k: usize = 0;
        proof {
            assert(changes.take(0) =~= Seq::empty());
            assert(head + Seq::<LineView>::empty() =~= head);
            assert(texts(left@) =~= Seq::empty());
            assert(texts(right@) =~= Seq::empty());
        }
        while k < group.len()
            invariant
                k <= group@.len(),
                col == c,
                changes == change_views(group@),
                line_views(out@) == head + paired(changes.take(k as int), c).rows,
                texts(left@) == paired(changes.take(k as int), c).left,
                texts(right@) == paired(changes.take(k as int), c).right,
            decreases group@.len() - k,
        {
            let change: &LineChange = &group[k];
            let ghost before = paired(changes.take(k as int), c);
            let ghost old_left = left@;
            let ghost old_right = right@;
            proof {
                assert(changes.take(k + 1).drop_last() =~= changes.take(k as int));
                assert(changes.take(k + 1).last() == (change.tag, change.value@));
            }
            let value: String = strip_trailing_newline(change.value.as_str());
            match change.tag {
                LineTag::Delete => {
                    left.push(value);
                    proof {
                        assert(texts(left@) =~= texts(old_left).push(value@));
                    }
                },
                LineTag::Insert => {
                    right.push(value);
                    proof {
                        assert(texts(right@) =~= texts(old_right).push(value@));
                    }
                },
                LineTag::Equal => {
                    flush_pair(&mut left, &mut right, col, &mut out);
                    push_line(
                        &mut out,
                        side_by_side_row(
                            value.as_str(),
                            Style::plain(),
                            value.as_str(),
                            Style::plain(),
                            col,
                        ),
                    );
                    proof {
                        assert(texts(left@) =~= Seq::empty());
                        assert(texts(right@) =~= Seq::empty());
                        assert(line_views(out@) =~= head + paired(changes.take(k + 1), c).rows);
                    }
                },
            }
            k = k + 1;
        }
        proof {
            assert(changes.take(k as int) =~= changes);
        }
        flush_pair(&mut left, &mut right, col, &mut out);
        proof {
            assert(line_views(out@) =~= head + paired(changes, c).flushed(c).rows);
            assert(line_views(out@) =~= side_rows(all.take(i + 1), c));
        }
        i = i + 1;
    }
    proof {
        assert(all.take(i as int) =~= all);
    }
    out
}

/// A diff laid out from its changes and groups.
pub fn layout_diff(
    tool: &str,
    path: &str,
    changes: &Vec<LineChange>,
    groups: &Vec<Vec<LineChange>>,
    style: DiffStyle,
    width: u16,
) -> (r: Vec<Line>)
    ensures
        line_views(r@) == diff_rows(
            tool@,
            path@,
            change_views(changes@),
            group_views(groups@),
            style,
            width as int,
        ),
{
    let (added, removed) = count_tags(changes);
    let mut out: Vec<Line> = Vec::new();
    match style {
        DiffStyle::Hidden => {
            push_line(&mut out, summary_line(path, added, removed));
        },
        DiffStyle::Inline => {
            push_line(&mut out, header_line(tool, path, added, removed));
            push_lines(&mut out, render_inline(groups));
        },
        DiffStyle::SideBySide => {
            push_line(&mut out, header_line(tool, path, added, removed));
            if width >= SIDE_BY_SIDE_MIN_WIDTH {
                push_lines(&mut out, render_side_by_side(groups, width));
            } else {
                push_lines(&mut out, render_inline(groups));
            }
        },
    }
    proof {
        assert(line_views(out@) =~= diff_rows(
            tool@,
            path@,
            change_views(changes@),
            group_views(groups@),
            style,
            width as int,
        ));
    }
    out
}

/// The diff of an edit in a pane of `width` columns.
pub fn render_diff(
    tool: &str,
    path: &str,
    old: &str,
    new: &str,
    style: DiffStyle,
    width: u16,
) -> (r: Vec<Line>)
    ensures
        line_views(r@) == diff_rows(
            tool@,
            path@,
            line_diff(old@, new@),
            joined_groups(grouped_diff(old@, new@, CONTEXT_LINES as nat)),
            style,
            width as int,
        ),
        every_change_shows(line_views(r@), line_diff(old@, new@), style, width as int),
{
    let changes: Vec<LineChange> = all_changes(old, new);
    let groups: Vec<Vec<LineChange>> = grouped_changes(old, new, CONTEXT_LINES);
    proof {
        diffs_show_every_change(
            tool@,
            path@,
            change_views(changes@),
            group_views(groups@),
            style,
            width as int,
        );
    }
    layout_diff(tool, path, &changes, &groups, style, width)
}

} // verus!
