//! The launch banner: art and launch facts in a rounded box, centered in the
//! chat pane.

use vstd::prelude::*;
use crate::chrome::{status_line_spans, status_spans};
use crate::launch::{APP_NAME, LaunchInfo, LaunchView};
use crate::nav::{min_int, min_usize, monus};
use crate::style::{Color, Line, LineView, Span, SpanView, Style, line_views, push_line, push_span, rawsp, sp, span_views};
use crate::text::{blanks, concat2, push_repeated, repeated, spaces};
use crate::theme::{ACCENT_BLUE_INDEX, MUTED_COLOR_INDEX};
use crate::width::{cells, is_frame, is_frame_char, lemma_line_cells_concat, line_cells, spans_width};

verus! {

/// Spaces inside each rail.
pub const INNER_PAD: usize = 1;

pub open spec fn grey() -> Style {
    Style::fg(Color::Indexed(MUTED_COLOR_INDEX))
}

pub open spec fn accent_style() -> Style {
    Style::fg(Color::Indexed(ACCENT_BLUE_INDEX))
}

/// Name, version and, once it is known, the short id of the session.
pub open spec fn title_spans(info: LaunchView) -> LineView {
    let head = seq![
        sp(APP_NAME@, Style::plain().bold()),
        rawsp(" "@),
        sp("v"@ + info.version, grey()),
    ];
    match info.session_short_id {
        Some(id) => head.push(rawsp("  "@)).push(sp(id, grey())),
        None => head,
    }
}

pub open spec fn welcome_spans(name: Seq<char>) -> LineView {
    seq![sp("Welcome, "@, grey()), sp(name, grey().bold())]
}

/// The texts beside the rows of the art. A user name adds a row.
pub open spec fn row_texts(info: LaunchView) -> Seq<Option<LineView>> {
    let title = title_spans(info);
    let provider = seq![sp(info.provider_line, grey())];
    let path = status_spans(info);
    match info.user_name {
        Some(name) => if name.len() > 0 {
            seq![
                None,
                Some(title),
                Some(welcome_spans(name)),
                Some(provider),
                Some(path),
                None,
            ]
        } else {
            seq![None, Some(title), Some(provider), Some(path), None, None]
        },
        None => seq![None, Some(title), Some(provider), Some(path), None, None],
    }
}

/// A row of art with the text beside it.
pub open spec fn content_row(art: LineView, text: Option<LineView>) -> LineView {
    match text {
        Some(t) => art.push(rawsp("   "@)) + t,
        None => art,
    }
}

/// The rows of the banner without the box: as many as there are of both art
/// and texts.
pub open spec fn content(info: LaunchView, art: Seq<LineView>) -> Seq<LineView> {
    Seq::new(
        min_int(art.len() as int, 6) as nat,
        |i: int| content_row(art[i], row_texts(info)[i]),
    )
}

/// Columns of the widest row.
pub open spec fn widest(rows: Seq<LineView>) -> nat
    decreases rows.len(),
{
    if rows.len() == 0 {
        0
    } else {
        let rest = widest(rows.drop_last());
        if line_cells(rows.last()) > rest {
            line_cells(rows.last())
        } else {
            rest
        }
    }
}

/// The upper or lower edge of the box.
pub open spec fn edge_row(pad: nat, left: char, right: char, inner: nat) -> LineView {
    seq![
        rawsp(spaces(pad)),
        sp(seq![left] + repeated('─', inner) + seq![right], accent_style()),
    ]
}

/// A row of the box around `row`.
pub open spec fn boxed_row(pad: nat, row: LineView, w: nat) -> LineView {
    (seq![rawsp(spaces(pad)), sp(seq!['│'], accent_style()), rawsp(spaces(1))] + row).push(
        rawsp(spaces((monus(w as int, line_cells(row) as int) + 1) as nat)),
    ).push(sp(seq!['│'], accent_style()))
}

/// The box around `rows` in a pane of `pane_w` by `pane_h`; none when it does
/// not fit.
pub open spec fn boxed(rows: Seq<LineView>, pane_w: int, pane_h: int) -> Option<Seq<LineView>> {
    let w = widest(rows);
    if w + 4 > pane_w || rows.len() + 2 > pane_h {
        None
    } else {
        let pad = ((pane_w - (w + 4)) / 2) as nat;
        Some(
            (seq![edge_row(pad, '╭', '╮', w + 2)] + Seq::new(
                rows.len(),
                |i: int| boxed_row(pad, rows[i], w),
            )).push(edge_row(pad, '╰', '╯', w + 2)),
        )
    }
}

// ---- Laws -----------------------------------------------------------------

proof fn lemma_widest(rows: Seq<LineView>, i: int)
    requires
        0 <= i < rows.len(),
    ensures
        line_cells(rows[i]) <= widest(rows),
    decreases rows.len(),
{
    if i < rows.len() - 1 {
        lemma_widest(rows.drop_last(), i);
    }
}

proof fn lemma_two(a: SpanView, b: SpanView)
    ensures
        line_cells(seq![a, b]) == cells(a.text) + cells(b.text),
{
    let l = seq![a, b];
    assert(l.drop_last() =~= seq![a]);
    assert(seq![a].drop_last() =~= LineView::empty());
    assert(line_cells(LineView::empty()) == 0);
    assert(line_cells(seq![a]) == cells(a.text));
}

/// Every row of the box takes the same number of columns, and the box stays
/// inside the pane.
pub proof fn box_is_rectangular(rows: Seq<LineView>, pane_w: int, pane_h: int)
    requires
        boxed(rows, pane_w, pane_h) is Some,
    ensures
        ({
            let lines = boxed(rows, pane_w, pane_h)->0;
            &&& lines.len() == rows.len() + 2
            &&& lines.len() <= pane_h
            &&& forall|i: int|
                0 <= i < lines.len() ==> line_cells(#[trigger] lines[i]) == line_cells(lines[0])
            &&& line_cells(lines[0]) <= pane_w
        }),
{
    let lines = boxed(rows, pane_w, pane_h)->0;
    let w = widest(rows);
    let pad = ((pane_w - (w + 4)) / 2) as nat;
    let full = pad + w + 4;
    lemma_edge(pad, '╭', '╮', w + 2);
    lemma_edge(pad, '╰', '╯', w + 2);
    assert forall|i: int| 0 <= i < lines.len() implies line_cells(#[trigger] lines[i]) == full by {
        if 0 < i < lines.len() - 1 {
            lemma_widest(rows, i - 1);
            lemma_boxed(pad, rows[i - 1], w);
            assert(lines[i] == boxed_row(pad, rows[i - 1], w));
        }
    }
    assert(line_cells(lines[0]) == full);
}

proof fn lemma_edge(pad: nat, left: char, right: char, inner: nat)
    requires
        is_frame_char(left),
        is_frame_char(right),
    ensures
        line_cells(edge_row(pad, left, right, inner)) == pad + inner + 2,
{
    let text = seq![left] + repeated('─', inner) + seq![right];
    assert(is_frame(spaces(pad)));
    assert(is_frame(text));
    lemma_two(rawsp(spaces(pad)), sp(text, accent_style()));
}

proof fn lemma_boxed(pad: nat, row: LineView, w: nat)
    requires
        line_cells(row) <= w,
    ensures
        line_cells(boxed_row(pad, row, w)) == pad + w + 4,
{
    let head = seq![rawsp(spaces(pad)), sp(seq!['│'], accent_style()), rawsp(spaces(1))];
    let gap = spaces((monus(w as int, line_cells(row) as int) + 1) as nat);
    assert(is_frame(spaces(pad)) && is_frame(seq!['│']) && is_frame(spaces(1)) && is_frame(gap));
    assert(head.drop_last() =~= seq![rawsp(spaces(pad)), sp(seq!['│'], accent_style())]);
    lemma_two(rawsp(spaces(pad)), sp(seq!['│'], accent_style()));
    assert(line_cells(head) == pad + 2);
    lemma_line_cells_concat(head, row);
    let body = head + row;
    let padded = body.push(rawsp(gap));
    let whole = padded.push(sp(seq!['│'], accent_style()));
    assert(padded.drop_last() =~= body);
    assert(padded.last() == rawsp(gap));
    assert(cells(gap) == gap.len());
    assert(line_cells(padded) == line_cells(body) + gap.len());
    assert(whole.drop_last() =~= padded);
    assert(whole.last() == sp(seq!['│'], accent_style()));
    assert(cells(seq!['│']) == 1);
    assert(line_cells(whole) == line_cells(padded) + 1);
    assert(whole =~= boxed_row(pad, row, w));
}

// ---- Building -------------------------------------------------------------

fn title_line(info: &LaunchInfo) -> (r: Vec<Span>)
    ensures
        span_views(r@) == title_spans(info@),
{
    let grey: Style = Style::fg(Color::Indexed(MUTED_COLOR_INDEX));
    let mut title: Vec<Span> = Vec::new();
    push_span(&mut title, Span::new(APP_NAME, Style::plain().bold()));
    push_span(&mut title, Span::raw(String::from_str(" ")));
    push_span(&mut title, Span::styled(concat2("v", info.version.as_str()), grey));
    match &info.session_short_id {
        Some(id) => {
            push_span(&mut title, Span::raw(String::from_str("  ")));
            push_span(&mut title, Span::styled(id.clone(), grey));
        },
        None => {},
    }
    proof {
        assert(span_views(title@) =~= title_spans(info@));
    }
    title
}

/// The text beside row `i` of the art.
fn row_text(info: &LaunchInfo, i: usize) -> (r: Option<Vec<Span>>)
    requires
        i < 6,
    ensures
        match r {
            Some(v) => row_texts(info@)[i as int] == Some(span_views(v@)),
            None => row_texts(info@)[i as int] is None,
        },
{
    let grey: Style = Style::fg(Color::Indexed(MUTED_COLOR_INDEX));
    let named: bool = match &info.user_name {
        Some(name) => !name.as_str().is_empty(),
        None => false,
    };
    if i == 0 || i == 5 || (i == 4 && !named) {
        return None;
    }
    if i == 1 {
        return Some(title_line(info));
    }
    let mut spans: Vec<Span> = Vec::new();
    if named && i == 2 {
        match &info.user_name {
            Some(name) => {
                push_span(&mut spans, Span::new("Welcome, ", grey));
                push_span(&mut spans, Span::styled(name.clone(), grey.bold()));
                proof {
                    assert(span_views(spans@) =~= welcome_spans(name@));
                }
            },
            None => {},
        }
        return Some(spans);
    }
    if (named && i == 3) || (!named && i == 2) {
        push_span(&mut spans, Span::styled(info.provider_line.clone(), grey));
        proof {
            assert(span_views(spans@) =~= seq![sp(info@.provider_line, grey)]);
        }
        return Some(spans);
    }
    Some(status_line_spans(info))
}

/// The rows of the banner without the box.
pub fn content_lines(info: &LaunchInfo, art: Vec<Line>) -> (r: Vec<Line>)
    ensures
        line_views(r@) == content(info@, line_views(art@)),
{
    let mut out: Vec<Line> = Vec::new();
    let ghost rows = line_views(art@);
    let ghost goal = content(info@, rows);
    let total: usize = min_usize(art.len(), 6);
    let mut rest: Vec<Line> = art;
    let mut i: usize = 0;
    proof {
        assert(line_views(out@) =~= goal.take(0));
        assert(rows.skip(0) =~= rows);
    }
    while i < total
        invariant
            i <= total <= 6,
            total == goal.len(),
            total <= rows.len(),
            goal == content(info@, rows),
            line_views(rest@) == rows.skip(i as int),
            rest@.len() == rows.len() - i,
            line_views(out@) == goal.take(i as int),
        decreases total - i,
    {
        let ghost before = line_views(rest@);
        let mut line: Line = rest.remove(0);
        proof {
            assert(before[0] == line@);
            assert(line_views(rest@) =~= before.remove(0));
            assert(before.remove(0) =~= rows.skip(i + 1));
        }
        let ghost art_row = line@;
        match row_text(info, i) {
            Some(text) => {
                line.push(Span::raw(String::from_str("   ")));
                let ghost padded = line@;
                let mut more: Vec<Span> = text;
                line.spans.append(&mut more);
                proof {
                    assert(line@ =~= padded + span_views(text@));
                }
            },
            None => {},
        }
        proof {
            assert(line@ == goal[i as int]);
            assert(goal.take(i + 1) =~= goal.take(i as int).push(goal[i as int]));
        }
        push_line(&mut out, line);
        i = i + 1;
    }
    proof {
        assert(goal.take(i as int) =~= goal);
    }
    out
}

fn edge_line(pad: usize, left: char, right: char, inner: usize) -> (r: Line)
    ensures
        r@ == edge_row(pad as nat, left, right, inner as nat),
{
    let mut text: String = String::new();
    text.push(left);
    push_repeated(&mut text, '─', inner);
    text.push(right);
    proof {
        assert(text@ =~= seq![left] + repeated('─', inner as nat) + seq![right]);
    }
    Line::of2(
        Span::raw(blanks(pad)),
        Span::styled(text, Style::fg(Color::Indexed(ACCENT_BLUE_INDEX))),
    )
}

/// The box around the banner, centered in a pane of `pane_w` by `pane_h`; `None`
/// when it does not fit.
pub fn build_box(info: &LaunchInfo, art: Vec<Line>, pane_w: u16, pane_h: u16) -> (r: Option<
    Vec<Line>,
>)
    ensures
        match r {
            Some(lines) => boxed(content(info@, line_views(art@)), pane_w as int, pane_h as int)
                == Some(line_views(lines@)),
            None => boxed(content(info@, line_views(art@)), pane_w as int, pane_h as int) is None,
        },
{
    let rows: Vec<Line> = content_lines(info, art);
    let ghost goal_rows = content(info@, line_views(art@));
    let mut wide: u128 = 0;
    let n: usize = rows.len();
    let mut i: usize = 0;
    proof {
        assert(goal_rows.take(0) =~= Seq::empty());
        assert(goal_rows.len() == n);
    }
    while i < n
        invariant
            i <= n == rows@.len(),
            line_views(rows@) == goal_rows,
            wide == widest(goal_rows.take(i as int)),
            wide <= usize::MAX * usize::MAX,
        decreases n - i,
    {
        proof {
            assert(goal_rows.take(i + 1).drop_last() =~= goal_rows.take(i as int));
            assert(goal_rows.take(i + 1).last() == rows@[i as int]@);
            let k = rows@[i as int].spans@.len();
            assert(rows@[i as int].spans.len() == k);
            assert(k * usize::MAX <= usize::MAX * usize::MAX) by (nonlinear_arith)
                requires
                    k <= usize::MAX,
            ;
        }
        let w: u128 = spans_width(&rows[i].spans);
        if w > wide {
            wide = w;
        }
        i = i + 1;
    }
    proof {
        assert(goal_rows.take(i as int) =~= goal_rows);
        let m = usize::MAX as int;
        assert(m * m <= 0xffff_ffff_ffff_ffff * 0xffff_ffff_ffff_ffff) by (nonlinear_arith)
            requires
                0 <= m <= 0xffff_ffff_ffff_ffff,
        ;
    }
    if wide + 4 > pane_w as u128 || n + 2 > pane_h as usize {
        return None;
    }
    let w: usize = wide as usize;
    let pad: usize = (pane_w as usize - (w + 4)) / 2;
    let accent: Style = Style::fg(Color::Indexed(ACCENT_BLUE_INDEX));
    let mut out: Vec<Line> = Vec::new();
    push_line(&mut out, edge_line(pad, '╭', '╮', w + 2));
    let ghost body = Seq::new(goal_rows.len(), |j: int| boxed_row(pad as nat, goal_rows[j], w as nat));
    let ghost top = seq![edge_row(pad as nat, '╭', '╮', (w + 2) as nat)];
    let mut rest: Vec<Line> = rows;
    let mut k: usize = 0;
    proof {
        assert(line_views(out@) =~= top + body.take(0));
        assert(goal_rows.skip(0) =~= goal_rows);
    }
    while k < n
        invariant
            k <= n == goal_rows.len(),
            rest@.len() == n - k,
            line_views(rest@) == goal_rows.skip(k as int),
            accent == accent_style(),
            w == widest(goal_rows),
            w <= u16::MAX,
            body == Seq::new(
                goal_rows.len(),
                |j: int| boxed_row(pad as nat, goal_rows[j], w as nat),
            ),
            line_views(out@) == top + body.take(k as int),
        decreases n - k,
    {
        let ghost before = line_views(rest@);
        let row: Line = rest.remove(0);
        proof {
            assert(before[0] == row@);
            assert(line_views(rest@) =~= before.remove(0));
            assert(before.remove(0) =~= goal_rows.skip(k + 1));
            lemma_widest(goal_rows, k as int);
        }
        let used: u128 = spans_width(&row.spans);
        let gap: usize = w - used as usize + INNER_PAD;
        let mut line: Line = Line::of2(Span::raw(blanks(pad)), Span::new("│", accent));
        line.push(Span::raw(blanks(INNER_PAD)));
        let ghost head = line@;
        let mut more: Vec<Span> = row.spans;
        line.spans.append(&mut more);
        proof {
            reveal_strlit("│");
            assert("│"@ =~= seq!['│']);
            assert(line@ =~= head + row@);
        }
        line.push(Span::raw(blanks(gap)));
        line.push(Span::new("│", accent));
        proof {
            assert(line@ =~= boxed_row(pad as nat, row@, w as nat));
            assert(body.take(k + 1) =~= body.take(k as int).push(body[k as int]));
            assert(top + body.take(k + 1) =~= (top + body.take(k as int)).push(body[k as int]));
        }
        push_line(&mut out, line);
        k = k + 1;
    }
    push_line(&mut out, edge_line(pad, '╰', '╯', w + 2));
    proof {
        assert(body.take(k as int) =~= body);
    }
    Some(out)
}

/// The banner for the chat pane, or `None` when it is switched off, when the
/// environment suppresses it, or when it does not fit.
pub fn build(
    info: &LaunchInfo,
    art: Vec<Line>,
    suppressed: bool,
    pane_w: u16,
    pane_h: u16,
) -> (r: Option<Vec<Line>>)
    ensures
        match r {
            Some(lines) => info@.banner_enabled && !suppressed && boxed(
                content(info@, line_views(art@)),
                pane_w as int,
                pane_h as int,
            ) == Some(line_views(lines@)),
            None => !info@.banner_enabled || suppressed || boxed(
                content(info@, line_views(art@)),
                pane_w as int,
                pane_h as int,
            ) is None,
        },
{
    if !info.banner_enabled || suppressed {
        return None;
    }
    build_box(info, art, pane_w, pane_h)
}

} // verus!
