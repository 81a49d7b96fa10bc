//! The strips below the chat: queued messages, composer, popups and toasts.

use vstd::prelude::*;
use crate::app::slash::{Availability, SlashCommand, UsageCounts, command_descriptions, command_names, descriptions_of, names_of, ranking, slash_matches};
use crate::app::state::{App, AppView, Toast, ToastKind};
use crate::app::wrap::{cursor_place, cursor_visual_pos, row_views, rows_of_lines, rows_tile_the_line, text_budget, tiles, wrap_logical_line_chunks, wrapped};
use crate::chrome::{caffeinate_glyph_spans, caffeinate_spans, plan_spans, plan_status_spans, side_glyph_spans, side_spans, status_line_spans, status_spans};
use crate::composer::{INPUT_PREFIX, input_prefix_width};
use crate::editor::{AUTOCOMPLETE_ROWS, Suggestion, SuggestionView, suggestion_views};
use crate::geometry::Rect;
use crate::nav::{max_int, max_usize, min_int, min_usize, monus, scroll_top, scroll_window_shows_selection, windowed_scroll};
use crate::style::{Color, Line, LineView, Span, Style, line_text, line_views, push_line, push_lines, push_spans, rawsp, sp, span_views};
use crate::text::{blanks, clipped_line, concat2, concat3, first_line_truncated, from_range, newline_parts, push_repeated, repeated, spaces, split_newlines, texts, to_chars};
use crate::theme::{BUSY_BORDER_INDEX, DIM_WHITE_INDEX, MUTED_COLOR_INDEX};
use crate::width::{display_width, line_cells, spans_width};

verus! {

/// Colour of the frames: dim while the agent works.
pub open spec fn frame_color(busy: bool) -> Color {
    if busy {
        Color::Indexed(BUSY_BORDER_INDEX)
    } else {
        Color::White
    }
}

fn border_color(busy: bool) -> (r: Color)
    ensures
        r == frame_color(busy),
{
    if busy {
        Color::Indexed(BUSY_BORDER_INDEX)
    } else {
        Color::White
    }
}

// ---- Queue ----------------------------------------------------------------

/// Characters of a message that fit into a queue box `w` columns wide.
pub open spec fn queue_room(w: int) -> int {
    max_int(monus(w - 2, 4), 1)
}

/// A message in the queue box.
pub open spec fn queue_row(message: Seq<char>, w: int, color: Color) -> LineView {
    let body = clipped_line(message, queue_room(w));
    seq![
        rawsp(" "@),
        sp("│"@, Style::fg(color)),
        rawsp(" "@),
        sp(body, Style::fg(Color::Indexed(DIM_WHITE_INDEX))),
        rawsp(spaces(monus(queue_room(w), body.len() as int) as nat)),
        rawsp(" "@),
        sp("│"@, Style::fg(color)),
        rawsp(" "@),
    ]
}

/// The row that closes the queue box and opens the composer below it.
pub open spec fn shared_border(w: int) -> Seq<char> {
    Seq::new(
        w as nat,
        |i: int|
            if i == 0 {
                '╭'
            } else if i == w - 1 {
                '╮'
            } else if i == 1 || i == w - 2 {
                '┴'
            } else {
                '─'
            },
    )
}

pub open spec fn queue_top(w: int, color: Color) -> LineView {
    seq![
        rawsp(" "@),
        sp("╭"@ + repeated('─', (w - 4) as nat) + "╮"@, Style::fg(color)),
        rawsp(" "@),
    ]
}

/// The queue box, or nothing where it has no room or nothing is queued.
pub open spec fn queue_box(queue: Seq<Seq<char>>, busy: bool, w: int, h: int) -> Seq<LineView> {
    let color = frame_color(busy);
    if h < 2 || w < 5 || queue.len() == 0 {
        Seq::empty()
    } else {
        seq![queue_top(w, color)] + queue.map_values(
            |m: Seq<char>| queue_row(m, w, color),
        ) + seq![seq![sp(shared_border(w), Style::fg(color))]]
    }
}

fn raw_span(text: &str) -> (r: Span)
    ensures
        r@ == rawsp(text@),
{
    Span::raw(String::from_str(text))
}

fn build_queue_row(message: &str, w: usize, color: Color) -> (r: Line)
    requires
        w >= 5,
    ensures
        r@ == queue_row(message@, w as int, color),
{
    let room: usize = if w > 7 {
        w - 6
    } else {
        1
    };
    let body: String = first_line_truncated(message, room);
    let n: usize = body.as_str().unicode_len();
    let mut line = Line::blank();
    line.push(raw_span(" "));
    line.push(Span::new("│", Style::fg(color)));
    line.push(raw_span(" "));
    line.push(Span::styled(body, Style::fg(Color::Indexed(DIM_WHITE_INDEX))));
    line.push(Span::raw(blanks(room - n)));
    line.push(raw_span(" "));
    line.push(Span::new("│", Style::fg(color)));
    line.push(raw_span(" "));
    proof {
        assert(line@ =~= queue_row(message@, w as int, color));
    }
    line
}

fn build_shared_border(w: usize) -> (r: String)
    requires
        w >= 5,
    ensures
        r@ == shared_border(w as int),
{
    let mut out: String = String::from_str("╭┴");
    push_repeated(&mut out, '─', w - 4);
    out.append("┴╮");
    proof {
        reveal_strlit("╭┴");
        reveal_strlit("┴╮");
        assert(out@ =~= shared_border(w as int));
    }
    out
}

/// The queue box for an area of `width` by `height`.
pub fn render_queue(queue: &Vec<String>, busy: bool, width: u16, height: u16) -> (r: Vec<Line>)
    ensures
        line_views(r@) == queue_box(texts(queue@), busy, width as int, height as int),
{
    let mut out: Vec<Line> = Vec::new();
    let ghost goal = queue_box(texts(queue@), busy, width as int, height as int);
    proof {
        assert(line_views(out@) =~= Seq::empty());
    }
    if height < 2 || width < 5 || queue.len() == 0 {
        return out;
    }
    let w: usize = width as usize;
    let color = border_color(busy);
    let mut bar: String = String::from_str("╭");
    push_repeated(&mut bar, '─', w - 4);
    bar.append("╮");
    let mut top = Line::blank();
    top.push(raw_span(" "));
    top.push(Span::styled(bar, Style::fg(color)));
    top.push(raw_span(" "));
    proof {
        assert(top@ =~= queue_top(w as int, color));
    }
    push_line(&mut out, top);
    let mut i: usize = 0;
    proof {
        assert(line_views(out@) =~= goal.take(1));
    }
    while i < queue.len()
        invariant
            i <= queue@.len(),
            w == width,
            w >= 5,
            color == frame_color(busy),
            goal == seq![queue_top(w as int, color)] + texts(queue@).map_values(
                |m: Seq<char>| queue_row(m, w as int, color),
            ) + seq![seq![sp(shared_border(w as int), Style::fg(color))]],
            line_views(out@) == goal.take(i + 1),
        decreases queue@.len() - i,
    {
        let ghost before = line_views(out@);
        let row: Line = build_queue_row(queue[i].as_str(), w, color);
        push_line(&mut out, row);
        proof {
            assert(texts(queue@)[i as int] == queue@[i as int]@);
            assert(goal[i + 1] == row@);
            assert(goal.take(i + 2) =~= before.push(row@));
        }
        i = i + 1;
    }
    let shared: String = build_shared_border(w);
    let last = Line::of(Span::styled(shared, Style::fg(color)));
    let ghost before = line_views(out@);
    push_line(&mut out, last);
    proof {
        assert(goal[i + 1] == last@);
        assert(goal =~= before.push(last@));
    }
    out
}

// ---- Composer -------------------------------------------------------------

/// The prefix of row `i` of line `li`: the prompt on the first row, an indent on
/// all others.
pub open spec fn row_prefix(li: int, i: int, prefix: int) -> Seq<char> {
    if li == 0 && i == 0 {
        INPUT_PREFIX@
    } else {
        spaces(prefix as nat)
    }
}

pub open spec fn input_row(
    line: Seq<char>,
    row: (int, int),
    li: int,
    i: int,
    prefix: int,
) -> LineView {
    seq![
        sp(row_prefix(li, i, prefix), Style::fg(Color::White)),
        sp(line.subrange(row.0, row.1), Style::fg(Color::White)),
    ]
}

/// The rows of line `li`.
pub open spec fn line_input_rows(
    line: Seq<char>,
    li: int,
    prefix: int,
    budget: int,
) -> Seq<LineView> {
    let rows = wrapped(line, budget);
    Seq::new(rows.len(), |i: int| input_row(line, rows[i], li, i, prefix))
}

/// The rows of the first `n` lines.
pub open spec fn input_rows(
    lines: Seq<Seq<char>>,
    n: int,
    prefix: int,
    budget: int,
) -> Seq<LineView>
    decreases n,
{
    if n <= 0 {
        Seq::empty()
    } else {
        input_rows(lines, n - 1, prefix, budget) + line_input_rows(
            lines[n - 1],
            n - 1,
            prefix,
            budget,
        )
    }
}

/// The drawn composer has a row for each row that the cursor can be on.
pub proof fn cursor_and_text_agree(lines: Seq<Seq<char>>, n: int, prefix: int, budget: int)
    ensures
        input_rows(lines, n, prefix, budget).len() == rows_of_lines(lines, n, budget),
    decreases n,
{
    if n > 0 {
        cursor_and_text_agree(lines, n - 1, prefix, budget);
    }
}

/// The composer's text as it is drawn.
pub struct InputView {
    pub lines: Vec<Line>,
    /// Rows scrolled off the top.
    pub scroll: u16,
    /// Cell of the cursor, counted from the top left of the text.
    pub cursor_col: u16,
    pub cursor_row: u16,
}

/// Rows to scroll so that the cursor's row is the last to show, if it would not
/// show otherwise.
pub open spec fn input_scroll(cursor_row: int, height: int) -> int {
    monus(cursor_row, monus(height, 1))
}

/// The row of the cursor always shows: nothing is scrolled while it fits, and it is the
/// last row otherwise.
pub proof fn cursor_row_shows(cursor_row: int, height: int)
    requires
        0 <= cursor_row,
        0 < height,
    ensures
        0 <= cursor_row - input_scroll(cursor_row, height) < height,
        cursor_row < height ==> input_scroll(cursor_row, height) == 0,
        cursor_row >= height ==> cursor_row - input_scroll(cursor_row, height) == height - 1,
{
}

fn build_line_rows(line: &str, li: usize, prefix: usize, budget: usize) -> (r: Vec<Line>)
    ensures
        line_views(r@) == line_input_rows(line@, li as int, prefix as int, budget as int),
{
    let chars: Vec<char> = to_chars(line);
    let rows: Vec<(usize, usize)> = wrap_logical_line_chunks(line, budget);
    let ghost all = wrapped(line@, budget as int);
    let ghost goal = line_input_rows(line@, li as int, prefix as int, budget as int);
    let mut out: Vec<Line> = Vec::new();
    let mut i: usize = 0;
    proof {
        rows_tile_the_line(line@, budget as int);
        assert(line_views(out@) =~= goal.take(0));
    }
    while i < rows.len()
        invariant
            i <= rows@.len() == all.len() == goal.len(),
            all == row_views(rows@),
            all == wrapped(line@, budget as int),
            tiles(all, 0, line@.len() as int),
            chars@ == line@,
            goal == line_input_rows(line@, li as int, prefix as int, budget as int),
            line_views(out@) == goal.take(i as int),
        decreases rows@.len() - i,
    {
        let (start, end) = rows[i];
        proof {
            assert(all[i as int] == (start as int, end as int));
            lemma_tile_end(all, 0, line@.len() as int, i as int);
            lemma_tile_start(all, 0, line@.len() as int, i as int);
        }
        let text: String = from_range(&chars, start, end);
        let pre: String = if li == 0 && i == 0 {
            String::from_str(INPUT_PREFIX)
        } else {
            blanks(prefix)
        };
        let row = Line::of2(
            Span::styled(pre, Style::fg(Color::White)),
            Span::styled(text, Style::fg(Color::White)),
        );
        let ghost before = line_views(out@);
        push_line(&mut out, row);
        proof {
            assert(goal[i as int] =~= row@);
            assert(goal.take(i + 1) =~= before.push(row@));
        }
        i = i + 1;
    }
    proof {
        assert(goal.take(i as int) =~= goal);
    }
    out
}

proof fn lemma_tile_end(rows: Seq<(int, int)>, from: int, to: int, i: int)
    requires
        tiles(rows, from, to),
        0 <= i < rows.len(),
    ensures
        rows[i].1 <= to,
    decreases rows.len() - i,
{
    if i < rows.len() - 1 {
        lemma_tile_end(rows, from, to, i + 1);
        assert(rows[i].1 == rows[i + 1].0);
    }
}

proof fn lemma_tile_start(rows: Seq<(int, int)>, from: int, to: int, i: int)
    requires
        tiles(rows, from, to),
        0 <= i < rows.len(),
    ensures
        from <= rows[i].0,
    decreases i,
{
    if i > 0 {
        lemma_tile_start(rows, from, to, i - 1);
        assert(rows[i - 1].1 == rows[i].0);
    }
}

/// The composer's text in a box of `width` by `height`, its border not counted,
/// with the cursor at `line` and `col` of the text.
pub fn render_input(
    text: &str,
    line: usize,
    col: usize,
    width: u16,
    height: u16,
) -> (r: InputView)
    ensures
        ({
            let prefix = display_width(INPUT_PREFIX@) as int;
            let lines = newline_parts(text@);
            let place = cursor_place(
                text@,
                line as int,
                col as int,
                prefix,
                max_int(width as int, 1),
            );
            let row = min_int(place.0, usize::MAX as int) % 0x10000;
            &&& line_views(r.lines@) == input_rows(
                lines,
                lines.len() as int,
                prefix,
                text_budget(width as int, prefix),
            )
            &&& r.scroll == input_scroll(row, height as int)
            &&& r.cursor_row == row - r.scroll
            &&& r.cursor_col == min_int(place.1, usize::MAX as int) % 0x10000
        }),
{
    let prefix: usize = input_prefix_width();
    let w: usize = width as usize;
    let budget: usize = max_usize(
        if w > prefix {
            w - prefix
        } else {
            0
        },
        1,
    );
    let parts: Vec<String> = split_newlines(text);
    let ghost all = newline_parts(text@);
    let mut out: Vec<Line> = Vec::new();
    let mut i: usize = 0;
    proof {
        assert(line_views(out@) =~= input_rows(all, 0, prefix as int, budget as int));
    }
    while i < parts.len()
        invariant
            i <= parts@.len() == all.len(),
            all == texts(parts@),
            line_views(out@) == input_rows(all, i as int, prefix as int, budget as int),
        decreases parts@.len() - i,
    {
        proof {
            assert(all[i as int] == parts@[i as int]@);
        }
        let rows: Vec<Line> = build_line_rows(parts[i].as_str(), i, prefix, budget);
        push_lines(&mut out, rows);
        i = i + 1;
    }
    let (vis_row, vis_col) = cursor_visual_pos(text, line, col, prefix, max_usize(w, 1));
    let row: u16 = (vis_row % 0x10000) as u16;
    let below: u16 = if height > 0 {
        height - 1
    } else {
        0
    };
    let scroll: u16 = if row > below {
        row - below
    } else {
        0
    };
    InputView {
        lines: out,
        scroll,
        cursor_col: (vis_col % 0x10000) as u16,
        cursor_row: row - scroll,
    }
}

/// Where the context indicator goes in the composer's box: right-aligned on its
/// first row, where it fits.
pub open spec fn chip_place(label: Seq<char>, inner: Rect) -> Option<Rect> {
    let n = label.len() as int % 0x10000;
    if n + 1 < inner.width {
        Some(
            Rect {
                x: (inner.x + (inner.width - n)) as u16,
                y: inner.y,
                width: n as u16,
                height: 1,
            },
        )
    } else {
        None
    }
}

/// Where the context indicator goes in the composer's box.
pub fn indicator_area(label: &str, inner: Rect) -> (r: Option<Rect>)
    requires
        inner.on_screen(),
    ensures
        r == chip_place(label@, inner),
        r is Some ==> inner.height > 0 ==> inner.covers(r->0),
{
    let n: u16 = (label.unicode_len() % 0x10000) as u16;
    if n < inner.width && n + 1 < inner.width {
        Some(Rect { x: inner.x + (inner.width - n), y: inner.y, width: n, height: 1 })
    } else {
        None
    }
}

// ---- Popups ---------------------------------------------------------------

/// `name` behind a slash, padded to `width`.
pub open spec fn padded_name(name: Seq<char>, width: int) -> Seq<char> {
    "/"@ + name + spaces(monus(width, name.len() as int) as nat)
}

/// Length of the longest of the names `ranked[from..to]`.
pub open spec fn widest_name(ranked: Seq<int>, from: int, to: int) -> int
    decreases to - from,
{
    if to <= from {
        0
    } else {
        max_int(
            widest_name(ranked, from, to - 1),
            command_names()[ranked[to - 1]].len() as int,
        )
    }
}

pub open spec fn row_marker(selected: bool) -> Seq<char> {
    if selected {
        "▸ "@
    } else {
        "  "@
    }
}

pub open spec fn row_style(selected: bool) -> Style {
    if selected {
        Style::fg(Color::Yellow)
    } else {
        Style::fg(Color::White)
    }
}

pub open spec fn slash_row(c: int, selected: bool, width: int) -> LineView {
    seq![
        rawsp(row_marker(selected)),
        sp(padded_name(command_names()[c], width), row_style(selected)),
        rawsp("  "@),
        sp(command_descriptions()[c], Style::fg(Color::Indexed(MUTED_COLOR_INDEX))),
    ]
}

pub open spec fn no_match_row(text: Seq<char>) -> LineView {
    seq![rawsp("  "@), sp(text, Style::fg(Color::Red))]
}

/// `lines` with empty rows up to the height of the popups.
pub open spec fn filled_up(lines: Seq<LineView>) -> Seq<LineView> {
    lines + Seq::new(
        monus(AUTOCOMPLETE_ROWS as int, lines.len() as int) as nat,
        |i: int| LineView::empty(),
    )
}

/// First row of a popup that shows, and one past the last.
pub open spec fn popup_window(selected: int, scroll: int, n: int) -> (int, int) {
    let from = scroll_top(min_int(selected, n - 1), scroll, n, AUTOCOMPLETE_ROWS as int);
    (from, min_int(from + AUTOCOMPLETE_ROWS, n))
}

/// The slash menu.
pub open spec fn slash_popup(
    query: Seq<char>,
    counts: Seq<(Seq<char>, u64)>,
    here: Availability,
    selected: int,
    scroll: int,
) -> Seq<LineView> {
    let ranked = ranking(36, query, counts, here);
    let n = ranked.len() as int;
    if n == 0 {
        filled_up(seq![no_match_row("no matching command"@)])
    } else {
        let (from, to) = popup_window(selected, scroll, n);
        let width = widest_name(ranked, from, to);
        filled_up(
            Seq::new(
                (to - from) as nat,
                |i: int| slash_row(ranked[from + i], from + i == min_int(selected, n - 1), width),
            ),
        )
    }
}

pub open spec fn at_row(s: SuggestionView, selected: bool) -> LineView {
    seq![
        rawsp(row_marker(selected)),
        sp("@"@ + s.display, row_style(selected)),
        rawsp("  "@),
        sp(
            if s.is_dir {
                "dir"@
            } else {
                "file"@
            },
            Style::fg(Color::Indexed(MUTED_COLOR_INDEX)),
        ),
    ]
}

/// The menu of files.
pub open spec fn at_popup(
    suggestions: Seq<SuggestionView>,
    selected: int,
    scroll: int,
) -> Seq<LineView> {
    let n = suggestions.len() as int;
    if n == 0 {
        filled_up(seq![no_match_row("no matching file"@)])
    } else {
        let (from, to) = popup_window(selected, scroll, n);
        filled_up(
            Seq::new(
                (to - from) as nat,
                |i: int| at_row(suggestions[from + i], from + i == min_int(selected, n - 1)),
            ),
        )
    }
}

/// The highlighted row of a popup always shows.
pub proof fn highlighted_row_shows(selected: int, scroll: int, n: int)
    requires
        0 <= selected,
        0 <= scroll,
        0 < n,
    ensures
        ({
            let (from, to) = popup_window(selected, scroll, n);
            0 <= from <= min_int(selected, n - 1) < to <= n
        }),
{
    scroll_window_shows_selection(
        min_int(selected, n - 1),
        scroll,
        n,
        AUTOCOMPLETE_ROWS as int,
    );
}


fn marker(selected: bool) -> (r: Span)
    ensures
        r@ == rawsp(row_marker(selected)),
{
    raw_span(
        if selected {
            "▸ "
        } else {
            "  "
        },
    )
}

fn name_style(selected: bool) -> (r: Style)
    ensures
        r == row_style(selected),
{
    if selected {
        Style::fg(Color::Yellow)
    } else {
        Style::fg(Color::White)
    }
}

fn fill_up(out: &mut Vec<Line>)
    ensures
        line_views(final(out)@) == filled_up(line_views(old(out)@)),
{
    let ghost before = line_views(out@);
    let rows: usize = AUTOCOMPLETE_ROWS as usize;
    proof {
        assert(before + Seq::new(0, |i: int| LineView::empty()) =~= before);
    }
    while out.len() < rows
        invariant
            rows == AUTOCOMPLETE_ROWS,
            line_views(out@).len() == out@.len(),
            before.len() <= out@.len(),
            line_views(out@) == before + Seq::new(
                (out@.len() - before.len()) as nat,
                |i: int| LineView::empty(),
            ),
            out@.len() <= rows || out@.len() == before.len(),
        decreases rows - out@.len(),
    {
        let ghost middle = line_views(out@);
        let ghost n = out@.len();
        push_line(out, Line::blank());
        proof {
            assert(line_views(out@).len() == out@.len());
            assert(line_views(out@) =~= before + Seq::new(
                (n + 1 - before.len()) as nat,
                |i: int| LineView::empty(),
            ));
        }
    }
    proof {
        assert(line_views(out@) =~= filled_up(before));
    }
}

fn no_match(text: &str) -> (r: Line)
    ensures
        r@ == no_match_row(text@),
{
    let r = Line::of2(raw_span("  "), Span::new(text, Style::fg(Color::Red)));
    proof {
        assert(r@ =~= no_match_row(text@));
    }
    r
}

fn build_slash_row(c: &SlashCommand, selected: bool, width: usize, Ghost(i): Ghost<int>) -> (r: Line)
    requires
        c.name@ == command_names()[i],
        c.description@ == command_descriptions()[i],
    ensures
        r@ == slash_row(i, selected, width as int),
{
    let n: usize = c.name.unicode_len();
    let mut name: String = concat2("/", c.name);
    let pad: String = blanks(
        if width > n {
            width - n
        } else {
            0
        },
    );
    name.append(pad.as_str());
    let mut row = Line::of2(marker(selected), Span::styled(name, name_style(selected)));
    row.push(raw_span("  "));
    row.push(Span::new(c.description, Style::fg(Color::Indexed(MUTED_COLOR_INDEX))));
    proof {
        assert(row@ =~= slash_row(i, selected, width as int));
    }
    row
}

/// The window of a popup of `n` rows: its first row, one past its last, and the
/// highlighted row.
fn window_of(selected: usize, scroll: usize, n: usize) -> (r: (usize, usize, usize))
    requires
        n > 0,
    ensures
        (r.0 as int, r.1 as int) == popup_window(selected as int, scroll as int, n as int),
        r.2 == min_int(selected as int, n - 1),
        r.0 <= r.2 < r.1 <= n,
{
    proof {
        highlighted_row_shows(selected as int, scroll as int, n as int);
    }
    let sel: usize = min_usize(selected, n - 1);
    let rows: usize = AUTOCOMPLETE_ROWS as usize;
    let from: usize = windowed_scroll(sel, scroll, n, rows);
    let to: usize = if n - from < rows {
        n
    } else {
        from + rows
    };
    (from, to, sel)
}

/// The slash menu for a query, with row `selected` highlighted.
pub fn render_slash_popup(
    query: &str,
    counts: &UsageCounts,
    here: Availability,
    selected: usize,
    scroll: usize,
) -> (r: Vec<Line>)
    ensures
        line_views(r@) == slash_popup(query@, counts@, here, selected as int, scroll as int),
{
    let matches: Vec<SlashCommand> = slash_matches(query, counts, here);
    let ghost ranked = ranking(36, query@, counts@, here);
    let ghost names = names_of(matches@);
    let ghost told = descriptions_of(matches@);
    let n: usize = matches.len();
    let mut out: Vec<Line> = Vec::new();
    proof {
        assert(names.len() == n);
        assert(line_views(out@) =~= Seq::empty());
    }
    if n == 0 {
        push_line(&mut out, no_match("no matching command"));
        proof {
            assert(line_views(out@) =~= seq![no_match_row("no matching command"@)]);
        }
        fill_up(&mut out);
        return out;
    }
    let (from, to, sel) = window_of(selected, scroll, n);
    let mut width: usize = 0;
    let mut i: usize = from;
    while i < to
        invariant
            from <= i <= to <= n == matches@.len() == ranked.len(),
            names == names_of(matches@),
            names == ranked.map_values(|k: int| command_names()[k]),
            width == widest_name(ranked, from as int, i as int),
        decreases to - i,
    {
        proof {
            assert(names[i as int] == matches@[i as int].name@);
        }
        width = max_usize(width, matches[i].name.unicode_len());
        i = i + 1;
    }
    let ghost goal = Seq::new(
        (to - from) as nat,
        |k: int| slash_row(ranked[from + k], from + k == sel, width as int),
    );
    i = from;
    proof {
        assert(line_views(out@) =~= goal.take(0));
    }
    while i < to
        invariant
            from <= i <= to <= n == matches@.len() == ranked.len(),
            names == names_of(matches@),
            told == descriptions_of(matches@),
            names == ranked.map_values(|k: int| command_names()[k]),
            told == ranked.map_values(|k: int| command_descriptions()[k]),
            goal == Seq::new(
                (to - from) as nat,
                |k: int| slash_row(ranked[from + k], from + k == sel, width as int),
            ),
            line_views(out@) == goal.take(i - from),
        decreases to - i,
    {
        proof {
            assert(names[i as int] == matches@[i as int].name@);
            assert(told[i as int] == matches@[i as int].description@);
        }
        let row: Line = build_slash_row(&matches[i], i == sel, width, Ghost(ranked[i as int]));
        let ghost before = line_views(out@);
        push_line(&mut out, row);
        proof {
            assert(goal[i - from] == row@);
            assert(goal.take(i + 1 - from) =~= before.push(row@));
        }
        i = i + 1;
    }
    proof {
        assert(goal.take(to - from) =~= goal);
    }
    fill_up(&mut out);
    out
}

/// The menu of files, with row `selected` highlighted.
pub fn render_at_popup(
    suggestions: &Vec<Suggestion>,
    selected: usize,
    scroll: usize,
) -> (r: Vec<Line>)
    ensures
        line_views(r@) == at_popup(
            suggestion_views(suggestions@),
            selected as int,
            scroll as int,
        ),
{
    let ghost all = suggestion_views(suggestions@);
    let n: usize = suggestions.len();
    let mut out: Vec<Line> = Vec::new();
    proof {
        assert(line_views(out@) =~= Seq::empty());
    }
    if n == 0 {
        push_line(&mut out, no_match("no matching file"));
        proof {
            assert(line_views(out@) =~= seq![no_match_row("no matching file"@)]);
        }
        fill_up(&mut out);
        return out;
    }
    let (from, to, sel) = window_of(selected, scroll, n);
    let ghost goal = Seq::new(
        (to - from) as nat,
        |k: int| at_row(all[from + k], from + k == sel),
    );
    let mut i: usize = from;
    proof {
        assert(line_views(out@) =~= goal.take(0));
    }
    while i < to
        invariant
            from <= i <= to <= n == suggestions@.len() == all.len(),
            all == suggestion_views(suggestions@),
            goal == Seq::new((to - from) as nat, |k: int| at_row(all[from + k], from + k == sel)),
            line_views(out@) == goal.take(i - from),
        decreases to - i,
    {
        let s: &Suggestion = &suggestions[i];
        proof {
            assert(all[i as int] == s@);
        }
        let selected_row: bool = i == sel;
        let mut row = Line::of2(
            marker(selected_row),
            Span::styled(concat2("@", s.display.as_str()), name_style(selected_row)),
        );
        row.push(raw_span("  "));
        row.push(
            Span::new(
                if s.is_dir {
                    "dir"
                } else {
                    "file"
                },
                Style::fg(Color::Indexed(MUTED_COLOR_INDEX)),
            ),
        );
        let ghost before = line_views(out@);
        push_line(&mut out, row);
        proof {
            assert(goal[i - from] =~= row@);
            assert(goal.take(i + 1 - from) =~= before.push(row@));
        }
        i = i + 1;
    }
    proof {
        assert(goal.take(to - from) =~= goal);
    }
    fill_up(&mut out);
    out
}

/// The hint for Normal mode.
pub open spec fn vim_hint_row() -> LineView {
    let muted = Style::fg(Color::Indexed(MUTED_COLOR_INDEX));
    seq![
        rawsp("  "@),
        sp("Press "@, muted),
        sp("`i`"@, Style::fg(Color::Yellow)),
        sp(" to resume typing. Disable vim mode in "@, muted),
        sp("/settings"@, muted),
    ]
}

impl AppView {
    /// The popup below the composer.
    pub open spec fn popup(
        self,
        suggestions: Seq<SuggestionView>,
        here: Availability,
    ) -> Seq<LineView> {
        if self.editor.at_popup_active() {
            at_popup(suggestions, self.editor.at_selected, self.editor.at_scroll)
        } else if self.editor.slash_query() is Some {
            slash_popup(
                self.editor.slash_query()->0,
                self.usage_slash,
                here,
                self.editor.slash_selected,
                self.editor.slash_scroll,
            )
        } else if self.vim_hint() {
            seq![vim_hint_row()]
        } else {
            Seq::empty()
        }
    }
}

impl App {
    /// The popup below the composer: files for an `@` token, commands for a
    /// slash, or the hint for Normal mode.
    pub fn render_popup(&self, suggestions: &Vec<Suggestion>, here: Availability) -> (r: Vec<Line>)
        requires
            self.wf(),
        ensures
            line_views(r@) == self@.popup(suggestion_views(suggestions@), here),
    {
        if self.editor.at_popup_active() {
            return render_at_popup(suggestions, self.editor.at_selected, self.editor.at_scroll);
        }
        match self.editor.slash_query() {
            Some(q) => {
                return render_slash_popup(
                    q.as_str(),
                    &self.usage_slash,
                    here,
                    self.editor.slash_selected,
                    self.editor.slash_scroll,
                );
            },
            None => {},
        }
        let mut out: Vec<Line> = Vec::new();
        if self.show_vim_hint() {
            let muted = Style::fg(Color::Indexed(MUTED_COLOR_INDEX));
            let mut row = Line::of2(raw_span("  "), Span::new("Press ", muted));
            row.push(Span::new("`i`", Style::fg(Color::Yellow)));
            row.push(Span::new(" to resume typing. Disable vim mode in ", muted));
            row.push(Span::new("/settings", muted));
            proof {
                assert(row@ =~= vim_hint_row());
            }
            push_line(&mut out, row);
            proof {
                assert(line_views(out@) =~= seq![vim_hint_row()]);
            }
        } else {
            proof {
                assert(line_views(out@) =~= Seq::empty());
            }
        }
        out
    }
}

// ---- Toast ----------------------------------------------------------------

pub open spec fn toast_color(kind: ToastKind) -> Color {
    match kind {
        ToastKind::Success => Color::Green,
        ToastKind::Error => Color::Red,
        ToastKind::Info => Color::Indexed(DIM_WHITE_INDEX),
    }
}

/// The text of a toast in `width` columns: cut with an ellipsis where it is too
/// long.
pub open spec fn toast_text(text: Seq<char>, width: int) -> Seq<char> {
    let padded = " "@ + text + " "@;
    if padded.len() > width {
        padded.take(monus(width, 1)).push('…')
    } else {
        padded
    }
}

/// The line of a toast on a status line `width` columns wide.
pub fn render_toast(toast: &Toast, width: u16, height: u16) -> (r: Option<Line>)
    ensures
        match r {
            None => width == 0 || height == 0,
            Some(l) => width > 0 && height > 0 && l@ == seq![
                sp(
                    toast_text(toast.text@, width as int),
                    Style::fg(toast_color(toast.kind)).bold(),
                ),
            ] && line_text(l@).len() <= width,
        },
{
    if width == 0 || height == 0 {
        return None;
    }
    let text: String = concat3(" ", toast.text.as_str(), " ");
    let v: Vec<char> = to_chars(text.as_str());
    let max: usize = width as usize;
    let shown: String = if v.len() > max {
        let mut t: String = from_range(&v, 0, max - 1);
        proof {
            assert(v@.subrange(0, max - 1) =~= v@.take(max - 1));
        }
        t.push('…');
        t
    } else {
        text
    };
    let color = match toast.kind {
        ToastKind::Success => Color::Green,
        ToastKind::Error => Color::Red,
        ToastKind::Info => Color::Indexed(DIM_WHITE_INDEX),
    };
    let line = Line::of(Span::styled(shown, Style::fg(color).bold()));
    proof {
        let l = line@;
        assert(l.drop_last() =~= Seq::empty());
        assert(line_text(l.drop_last()) =~= Seq::empty());
        assert(line_text(l) =~= shown@);
    }
    Some(line)
}

// ---- Status ---------------------------------------------------------------

/// Columns of the right side of the status line: those of its text, as far as
/// there are any.
pub open spec fn status_columns(right: LineView, width: int) -> int {
    min_int(line_cells(right) as int, width)
}

/// Columns of the left and of the right side of a status line.
pub fn split_status(right: &Vec<Span>, width: u16) -> (r: (u16, u16))
    ensures
        r.1 == status_columns(span_views(right@), width as int),
        r.0 + r.1 == width,
{
    let w: u128 = spans_width(right);
    let cols: u16 = if w > width as u128 {
        width
    } else {
        w as u16
    };
    (width - cols, cols)
}

impl AppView {
    /// The right side of the status line: the indicators of what is going on now,
    /// before the directory and the branch.
    pub open spec fn status_right(self) -> LineView {
        caffeinate_spans(self.link.caffeinate_active) + side_spans(self.side is Some) + plan_spans(
            self.link.plan_status,
        ) + status_spans(self.launch)
    }
}

impl App {
    /// The right side of the status line.
    pub fn status_right(&self) -> (r: Vec<Span>)
        ensures
            span_views(r@) == self@.status_right(),
    {
        let mut out: Vec<Span> = caffeinate_glyph_spans(self.link.caffeinate_active);
        push_spans(&mut out, side_glyph_spans(self.side.is_some()));
        push_spans(&mut out, plan_status_spans(self.link.plan_status));
        push_spans(&mut out, status_line_spans(&self.launch));
        out
    }
}

} // verus!
