//! What the chat and the composer show, and where.

use vstd::prelude::*;
use crate::app::boxes::{at_popup, at_row, chip_place, frame_color, highlighted_row_shows, line_input_rows, queue_box, slash_popup, slash_row, toast_color, toast_text};
use crate::app::control::working_message;
use crate::app::estimate::{bare_height, call_rows, call_texts, composer_height, counted_texts, entry_height, history_height, history_texts, rows_for, rows_needed, token_text};
use crate::app::history::{AGENT_INDENT, CallView, Entries, EntryView};
use crate::app::selection::{Cells, cells_text, first_content, highlighted, last_content, leading_spaces, no_trailing_spaces, selected_row, selected_rows, selected_text, selection_has_no_direction, unpadded};
use crate::app::slash::{Availability, command_descriptions, command_names, ranking};
use crate::app::state::{AppView, Selection, ToastKind};
use crate::app::transcript::duration_text;
use crate::app::viewport::{RenderedView, RowsView, gap_after, rows_of_entry, rows_of_history, shown_rows};
use crate::app::wrap::{last_break, row_end, wrapped};
use crate::chrome::{caffeinate_spans, plan_spans, side_spans, status_spans};
use crate::composer::INPUT_PREFIX;
use crate::decimal::one_decimal;
use crate::editor::SuggestionView;
use crate::geometry::Rect;
use crate::nav::scroll_top;
use crate::style::{Color, LineView, Style};
use crate::text::{clipped_line, count_char, decimal, is_blank, lines_of, newline_parts, repeated};
use crate::text_laws::clipped_lines_fit;
use crate::theme::{BUSY_BORDER_INDEX, DIM_WHITE_INDEX};

verus! {

// ---- Heights --------------------------------------------------------------

/// Newlines of a text.
pub open spec fn breaks(s: Seq<char>) -> int {
    count_char(s, '\n') as int
}

/// An entry takes a row for each line and its frame: one for the header of a command's
/// output or a diff, three around a message of the user, and one behind a tool line, a
/// tool box and an agent's message, unless that follows another.
pub proof fn entries_take_their_rows(e: EntryView, after_agent: bool)
    ensures
        e is Plain || e is CompactBoundary ==> entry_height(e, after_agent) == 1,
        e is ToolLine ==> entry_height(e, after_agent) == 2,
        e is LocalCommand && breaks(e->LocalCommand_output) < 60000 ==> entry_height(
            e,
            after_agent,
        ) == breaks(e->LocalCommand_output) + 2,
        e is User && breaks(e->User_text) < 60000 ==> entry_height(e, after_agent) == breaks(
            e->User_text,
        ) + 4,
        e is Diff && breaks(e->old_text) + breaks(e->new_text) < 60000 ==> entry_height(
            e,
            after_agent,
        ) == breaks(e->old_text) + breaks(e->new_text) + 3,
        e is ToolBox && !e->ToolBox_expanded && e->calls.len() > 0 ==> entry_height(e, after_agent)
            == 1 + (if e->calls.len() <= 5 {
            e->calls.len() as int
        } else {
            5
        }),
        e is Subagent && !e->Subagent_expanded ==> entry_height(e, after_agent) == 1,
        e is Subagent && e->Subagent_expanded && e->outcome is Some && lines_of(
            e->outcome->0.report,
        ).len() < 60000 ==> entry_height(e, after_agent) == 1 + lines_of(
            e->outcome->0.report,
        ).len(),
        e is Agent && breaks(e->Agent_text) < 60000 && !e->Agent_expanded ==> entry_height(
            e,
            after_agent,
        ) == breaks(e->Agent_text) + (if after_agent {
            1int
        } else {
            2
        }),
        e is Agent && breaks(e->Agent_text) < 30000 && lines_of(e->reasoning).len() < 30000
            && e->Agent_expanded && !is_blank(e->reasoning) ==> entry_height(e, after_agent)
            == breaks(e->Agent_text) + lines_of(e->reasoning).len() + (if after_agent {
            2int
        } else {
            3
        }),
{
}

/// Without what stands behind it a tool line takes one row, and folded reasoning takes
/// one more for its chip.
pub proof fn bare_entries_take_their_rows(e: EntryView)
    ensures
        e is ToolLine ==> bare_height(e) == 1,
        e is User && breaks(e->User_text) < 60000 ==> bare_height(e) == breaks(e->User_text) + 3,
        e is Agent && breaks(e->Agent_text) < 60000 && is_blank(e->reasoning) ==> bare_height(e)
            == breaks(e->Agent_text) + 1,
        e is Agent && breaks(e->Agent_text) < 60000 && !is_blank(e->reasoning)
            && !e->Agent_expanded ==> bare_height(e) == breaks(e->Agent_text) + 2,
        e is ToolBox && !e->ToolBox_expanded && e->calls.len() > 0 ==> bare_height(e) == (
        if e->calls.len() <= 5 {
            e->calls.len() as int
        } else {
            5
        }),
{
}

/// An unfolded tool box shows the input of each call, and its output where there is any.
pub proof fn open_boxes_show_all_calls(calls: Seq<CallView>, c: CallView)
    requires
        call_rows(calls) + breaks(c.full_input) + breaks(c.output) < 60000,
    ensures
        call_rows(Seq::empty()) == 0,
        c.output.len() == 0 ==> call_rows(calls.push(c)) == call_rows(calls) + breaks(c.full_input)
            + 1,
        c.output.len() > 0 ==> call_rows(calls.push(c)) == call_rows(calls) + breaks(c.full_input)
            + breaks(c.output) + 2,
{
    assert(calls.push(c).drop_last() =~= calls);
    lemma_rows_nonnegative(calls);
}

proof fn lemma_rows_nonnegative(calls: Seq<CallView>)
    ensures
        call_rows(calls) >= 0,
    decreases calls.len(),
{
    if calls.len() > 0 {
        lemma_rows_nonnegative(calls.drop_last());
    }
}

/// The rows of the transcript are those of its entries together.
pub proof fn heights_add_up(s: Entries, n: int)
    requires
        0 <= n < s.len(),
        history_height(s, n) + entry_height(s[n], n > 0 && s[n - 1] is Agent) <= 0xffff,
    ensures
        history_height(s, 0) == 0,
        history_height(s, n + 1) == history_height(s, n) + entry_height(
            s[n],
            n > 0 && s[n - 1] is Agent,
        ),
{
}

/// The composer is as high as its wrapped text, but shows one row at least and six at
/// most, between its two borders.
pub proof fn composers_grow_with_the_text(text: Seq<char>, prefix: int, columns: int)
    requires
        0 <= prefix,
        columns > 2,
        rows_needed(newline_parts(text), newline_parts(text).len() as int, prefix, columns - 2)
            < 0x10000,
    ensures
        ({
            let rows = rows_needed(
                newline_parts(text),
                newline_parts(text).len() as int,
                prefix,
                columns - 2,
            );
            composer_height(text, prefix, columns) == 2 + (if rows <= 1 {
                1
            } else if rows >= 6 {
                6
            } else {
                rows
            })
        }),
{
    lemma_rows_needed(
        newline_parts(text),
        newline_parts(text).len() as int,
        prefix,
        columns - 2,
    );
}

proof fn lemma_rows_needed(lines: Seq<Seq<char>>, n: int, prefix: int, width: int)
    requires
        0 <= prefix,
        width > 0,
    ensures
        rows_needed(lines, n, prefix, width) >= 0,
    decreases n,
{
    if n > 0 {
        lemma_rows_needed(lines, n - 1, prefix, width);
        line_rows_fit(lines[n - 1].len() as int, prefix, width);
    }
}

/// The rows of a line are as many as are needed to hold its characters and the prompt,
/// and one at least.
pub proof fn line_rows_fit(n: int, prefix: int, width: int)
    requires
        0 <= n,
        0 <= prefix,
        width > 0,
    ensures
        rows_for(n, prefix, width) >= 1,
        (rows_for(n, prefix, width) - 1) * width <= prefix + n <= rows_for(n, prefix, width)
            * width,
        prefix + n > 0 ==> (rows_for(n, prefix, width) - 1) * width < prefix + n,
{
    let a = prefix + n - 1;
    if prefix + n > 0 {
        vstd::arithmetic::div_mod::lemma_fundamental_div_mod(a, width);
        vstd::arithmetic::div_mod::lemma_mod_bound(a, width);
        vstd::arithmetic::div_mod::lemma_div_pos_is_pos(a, width);
        let q = a / width;
        assert(q * width == width * q) by (nonlinear_arith);
        assert((q + 1) * width == q * width + width) by (nonlinear_arith);
    } else {
        assert(1 * width == width);
    }
}

// ---- The context ----------------------------------------------------------

/// What is said, and what tools were asked and gave, counts towards the context; local
/// commands and reports do not.
pub proof fn said_texts_count(e: EntryView, calls: Seq<CallView>, c: CallView)
    ensures
        e is User ==> counted_texts(e) == seq![e->User_text],
        e is Plain ==> counted_texts(e) == seq![e->line],
        e is ToolLine ==> counted_texts(e) == seq![e->summary],
        e is Diff ==> counted_texts(e) == seq![e->old_text, e->new_text],
        e is Agent ==> counted_texts(e) == seq![e->Agent_text, e->reasoning],
        e is ToolBox ==> counted_texts(e) == call_texts(e->calls),
        e is LocalCommand || e is Subagent || e is CompactBoundary ==> counted_texts(e).len() == 0,
        call_texts(Seq::empty()).len() == 0,
        call_texts(calls.push(c)) == call_texts(calls) + seq![c.summary, c.output],
{
    assert(calls.push(c).drop_last() =~= calls);
    assert(call_texts(calls.push(c)) =~= call_texts(calls) + seq![c.summary, c.output]);
}

/// All texts of the transcript count, in order, and those of the streamed answer last.
pub proof fn all_entries_count(v: AppView, n: int)
    requires
        0 <= n < v.history.len(),
    ensures
        history_texts(v.history, 0).len() == 0,
        history_texts(v.history, n + 1) == history_texts(v.history, n) + counted_texts(
            v.history[n],
        ),
        v.pending is None ==> v.context_texts() == history_texts(
            v.history,
            v.history.len() as int,
        ),
        v.pending is Some ==> v.context_texts() == history_texts(
            v.history,
            v.history.len() as int,
        ) + seq![v.pending->0.text, v.pending->0.reasoning],
{
    let all = history_texts(v.history, v.history.len() as int);
    assert(all + Seq::<Seq<char>>::empty() =~= all);
}

/// Counts of tokens below a thousand show as they are, others in thousands.
pub proof fn token_counts_show(n: int)
    requires
        0 <= n,
    ensures
        n < 1000 ==> token_text(n) == decimal(n as nat),
        n >= 1000 ==> token_text(n) == one_decimal(n, 1000) + "k"@,
{
}

/// The indicator tells the share of the context window, or the tokens where its size is
/// not known. Before anything was sent it tells the size of the guidance file.
pub proof fn indicators_tell_the_context(v: AppView, estimate: u32)
    ensures
        ({
            let text = v.indicator_text(estimate);
            let tokens = v.context_size(estimate);
            let fresh = v.history.len() == 0 && v.context.last_usage is None && v.guidance is Some
                && v.guidance->0.file is Some;
            let max = v.launch.active_model_max_context;
            &&& fresh && v.guidance->0.guidance_tokens <= u32::MAX ==> text == token_text(
                v.guidance->0.guidance_tokens as int,
            ) + " tokens in "@ + v.guidance->0.file->0
            &&& !fresh && max is Some && max->0 > 0 && tokens * 100 / (max->0 as int) <= 999
                ==> text == decimal((tokens * 100 / (max->0 as int)) as nat) + "% context (max "@
                + decimal((max->0 / 1000) as nat) + "k), 0% prunable"@
            &&& !fresh && (max is None || max->0 == 0) ==> text == token_text(tokens)
                + " tokens, 0% prunable"@
        }),
{
}

/// The working line shows two seconds into the work. It tells the attempt while the
/// connection is tried again, that the model thinks once it has reasoned for two seconds
/// without a word, and else the message of the span, and how long that has been going on.
pub proof fn working_lines_tell_the_work(v: AppView, now: u64, dots: Seq<char>)
    requires
        v.work.span_started_at is Some ==> v.work.span_started_at->0 <= now,
        v.pending is Some ==> v.pending->0.started_at <= now,
    ensures
        ({
            let line = v.indicator_line(now, dots);
            let since = now - v.work.span_started_at->0;
            let works = v.work.busy && v.work.span_started_at is Some && since >= 2000;
            let block = now - v.pending->0.started_at;
            let thinks = v.pending is Some && !is_blank(v.pending->0.reasoning)
                && v.pending->0.text_started_at is None && block >= 2000;
            let retries = v.work.reconnect_attempt is Some;
            &&& !works ==> line is None
            &&& works ==> line is Some && (line->0).len() == 2
            &&& works && retries ==> (line->0)[1].text == "reconnecting… attempt "@ + decimal(
                v.work.reconnect_attempt->0 as nat,
            )
            &&& works && !retries && thinks ==> (line->0)[1].text == "Thinking"@ + dots + " "@
                + duration_text(block)
            &&& works && !retries && !thinks ==> (line->0)[1].text == working_message(
                v.work.working_msg_idx as int,
            ) + dots + " "@ + duration_text(since)
        }),
{
}

// ---- Boxes ----------------------------------------------------------------

/// The queue stands in a box over the composer, a row for each message, and its lower
/// border is the upper border of the composer.
pub proof fn queues_stand_in_a_box(queue: Seq<Seq<char>>, busy: bool, w: int, h: int, i: int)
    requires
        0 <= i < queue.len(),
        w >= 9,
        h >= 2,
    ensures
        ({
            let b = queue_box(queue, busy, w, h);
            let body = clipped_line(queue[i], w - 6);
            let edge = b[b.len() - 1][0].text;
            &&& b.len() == queue.len() + 2
            &&& b[i + 1][3].text == body
            &&& b[i + 1][1].text == "│"@ && b[i + 1][6].text == "│"@
            &&& b[i + 1][4].text.len() == w - 6 - body.len()
            &&& edge.len() == w
            &&& edge[0] == '╭' && edge[w - 1] == '╮'
            &&& edge[1] == '┴' && edge[w - 2] == '┴'
            &&& forall|k: int| 2 <= k < w - 2 ==> #[trigger] edge[k] == '─'
            &&& b[0][1].text == "╭"@ + repeated('─', (w - 4) as nat) + "╮"@
        }),
        queue_box(Seq::empty(), busy, w, h).len() == 0,
        queue_box(queue, busy, w, 1).len() == 0,
        queue_box(queue, busy, 4, h).len() == 0,
{
    clipped_lines_fit(queue[i], w - 6);
}

/// Each row of the composer shows its part of the text, the first of all behind the
/// prompt and the others behind an indent as wide.
pub proof fn input_rows_show_the_text(line: Seq<char>, li: int, prefix: int, budget: int, i: int)
    requires
        0 <= i < wrapped(line, budget).len(),
        0 <= prefix,
    ensures
        ({
            let row = line_input_rows(line, li, prefix, budget)[i];
            let part = wrapped(line, budget)[i];
            &&& row.len() == 2
            &&& row[1].text == line.subrange(part.0, part.1)
            &&& li == 0 && i == 0 ==> row[0].text == INPUT_PREFIX@
            &&& !(li == 0 && i == 0) ==> row[0].text.len() == prefix && forall|k: int|
                0 <= k < prefix ==> #[trigger] row[0].text[k] == ' '
        }),
{
}

/// A row of wrapped text ends behind its last blank, and only a word that is longer than
/// the row is cut; the rest of a line that fits is one row.
pub proof fn rows_break_at_blanks(s: Seq<char>, idx: int, budget: int)
    requires
        0 <= idx < s.len(),
        budget > 0,
    ensures
        ({
            let e = row_end(s, idx, budget);
            &&& s.len() - idx <= budget ==> e == s.len()
            &&& s.len() - idx > budget ==> {
                &&& idx < e <= idx + budget
                &&& forall|k: int| e <= k < idx + budget ==> #[trigger] s[k] != ' '
                &&& s[e - 1] == ' ' || e == idx + budget && forall|k: int|
                    idx <= k < e ==> #[trigger] s[k] != ' '
            }
        }),
{
    lemma_break(s, idx, idx + budget);
}

proof fn lemma_break(s: Seq<char>, lo: int, hi: int)
    requires
        lo <= hi,
    ensures
        lo <= last_break(s, lo, hi) <= hi,
        last_break(s, lo, hi) > lo ==> s[last_break(s, lo, hi) - 1] == ' ',
        forall|k: int| last_break(s, lo, hi) <= k < hi ==> #[trigger] s[k] != ' ',
    decreases hi - lo,
{
    if lo < hi && s[hi - 1] != ' ' {
        lemma_break(s, lo, hi - 1);
    }
}

/// The indicator stands at the right end of the first row, if it fits beside the text.
pub proof fn indicators_stand_at_the_right(label: Seq<char>, inner: Rect)
    requires
        inner.on_screen(),
        label.len() < 0x10000,
    ensures
        label.len() + 1 < inner.width ==> chip_place(label, inner) == Some(
            (Rect {
                x: (inner.x + inner.width - label.len()) as u16,
                y: inner.y,
                width: label.len() as u16,
                height: 1,
            }),
        ) && chip_place(label, inner)->0.right() == inner.right(),
        label.len() + 1 >= inner.width ==> chip_place(label, inner) is None,
{
}

/// A command shows behind a slash, in the same column as the others, with what it does;
/// the selected one has a mark and a color.
pub proof fn command_rows_show_the_command(c: int, selected: bool, width: int)
    requires
        command_names()[c].len() <= width,
    ensures
        ({
            let row = slash_row(c, selected, width);
            &&& row.len() == 4
            &&& selected ==> row[0].text == "▸ "@ && row[1].style == Style::fg(Color::Yellow)
            &&& !selected ==> row[0].text == "  "@ && row[1].style == Style::fg(Color::White)
            &&& row[1].text.len() == width + 1
            &&& row[1].text.take(1 + command_names()[c].len() as int) == "/"@ + command_names()[c]
            &&& row[3].text == command_descriptions()[c]
        }),
{
    reveal_strlit("/");
    let row = slash_row(c, selected, width);
    assert(row[1].text.take(1 + command_names()[c].len() as int) =~= "/"@ + command_names()[c]);
}

/// A file shows behind an at sign, with whether it is a directory.
pub proof fn file_rows_show_the_file(s: SuggestionView, selected: bool)
    ensures
        ({
            let row = at_row(s, selected);
            &&& row[1].text == "@"@ + s.display
            &&& selected ==> row[0].text == "▸ "@
            &&& !selected ==> row[0].text == "  "@
            &&& s.is_dir ==> row[3].text == "dir"@
            &&& !s.is_dir ==> row[3].text == "file"@
        }),
{
}

/// A popup shows the matches from its scroll position on, the selected one marked, and
/// says where nothing matches; it always has the same height.
pub proof fn popups_show_the_matches(
    suggestions: Seq<SuggestionView>,
    selected: int,
    scroll: int,
    i: int,
)
    requires
        0 <= selected < suggestions.len(),
        0 <= scroll,
    ensures
        at_popup(Seq::empty(), selected, scroll)[0][1].text == "no matching file"@,
        ({
            let p = at_popup(suggestions, selected, scroll);
            let from = scroll_top(selected, scroll, suggestions.len() as int, 6);
            &&& p.len() == 6
            &&& 0 <= i < 6 && from + i < suggestions.len() ==> p[i] == at_row(
                suggestions[from + i],
                from + i == selected,
            )
            &&& 0 <= i < 6 && from + i >= suggestions.len() ==> p[i].len() == 0
        }),
{
    highlighted_row_shows(selected, scroll, suggestions.len() as int);
    let n = suggestions.len() as int;
    let from = scroll_top(selected, scroll, n, 6);
    if n <= 6 {
        assert(from == 0);
    }
}

/// The slash menu shows the ranked commands from its scroll position on, the selected one
/// marked, and says where none matches.
pub proof fn menus_show_the_ranking(
    query: Seq<char>,
    counts: Seq<(Seq<char>, u64)>,
    here: Availability,
    selected: int,
    scroll: int,
    i: int,
)
    requires
        0 <= selected,
        0 <= scroll,
        0 <= i < 6,
    ensures
        ({
            let ranked = ranking(36, query, counts, here);
            let p = slash_popup(query, counts, here, selected, scroll);
            let n = ranked.len() as int;
            let at = if selected < n {
                selected
            } else {
                n - 1
            };
            let from = scroll_top(at, scroll, n, 6);
            let row = p[i];
            &&& p.len() == 6
            &&& n == 0 ==> p[0][1].text == "no matching command"@
            &&& n > 0 && from + i < n ==> row.len() == 4 && row[0].text == (if from + i == at {
                "▸ "@
            } else {
                "  "@
            }) && row[3].text == command_descriptions()[ranked[from + i]]
            &&& n > 0 && from + i >= n ==> row.len() == 0
        }),
{
    let n = ranking(36, query, counts, here).len() as int;
    if n > 0 {
        highlighted_row_shows(selected, scroll, n);
    }
}

/// The popup is that of files for an at sign, of commands for a slash, and else the hint
/// of vim editing in Normal mode where that is wanted.
pub proof fn popups_follow_the_text(
    v: AppView,
    suggestions: Seq<SuggestionView>,
    here: Availability,
)
    ensures
        v.editor.at_popup_active() ==> v.popup(suggestions, here) == at_popup(
            suggestions,
            v.editor.at_selected,
            v.editor.at_scroll,
        ),
        !v.editor.at_popup_active() && v.editor.slash_query() is Some ==> v.popup(
            suggestions,
            here,
        ) == slash_popup(
            v.editor.slash_query()->0,
            v.usage_slash,
            here,
            v.editor.slash_selected,
            v.editor.slash_scroll,
        ),
        !v.editor.at_popup_active() && v.editor.slash_query() is None && v.settings.vim is Hint
            && v.editor.composer.vim_enabled && v.editor.composer.vim_mode is Normal ==> v.popup(
            suggestions,
            here,
        ).len() == 1 && v.popup(suggestions, here)[0][2].text == "`i`"@,
        !v.editor.at_popup_active() && v.editor.slash_query() is None && !(v.settings.vim is Hint
            && v.editor.composer.vim_enabled && v.editor.composer.vim_mode is Normal) ==> v.popup(
            suggestions,
            here,
        ).len() == 0,
{
}

/// A toast shows between blanks, cut with an ellipsis where it is too long: green, red or
/// grey for what it tells.
pub proof fn toasts_fit_their_line(text: Seq<char>, width: int)
    requires
        width > 0,
    ensures
        text.len() + 2 <= width ==> toast_text(text, width) == " "@ + text + " "@,
        text.len() + 2 > width ==> toast_text(text, width).len() == width && toast_text(
            text,
            width,
        )[width - 1] == '…' && toast_text(text, width).take(width - 1) == (" "@ + text
            + " "@).take(width - 1),
        toast_color(ToastKind::Success) == Color::Green,
        toast_color(ToastKind::Error) == Color::Red,
        toast_color(ToastKind::Info) == Color::Indexed(DIM_WHITE_INDEX),
{
    reveal_strlit(" ");
    let padded = " "@ + text + " "@;
    if text.len() + 2 > width {
        assert(toast_text(text, width).take(width - 1) =~= padded.take(width - 1));
    }
}

/// The frames are white, and dim while the agent works.
pub proof fn frames_dim_while_busy()
    ensures
        frame_color(false) == Color::White,
        frame_color(true) == Color::Indexed(BUSY_BORDER_INDEX),
{
}

/// On the right of the status line stand the mark of wakefulness, that of a side
/// conversation, the plans, and then the directory and the branch.
pub proof fn status_lines_are_in_order(v: AppView)
    ensures
        v.status_right() == (if v.link.caffeinate_active {
            caffeinate_spans(true)
        } else {
            Seq::empty()
        }) + (if v.side is Some {
            side_spans(true)
        } else {
            Seq::empty()
        }) + plan_spans(v.link.plan_status) + status_spans(v.launch),
{
}

// ---- Rows of the chat -----------------------------------------------------

/// A gap follows a message of the user, a tool line and a tool box, and an agent's
/// message that begins a block; nothing else.
pub proof fn gaps_follow_messages(s: Entries, i: int)
    requires
        0 <= i < s.len(),
    ensures
        s[i] is User || s[i] is ToolBox || s[i] is ToolLine ==> gap_after(s, i),
        s[i] is Agent ==> gap_after(s, i) == (i == 0 || !(s[i - 1] is Agent)),
        s[i] is Plain || s[i] is LocalCommand || s[i] is Diff || s[i] is Subagent
            || s[i] is CompactBoundary ==> !gap_after(s, i),
{
}

/// Every row of an entry knows its entry: a click on the chip row unfolds it, and every
/// row of a tool box belongs to the box.
pub proof fn rows_know_their_entry(r: RenderedView, idx: usize, is_box: bool, i: int)
    requires
        0 <= i < r.lines.len() <= usize::MAX,
    ensures
        ({
            let rows = rows_of_entry(r, idx as int, is_box);
            &&& rows.lines == r.lines
            &&& rows.owners[i] == Some(idx)
            &&& rows.boxes[i] == if is_box {
                Some(idx)
            } else {
                None
            }
            &&& rows.chips[i] == if r.chip_row is Some && r.chip_row->0 == i {
                Some(idx)
            } else {
                None
            }
            &&& rows.conts[i] == (i < r.continuations.len() && r.continuations[i])
        }),
{
}

/// The rows of the transcript are those of its entries in order, each with its gap, and
/// those of the streamed answer last.
pub proof fn rows_follow_the_entries(
    v: AppView,
    rendered: Seq<RenderedView>,
    pending: Seq<LineView>,
    n: int,
)
    requires
        0 <= n < v.history.len(),
    ensures
        ({
            let s = v.history;
            let above = rows_of_history(s, rendered, n).lines;
            let lines = rows_of_history(s, rendered, n + 1).lines;
            let gap = s[n] is User || s[n] is ToolBox || s[n] is ToolLine || s[n] is Agent && !(n
                > 0 && s[n - 1] is Agent);
            &&& !gap ==> lines == above + rendered[n].lines
            &&& gap ==> lines == (above + rendered[n].lines).push(LineView::empty())
        }),
        v.transcript_rows(rendered, pending).lines == rows_of_history(
            v.history,
            rendered,
            v.history.len() as int,
        ).lines + pending,
{
    let s = v.history;
    let above = rows_of_history(s, rendered, n).lines;
    let lines = rows_of_history(s, rendered, n + 1).lines;
    if gap_after(s, n) {
        assert(lines =~= (above + rendered[n].lines).push(LineView::empty()));
    } else {
        assert(lines =~= above + rendered[n].lines);
    }
}

/// A pane shows the rows up to its scroll position, at its bottom, under the banner; a
/// banner that has room floats over them, not below the middle.
pub proof fn panes_show_the_last_rows(
    rows: RowsView,
    banner: Seq<LineView>,
    h: int,
    offset: int,
    i: int,
)
    requires
        rows.wf(),
        0 <= i < h,
        offset >= 0,
    ensures
        ({
            let b = banner.len() as int;
            let m = rows.lines.len() as int;
            let shown = shown_rows(rows, banner, h, offset).lines;
            let all = banner + rows.lines;
            let back = if offset <= b + m - h {
                offset
            } else {
                b + m - h
            };
            let top = if (h - b) / 2 <= h - m - b {
                (h - b) / 2
            } else {
                h - m - b
            };
            &&& b + m >= h && !(b > 0 && b + m <= h) ==> shown[i] == all[b + m - h - back + i]
            &&& b == 0 && m < h && i < h - m ==> shown[i].len() == 0
            &&& b == 0 && m < h && i >= h - m ==> shown[i] == rows.lines[i - (h - m)]
            &&& b > 0 && b + m <= h && i < top ==> shown[i].len() == 0
            &&& b > 0 && b + m <= h && top <= i < top + b ==> shown[i] == banner[i - top]
            &&& b > 0 && b + m <= h && top + b <= i < h - m ==> shown[i].len() == 0
            &&& b > 0 && b + m <= h && i >= h - m ==> shown[i] == rows.lines[i - (h - m)]
        }),
{
}

/// After drawing, the application knows where the chat is, how many rows there are and
/// show, and is not scrolled further back than there are rows.
pub proof fn drawing_is_remembered(
    v: AppView,
    area: Rect,
    rendered: Seq<RenderedView>,
    pending: Seq<LineView>,
    banner: Seq<LineView>,
)
    requires
        banner.len() + v.transcript_rows(rendered, pending).lines.len() <= usize::MAX,
    ensures
        ({
            let after = v.history_drawn(area, rendered, pending, banner);
            let rows = v.transcript_rows(rendered, pending);
            let b = banner.len() as int;
            let m = rows.lines.len() as int;
            let h = area.height as int;
            let shown = shown_rows(rows, banner, h, v.screen.scroll_offset as int);
            &&& after.screen.chat_area == Some(area)
            &&& after.screen.total_lines == b + m
            &&& after.screen.visible_lines == h
            &&& b + m <= h ==> after.screen.scroll_offset == 0
            &&& b + m > h ==> after.screen.scroll_offset == (if v.screen.scroll_offset <= b + m
                - h {
                v.screen.scroll_offset as int
            } else {
                b + m - h
            })
            &&& after.clickable_rows == shown.chips
            &&& after.box_rows == shown.boxes
            &&& after.cont_rows == shown.conts
            &&& after.entry_rows == shown.owners
            &&& after.history == v.history
        }),
{
}

// ---- Selections -----------------------------------------------------------

/// The text of a selection in one row is that of its cells, without the indent of
/// messages and the blanks at its end.
pub proof fn selections_in_a_row_copy_their_cells(
    grid: Seq<Cells>,
    conts: Seq<bool>,
    area: Rect,
    sel: Selection,
)
    requires
        sel.span().0.1 == sel.span().1.1,
        area.y <= sel.span().0.1 < area.y + grid.len(),
        area.x <= sel.span().0.0,
    ensures
        selected_text(grid, conts, area, sel) == unpadded(
            cells_text(
                grid[sel.span().0.1 - area.y],
                sel.span().0.0 - area.x,
                sel.span().1.0 - area.x,
            ),
        ),
{
    selection_has_no_direction(sel);
    let row = sel.span().0.1 as int;
    assert(selected_rows(grid, conts, area, sel, row) is None);
}

/// Each further row of a selection follows a newline, or a blank where it continues the
/// row above.
pub proof fn selected_rows_follow_each_other(
    grid: Seq<Cells>,
    conts: Seq<bool>,
    area: Rect,
    sel: Selection,
    row: int,
)
    requires
        sel.span().0.1 < row <= sel.span().1.1,
        area.y <= sel.span().0.1,
        row < area.y + grid.len(),
    ensures
        ({
            let above = selected_rows(grid, conts, area, sel, row);
            let with = selected_rows(grid, conts, area, sel, row + 1);
            let g = row - area.y;
            let last = if row == sel.span().1.1 {
                if sel.span().1.0 >= area.x {
                    sel.span().1.0 - area.x
                } else {
                    0
                }
            } else if grid[g].len() > 0 {
                grid[g].len() - 1
            } else {
                0
            };
            let t = unpadded(cells_text(grid[g], 0, last));
            let continues = g < conts.len() && conts[g];
            &&& above is Some
            &&& with == Some(
                above->0 + (if continues {
                    seq![' ']
                } else {
                    seq!['\n']
                }) + t,
            )
        }),
{
    lemma_rows_selected(grid, conts, area, sel, row);
    let above = selected_rows(grid, conts, area, sel, row)->0;
    let g = row - area.y;
    let t = selected_row(grid, area, sel, row)->0;
    assert(above.push(' ') + t =~= above + seq![' '] + t);
    assert(above.push('\n') + t =~= above + seq!['\n'] + t);
}

proof fn lemma_rows_selected(
    grid: Seq<Cells>,
    conts: Seq<bool>,
    area: Rect,
    sel: Selection,
    row: int,
)
    requires
        sel.span().0.1 < row,
        area.y <= sel.span().0.1,
        row - 1 < area.y + grid.len(),
    ensures
        selected_rows(grid, conts, area, sel, row) is Some,
    decreases row,
{
    if row - 1 > sel.span().0.1 {
        lemma_rows_selected(grid, conts, area, sel, row - 1);
    }
}

/// The cells of a row are put together one after another.
pub proof fn cells_are_put_together(row: Cells, first: int, last: int)
    requires
        0 <= first <= last < row.len(),
    ensures
        cells_text(row, first, first) == row[first],
        first < last ==> cells_text(row, first, last) == cells_text(row, first, last - 1)
            + row[last],
{
    reveal_with_fuel(crate::app::selection::cells_text, 2);
    assert(cells_text(row, first, first) =~= row[first]);
}

/// Without its padding a row loses the blanks at its end, and at its start those of the
/// indent of messages, and nothing else.
pub proof fn rows_lose_their_padding(s: Seq<char>)
    ensures
        exists|a: int, b: int| #[trigger] padded_between(s, a, b) && unpadded(s) == s.subrange(
            a,
            b,
        ),
{
    lemma_trailing(s);
    let t = no_trailing_spaces(s);
    lemma_leading(t, AGENT_INDENT as int);
    let a = leading_spaces(t, AGENT_INDENT as int);
    let b = t.len() as int;
    assert forall|i: int| 0 <= i < a implies #[trigger] s[i] == ' ' by {
        assert(t[i] == ' ');
    }
    if a < AGENT_INDENT && a < b {
        assert(t[a] == s[a]);
    }
    assert(padded_between(s, a, b));
    assert(unpadded(s) =~= s.subrange(a, b));
}

/// `s` holds its text from `a` up to `b`: at most two blanks before it, and only
/// blanks behind it.
pub open spec fn padded_between(s: Seq<char>, a: int, b: int) -> bool {
    &&& 0 <= a <= b <= s.len()
    &&& a <= 2
    &&& forall|i: int| 0 <= i < a ==> #[trigger] s[i] == ' '
    &&& forall|i: int| b <= i < s.len() ==> #[trigger] s[i] == ' '
    &&& b > 0 && b > a ==> s[b - 1] != ' '
    &&& a < 2 && a < b ==> s[a] != ' '
}

proof fn lemma_trailing(s: Seq<char>)
    ensures
        ({
            let t = no_trailing_spaces(s);
            &&& t.len() <= s.len()
            &&& t == s.take(t.len() as int)
            &&& forall|i: int| t.len() <= i < s.len() ==> #[trigger] s[i] == ' '
            &&& t.len() > 0 ==> t[t.len() - 1] != ' '
        }),
    decreases s.len(),
{
    if s.len() > 0 && s.last() == ' ' {
        lemma_trailing(s.drop_last());
        let t = no_trailing_spaces(s);
        assert(s.drop_last().take(t.len() as int) =~= s.take(t.len() as int));
        assert forall|i: int| t.len() <= i < s.len() implies #[trigger] s[i] == ' ' by {
            if i < s.len() - 1 {
                assert(s.drop_last()[i] == ' ');
            }
        }
    } else {
        assert(s.take(s.len() as int) =~= s);
    }
}

proof fn lemma_leading(s: Seq<char>, max: int)
    requires
        max >= 0,
    ensures
        0 <= leading_spaces(s, max) <= max,
        leading_spaces(s, max) <= s.len(),
        forall|i: int| 0 <= i < leading_spaces(s, max) ==> #[trigger] s[i] == ' ',
        leading_spaces(s, max) < max && leading_spaces(s, max) < s.len() ==> s[leading_spaces(
            s,
            max,
        )] != ' ',
    decreases s.len(),
{
    if max > 0 && s.len() > 0 && s[0] == ' ' {
        let t = s.drop_first();
        lemma_leading(t, max - 1);
        assert forall|i: int| 0 <= i < leading_spaces(s, max) implies #[trigger] s[i] == ' ' by {
            if i > 0 {
                assert(t[i - 1] == ' ');
            }
        }
    }
}

/// In each selected row what it holds is highlighted, from the selected cell on in the
/// first row and up to the selected one in the last. Rows of chips and empty rows are not.
pub proof fn highlights_cover_the_content(
    grid: Seq<Cells>,
    chips: Seq<bool>,
    area: Rect,
    sel: Selection,
    row: int,
    a: int,
    z: int,
)
    requires
        area.on_screen(),
        area.width > 0,
        area.y <= row < area.y + area.height,
        row - area.y < grid.len(),
        0 <= a <= z < grid[row - area.y].len() <= area.width,
        !is_blank(grid[row - area.y][a]),
        !is_blank(grid[row - area.y][z]),
        forall|k: int| 0 <= k < a ==> is_blank(#[trigger] grid[row - area.y][k]),
        forall|k: int|
            z < k < grid[row - area.y].len() ==> is_blank(#[trigger] grid[row - area.y][k]),
    ensures
        ({
            let h = highlighted(grid, chips, area, sel, row);
            let g = row - area.y;
            let chip = g < chips.len() && chips[g];
            let (start, end) = sel.span();
            let first = if row == start.1 && start.0 > area.x + a {
                start.0 as int
            } else {
                area.x + a
            };
            let last = if row == end.1 && end.0 < area.x + z {
                end.0 as int
            } else {
                area.x + z
            };
            &&& chip ==> h is None
            &&& !chip && first <= last ==> h == Some((first, last))
            &&& !chip && first > last ==> h is None
        }),
{
    lemma_content(grid[row - area.y], a, z, 0, grid[row - area.y].len() as int);
}

proof fn lemma_content(row: Cells, a: int, z: int, i: int, n: int)
    requires
        0 <= i <= a <= z < n <= row.len(),
        !is_blank(row[a]),
        !is_blank(row[z]),
        forall|k: int| 0 <= k < a ==> is_blank(#[trigger] row[k]),
        forall|k: int| z < k < row.len() ==> is_blank(#[trigger] row[k]),
    ensures
        first_content(row, i) == a,
        last_content(row, n) == z,
    decreases a - i + n - z,
{
    if i < a {
        lemma_content(row, a, z, i + 1, n);
    } else if z + 1 < n {
        lemma_content(row, a, z, i, n - 1);
    }
    if z + 1 < n {
        lemma_content(row, a, z, a, n - 1);
    }
}

} // verus!
