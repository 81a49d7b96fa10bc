//! Sizes: rows that entries take, tokens in the context, and what the chrome
//! says of them.

use vstd::prelude::*;
use crate::app::command::counts_as;
use crate::app::commands::{capped_percent, percent_of};
use crate::app::control::{working_message, working_message_text};
use crate::app::history::{CallView, Entries, EntryView, HistoryEntry, TOOLBOX_VISIBLE, ToolCall, call_views, entry_views};
use crate::app::state::{App, AppView};
use crate::app::transcript::{duration_text, format_compact_duration};
use crate::composer::{INPUT_PREFIX, VimMode, input_prefix_width};
use crate::decimal::{one_decimal, one_decimal_text};
use crate::editor::{AUTOCOMPLETE_ROWS, text_of};
use crate::nav::{max_int, min_int, monus};
use crate::style::{Color, Line, LineView, Span, Style, rawsp, sp};
use crate::text::{blank, concat2, concat3, count_char, count_upto, decimal, decimal_text, is_blank, lines, lines_of, newline_parts, push_decimal, split_newlines, texts, to_chars};
use crate::theme::MUTED_COLOR_INDEX;
use crate::width::display_width;

verus! {

/// Bounds of the composer's rows, and the rows of its border.
pub const MIN_INPUT_CONTENT: u16 = 1;

pub const MAX_INPUT_CONTENT: u16 = 6;

pub const INPUT_BORDER: u16 = 2;

/// Milliseconds before the working indicator shows.
pub const STATUS_GRACE: u64 = 2000;

/// Milliseconds before a block of reasoning shows as `Thinking`.
pub const THINKING_FLIP_AFTER: u64 = 2000;

// ---- Rows -----------------------------------------------------------------

/// A sum that stays within 16 bits.
pub open spec fn capped_rows(n: int) -> int {
    min_int(n, 0xffff)
}

/// Rows of a text: one more than its newlines, which are counted in 16 bits.
pub open spec fn text_rows(s: Seq<char>) -> int {
    capped_rows(count_char(s, '\n') as int % 0x10000 + 1)
}

/// Rows of a text as lines, counted in 16 bits.
pub open spec fn line_rows(s: Seq<char>) -> int {
    lines_of(s).len() as int % 0x10000
}

/// Rows of the calls of an open tool box.
pub open spec fn call_rows(calls: Seq<CallView>) -> int
    decreases calls.len(),
{
    if calls.len() == 0 {
        0
    } else {
        let c = calls.last();
        let with_input = capped_rows(call_rows(calls.drop_last()) + text_rows(c.full_input));
        if c.output.len() == 0 {
            with_input
        } else {
            capped_rows(with_input + text_rows(c.output))
        }
    }
}

/// Rows of a tool box: of its window when folded, of all calls when open, one at
/// least.
pub open spec fn box_height(calls: Seq<CallView>, expanded: bool) -> int {
    if expanded {
        max_int(call_rows(calls), 1)
    } else {
        max_int(min_int(calls.len() as int, TOOLBOX_VISIBLE as int), 1)
    }
}

/// Rows of a diff: both texts and a header.
pub open spec fn diff_height(old: Seq<char>, new: Seq<char>) -> int {
    capped_rows(capped_rows(text_rows(old) + text_rows(new)) + 1)
}

/// Rows of an entry and the gap behind it. An agent's message right after
/// another has no gap.
pub open spec fn entry_height(e: EntryView, after_agent: bool) -> int {
    match e {
        EntryView::Plain { .. } => 1,
        EntryView::CompactBoundary { .. } => 1,
        EntryView::LocalCommand { output, .. } => capped_rows(text_rows(output) + 1),
        EntryView::ToolLine { .. } => 2,
        EntryView::ToolBox { calls, expanded, .. } => capped_rows(
            box_height(calls, expanded) + 1,
        ),
        EntryView::Diff { old_text, new_text, .. } => diff_height(old_text, new_text),
        EntryView::User { text, .. } => capped_rows(text_rows(text) + 3),
        EntryView::Subagent { outcome, expanded, .. } => if expanded && outcome is Some {
            capped_rows(line_rows(outcome->0.report) + 1)
        } else {
            1
        },
        EntryView::Agent { text, reasoning, expanded, .. } => {
            let body = if expanded && !is_blank(reasoning) {
                capped_rows(capped_rows(text_rows(text) + 1) + line_rows(reasoning))
            } else {
                text_rows(text)
            };
            if after_agent {
                body
            } else {
                capped_rows(body + 1)
            }
        },
    }
}

/// Rows of an entry without the gap behind it. The chip of reasoning has a row
/// of its own.
pub open spec fn bare_height(e: EntryView) -> int {
    match e {
        EntryView::ToolLine { .. } => 1,
        EntryView::ToolBox { calls, expanded, .. } => box_height(calls, expanded),
        EntryView::User { text, .. } => capped_rows(text_rows(text) + 2),
        EntryView::Agent { text, reasoning, expanded, .. } => if is_blank(reasoning) {
            text_rows(text)
        } else if expanded {
            capped_rows(capped_rows(text_rows(text) + 1) + line_rows(reasoning))
        } else {
            capped_rows(text_rows(text) + 1)
        },
        _ => entry_height(e, true),
    }
}

/// Rows of the first `n` entries.
pub open spec fn history_height(s: Entries, n: int) -> int
    decreases n,
{
    if n <= 0 {
        0
    } else {
        capped_rows(
            history_height(s, n - 1) + entry_height(s[n - 1], n > 1 && s[n - 2] is Agent),
        )
    }
}

fn rows_sum(a: u16, b: u16) -> (r: u16)
    ensures
        r == capped_rows(a + b),
{
    if a > 0xffff - b {
        0xffff
    } else {
        a + b
    }
}

fn rows_in_text(s: &str) -> (r: u16)
    ensures
        r == text_rows(s@),
        r >= 1,
{
    let v: Vec<char> = to_chars(s);
    let n: usize = count_upto(&v, '\n', v.len());
    proof {
        assert(v@.take(v@.len() as int) =~= v@);
    }
    let m: u32 = (n % 0x10000) as u32;
    if m == 0xffff {
        0xffff
    } else {
        (m + 1) as u16
    }
}

fn rows_in_lines(s: &str) -> (r: u16)
    ensures
        r == line_rows(s@),
{
    let l: Vec<String> = lines(s);
    proof {
        assert(texts(l@).len() == l@.len());
    }
    (l.len() % 0x10000) as u16
}

/// Rows of a diff.
pub fn diff_row_estimate(old: &str, new: &str) -> (r: u16)
    ensures
        r == diff_height(old@, new@),
{
    rows_sum(rows_sum(rows_in_text(old), rows_in_text(new)), 1)
}

/// Rows of a tool box.
pub fn toolbox_row_estimate(calls: &Vec<ToolCall>, expanded: bool) -> (r: u16)
    ensures
        r == box_height(call_views(calls@), expanded),
{
    if !expanded {
        let n: usize = calls.len();
        return if n == 0 {
            1
        } else if n < TOOLBOX_VISIBLE {
            n as u16
        } else {
            TOOLBOX_VISIBLE as u16
        };
    }
    let ghost all = call_views(calls@);
    let mut rows: u16 = 0;
    let mut i: usize = 0;
    while i < calls.len()
        invariant
            i <= calls@.len() == all.len(),
            all == call_views(calls@),
            rows == call_rows(all.take(i as int)),
        decreases calls@.len() - i,
    {
        let c: &ToolCall = &calls[i];
        proof {
            assert(all.take(i + 1).drop_last() =~= all.take(i as int));
            assert(all.take(i + 1).last() == c@);
        }
        rows = rows_sum(rows, rows_in_text(c.full_input.as_str()));
        if c.output.as_str().unicode_len() > 0 {
            rows = rows_sum(rows, rows_in_text(c.output.as_str()));
        }
        i = i + 1;
    }
    proof {
        assert(all.take(i as int) =~= all);
    }
    if rows == 0 {
        1
    } else {
        rows
    }
}

/// Rows of an entry and the gap behind it.
pub fn entry_row_estimate(e: &HistoryEntry, after_agent: bool) -> (r: u16)
    ensures
        r == entry_height(e@, after_agent),
{
    match e {
        HistoryEntry::Plain { .. } => 1,
        HistoryEntry::CompactBoundary { .. } => 1,
        HistoryEntry::LocalCommand { output, .. } => rows_sum(rows_in_text(output.as_str()), 1),
        HistoryEntry::ToolLine { .. } => 2,
        HistoryEntry::ToolBox { calls, expanded, .. } => rows_sum(
            toolbox_row_estimate(calls, *expanded),
            1,
        ),
        HistoryEntry::Diff { old_text, new_text, .. } => diff_row_estimate(
            old_text.as_str(),
            new_text.as_str(),
        ),
        HistoryEntry::User { text, .. } => rows_sum(rows_in_text(text.as_str()), 3),
        HistoryEntry::Subagent { outcome, expanded, .. } => match outcome {
            Some(o) => if *expanded {
                rows_sum(rows_in_lines(o.report.as_str()), 1)
            } else {
                1
            },
            None => 1,
        },
        HistoryEntry::Agent { text, reasoning, expanded, .. } => {
            let mut rows: u16 = rows_in_text(text.as_str());
            if *expanded && !blank(reasoning.as_str()) {
                rows = rows_sum(rows_sum(rows, 1), rows_in_lines(reasoning.as_str()));
            }
            if after_agent {
                rows
            } else {
                rows_sum(rows, 1)
            }
        },
    }
}

/// Rows of an entry without the gap behind it.
pub fn entry_rendered_rows(e: &HistoryEntry) -> (r: u16)
    ensures
        r == bare_height(e@),
{
    match e {
        HistoryEntry::ToolLine { .. } => 1,
        HistoryEntry::ToolBox { calls, expanded, .. } => toolbox_row_estimate(calls, *expanded),
        HistoryEntry::User { text, .. } => rows_sum(rows_in_text(text.as_str()), 2),
        HistoryEntry::Agent { text, reasoning, expanded, .. } => {
            let mut rows: u16 = rows_in_text(text.as_str());
            if !blank(reasoning.as_str()) {
                rows = rows_sum(rows, 1);
                if *expanded {
                    rows = rows_sum(rows, rows_in_lines(reasoning.as_str()));
                }
            }
            rows
        },
        _ => entry_row_estimate(e, true),
    }
}

// ---- Tokens ---------------------------------------------------------------

/// The texts of an entry that count towards the context.
pub open spec fn counted_texts(e: EntryView) -> Seq<Seq<char>> {
    match e {
        EntryView::User { text, .. } => seq![text],
        EntryView::Plain { line } => seq![line],
        EntryView::ToolLine { summary, .. } => seq![summary],
        EntryView::ToolBox { calls, .. } => call_texts(calls),
        EntryView::Diff { old_text, new_text, .. } => seq![old_text, new_text],
        EntryView::Agent { text, reasoning, .. } => seq![text, reasoning],
        _ => Seq::empty(),
    }
}

pub open spec fn call_texts(calls: Seq<CallView>) -> Seq<Seq<char>>
    decreases calls.len(),
{
    if calls.len() == 0 {
        Seq::empty()
    } else {
        call_texts(calls.drop_last()).push(calls.last().summary).push(calls.last().output)
    }
}

/// The texts of the first `n` entries that count towards the context.
pub open spec fn history_texts(s: Entries, n: int) -> Seq<Seq<char>>
    decreases n,
{
    if n <= 0 {
        Seq::empty()
    } else {
        history_texts(s, n - 1) + counted_texts(s[n - 1])
    }
}

impl AppView {
    /// All texts that count towards the context.
    pub open spec fn context_texts(self) -> Seq<Seq<char>> {
        history_texts(self.history, self.history.len() as int) + match self.pending {
            Some(p) => seq![p.text, p.reasoning],
            None => Seq::empty(),
        }
    }
}

pub open spec fn total_of(counts: Seq<usize>) -> int
    decreases counts.len(),
{
    if counts.len() == 0 {
        0
    } else {
        total_of(counts.drop_last()) + counts.last()
    }
}

/// Whether `counts` are what `count` gives for the texts.
pub open spec fn counted_by<F: Fn(&str) -> usize>(
    count: F,
    t: Seq<Seq<char>>,
    counts: Seq<usize>,
) -> bool {
    &&& counts.len() == t.len()
    &&& forall|i: int| 0 <= i < t.len() ==> counts_as(count, t[i], #[trigger] counts[i])
}

/// Whether `r` is the number of tokens of the texts as `count` counts them, at
/// most 2^32 - 1.
pub open spec fn estimated_by<F: Fn(&str) -> usize>(
    count: F,
    t: Seq<Seq<char>>,
    r: u32,
) -> bool {
    exists|counts: Seq<usize>|
        counted_by(count, t, counts) && r == min_int(#[trigger] total_of(counts), u32::MAX as int)
}

fn push_text(v: &mut Vec<String>, s: &String)
    ensures
        texts(final(v)@) == texts(old(v)@).push(s@),
{
    let ghost before = texts(v@);
    v.push(s.clone());
    proof {
        assert(texts(v@) =~= before.push(s@));
    }
}

fn entry_texts(e: &HistoryEntry, out: &mut Vec<String>)
    ensures
        texts(final(out)@) == texts(old(out)@) + counted_texts(e@),
{
    let ghost before = texts(out@);
    match e {
        HistoryEntry::User { text, .. } => {
            push_text(out, text);
        },
        HistoryEntry::Plain { line } => {
            push_text(out, line);
        },
        HistoryEntry::ToolLine { summary, .. } => {
            push_text(out, summary);
        },
        HistoryEntry::ToolBox { calls, .. } => {
            let ghost all = call_views(calls@);
            let mut i: usize = 0;
            proof {
                assert(before + call_texts(all.take(0)) =~= before);
            }
            while i < calls.len()
                invariant
                    i <= calls@.len() == all.len(),
                    all == call_views(calls@),
                    texts(out@) == before + call_texts(all.take(i as int)),
                decreases calls@.len() - i,
            {
                let c: &ToolCall = &calls[i];
                proof {
                    assert(all.take(i + 1).drop_last() =~= all.take(i as int));
                    assert(all.take(i + 1).last() == c@);
                }
                push_text(out, &c.summary);
                push_text(out, &c.output);
                proof {
                    assert(texts(out@) =~= before + call_texts(all.take(i + 1)));
                }
                i = i + 1;
            }
            proof {
                assert(all.take(i as int) =~= all);
            }
        },
        HistoryEntry::Diff { old_text, new_text, .. } => {
            push_text(out, old_text);
            push_text(out, new_text);
        },
        HistoryEntry::Agent { text, reasoning, .. } => {
            push_text(out, text);
            push_text(out, reasoning);
        },
        _ => {},
    }
    proof {
        assert(texts(out@) =~= before + counted_texts(e@));
    }
}

/// Sum of the counts of texts, at most 2^32 - 1.
fn count_texts<F: Fn(&str) -> usize>(v: &Vec<String>, count: &F) -> (r: u32)
    requires
        forall|t: &str| count.requires((t,)),
    ensures
        estimated_by(*count, texts(v@), r),
{
    let ghost t = texts(v@);
    let ghost mut counts: Seq<usize> = Seq::empty();
    let mut sum: u32 = 0;
    let mut i: usize = 0;
    while i < v.len()
        invariant
            i <= v@.len() == t.len(),
            t == texts(v@),
            forall|t: &str| count.requires((t,)),
            counted_by(*count, t.take(i as int), counts),
            total_of(counts) >= 0,
            sum == min_int(total_of(counts), u32::MAX as int),
        decreases v@.len() - i,
    {
        let n: usize = count(v[i].as_str());
        proof {
            let before = counts;
            counts = counts.push(n);
            assert(counts.drop_last() =~= before);
            assert(counts_as(*count, t[i as int], n));
            assert forall|k: int| 0 <= k < i + 1 implies counts_as(
                *count,
                t.take(i + 1)[k],
                #[trigger] counts[k],
            ) by {
                if k < i {
                    assert(counts[k] == before[k]);
                    assert(t.take(i + 1)[k] == t.take(i as int)[k]);
                }
            }
        }
        sum = if n as u128 > (u32::MAX - sum) as u128 {
            u32::MAX
        } else {
            sum + n as u32
        };
        i = i + 1;
    }
    proof {
        assert(t.take(i as int) =~= t);
    }
    sum
}

/// `1234` as `1.2k`, `820` as `820`.
pub open spec fn token_text(n: int) -> Seq<char> {
    if n >= 1000 {
        one_decimal(n, 1000) + "k"@
    } else {
        decimal(n as nat)
    }
}

/// A count of tokens in short.
pub fn format_token_count(n: u32) -> (r: String)
    ensures
        r@ == token_text(n as int),
{
    if n >= 1000 {
        let t: String = one_decimal_text(n as u64, 1000);
        concat2(t.as_str(), "k")
    } else {
        decimal_text(n as u64)
    }
}

/// The size of the guidance file, on a chat where nothing was sent yet.
pub open spec fn guidance_label(
    history_empty: bool,
    has_usage: bool,
    estimate: Option<(Seq<char>, u64)>,
) -> Option<Seq<char>> {
    if !history_empty || has_usage || estimate is None {
        None
    } else {
        Some(
            token_text(min_int((estimate->0).1 as int, u32::MAX as int)) + " tokens in "@ + (
            estimate->0).0,
        )
    }
}

pub open spec fn file_estimate(e: Option<&(String, u64)>) -> Option<(Seq<char>, u64)> {
    match e {
        Some((file, tokens)) => Some((file@, *tokens)),
        None => None,
    }
}

/// The size of the guidance file, on a chat where nothing was sent yet.
pub fn fresh_chat_guidance_label(
    history_empty: bool,
    has_usage: bool,
    estimate: Option<&(String, u64)>,
) -> (r: Option<String>)
    ensures
        text_of(r) == guidance_label(history_empty, has_usage, file_estimate(estimate)),
{
    if !history_empty || has_usage {
        return None;
    }
    match estimate {
        None => None,
        Some((file, tokens)) => {
            let n: u32 = if *tokens > u32::MAX as u64 {
                u32::MAX
            } else {
                *tokens as u32
            };
            let count: String = format_token_count(n);
            Some(concat3(count.as_str(), " tokens in ", file.as_str()))
        },
    }
}

impl AppView {
    /// The size of the guidance file as far as it is known.
    pub open spec fn guidance_file(self) -> Option<(Seq<char>, u64)> {
        match self.guidance {
            Some(g) => match g.file {
                Some(f) => Some((f, g.guidance_tokens)),
                None => None,
            },
            None => None,
        }
    }

    /// What the composer says of the context.
    pub open spec fn indicator_text(self, estimate: u32) -> Seq<char> {
        match guidance_label(
            self.history.len() == 0,
            self.context.last_usage is Some,
            self.guidance_file(),
        ) {
            Some(label) => label,
            None => {
                let tokens = self.context_size(estimate);
                let max = match self.launch.active_model_max_context {
                    Some(m) => m as int,
                    None => 0,
                };
                if max > 0 {
                    decimal(capped_percent(tokens, max) as nat) + "% context (max "@ + decimal(
                        (max / 1000) as nat,
                    ) + "k), 0% prunable"@
                } else {
                    token_text(tokens) + " tokens, 0% prunable"@
                }
            },
        }
    }

    /// Milliseconds that the agent has been working, past the first moments.
    pub open spec fn span_elapsed(self, now: u64) -> Option<int> {
        if self.work.busy && self.work.span_started_at is Some && monus(
            now as int,
            self.work.span_started_at->0 as int,
        ) >= STATUS_GRACE {
            Some(monus(now as int, self.work.span_started_at->0 as int))
        } else {
            None
        }
    }

    /// Whether the model reasons and has not begun to answer.
    pub open spec fn thinking(self) -> bool {
        self.pending is Some && !is_blank(self.pending->0.reasoning)
            && self.pending->0.text_started_at is None
    }

    /// The line of the working indicator. While a lost connection is tried again
    /// it tells the attempt.
    pub open spec fn indicator_line(self, now: u64, dots: Seq<char>) -> Option<LineView> {
        match (self.span_elapsed(now), self.work.reconnect_attempt) {
            (None, _) => None,
            (Some(_), Some(n)) => Some(
                seq![
                    rawsp(" "@),
                    sp(
                        "reconnecting… attempt "@ + decimal(n as nat),
                        Style::fg(Color::Indexed(MUTED_COLOR_INDEX)).italic(),
                    ),
                ],
            ),
            (Some(elapsed), None) => {
                let block = monus(now as int, self.pending->0.started_at as int);
                let thinking = self.thinking() && block >= THINKING_FLIP_AFTER;
                let label = if thinking {
                    "Thinking"@
                } else {
                    working_message(self.work.working_msg_idx as int)
                };
                Some(
                    seq![
                        rawsp(" "@),
                        sp(
                            label + dots + " "@ + duration_text(
                                if thinking {
                                    block
                                } else {
                                    elapsed
                                },
                            ),
                            Style::fg(
                                if thinking {
                                    Color::Yellow
                                } else {
                                    Color::Indexed(MUTED_COLOR_INDEX)
                                },
                            ).italic(),
                        ),
                    ],
                )
            },
        }
    }
}


impl App {
    /// Rows that the transcript is expected to take.
    pub fn total_history_lines(&self) -> (r: u16)
        ensures
            r == capped_rows(
                history_height(self@.history, self@.history.len() as int) + if self@.pending
                    is Some {
                    1int
                } else {
                    0
                },
            ),
    {
        let ghost all = self@.history;
        let mut total: u16 = 0;
        let mut after_agent: bool = false;
        let mut i: usize = 0;
        while i < self.history.len()
            invariant
                i <= self.history@.len() == all.len(),
                all == entry_views(self.history@),
                after_agent == (i > 0 && all[i - 1] is Agent),
                total == history_height(all, i as int),
            decreases self.history@.len() - i,
        {
            proof {
                assert(all[i as int] == self.history@[i as int]@);
            }
            total = rows_sum(total, entry_row_estimate(&self.history[i], after_agent));
            after_agent = matches!(&self.history[i], HistoryEntry::Agent { .. });
            i = i + 1;
        }
        if self.pending.is_some() {
            total = rows_sum(total, 1);
        }
        total
    }

    /// Tokens of everything that is shown, as `count` counts them, 2^32 - 1 at
    /// most.
    pub fn estimate_context_tokens<F: Fn(&str) -> usize>(&self, count: F) -> (r: u32)
        requires
            forall|t: &str| #[trigger] count.requires((t,)),
        ensures
            estimated_by(count, self@.context_texts(), r),
    {
        let ghost all = self@.history;
        let mut out: Vec<String> = Vec::new();
        let mut i: usize = 0;
        proof {
            assert(texts(out@) =~= history_texts(all, 0));
        }
        while i < self.history.len()
            invariant
                i <= self.history@.len() == all.len(),
                all == entry_views(self.history@),
                texts(out@) == history_texts(all, i as int),
            decreases self.history@.len() - i,
        {
            proof {
                assert(all[i as int] == self.history@[i as int]@);
            }
            entry_texts(&self.history[i], &mut out);
            i = i + 1;
        }
        match &self.pending {
            Some(p) => {
                push_text(&mut out, &p.text);
                push_text(&mut out, &p.reasoning);
            },
            None => {},
        }
        proof {
            assert(texts(out@) =~= self@.context_texts());
        }
        count_texts(&out, &count)
    }

    /// What the composer says of the context, given an estimate.
    pub fn context_indicator_text(&self, estimate: u32) -> (r: String)
        ensures
            r@ == self@.indicator_text(estimate),
    {
        let file: Option<(String, u64)> = match &self.guidance {
            Some(g) => match &g.file {
                Some(f) => Some((f.clone(), g.guidance_tokens)),
                None => None,
            },
            None => None,
        };
        proof {
            assert(self@.history.len() == self.history@.len());
        }
        match fresh_chat_guidance_label(
            self.history.len() == 0,
            self.context.last_usage.is_some(),
            file.as_ref(),
        ) {
            Some(label) => {
                return label;
            },
            None => {},
        }
        let tokens: u32 = self.context_tokens(estimate);
        let max: u32 = match self.launch.active_model_max_context {
            Some(m) => m,
            None => 0,
        };
        if max > 0 {
            let mut out: String = decimal_text(percent_of(tokens as u64, max as u64));
            out.append("% context (max ");
            push_decimal(&mut out, (max / 1000) as u64);
            out.append("k), 0% prunable");
            out
        } else {
            let count: String = format_token_count(tokens);
            concat2(count.as_str(), " tokens, 0% prunable")
        }
    }

    /// Milliseconds that the agent has been working, once it has worked for more
    /// than the first moments.
    pub fn status_span_elapsed(&self, now: u64) -> (r: Option<u64>)
        ensures
            match r {
                Some(e) => self@.span_elapsed(now) == Some(e as int),
                None => self@.span_elapsed(now) is None,
            },
    {
        if !self.work.busy {
            return None;
        }
        match self.work.span_started_at {
            None => None,
            Some(at) => {
                let elapsed: u64 = since(now, at);
                if elapsed >= STATUS_GRACE {
                    Some(elapsed)
                } else {
                    None
                }
            },
        }
    }

    /// Rows of the working indicator.
    pub fn indicator_lines(&self, now: u64) -> (r: u16)
        ensures
            r == if self@.span_elapsed(now) is Some {
                1int
            } else {
                0
            },
    {
        if self.status_span_elapsed(now).is_some() {
            1
        } else {
            0
        }
    }

    /// Whether the model reasons and has not begun to answer.
    pub fn in_thinking_block(&self) -> (r: bool)
        ensures
            r == self@.thinking(),
    {
        match &self.pending {
            Some(p) => !blank(p.reasoning.as_str()) && p.text_started_at.is_none(),
            None => false,
        }
    }

    /// The line of the working indicator, with an animated ellipsis.
    pub fn status_indicator(&self, now: u64, dots: &str) -> (r: Option<Line>)
        ensures
            match r {
                Some(l) => self@.indicator_line(now, dots@) == Some(l@),
                None => self@.indicator_line(now, dots@) is None,
            },
    {
        let elapsed: u64 = match self.status_span_elapsed(now) {
            Some(e) => e,
            None => {
                return None;
            },
        };
        match self.work.reconnect_attempt {
            Some(n) => {
                let mut text: String = String::from_str("reconnecting… attempt ");
                push_decimal(&mut text, n as u64);
                let style = Style::fg(Color::Indexed(MUTED_COLOR_INDEX)).italic();
                let line = Line::of2(Span::raw(String::from_str(" ")), Span::styled(text, style));
                proof {
                    assert(line@ =~= self@.indicator_line(now, dots@)->0);
                }
                return Some(line);
            },
            None => {},
        }
        let block: u64 = match &self.pending {
            Some(p) => since(now, p.started_at),
            None => 0,
        };
        let thinking: bool = self.in_thinking_block() && block >= THINKING_FLIP_AFTER;
        let label: &str = if thinking {
            "Thinking"
        } else {
            working_message_text(self.work.working_msg_idx)
        };
        let time: String = format_compact_duration(
            if thinking {
                block
            } else {
                elapsed
            },
        );
        let mut text: String = concat3(label, dots, " ");
        text.append(time.as_str());
        let style = Style::fg(
            if thinking {
                Color::Yellow
            } else {
                Color::Indexed(MUTED_COLOR_INDEX)
            },
        ).italic();
        let line = Line::of2(Span::raw(String::from_str(" ")), Span::styled(text, style));
        proof {
            assert(line@ =~= self@.indicator_line(now, dots@)->0);
        }
        Some(line)
    }

    /// Rows of the queue of messages: one each, and the borders.
    pub fn queue_lines(&self) -> (r: u16)
        ensures
            r == if self@.editor.queue.len() == 0 {
                0int
            } else {
                capped_rows(self@.editor.queue.len() as int % 0x10000 + 2)
            },
    {
        let n: usize = self.editor.queue.len();
        if n == 0 {
            0
        } else {
            rows_sum((n % 0x10000) as u16, 2)
        }
    }

    /// Whether the hint for Normal mode shows.
    pub fn show_vim_hint(&self) -> (r: bool)
        ensures
            r == self@.vim_hint(),
    {
        self.settings.vim.show_hint() && self.editor.composer.vim_enabled() && matches!(
            self.editor.composer.vim_mode(),
            VimMode::Normal
        )
    }

    /// Rows of the popup below the composer.
    pub fn popup_lines(&self) -> (r: u16)
        requires
            self.wf(),
        ensures
            r == if self@.editor.slash_query() is Some || self@.editor.at_popup_active() {
                AUTOCOMPLETE_ROWS as int
            } else if self@.vim_hint() {
                1
            } else {
                0
            },
    {
        if self.editor.slash_query().is_some() || self.editor.at_popup_active() {
            AUTOCOMPLETE_ROWS
        } else if self.show_vim_hint() {
            1
        } else {
            0
        }
    }

    /// Rows of the composer on a terminal `columns` wide, its border included.
    pub fn input_height(&self, columns: u16) -> (r: u16)
        requires
            self.wf(),
        ensures
            r == composer_height(
                self@.editor.composer.text,
                display_width(INPUT_PREFIX@) as int,
                columns as int,
            ),
            MIN_INPUT_CONTENT + INPUT_BORDER <= r <= MAX_INPUT_CONTENT + INPUT_BORDER,
    {
        let width: u128 = if columns > 3 {
            (columns - 2) as u128
        } else {
            1
        };
        let prefix: u128 = input_prefix_width() as u128;
        let text: String = self.editor.composer.text();
        let parts: Vec<String> = split_newlines(text.as_str());
        let ghost all = newline_parts(text@);
        let mut rows: usize = 0;
        let mut i: usize = 0;
        while i < parts.len()
            invariant
                i <= parts@.len() == all.len(),
                all == texts(parts@),
                1 <= width <= 0xffff,
                prefix <= usize::MAX,
                rows == min_int(
                    rows_needed(all, i as int, prefix as int, width as int),
                    usize::MAX as int,
                ),
                rows_needed(all, i as int, prefix as int, width as int) >= 0,
            decreases parts@.len() - i,
        {
            proof {
                assert(all[i as int] == parts@[i as int]@);
            }
            let cells: u128 = prefix + parts[i].as_str().unicode_len() as u128;
            let n: u128 = if cells == 0 {
                1
            } else {
                (cells - 1) / width + 1
            };
            proof {
                assert((cells - 1) / width as int <= cells - 1 || cells == 0) by (nonlinear_arith)
                    requires
                        width >= 1,
                ;
            }
            rows = if n > (usize::MAX - rows) as u128 {
                usize::MAX
            } else {
                rows + n as usize
            };
            i = i + 1;
        }
        let m: u16 = (rows % 0x10000) as u16;
        let content: u16 = if m < MIN_INPUT_CONTENT {
            MIN_INPUT_CONTENT
        } else if m > MAX_INPUT_CONTENT {
            MAX_INPUT_CONTENT
        } else {
            m
        };
        content + INPUT_BORDER
    }
}

fn since(now: u64, at: u64) -> (r: u64)
    ensures
        r == monus(now as int, at as int),
{
    if now > at {
        now - at
    } else {
        0
    }
}

impl AppView {
    pub open spec fn vim_hint(self) -> bool {
        self.settings.vim is Hint && self.editor.composer.vim_enabled
            && self.editor.composer.vim_mode is Normal
    }
}

/// Rows that a text of `n` characters behind a prefix takes, one at least.
pub open spec fn rows_for(n: int, prefix: int, width: int) -> int {
    if prefix + n == 0 {
        1
    } else {
        (prefix + n - 1) / width + 1
    }
}

pub open spec fn rows_needed(lines: Seq<Seq<char>>, n: int, prefix: int, width: int) -> int
    decreases n,
{
    if n <= 0 {
        0
    } else {
        rows_needed(lines, n - 1, prefix, width) + rows_for(
            lines[n - 1].len() as int,
            prefix,
            width,
        )
    }
}

/// Rows of the composer: those of its text, within bounds, and its border.
pub open spec fn composer_height(text: Seq<char>, prefix: int, columns: int) -> int {
    let width = max_int(monus(columns, 2), 1);
    let lines = newline_parts(text);
    let rows = min_int(
        rows_needed(lines, lines.len() as int, prefix, width),
        usize::MAX as int,
    ) % 0x10000;
    max_int(min_int(rows, MAX_INPUT_CONTENT as int), MIN_INPUT_CONTENT as int) + INPUT_BORDER
}

} // verus!
