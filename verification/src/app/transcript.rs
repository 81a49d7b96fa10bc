//! Changing the tool calls of the transcript, and writing it out as text.

use vstd::prelude::*;
use crate::app::command::{input_only_tool, tool_shows_output};
use crate::app::history::{CallView, Entries, EntryView, HistoryEntry, TOOLBOX_VISIBLE, Timestamp, ToolCall, ToolCallState, call_views, entry_views, push_entry};
use crate::diff::{LineChange, LineTag, change_views, group_views, grouped_changes, grouped_diff, joined_groups};
use crate::nav::{min_int, min_usize, monus};
use crate::text::{blank, concat2, concat3, decimal, decimal_text, digit, is_blank, lines, lines_of, newline_parts, push_decimal, same, split_newlines, texts, trim_newlines, without_final_newlines};

verus! {

// ---- Tool calls -----------------------------------------------------------

/// Position of the last call `id` before `n`, or -1.
pub open spec fn last_call(calls: Seq<CallView>, id: Seq<char>, n: int) -> int
    decreases n,
{
    if n <= 0 {
        -1
    } else if calls[n - 1].call_id == id {
        n - 1
    } else {
        last_call(calls, id, n - 1)
    }
}

/// Whether an entry holds the call `id`.
pub open spec fn holds_call(e: EntryView, id: Seq<char>) -> bool {
    match e {
        EntryView::ToolBox { calls, .. } => last_call(calls, id, calls.len() as int) >= 0,
        EntryView::ToolLine { call_id, .. } => call_id == id,
        _ => false,
    }
}

/// Position of the last entry before `n` that holds the call `id`, or -1.
pub open spec fn last_tool(s: Entries, id: Seq<char>, n: int) -> int
    decreases n,
{
    if n <= 0 {
        -1
    } else if holds_call(s[n - 1], id) {
        n - 1
    } else {
        last_tool(s, id, n - 1)
    }
}

/// The output of a finished call as it is kept.
pub open spec fn kept_output(output: Seq<char>, truncated: bool) -> Seq<char> {
    if truncated {
        output + "\n… (output truncated)"@
    } else {
        output
    }
}

/// The text of an optional output and whether it was truncated.
pub open spec fn output_of(o: Option<(String, bool)>) -> Option<(Seq<char>, bool)> {
    match o {
        Some((t, truncated)) => Some((t@, truncated)),
        None => None,
    }
}

/// A call with a new state and, where its tool shows output, its output.
pub open spec fn call_updated(
    c: CallView,
    state: ToolCallState,
    output: Option<(Seq<char>, bool)>,
) -> CallView {
    CallView {
        state,
        output: match output {
            Some((out, truncated)) => if input_only_tool(c.tool) {
                c.output
            } else {
                kept_output(out, truncated)
            },
            None => c.output,
        },
        ..c
    }
}

/// An entry with the call `id` updated.
pub open spec fn entry_updated(
    e: EntryView,
    id: Seq<char>,
    state: ToolCallState,
    output: Option<(Seq<char>, bool)>,
) -> EntryView {
    match e {
        EntryView::ToolBox { calls, view_offset, follow, expanded } => {
            let k = last_call(calls, id, calls.len() as int);
            EntryView::ToolBox {
                calls: calls.update(k, call_updated(calls[k], state, output)),
                view_offset,
                follow,
                expanded,
            }
        },
        EntryView::ToolLine { call_id, tool, summary, .. } => EntryView::ToolLine {
            call_id,
            tool,
            summary,
            state,
        },
        _ => e,
    }
}

/// The transcript with the last call `id` updated; the transcript itself when
/// it holds no such call.
pub open spec fn tool_updated(
    s: Entries,
    id: Seq<char>,
    state: ToolCallState,
    output: Option<(Seq<char>, bool)>,
) -> Entries {
    let i = last_tool(s, id, s.len() as int);
    if i >= 0 {
        s.update(i, entry_updated(s[i], id, state, output))
    } else {
        s
    }
}

fn find_call(calls: &Vec<ToolCall>, id: &str) -> (r: Option<usize>)
    ensures
        match r {
            Some(k) => last_call(call_views(calls@), id@, calls@.len() as int) == k && k
                < calls@.len(),
            None => last_call(call_views(calls@), id@, calls@.len() as int) < 0,
        },
{
    let ghost all = call_views(calls@);
    let mut i: usize = calls.len();
    while i > 0
        invariant
            i <= calls@.len() == all.len(),
            all == call_views(calls@),
            last_call(all, id@, all.len() as int) == last_call(all, id@, i as int),
        decreases i,
    {
        proof {
            assert(all[i - 1] == calls@[i - 1]@);
        }
        if same(calls[i - 1].call_id.as_str(), id) {
            return Some(i - 1);
        }
        i = i - 1;
    }
    None
}

/// Update the last call `call_id`. Returns whether there is one.
pub fn update_tool_state(
    history: &mut Vec<HistoryEntry>,
    call_id: &str,
    state: ToolCallState,
    output: Option<(String, bool)>,
) -> (r: bool)
    ensures
        entry_views(final(history)@) == tool_updated(
            entry_views(old(history)@),
            call_id@,
            state,
            output_of(output),
        ),
        r == (last_tool(
            entry_views(old(history)@),
            call_id@,
            old(history)@.len() as int,
        ) >= 0),
{
    let ghost all = entry_views(history@);
    let ghost out_view = output_of(output);
    let mut i: usize = history.len();
    while i > 0
        invariant
            i <= history@.len() == all.len(),
            all == entry_views(history@),
            all == entry_views(old(history)@),
            out_view == output_of(output),
            last_tool(all, call_id@, all.len() as int) == last_tool(all, call_id@, i as int),
        decreases i,
    {
        proof {
            assert(all[i - 1] == history@[i - 1]@);
        }
        let mut in_box: Option<usize> = None;
        let mut on_line: bool = false;
        match &history[i - 1] {
            HistoryEntry::ToolBox { calls, .. } => {
                in_box = find_call(calls, call_id);
            },
            HistoryEntry::ToolLine { call_id: cid, .. } => {
                on_line = same(cid.as_str(), call_id);
            },
            _ => {},
        }
        match in_box {
            Some(k) => {
                let ghost before = all[i - 1];
                match &mut history[i - 1] {
                    HistoryEntry::ToolBox { calls, .. } => {
                        let ghost old_calls = call_views(calls@);
                        let shows: bool = tool_shows_output(calls[k].tool.as_str());
                        calls[k].state = state;
                        match output {
                            Some((out, truncated)) => {
                                if shows {
                                    calls[k].output = if truncated {
                                        concat2(out.as_str(), "\n… (output truncated)")
                                    } else {
                                        out
                                    };
                                }
                            },
                            None => {},
                        }
                        proof {
                            assert(call_views(calls@) =~= old_calls.update(
                                k as int,
                                call_updated(old_calls[k as int], state, out_view),
                            ));
                        }
                    },
                    _ => {},
                }
                proof {
                    assert(history@[i - 1]@ == entry_updated(before, call_id@, state, out_view));
                    assert(entry_views(history@) =~= tool_updated(all, call_id@, state, out_view));
                }
                return true;
            },
            None => {},
        }
        if on_line {
            match &mut history[i - 1] {
                HistoryEntry::ToolLine { state: st, .. } => {
                    *st = state;
                },
                _ => {},
            }
            proof {
                assert(entry_views(history@) =~= tool_updated(all, call_id@, state, out_view));
            }
            return true;
        }
        i = i - 1;
    }
    false
}

/// First call shown of `n`: the newest when following, else `offset` as far as
/// it goes.
pub open spec fn box_top(n: int, offset: int, follow: bool) -> int {
    let last = monus(n, TOOLBOX_VISIBLE as int);
    if follow {
        last
    } else {
        min_int(offset, last)
    }
}

/// First call shown of `n`.
pub fn toolbox_top(n: usize, offset: usize, follow: bool) -> (r: usize)
    ensures
        r == box_top(n as int, offset as int, follow),
{
    let last: usize = if n >= TOOLBOX_VISIBLE {
        n - TOOLBOX_VISIBLE
    } else {
        0
    };
    if follow {
        last
    } else {
        min_usize(offset, last)
    }
}

/// The transcript with a started call: in the box at its end, or in a new one.
pub open spec fn call_started(s: Entries, c: CallView) -> Entries {
    if s.len() > 0 && s.last() is ToolBox {
        let calls = s.last()->calls.push(c);
        s.update(
            s.len() - 1,
            EntryView::ToolBox {
                calls,
                view_offset: box_top(
                    calls.len() as int,
                    s.last()->view_offset,
                    s.last()->follow,
                ),
                follow: s.last()->follow,
                expanded: s.last()->ToolBox_expanded,
            },
        )
    } else {
        s.push(
            EntryView::ToolBox { calls: seq![c], view_offset: 0, follow: true, expanded: false },
        )
    }
}

/// Add a started call to the transcript.
pub fn start_call(history: &mut Vec<HistoryEntry>, call: ToolCall)
    ensures
        entry_views(final(history)@) == call_started(entry_views(old(history)@), call@),
{
    let ghost all = entry_views(history@);
    let n: usize = history.len();
    if n > 0 {
        proof {
            assert(all[n - 1] == history@[n - 1]@);
        }
        let open: bool = matches!(&history[n - 1], HistoryEntry::ToolBox { .. });
        if open {
            match &mut history[n - 1] {
                HistoryEntry::ToolBox { calls, view_offset, follow, .. } => {
                    let ghost old_calls = call_views(calls@);
                    calls.push(call);
                    let top: usize = toolbox_top(calls.len(), *view_offset, *follow);
                    *view_offset = top;
                    proof {
                        assert(call_views(calls@) =~= old_calls.push(call@));
                    }
                },
                _ => {},
            }
            proof {
                assert(entry_views(history@) =~= call_started(all, call@));
            }
            return;
        }
    }
    let mut calls: Vec<ToolCall> = Vec::new();
    calls.push(call);
    proof {
        assert(call_views(calls@) =~= seq![call@]);
    }
    push_entry(
        history,
        HistoryEntry::ToolBox { calls, view_offset: 0, follow: true, expanded: false },
    );
}

/// What the wheel does to a tool box: the box after it, and whether it moved.
/// Only a collapsed box with more calls than it shows moves, up to its first
/// call and down to its newest, where it follows again.
pub open spec fn box_scrolled(e: EntryView, up: bool) -> (EntryView, bool) {
    match e {
        EntryView::ToolBox { calls, view_offset, follow, expanded } => {
            let last = calls.len() - TOOLBOX_VISIBLE;
            let cur = if follow {
                last
            } else {
                min_int(view_offset, last)
            };
            if expanded || last <= 0 {
                (e, false)
            } else if up {
                if cur == 0 {
                    (e, false)
                } else {
                    (
                        EntryView::ToolBox {
                            calls,
                            view_offset: cur - 1,
                            follow: false,
                            expanded,
                        },
                        true,
                    )
                }
            } else if follow {
                (e, false)
            } else {
                (
                    EntryView::ToolBox {
                        calls,
                        view_offset: min_int(cur + 1, last),
                        follow: cur + 1 >= last,
                        expanded,
                    },
                    true,
                )
            }
        },
        _ => (e, false),
    }
}

/// The box scrolled up and down again shows what it showed.
pub proof fn box_scroll_returns(e: EntryView)
    requires
        e is ToolBox,
        !e->ToolBox_expanded,
        e->view_offset >= 0,
        box_scrolled(e, true).1,
    ensures
        ({
            let back = box_scrolled(box_scrolled(e, true).0, false).0;
            let n = e->calls.len() as int;
            &&& box_top(n, back->view_offset, back->follow) == box_top(
                n,
                e->view_offset,
                e->follow,
            )
            &&& back->calls == e->calls
        }),
{
}

/// Scroll the tool box at `idx` by one call. Returns whether it moved.
pub fn scroll_box(history: &mut Vec<HistoryEntry>, idx: usize, up: bool) -> (r: bool)
    ensures
        idx < old(history)@.len() ==> entry_views(final(history)@) == entry_views(
            old(history)@,
        ).update(idx as int, box_scrolled(entry_views(old(history)@)[idx as int], up).0)
            && r == box_scrolled(entry_views(old(history)@)[idx as int], up).1,
        idx >= old(history)@.len() ==> entry_views(final(history)@) == entry_views(old(history)@)
            && !r,
{
    if idx >= history.len() {
        return false;
    }
    let ghost all = entry_views(history@);
    proof {
        assert(all[idx as int] == history@[idx as int]@);
    }
    let mut moved: bool = false;
    match &mut history[idx] {
        HistoryEntry::ToolBox { calls, view_offset, follow, expanded } => {
            let n: usize = calls.len();
            if !*expanded && n > TOOLBOX_VISIBLE {
                let last: usize = n - TOOLBOX_VISIBLE;
                let cur: usize = if *follow {
                    last
                } else {
                    min_usize(*view_offset, last)
                };
                if up {
                    if cur > 0 {
                        *follow = false;
                        *view_offset = cur - 1;
                        moved = true;
                    }
                } else if !*follow {
                    let next: usize = cur + 1;
                    if next >= last {
                        *view_offset = last;
                        *follow = true;
                    } else {
                        *view_offset = next;
                    }
                    moved = true;
                }
            }
        },
        _ => {},
    }
    proof {
        assert(entry_views(history@) =~= all.update(
            idx as int,
            box_scrolled(all[idx as int], up).0,
        ));
    }
    moved
}

/// A tool box folded or unfolded; folded it follows its newest calls.
pub open spec fn box_toggled(e: EntryView) -> EntryView {
    match e {
        EntryView::ToolBox { calls, view_offset, follow, expanded } => EntryView::ToolBox {
            calls,
            view_offset,
            follow: follow || expanded,
            expanded: !expanded,
        },
        _ => e,
    }
}

/// Fold or unfold the tool box at `idx`. Returns whether there is one.
pub fn toggle_box(history: &mut Vec<HistoryEntry>, idx: usize) -> (r: bool)
    ensures
        idx < old(history)@.len() ==> entry_views(final(history)@) == entry_views(
            old(history)@,
        ).update(idx as int, box_toggled(entry_views(old(history)@)[idx as int])) && r == (
        entry_views(old(history)@)[idx as int] is ToolBox),
        idx >= old(history)@.len() ==> entry_views(final(history)@) == entry_views(old(history)@)
            && !r,
{
    if idx >= history.len() {
        return false;
    }
    let ghost all = entry_views(history@);
    proof {
        assert(all[idx as int] == history@[idx as int]@);
    }
    let mut found: bool = false;
    match &mut history[idx] {
        HistoryEntry::ToolBox { follow, expanded, .. } => {
            let was: bool = *expanded;
            *expanded = !was;
            if was {
                *follow = true;
            }
            found = true;
        },
        _ => {},
    }
    proof {
        assert(entry_views(history@) =~= all.update(idx as int, box_toggled(all[idx as int])));
    }
    found
}

/// An agent message or a delegation unfolded or folded.
pub open spec fn chip_toggled(e: EntryView) -> EntryView {
    match e {
        EntryView::Agent { name, text, reasoning, timestamp, expanded, think_duration } =>
            EntryView::Agent {
            name,
            text,
            reasoning,
            timestamp,
            expanded: !expanded,
            think_duration,
        },
        EntryView::Subagent { parent, child, spawned_at, outcome, expanded } =>
            EntryView::Subagent { parent, child, spawned_at, outcome, expanded: !expanded },
        _ => e,
    }
}

/// Fold or unfold the message or delegation at `idx`.
pub fn toggle_chip(history: &mut Vec<HistoryEntry>, idx: usize)
    ensures
        entry_views(final(history)@) == if idx < old(history)@.len() {
            entry_views(old(history)@).update(
                idx as int,
                chip_toggled(entry_views(old(history)@)[idx as int]),
            )
        } else {
            entry_views(old(history)@)
        },
{
    if idx >= history.len() {
        return;
    }
    let ghost all = entry_views(history@);
    proof {
        assert(all[idx as int] == history@[idx as int]@);
    }
    match &mut history[idx] {
        HistoryEntry::Agent { expanded, .. } => {
            let was: bool = *expanded;
            *expanded = !was;
        },
        HistoryEntry::Subagent { expanded, .. } => {
            let was: bool = *expanded;
            *expanded = !was;
        },
        _ => {},
    }
    proof {
        assert(entry_views(history@) =~= all.update(idx as int, chip_toggled(all[idx as int])));
    }
}

// ---- Reasoning ------------------------------------------------------------

/// Whether an entry has reasoning to show.
pub open spec fn has_reasoning(e: EntryView) -> bool {
    e is Agent && !is_blank(e->reasoning)
}

/// Whether some reasoning is folded.
pub open spec fn any_folded(s: Entries) -> bool {
    exists|i: int| 0 <= i < s.len() && has_reasoning(#[trigger] s[i]) && !s[i]->Agent_expanded
}

pub open spec fn any_reasoning(s: Entries) -> bool {
    exists|i: int| 0 <= i < s.len() && has_reasoning(#[trigger] s[i])
}

pub open spec fn reasoning_set(e: EntryView, on: bool) -> EntryView {
    match e {
        EntryView::Agent { name, text, reasoning, timestamp, think_duration, .. } => if is_blank(
            reasoning,
        ) {
            e
        } else {
            EntryView::Agent { name, text, reasoning, timestamp, expanded: on, think_duration }
        },
        _ => e,
    }
}

/// All reasoning unfolded if some of it was folded, else all of it folded.
pub open spec fn reasoning_toggled(s: Entries) -> Entries {
    s.map_values(|e: EntryView| reasoning_set(e, any_folded(s)))
}

/// Whether some message has reasoning, and whether some of it is folded.
pub fn scan_reasoning(history: &Vec<HistoryEntry>) -> (r: (bool, bool))
    ensures
        r.0 == any_reasoning(entry_views(history@)),
        r.1 == any_folded(entry_views(history@)),
{
    let ghost all = entry_views(history@);
    let mut some: bool = false;
    let mut folded: bool = false;
    let mut i: usize = 0;
    while i < history.len()
        invariant
            i <= history@.len() == all.len(),
            all == entry_views(history@),
            some == (exists|j: int| 0 <= j < i && has_reasoning(#[trigger] all[j])),
            folded == (exists|j: int|
                0 <= j < i && has_reasoning(#[trigger] all[j]) && !all[j]->Agent_expanded),
        decreases history@.len() - i,
    {
        proof {
            assert(all[i as int] == history@[i as int]@);
        }
        match &history[i] {
            HistoryEntry::Agent { reasoning, expanded, .. } => {
                if !blank(reasoning.as_str()) {
                    proof {
                        assert(has_reasoning(all[i as int]));
                    }
                    some = true;
                    if !*expanded {
                        folded = true;
                    }
                }
            },
            _ => {},
        }
        i = i + 1;
    }
    (some, folded)
}

/// Unfold all reasoning if some is folded, else fold all of it.
pub fn toggle_recent_reasoning(history: &mut Vec<HistoryEntry>)
    ensures
        entry_views(final(history)@) == reasoning_toggled(entry_views(old(history)@)),
{
    let ghost all = entry_views(history@);
    let (_some, on) = scan_reasoning(history);
    let n: usize = history.len();
    let mut i: usize = 0;
    while i < n
        invariant
            i <= n == history@.len() == all.len(),
            on == any_folded(all),
            all == entry_views(old(history)@),
            forall|j: int|
                0 <= j < i ==> (#[trigger] history@[j])@ == reasoning_set(all[j], on),
            forall|j: int| i <= j < n ==> (#[trigger] history@[j])@ == all[j],
        decreases n - i,
    {
        proof {
            assert(history@[i as int]@ == all[i as int]);
        }
        match &mut history[i] {
            HistoryEntry::Agent { reasoning, expanded, .. } => {
                if !blank(reasoning.as_str()) {
                    *expanded = on;
                }
            },
            _ => {},
        }
        i = i + 1;
    }
    proof {
        assert(entry_views(history@) =~= reasoning_toggled(all));
    }
}

// ---- Plain text -----------------------------------------------------------

/// Two digits.
pub open spec fn two_digits(n: u8) -> Seq<char> {
    seq![digit((n / 10 % 10) as nat), digit((n % 10) as nat)]
}

/// A time of day as `HH:MM`.
pub open spec fn clock_text(t: Timestamp) -> Seq<char> {
    two_digits(t.hour) + ":"@ + two_digits(t.minute)
}

fn push_two_digits(out: &mut String, n: u8)
    ensures
        final(out)@ == old(out)@ + two_digits(n),
{
    let tens: u8 = n / 10 % 10;
    let ones: u8 = n % 10;
    out.push((48 + tens) as char);
    out.push((48 + ones) as char);
    proof {
        assert(out@ =~= old(out)@ + two_digits(n));
    }
}

/// A time of day as `HH:MM`.
pub fn format_clock(t: Timestamp) -> (r: String)
    ensures
        r@ == clock_text(t),
{
    let mut out: String = String::new();
    push_two_digits(&mut out, t.hour);
    out.append(":");
    push_two_digits(&mut out, t.minute);
    proof {
        assert(out@ =~= clock_text(t));
    }
    out
}

/// A duration in its two largest units.
pub open spec fn duration_text(ms: int) -> Seq<char> {
    let s = ms / 1000;
    if s < 60 {
        decimal(s as nat) + "s"@
    } else if s < 3600 {
        decimal((s / 60) as nat) + "m "@ + decimal((s % 60) as nat) + "s"@
    } else {
        decimal((s / 3600) as nat) + "h "@ + decimal((s % 3600 / 60) as nat) + "m"@
    }
}

/// A duration in its two largest units.
pub fn format_compact_duration(ms: u64) -> (r: String)
    ensures
        r@ == duration_text(ms as int),
{
    let s: u64 = ms / 1000;
    let (a, a_unit, b, b_unit): (u64, &str, u64, &str) = if s < 60 {
        (s, "s", 0, "")
    } else if s < 3600 {
        (s / 60, "m ", s % 60, "s")
    } else {
        (s / 3600, "h ", s % 3600 / 60, "m")
    };
    let mut out: String = decimal_text(a);
    out.append(a_unit);
    if s >= 60 {
        push_decimal(&mut out, b);
        out.append(b_unit);
    }
    out
}

/// Every text of `v` behind `prefix`.
pub open spec fn prefixed(prefix: Seq<char>, v: Seq<Seq<char>>) -> Seq<Seq<char>> {
    v.map_values(|l: Seq<char>| prefix + l)
}

fn push_prefixed(out: &mut Vec<String>, prefix: &str, v: &Vec<String>)
    ensures
        texts(final(out)@) == texts(old(out)@) + prefixed(prefix@, texts(v@)),
{
    let ghost goal = prefixed(prefix@, texts(v@));
    let ghost head = texts(out@);
    let mut i: usize = 0;
    proof {
        assert(head + goal.take(0) =~= head);
    }
    while i < v.len()
        invariant
            i <= v@.len() == goal.len(),
            goal == prefixed(prefix@, texts(v@)),
            texts(out@) == head + goal.take(i as int),
        decreases v@.len() - i,
    {
        let ghost before = texts(out@);
        let line: String = concat2(prefix, v[i].as_str());
        out.push(line);
        proof {
            assert(texts(out@) =~= before.push(line@));
            assert(head + goal.take(i + 1) =~= (head + goal.take(i as int)).push(goal[i as int]));
        }
        i = i + 1;
    }
    proof {
        assert(goal.take(i as int) =~= goal);
    }
}

/// One line of a diff as text.
pub open spec fn diff_text_row(c: (LineTag, Seq<char>)) -> Seq<char> {
    "  "@ + (match c.0 {
        LineTag::Delete => "- "@,
        LineTag::Insert => "+ "@,
        LineTag::Equal => "  "@,
    }) + trim_newlines(c.1)
}

/// The groups of a diff as text behind `head`, with a mark where lines are left
/// out.
pub open spec fn diff_text_rows(
    head: Seq<Seq<char>>,
    groups: Seq<Seq<(LineTag, Seq<char>)>>,
) -> Seq<Seq<char>>
    decreases groups.len(),
{
    if groups.len() == 0 {
        head
    } else {
        let before = diff_text_rows(head, groups.drop_last());
        (if before.len() > 1 {
            before.push("    …"@)
        } else {
            before
        }) + groups.last().map_values(|c: (LineTag, Seq<char>)| diff_text_row(c))
    }
}

/// The head line of a diff as text.
pub open spec fn diff_head(
    tool: Seq<char>,
    path: Seq<char>,
    old_text: Seq<char>,
    new_text: Seq<char>,
) -> Seq<char> {
    "  ✓ "@ + tool + ": "@ + path + " (+"@ + decimal(lines_of(new_text).len()) + " −"@ + decimal(
        lines_of(old_text).len(),
    ) + ")"@
}

/// A diff as text, with its groups given.
pub fn diff_plain_lines(
    tool: &str,
    path: &str,
    old_text: &str,
    new_text: &str,
    groups: &Vec<Vec<LineChange>>,
) -> (r: Vec<String>)
    ensures
        texts(r@) == diff_text_rows(
            seq![diff_head(tool@, path@, old_text@, new_text@)],
            group_views(groups@),
        ),
{
    let mut head: String = concat3("  ✓ ", tool, ": ");
    head.append(path);
    head.append(" (+");
    push_decimal(&mut head, lines(new_text).len() as u64);
    head.append(" −");
    push_decimal(&mut head, lines(old_text).len() as u64);
    head.append(")");
    let ghost first = seq![head@];
    let mut out: Vec<String> = Vec::new();
    out.push(head);
    let ghost all = group_views(groups@);
    let mut i: usize = 0;
    proof {
        assert(all.take(0) =~= Seq::empty());
        assert(texts(out@) =~= first);
    }
    while i < groups.len()
        invariant
            i <= groups@.len(),
            all == group_views(groups@),
            texts(out@) == diff_text_rows(first, all.take(i as int)),
        decreases groups@.len() - i,
    {
        let group: &Vec<LineChange> = &groups[i];
        let ghost rows = change_views(group@).map_values(
            |c: (LineTag, Seq<char>)| diff_text_row(c),
        );
        let ghost start = texts(out@);
        proof {
            assert(all.take(i + 1).drop_last() =~= all.take(i as int));
            assert(all.take(i + 1).last() == change_views(group@));
        }
        if out.len() > 1 {
            out.push(String::from_str("    …"));
        }
        let ghost before = texts(out@);
        proof {
            if start.len() > 1 {
                assert(before =~= start.push("    …"@));
            }
            assert(before + rows.take(0) =~= before);
        }
        let mut k: usize = 0;
        while k < group.len()
            invariant
                k <= group@.len() == rows.len(),
                rows == change_views(group@).map_values(
                    |c: (LineTag, Seq<char>)| diff_text_row(c),
                ),
                texts(out@) == before + rows.take(k as int),
            decreases group@.len() - k,
        {
            let ghost now = texts(out@);
            let prefix: &str = match group[k].tag {
                LineTag::Delete => "- ",
                LineTag::Insert => "+ ",
                LineTag::Equal => "  ",
            };
            let value: String = without_final_newlines(group[k].value.as_str());
            let row: String = concat3("  ", prefix, value.as_str());
            out.push(row);
            proof {
                assert(texts(out@) =~= now.push(row@));
                assert(before + rows.take(k + 1) =~= (before + rows.take(k as int)).push(
                    rows[k as int],
                ));
            }
            k = k + 1;
        }
        proof {
            assert(rows.take(k as int) =~= rows);
        }
        i = i + 1;
    }
    proof {
        assert(all.take(i as int) =~= all);
    }
    out
}

/// A tool call as text, under the tool's own name.
pub open spec fn tool_text(tool: Seq<char>, summary: Seq<char>) -> Seq<char> {
    "  "@ + tool + ": "@ + summary
}

/// An entry as lines of text.
pub open spec fn plain_lines(e: EntryView) -> Seq<Seq<char>> {
    match e {
        EntryView::Plain { line } => seq![line],
        EntryView::LocalCommand { label, output, .. } => seq![label] + prefixed(
            "  "@,
            lines_of(output),
        ),
        EntryView::ToolLine { tool, summary, .. } => seq![tool_text(tool, summary)],
        EntryView::ToolBox { calls, .. } => calls.map_values(
            |c: CallView| tool_text(c.tool, c.summary),
        ),
        EntryView::Diff { tool, path, old_text, new_text } => diff_text_rows(
            seq![diff_head(tool, path, old_text, new_text)],
            joined_groups(grouped_diff(old_text, new_text, 3)),
        ),
        EntryView::User { text, timestamp } => seq!["["@ + clock_text(timestamp) + "] you:"@]
            + prefixed("  "@, newline_parts(text)),
        EntryView::Agent { name, text, reasoning, timestamp, expanded, .. } => seq![
            "["@ + clock_text(timestamp) + "] "@ + name + ":"@,
        ] + (if !is_blank(reasoning) && expanded {
            (seq!["  thinking:"@] + prefixed("    "@, lines_of(reasoning))).push(Seq::empty())
        } else {
            Seq::empty()
        }) + prefixed("  "@, newline_parts(text)),
        EntryView::Subagent { parent, child, outcome, .. } => match outcome {
            None => seq![parent + " delegated to "@ + child + "…"@],
            Some(o) => seq![
                child + (if o.failed {
                    " failed after "@
                } else {
                    " worked for "@
                }) + duration_text(o.duration as int),
            ] + prefixed("  "@, lines_of(o.report)),
        },
        EntryView::CompactBoundary { predecessor_short_id, seed_tool_count, .. } => seq![
            "── compacted from "@ + predecessor_short_id + " · "@ + decimal(seed_tool_count)
                + " seed-tool(s) re-run ──"@,
        ],
    }
}

fn one_line(s: String) -> (r: Vec<String>)
    ensures
        texts(r@) == seq![s@],
{
    let mut v: Vec<String> = Vec::new();
    v.push(s);
    proof {
        assert(texts(v@) =~= seq![s@]);
    }
    v
}

/// An entry as lines of text.
pub fn entry_to_plain_lines(entry: &HistoryEntry) -> (r: Vec<String>)
    ensures
        texts(r@) == plain_lines(entry@),
{
    match entry {
        HistoryEntry::Plain { line } => one_line(line.clone()),
        HistoryEntry::LocalCommand { label, output, .. } => {
            let mut out: Vec<String> = one_line(label.clone());
            let rows: Vec<String> = lines(output.as_str());
            push_prefixed(&mut out, "  ", &rows);
            out
        },
        HistoryEntry::ToolLine { tool, summary, .. } => {
            let mut s: String = concat3("  ", tool.as_str(), ": ");
            s.append(summary.as_str());
            one_line(s)
        },
        HistoryEntry::ToolBox { calls, .. } => {
            let ghost goal = call_views(calls@).map_values(
                |c: CallView| tool_text(c.tool, c.summary),
            );
            let mut out: Vec<String> = Vec::new();
            let mut i: usize = 0;
            proof {
                assert(texts(out@) =~= goal.take(0));
            }
            while i < calls.len()
                invariant
                    i <= calls@.len() == goal.len(),
                    goal == call_views(calls@).map_values(
                        |c: CallView| tool_text(c.tool, c.summary),
                    ),
                    texts(out@) == goal.take(i as int),
                decreases calls@.len() - i,
            {
                let ghost before = texts(out@);
                let mut s: String = concat3("  ", calls[i].tool.as_str(), ": ");
                s.append(calls[i].summary.as_str());
                out.push(s);
                proof {
                    assert(texts(out@) =~= before.push(s@));
                    assert(goal.take(i + 1) =~= before.push(goal[i as int]));
                }
                i = i + 1;
            }
            proof {
                assert(goal.take(i as int) =~= goal);
            }
            out
        },
        HistoryEntry::Diff { tool, path, old_text, new_text } => {
            let groups: Vec<Vec<LineChange>> = grouped_changes(
                old_text.as_str(),
                new_text.as_str(),
                3,
            );
            diff_plain_lines(
                tool.as_str(),
                path.as_str(),
                old_text.as_str(),
                new_text.as_str(),
                &groups,
            )
        },
        HistoryEntry::User { text, timestamp } => {
            let clock: String = format_clock(*timestamp);
            let mut out: Vec<String> = one_line(concat3("[", clock.as_str(), "] you:"));
            let rows: Vec<String> = split_newlines(text.as_str());
            push_prefixed(&mut out, "  ", &rows);
            out
        },
        HistoryEntry::Agent { name, text, reasoning, timestamp, expanded, .. } => {
            let clock: String = format_clock(*timestamp);
            let mut head: String = concat3("[", clock.as_str(), "] ");
            head.append(name.as_str());
            head.append(":");
            let mut out: Vec<String> = one_line(head);
            let ghost first = texts(out@);
            let ghost mut middle = Seq::<Seq<char>>::empty();
            if !blank(reasoning.as_str()) && *expanded {
                out.push(String::from_str("  thinking:"));
                proof {
                    assert(texts(out@) =~= first + seq!["  thinking:"@]);
                }
                let thoughts: Vec<String> = lines(reasoning.as_str());
                push_prefixed(&mut out, "    ", &thoughts);
                let ghost so_far = texts(out@);
                let empty: String = String::new();
                out.push(empty);
                proof {
                    assert(texts(out@) =~= so_far.push(empty@));
                    assert(so_far =~= first + (seq!["  thinking:"@] + prefixed(
                        "    "@,
                        lines_of(reasoning@),
                    )));
                    middle = (seq!["  thinking:"@] + prefixed(
                        "    "@,
                        lines_of(reasoning@),
                    )).push(Seq::empty());
                    assert(texts(out@) =~= first + middle);
                }
            } else {
                proof {
                    assert(first + middle =~= first);
                }
            }
            let rows: Vec<String> = split_newlines(text.as_str());
            push_prefixed(&mut out, "  ", &rows);
            out
        },
        HistoryEntry::Subagent { parent, child, outcome, .. } => match outcome {
            None => {
                let mut s: String = concat3(parent.as_str(), " delegated to ", child.as_str());
                s.append("…");
                one_line(s)
            },
            Some(o) => {
                let verb: &str = if o.failed {
                    " failed after "
                } else {
                    " worked for "
                };
                let took: String = format_compact_duration(o.duration);
                let mut out: Vec<String> = one_line(concat3(child.as_str(), verb, took.as_str()));
                let rows: Vec<String> = lines(o.report.as_str());
                push_prefixed(&mut out, "  ", &rows);
                out
            },
        },
        HistoryEntry::CompactBoundary { predecessor_short_id, seed_tool_count, .. } => {
            let mut s: String = concat3(
                "── compacted from ",
                predecessor_short_id.as_str(),
                " · ",
            );
            push_decimal(&mut s, *seed_tool_count as u64);
            s.append(" seed-tool(s) re-run ──");
            one_line(s)
        },
    }
}

/// An entry as lines of text, with an empty line behind a message.
pub open spec fn spaced_lines(e: EntryView) -> Seq<Seq<char>> {
    if e is User || e is Agent {
        plain_lines(e).push(Seq::empty())
    } else {
        plain_lines(e)
    }
}

/// The transcript as lines of text.
pub open spec fn transcript_lines(s: Entries) -> Seq<Seq<char>>
    decreases s.len(),
{
    if s.len() == 0 {
        Seq::empty()
    } else {
        transcript_lines(s.drop_last()) + spaced_lines(s.last())
    }
}

/// The last `limit` lines of the transcript: none for 0, all for less than 0.
pub open spec fn exit_tail(s: Entries, limit: int) -> Seq<Seq<char>> {
    let all = transcript_lines(s);
    if limit == 0 {
        Seq::empty()
    } else if limit < 0 || all.len() <= limit {
        all
    } else {
        all.skip(all.len() - limit)
    }
}

/// The tail is the end of the transcript and never longer than the limit.
pub proof fn exit_tail_is_bounded(s: Entries, limit: int)
    requires
        limit >= 0,
    ensures
        exit_tail(s, limit).len() <= limit,
        exit_tail(s, limit).len() <= transcript_lines(s).len(),
        exit_tail(s, limit) =~= transcript_lines(s).skip(
            transcript_lines(s).len() - exit_tail(s, limit).len(),
        ),
{
}

/// The lines that are printed on leaving.
pub fn exit_tail_lines(history: &Vec<HistoryEntry>, limit: i32) -> (r: Vec<String>)
    ensures
        texts(r@) == exit_tail(entry_views(history@), limit as int),
{
    let mut out: Vec<String> = Vec::new();
    proof {
        assert(texts(out@) =~= Seq::empty());
    }
    if limit == 0 {
        return out;
    }
    let ghost all = entry_views(history@);
    let mut i: usize = 0;
    proof {
        assert(all.take(0) =~= Entries::empty());
    }
    while i < history.len()
        invariant
            i <= history@.len() == all.len(),
            all == entry_views(history@),
            texts(out@) == transcript_lines(all.take(i as int)),
        decreases history@.len() - i,
    {
        let ghost before = texts(out@);
        proof {
            assert(all.take(i + 1).drop_last() =~= all.take(i as int));
            assert(all.take(i + 1).last() == history@[i as int]@);
        }
        let mut rows: Vec<String> = entry_to_plain_lines(&history[i]);
        let ghost plain = texts(rows@);
        if matches!(&history[i], HistoryEntry::User { .. } | HistoryEntry::Agent { .. }) {
            rows.push(String::new());
            proof {
                assert(texts(rows@) =~= plain.push(Seq::empty()));
            }
        }
        let ghost spaced = texts(rows@);
        out.append(&mut rows);
        proof {
            assert(texts(out@) =~= before + spaced);
        }
        i = i + 1;
    }
    proof {
        assert(all.take(i as int) =~= all);
    }
    if limit > 0 {
        let keep: usize = limit as usize;
        if out.len() > keep {
            let ghost whole = texts(out@);
            let cut_at: usize = out.len() - keep;
            let tail: Vec<String> = out.split_off(cut_at);
            proof {
                assert(texts(tail@) =~= whole.skip(whole.len() - limit));
            }
            return tail;
        }
    }
    out
}

} // verus!
