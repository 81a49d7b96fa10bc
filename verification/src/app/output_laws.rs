//! What is written: the lines of the transcript, of commands and of tools.

use vstd::prelude::*;
use crate::app::command::{ToolArgsView, budget, capped_lines, csi_end, edit_of, edit_tool, escape_end, escaped, git_block_text, input_only_tool, invocation, json_args, merged_output, osc_end, plain_from, plain_text, truncation_note, write_tool};
use crate::app::commands::stop_requests;
use crate::app::fetch::{FetchView, OnUnlistedModels, OutcomeOfProvider, merged_models, outcome_line};
use crate::app::history::{Entries, EntryView, Timestamp, turns_of};
use crate::app::jobs::{JobSeq, job_line, position_of_job};
use crate::app::request::{CancelCommand, RequestView};
use crate::app::state::AppView;
use crate::app::transcript::{clock_text, diff_head, diff_text_row, diff_text_rows, duration_text, exit_tail, plain_lines, reasoning_toggled, transcript_lines, two_digits};
use crate::app::upkeep::{ends_with_text, tells_of_models, without_one_newline};
use crate::diff::LineTag;
use crate::text::{decimal, first_line_of, has_char, is_blank, joined, lines_of, newline_parts, trim, trim_newlines};
use crate::text_laws::{first_lines_begin_the_text, number_of, texts_hold_their_pieces};

verus! {

// ---- Tool calls -----------------------------------------------------------

proof fn lemma_tool_words()
    ensures
        "bash"@.len() == 4 && "bash"@[0] == 'b',
        "read"@.len() == 4 && "read"@[0] == 'r',
        "edit"@.len() == 4 && "edit"@[0] == 'e',
        "write"@.len() == 5,
        "unlock"@.len() == 6,
        "readlock"@.len() == 8 && "readlock"@[0] == 'r',
        "webfetch"@.len() == 8 && "webfetch"@[0] == 'w',
        "editunlock"@.len() == 10,
        "writeunlock"@.len() == 11,
{
    reveal_strlit("bash");
    reveal_strlit("read");
    reveal_strlit("edit");
    reveal_strlit("write");
    reveal_strlit("unlock");
    reveal_strlit("readlock");
    reveal_strlit("webfetch");
    reveal_strlit("editunlock");
    reveal_strlit("writeunlock");
}

/// A call is summed up by what it is about: the first line of a shell command, with a
/// mark where more follow, the path of a file, the address of a page, and else all its
/// arguments on one line. The full input is the whole command.
pub proof fn calls_are_summed_up(tool: Seq<char>, args: ToolArgsView)
    ensures
        ({
            let (summary, full) = invocation(tool, args);
            let file = tool == "read"@ || tool == "readlock"@ || tool == "unlock"@ || tool
                == "write"@ || tool == "writeunlock"@ || tool == "edit"@ || tool == "editunlock"@;
            &&& tool == "bash"@ && args.command is Some ==> full == args.command->0
            &&& tool == "bash"@ && args.command is Some && !args.command->0.contains('\n')
                ==> summary == args.command->0
            &&& tool == "bash"@ && args.command is Some && args.command->0.contains('\n')
                ==> summary == first_line_of(args.command->0) + " …"@
            &&& tool == "bash"@ && args.command is None ==> full.len() == 0
            &&& file && args.path is Some ==> summary == args.path->0 && full == args.path->0
            &&& file && args.path is None ==> summary == args.short && full == args.short
            &&& tool == "webfetch"@ && args.url is Some ==> summary == args.url->0 && full
                == args.url->0
            &&& tool == "webfetch"@ && args.url is None ==> summary == args.short && full
                == args.short
            &&& !file && tool != "bash"@ && tool != "webfetch"@ ==> summary == args.short && full
                == args.short
        }),
{
    lemma_tool_words();
    if args.command is Some {
        first_lines_begin_the_text(args.command->0);
        let c = args.command->0;
        if has_char(c, '\n') {
            let i = choose|i: int| 0 <= i < c.len() && c[i] == '\n';
            assert(c.contains('\n'));
        }
    }
}

/// Which tools write, which edit, and of which the output is not kept.
pub proof fn tools_are_sorted(tool: Seq<char>)
    ensures
        write_tool(tool) <==> tool == "write"@ || tool == "writeunlock"@,
        edit_tool(tool) <==> tool == "edit"@ || tool == "editunlock"@,
        input_only_tool(tool) <==> tool == "read"@ || tool == "readlock"@ || tool == "unlock"@,
        !(write_tool(tool) && edit_tool(tool)),
{
    lemma_tool_words();
}

/// An edit shows as a diff where its path and both its texts are there.
pub proof fn edits_need_all_their_parts(args: ToolArgsView)
    ensures
        edit_of(args) is Some <==> args.path is Some && args.old_string is Some
            && args.new_string is Some,
        edit_of(args) is Some ==> edit_of(args)->0.path == args.path->0 && edit_of(args)->0.old
            == args.old_string->0 && edit_of(args)->0.new == args.new_string->0,
{
}

/// The arguments of a call are its members of those names.
pub proof fn arguments_are_members(m: Map<Seq<char>, Seq<char>>, short: Seq<char>)
    ensures
        ({
            let a = json_args(m, short);
            &&& a.short == short
            &&& m.dom().contains("command"@) ==> a.command == Some(m["command"@])
            &&& m.dom().contains("path"@) ==> a.path == Some(m["path"@])
            &&& m.dom().contains("url"@) ==> a.url == Some(m["url"@])
            &&& m.dom().contains("old_string"@) ==> a.old_string == Some(m["old_string"@])
            &&& m.dom().contains("new_string"@) ==> a.new_string == Some(m["new_string"@])
            &&& !m.dom().contains("command"@) ==> a.command is None
            &&& !m.dom().contains("path"@) ==> a.path is None
            &&& !m.dom().contains("url"@) ==> a.url is None
            &&& !m.dom().contains("old_string"@) ==> a.old_string is None
            &&& !m.dom().contains("new_string"@) ==> a.new_string is None
        }),
{
}

// ---- Output of commands ---------------------------------------------------

proof fn lemma_csi_shift(p: Seq<char>, b: Seq<char>, i: int)
    requires
        0 <= i <= b.len(),
    ensures
        csi_end(p + b, p.len() + i) == p.len() + csi_end(b, i),
        i <= csi_end(b, i) <= b.len(),
    decreases b.len() - i,
{
    if i < b.len() {
        assert((p + b)[p.len() + i] == b[i]);
        if !('\x40' <= b[i] && b[i] <= '\x7e') {
            lemma_csi_shift(p, b, i + 1);
        }
    }
}

proof fn lemma_osc_shift(p: Seq<char>, b: Seq<char>, i: int)
    requires
        0 <= i <= b.len(),
    ensures
        osc_end(p + b, p.len() + i) == p.len() + osc_end(b, i),
        i <= osc_end(b, i) <= b.len(),
    decreases b.len() - i,
{
    if i < b.len() {
        assert((p + b)[p.len() + i] == b[i]);
        if i + 1 < b.len() {
            assert((p + b)[p.len() + i + 1] == b[i + 1]);
        }
        if b[i] != '\x07' && b[i] != '\x1b' {
            lemma_osc_shift(p, b, i + 1);
        }
    }
}

proof fn lemma_escape_shift(p: Seq<char>, b: Seq<char>, i: int)
    requires
        0 <= i < b.len(),
    ensures
        escape_end(p + b, p.len() + i) == p.len() + escape_end(b, i),
        i < escape_end(b, i) <= b.len(),
{
    if i + 1 < b.len() {
        assert((p + b)[p.len() + i + 1] == b[i + 1]);
        lemma_csi_shift(p, b, i + 2);
        lemma_osc_shift(p, b, i + 2);
    }
}

proof fn lemma_plain_shift(p: Seq<char>, b: Seq<char>, i: int, f: nat, g: nat)
    requires
        0 <= i <= b.len(),
        f >= b.len() - i,
        g >= b.len() - i,
    ensures
        plain_from(p + b, p.len() + i, f) == plain_from(b, i, g),
    decreases b.len() - i,
{
    if i < b.len() {
        assert((p + b)[p.len() + i] == b[i]);
        if b[i] == '\x1b' {
            lemma_escape_shift(p, b, i);
            lemma_plain_shift(p, b, escape_end(b, i), (f - 1) as nat, (g - 1) as nat);
        } else {
            lemma_plain_shift(p, b, i + 1, (f - 1) as nat, (g - 1) as nat);
        }
    }
}

proof fn lemma_plain_front(a: Seq<char>, b: Seq<char>, i: int, f: nat)
    requires
        0 <= i <= a.len(),
        f >= a.len() + b.len() - i,
        forall|k: int| 0 <= k < a.len() ==> #[trigger] a[k] != '\x1b' && a[k] != '\r',
    ensures
        plain_from(a + b, i, f) == a.skip(i) + plain_text(b),
    decreases a.len() - i,
{
    if i < a.len() {
        assert((a + b)[i] == a[i]);
        lemma_plain_front(a, b, i + 1, (f - 1) as nat);
        assert(seq![a[i]] + (a.skip(i + 1) + plain_text(b)) =~= a.skip(i) + plain_text(b));
    } else {
        lemma_plain_shift(a, b, 0, f, b.len());
        assert(a.skip(i) + plain_text(b) =~= plain_text(b));
    }
}

proof fn lemma_csi_stops(s: Seq<char>, i: int, n: int)
    requires
        0 <= i <= n < s.len(),
        forall|k: int| i <= k < n ==> !('\x40' <= #[trigger] s[k] && s[k] <= '\x7e'),
        '\x40' <= s[n] && s[n] <= '\x7e',
    ensures
        csi_end(s, i) == n + 1,
    decreases n - i,
{
    if i < n {
        lemma_csi_stops(s, i + 1, n);
    }
}

proof fn lemma_osc_stops(s: Seq<char>, i: int, n: int)
    requires
        0 <= i <= n < s.len(),
        forall|k: int| i <= k < n ==> #[trigger] s[k] != '\x07' && s[k] != '\x1b',
        s[n] == '\x07' || s[n] == '\x1b',
    ensures
        osc_end(s, i) == if s[n] == '\x1b' && n + 1 < s.len() && s[n + 1] == '\\' {
            n + 2
        } else {
            n + 1
        },
    decreases n - i,
{
    if i < n {
        lemma_osc_stops(s, i + 1, n);
    }
}

/// A control sequence goes out of a text whole, from its escape to its final letter, and
/// what stands before it and behind it stays.
pub proof fn control_sequences_go(
    a: Seq<char>,
    parameters: Seq<char>,
    last: char,
    b: Seq<char>,
)
    requires
        forall|k: int| 0 <= k < a.len() ==> #[trigger] a[k] != '\x1b' && a[k] != '\r',
        forall|k: int|
            0 <= k < parameters.len() ==> !('\x40' <= #[trigger] parameters[k] && parameters[k]
                <= '\x7e'),
        '\x40' <= last && last <= '\x7e',
    ensures
        plain_text(a + (seq!['\x1b', '['] + parameters + seq![last] + b)) == a + plain_text(b),
{
    let e = seq!['\x1b', '['] + parameters + seq![last];
    let n = parameters.len() as int;
    let s = e + b;
    lemma_plain_front(a, s, 0, (a + s).len());
    assert(a.skip(0) =~= a);
    assert(s[0] == '\x1b' && s[1] == '[');
    assert forall|k: int| 2 <= k < n + 2 implies !('\x40' <= #[trigger] s[k] && s[k] <= '\x7e') by {
        assert(s[k] == parameters[k - 2]);
    }
    assert(s[n + 2] == last);
    lemma_csi_stops(s, 2, n + 2);
    assert(escape_end(s, 0) == e.len());
    lemma_plain_shift(e, b, 0, (s.len() - 1) as nat, b.len());
}

/// A command to the terminal goes out of a text whole, up to the bell or the string
/// terminator that ends it.
pub proof fn terminal_commands_go(a: Seq<char>, command: Seq<char>, b: Seq<char>)
    requires
        forall|k: int| 0 <= k < a.len() ==> #[trigger] a[k] != '\x1b' && a[k] != '\r',
        forall|k: int|
            0 <= k < command.len() ==> #[trigger] command[k] != '\x07' && command[k] != '\x1b',
    ensures
        plain_text(a + (seq!['\x1b', ']'] + command + seq!['\x07'] + b)) == a + plain_text(b),
        plain_text(a + (seq!['\x1b', ']'] + command + seq!['\x1b', '\\'] + b)) == a + plain_text(
            b,
        ),
{
    let n = command.len() as int;
    assert(a.skip(0) =~= a);
    let e = seq!['\x1b', ']'] + command + seq!['\x07'];
    let s = e + b;
    lemma_plain_front(a, s, 0, (a + s).len());
    assert(s[0] == '\x1b' && s[1] == ']' && s[n + 2] == '\x07');
    assert forall|k: int| 2 <= k < n + 2 implies #[trigger] s[k] != '\x07' && s[k] != '\x1b' by {
        assert(s[k] == command[k - 2]);
    }
    lemma_osc_stops(s, 2, n + 2);
    assert(escape_end(s, 0) == e.len());
    lemma_plain_shift(e, b, 0, (s.len() - 1) as nat, b.len());
    let f = seq!['\x1b', ']'] + command + seq!['\x1b', '\\'];
    let t = f + b;
    lemma_plain_front(a, t, 0, (a + t).len());
    assert(t[0] == '\x1b' && t[1] == ']' && t[n + 2] == '\x1b' && t[n + 3] == '\\');
    assert forall|k: int| 2 <= k < n + 2 implies #[trigger] t[k] != '\x07' && t[k] != '\x1b' by {
        assert(t[k] == command[k - 2]);
    }
    lemma_osc_stops(t, 2, n + 2);
    assert(escape_end(t, 0) == f.len());
    lemma_plain_shift(f, b, 0, (t.len() - 1) as nat, b.len());
}

/// Other escapes go with the one character behind them, and carriage returns go alone.
pub proof fn other_escapes_go(a: Seq<char>, c: char, b: Seq<char>)
    requires
        forall|k: int| 0 <= k < a.len() ==> #[trigger] a[k] != '\x1b' && a[k] != '\r',
        c != '[' && c != ']',
    ensures
        plain_text(a + (seq!['\x1b', c] + b)) == a + plain_text(b),
        plain_text(a + (seq!['\r'] + b)) == a + plain_text(b),
{
    assert(a.skip(0) =~= a);
    let e = seq!['\x1b', c];
    let s = e + b;
    lemma_plain_front(a, s, 0, (a + s).len());
    assert(s[0] == '\x1b' && s[1] == c);
    assert(escape_end(s, 0) == 2);
    lemma_plain_shift(e, b, 0, (s.len() - 1) as nat, b.len());
    let r = seq!['\r'];
    let t = r + b;
    lemma_plain_front(a, t, 0, (a + t).len());
    assert(t[0] == '\r');
    lemma_plain_shift(r, b, 0, (t.len() - 1) as nat, b.len());
}

/// Up to a hundred lines of output are shown as they are, without the newlines at their
/// end. Of more the first hundred are shown, and how many there are besides.
pub proof fn long_output_is_cut(s: Seq<char>)
    ensures
        lines_of(s).len() <= 100 ==> capped_lines(s) == trim_newlines(s),
        lines_of(s).len() > 100 ==> capped_lines(s) == joined(lines_of(s).take(100), "\n"@)
            + "\n… ["@ + decimal((lines_of(s).len() - 100) as nat)
            + " more lines — re-run in a real terminal for full output]"@,
{
}

/// Output for the agent is tried with four characters for a token, at least 64, and each
/// further try has three quarters of the one before.
pub proof fn tries_get_shorter(tokens: int, k: nat)
    requires
        0 <= tokens,
        4 * tokens <= usize::MAX,
    ensures
        budget(tokens, 0) == if 4 * tokens >= 64 {
            4 * tokens
        } else {
            64
        },
        budget(tokens, k + 1) == budget(tokens, k) * 3 / 4,
        truncation_note(tokens as nat) == "\n… [truncated to ~"@ + decimal(tokens as nat)
            + " tokens]"@,
{
}

/// Escaping goes character by character: `&`, `<`, `>` and the quote are written out, and
/// all other characters stand for themselves.
pub proof fn attributes_are_escaped(s: Seq<char>, c: char)
    ensures
        escaped(Seq::empty()).len() == 0,
        escaped(s.push(c)) == escaped(s) + (if c == '&' {
            "&amp;"@
        } else if c == '<' {
            "&lt;"@
        } else if c == '>' {
            "&gt;"@
        } else if c == '"' {
            "&quot;"@
        } else {
            seq![c]
        }),
{
    assert(s.push(c).drop_last() =~= s);
}

/// The agent gets the output of git between tags that name the command.
pub proof fn git_output_is_tagged(args: Seq<char>, output: Seq<char>)
    ensures
        git_block_text(args, output) == "<git cmd=\""@ + escaped(args) + "\">\n"@ + output
            + "\n</git>"@,
{
}

/// The error output follows the output, on a line of its own.
pub proof fn errors_follow_the_output(out: Seq<char>, err: Seq<char>)
    ensures
        err.len() == 0 ==> merged_output(out, err) == out,
        out.len() == 0 ==> merged_output(out, err) == err,
        err.len() > 0 && out.len() > 0 && out[out.len() - 1] == '\n' ==> merged_output(out, err)
            == out + err,
        err.len() > 0 && out.len() > 0 && out[out.len() - 1] != '\n' ==> merged_output(out, err)
            == out + seq!['\n'] + err,
{
    if err.len() == 0 && out.len() == 0 {
        assert(out =~= err);
    }
    assert(out.push('\n') + err =~= out + seq!['\n'] + err);
    if out.len() == 0 {
        assert(out + err =~= err);
    }
}

// ---- Times ----------------------------------------------------------------

/// A duration is told in its two largest units: hours and minutes, minutes and seconds,
/// or seconds alone.
pub proof fn durations_are_told_in_two_units(h: int, m: int, s: int, ms: int)
    requires
        0 <= h,
        0 <= m < 60,
        0 <= s < 60,
        0 <= ms < 1000,
    ensures
        ({
            let text = duration_text(3600000 * h + 60000 * m + 1000 * s + ms);
            &&& h > 0 ==> text == decimal(h as nat) + "h "@ + decimal(m as nat) + "m"@
            &&& h == 0 && m > 0 ==> text == decimal(m as nat) + "m "@ + decimal(s as nat) + "s"@
            &&& h == 0 && m == 0 ==> text == decimal(s as nat) + "s"@
        }),
{
    let total = 3600000 * h + 60000 * m + 1000 * s + ms;
    assert(total / 1000 == 3600 * h + 60 * m + s);
    let t = total / 1000;
    assert(t / 3600 == h);
    assert(t % 3600 == 60 * m + s);
    if h == 0 {
        assert(t / 60 == m && t % 60 == s);
    }
}

/// The clock shows two digits of the hour, a colon and two digits of the minute.
pub proof fn clocks_show_hours_and_minutes(t: Timestamp)
    requires
        t.hour < 24,
        t.minute < 60,
    ensures
        clock_text(t).len() == 5,
        clock_text(t)[2] == ':',
        number_of(clock_text(t).take(2)) == t.hour,
        number_of(clock_text(t).skip(3)) == t.minute,
{
    reveal_strlit(":");
    lemma_two_digits(t.hour);
    lemma_two_digits(t.minute);
    assert(clock_text(t).take(2) =~= two_digits(t.hour));
    assert(clock_text(t).skip(3) =~= two_digits(t.minute));
}

proof fn lemma_two_digits(n: u8)
    requires
        n < 100,
    ensures
        number_of(two_digits(n)) == n,
        two_digits(n).len() == 2,
{
    let s = two_digits(n);
    reveal_with_fuel(crate::text_laws::number_of, 3);
    assert(s.drop_last() =~= seq![s[0]]);
    assert(seq![s[0]].drop_last() =~= Seq::<char>::empty());
}

// ---- The transcript as text -----------------------------------------------

/// Each kind of entry has its lines.
pub proof fn entries_are_written_out(e: EntryView)
    ensures
        e is Plain ==> plain_lines(e) == seq![e->line],
        e is ToolLine ==> plain_lines(e) == seq![
            "  "@ + e->ToolLine_tool + ": "@ + e->summary,
        ],
        e is CompactBoundary ==> plain_lines(e) == seq![
            "── compacted from "@ + e->predecessor_short_id + " · "@ + decimal(
                e->seed_tool_count,
            ) + " seed-tool(s) re-run ──"@,
        ],
        e is Subagent && e->outcome is None ==> plain_lines(e) == seq![
            e->parent + " delegated to "@ + e->child + "…"@,
        ],
{
}

/// A message is written under the time and who said it, line by line and indented. The
/// reasoning of an agent stands before its answer where it is unfolded, and only there.
pub proof fn messages_are_written_out(e: EntryView, i: int)
    ensures
        e is User ==> {
            let l = plain_lines(e);
            let parts = newline_parts(e->User_text);
            &&& l.len() == 1 + parts.len()
            &&& l[0] == "["@ + clock_text(e->User_timestamp) + "] you:"@
            &&& 0 <= i < parts.len() ==> l[1 + i] == "  "@ + parts[i]
        },
        e is Agent && (is_blank(e->reasoning) || !e->Agent_expanded) ==> {
            let l = plain_lines(e);
            let parts = newline_parts(e->Agent_text);
            &&& l.len() == 1 + parts.len()
            &&& l[0] == "["@ + clock_text(e->Agent_timestamp) + "] "@ + e->name + ":"@
            &&& 0 <= i < parts.len() ==> l[1 + i] == "  "@ + parts[i]
        },
        e is Agent && !is_blank(e->reasoning) && e->Agent_expanded ==> {
            let l = plain_lines(e);
            let parts = newline_parts(e->Agent_text);
            let thoughts = lines_of(e->reasoning);
            let n = thoughts.len() as int;
            &&& l.len() == 3 + n + parts.len()
            &&& l[0] == "["@ + clock_text(e->Agent_timestamp) + "] "@ + e->name + ":"@
            &&& l[1] == "  thinking:"@
            &&& 0 <= i < n ==> l[2 + i] == "    "@ + thoughts[i]
            &&& l[2 + n].len() == 0
            &&& 0 <= i < parts.len() ==> l[3 + n + i] == "  "@ + parts[i]
        },
{
}

/// A command is written with its output indented, a report under how long it took and
/// whether it failed, and a tool box with a line for each call.
pub proof fn work_is_written_out(e: EntryView, i: int)
    ensures
        e is LocalCommand ==> {
            let l = plain_lines(e);
            &&& l.len() == 1 + lines_of(e->LocalCommand_output).len()
            &&& l[0] == e->label
            &&& 0 <= i < lines_of(e->LocalCommand_output).len() ==> l[1 + i] == "  "@ + lines_of(
                e->LocalCommand_output,
            )[i]
        },
        e is Subagent && e->outcome is Some ==> {
            let l = plain_lines(e);
            let o = e->outcome->0;
            &&& l.len() == 1 + lines_of(o.report).len()
            &&& o.failed ==> l[0] == e->child + " failed after "@ + duration_text(
                o.duration as int,
            )
            &&& !o.failed ==> l[0] == e->child + " worked for "@ + duration_text(
                o.duration as int,
            )
            &&& 0 <= i < lines_of(o.report).len() ==> l[1 + i] == "  "@ + lines_of(o.report)[i]
        },
        e is ToolBox ==> {
            let l = plain_lines(e);
            &&& l.len() == e->calls.len()
            &&& 0 <= i < e->calls.len() ==> l[i] == "  "@ + e->calls[i].tool + ": "@
                + e->calls[i].summary
        },
{
}

/// The lines of a diff are marked as removed, added or kept, and a mark stands between
/// its groups.
pub proof fn diffs_are_written_out(
    head: Seq<char>,
    text: Seq<char>,
    g: Seq<(LineTag, Seq<char>)>,
    h: Seq<(LineTag, Seq<char>)>,
)
    ensures
        diff_text_row((LineTag::Delete, text)) == "  "@ + "- "@ + trim_newlines(text),
        diff_text_row((LineTag::Insert, text)) == "  "@ + "+ "@ + trim_newlines(text),
        diff_text_row((LineTag::Equal, text)) == "  "@ + "  "@ + trim_newlines(text),
        diff_text_rows(seq![head], Seq::empty()) == seq![head],
        diff_text_rows(seq![head], seq![g]) == seq![head] + g.map_values(
            |c: (LineTag, Seq<char>)| diff_text_row(c),
        ),
        g.len() > 0 ==> diff_text_rows(seq![head], seq![g, h]) == (seq![head] + g.map_values(
            |c: (LineTag, Seq<char>)| diff_text_row(c),
        )).push("    …"@) + h.map_values(|c: (LineTag, Seq<char>)| diff_text_row(c)),
{
    reveal_with_fuel(crate::app::transcript::diff_text_rows, 3);
    assert(seq![g].drop_last() =~= Seq::<Seq<(LineTag, Seq<char>)>>::empty());
    assert(seq![g, h].drop_last() =~= seq![g]);
}

/// The head of a diff names the tool and the file, and counts its new and its old lines.
pub proof fn diff_heads_count_lines(
    tool: Seq<char>,
    path: Seq<char>,
    old_text: Seq<char>,
    new_text: Seq<char>,
)
    ensures
        diff_head(tool, path, old_text, new_text) == "  ✓ "@ + tool + ": "@ + path + " (+"@
            + decimal(lines_of(new_text).len()) + " −"@ + decimal(lines_of(old_text).len())
            + ")"@,
{
}

/// The transcript is its entries one after another, with an empty line behind each
/// message. What is printed at the end is its last lines, as many as asked for: none for
/// zero, and all for less than zero.
pub proof fn transcripts_are_written_out(s: Entries, e: EntryView, limit: int)
    ensures
        transcript_lines(Seq::empty()).len() == 0,
        e is User || e is Agent ==> transcript_lines(s.push(e)) == transcript_lines(s)
            + plain_lines(e) + seq![Seq::<char>::empty()],
        !(e is User || e is Agent) ==> transcript_lines(s.push(e)) == transcript_lines(s)
            + plain_lines(e),
        limit < 0 ==> exit_tail(s, limit) == transcript_lines(s),
        limit == 0 ==> exit_tail(s, limit).len() == 0,
        limit > 0 ==> exit_tail(s, limit).len() == if transcript_lines(s).len() <= limit {
            transcript_lines(s).len() as int
        } else {
            limit
        },
{
    assert(s.push(e).drop_last() =~= s);
    assert(transcript_lines(s) + plain_lines(e).push(Seq::empty()) =~= transcript_lines(s)
        + plain_lines(e) + seq![Seq::<char>::empty()]);
}

// ---- Folding --------------------------------------------------------------

/// Reasoning is folded and unfolded all at once: all of it shows if some was folded, and
/// none otherwise. What has no reasoning stays as it is.
pub proof fn reasoning_folds_together(s: Entries, i: int)
    requires
        0 <= i < s.len(),
    ensures
        ({
            let t = reasoning_toggled(s);
            let some_folded = exists|k: int|
                0 <= k < s.len() && (#[trigger] s[k]) is Agent && !is_blank(s[k]->reasoning)
                    && !s[k]->Agent_expanded;
            &&& t.len() == s.len()
            &&& !(s[i] is Agent && !is_blank(s[i]->reasoning)) ==> t[i] == s[i]
            &&& s[i] is Agent && !is_blank(s[i]->reasoning) ==> {
                &&& t[i] is Agent
                &&& t[i]->Agent_expanded == some_folded
                &&& t[i]->name == s[i]->name
                &&& t[i]->Agent_text == s[i]->Agent_text
                &&& t[i]->reasoning == s[i]->reasoning
                &&& t[i]->Agent_timestamp == s[i]->Agent_timestamp
                &&& t[i]->think_duration == s[i]->think_duration
            }
        }),
{
}

// ---- Turns ----------------------------------------------------------------

/// A message of the user opens a turn, or joins the one that waits for an answer; what
/// the agent says answers the last turn, line after line, and ends the waiting.
pub proof fn messages_make_turns(s: Entries, text: Seq<char>, e: EntryView)
    requires
        e is User && e->User_text == text || e is Agent && e->Agent_text == text,
    ensures
        ({
            let before = turns_of(s);
            let after = turns_of(s.push(e));
            let n = before.turns.len() as int;
            &&& e is User && !(before.open && n > 0) ==> {
                &&& after.open && after.turns.len() == n + 1
                &&& after.turns.take(n) == before.turns
                &&& after.turns[n].user == text && after.turns[n].agent.len() == 0
            }
            &&& e is User && before.open && n > 0 ==> {
                &&& after.open && after.turns.len() == n
                &&& after.turns.take(n - 1) == before.turns.take(n - 1)
                &&& after.turns[n - 1].user == before.turns[n - 1].user + "\n\n"@ + text
                &&& after.turns[n - 1].agent == before.turns[n - 1].agent
            }
            &&& e is Agent && n == 0 ==> after == before
            &&& e is Agent && n > 0 ==> {
                &&& !after.open && after.turns.len() == n
                &&& after.turns.take(n - 1) == before.turns.take(n - 1)
                &&& after.turns[n - 1].user == before.turns[n - 1].user
                &&& before.turns[n - 1].agent.len() == 0 ==> after.turns[n - 1].agent == text
                &&& before.turns[n - 1].agent.len() > 0 ==> after.turns[n - 1].agent
                    == before.turns[n - 1].agent + seq!['\n'] + text
            }
        }),
        turns_of(Seq::empty()).turns.len() == 0,
{
    assert(s.push(e).drop_last() =~= s);
    let before = turns_of(s);
    let after = turns_of(s.push(e));
    let n = before.turns.len() as int;
    if n > 0 {
        assert(before.turns[n - 1].agent.push('\n') + text =~= before.turns[n - 1].agent + seq!['\n']
            + text);
    }
    if e is User && !(before.open && n > 0) {
        assert(after.turns.take(n) =~= before.turns);
    } else if n > 0 {
        assert(after.turns.take(n - 1) =~= before.turns.take(n - 1));
    }
}

// ---- Lists of models ------------------------------------------------------

/// What is said of a provider says how it answered.
pub proof fn providers_answers_are_told(
    id: Seq<char>,
    e: Seq<char>,
    models: Seq<Seq<char>>,
)
    ensures
        outcome_line(id, OutcomeOfProvider::Skipped(e)) == "/fetch-models: "@ + id + (
        " skipped — "@ + e),
        outcome_line(id, OutcomeOfProvider::Failed(e)) == "/fetch-models: "@ + id + (
        " failed: "@ + e),
        outcome_line(id, OutcomeOfProvider::Unsupported) == "/fetch-models: "@ + id
            + " has no /models endpoint"@,
        outcome_line(id, OutcomeOfProvider::Models(models)) == "/fetch-models: "@ + id + (
        " → "@ + decimal(models.len()) + " model(s)"@),
{
}

/// The providers are asked one after the other. A list replaces the models of its
/// provider, but where unlisted ones are kept they stay behind it.
pub proof fn lists_replace_the_models(v: FetchView, list: Seq<Seq<char>>, id: Seq<char>)
    requires
        0 <= v.next < v.providers.len(),
    ensures
        ({
            let after = v.answered(OutcomeOfProvider::Models(list));
            let models = after.providers[v.next].models;
            &&& after.next == v.next + 1
            &&& after.policy == v.policy
            &&& after.providers.len() == v.providers.len()
            &&& after.providers[v.next].fetched
            &&& !(v.policy is Keep) ==> models == list
            &&& v.policy is Keep ==> list.len() <= models.len() && models.take(list.len() as int)
                == list && (models.contains(id) <==> list.contains(id)
                || v.providers[v.next].models.contains(id))
        }),
{
    if v.policy is Keep {
        lemma_kept(list, v.providers[v.next].models, v.policy, id);
    }
    assert(list.take(list.len() as int) =~= list);
}

proof fn lemma_kept(
    list: Seq<Seq<char>>,
    before: Seq<Seq<char>>,
    policy: OnUnlistedModels,
    id: Seq<char>,
)
    requires
        policy is Keep,
    ensures
        ({
            let models = merged_models(list, before, policy);
            &&& list.len() <= models.len()
            &&& models.take(list.len() as int) == list
            &&& models.contains(id) <==> list.contains(id) || before.contains(id)
        }),
    decreases before.len(),
{
    if before.len() == 0 {
        assert(list.take(list.len() as int) =~= list);
    } else {
        lemma_kept(list, before.drop_last(), policy, id);
        let rest = merged_models(list, before.drop_last(), policy);
        let models = merged_models(list, before, policy);
        assert(models.take(list.len() as int) =~= rest.take(list.len() as int));
        assert(before.contains(id) == (before.drop_last().contains(id) || before.last() == id)) by {
            if before.contains(id) {
                let k = choose|k: int| 0 <= k < before.len() && before[k] == id;
                if k < before.len() - 1 {
                    assert(before.drop_last()[k] == id);
                }
            }
            if before.drop_last().contains(id) {
                let k = choose|k: int|
                    0 <= k < before.drop_last().len() && before.drop_last()[k] == id;
                assert(before[k] == id);
            }
            if before.last() == id {
                assert(before[before.len() - 1] == id);
            }
        }
        if !rest.contains(before.last()) {
            assert(models == rest.push(before.last()));
            assert(models.contains(id) == (rest.contains(id) || before.last() == id)) by {
                if models.contains(id) {
                    let k = choose|k: int| 0 <= k < models.len() && models[k] == id;
                    if k < rest.len() {
                        assert(rest[k] == id);
                    }
                }
                if rest.contains(id) {
                    let k = choose|k: int| 0 <= k < rest.len() && rest[k] == id;
                    assert(models[k] == id);
                }
                assert(models[rest.len() as int] == before.last());
            }
        }
    }
}

/// Whether a line of progress tells of new models.
pub proof fn model_lines_are_known(a: Seq<char>, b: Seq<char>)
    ensures
        tells_of_models(a + "model(s)"@ + b),
        tells_of_models(a + ": done"@),
        ends_with_text(a + b, b),
        ends_with_text(a, b) ==> a == a.take(a.len() - b.len()) + b,
{
    texts_hold_their_pieces(a + "model(s)"@ + b, "model(s)"@, a, b);
    let d = ": done"@;
    assert((a + d).skip((a + d).len() - d.len()) =~= d);
    assert((a + b).skip((a + b).len() - b.len()) =~= b);
    if ends_with_text(a, b) {
        assert(a =~= a.take(a.len() - b.len()) + a.skip(a.len() - b.len()));
    }
}

/// A text from the editor loses one newline at its end.
pub proof fn one_newline_goes(s: Seq<char>)
    ensures
        without_one_newline(s.push('\n')) == s,
        s.len() > 0 && s[s.len() - 1] != '\n' ==> without_one_newline(s) == s,
{
    assert(s.push('\n').drop_last() =~= s);
}

// ---- Lists of jobs --------------------------------------------------------

/// `/jobs` lists all jobs with how to cancel each, and says where there are none.
pub proof fn jobs_are_listed(v: AppView, args: Seq<char>, i: int)
    requires
        trim(args).len() == 0,
    ensures
        ({
            let after = v.jobs_command(args);
            let n = v.history.len() as int;
            &&& v.jobs.len() == 0 ==> after.history == v.history.push(
                (EntryView::Plain { line: "/jobs: no active jobs"@ }),
            )
            &&& v.jobs.len() > 0 ==> {
                &&& after.history.len() == n + 1 + v.jobs.len()
                &&& after.history.take(n) == v.history
                &&& after.history[n] == (EntryView::Plain { line: "/jobs: active —"@ })
                &&& 0 <= i < v.jobs.len() ==> after.history[n + 1 + i] == (EntryView::Plain {
                    line: "  "@ + job_line(v.jobs[i].0, v.jobs[i].1) + "  (cancel: /jobs cancel "@
                        + v.jobs[i].0 + ")"@,
                })
            }
            &&& after.outbox == v.outbox
        }),
{
    reveal(AppView::jobs_command);
    reveal_strlit("cancel");
    let after = v.jobs_command(args);
    if v.jobs.len() > 0 {
        assert(after.history.take(v.history.len() as int) =~= v.history);
    }
}

/// `/ps` lists the jobs of this session with how to stop each, and says where there are
/// none.
pub proof fn session_jobs_are_listed(v: AppView, i: int)
    ensures
        ({
            let after = v.ps_command();
            let n = v.history.len() as int;
            let ids = v.current_jobs();
            &&& ids.len() == 0 ==> after.history == v.history.push(
                (EntryView::Plain { line: "No background jobs in this session."@ }),
            )
            &&& ids.len() > 0 ==> {
                &&& after.history.len() == n + 1 + ids.len()
                &&& after.history.take(n) == v.history
                &&& after.history[n] == (EntryView::Plain {
                    line: "/ps: active in this session —"@,
                })
                &&& 0 <= i < ids.len() ==> after.history[n + 1 + i] == (EntryView::Plain {
                    line: "  "@ + job_line(ids[i], v.jobs[position_of_job(v.jobs, ids[i], 0)].1)
                        + "  (stop: /stop "@ + ids[i] + ")"@,
                })
            }
            &&& after.outbox == v.outbox
        }),
{
    reveal(AppView::ps_command);
    let after = v.ps_command();
    if v.current_jobs().len() > 0 {
        assert(after.history.take(v.history.len() as int) =~= v.history);
    }
}

/// A bare `/stop` counts the jobs of the session and asks; with an id it stops that job,
/// if it is one of them.
pub proof fn stops_ask_first(v: AppView, args: Seq<char>)
    ensures
        ({
            let after = v.stop_command(args);
            let id = trim(args);
            let ids = v.current_jobs();
            &&& id.len() == 0 ==> after.outbox == v.outbox
            &&& id.len() == 0 && ids.len() == 0 ==> after.pending_stop_confirm is None
                && after.history == v.history.push(
                (EntryView::Plain { line: "No background jobs in this session."@ }),
            )
            &&& id.len() == 0 && ids.len() > 0 ==> after.pending_stop_confirm == Some(ids)
                && after.history == v.history.push(
                (EntryView::Plain {
                    line: "/stop: Stop "@ + decimal(ids.len()) + " job(s) in this session? [y/N]"@,
                }),
            )
            &&& id.len() > 0 && ids.contains(id) ==> after.outbox == v.outbox.push(
                (RequestView::CancelJob { job_id: id, command: CancelCommand::Stop }),
            ) && after.history == v.history
            &&& id.len() > 0 && !ids.contains(id) ==> after.outbox == v.outbox && after.history
                == v.history.push(
                (EntryView::Plain {
                    line: "/stop: no job `"@ + id
                        + "` in this session (use /jobs for other sessions)"@,
                }),
            )
        }),
{
    reveal(AppView::stop_command);
}

/// Of the listed jobs those that still run are asked to stop, each once and in order.
pub proof fn running_jobs_are_stopped(jobs: JobSeq, ids: Seq<Seq<char>>, id: Seq<char>)
    ensures
        stop_requests(jobs, Seq::empty()).len() == 0,
        (exists|i: int| 0 <= i < jobs.len() && #[trigger] jobs[i].0 == id) ==> stop_requests(
            jobs,
            ids.push(id),
        ) == stop_requests(jobs, ids).push(
            (RequestView::CancelJob { job_id: id, command: CancelCommand::Stop }),
        ),
        !(exists|i: int| 0 <= i < jobs.len() && #[trigger] jobs[i].0 == id) ==> stop_requests(
            jobs,
            ids.push(id),
        ) == stop_requests(jobs, ids),
{
    assert(ids.push(id).drop_last() =~= ids);
    lemma_has_job(jobs, id, 0);
}

proof fn lemma_has_job(jobs: JobSeq, id: Seq<char>, from: int)
    requires
        0 <= from <= jobs.len(),
    ensures
        (position_of_job(jobs, id, from) < jobs.len()) == (exists|i: int|
            from <= i < jobs.len() && #[trigger] jobs[i].0 == id),
    decreases jobs.len() - from,
{
    if from < jobs.len() && jobs[from].0 != id {
        lemma_has_job(jobs, id, from + 1);
    }
}

/// The context holds what the provider reported and what was added since, or what is
/// estimated where nothing was reported.
pub proof fn context_sizes_add_up(v: AppView, estimate: u32)
    ensures
        v.context.last_usage is None ==> v.context_size(estimate) == estimate,
        v.context.last_usage is Some && estimate >= v.context.estimate_at_last_usage
            && v.context.last_usage->0 + estimate <= u32::MAX ==> v.context_size(estimate)
            == v.context.last_usage->0 + (estimate - v.context.estimate_at_last_usage),
        v.context.last_usage is Some && estimate <= v.context.estimate_at_last_usage
            && v.context.last_usage->0 <= u32::MAX ==> v.context_size(estimate)
            == v.context.last_usage->0,
{
}

} // verus!
