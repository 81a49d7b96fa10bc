//! What the status line, the banner and the context overlay show.

use vstd::prelude::*;
use crate::banner_box::{boxed, content_row, row_texts, title_spans, widest};
use crate::chrome::{caffeinate_spans, job_span, jobs_strip, left_spans, plan_spans, repo_counts_text, side_spans, signed_count, status_spans};
use crate::context_pane::{Category, Segment, bar_basis, bar_fills_exactly, bar_line, cell_counts, compact_count, floors, hand_out, header, largest, legend, pane_lines, percent, remainders, sum_ints, total_tokens, weight_sum};
use crate::daemon_prompt::PromptView;
use crate::decimal::{SIGNIFICAND_LIMIT, UNIT_SCALE, nearest, one_decimal, scale_of, short_decimal, significant, step_of};
use crate::launch::{LaunchView, PlanStatusCounts, RepoView};
use crate::style::{Color, LineView, Style};
use crate::text::decimal;
use crate::theme::MUTED_COLOR_INDEX;

verus! {

// ---- The status line ------------------------------------------------------

/// The counts of a repository stand behind their signs, in order and with a blank
/// between them; zeros are left out.
pub proof fn repository_counts_show(repo: RepoView)
    ensures
        ({
            let staged = "+"@ + decimal(repo.staged);
            let unstaged = "~"@ + decimal(repo.unstaged);
            let unpushed = "^"@ + decimal(repo.unpushed);
            let text = repo_counts_text(repo);
            let (a, b, c) = (repo.staged > 0, repo.unstaged > 0, repo.unpushed > 0);
            &&& !a && !b && !c ==> text.len() == 0
            &&& a && !b && !c ==> text == staged
            &&& !a && b && !c ==> text == unstaged
            &&& !a && !b && c ==> text == unpushed
            &&& a && b && !c ==> text == staged + " "@ + unstaged
            &&& a && !b && c ==> text == staged + " "@ + unpushed
            &&& !a && b && c ==> text == unstaged + " "@ + unpushed
            &&& a && b && c ==> text == staged + " "@ + unstaged + " "@ + unpushed
        }),
{
    let x = signed_count("+"@, repo.staged);
    let y = signed_count("~"@, repo.unstaged);
    let z = signed_count("^"@, repo.unpushed);
    let all = x + y + z;
    reveal_with_fuel(crate::text::joined, 4);
    if all.len() > 0 {
        assert(all.drop_last().len() == all.len() - 1);
        if all.len() > 1 {
            assert(all.drop_last()[0] == all[0]);
            if all.len() > 2 {
                assert(all.drop_last().drop_last()[0] == all[0]);
                assert(all.drop_last().last() == all[1]);
            }
        }
    }
}

/// The directory always shows. The branch shows behind it on its badge between two edges,
/// with its counts where there are any.
pub proof fn branches_show_on_a_badge(info: LaunchView)
    ensures
        ({
            let s = status_spans(info);
            let repo = info.repo_status->0;
            let counts = repo_counts_text(repo);
            let badge = Style::fg(Color::Black).on(Color::Indexed(220));
            &&& s[0].text == info.cwd_display
            &&& info.repo_status is None ==> s.len() == 1
            &&& info.repo_status is Some ==> {
                &&& s.len() == if counts.len() > 0 {
                    6int
                } else {
                    5
                }
                &&& s[1].text == " "@
                &&& s[2].text == "▐"@
                &&& s[3].text == " "@ + repo.branch + " "@
                &&& s[3].style == badge
                &&& counts.len() > 0 ==> s[4].text == counts + " "@ && s[4].style == badge
                &&& s[s.len() - 1].text == "▌"@
                &&& s[2].style == s[s.len() - 1].style
            }
        }),
{
}

/// The model shows before the agent, in a color of its own where it is a favorite;
/// without a model the agent shows alone.
pub proof fn models_show_before_the_agent(info: LaunchView)
    ensures
        ({
            let s = left_spans(info);
            let last = s[s.len() - 1];
            &&& last.text == info.agent_name && last.style == Style::fg(Color::Blue)
            &&& info.active_model is None ==> s.len() == 1
            &&& info.active_model is Some ==> {
                &&& s.len() == 3
                &&& s[0].text == (info.active_model->0).0 + "/"@ + (info.active_model->0).1
                &&& s[1].text == " · "@
                &&& info.active_model_is_favorite ==> s[0].style == Style::fg(Color::Indexed(178))
                &&& !info.active_model_is_favorite ==> s[0].style == Style::fg(
                    Color::Indexed(MUTED_COLOR_INDEX),
                )
            }
        }),
{
}

/// A job shows by a sign for its kind and its label, and but for background jobs with
/// its round.
pub proof fn jobs_show_their_kind(kind: Seq<char>, label: Seq<char>, n: nat)
    ensures
        ({
            let s = job_span(kind, label, n);
            &&& kind == "timer"@ ==> s.text == "⏲"@ + " "@ + (label + " "@ + decimal(n))
            &&& kind == "background"@ ==> s.text == "⤓"@ + " "@ + label
            &&& kind != "timer"@ && kind != "background"@ ==> s.text == "⟳"@ + " "@ + (label
                + " "@ + decimal(n))
            &&& s.style == Style::fg(Color::Cyan)
        }),
{
    reveal_strlit("timer");
    reveal_strlit("background");
    assert("timer"@.len() == 5 && "background"@.len() == 10);
}

/// The jobs stand in a row behind an indent, with a dot between them.
pub proof fn jobs_stand_in_a_row(
    jobs: Seq<(Seq<char>, Seq<char>, nat)>,
    job: (Seq<char>, Seq<char>, nat),
)
    ensures
        jobs_strip(Seq::empty()).len() == 0,
        ({
            let s = jobs_strip(jobs.push(job));
            let n = jobs_strip(jobs).len() as int;
            &&& s[s.len() - 1] == job_span(job.0, job.1, job.2)
            &&& jobs.len() == 0 ==> s.len() == 2 && s[0].text == "  "@
            &&& jobs.len() > 0 ==> s.len() == n + 2 && s.take(n) == jobs_strip(jobs) && s[n].text
                == " · "@
        }),
{
    assert(jobs.push(job).drop_last() =~= jobs);
    let s = jobs_strip(jobs.push(job));
    let n = jobs_strip(jobs).len() as int;
    if jobs.len() > 0 {
        assert(s.take(n) =~= jobs_strip(jobs));
    }
}

/// The plans show by their counts: those that are ready, those that run, and in bold
/// those that need an answer; zeros are left out, and without any nothing shows.
pub proof fn plans_show_their_counts(c: PlanStatusCounts)
    ensures
        ({
            let s = plan_spans(c);
            let (a, b, q) = (c.ready > 0, c.in_progress > 0, c.interruptions > 0);
            let ready = "⧖"@ + decimal(c.ready as nat);
            let running = "▶"@ + decimal(c.in_progress as nat);
            let waiting = "?"@ + decimal(c.interruptions as nat);
            &&& !a && !b && !q ==> s.len() == 0
            &&& a || b || q ==> s[s.len() - 1].text == " "@
            &&& a && !b && !q ==> s.len() == 2 && s[0].text == ready
            &&& !a && b && !q ==> s.len() == 2 && s[0].text == running
            &&& !a && !b && q ==> s.len() == 2 && s[0].text == waiting
            &&& a && b && !q ==> s.len() == 4 && s[0].text == ready && s[1].text == " "@
                && s[2].text == running
            &&& a && !b && q ==> s.len() == 4 && s[0].text == ready && s[1].text == " "@
                && s[2].text == waiting
            &&& !a && b && q ==> s.len() == 4 && s[0].text == running && s[1].text == " "@
                && s[2].text == waiting
            &&& a && b && q ==> s.len() == 6 && s[0].text == ready && s[1].text == " "@
                && s[2].text == running && s[3].text == " "@ && s[4].text == waiting
            &&& q ==> s[s.len() - 2].style == Style::fg(Color::Rgb(0xf8, 0xd7, 0x49)).bold()
            &&& !q && (a || b) ==> s[s.len() - 2].style == Style::fg(Color::Rgb(0xf8, 0xd7, 0x49))
        }),
{
}

/// The marks of a machine that is kept awake and of a side conversation show while they
/// last.
pub proof fn marks_show_while_they_last()
    ensures
        caffeinate_spans(true).len() == 1 && caffeinate_spans(true)[0].text == "☕ "@,
        caffeinate_spans(false).len() == 0,
        side_spans(true).len() == 1 && side_spans(true)[0].text == "⑃ side "@,
        side_spans(false).len() == 0,
{
}

// ---- The banner -----------------------------------------------------------

/// Beside the art stand the title, a welcome where a name is known, the provider, and the
/// directory with its branch, in this order, from the second row on.
pub proof fn banners_tell_who_and_where(info: LaunchView)
    ensures
        ({
            let rows = row_texts(info);
            let named = info.user_name is Some && info.user_name->0.len() > 0;
            &&& rows.len() == 6
            &&& rows[0] is None && rows[5] is None
            &&& rows[1] == Some(title_spans(info))
            &&& named ==> {
                &&& rows[2] is Some && (rows[2]->0)[0].text == "Welcome, "@ && (rows[2]->0)[1].text
                    == info.user_name->0
                &&& rows[3] is Some && (rows[3]->0)[0].text == info.provider_line
                &&& rows[4] == Some(status_spans(info))
            }
            &&& !named ==> {
                &&& rows[2] is Some && (rows[2]->0)[0].text == info.provider_line
                &&& rows[3] == Some(status_spans(info))
                &&& rows[4] is None
            }
        }),
        ({
            let t = title_spans(info);
            &&& t[2].text == "v"@ + info.version
            &&& info.session_short_id is None ==> t.len() == 3
            &&& info.session_short_id is Some ==> t.len() == 5 && t[4].text
                == info.session_short_id->0
        }),
{
}

/// The box of the banner has round corners, stands in the middle of the pane, and its
/// rows are those of the banner between two rails.
pub proof fn banners_stand_in_a_box(rows: Seq<LineView>, pane_w: int, pane_h: int, i: int)
    requires
        boxed(rows, pane_w, pane_h) is Some,
        0 <= i < rows.len(),
    ensures
        ({
            let b = boxed(rows, pane_w, pane_h)->0;
            let w = widest(rows) as int;
            let pad = b[0][0].text.len() as int;
            &&& b.len() == rows.len() + 2
            &&& 2 * pad + w + 4 == pane_w || 2 * pad + w + 5 == pane_w
            &&& b[0][1].text.len() == w + 4
            &&& b[0][1].text[0] == '╭' && b[0][1].text[w + 3] == '╮'
            &&& b[b.len() - 1][1].text[0] == '╰' && b[b.len() - 1][1].text[w + 3] == '╯'
            &&& b[i + 1][0].text.len() == pad
            &&& b[i + 1][1].text == seq!['│']
            &&& b[i + 1].subrange(3, 3 + rows[i].len() as int) == rows[i]
            &&& b[i + 1][b[i + 1].len() - 1].text == seq!['│']
        }),
        boxed(rows, widest(rows) as int + 3, pane_h) is None,
        boxed(rows, pane_w, rows.len() as int + 1) is None,
{
    let b = boxed(rows, pane_w, pane_h)->0;
    assert(b[i + 1].subrange(3, 3 + rows[i].len() as int) =~= rows[i]);
}

/// A row of the banner is the art, three blanks and the text.
pub proof fn art_stands_before_the_text(art: LineView, text: LineView)
    ensures
        content_row(art, None) == art,
        content_row(art, Some(text)).len() == art.len() + 1 + text.len(),
        content_row(art, Some(text)).take(art.len() as int) == art,
        content_row(art, Some(text))[art.len() as int].text == "   "@,
        content_row(art, Some(text)).skip(art.len() as int + 1) == text,
{
    assert(content_row(art, Some(text)).take(art.len() as int) =~= art);
    assert(content_row(art, Some(text)).skip(art.len() as int + 1) =~= text);
}

// ---- Numbers --------------------------------------------------------------

proof fn lemma_nearest(a: int, b: int)
    requires
        0 <= a,
        0 < b,
    ensures
        -b <= 2 * (a - b * nearest(a, b)) <= b,
        a % b == 0 ==> nearest(a, b) == a / b && b * nearest(a, b) == a,
        nearest(a, b) >= 0,
{
    vstd::arithmetic::div_mod::lemma_fundamental_div_mod(a, b);
    vstd::arithmetic::div_mod::lemma_mod_bound(a, b);
    vstd::arithmetic::div_mod::lemma_div_pos_is_pos(a, b);
    let q = a / b;
    assert(b * (q + 1) == b * q + b) by (nonlinear_arith);
}

proof fn lemma_significant(n: int)
    requires
        0 <= n < SIGNIFICAND_LIMIT,
    ensures
        significant(n) == n,
{
    assert(n / 1 == n);
    assert(step_of(n, 1, 64) == 1);
    lemma_nearest(n, 1);
    assert(n % 1 == 0);
}

proof fn lemma_scale(n: int, d: int, scale: int)
    requires
        0 <= n < SIGNIFICAND_LIMIT,
        1000 <= d,
        d < scale,
    ensures
        2 * scale_of(n, d, scale) >= d,
        scale_of(n, d, scale) >= 1,
    decreases scale,
{
    if scale > 1 && n * scale / d >= SIGNIFICAND_LIMIT {
        let h = scale / 2;
        assert(scale == 2 * h || scale == 2 * h + 1);
        if d < h {
            lemma_scale(n, d, h);
        } else {
            assert(n * h / d <= n) by {
                assert(n * h <= n * d) by (nonlinear_arith)
                    requires
                        0 <= n,
                        h <= d,
                ;
                vstd::arithmetic::div_mod::lemma_div_is_ordered(n * h, n * d, d);
                vstd::arithmetic::div_mod::lemma_div_multiples_vanish(n, d);
                assert(n * d == d * n) by (nonlinear_arith);
            }
            assert(scale_of(n, d, h) == h);
        }
    }
}

/// A quotient with one decimal is less than a tenth away from the exact one, and a whole
/// one is shown whole.
pub proof fn quotients_are_near(n: int, d: int, q: int)
    requires
        0 <= n < SIGNIFICAND_LIMIT,
        1000 <= d <= 1_000_000,
    ensures
        exists|tenths: int|
            {
                &&& 0 <= tenths
                &&& -d <= 10 * n - d * tenths <= d
                &&& one_decimal(n, d) == #[trigger] decimal((tenths / 10) as nat) + "."@ + decimal(
                    (tenths % 10) as nat,
                )
            },
        n == q * d && q >= 0 ==> short_decimal(n, d) == decimal(q as nat),
{
    lemma_significant(n);
    lemma_scale(n, d, UNIT_SCALE as int);
    let scale = scale_of(n, d, UNIT_SCALE as int);
    assert(n * scale >= 0) by (nonlinear_arith)
        requires
            n >= 0,
            scale >= 1,
    ;
    let m = nearest(n * scale, d);
    lemma_nearest(n * scale, d);
    let t = nearest(10 * m, scale);
    lemma_nearest(10 * m, scale);
    let e1 = n * scale - d * m;
    let e2 = 10 * m - scale * t;
    let x = 10 * n - d * t;
    assert(scale * x == 10 * e1 + d * e2) by (nonlinear_arith)
        requires
            e1 == n * scale - d * m,
            e2 == 10 * m - scale * t,
            x == 10 * n - d * t,
    ;
    assert(-(d * scale) <= 2 * (d * e2) <= d * scale) by (nonlinear_arith)
        requires
            -scale <= 2 * e2 <= scale,
            d > 0,
    ;
    assert(10 * d <= d * scale) by (nonlinear_arith)
        requires
            scale >= 10,
            d > 0,
    ;
    assert(-d <= x <= d) by (nonlinear_arith)
        requires
            -(2 * (d * scale)) <= 2 * (scale * x) <= 2 * (d * scale),
            scale > 0,
    ;
    assert(one_decimal(n, d) == decimal((t / 10) as nat) + "."@ + decimal((t % 10) as nat));
    if n == q * d && q >= 0 {
        assert(n * scale == d * (q * scale)) by (nonlinear_arith)
            requires
                n == q * d,
        ;
        vstd::arithmetic::div_mod::lemma_mod_multiples_basic(q * scale, d);
        assert((q * scale) * d == d * (q * scale)) by (nonlinear_arith);
        vstd::arithmetic::div_mod::lemma_div_multiples_vanish(q * scale, d);
        assert(m == q * scale);
        vstd::arithmetic::div_mod::lemma_mod_multiples_basic(q, scale);
        assert(q * scale == scale * q) by (nonlinear_arith);
        vstd::arithmetic::div_mod::lemma_div_multiples_vanish(q, scale);
    }
}

/// Counts below a thousand show as they are, whole thousands behind them as such, and so
/// do whole millions.
pub proof fn counts_show_in_short(n: int, q: int)
    requires
        0 <= n < SIGNIFICAND_LIMIT,
        q > 0,
    ensures
        n < 1000 ==> compact_count(n) == decimal(n as nat),
        n == q * 1000 && q < 1000 ==> compact_count(n) == decimal(q as nat) + "k"@,
        n == q * 1_000_000 ==> compact_count(n) == decimal(q as nat) + "M"@,
        1000 <= n < 1_000_000 ==> compact_count(n) == short_decimal(n, 1000) + "k"@,
        1_000_000 <= n ==> compact_count(n) == short_decimal(n, 1_000_000) + "M"@,
{
    quotients_are_near(n, 1000, q);
    quotients_are_near(n, 1_000_000, q);
}

// ---- The context overlay --------------------------------------------------

/// The header tells what is used of the window and its share in percent, or what is used
/// alone where no window is known. The share is rounded down, and ends at 999.
pub proof fn headers_tell_the_share(used: int, w: u64)
    requires
        0 <= used,
        used * 100 <= u64::MAX,
    ensures
        header(used, None) == compact_count(used) + " tokens"@,
        header(used, Some(0)) == compact_count(used) + " tokens"@,
        w > 0 ==> header(used, Some(w)) == compact_count(used) + " / "@ + compact_count(w as int)
            + "  ("@ + decimal(percent(used, w as int) as nat) + "%)"@,
        w > 0 ==> percent(used, w as int) <= 999 && percent(used, w as int) * w <= used * 100,
        w > 0 && used * 100 < 1000 * w ==> used * 100 < (percent(used, w as int) + 1) * w,
        w > 0 && used * 100 >= 999 * w ==> percent(used, w as int) == 999,
{
    if w > 0 {
        let a = used * 100;
        let q = a / (w as int);
        vstd::arithmetic::div_mod::lemma_fundamental_div_mod(a, w as int);
        vstd::arithmetic::div_mod::lemma_mod_bound(a, w as int);
        assert(q * w == w * q) by (nonlinear_arith);
        assert((q + 1) * w == q * w + w) by (nonlinear_arith);
        if q > 999 {
            assert(999 * w <= q * w) by (nonlinear_arith)
                requires
                    q > 999,
                    w > 0,
            ;
            if a < 1000 * w {
                assert(1000 * w <= q * w) by (nonlinear_arith)
                    requires
                        q >= 1000,
                        w > 0,
                ;
            }
        }
        if a >= 999 * w && q < 999 {
            assert((q + 1) * w <= 999 * w) by (nonlinear_arith)
                requires
                    q + 1 <= 999,
                    w > 0,
            ;
        }
    }
}

/// The legend has a row for each category that holds tokens, in order, with its name and
/// its count.
pub proof fn legends_name_the_categories(c: Seq<Category>, x: Category)
    ensures
        legend(Seq::empty()).len() == 0,
        x.tokens == 0 ==> legend(c.push(x)) == legend(c),
        x.tokens > 0 ==> {
            let l = legend(c.push(x));
            let row = l[l.len() - 1];
            &&& l.len() == legend(c).len() + 1
            &&& l.take(l.len() - 1) == legend(c)
            &&& row.len() == 3
            &&& row[0].text == seq!['█', ' '] && row[0].style == Style::fg(
                Color::Indexed(x.color_index),
            )
            &&& row[1].text == x.name@ + "  "@
            &&& row[2].text == compact_count(x.tokens as int)
        },
        total_tokens(c.push(x)) == total_tokens(c) + x.tokens,
{
    assert(c.push(x).drop_last() =~= c);
    if x.tokens > 0 {
        let l = legend(c.push(x));
        assert(l.take(l.len() - 1) =~= legend(c));
    }
}

/// The overlay shows its header, the bar where it has room for one, the legend, and what
/// is free of the window.
pub proof fn overlays_show_the_parts(c: Seq<Category>, window: Option<u64>, width: u16)
    ensures
        ({
            let l = pane_lines(c, window, width);
            let used = total_tokens(c) as int;
            let n = if legend(c).len() == 0 {
                1int
            } else {
                legend(c).len() as int
            };
            let barred = width >= 8 && total_tokens(c) <= u64::MAX && (window is Some && window->0
                > 0 || used > 0);
            let free = window is Some && window->0 > used;
            &&& l[0].len() == 1 && l[0][0].text == header(used, window)
            &&& l[1].len() == 0
            &&& total_tokens(c) <= u64::MAX ==> l.len() == 2 + n + (if barred {
                2int
            } else {
                0
            }) + (if free {
                1int
            } else {
                0
            })
            &&& free ==> l[l.len() - 1][1].text == "free"@ + "  "@ && l[l.len() - 1][2].text
                == compact_count(window->0 - used)
            &&& !free && legend(c).len() == 0 ==> l[l.len() - 1][0].text == "context is empty"@
            &&& !free && legend(c).len() > 0 ==> l[l.len() - 1] == legend(c)[legend(c).len() - 1]
        }),
{
    let used = total_tokens(c) as int;
    let (denom, free_index) = bar_basis(used, window);
    if total_tokens(c) <= u64::MAX {
        bar_fills_exactly(c, denom, width, free_index);
    }
}

/// `r` is what `cells` become when some of them get one more: those that were not served
/// yet and have the larger rest, the earlier of equal ones first.
pub open spec fn served(cells: Seq<int>, rems: Seq<int>, r: Seq<int>) -> bool {
    &&& r.len() == cells.len()
    &&& forall|i: int|
        0 <= i < r.len() ==> (#[trigger] r[i]) == cells[i] || r[i] == cells[i] + 1 && rems[i] >= 0
    &&& forall|i: int, j: int|
        0 <= i < r.len() && 0 <= j < r.len() && #[trigger] r[i] == cells[i] && #[trigger] r[j]
            == cells[j] + 1 && rems[i] >= 0 ==> rems[j] > rems[i] || rems[j] == rems[i] && j < i
}

proof fn lemma_largest(s: Seq<int>)
    ensures
        s.len() > 0 ==> 0 <= largest(s) < s.len(),
        s.len() == 0 ==> largest(s) == -1,
        forall|k: int|
            0 <= k < s.len() ==> s[largest(s)] >= #[trigger] s[k] && (k < largest(s)
                ==> s[largest(s)] > s[k]),
    decreases s.len(),
{
    if s.len() > 0 {
        let t = s.drop_last();
        lemma_largest(t);
        assert forall|k: int| 0 <= k < s.len() implies s[largest(s)] >= #[trigger] s[k] && (k
            < largest(s) ==> s[largest(s)] > s[k]) by {
            if k < t.len() {
                assert(t[k] == s[k]);
            }
        }
    }
}

proof fn lemma_served(cells: Seq<int>, rems: Seq<int>, left: int)
    requires
        cells.len() == rems.len(),
    ensures
        served(cells, rems, hand_out(cells, rems, left)),
    decreases left,
{
    let i0 = largest(rems);
    lemma_largest(rems);
    if left > 0 && i0 >= 0 && rems[i0] >= 0 {
        let c = cells.update(i0, cells[i0] + 1);
        let m = rems.update(i0, -1);
        lemma_served(c, m, left - 1);
        let r = hand_out(cells, rems, left);
        assert(r == hand_out(c, m, left - 1));
        assert forall|i: int, j: int|
            0 <= i < r.len() && 0 <= j < r.len() && #[trigger] r[i] == cells[i] && #[trigger] r[j]
                == cells[j] + 1 && rems[i] >= 0 implies rems[j] > rems[i] || rems[j] == rems[i] && j
            < i by {
            assert(r[i0] == c[i0]);
            assert(i != i0);
            assert(r[i] == c[i]);
            if j != i0 {
                assert(r[j] == c[j] + 1);
            }
        }
    }
}

/// Each part of the bar gets its whole cells, or one more. The cells that are left over
/// go to the parts with the largest rests, the earlier of equal ones first.
pub proof fn bars_are_shared_fairly(ws: Seq<(int, u8)>, bar: int, i: int, j: int)
    requires
        0 <= i < ws.len(),
        0 <= j < ws.len(),
        forall|k: int| 0 <= k < ws.len() ==> 0 <= (#[trigger] ws[k]).0,
        weight_sum(ws) > 0,
        bar > 0,
    ensures
        ({
            let whole = weight_sum(ws);
            let cells = cell_counts(ws, bar);
            &&& cells.len() == ws.len()
            &&& cells[i] == ws[i].0 * bar / whole || cells[i] == ws[i].0 * bar / whole + 1
            &&& cells[i] == ws[i].0 * bar / whole && cells[j] == ws[j].0 * bar / whole + 1
                ==> ws[j].0 * bar % whole > ws[i].0 * bar % whole || ws[j].0 * bar % whole
                == ws[i].0 * bar % whole && j < i
        }),
{
    let whole = weight_sum(ws);
    let base = floors(ws, whole, bar);
    let rems = remainders(ws, whole, bar);
    lemma_served(base, rems, bar - sum_ints(base));
    let cells = cell_counts(ws, bar);
    assert(base[i] == ws[i].0 * bar / whole && base[j] == ws[j].0 * bar / whole);
    assert(rems[i] == ws[i].0 * bar % whole && rems[j] == ws[j].0 * bar % whole);
    vstd::arithmetic::div_mod::lemma_mod_bound(ws[i].0 * bar, whole);
    assert(cells[i] == base[i] || cells[i] == base[i] + 1);
    assert(cells[j] == base[j] || cells[j] == base[j] + 1);
}

/// The bar stands for the window, with its free rest, or for what is used where no window
/// is known; its cells are blocks in the colors of the parts.
pub proof fn bars_stand_for_the_window(used: u64, window: Option<u64>, s: Seq<Segment>, i: int)
    requires
        0 <= i < s.len(),
    ensures
        window is Some && window->0 > 0 ==> bar_basis(used as int, window) == (
            window->0,
            Some(MUTED_COLOR_INDEX),
        ),
        window is None || window->0 == 0 ==> bar_basis(used as int, window) == (
            used,
            None::<u8>,
        ),
        bar_line(s).len() == s.len(),
        bar_line(s)[i].text.len() == s[i].width,
        forall|k: int| 0 <= k < s[i].width ==> #[trigger] bar_line(s)[i].text[k] == '█',
        bar_line(s)[i].style == Style::fg(Color::Indexed(s[i].color_index)),
{
}

/// The prompt for the daemon tells what is wrong, offers its three ways, marks the row in
/// focus, and shows the error of a start that failed.
pub proof fn daemon_prompts_tell_the_state(v: PromptView, i: int)
    requires
        0 <= i < 3,
    ensures
        ({
            let l = v.lines();
            let label = if i == 0 {
                "Start the daemon and connect (Recommended)"@
            } else if i == 1 {
                "Continue without daemon"@
            } else {
                "Exit"@
            };
            &&& v.status is NotRunning ==> l[0][0].text == "The cockpit daemon is not running."@
            &&& v.status is Stale ==> l[0][0].text
                == "A stale daemon pid file was found, but the socket isn't responding."@
            &&& l[5 + i][1].text == label
            &&& l[5 + i][0].text == if v.cursor == i {
                "▸ "@
            } else {
                "  "@
            }
            &&& l[9][0].text == "  pid file: "@ + v.pid_file + "    socket: "@ + v.socket
            &&& v.error is None ==> l.len() == 11
            &&& v.error is Some ==> l.len() == 13 && l[12][0].text == v.error->0
        }),
{
}

} // verus!
