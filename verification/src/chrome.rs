//! The status line: the working directory and the branch always show, other
//! slots only while they have something to say.

use vstd::prelude::*;
use crate::launch::{LaunchInfo, LaunchView, PlanStatusCounts, RepoStatus, RepoView};
use crate::style::{Color, LineView, Span, SpanView, Style, push_span, rawsp, sp, span_views};
use crate::text::{concat2, concat3, decimal, join, joined, push_decimal, same, texts};
use crate::theme::MUTED_COLOR_INDEX;

verus! {

/// Foreground of the plan slot.
pub open spec fn plan_yellow() -> Color {
    Color::Rgb(0xf8, 0xd7, 0x49)
}

pub open spec fn muted_style() -> Style {
    Style::fg(Color::Indexed(MUTED_COLOR_INDEX))
}

/// A count with its sign, in a list that leaves out zeros.
pub open spec fn signed_count(sign: Seq<char>, n: nat) -> Seq<Seq<char>> {
    if n > 0 {
        seq![sign + decimal(n)]
    } else {
        Seq::empty()
    }
}

/// The counts of a repository: staged, unstaged and unpushed, without zeros.
pub open spec fn repo_counts_text(repo: RepoView) -> Seq<char> {
    joined(
        signed_count("+"@, repo.staged) + signed_count("~"@, repo.unstaged) + signed_count(
            "^"@,
            repo.unpushed,
        ),
        " "@,
    )
}

pub open spec fn badge_style() -> Style {
    Style::fg(Color::Black).on(Color::Indexed(220))
}

/// The right-hand status: the directory and the branch with its counts.
pub open spec fn status_spans(info: LaunchView) -> Seq<SpanView> {
    let cwd = seq![sp(info.cwd_display, muted_style())];
    match info.repo_status {
        Some(repo) => {
            let edge = Style::fg(Color::Indexed(220));
            let counts = repo_counts_text(repo);
            let head = cwd.push(rawsp(" "@)).push(sp("▐"@, edge)).push(
                sp(" "@ + repo.branch + " "@, badge_style()),
            );
            (if counts.len() > 0 {
                head.push(sp(counts + " "@, badge_style()))
            } else {
                head
            }).push(sp("▌"@, edge))
        },
        None => cwd,
    }
}

/// The left-hand status: the model, dark yellow when it is a favorite, and the
/// agent.
pub open spec fn left_spans(info: LaunchView) -> Seq<SpanView> {
    let agent = sp(info.agent_name, Style::fg(Color::Blue));
    match info.active_model {
        Some((p, m)) => seq![
            sp(
                p + "/"@ + m,
                if info.active_model_is_favorite {
                    Style::fg(Color::Indexed(178))
                } else {
                    muted_style()
                },
            ),
            sp(" · "@, muted_style()),
            agent,
        ],
        None => seq![agent],
    }
}

/// A job of the strip: kind, label and iteration.
pub open spec fn job_span(kind: Seq<char>, label: Seq<char>, iteration: nat) -> SpanView {
    let glyph = if kind == "timer"@ {
        "⏲"@
    } else if kind == "background"@ {
        "⤓"@
    } else {
        "⟳"@
    };
    let detail = if kind == "background"@ {
        label
    } else {
        label + " "@ + decimal(iteration)
    };
    sp(glyph + " "@ + detail, Style::fg(Color::Cyan))
}

pub open spec fn job_triples(jobs: Seq<(String, String, u64)>) -> Seq<(Seq<char>, Seq<char>, nat)> {
    jobs.map_values(|j: (String, String, u64)| (j.0@, j.1@, j.2 as nat))
}

/// The strip of running jobs; nothing without jobs.
pub open spec fn jobs_strip(jobs: Seq<(Seq<char>, Seq<char>, nat)>) -> Seq<SpanView>
    decreases jobs.len(),
{
    if jobs.len() == 0 {
        Seq::empty()
    } else {
        let (kind, label, n) = jobs.last();
        let before = if jobs.len() == 1 {
            seq![sp("  "@, muted_style())]
        } else {
            jobs_strip(jobs.drop_last()).push(sp(" · "@, muted_style()))
        };
        before.push(job_span(kind, label, n))
    }
}

/// A plan count with its glyph, preceded by a space when it is not the first.
pub open spec fn plan_segment(
    before: Seq<SpanView>,
    glyph: Seq<char>,
    n: u64,
    style: Style,
) -> Seq<SpanView> {
    if n == 0 {
        before
    } else {
        (if before.len() > 0 {
            before.push(sp(" "@, Style::fg(plan_yellow())))
        } else {
            before
        }).push(sp(glyph + decimal(n as nat), style))
    }
}

/// The plan slot: nothing when all counts are zero.
pub open spec fn plan_spans(counts: PlanStatusCounts) -> Seq<SpanView> {
    if counts.ready == 0 && counts.in_progress == 0 && counts.interruptions == 0 {
        Seq::empty()
    } else {
        let plain = Style::fg(plan_yellow());
        let ready = plan_segment(Seq::empty(), "⧖"@, counts.ready, plain);
        let running = plan_segment(ready, "▶"@, counts.in_progress, plain);
        plan_segment(running, "?"@, counts.interruptions, plain.bold()).push(sp(" "@, plain))
    }
}

/// The mark of a machine that is kept awake.
pub open spec fn caffeinate_spans(active: bool) -> LineView {
    if active {
        seq![sp("☕ "@, Style::fg(Color::Cyan))]
    } else {
        Seq::empty()
    }
}

/// The mark of an open side conversation.
pub open spec fn side_spans(active: bool) -> LineView {
    if active {
        seq![sp("⑃ side "@, Style::fg(Color::Magenta))]
    } else {
        Seq::empty()
    }
}

/// The optional slots take no room while there is nothing to show.
pub proof fn idle_slots_are_empty()
    ensures
        plan_spans(PlanStatusCounts { ready: 0, in_progress: 0, interruptions: 0 }).len() == 0,
        jobs_strip(Seq::empty()).len() == 0,
        caffeinate_spans(false).len() == 0,
        side_spans(false).len() == 0,
{
}

fn push_count(parts: &mut Vec<String>, sign: &str, n: u64)
    ensures
        texts(final(parts)@) == texts(old(parts)@) + signed_count(sign@, n as nat),
{
    if n > 0 {
        let mut s: String = String::from_str(sign);
        push_decimal(&mut s, n);
        parts.push(s);
    }
    proof {
        assert(texts(parts@) =~= texts(old(parts)@) + signed_count(sign@, n as nat));
    }
}

/// The counts of a repository: `+staged ~unstaged ^unpushed`, without zeros.
pub fn repo_counts(repo: &RepoStatus) -> (r: String)
    ensures
        r@ == repo_counts_text(repo@),
{
    let mut parts: Vec<String> = Vec::new();
    push_count(&mut parts, "+", repo.staged);
    push_count(&mut parts, "~", repo.unstaged);
    push_count(&mut parts, "^", repo.unpushed);
    proof {
        let v = repo@;
        assert(texts(parts@) =~= signed_count("+"@, v.staged) + signed_count("~"@, v.unstaged)
            + signed_count("^"@, v.unpushed));
    }
    join(&parts, " ")
}

/// The right-hand status line.
pub fn status_line_spans(info: &LaunchInfo) -> (r: Vec<Span>)
    ensures
        span_views(r@) == status_spans(info@),
{
    let mut spans: Vec<Span> = Vec::new();
    push_span(
        &mut spans,
        Span::styled(info.cwd_display.clone(), Style::fg(Color::Indexed(MUTED_COLOR_INDEX))),
    );
    match &info.repo_status {
        Some(repo) => {
            let badge: Style = Style::fg(Color::Black).on(Color::Indexed(220));
            let edge: Style = Style::fg(Color::Indexed(220));
            push_span(&mut spans, Span::raw(String::from_str(" ")));
            push_span(&mut spans, Span::new("▐", edge));
            push_span(&mut spans, Span::styled(concat3(" ", repo.branch.as_str(), " "), badge));
            let counts: String = repo_counts(repo);
            if !counts.as_str().is_empty() {
                push_span(&mut spans, Span::styled(concat2(counts.as_str(), " "), badge));
            }
            push_span(&mut spans, Span::new("▌", edge));
        },
        None => {},
    }
    proof {
        assert(span_views(spans@) =~= status_spans(info@));
    }
    spans
}

/// The left-hand status line: `provider/model · agent`.
pub fn left_status_spans(info: &LaunchInfo) -> (r: Vec<Span>)
    ensures
        span_views(r@) == left_spans(info@),
{
    let muted: Style = Style::fg(Color::Indexed(MUTED_COLOR_INDEX));
    let mut spans: Vec<Span> = Vec::new();
    match &info.active_model {
        Some((provider, model)) => {
            let style: Style = if info.active_model_is_favorite {
                Style::fg(Color::Indexed(178))
            } else {
                muted
            };
            push_span(
                &mut spans,
                Span::styled(concat3(provider.as_str(), "/", model.as_str()), style),
            );
            push_span(&mut spans, Span::new(" · ", muted));
        },
        None => {},
    }
    push_span(&mut spans, Span::styled(info.agent_name.clone(), Style::fg(Color::Blue)));
    proof {
        assert(span_views(spans@) =~= left_spans(info@));
    }
    spans
}

/// The strip of running jobs, given as kind, label and iteration.
pub fn jobs_strip_spans(jobs: &Vec<(String, String, u64)>) -> (r: Vec<Span>)
    ensures
        span_views(r@) == jobs_strip(job_triples(jobs@)),
{
    let muted: Style = Style::fg(Color::Indexed(MUTED_COLOR_INDEX));
    let mut spans: Vec<Span> = Vec::new();
    let ghost all = job_triples(jobs@);
    let mut i: usize = 0;
    proof {
        assert(all.take(0) =~= Seq::empty());
        assert(span_views(spans@) =~= Seq::empty());
    }
    while i < jobs.len()
        invariant
            i <= jobs@.len(),
            all == job_triples(jobs@),
            muted == muted_style(),
            span_views(spans@) == jobs_strip(all.take(i as int)),
        decreases jobs@.len() - i,
    {
        proof {
            let t = all.take(i + 1);
            assert(t.drop_last() =~= all.take(i as int));
            assert(t.last() == all[i as int]);
        }
        if i == 0 {
            push_span(&mut spans, Span::new("  ", muted));
        } else {
            push_span(&mut spans, Span::new(" · ", muted));
        }
        let kind: &String = &jobs[i].0;
        let label: &String = &jobs[i].1;
        let background: bool = same(kind.as_str(), "background");
        let glyph: &str = if same(kind.as_str(), "timer") {
            "⏲"
        } else if background {
            "⤓"
        } else {
            "⟳"
        };
        let detail: String = if background {
            label.clone()
        } else {
            let mut d: String = concat2(label.as_str(), " ");
            push_decimal(&mut d, jobs[i].2);
            d
        };
        push_span(
            &mut spans,
            Span::styled(concat3(glyph, " ", detail.as_str()), Style::fg(Color::Cyan)),
        );
        i = i + 1;
        proof {
            assert(span_views(spans@) =~= jobs_strip(all.take(i as int)));
        }
    }
    proof {
        assert(all.take(i as int) =~= all);
    }
    spans
}

/// The mark of a machine that is kept awake.
pub fn caffeinate_glyph_spans(active: bool) -> (r: Vec<Span>)
    ensures
        span_views(r@) == caffeinate_spans(active),
{
    let mut spans: Vec<Span> = Vec::new();
    if active {
        push_span(&mut spans, Span::new("☕ ", Style::fg(Color::Cyan)));
    }
    proof {
        assert(span_views(spans@) =~= caffeinate_spans(active));
    }
    spans
}

/// The mark of an open side conversation.
pub fn side_glyph_spans(active: bool) -> (r: Vec<Span>)
    ensures
        span_views(r@) == side_spans(active),
{
    let mut spans: Vec<Span> = Vec::new();
    if active {
        push_span(&mut spans, Span::new("⑃ side ", Style::fg(Color::Magenta)));
    }
    proof {
        assert(span_views(spans@) =~= side_spans(active));
    }
    spans
}

fn push_plan_segment(spans: &mut Vec<Span>, glyph: &str, n: u64, style: Style)
    ensures
        span_views(final(spans)@) == plan_segment(span_views(old(spans)@), glyph@, n, style),
{
    if n > 0 {
        if spans.len() > 0 {
            push_span(spans, Span::new(" ", Style::fg(Color::Rgb(0xf8, 0xd7, 0x49))));
        }
        let mut text: String = String::from_str(glyph);
        push_decimal(&mut text, n);
        push_span(spans, Span::styled(text, style));
    }
}

/// The plan slot: ready `⧖`, in progress `▶` and interruptions `?`, each left
/// out when it is zero. Empty when nothing is unfinished.
pub fn plan_status_spans(counts: PlanStatusCounts) -> (r: Vec<Span>)
    ensures
        span_views(r@) == plan_spans(counts),
{
    let mut spans: Vec<Span> = Vec::new();
    proof {
        assert(span_views(spans@) =~= Seq::empty());
    }
    if counts.ready == 0 && counts.in_progress == 0 && counts.interruptions == 0 {
        return spans;
    }
    let plain: Style = Style::fg(Color::Rgb(0xf8, 0xd7, 0x49));
    push_plan_segment(&mut spans, "⧖", counts.ready, plain);
    push_plan_segment(&mut spans, "▶", counts.in_progress, plain);
    push_plan_segment(&mut spans, "?", counts.interruptions, plain.bold());
    push_span(&mut spans, Span::new(" ", plain));
    spans
}

} // verus!
