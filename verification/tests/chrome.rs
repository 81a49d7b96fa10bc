use cockpit_tui::chrome::{
    caffeinate_glyph_spans, jobs_strip_spans, plan_status_spans, repo_counts, side_glyph_spans,
};
use cockpit_tui::launch::{PlanStatusCounts, RepoStatus};
use cockpit_tui::style::Color;

const PLAN_YELLOW: Color = Color::Rgb(0xf8, 0xd7, 0x49);

#[test]
fn plan_status_absent_when_all_zero_and_omits_zero_segments() {
    // Nothing unfinished → the whole slot is absent.
    assert!(plan_status_spans(PlanStatusCounts::default()).is_empty());

    // Only in-progress + interruptions: the ready segment is omitted, and
    // the interruptions glyph is present (bold/actionable).
    let counts = PlanStatusCounts {
        ready: 0,
        in_progress: 1,
        interruptions: 2,
    };
    let text: String = plan_status_spans(counts)
        .iter()
        .map(|s| s.text.as_str())
        .collect();
    assert!(text.contains("▶1"), "in-progress segment: {text}");
    assert!(text.contains("?2"), "interruptions segment: {text}");
    assert!(!text.contains("⧖"), "zero ready segment omitted: {text}");
}

#[test]
fn plan_status_uses_plan_yellow_unfilled() {
    let spans = plan_status_spans(PlanStatusCounts {
        ready: 3,
        in_progress: 0,
        interruptions: 0,
    });
    // Plan-yellow foreground, no background fill (distinct from the
    // branch pill's filled badge).
    let glyph = spans
        .iter()
        .find(|s| s.text.contains("⧖"))
        .expect("ready segment present");
    assert_eq!(glyph.style.fg, Some(PLAN_YELLOW));
    assert_eq!(glyph.style.bg, None, "unfilled — no background");
}

#[test]
fn side_glyph_present_only_when_active() {
    // Off in the main session; an additive indicator while a `/side`
    // side conversation is open (never a permanent slot).
    assert!(side_glyph_spans(false).is_empty());
    let spans = side_glyph_spans(true);
    assert_eq!(spans.len(), 1);
    assert!(spans[0].text.contains("side"));
}

#[test]
fn repo_counts_leave_out_zeros() {
    let mut repo = RepoStatus {
        branch: "main".to_string(),
        staged: 2,
        unstaged: 0,
        unpushed: 3,
    };
    assert_eq!(repo_counts(&repo), "+2 ^3");
    repo.unstaged = 1;
    assert_eq!(repo_counts(&repo), "+2 ~1 ^3");
    repo.staged = 0;
    repo.unstaged = 0;
    repo.unpushed = 0;
    assert_eq!(repo_counts(&repo), "");
}

#[test]
fn idle_slots_take_no_room() {
    assert!(caffeinate_glyph_spans(false).is_empty());
    assert!(!caffeinate_glyph_spans(true).is_empty());
    assert!(jobs_strip_spans(&Vec::new()).is_empty());
}

#[test]
fn jobs_show_their_iterations() {
    let jobs = vec![
        ("loop".to_string(), "watch".to_string(), 3),
        ("background".to_string(), "build".to_string(), 0),
    ];
    let text: String = jobs_strip_spans(&jobs).iter().map(|s| s.text.as_str()).collect();
    assert!(text.contains("watch 3"), "{text}");
    assert!(text.contains("build"), "{text}");
    assert!(!text.contains("build 0"), "{text}");
}
