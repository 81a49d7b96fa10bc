use cockpit_tui::context_pane::{
    bar_segments, body_lines, header_text, k_notation, Category, ContextPane, ContextSnapshot,
    Segment,
};
use cockpit_tui::key::{KeyCode, KeyEvent};
use cockpit_tui::theme::MUTED_COLOR_INDEX;

fn press(code: KeyCode) -> KeyEvent {
    KeyEvent::plain(code)
}

fn cat(name: &'static str, tokens: u64) -> Category {
    Category {
        name,
        color_index: 1,
        tokens,
    }
}

fn render_text(snapshot: &ContextSnapshot, width: u16) -> String {
    body_lines(snapshot, width)
        .iter()
        .map(|l| l.text())
        .collect::<Vec<_>>()
        .join("\n")
}

#[test]
fn k_notation_formats_compactly() {
    assert_eq!(k_notation(0), "0");
    assert_eq!(k_notation(820), "820");
    assert_eq!(k_notation(999), "999");
    assert_eq!(k_notation(1_000), "1k");
    assert_eq!(k_notation(89_200), "89.2k");
    assert_eq!(k_notation(910_800), "910.8k");
    assert_eq!(k_notation(1_000_000), "1M");
    assert_eq!(k_notation(1_500_000), "1.5M");
}

#[test]
fn header_shows_pct_when_window_known() {
    // 89.2k used of a 1M window → 8%.
    let snap = ContextSnapshot {
        categories: vec![cat("a", 89_200)],
        window: Some(1_000_000),
    };
    assert_eq!(header_text(&snap), "89.2k / 1M  (8%)");
}

#[test]
fn header_omits_pct_when_window_unknown() {
    let snap = ContextSnapshot {
        categories: vec![cat("a", 17_300), cat("b", 5_000)],
        window: None,
    };
    // No "/", no "%", just the absolute used total.
    let h = header_text(&snap);
    assert_eq!(h, "22.3k tokens");
    assert!(!h.contains('%'));
    assert!(!h.contains('/'));
}

#[test]
fn bar_segments_sum_to_exact_width() {
    // Lopsided categories + a free remainder, across an awkward width
    // that doesn't divide evenly: every cell must be assigned.
    let cats = vec![cat("a", 17_300), cat("b", 14_000), cat("c", 63_100)];
    for width in [8u16, 13, 20, 37, 80, 200] {
        let segs = bar_segments(&cats, 1_000_000, width, Some(MUTED_COLOR_INDEX));
        let total: u16 = segs.iter().map(|s| s.width).sum();
        assert_eq!(total, width, "width {width} did not fill exactly");
    }
}

#[test]
fn bar_segments_no_overflow_when_fully_used() {
    // used == denom: no free budget; the bar is fully colored by
    // category and still sums to the exact width (no overflow).
    let cats = vec![cat("a", 300), cat("b", 700)];
    let segs = bar_segments(&cats, 1_000, 33, Some(MUTED_COLOR_INDEX));
    let total: u16 = segs.iter().map(|s| s.width).sum();
    assert_eq!(total, 33);
    // No free segment drawn (it would be zero-width and filtered out).
    assert!(segs.iter().all(|s| s.color_index != MUTED_COLOR_INDEX));
}

#[test]
fn unknown_window_omits_free_segment() {
    // No free color → no trailing free segment; the whole bar is
    // apportioned over the used total and sums to the width exactly.
    let cats = vec![cat("a", 100), cat("b", 200), cat("c", 700)];
    let used = 1_000;
    let segs = bar_segments(&cats, used, 40, None);
    let total: u16 = segs.iter().map(|s| s.width).sum();
    assert_eq!(total, 40);
    assert_eq!(segs.len(), 3, "no free segment appended");
}

#[test]
fn zero_token_categories_omitted_from_legend_but_counted() {
    // `empty` has zero tokens: it must not appear in the legend, but
    // the totals are unaffected (it contributes nothing anyway). A
    // non-empty category still renders.
    let snap = ContextSnapshot {
        categories: vec![cat("system", 1_000), cat("empty", 0)],
        window: Some(10_000),
    };
    let text = render_text(&snap, 60);
    assert!(text.contains("system"));
    assert!(
        !text.contains("empty"),
        "zero-token category leaked into legend"
    );
    // Free budget (9k) is shown as its own legend row.
    assert!(text.contains("free"));
}

#[test]
fn no_free_legend_row_when_window_unknown() {
    let snap = ContextSnapshot {
        categories: vec![cat("system", 1_000)],
        window: None,
    };
    let text = render_text(&snap, 60);
    assert!(text.contains("system"));
    assert!(
        !text.contains("free"),
        "free row shown without a known window"
    );
}

#[test]
fn narrow_terminal_degrades_without_panic() {
    // Below MIN_BAR_WIDTH the bar is dropped but the header + legend
    // still render — and nothing panics.
    let snap = ContextSnapshot {
        categories: vec![cat("system", 1_000)],
        window: Some(10_000),
    };
    let text = render_text(&snap, 4);
    assert!(text.contains("system"));
}

#[test]
fn esc_and_q_close_the_pane() {
    let snap = ContextSnapshot {
        categories: vec![cat("a", 1)],
        window: Some(10),
    };
    let mut pane = ContextPane::open(snap);
    assert!(pane.handle_key(press(KeyCode::Esc)));
    let snap = ContextSnapshot {
        categories: vec![cat("a", 1)],
        window: Some(10),
    };
    let mut pane = ContextPane::open(snap);
    assert!(pane.handle_key(press(KeyCode::Char('q'))));
}

#[test]
fn new_builds_categories_in_fixed_order() {
    let snap = ContextSnapshot::new(100, 50, 25, 200, Some(1_000));
    let names: Vec<&str> = snap.categories.iter().map(|c| c.name).collect();
    assert_eq!(names, ["system", "sys block", "guidance", "messages"]);
    assert_eq!(snap.used(), 375);
    assert_eq!(snap.window, Some(1_000));
}

#[test]
fn rounding_follows_the_shown_digits() {
    assert_eq!(k_notation(1_949), "1.9k");
    assert_eq!(k_notation(1_950), "1.9k");
    assert_eq!(k_notation(1_951), "2.0k");
    assert_eq!(k_notation(999_949), "999.9k");
    assert_eq!(k_notation(12_345_678), "12.3M");
}

#[test]
fn largest_remainders_get_the_spare_cells() {
    // Three equal parts of ten cells: the first one gets the spare cell.
    let cats = vec![cat("a", 1), cat("b", 1), cat("c", 1)];
    let widths: Vec<u16> = bar_segments(&cats, 3, 10, None).iter().map(|s| s.width).collect();
    assert_eq!(widths, vec![4, 3, 3]);
}

#[test]
fn legend_shows_tokens_of_each_category() {
    let snap = ContextSnapshot::new(1_000, 0, 500, 2_000, Some(10_000));
    let text = render_text(&snap, 60);
    assert!(text.contains("3.5k / 10k  (35%)"));
    assert!(text.contains("guidance"));
    assert!(!text.contains("sys block"));
    assert!(text.contains("6.5k"));
}

#[test]
fn the_bar_is_filled_whatever_is_used() {
    let sum = |v: &Vec<Segment>| -> u32 { v.iter().map(|s| u32::from(s.width)).sum() };
    // More than the window holds.
    let over = vec![cat("a", 2_000)];
    let segs = bar_segments(&over, 1_000, 10, Some(9));
    assert_eq!(segs.len(), 1);
    assert_eq!(sum(&segs), 10);
    let over = vec![cat("a", 2_000), cat("b", 0), cat("c", 1_000)];
    let segs = bar_segments(&over, 1_000, 10, Some(9));
    assert_eq!(segs.iter().map(|s| s.width).collect::<Vec<_>>(), vec![7, 3]);
    // Less, and no color for the rest.
    let some = vec![cat("a", 10), cat("b", 30)];
    let segs = bar_segments(&some, 1_000, 8, None);
    assert_eq!(segs.iter().map(|s| s.width).collect::<Vec<_>>(), vec![2, 6]);
    // Huge counts.
    let huge = vec![cat("a", u64::MAX), cat("b", u64::MAX)];
    assert_eq!(sum(&bar_segments(&huge, 1, 65_535, Some(9))), 65_535);
    // Nothing to draw.
    assert!(bar_segments(&vec![cat("a", 0)], 10, 10, None).is_empty());
    assert!(bar_segments(&some, 0, 10, Some(9)).is_empty());
    assert!(bar_segments(&some, 10, 0, Some(9)).is_empty());
}
