use cockpit_tui::app::control::DispatchOutcome;
use cockpit_tui::nav::{windowed_scroll, wrap_next, wrap_prev};
use cockpit_tui::tag::{completed_tag_span, completed_tag_span_forward};

fn none() -> Vec<String> {
    Vec::new()
}

#[test]
fn bare_tag_at_eof_is_deletable() {
    // `@foo` with cursor at end (terminated by EOF).
    let b = "@foo";
    assert_eq!(completed_tag_span(b, b.len(), &none()), Some((0, 4)));
}

#[test]
fn bare_tag_before_space_is_deletable() {
    // `@foo bar`, cursor right after `@foo` (index 4, space follows).
    assert_eq!(completed_tag_span("@foo bar", 4, &none()), Some((0, 4)));
}

#[test]
fn cursor_mid_tag_is_not_deletable() {
    // cursor inside `@foo` (index 2) → normal char delete.
    assert_eq!(completed_tag_span("@foo", 2, &none()), None);
}

#[test]
fn trailing_space_is_not_a_tag_edge() {
    // `@foo ` cursor after the space → first backspace removes space.
    assert_eq!(completed_tag_span("@foo ", 5, &none()), None);
}

#[test]
fn quoted_tag_is_deletable_as_a_whole() {
    let b = "@\"my file.rs\"";
    assert_eq!(completed_tag_span(b, b.len(), &none()), Some((0, b.len())));
}

#[test]
fn tracked_spaced_path_is_deletable() {
    let accepted = vec!["src/my file.rs".to_string()];
    let b = "@src/my file.rs";
    assert_eq!(
        completed_tag_span(b, b.len(), &accepted),
        Some((0, b.len()))
    );
}

#[test]
fn email_at_is_not_a_tag() {
    // `user@host` — `@` not at a word boundary.
    assert_eq!(completed_tag_span("user@host", 9, &none()), None);
}

#[test]
fn forward_delete_bare_tag() {
    // cursor at the `@` of `@foo bar`.
    assert_eq!(
        completed_tag_span_forward("@foo bar", 0, &none()),
        Some((0, 4))
    );
}

#[test]
fn forward_delete_quoted_tag() {
    let b = "@\"my file.rs\" rest";
    assert_eq!(completed_tag_span_forward(b, 0, &none()), Some((0, 13)));
}

/// The slash-menu cursor mirrors the `@`-popup: the highlight moves
/// with the same wrap math the handler applies, and the default
/// highlight is index 0 — the frequency-ranked top match (see
/// `slash_rank_tests`), preserving "type `/foo` + Enter runs the top
/// match" muscle memory.
#[test]
fn cursor_default_is_top_match_and_wraps() {
    // A fresh slash session starts on the top-ranked match.
    let mut sel = 0usize;
    let n = 3usize; // e.g. /settings, /session, /stats
    assert_eq!(sel, 0, "default highlight is the top match");
    // Up from the top wraps to the last.
    sel = wrap_prev(sel, n);
    assert_eq!(sel, 2);
    // Down from the last wraps back to the top.
    sel = wrap_next(sel, n);
    assert_eq!(sel, 0);
    // Interior Down steps normally.
    sel = wrap_next(sel, n);
    assert_eq!(sel, 1);
}

/// Recall suppression is scoped to "menu visible": the handler routes
/// Up/Down to slash-nav exactly when `slash_query().is_some()`, and to
/// composer history recall otherwise. This models that branch.
#[test]
fn history_recall_suppressed_only_while_menu_visible() {
    fn up_does_slash_nav(slash_query_is_some: bool) -> bool {
        // The handler's gate: while a slash query is active, Up/Down
        // move the menu cursor and return early; otherwise they fall
        // through to `history_up`/`history_down`.
        slash_query_is_some
    }
    assert!(up_does_slash_nav(true), "menu visible → slash nav");
    assert!(
        !up_does_slash_nav(false),
        "menu not visible → history recall resumes"
    );
}

/// A single-item match set (the common `/foo` exact-prefix case)
/// stays on its one item under either arrow.
#[test]
fn single_match_stays_put() {
    assert_eq!(wrap_next(0, 1), 0);
    assert_eq!(wrap_prev(0, 1), 0);
}

/// Reproduce `submit_input`'s working-span teardown rule without a
/// live daemon. The bug was that a failed-start submit left `busy`
/// stuck `true` forever, since `AgentIdle` (the sole falling edge)
/// never arrives when no worker was spawned. This models the exact
/// production gate (`owns_working_span && outcome.span_orphaned()`)
/// against the `begin`/`end_working_span` semantics (`busy` true on
/// rising edge, false on falling edge).
fn busy_after_fresh_submit(outcome: DispatchOutcome) -> bool {
    // Fresh-submit path always owns the rising edge it just opened.
    let owns_working_span = true;
    let mut busy = true; // begin_working_span() set this.
    if owns_working_span && outcome.span_orphaned() {
        busy = false; // end_working_span() lowers it.
    }
    busy
}

#[test]
fn runner_failed_clears_busy() {
    // The reported stuck-span case: runner is `Some(Err(_))`.
    assert!(!busy_after_fresh_submit(DispatchOutcome::RunnerFailed));
}

#[test]
fn queue_full_and_driver_closed_clear_busy() {
    assert!(!busy_after_fresh_submit(DispatchOutcome::QueueFull));
    assert!(!busy_after_fresh_submit(DispatchOutcome::DriverClosed));
}

#[test]
fn successful_send_keeps_busy_until_agent_idle() {
    // A normal turn stays "working"; only `AgentIdle` ends it.
    assert!(busy_after_fresh_submit(DispatchOutcome::Sent));
}

#[test]
fn queue_path_never_tears_down_a_span() {
    // The busy/queue path started no span this submit, so even an
    // orphaning outcome must leave any in-flight turn's span alone.
    let owns_working_span = false;
    let mut busy = true; // a legitimately in-flight turn.
    if owns_working_span && DispatchOutcome::RunnerFailed.span_orphaned() {
        busy = false;
    }
    assert!(busy);
}

const W: usize = 6;

#[test]
fn no_scroll_when_list_fits() {
    assert_eq!(windowed_scroll(0, 0, 5, W), 0);
    assert_eq!(windowed_scroll(4, 0, 5, W), 0);
}

#[test]
fn top_has_no_margin_at_index_zero() {
    // n=10: selecting 0 keeps offset 0 (nothing above to show).
    assert_eq!(windowed_scroll(0, 0, 10, W), 0);
    // selecting 1 still shows index 0 above it.
    assert_eq!(windowed_scroll(1, 0, 10, W), 0);
}

#[test]
fn scrolls_when_reaching_last_visible_row() {
    // From offset 0 (rows 0..5 visible), moving to index 5 must
    // scroll one so index 6 (the next item) is visible.
    assert_eq!(windowed_scroll(5, 0, 10, W), 1);
}

#[test]
fn end_of_list_fills_last_window_without_bottom_margin() {
    // Last index of a 10-item list with window 6 → offset 4 so the
    // final six (4..10) show, selection on the bottom row.
    assert_eq!(windowed_scroll(9, 4, 10, W), 4);
}

#[test]
fn moving_up_keeps_previous_item_visible() {
    // Coming back up to index 4 from a scrolled offset keeps a row
    // above visible.
    assert_eq!(windowed_scroll(4, 4, 10, W), 3);
}

#[test]
fn tag_spans_are_bytes() {
    let b = "é @foo";
    assert_eq!(completed_tag_span(b, b.len(), &none()), Some((3, 7)));
    assert_eq!(completed_tag_span_forward(b, 3, &none()), Some((3, 7)));
    assert_eq!(completed_tag_span_forward(b, 0, &none()), None);
}

#[test]
fn window_of_a_selection_is_stable() {
    let top = windowed_scroll(7, 0, 20, W);
    assert_eq!(top, 3);
    assert_eq!(windowed_scroll(7, top, 20, W), top);
    // Any selection lies in its window.
    for sel in 0..20 {
        let top = windowed_scroll(sel, 9, 20, W);
        assert!(top <= sel && sel < top + W);
    }
}

#[test]
fn wrapping_steps_undo_each_other() {
    for i in 0..4 {
        assert_eq!(wrap_prev(wrap_next(i, 4), 4), i);
        assert_eq!(wrap_next(wrap_prev(i, 4), 4), i);
    }
}
