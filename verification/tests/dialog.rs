use cockpit_tui::dialog::{Answer, DialogOption, DialogOutcome, DialogState, Page};
use cockpit_tui::key::{KeyCode, KeyEvent};

/// Milliseconds on the clock.
const NOW: u64 = 10_000;

fn press(code: KeyCode) -> KeyEvent {
    KeyEvent::plain(code)
}

fn opt(id: &str) -> DialogOption {
    DialogOption::new(id, &id.to_uppercase())
}

/// An already-unlocked dialog.
fn unlocked(pages: Vec<Page>) -> DialogState {
    DialogState::new(pages, 1500, 0)
}

#[test]
fn locked_then_unlocked_transition() {
    // Just-created: locked, ignores input.
    let mut d = DialogState::new(
        vec![Page::select("?", vec![opt("a"), opt("b")])],
        50,
        NOW,
    );
    assert!(d.locked(NOW), "fresh dialog must be locked (grey border)");
    assert_eq!(
        d.handle_key(press(KeyCode::Char('j')), NOW),
        DialogOutcome::Continue
    );
    assert_eq!(d.cursor(), 0, "input ignored during lockout");

    // After the lockout window: interactive (white border).
    let later = NOW + 60;
    assert!(!d.locked(later), "lockout must elapse to interactive");
    d.handle_key(press(KeyCode::Char('j')), later);
    assert_eq!(d.cursor(), 1, "input accepted after lockout");
}

#[test]
fn jk_navigates_and_wraps_through_custom() {
    let mut d = unlocked(vec![Page::select("?", vec![opt("a"), opt("b")])]);
    // 2 options + custom affordance => 3 cursor slots.
    assert_eq!(d.cursor(), 0);
    d.handle_key(press(KeyCode::Char('j')), NOW);
    assert_eq!(d.cursor(), 1);
    d.handle_key(press(KeyCode::Char('j')), NOW);
    assert_eq!(d.cursor(), 2, "lands on the custom affordance");
    // Down from custom wraps to the top.
    d.handle_key(press(KeyCode::Down), NOW);
    assert_eq!(d.cursor(), 0);
    // Up from the top wraps to custom.
    d.handle_key(press(KeyCode::Up), NOW);
    assert_eq!(d.cursor(), 2);
}

#[test]
fn select_space_is_radio() {
    let mut d = unlocked(vec![Page::select("?", vec![opt("a"), opt("b")])]);
    d.handle_key(press(KeyCode::Char(' ')), NOW); // select a
    assert_eq!(d.selected_ids(0), &vec!["a".to_string()]);
    d.handle_key(press(KeyCode::Char('j')), NOW); // hover b
    d.handle_key(press(KeyCode::Char(' ')), NOW); // select b -> a cleared
    assert_eq!(d.selected_ids(0), &vec!["b".to_string()]);
    // Toggling the selected one clears it.
    d.handle_key(press(KeyCode::Char(' ')), NOW);
    assert!(d.selected_ids(0).is_empty());
}

#[test]
fn multiselect_space_is_independent() {
    let mut d = unlocked(vec![Page::multiselect("?", vec![opt("a"), opt("b")])]);
    d.handle_key(press(KeyCode::Char(' ')), NOW); // a
    d.handle_key(press(KeyCode::Char('j')), NOW);
    d.handle_key(press(KeyCode::Char(' ')), NOW); // b
    assert_eq!(d.selected_ids(0), &vec!["a".to_string(), "b".to_string()]);
    d.handle_key(press(KeyCode::Char('k')), NOW);
    d.handle_key(press(KeyCode::Char(' ')), NOW); // toggle a off
    assert_eq!(d.selected_ids(0), &vec!["b".to_string()]);
}

#[test]
fn single_question_enter_fast_path_submits() {
    let mut d = unlocked(vec![Page::select("?", vec![opt("a"), opt("b")])]);
    // Hover the first option, enter => choose + submit immediately.
    let out = d.handle_key(press(KeyCode::Enter), NOW);
    assert_eq!(
        out,
        DialogOutcome::Submit(vec![Answer::Single { id: "a".to_string() }])
    );
}

#[test]
fn custom_text_typing_mode_flow() {
    let mut d = unlocked(vec![Page::select("?", vec![opt("a")])]);
    // Move to the custom affordance (index 1).
    d.handle_key(press(KeyCode::Char('j')), NOW);
    assert_eq!(d.cursor(), 1);
    // Nothing typed yet: enter begins typing mode.
    d.handle_key(press(KeyCode::Enter), NOW);
    assert!(d.is_typing());
    // Type a couple chars.
    d.handle_key(press(KeyCode::Char('h')), NOW);
    d.handle_key(press(KeyCode::Char('i')), NOW);
    assert_eq!(d.custom_text(0), "hi");
    // Enter on the single-select custom field (text present) commits +
    // fast-paths to submit (lone question).
    let out = d.handle_key(press(KeyCode::Enter), NOW);
    assert_eq!(
        out,
        DialogOutcome::Submit(vec![Answer::Text { text: "hi".to_string() }])
    );
}

#[test]
fn single_select_custom_and_radio_are_mutually_exclusive() {
    // Two select pages so Enter on a select-custom field advances
    // (leaving the typed custom in place) rather than submitting — that
    // lets us come back and exercise "selecting a radio clears custom".
    let mut d = unlocked(vec![
        Page::select("q1", vec![opt("a"), opt("b")]),
        Page::select("q2", vec![opt("c")]),
    ]);
    // Select a radio option.
    d.handle_key(press(KeyCode::Char(' ')), NOW);
    assert_eq!(d.selected_ids(0), &vec!["a".to_string()]);
    // Move to the custom affordance and start typing: the radio choice
    // clears the moment the user types.
    d.handle_key(press(KeyCode::Char('j')), NOW);
    d.handle_key(press(KeyCode::Char('j')), NOW); // custom index = 2
    d.handle_key(press(KeyCode::Enter), NOW); // begin typing (empty)
    assert!(d.is_typing());
    d.handle_key(press(KeyCode::Char('x')), NOW);
    assert!(
        d.selected_ids(0).is_empty(),
        "typing custom clears the radio"
    );
    assert_eq!(d.custom_text(0), "x");
    // Enter commits the custom answer and advances to q2 (2 pages).
    d.handle_key(press(KeyCode::Enter), NOW);
    assert_eq!(d.current_page(), 1);
    // Back to q1; custom "x" is still present. Pick a radio via number
    // key now that we're in navigation mode: custom text clears.
    d.handle_key(press(KeyCode::Char('h')), NOW);
    assert_eq!(d.current_page(), 0);
    assert_eq!(d.custom_text(0), "x");
    d.handle_key(press(KeyCode::Char('1')), NOW);
    assert_eq!(d.selected_ids(0), &vec!["a".to_string()]);
    assert!(
        d.custom_text(0).is_empty(),
        "selecting a radio clears custom"
    );
}

#[test]
fn multiselect_enter_toggles_and_next_advances() {
    let mut d = unlocked(vec![
        Page::multiselect("q1", vec![opt("a"), opt("b")]),
        Page::text("q2"),
    ]);
    // Enter on the focused option toggles it (no advance).
    d.handle_key(press(KeyCode::Enter), NOW);
    assert_eq!(d.selected_ids(0), &vec!["a".to_string()]);
    assert_eq!(d.current_page(), 0, "multiselect Enter never advances");
    // Enter again toggles it back off.
    d.handle_key(press(KeyCode::Enter), NOW);
    assert!(d.selected_ids(0).is_empty());
    // Number key toggles a different option.
    d.handle_key(press(KeyCode::Char('2')), NOW);
    assert_eq!(d.selected_ids(0), &vec!["b".to_string()]);
    // Navigate to the explicit "Next" entry and Enter: advances.
    // Layout: [a, b, custom, Next] => Next at index 3. The number key
    // left the cursor on index 1, so step down to custom then Next.
    d.handle_key(press(KeyCode::Down), NOW); // index 2 (custom)
    d.handle_key(press(KeyCode::Down), NOW); // index 3 (Next)
    assert_eq!(d.cursor(), 3);
    d.handle_key(press(KeyCode::Enter), NOW);
    assert_eq!(d.current_page(), 1, "Next advanced to the next question");
}

#[test]
fn multiselect_custom_answer_is_additive() {
    let mut d = unlocked(vec![Page::multiselect("?", vec![opt("a"), opt("b")])]);
    d.handle_key(press(KeyCode::Char(' ')), NOW); // check a
    // Go to custom (index 2), type.
    d.handle_key(press(KeyCode::Char('j')), NOW);
    d.handle_key(press(KeyCode::Char('j')), NOW);
    d.handle_key(press(KeyCode::Char(' ')), NOW); // begin typing
    d.handle_key(press(KeyCode::Char('x')), NOW);
    d.handle_key(press(KeyCode::Enter), NOW); // exit typing
    let answers = d.collect_answers();
    assert_eq!(
        answers,
        vec![Answer::Multi {
            ids: vec!["a".to_string()],
            custom: Some("x".to_string())
        }]
    );
}

#[test]
fn multi_question_nav_and_confirm_validation() {
    let mut d = unlocked(vec![Page::select("q1", vec![opt("a")]), Page::text("q2")]);
    // Page 0 (single-select): Enter selects + auto-advances to page 1
    // (no fast-path submit because there are two pages).
    d.handle_key(press(KeyCode::Enter), NOW);
    assert_eq!(d.selected_ids(0), &vec!["a".to_string()]);
    assert_eq!(d.current_page(), 1, "auto-advanced to the text page");
    // The text page opens directly in typing mode.
    assert!(d.is_typing(), "freetext page opens in typing mode");
    // Enter on the (empty) text page advances to the confirm page.
    d.handle_key(press(KeyCode::Enter), NOW);
    assert!(d.on_confirm_page());
    // Enter on confirm with an unanswered q2: refuses, jumps to q2 and
    // re-enters typing mode.
    let out = d.handle_key(press(KeyCode::Enter), NOW);
    assert_eq!(out, DialogOutcome::Continue);
    assert_eq!(d.current_page(), 1, "jumped to the unanswered page");
    assert!(d.is_typing(), "landing on the text page re-enters typing");
    // Answer q2 by typing; Enter advances to confirm.
    d.handle_key(press(KeyCode::Char('z')), NOW);
    let out = d.handle_key(press(KeyCode::Enter), NOW);
    assert_eq!(out, DialogOutcome::Continue);
    assert!(d.on_confirm_page());
    // Enter submits now.
    let out = d.handle_key(press(KeyCode::Enter), NOW);
    assert_eq!(
        out,
        DialogOutcome::Submit(vec![
            Answer::Single { id: "a".to_string() },
            Answer::Text { text: "z".to_string() },
        ])
    );
}

#[test]
fn esc_cancels_even_while_typing() {
    let mut d = unlocked(vec![Page::text("q")]);
    // A freetext page opens directly in typing mode.
    assert!(d.is_typing());
    d.handle_key(press(KeyCode::Char('x')), NOW); // mid-typing
    let out = d.handle_key(press(KeyCode::Esc), NOW);
    assert_eq!(out, DialogOutcome::Cancel);
}

#[test]
fn answered_flags_track_each_page() {
    let mut d = unlocked(vec![Page::select("q1", vec![opt("a")]), Page::text("q2")]);
    assert_eq!(d.answered_flags(), vec![false, false]);
    d.handle_key(press(KeyCode::Char(' ')), NOW); // answer q1
    assert_eq!(d.answered_flags(), vec![true, false]);
}

#[test]
fn viewport_scroll_keeps_focus_in_view() {
    let options: Vec<DialogOption> = (0..12).map(|i| opt(&format!("o{i}"))).collect();
    let mut d = unlocked(vec![Page::select("?", options)]);
    // Window of 4 rows.
    d.set_viewport(4);
    assert_eq!(d.scroll(), 0);
    // Move focus down past the window; scroll follows.
    for _ in 0..6 {
        d.handle_key(press(KeyCode::Down), NOW);
    }
    assert_eq!(d.cursor(), 6);
    assert!(d.cursor() >= d.scroll());
    assert!(d.cursor() < d.scroll() + 4, "focus stays within the window");
    // Move back up above the window; scroll follows up.
    for _ in 0..6 {
        d.handle_key(press(KeyCode::Up), NOW);
    }
    assert_eq!(d.cursor(), 0);
    assert_eq!(d.scroll(), 0);
}

#[test]
fn lockout_ends_exactly_after_its_time() {
    let d = DialogState::new(vec![Page::text("q")], 1500, 1000);
    assert!(d.locked(1000));
    assert!(d.locked(2499));
    assert!(!d.locked(2500));
}

#[test]
fn esc_dismisses_once_the_lockout_is_over() {
    let mut d = DialogState::new(vec![Page::select("?", vec![opt("a")])], 1500, NOW);
    assert_eq!(d.handle_key(press(KeyCode::Esc), NOW), DialogOutcome::Continue);
    assert_eq!(d.handle_key(press(KeyCode::Esc), NOW + 1500), DialogOutcome::Cancel);
}

#[test]
fn toggling_an_option_twice_restores_it() {
    let mut d = unlocked(vec![Page::multiselect("?", vec![opt("a"), opt("b")])]);
    d.handle_key(press(KeyCode::Char(' ')), NOW);
    d.handle_key(press(KeyCode::Char(' ')), NOW);
    assert!(d.selected_ids(0).is_empty());
    assert_eq!(d.answered_flags(), vec![false]);
}
