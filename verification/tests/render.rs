use cockpit_tui::app::boxes::{
    indicator_area, render_at_popup, render_input, render_queue, render_slash_popup, render_toast,
    split_status,
};
use cockpit_tui::app::command::LlmMode;
use cockpit_tui::app::estimate::{
    diff_row_estimate, entry_rendered_rows, entry_row_estimate, format_token_count,
    fresh_chat_guidance_label, toolbox_row_estimate,
};
use cockpit_tui::app::history::{HistoryEntry, Timestamp, ToolCall, ToolCallState};
use cockpit_tui::app::selection::{
    content_bounds, extract_selection_plaintext, selection_highlight,
};
use cockpit_tui::app::slash::{Availability, UsageCounts};
use cockpit_tui::app::state::{
    App, PendingMsg, PredictNextMessage, Selection, Settings, Toast, ToastKind, VimModeSetting,
};
use cockpit_tui::app::viewport::{fit_rows, RenderedEntry, Rows};
use cockpit_tui::app::wrap::{cursor_visual_pos, wrap_logical_line_chunks};
use cockpit_tui::context_menu::ContextMenu;
use cockpit_tui::diff::DiffStyle;
use cockpit_tui::editor::Suggestion;
use cockpit_tui::geometry::Rect;
use cockpit_tui::launch::LaunchInfo;
use cockpit_tui::style::{Line, Span, Style};
use cockpit_tui::text::first_line_truncated;

fn launch() -> LaunchInfo {
    LaunchInfo {
        version: "1.0.0".to_string(),
        session_id: None,
        session_short_id: None,
        provider_line: "acme / large".to_string(),
        active_model: Some(("acme".to_string(), "large".to_string())),
        active_model_is_favorite: false,
        active_model_max_context: Some(200_000),
        active_model_supports_images: false,
        cwd_display: "~/project".to_string(),
        repo_status: None,
        agent_name: "Build".to_string(),
        user_name: None,
        banner_enabled: true,
    }
}

fn settings() -> Settings {
    Settings {
        vim: VimModeSetting::Disabled,
        diff_style: DiffStyle::Inline,
        use_emojis: true,
        agent_markdown: true,
        user_markdown: false,
        exit_tail_lines: 100,
        rich_text_copy: true,
        predict: PredictNextMessage::Short,
    }
}

fn app() -> App {
    App::new(launch(), settings(), LlmMode::Normal, true, None)
}

#[test]
fn shows_on_fresh_chat_with_estimate() {
    let est = ("AGENTS.md".to_string(), 1234u64);
    let label = fresh_chat_guidance_label(true, false, Some(&est));
    assert_eq!(label.as_deref(), Some("1.2k tokens in AGENTS.md"));
}

#[test]
fn reverts_once_history_or_usage_exists() {
    let est = ("AGENTS.md".to_string(), 1234u64);
    // History present → revert.
    assert!(fresh_chat_guidance_label(false, false, Some(&est)).is_none());
    // Usage reported → revert.
    assert!(fresh_chat_guidance_label(true, true, Some(&est)).is_none());
}

#[test]
fn no_guidance_file_falls_back() {
    assert!(fresh_chat_guidance_label(true, false, None).is_none());
}

const HERE: Availability = Availability {
    editor: true,
    lazygit: true,
};

fn row(text: &str) -> Line {
    Line::of(Span::new(text, Style::plain()))
}

fn texts(lines: &[Line]) -> Vec<String> {
    lines.iter().map(|l| l.text()).collect()
}

fn cells(s: &str) -> Vec<String> {
    s.chars().map(|c| c.to_string()).collect()
}

fn call(input: &str, output: &str) -> ToolCall {
    ToolCall {
        call_id: "c".to_string(),
        tool: "bash".to_string(),
        summary: input.to_string(),
        full_input: input.to_string(),
        output: output.to_string(),
        state: ToolCallState::Success,
    }
}

fn user(text: &str) -> HistoryEntry {
    HistoryEntry::User {
        text: text.to_string(),
        timestamp: Timestamp { hour: 1, minute: 2 },
    }
}

fn answer(text: &str) -> HistoryEntry {
    HistoryEntry::Agent {
        name: "Build".to_string(),
        text: text.to_string(),
        reasoning: "one\ntwo".to_string(),
        timestamp: Timestamp { hour: 1, minute: 2 },
        expanded: false,
        think_duration: None,
    }
}

fn drawn(lines: &[&str], chip_row: Option<usize>) -> RenderedEntry {
    RenderedEntry {
        lines: lines.iter().map(|l| row(l)).collect(),
        chip_row,
        continuations: vec![false, true],
    }
}

#[test]
fn lines_wrap_at_spaces() {
    assert_eq!(wrap_logical_line_chunks("", 5), vec![(0, 0)]);
    assert_eq!(wrap_logical_line_chunks("hello", 5), vec![(0, 5)]);
    assert_eq!(wrap_logical_line_chunks("hello big world", 8), vec![(0, 6), (6, 10), (10, 15)]);
    assert_eq!(wrap_logical_line_chunks("abcdefgh", 3), vec![(0, 3), (3, 6), (6, 8)]);
    assert_eq!(wrap_logical_line_chunks("abc", 0), vec![(0, 3)]);
}

#[test]
fn rows_tile_every_line() {
    let line = "the quick  brown-fox jumps over_the_lazy_dog again";
    for budget in 1..60 {
        let rows = wrap_logical_line_chunks(line, budget);
        assert_eq!(rows[0].0, 0);
        assert_eq!(rows[rows.len() - 1].1, line.len());
        for pair in rows.windows(2) {
            assert_eq!(pair[0].1, pair[1].0);
        }
        assert!(rows.iter().all(|r| r.1 - r.0 <= budget && r.0 < r.1));
    }
}

#[test]
fn the_cursor_follows_the_wrap() {
    // Budget 8 behind a prompt of 2.
    assert_eq!(cursor_visual_pos("hello big world", 0, 0, 2, 10), (0, 2));
    assert_eq!(cursor_visual_pos("hello big world", 0, 6, 2, 10), (1, 2));
    assert_eq!(cursor_visual_pos("hello big world", 0, 15, 2, 10), (2, 7));
    assert_eq!(cursor_visual_pos("hello big world\nx", 1, 1, 2, 10), (3, 3));
    assert_eq!(cursor_visual_pos("a", 0, 9, 2, 10), (0, 3));
    assert_eq!(cursor_visual_pos("a", 5, 0, 2, 10), (1, 2));
    assert_eq!(cursor_visual_pos("a", 0, 0, 2, 0), (0, 0));
}

#[test]
fn the_composer_scrolls_to_the_cursor() {
    let v = render_input("hello big world", 0, 15, 10, 2);
    assert_eq!(texts(&v.lines), vec!["❯ hello ", "  big ", "  world"]);
    assert_eq!((v.scroll, v.cursor_row, v.cursor_col), (1, 1, 7));
    let empty = render_input("", 0, 0, 10, 1);
    assert_eq!(texts(&empty.lines), vec!["❯ "]);
    assert_eq!((empty.scroll, empty.cursor_row, empty.cursor_col), (0, 0, 2));
}

#[test]
fn the_composer_grows_with_its_text() {
    let mut a = app();
    assert_eq!(a.input_height(80), 3);
    a.editor.composer.set("a\nb\nc");
    assert_eq!(a.input_height(80), 5);
    a.editor.composer.set(&"x".repeat(1_000));
    assert_eq!(a.input_height(80), 8);
    assert_eq!(a.geometry(80, 0, 10, 12).input, 8);
}

#[test]
fn queued_messages_have_a_box() {
    let queue = vec!["first message\nmore".to_string(), "x".to_string()];
    let lines = texts(&render_queue(&queue, false, 16, 4));
    assert_eq!(
        lines,
        vec![
            " ╭────────────╮ ",
            " │ first mes… │ ",
            " │ x          │ ",
            "╭┴────────────┴╮",
        ]
    );
    assert!(render_queue(&queue, false, 4, 4).is_empty());
    assert!(render_queue(&Vec::new(), false, 16, 4).is_empty());
}

#[test]
fn long_first_lines_are_cut() {
    assert_eq!(first_line_truncated("abc\ndef", 10), "abc");
    assert_eq!(first_line_truncated("abcdef", 4), "abc…");
    assert_eq!(first_line_truncated("abc", 0), "");
}

#[test]
fn the_slash_menu_marks_its_row() {
    let counts = UsageCounts::new();
    let lines = texts(&render_slash_popup("pl", &counts, HERE, 1, 0));
    assert_eq!(lines.len(), 6);
    assert_eq!(lines[0], "  /plan   Switch the primary agent to Plan (author a plan)");
    assert!(lines[1].starts_with("▸ /plans  Browse plans"));
    assert_eq!(lines[2], "");
    let none = texts(&render_slash_popup("zzz", &counts, HERE, 0, 0));
    assert_eq!(none[0], "  no matching command");
    // Further down the window follows.
    let all = texts(&render_slash_popup("", &counts, HERE, 20, 0));
    assert_eq!(all.iter().filter(|l| l.starts_with("▸ ")).count(), 1);
}

#[test]
fn the_file_menu_names_directories() {
    let s = |path: &str, is_dir: bool| Suggestion {
        replacement: path.to_string(),
        display: path.to_string(),
        is_dir,
        needs_quoting: false,
    };
    let found = vec![s("src/", true), s("src/a.rs", false)];
    let lines = texts(&render_at_popup(&found, 9, 0));
    assert_eq!(lines[0], "  @src/  dir");
    assert_eq!(lines[1], "▸ @src/a.rs  file");
    assert_eq!(lines.len(), 6);
    assert_eq!(texts(&render_at_popup(&Vec::new(), 0, 0))[0], "  no matching file");
}

#[test]
fn the_popup_is_the_one_that_is_active() {
    let mut a = app();
    assert!(a.render_popup(&Vec::new(), HERE).is_empty());
    assert_eq!(a.popup_lines(), 0);
    a.editor.composer.set("/he");
    assert_eq!(texts(&a.render_popup(&Vec::new(), HERE))[0], "  no matching command");
    assert_eq!(a.popup_lines(), 6);
    a.editor.composer.set("@x");
    assert_eq!(texts(&a.render_popup(&Vec::new(), HERE))[0], "  no matching file");
}

#[test]
fn toasts_are_cut_to_the_line() {
    let toast = Toast {
        text: "copied".to_string(),
        kind: ToastKind::Success,
        expires_at: 0,
    };
    assert_eq!(render_toast(&toast, 20, 1).unwrap().text(), " copied ");
    assert_eq!(render_toast(&toast, 5, 1).unwrap().text(), " cop…");
    assert!(render_toast(&toast, 0, 1).is_none());
    assert!(render_toast(&toast, 5, 0).is_none());
}

#[test]
fn the_status_line_is_shared() {
    let right = vec![Span::new("漢字", Style::plain()), Span::new("ab", Style::plain())];
    assert_eq!(split_status(&right, 20), (14, 6));
    assert_eq!(split_status(&right, 4), (0, 4));
}

#[test]
fn the_indicator_sits_at_the_right() {
    let inner = Rect::new(1, 5, 20, 3);
    assert_eq!(indicator_area("12345", inner), Some(Rect::new(16, 5, 5, 1)));
    assert_eq!(indicator_area(&"x".repeat(19), inner), None);
}

#[test]
fn token_counts_are_short() {
    assert_eq!(format_token_count(820), "820");
    assert_eq!(format_token_count(1_234), "1.2k");
    assert_eq!(format_token_count(1_000), "1.0k");
    let a = app();
    assert_eq!(a.context_indicator_text(24_000), "12% context (max 200k), 0% prunable");
    let mut b = app();
    b.launch.active_model_max_context = None;
    assert_eq!(b.context_indicator_text(1_234), "1.2k tokens, 0% prunable");
}

#[test]
fn tokens_are_counted_over_what_is_shown() {
    let mut a = app();
    a.history.push(user("four"));
    a.history.push(HistoryEntry::ToolBox {
        calls: vec![call("ab", "cde")],
        view_offset: 0,
        follow: true,
        expanded: false,
    });
    a.history.push(HistoryEntry::LocalCommand {
        label: "! ls".to_string(),
        output: "never sent".to_string(),
        failed: false,
    });
    assert_eq!(a.estimate_context_tokens(|t: &str| t.len()), 9);
    assert_eq!(a.estimate_context_tokens(|_: &str| usize::MAX), u32::MAX);
}

#[test]
fn rows_are_estimated() {
    assert_eq!(diff_row_estimate("a\nb", "c"), 4);
    assert_eq!(toolbox_row_estimate(&Vec::new(), false), 1);
    assert_eq!(toolbox_row_estimate(&vec![call("a\nb", ""), call("c", "d\ne")], true), 5);
    let many: Vec<ToolCall> = (0..9).map(|_| call("x", "")).collect();
    assert_eq!(toolbox_row_estimate(&many, false), 5);
    assert_eq!(entry_row_estimate(&user("a\nb"), false), 5);
    assert_eq!(entry_row_estimate(&answer("a"), false), 2);
    assert_eq!(entry_row_estimate(&answer("a"), true), 1);
    assert_eq!(entry_rendered_rows(&user("a\nb")), 4);
    assert_eq!(entry_rendered_rows(&answer("a")), 2);
    let mut a = app();
    a.history.push(user("a"));
    a.history.push(answer("x"));
    a.history.push(answer("y"));
    assert_eq!(a.total_history_lines(), 4 + 2 + 1);
}

#[test]
fn the_indicator_waits_and_flips_to_thinking() {
    let mut a = app();
    a.begin_span(1_000, 2);
    assert!(a.status_indicator(2_999, "...").is_none());
    assert_eq!(a.indicator_lines(2_999), 0);
    assert_eq!(
        a.status_indicator(3_000, "...").unwrap().text(),
        " Hard at work... 2s"
    );
    a.pending = Some(PendingMsg {
        name: "Build".to_string(),
        text: String::new(),
        reasoning: "hm".to_string(),
        timestamp: Timestamp { hour: 0, minute: 0 },
        started_at: 2_000,
        text_started_at: None,
        inside_think: false,
        tag_partial: String::new(),
    });
    assert!(a.status_indicator(3_900, "").unwrap().text().starts_with(" Hard at work"));
    assert_eq!(a.status_indicator(64_000, ".").unwrap().text(), " Thinking. 1m 2s");
}

#[test]
fn selections_read_like_text() {
    let grid = vec![cells("  hello   "), cells("    deep  "), cells("  end     ")];
    let area = Rect::new(0, 3, 10, 3);
    let sel = |a: (u16, u16), f: (u16, u16)| Selection {
        anchor: a,
        focus: f,
        active: false,
    };
    let conts = vec![false, false, true];
    assert_eq!(
        extract_selection_plaintext(&grid, &conts, area, sel((0, 3), (9, 5))),
        "hello\n  deep end"
    );
    // Drawn upwards it is the same.
    assert_eq!(
        extract_selection_plaintext(&grid, &conts, area, sel((9, 5), (0, 3))),
        "hello\n  deep end"
    );
    assert_eq!(
        extract_selection_plaintext(&grid, &conts, area, sel((3, 3), (5, 3))),
        "ell"
    );
    assert_eq!(content_bounds(&grid[1]), Some((4, 7)));
    assert_eq!(content_bounds(&cells("   ")), None);
    assert_eq!(
        selection_highlight(area, sel((4, 3), (2, 5)), &vec![false, true], &grid),
        vec![(3, 4, 6), (5, 2, 2)]
    );
}

#[test]
fn the_pane_is_filled_from_the_bottom() {
    let mut a = app();
    a.history.push(user("q"));
    a.history.push(answer("a"));
    a.screen.scroll_offset = 7;
    let area = Rect::new(0, 1, 20, 8);
    let shown = a.lay_out_history(
        area,
        vec![drawn(&["q"], None), drawn(&["chip", "a"], Some(0))],
        vec![row("…")],
        Vec::new(),
    );
    assert_eq!(texts(&shown), vec!["", "", "q", "", "chip", "a", "", "…"]);
    assert_eq!(a.clickable_rows[4], Some(1));
    // Gaps belong to the entry above, the streamed answer stands behind all.
    let owners = [None, None, Some(0), Some(0), Some(1), Some(1), Some(1), Some(2)];
    assert_eq!(a.entry_rows, owners);
    assert_eq!(a.cont_rows[5], true);
    assert_eq!(a.screen.scroll_offset, 0);
    assert_eq!((a.screen.total_lines, a.screen.visible_lines), (6, 8));
    assert_eq!(a.screen.chat_area, Some(area));
}

#[test]
fn a_full_pane_scrolls_with_its_banner() {
    let mut a = app();
    a.history.push(HistoryEntry::ToolBox {
        calls: vec![call("x", "")],
        view_offset: 0,
        follow: true,
        expanded: false,
    });
    a.screen.scroll_offset = 1;
    let area = Rect::new(0, 0, 20, 3);
    let shown = a.lay_out_history(
        area,
        vec![drawn(&["1", "2", "3"], None)],
        Vec::new(),
        vec![row("banner")],
    );
    // banner, 1, 2, 3, gap: one row back from the end.
    assert_eq!(texts(&shown), vec!["1", "2", "3"]);
    assert_eq!(a.box_rows, vec![Some(0), Some(0), Some(0)]);
    assert_eq!(a.screen.scroll_offset, 1);
    a.screen.scroll_offset = 99;
    let shown = a.lay_out_history(
        area,
        vec![drawn(&["1", "2", "3"], None)],
        Vec::new(),
        vec![row("banner")],
    );
    assert_eq!(texts(&shown), vec!["banner", "1", "2"]);
    assert_eq!(a.screen.scroll_offset, 2);
    assert_eq!(a.box_rows, vec![None, Some(0), Some(0)]);
}

#[test]
fn a_banner_floats_while_there_is_room() {
    let (shown, offset) = fit_rows(Rows::new(), vec![row("b1"), row("b2")], 8, 5);
    assert_eq!(texts(&shown.lines), vec!["", "", "", "b1", "b2", "", "", ""]);
    assert_eq!(offset, 0);
}

#[test]
fn indicators_stand_before_the_directory() {
    let mut a = app();
    let text = |a: &App| -> String { a.status_right().iter().map(|s| s.text.clone()).collect() };
    let idle = text(&a);
    assert!(idle.contains("~/project"));
    a.link.caffeinate_active = true;
    a.link.plan_status.interruptions = 2;
    assert_eq!(text(&a), format!("☕ ?2 {idle}"));
}

#[test]
fn a_click_finds_the_message_under_it() {
    let mut a = app();
    a.history.push(user("q1"));
    a.history.push(answer("first"));
    a.history.push(user("q2"));
    a.history.push(answer("second"));
    let area = Rect::new(0, 0, 20, 10);
    let draw = |a: &mut App| {
        let rendered = vec![
            drawn(&["q1"], None),
            drawn(&["first", "more"], None),
            drawn(&["q2"], None),
            drawn(&["second"], None),
        ];
        texts(&a.lay_out_history(area, rendered, vec![row("…")], Vec::new()))
    };
    let shown = draw(&mut a);
    assert_eq!(shown, vec!["q1", "", "first", "more", "", "q2", "", "second", "", "…"]);
    let found = |a: &App, row: usize| a.agent_message_at_or_before(row).map(|m| m.1);
    // Nothing was said before the first question.
    assert_eq!(found(&a, 0), None);
    assert_eq!(found(&a, 1), None);
    for row in 2..7 {
        assert_eq!(found(&a, row).as_deref(), Some("first"), "row {row}");
    }
    for row in [7, 8, 9, 10, 99] {
        assert_eq!(found(&a, row).as_deref(), Some("second"), "row {row}");
    }
    // The menu copies by the row that it was opened on, in every form.
    for action in ContextMenu::build_items(false) {
        let job = a.execute_context_menu_action(action, 3, 0).expect("a copy");
        assert_eq!(job.text, "first");
        assert!(a.execute_context_menu_action(action, 0, 0).is_none());
        assert_eq!(a.toast.as_ref().unwrap().text, "No agent message to copy yet.");
    }
    a.screen.chat_area = None;
    assert_eq!(found(&a, 3), None);
}
