use cockpit_tui::app::command::{LlmMode, PaneSide};
use cockpit_tui::app::effect::{Effect, Overlay};
use cockpit_tui::app::history::{HistoryEntry, Timestamp, ToolCall, ToolCallState};
use cockpit_tui::app::mouse::{MouseButton, MouseContext, MouseEvent, MouseKind};
use cockpit_tui::app::state::{
    App, PredictNextMessage, Settings, Split, ToastKind, VimModeSetting,
};
use cockpit_tui::composer::VimMode;
use cockpit_tui::context_pane::ContextSnapshot;
use cockpit_tui::diff::DiffStyle;
use cockpit_tui::geometry::Rect;
use cockpit_tui::launch::LaunchInfo;

fn launch() -> LaunchInfo {
    LaunchInfo {
        version: "1.0.0".to_string(),
        session_id: None,
        session_short_id: None,
        provider_line: "acme / large".to_string(),
        active_model: Some(("acme".to_string(), "large".to_string())),
        active_model_is_favorite: false,
        active_model_max_context: Some(200_000),
        active_model_supports_images: false,
        cwd_display: "~/project".to_string(),
        repo_status: None,
        agent_name: "Build".to_string(),
        user_name: None,
        banner_enabled: true,
    }
}

fn settings() -> Settings {
    Settings {
        vim: VimModeSetting::Disabled,
        diff_style: DiffStyle::Inline,
        use_emojis: true,
        agent_markdown: true,
        user_markdown: false,
        exit_tail_lines: 100,
        rich_text_copy: true,
        predict: PredictNextMessage::Short,
    }
}

fn app() -> App {
    App::new(launch(), settings(), LlmMode::Normal, true, None)
}

fn ctx() -> MouseContext {
    MouseContext {
        terminal: Rect::new(0, 0, 80, 24),
        is_ssh: false,
        now: 1_000,
    }
}

fn mouse(a: &mut App, kind: MouseKind, column: u16, row: u16) -> Effect {
    a.handle_mouse(MouseEvent { kind, column, row }, ctx())
}

fn left(a: &mut App, column: u16, row: u16) {
    assert!(matches!(
        mouse(a, MouseKind::Down(MouseButton::Left), column, row),
        Effect::Stay
    ));
}

fn drawn() -> App {
    let mut a = app();
    a.screen.chat_area = Some(Rect::new(0, 2, 80, 10));
    a.screen.input_area = Some(Rect::new(0, 14, 80, 4));
    a.screen.total_lines = 30;
    a.screen.visible_lines = 10;
    a
}

fn call(id: usize) -> ToolCall {
    ToolCall {
        call_id: format!("c{id}"),
        tool: "bash".to_string(),
        summary: "ls".to_string(),
        full_input: "ls".to_string(),
        output: String::new(),
        state: ToolCallState::Success,
    }
}

fn answer() -> HistoryEntry {
    HistoryEntry::Agent {
        name: "Build".to_string(),
        text: "hi".to_string(),
        reasoning: "because".to_string(),
        timestamp: Timestamp { hour: 1, minute: 2 },
        expanded: false,
        think_duration: None,
    }
}

#[test]
fn dragging_selects_inside_the_chat() {
    let mut a = drawn();
    left(&mut a, 5, 4);
    let s = a.screen.selection.unwrap();
    assert_eq!((s.anchor, s.focus, s.active), ((5, 4), (5, 4), true));
    mouse(&mut a, MouseKind::Drag(MouseButton::Left), 79, 23);
    assert_eq!(a.screen.selection.unwrap().focus, (79, 11));
    mouse(&mut a, MouseKind::Drag(MouseButton::Left), 0, 0);
    assert_eq!(a.screen.selection.unwrap().focus, (0, 2));
    mouse(&mut a, MouseKind::Up(MouseButton::Left), 0, 0);
    mouse(&mut a, MouseKind::Drag(MouseButton::Left), 9, 9);
    let s = a.screen.selection.unwrap();
    assert_eq!((s.focus, s.active), ((0, 2), false));
    left(&mut a, 5, 20);
    assert!(a.screen.selection.is_none());
}

#[test]
fn the_wheel_scrolls_the_chat() {
    let mut a = drawn();
    left(&mut a, 5, 4);
    mouse(&mut a, MouseKind::ScrollUp, 5, 4);
    assert_eq!(a.screen.scroll_offset, 3);
    assert!(a.screen.selection.is_none());
    for _ in 0..20 {
        mouse(&mut a, MouseKind::ScrollUp, 5, 4);
    }
    assert_eq!(a.screen.scroll_offset, 20, "the top is the end");
    mouse(&mut a, MouseKind::ScrollDown, 5, 4);
    assert_eq!(a.screen.scroll_offset, 17);
    mouse(&mut a, MouseKind::ScrollUp, 5, 20);
    assert_eq!(a.screen.scroll_offset, 17, "not over the chat");
}

#[test]
fn a_tool_box_takes_the_wheel_until_its_end() {
    let mut a = drawn();
    a.history.push(HistoryEntry::ToolBox {
        calls: (0..7).map(call).collect(),
        view_offset: 0,
        follow: true,
        expanded: false,
    });
    a.box_rows = vec![Some(0); 10];
    let view = |a: &App| match &a.history[0] {
        HistoryEntry::ToolBox { view_offset, follow, expanded, .. } => {
            (*view_offset, *follow, *expanded)
        }
        _ => panic!("expected a box"),
    };
    mouse(&mut a, MouseKind::ScrollUp, 5, 4);
    assert_eq!(view(&a), (1, false, false));
    mouse(&mut a, MouseKind::ScrollUp, 5, 4);
    assert_eq!(view(&a), (0, false, false));
    assert_eq!(a.screen.scroll_offset, 0);
    mouse(&mut a, MouseKind::ScrollUp, 5, 4);
    assert_eq!(a.screen.scroll_offset, 3);
    mouse(&mut a, MouseKind::ScrollDown, 5, 4);
    mouse(&mut a, MouseKind::ScrollDown, 5, 4);
    assert_eq!(view(&a), (2, true, false));
    left(&mut a, 5, 4);
    assert_eq!(view(&a), (2, true, true));
    left(&mut a, 5, 4);
    assert_eq!(view(&a), (2, true, false));
}

#[test]
fn a_chip_unfolds_its_message() {
    let mut a = drawn();
    a.history.push(answer());
    a.clickable_rows = vec![None, None, Some(0)];
    left(&mut a, 5, 4);
    assert!(matches!(&a.history[0], HistoryEntry::Agent { expanded: true, .. }));
    assert!(a.screen.selection.is_none());
    left(&mut a, 5, 3);
    assert!(a.screen.selection.is_some());
}

#[test]
fn a_click_places_the_cursor() {
    let mut a = drawn();
    a.editor.composer.set_vim_enabled(true);
    a.editor.composer.set("first\nsecond");
    a.editor.composer.set_vim_mode(VimMode::Normal);
    // Border and prompt come before the text.
    left(&mut a, 1 + 2 + 3, 15 + 1);
    assert_eq!(a.editor.composer.cursor_line_col(), (1, 3));
    assert_eq!(a.editor.composer.vim_mode(), VimMode::Insert);
    // Under a queue the box has no top border.
    a.editor.queue.push("waiting".to_string());
    left(&mut a, 1 + 2, 14);
    assert_eq!(a.editor.composer.cursor_line_col(), (0, 0));
    // The border itself is no text.
    a.editor.queue.clear();
    left(&mut a, 5, 14);
    assert_eq!(a.editor.composer.cursor_line_col(), (0, 0));
}

#[test]
fn the_context_menu_copies() {
    let mut a = drawn();
    mouse(&mut a, MouseKind::Down(MouseButton::Right), 5, 4);
    let m = a.context_menu.as_ref().expect("menu");
    assert_eq!((m.preferred_origin, m.clicked_chat_row, m.items.len()), ((5, 4), 2, 3));
    // Nothing to copy yet.
    left(&mut a, 6, 5);
    assert!(a.context_menu.is_none());
    assert_eq!(a.toast.as_ref().unwrap().text, "No agent message to copy yet.");
    a.history.push(answer());
    mouse(&mut a, MouseKind::Down(MouseButton::Right), 5, 4);
    match mouse(&mut a, MouseKind::Down(MouseButton::Left), 6, 6) {
        Effect::Copy(j) => assert_eq!(j.text, "hi"),
        _ => panic!("expected a copy"),
    }
    // The wheel closes it, and moves are ignored.
    mouse(&mut a, MouseKind::Down(MouseButton::Right), 5, 4);
    mouse(&mut a, MouseKind::Moved, 1, 1);
    assert!(a.context_menu.is_some());
    mouse(&mut a, MouseKind::ScrollUp, 5, 4);
    assert!(a.context_menu.is_none());
    assert_eq!(a.screen.scroll_offset, 0);
    // Outside the chat there is none.
    mouse(&mut a, MouseKind::Down(MouseButton::Right), 5, 20);
    assert!(a.context_menu.is_none());
}

#[test]
fn overlays_take_the_wheel() {
    let mut a = drawn();
    a.show_toast("hello".to_string(), ToastKind::Info, 0);
    a.set_overlay(Overlay::Plans, true);
    match mouse(&mut a, MouseKind::ScrollDown, 5, 4) {
        Effect::OverlayWheel { overlay, up } => assert_eq!((overlay, up), (Overlay::Plans, false)),
        _ => panic!("expected the overlay to scroll"),
    }
    assert!(a.toast.is_none());
    left(&mut a, 5, 4);
    assert!(a.screen.selection.is_none());
    a.set_overlay(Overlay::Plans, false);
    a.open_context_pane(ContextSnapshot::new(1, 1, 1, 1, None));
    mouse(&mut a, MouseKind::ScrollUp, 5, 4);
    assert_eq!(a.screen.scroll_offset, 0);
}

#[test]
fn the_divider_is_dragged() {
    let mut a = drawn();
    a.pane_opened(PaneSide::Left);
    a.pane.body = Some(Rect::new(0, 0, 100, 20));
    a.pane.rect = Some(Rect::new(0, 0, 50, 20));
    a.pane.divider = Some(Rect::new(50, 0, 1, 20));
    a.pane.focused = false;
    left(&mut a, 50, 3);
    assert!(a.pane.dragging);
    mouse(&mut a, MouseKind::Drag(MouseButton::Left), 30, 3);
    assert_eq!(a.pane.split, Split { part: 30, whole: 100 });
    mouse(&mut a, MouseKind::Drag(MouseButton::Left), 2, 3);
    assert_eq!(a.pane.split, Split { part: 15, whole: 100 });
    mouse(&mut a, MouseKind::Drag(MouseButton::Left), 99, 3);
    assert_eq!(a.pane.split, Split { part: 85, whole: 100 });
    mouse(&mut a, MouseKind::Up(MouseButton::Left), 99, 3);
    assert!(!a.pane.dragging);
    assert!(matches!(mouse(&mut a, MouseKind::Moved, 3, 3), Effect::Stay));
    assert!(matches!(
        mouse(&mut a, MouseKind::Down(MouseButton::Left), 3, 3),
        Effect::ForwardMouse
    ));
    assert!(a.pane.focused);
    // Right of the pane the chat has its turn.
    left(&mut a, 60, 4);
    assert!(a.screen.selection.is_some());
}
