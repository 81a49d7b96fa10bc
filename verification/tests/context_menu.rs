use cockpit_tui::context_menu::{render_context_menu, ContextMenu, ContextMenuAction};
use cockpit_tui::geometry::Rect;

fn menu(items: Vec<ContextMenuAction>) -> ContextMenu {
    ContextMenu {
        preferred_origin: (0, 0),
        clicked_chat_row: 0,
        cursor: 0,
        items,
    }
}

#[test]
fn move_cursor_wraps_at_both_ends() {
    let mut m = menu(vec![
        ContextMenuAction::CopyAsRichText,
        ContextMenuAction::CopyAsMarkdown,
        ContextMenuAction::CopyAsPlainText,
    ]);
    // Up from the first item wraps to the last.
    m.move_cursor(-1);
    assert_eq!(m.cursor, 2);
    // Down from the last item wraps to the first.
    m.move_cursor(1);
    assert_eq!(m.cursor, 0);
}

#[test]
fn move_cursor_single_item_stays_put() {
    let mut m = menu(vec![ContextMenuAction::CopyAsMarkdown]);
    m.move_cursor(1);
    assert_eq!(m.cursor, 0);
    m.move_cursor(-1);
    assert_eq!(m.cursor, 0);
}

#[test]
fn move_cursor_empty_is_noop() {
    let mut m = menu(Vec::new());
    m.move_cursor(1);
    assert_eq!(m.cursor, 0);
    m.move_cursor(-1);
    assert_eq!(m.cursor, 0);
}

fn open_menu(origin: (u16, u16)) -> ContextMenu {
    ContextMenu {
        preferred_origin: origin,
        clicked_chat_row: 0,
        cursor: 0,
        items: ContextMenu::build_items(false),
    }
}

#[test]
fn rich_text_is_offered_only_without_ssh() {
    assert_eq!(ContextMenu::build_items(true).len(), 2);
    let items = ContextMenu::build_items(false);
    assert_eq!(items.len(), 3);
    assert_eq!(items[0].label(), "Copy as rich text");
    assert_eq!(items[1].label(), "Copy as markdown");
    assert_eq!(items[2].label(), "Copy as plain text");
}

#[test]
fn menu_stays_on_the_screen() {
    let area = Rect::new(0, 0, 80, 24);
    // Room on all sides: the menu opens at the click.
    assert_eq!(open_menu((10, 5)).placement(area), Rect::new(10, 5, 22, 5));
    // At the right and lower edges it moves left and up.
    assert_eq!(open_menu((79, 23)).placement(area), Rect::new(58, 18, 22, 5));
    // A click that is off the screen by now still shows the menu inside.
    assert_eq!(open_menu((200, 100)).placement(area), Rect::new(58, 19, 22, 5));
}

#[test]
fn clicks_hit_the_rows_of_the_menu() {
    let area = Rect::new(0, 0, 80, 24);
    let m = open_menu((10, 5));
    assert_eq!(m.hit_test(12, 6, area), Some(ContextMenuAction::CopyAsRichText));
    assert_eq!(m.hit_test(12, 8, area), Some(ContextMenuAction::CopyAsPlainText));
    // The borders are no items.
    assert_eq!(m.hit_test(12, 5, area), None);
    assert_eq!(m.hit_test(12, 9, area), None);
    assert_eq!(m.hit_test(9, 6, area), None);
    // Near the edge the rows are where the menu shows.
    let edge = open_menu((79, 23));
    assert_eq!(edge.hit_test(60, 19, area), Some(ContextMenuAction::CopyAsRichText));
    assert_eq!(edge.hit_test(79, 23, area), None);
}

#[test]
fn focused_row_is_marked() {
    let mut m = open_menu((0, 0));
    m.move_cursor(1);
    let rows: Vec<String> = render_context_menu(&m).iter().map(|l| l.text()).collect();
    assert_eq!(
        rows,
        vec!["  Copy as rich text", "▸ Copy as markdown", "  Copy as plain text"]
    );
    assert_eq!(m.focused_action(), Some(ContextMenuAction::CopyAsMarkdown));
}
