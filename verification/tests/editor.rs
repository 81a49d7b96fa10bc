use cockpit_tui::composer::VimMode;
use cockpit_tui::editor::{Editor, EditorAction, Suggestion};
use cockpit_tui::key::{KeyCode, KeyEvent};

fn press(e: &mut Editor, code: KeyCode) -> EditorAction {
    e.press(KeyEvent::plain(code), &Vec::new(), 0)
}

fn type_text(e: &mut Editor, text: &str) {
    for c in text.chars() {
        press(e, KeyCode::Char(c));
    }
}

fn pasted() -> Editor {
    let mut e = Editor::new(false);
    type_text(&mut e, "ab");
    e.paste_text("long\ntext".to_string(), 7, true);
    type_text(&mut e, "cd");
    e
}

const LABEL: &str = "[Pasted text #1, 7 tokens]";

#[test]
fn a_long_paste_is_one_block() {
    let e = pasted();
    assert_eq!(e.composer.text(), format!("ab{LABEL}cd"));
    let (wire, images) = e.registry.build_wire(e.composer.chars(), false);
    assert_eq!(wire, "ablong\ntextcd");
    assert!(images.is_empty());
}

#[test]
fn the_cursor_steps_over_a_block() {
    let mut e = pasted();
    press(&mut e, KeyCode::Left);
    press(&mut e, KeyCode::Left);
    assert_eq!(e.composer.cursor(), 2 + LABEL.len());
    press(&mut e, KeyCode::Left);
    assert_eq!(e.composer.cursor(), 2);
    press(&mut e, KeyCode::Right);
    assert_eq!(e.composer.cursor(), 2 + LABEL.len());
}

#[test]
fn a_block_is_deleted_as_a_whole() {
    let mut e = pasted();
    press(&mut e, KeyCode::Left);
    press(&mut e, KeyCode::Left);
    press(&mut e, KeyCode::Backspace);
    assert_eq!(e.composer.text(), "abcd");
    assert!(e.registry.is_empty());

    let mut e = pasted();
    press(&mut e, KeyCode::Home);
    press(&mut e, KeyCode::Right);
    press(&mut e, KeyCode::Right);
    press(&mut e, KeyCode::Delete);
    assert_eq!(e.composer.text(), "abcd");
    assert!(e.registry.is_empty());
}

#[test]
fn edits_around_a_block_leave_it_whole() {
    let mut e = pasted();
    press(&mut e, KeyCode::Home);
    type_text(&mut e, "xyz ");
    press(&mut e, KeyCode::End);
    press(&mut e, KeyCode::Backspace);
    let (wire, _) = e.registry.build_wire(e.composer.chars(), false);
    assert_eq!(wire, "xyz ablong\ntextc");
}

#[test]
fn pasting_again_behind_a_block_shows_its_text() {
    let mut e = Editor::new(false);
    e.paste_text("long\ntext".to_string(), 7, true);
    e.paste_text("long\ntext".to_string(), 7, true);
    assert_eq!(e.composer.text(), "long\ntext");
    assert!(e.registry.is_empty());
    // Another text becomes a block of its own.
    e.paste_text("other".to_string(), 2, true);
    assert!(e.composer.text().ends_with(", 2 tokens]"));
}

#[test]
fn images_go_out_in_order() {
    let mut e = Editor::new(false);
    e.insert_image_block(vec![1]);
    type_text(&mut e, " and ");
    e.insert_image_block(vec![2]);
    let (wire, images) = e.registry.build_wire(e.composer.chars(), true);
    assert_eq!(images, vec![vec![1], vec![2]]);
    assert!(wire.contains(" and "));
    let (wire, images) = e.registry.build_wire(e.composer.chars(), false);
    assert!(images.is_empty());
    assert!(wire.contains("image #1"));
}

#[test]
fn a_typed_character_can_be_taken_back() {
    let mut e = pasted();
    let before = (e.composer.text(), e.composer.cursor());
    press(&mut e, KeyCode::Char('é'));
    press(&mut e, KeyCode::Backspace);
    assert_eq!((e.composer.text(), e.composer.cursor()), before);
}

#[test]
fn recalled_messages_give_the_draft_back() {
    let mut e = Editor::new(false);
    e.prompt_history = vec!["old".to_string(), "newer".to_string()];
    type_text(&mut e, "draft");
    press(&mut e, KeyCode::Up);
    assert_eq!(e.composer.text(), "newer");
    press(&mut e, KeyCode::Up);
    assert_eq!(e.composer.text(), "old");
    press(&mut e, KeyCode::Up);
    assert_eq!(e.composer.text(), "old");
    press(&mut e, KeyCode::Down);
    press(&mut e, KeyCode::Down);
    assert_eq!(e.composer.text(), "draft");
}

#[test]
fn operators_delete_what_they_move_over() {
    let mut e = Editor::new(true);
    type_text(&mut e, "one two three");
    press(&mut e, KeyCode::Esc);
    assert_eq!(e.composer.vim_mode(), VimMode::Normal);
    press(&mut e, KeyCode::Char('0'));
    press(&mut e, KeyCode::Char('w'));
    press(&mut e, KeyCode::Char('d'));
    press(&mut e, KeyCode::Char('w'));
    assert_eq!(e.composer.text(), "one three");
    press(&mut e, KeyCode::Char('c'));
    press(&mut e, KeyCode::Char('$'));
    assert_eq!(e.composer.vim_mode(), VimMode::Insert);
    type_text(&mut e, "2");
    assert_eq!(e.composer.text(), "one 2");
    press(&mut e, KeyCode::Esc);
    press(&mut e, KeyCode::Char('d'));
    press(&mut e, KeyCode::Char('d'));
    assert_eq!(e.composer.text(), "");
}

#[test]
fn operators_take_blocks_whole() {
    let mut e = Editor::new(true);
    type_text(&mut e, "a ");
    e.paste_text("long\ntext".to_string(), 7, true);
    press(&mut e, KeyCode::Esc);
    press(&mut e, KeyCode::Char('0'));
    press(&mut e, KeyCode::Char('d'));
    press(&mut e, KeyCode::Char('d'));
    assert_eq!(e.composer.text(), "");
    assert!(e.registry.is_empty());
}

#[test]
fn a_completed_tag_is_deleted_as_a_whole() {
    let mut e = Editor::new(false);
    type_text(&mut e, "see @src/a.rs");
    e.at_dismissed = true;
    press(&mut e, KeyCode::Backspace);
    assert_eq!(e.composer.text(), "see ");
}

#[test]
fn directories_keep_the_menu_open() {
    let s = |path: &str, is_dir: bool| Suggestion {
        replacement: path.to_string(),
        display: path.to_string(),
        is_dir,
        needs_quoting: false,
    };
    let mut e = Editor::new(false);
    type_text(&mut e, "@s");
    let found = vec![s("src/", true), s("setup.py", false)];
    assert!(matches!(
        e.press(KeyEvent::plain(KeyCode::Tab), &found, 0),
        EditorAction::Done
    ));
    assert_eq!(e.composer.text(), "@src/");
    assert!(e.at_popup_active());
    e.press(KeyEvent::plain(KeyCode::Esc), &found, 0);
    assert!(!e.at_popup_active());
}
