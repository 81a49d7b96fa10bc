use cockpit_tui::composer::{input_prefix_width, Composer, VimMode, INPUT_PREFIX};

fn at(text: &str, cursor: usize) -> Composer {
    let mut c = Composer::new(true);
    for ch in text.chars() {
        c.insert_char(ch);
    }
    c.set_cursor(cursor);
    c
}

#[test]
fn dw_deletes_word_and_trailing_space() {
    let mut c = at("hello world", 0);
    c.delete_word_forward(false);
    assert_eq!(c.text(), "world");
    assert_eq!(c.cursor(), 0);
}

#[test]
fn db_deletes_back_to_prev_word() {
    let mut c = at("hello world", 11);
    c.delete_word_backward(false);
    assert_eq!(c.text(), "hello ");
    assert_eq!(c.cursor(), 6);
}

#[test]
fn dd_deletes_full_line_and_its_newline() {
    let mut c = at("a\nb\nc", 2); // cursor on 'b'
    c.delete_current_line();
    assert_eq!(c.text(), "a\nc");
    // Cursor should land at start of the (now-)current line.
    let (line, col) = c.cursor_line_col();
    assert_eq!((line, col), (1, 0));
}

#[test]
fn dd_on_last_line_removes_preceding_newline() {
    let mut c = at("a\nb\nc", 4); // cursor on 'c'
    c.delete_current_line();
    assert_eq!(c.text(), "a\nb");
    // Cursor lands at the start of "b" (the new last line).
    let (line, col) = c.cursor_line_col();
    assert_eq!((line, col), (1, 0));
}

#[test]
fn dd_on_trailing_empty_line_drops_dangling_newline() {
    // "a\nb\n" with cursor at byte 4 = after the final \n (the
    // empty position vim would place you on if you'd just typed
    // `<CR>` at the end). dd removes the empty trailing line by
    // dropping the dangling newline.
    let mut c = at("a\nb\n", 4);
    c.delete_current_line();
    assert_eq!(c.text(), "a\nb");
}

#[test]
fn dd_on_only_line_clears_buffer() {
    let mut c = at("just one", 4);
    c.delete_current_line();
    assert_eq!(c.text(), "");
    assert_eq!(c.cursor(), 0);
}

#[test]
fn d_dollar_deletes_to_eol() {
    let mut c = at("hello world", 5); // cursor after "hello"
    c.delete_to_line_end();
    assert_eq!(c.text(), "hello");
    assert_eq!(c.cursor(), 5);
}

#[test]
fn d_zero_deletes_to_line_start() {
    let mut c = at("hello", 5);
    c.delete_to_line_start();
    assert_eq!(c.text(), "");
    assert_eq!(c.cursor(), 0);
}

#[test]
fn open_below_inserts_newline_and_lands_on_it() {
    let mut c = at("hello\nworld", 2); // mid-"hello"
    c.open_below();
    assert_eq!(c.text(), "hello\n\nworld");
    // Cursor on the new empty line.
    let (line, col) = c.cursor_line_col();
    assert_eq!((line, col), (1, 0));
}

#[test]
fn open_above_inserts_newline_above_and_lands_on_it() {
    let mut c = at("hello\nworld", 6); // start of "world"
    c.open_above();
    assert_eq!(c.text(), "hello\n\nworld");
    // Cursor on the new empty middle line.
    let (line, col) = c.cursor_line_col();
    assert_eq!((line, col), (1, 0));
}

#[test]
fn word_forward_stops_on_punctuation() {
    let mut c = at("foo.bar baz", 0);
    c.move_word_forward(false);
    // small-w lands on the punctuation transition.
    assert_eq!(c.cursor(), 3);
}

#[test]
fn big_word_forward_skips_punctuation() {
    let mut c = at("foo.bar baz", 0);
    c.move_word_forward(true);
    // big-W treats `foo.bar` as one WORD; lands on `baz`.
    assert_eq!(c.cursor(), 8);
}

#[test]
fn gg_jumps_to_buffer_start() {
    let mut c = at("a\nb\nc", 4);
    c.move_buffer_start();
    assert_eq!(c.cursor(), 0);
}

#[test]
fn at_query_returns_partial_after_at_sign() {
    let c = at("see @src/fo", 11);
    assert_eq!(c.at_query().as_deref(), Some("src/fo"));
}

#[test]
fn at_query_none_when_email_like() {
    let c = at("ping user@example.com", 21);
    assert_eq!(c.at_query(), None);
}

#[test]
fn at_query_none_when_whitespace_between_at_and_cursor() {
    let c = at("@foo bar", 8);
    assert_eq!(c.at_query(), None);
}

#[test]
fn replace_at_token_swaps_partial_for_full_path() {
    let mut c = at("see @src/fo", 11);
    c.replace_at_token("src/foo.rs");
    assert_eq!(c.text(), "see @src/foo.rs");
    assert_eq!(c.cursor(), c.text().len());
}

#[test]
fn capital_g_lands_on_last_line_start() {
    let mut c = at("a\nb\nccc", 0);
    c.move_buffer_end();
    // Start of "ccc".
    assert_eq!(c.cursor(), 4);
}

#[test]
fn find_forward_lands_on_next_occurrence() {
    let mut c = at("hello world", 0);
    c.find_char_forward('o');
    assert_eq!(c.cursor(), 4);
}

#[test]
fn find_forward_advances_past_current_char() {
    // Cursor sits on the 'o' in "hello"; repeating `f o` should
    // skip to the second occurrence (in "world").
    let mut c = at("hello world", 4);
    c.find_char_forward('o');
    assert_eq!(c.cursor(), 7);
}

#[test]
fn find_forward_stops_at_newline() {
    let mut c = at("hello\nworld", 0);
    c.find_char_forward('w');
    // 'w' is on the next line — `f` must not cross newlines.
    assert_eq!(c.cursor(), 0);
}

#[test]
fn find_backward_lands_on_prev_occurrence() {
    let mut c = at("hello world", 10);
    c.find_char_backward('o');
    assert_eq!(c.cursor(), 7);
}

#[test]
fn find_backward_stops_at_newline() {
    let mut c = at("foo\nbar", 6);
    c.find_char_backward('f');
    // 'f' lives on the previous line.
    assert_eq!(c.cursor(), 6);
}

#[test]
fn prompt_takes_two_columns() {
    assert_eq!(INPUT_PREFIX, "❯ ");
    assert_eq!(input_prefix_width(), 2);
}

#[test]
fn cursor_counts_bytes_of_wide_characters() {
    let mut c = Composer::new(false);
    c.set("aé漢");
    assert_eq!(c.cursor(), 6);
    c.move_left();
    assert_eq!(c.cursor(), 3);
    c.move_left();
    assert_eq!(c.cursor(), 1);
    c.delete_right();
    assert_eq!(c.text(), "a漢");
    assert_eq!(c.cursor(), 1);
}

#[test]
fn vertical_moves_keep_the_column_where_they_can() {
    let mut c = at("long line\nab\nlonger line", 6);
    c.move_down();
    assert_eq!(c.cursor_line_col(), (1, 2));
    c.move_up();
    assert_eq!(c.cursor_line_col(), (0, 2));
}

#[test]
fn clicks_clamp_to_the_text() {
    let mut c = at("ab\ncdef", 0);
    c.set_cursor_from_line_col(1, 2);
    assert_eq!(c.cursor_line_col(), (1, 2));
    c.set_cursor_from_line_col(9, 99);
    assert_eq!(c.cursor_line_col(), (1, 4));
    c.set_cursor_from_line_col(0, 99);
    assert_eq!(c.cursor_line_col(), (0, 2));
}

#[test]
fn switching_vim_off_returns_to_insert() {
    let mut c = Composer::new(true);
    assert_eq!(c.vim_mode(), VimMode::Normal);
    c.set_pending_g(true);
    c.set_vim_enabled(false);
    assert_eq!(c.vim_mode(), VimMode::Insert);
    assert!(!c.pending_g());
    assert!(!c.vim_enabled());
}

#[test]
fn word_motion_uses_letters_of_all_scripts() {
    let mut c = at("größe-漢字 x", 0);
    c.move_word_forward(false);
    assert_eq!(&c.text()[c.cursor()..], "-漢字 x");
    c.move_word_forward(false);
    assert_eq!(&c.text()[c.cursor()..], "漢字 x");
    c.move_word_backward(false);
    assert_eq!(&c.text()[c.cursor()..], "-漢字 x");
}

#[test]
fn deletions_reach_the_ends_of_the_text() {
    let mut c = at("one\ntwo\nthree", 5);
    assert_eq!(c.line_count(), 3);
    c.delete_to_buffer_end();
    assert_eq!((c.text().as_str(), c.cursor()), ("one\nt", 5));
    c.delete_left();
    assert_eq!((c.text().as_str(), c.cursor()), ("one\n", 4));
    assert_eq!(c.line_count(), 2);
    c.set_cursor(2);
    c.delete_to_buffer_start();
    assert_eq!((c.text().as_str(), c.cursor()), ("e\n", 0));
    c.delete_left();
    assert_eq!((c.text().as_str(), c.cursor()), ("e\n", 0));
}

#[test]
fn replacing_needs_an_active_token() {
    let mut c = Composer::new(true);
    c.set("@foo bar");
    assert_eq!(c.at_query(), None);
    c.replace_at_token("x");
    assert_eq!((c.text().as_str(), c.cursor()), ("@foo bar", 8));
    let mut c = at("user@exa", 8);
    c.replace_at_token("x");
    assert_eq!(c.text(), "user@exa");
    let mut c = at("see @foo bar", 8);
    c.replace_at_token("x");
    assert_eq!((c.text().as_str(), c.cursor()), ("see @x bar", 6));
}

#[test]
fn the_cursor_stands_on_a_line() {
    for text in ["", "\n", "a\nb", "a\nb\n"] {
        for pos in 0..=text.len() {
            let c = at(text, pos);
            assert!(c.cursor_line_col().0 < c.line_count());
        }
    }
    assert_eq!(at("", 0).line_count(), 1);
    assert_eq!(at("a\n", 2).line_count(), 2);
    assert_eq!(at("a\n", 2).cursor_line_col(), (1, 0));
}

#[test]
fn words_are_letters_digits_and_underscores() {
    let mut c = at("ab_9-é1 x", 0);
    let mut stops = Vec::new();
    for _ in 0..3 {
        c.move_word_forward(false);
        stops.push(c.cursor());
    }
    // The cursor counts bytes: the accented letter takes two.
    assert_eq!(stops, vec![4, 5, 9]);
}
