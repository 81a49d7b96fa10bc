use cockpit_tui::dialog::question::{
    answer_to_response, InterruptOption, InterruptQuestion, InterruptQuestionSet, QuestionDialog,
    QuestionResult, ResolveResponse, MAX_DIALOG_HEIGHT, MAX_VISIBLE_OPTION_ROWS,
};
use cockpit_tui::dialog::Answer;
use cockpit_tui::key::{KeyCode, KeyEvent};

const NOW: u64 = 10_000;

fn press(code: KeyCode) -> KeyEvent {
    KeyEvent::plain(code)
}

fn opt(id: &str, label: &str) -> InterruptOption {
    InterruptOption {
        id: id.to_string(),
        label: label.to_string(),
        description: None,
    }
}

fn single_q() -> InterruptQuestionSet {
    InterruptQuestionSet {
        questions: vec![InterruptQuestion::Single {
            prompt: "DB?".to_string(),
            options: vec![opt("pg", "Postgres"), opt("sqlite", "SQLite")],
            allow_freetext: true,
        }],
    }
}

fn dialog(set: InterruptQuestionSet) -> QuestionDialog {
    QuestionDialog::new(7, String::new(), set, 0, NOW)
}

#[test]
fn submit_maps_to_single_resolve_response() {
    let iid = 42u128;
    // Zero lockout so the dialog is immediately interactive.
    let mut d = QuestionDialog::new(iid, String::new(), single_q(), 0, NOW);
    // Hover first option, enter => fast-path submit.
    assert!(d.handle_key(press(KeyCode::Enter), NOW));
    match d.take_result() {
        Some(QuestionResult::Submit {
            interrupt_id,
            responses,
        }) => {
            assert_eq!(interrupt_id, iid);
            assert!(matches!(
                responses.as_slice(),
                [ResolveResponse::Single { selected_id }] if selected_id == "pg"
            ));
        }
        other => panic!("expected Submit, got {other:?}"),
    }
}

#[test]
fn number_key_selects_and_submits_single() {
    let iid = 42u128;
    let mut d = QuestionDialog::new(iid, String::new(), single_q(), 0, NOW);
    // Pressing `2` selects the second option AND advances => fast-path
    // submit (lone question).
    assert!(d.handle_key(press(KeyCode::Char('2')), NOW));
    match d.take_result() {
        Some(QuestionResult::Submit { responses, .. }) => {
            assert!(matches!(
                responses.as_slice(),
                [ResolveResponse::Single { selected_id }] if selected_id == "sqlite"
            ));
        }
        other => panic!("expected Submit, got {other:?}"),
    }
}

#[test]
fn esc_maps_to_cancel() {
    let iid = 42u128;
    let mut d = QuestionDialog::new(iid, String::new(), single_q(), 0, NOW);
    assert!(d.handle_key(press(KeyCode::Esc), NOW));
    assert!(matches!(
        d.take_result(),
        Some(QuestionResult::Cancel { interrupt_id }) if interrupt_id == iid
    ));
}

#[test]
fn multiselect_custom_rides_as_extra_id() {
    let q = InterruptQuestion::Multi {
        prompt: "tags?".to_string(),
        options: vec![opt("a", "A")],
        allow_freetext: true,
    };
    let answer = Answer::Multi {
        ids: vec!["a".to_string()],
        custom: Some("custom".to_string()),
    };
    let resp = answer_to_response(&answer, &q);
    match resp {
        ResolveResponse::Multi { selected_ids } => {
            assert_eq!(selected_ids, vec!["a".to_string(), "custom".to_string()]);
        }
        other => panic!("expected Multi, got {other:?}"),
    }
}

#[test]
fn freetext_opens_in_typing_mode() {
    let set = InterruptQuestionSet {
        questions: vec![InterruptQuestion::Freetext {
            prompt: "Name?".to_string(),
        }],
    };
    let mut d = dialog(set);
    // No space/enter needed: typing is live immediately. A char lands
    // in the field.
    d.handle_key(press(KeyCode::Char('h')), NOW);
    d.handle_key(press(KeyCode::Char('i')), NOW);
    // Enter on a lone freetext question submits.
    assert!(d.handle_key(press(KeyCode::Enter), NOW));
    match d.take_result() {
        Some(QuestionResult::Submit { responses, .. }) => {
            assert!(matches!(
                responses.as_slice(),
                [ResolveResponse::Freetext { text }] if text == "hi"
            ));
        }
        other => panic!("expected Submit, got {other:?}"),
    }
}

#[test]
fn desired_height_grows_with_descriptions() {
    let plain = dialog(single_q());
    let with_desc = dialog(InterruptQuestionSet {
        questions: vec![InterruptQuestion::Single {
            prompt: "DB?".to_string(),
            options: vec![
                InterruptOption {
                    id: "pg".to_string(),
                    label: "Postgres".to_string(),
                    description: Some("Relational, ACID".to_string()),
                },
                InterruptOption {
                    id: "sqlite".to_string(),
                    label: "SQLite".to_string(),
                    description: Some("Embedded, single-file".to_string()),
                },
            ],
            allow_freetext: true,
        }],
    });
    assert!(
        with_desc.desired_height() > plain.desired_height(),
        "per-option descriptions add body lines"
    );
    assert!(with_desc.desired_height() <= MAX_DIALOG_HEIGHT);
}

#[test]
fn render_includes_description_and_context_header() {
    let set = InterruptQuestionSet {
        questions: vec![InterruptQuestion::Single {
            prompt: "DB?".to_string(),
            options: vec![InterruptOption {
                id: "pg".to_string(),
                label: "Postgres".to_string(),
                description: Some("Relational engine".to_string()),
            }],
            allow_freetext: true,
        }],
    };
    let d = QuestionDialog::new(
        7,
        "Choosing the storage backend".to_string(),
        set,
        0,
        NOW,
    );
    let (lines, _) = d.render_page();
    let text: String = lines
        .iter()
        .map(|l| l.text())
        .collect::<Vec<_>>()
        .join("\n");
    assert!(
        text.contains("Choosing the storage backend"),
        "context header"
    );
    assert!(text.contains("Relational engine"), "option description");
    assert!(text.contains("Postgres"), "option label");
}

#[test]
fn long_list_scrolls_keeping_focus_visible() {
    let options: Vec<InterruptOption> = (0..20)
        .map(|i| opt(&format!("o{i}"), &format!("Option {i}")))
        .collect();
    let set = InterruptQuestionSet {
        questions: vec![InterruptQuestion::Single {
            prompt: "Pick".to_string(),
            options,
            allow_freetext: true,
        }],
    };
    let mut d = dialog(set);
    // Tight viewport: only a few rows fit.
    d.sync_viewport(8);
    // Move the cursor well past the initial window.
    for _ in 0..12 {
        d.handle_key(press(KeyCode::Down), NOW);
        d.sync_viewport(8);
    }
    // The focused cursor must lie within the rendered window.
    let scroll = d.state().scroll();
    let cursor = d.state().cursor();
    assert!(cursor >= scroll, "cursor not above the window");
    assert!(
        cursor < scroll + MAX_VISIBLE_OPTION_ROWS,
        "cursor not below the window"
    );
    assert!(scroll > 0, "list should have scrolled");
}

#[test]
fn descriptions_start_below_labels() {
    for picked in [false, true] {
        let mut o = opt("pg", "Postgres");
        o.description = Some("relational".to_string());
        let mut d = dialog(InterruptQuestionSet {
            questions: vec![
                InterruptQuestion::Single {
                    prompt: "DB?".to_string(),
                    options: vec![o],
                    allow_freetext: true,
                },
                InterruptQuestion::Single {
                    prompt: "Again?".to_string(),
                    options: vec![opt("y", "Yes")],
                    allow_freetext: true,
                },
            ],
        });
        if picked {
            d.handle_key(press(KeyCode::Enter), NOW);
            d.handle_key(press(KeyCode::Left), NOW);
        }
        let rows: Vec<String> = d.render_page().0.iter().map(|l| l.text()).collect();
        let label = rows.iter().find(|r| r.contains("Postgres")).unwrap();
        let below = rows.iter().find(|r| r.contains("relational")).unwrap();
        assert_eq!(label.contains('•'), picked);
        let column = |row: &str, word: &str| row.split(word).next().unwrap().chars().count();
        assert_eq!(column(label, "Postgres"), 9);
        assert_eq!(column(below, "relational"), 9);
    }
}

#[test]
fn the_cursor_stands_behind_the_typed_answer() {
    let mut d = dialog(single_q());
    d.handle_key(press(KeyCode::Down), NOW);
    d.handle_key(press(KeyCode::Down), NOW);
    d.handle_key(press(KeyCode::Enter), NOW);
    for c in "abc".chars() {
        d.handle_key(press(KeyCode::Char(c)), NOW);
    }
    let (lines, cursor) = d.render_page();
    let row = lines.iter().position(|l| l.text().contains("abc")).unwrap();
    let text = lines[row].text();
    assert_eq!(text, "▸ ✎ Type your own answer: abc");
    assert_eq!(cursor, Some((text.chars().count(), row)));
}
