use cockpit_tui::dialog::approval::{ApprovalChoice, ApprovalDialog, ApprovalResult, Scope};
use cockpit_tui::key::{KeyCode, KeyEvent};

const NOW: u64 = 10_000;

fn press(code: KeyCode) -> KeyEvent {
    KeyEvent::plain(code)
}

#[test]
fn full_variant_offers_four_scopes() {
    let d = ApprovalDialog::new(7, "gh pr", false, 0, NOW);
    // page 0, four options + the custom affordance.
    assert_eq!(d.state().pages()[0].options.len(), 4);
}

#[test]
fn wrapper_variant_offers_only_once() {
    let d = ApprovalDialog::new(7, "bash", true, 0, NOW);
    assert_eq!(d.state().pages()[0].options.len(), 1);
    assert!(d.is_wrapper());
}

#[test]
fn selecting_session_resolves_to_session_scope() {
    let iid = 42u128;
    let mut d = ApprovalDialog::new(iid, "gh pr", false, 0, NOW);
    // Move to the second option (session), enter to choose+submit.
    d.handle_key(press(KeyCode::Char('j')), NOW);
    assert!(d.handle_key(press(KeyCode::Enter), NOW));
    match d.take_result() {
        Some(ApprovalResult::Resolved {
            interrupt_id,
            choice,
        }) => {
            assert_eq!(interrupt_id, iid);
            assert_eq!(choice, ApprovalChoice::Approve(Scope::Session));
        }
        None => panic!("expected a result"),
    }
}

#[test]
fn esc_denies() {
    let iid = 42u128;
    let mut d = ApprovalDialog::new(iid, "rm", false, 0, NOW);
    assert!(d.handle_key(press(KeyCode::Esc), NOW));
    match d.take_result() {
        Some(ApprovalResult::Resolved { choice, .. }) => {
            assert_eq!(choice, ApprovalChoice::Deny);
        }
        None => panic!("expected deny"),
    }
}

#[test]
fn first_option_is_once() {
    let iid = 42u128;
    let mut d = ApprovalDialog::new(iid, "ls", false, 0, NOW);
    assert!(d.handle_key(press(KeyCode::Enter), NOW));
    match d.take_result() {
        Some(ApprovalResult::Resolved { choice, .. }) => {
            assert_eq!(choice, ApprovalChoice::Approve(Scope::Once));
        }
        None => panic!("expected once"),
    }
}

#[test]
fn typed_text_is_no_approval() {
    let mut d = ApprovalDialog::new(1, "rm", true, 0, NOW);
    d.handle_key(press(KeyCode::Char('j')), NOW);
    d.handle_key(press(KeyCode::Enter), NOW);
    for ch in "once".chars() {
        d.handle_key(press(KeyCode::Char(ch)), NOW);
    }
    assert!(d.handle_key(press(KeyCode::Enter), NOW));
    match d.take_result() {
        Some(ApprovalResult::Resolved { choice, .. }) => {
            assert_eq!(choice, ApprovalChoice::Deny);
        }
        None => panic!("expected deny"),
    }
}
