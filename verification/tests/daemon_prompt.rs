use cockpit_tui::daemon_prompt::{DaemonChoice, DaemonPaths, DaemonPromptDialog, DaemonStatus};
use cockpit_tui::key::{KeyCode, KeyEvent};

fn press(code: KeyCode) -> KeyEvent {
    KeyEvent::plain(code)
}

fn fresh() -> DaemonPromptDialog {
    DaemonPromptDialog::new(
        DaemonStatus::NotRunning,
        DaemonPaths {
            pid_file: "/tmp/cockpit.test.pid".to_string(),
            socket: "/tmp/cockpit.test.sock".to_string(),
        },
    )
}

/// Pressing `j`/`k` must move the cursor and signal "don't close".
/// The caller (App::handle_key) reads the `false` return value and
/// short-circuits *before* the composer's char-insert path can run.
#[test]
fn jk_navigates_and_does_not_close() {
    let mut d = fresh();
    assert_eq!(d.cursor(), 0);
    assert!(
        !d.handle_key(press(KeyCode::Char('j'))),
        "j must not close the prompt"
    );
    assert_eq!(d.cursor(), 1);
    assert!(
        !d.handle_key(press(KeyCode::Char('k'))),
        "k must not close the prompt"
    );
    assert_eq!(d.cursor(), 0);
    assert!(
        d.take_choice().is_none(),
        "navigation must not set a choice"
    );
}

/// The 3-row list wraps at both ends like every other selectable
/// list: Up on the first row lands on the last, Down on the last
/// lands on the first.
#[test]
fn nav_wraps_at_both_ends() {
    let mut d = fresh();
    assert_eq!(d.cursor(), 0);
    d.handle_key(press(KeyCode::Up));
    assert_eq!(d.cursor(), 2, "Up from first wraps to last");
    d.handle_key(press(KeyCode::Down));
    assert_eq!(d.cursor(), 0, "Down from last wraps to first");
}

#[test]
fn enter_returns_choice_and_closes() {
    let mut d = fresh();
    assert!(d.handle_key(press(KeyCode::Enter)));
    assert!(matches!(
        d.take_choice(),
        Some(DaemonChoice::StartAndConnect)
    ));
}

#[test]
fn esc_returns_exit_choice() {
    let mut d = fresh();
    assert!(d.handle_key(press(KeyCode::Esc)));
    assert!(matches!(d.take_choice(), Some(DaemonChoice::Exit)));
}

#[test]
fn second_row_continues_without() {
    let mut d = fresh();
    d.handle_key(press(KeyCode::Down));
    assert!(d.handle_key(press(KeyCode::Enter)));
    assert!(matches!(d.take_choice(), Some(DaemonChoice::ContinueWithout)));
    assert!(d.take_choice().is_none(), "a choice is taken once");
}

#[test]
fn prompt_names_the_daemon_files_and_its_error() {
    let mut d = fresh();
    d.set_error("failed to spawn daemon: no room".to_string());
    let text: Vec<String> = d.render().iter().map(|l| l.text()).collect();
    let text = text.join("\n");
    assert!(text.contains("The cockpit daemon is not running."));
    assert!(text.contains("/tmp/cockpit.test.sock"));
    assert!(text.contains("failed to spawn daemon: no room"));
}
