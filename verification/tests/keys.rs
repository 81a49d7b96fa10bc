use cockpit_tui::app::command::{CopyFormat, LlmMode, PaneSide};
use cockpit_tui::app::control::DispatchOutcome;
use cockpit_tui::app::copy::{AttemptResult, CopyAttempt, CopyJob, CopyOrigin, CopyOutcome};
use cockpit_tui::app::effect::{Effect, InitMode, Overlay, Panel};
use cockpit_tui::app::events::EventContext;
use cockpit_tui::app::history::{HistoryEntry, Timestamp};
use cockpit_tui::app::jobs::ActiveJob;
use cockpit_tui::app::request::{Request, UsageKind};
use cockpit_tui::app::slash::Availability;
use cockpit_tui::app::slash_run::KeyContext;
use cockpit_tui::app::state::{
    App, PredictNextMessage, Runner, Selection, Settings, TagExpansion, ToastKind, VimModeSetting,
    TOAST_TTL,
};
use cockpit_tui::app::upkeep::AttentionItem;
use cockpit_tui::context_pane::ContextSnapshot;
use cockpit_tui::daemon_prompt::{DaemonPaths, DaemonStatus};
use cockpit_tui::dialog::question::{InterruptOption, InterruptQuestion};
use cockpit_tui::diff::DiffStyle;
use cockpit_tui::composer::VimMode;
use cockpit_tui::editor::{Editor, Suggestion};
use cockpit_tui::geometry::Rect;
use cockpit_tui::key::{KeyCode, KeyEvent};
use cockpit_tui::launch::LaunchInfo;

fn launch() -> LaunchInfo {
    LaunchInfo {
        version: "1.0.0".to_string(),
        session_id: None,
        session_short_id: None,
        provider_line: "acme / large".to_string(),
        active_model: Some(("acme".to_string(), "large".to_string())),
        active_model_is_favorite: false,
        active_model_max_context: Some(200_000),
        active_model_supports_images: false,
        cwd_display: "~/project".to_string(),
        repo_status: None,
        agent_name: "Build".to_string(),
        user_name: None,
        banner_enabled: true,
    }
}

fn settings() -> Settings {
    Settings {
        vim: VimModeSetting::Disabled,
        diff_style: DiffStyle::Inline,
        use_emojis: true,
        agent_markdown: true,
        user_markdown: false,
        exit_tail_lines: 100,
        rich_text_copy: true,
        predict: PredictNextMessage::Short,
    }
}

fn app() -> App {
    App::new(launch(), settings(), LlmMode::Normal, true, None)
}

const HERE: Availability = Availability {
    editor: true,
    lazygit: false,
};

fn at(now: u64) -> KeyContext {
    KeyContext {
        now,
        estimate: 100,
        here: HERE,
    }
}

fn ctx(now: u64) -> EventContext {
    EventContext {
        now,
        time: Timestamp { hour: 9, minute: 5 },
        working_draw: 3,
        lockout_ms: 0,
        provider_caches: true,
    }
}

fn ctrl(c: char) -> KeyEvent {
    let mut k = KeyEvent::plain(KeyCode::Char(c));
    k.ctrl = true;
    k
}

fn hit(a: &mut App, code: KeyCode) -> Effect {
    a.handle_key(KeyEvent::plain(code), at(10_000), &Vec::new())
}

fn hit_key(a: &mut App, key: KeyEvent) -> Effect {
    a.handle_key(key, at(10_000), &Vec::new())
}

fn type_text(a: &mut App, text: &str) {
    for c in text.chars() {
        assert!(matches!(hit(a, KeyCode::Char(c)), Effect::Stay));
    }
}

fn run(a: &mut App, line: &str) -> Effect {
    type_text(a, line);
    hit(a, KeyCode::Enter)
}

fn last_plain(a: &App) -> String {
    match a.history.last() {
        Some(HistoryEntry::Plain { line }) => line.clone(),
        _ => panic!("expected a plain line"),
    }
}

fn live(a: &mut App) {
    a.runner = Runner::Live {
        session_id: 1,
        short_id: "abc123".to_string(),
        project_id: "p".to_string(),
    };
}

fn answer(text: &str) -> HistoryEntry {
    HistoryEntry::Agent {
        name: "Build".to_string(),
        text: text.to_string(),
        reasoning: "because".to_string(),
        timestamp: Timestamp { hour: 1, minute: 2 },
        expanded: false,
        think_duration: None,
    }
}

fn job(session_id: u128) -> ActiveJob {
    ActiveJob {
        session_id,
        label: "watch".to_string(),
        kind: "loop".to_string(),
        iteration: 2,
        last_activity: 0,
    }
}

#[test]
fn typed_text_reaches_the_composer() {
    let mut a = app();
    type_text(&mut a, "hi there");
    assert_eq!(a.editor.composer.text(), "hi there");
    hit(&mut a, KeyCode::Backspace);
    assert_eq!(a.editor.composer.text(), "hi ther");
}

#[test]
fn a_fresh_message_is_shown_and_begins_a_span() {
    let mut a = app();
    a.screen.scroll_offset = 9;
    let draft = match run(&mut a, "  hello  ") {
        Effect::Send(d) => d,
        _ => panic!("expected a message"),
    };
    assert_eq!(draft.shown, "hello");
    assert_eq!(draft.wire, "hello");
    assert_eq!(a.screen.scroll_offset, 0);
    a.pending_git_blocks.push("<git/>".to_string());
    let tags = vec![TagExpansion {
        tool: "read".to_string(),
        path: "a.rs".to_string(),
        ok: false,
        detail: "missing".to_string(),
    }];
    let out = a.send_expanded(draft, "hello world".to_string(), tags, ctx(70));
    assert_eq!(out.text, "hello world\n\n<git/>");
    assert!(out.owns_span);
    assert!(a.pending_git_blocks.is_empty());
    assert!(a.work.busy);
    assert!(matches!(&a.history[0], HistoryEntry::User { text, .. } if text == "hello"));
    assert_eq!(last_plain(&a), "  → read(a.rs) ✗ missing");
    a.submit_finished(out.owns_span, DispatchOutcome::Sent);
    assert!(a.work.busy);
    assert!(a.link.session_persisted);
    assert_eq!(a.editor.composer.text(), "");
    // The message can be recalled.
    hit(&mut a, KeyCode::Up);
    assert_eq!(a.editor.composer.text(), "hello");
    hit(&mut a, KeyCode::Down);
    assert_eq!(a.editor.composer.text(), "");
}

#[test]
fn a_message_without_a_worker_ends_its_span() {
    for (outcome, line) in [
        (
            DispatchOutcome::QueueFull,
            "engine: input queue full — wait for the current turn to finish",
        ),
        (DispatchOutcome::DriverClosed, "engine: driver task has exited"),
        (DispatchOutcome::RunnerFailed, "engine: no socket"),
    ] {
        let mut a = app();
        a.runner = Runner::Failed("no socket".to_string());
        let draft = match run(&mut a, "hello") {
            Effect::Send(d) => d,
            _ => panic!("expected a message"),
        };
        let out = a.send_expanded(draft, "hello".to_string(), Vec::new(), ctx(70));
        assert!(a.work.busy);
        a.submit_finished(out.owns_span, outcome);
        assert!(!a.work.busy);
        assert_eq!(a.work.span_started_at, None);
        assert_eq!(last_plain(&a), line);
        assert!(!a.link.session_persisted);
    }
}

#[test]
fn a_message_during_a_turn_is_queued() {
    let mut a = app();
    a.begin_span(5, 1);
    let draft = match run(&mut a, "later") {
        Effect::Send(d) => d,
        _ => panic!("expected a message"),
    };
    let out = a.send_expanded(draft, "later".to_string(), Vec::new(), ctx(70));
    assert!(!out.owns_span);
    assert_eq!(a.editor.queue, vec!["later".to_string()]);
    assert!(a.history.is_empty());
    a.submit_finished(out.owns_span, DispatchOutcome::RunnerFailed);
    assert!(a.work.busy, "the running turn goes on");
}

#[test]
fn nothing_is_sent_without_text_or_to_a_draining_daemon() {
    let mut a = app();
    assert!(matches!(run(&mut a, "   "), Effect::Stay));
    let mut b = app();
    b.link.draining = true;
    assert!(matches!(run(&mut b, "hello"), Effect::Stay));
    assert_eq!(b.editor.composer.text(), "hello");
    assert_eq!(b.toast.as_ref().unwrap().kind, ToastKind::Error);
    assert!(!b.work.busy);
}

#[test]
fn pasted_blocks_go_out_in_full() {
    let mut a = app();
    type_text(&mut a, "see ");
    a.handle_paste("line\n".repeat(20), None, 25, true, 0);
    assert!(a.editor.composer.text().starts_with("see [Pasted text #1"));
    match hit(&mut a, KeyCode::Enter) {
        Effect::Send(d) => {
            assert!(d.shown.starts_with("see [Pasted text #1"));
            assert!(d.wire.starts_with("see line\nline\n"));
            assert!(d.images.is_empty());
        }
        _ => panic!("expected a message"),
    }
}

#[test]
fn pasted_images_need_a_model_that_sees() {
    for vision in [false, true] {
        let mut a = app();
        a.launch.active_model_supports_images = vision;
        a.handle_paste(String::new(), Some(vec![1, 2, 3]), 0, false, 500);
        match &a.toast {
            Some(t) => {
                assert!(!vision);
                assert_eq!(t.kind, ToastKind::Info);
                assert_eq!(
                    t.text,
                    "Current model has no image support — this image will be sent as a text note."
                );
                assert_eq!(t.expires_at, 500 + TOAST_TTL);
            }
            None => assert!(vision),
        }
        match hit(&mut a, KeyCode::Enter) {
            Effect::Send(d) => {
                assert_eq!(d.images.len(), if vision { 1 } else { 0 });
            }
            _ => panic!("expected a message"),
        }
    }
}

#[test]
fn pastes_do_not_reach_covered_composers() {
    let mut a = app();
    a.set_overlay(Overlay::Skills, true);
    a.handle_paste("text".to_string(), None, 1, false, 0);
    assert_eq!(a.editor.composer.text(), "");
    a.set_overlay(Overlay::Skills, false);
    a.handle_paste("text".to_string(), None, 1, false, 0);
    assert_eq!(a.editor.composer.text(), "text");
}

#[test]
fn shell_lines_run_locally() {
    let mut a = app();
    match run(&mut a, "!ls -l") {
        Effect::RunShell(c) => assert_eq!(c, "ls -l"),
        _ => panic!("expected a shell command"),
    }
    assert_eq!(a.editor.composer.text(), "");
    a.shell_finished("ls -l", "\u{1b}[31mred\u{1b}[0m\n", true);
    assert!(matches!(
        &a.history[0],
        HistoryEntry::LocalCommand { label, output, failed: true }
            if label == "! ls -l" && output == "red"
    ));
    a.shell_finished("  ", "x", false);
    assert_eq!(a.history.len(), 1);
}

#[test]
fn git_lines_run_locally_and_reach_the_agent() {
    let mut a = app();
    match run(&mut a, "/git status -s") {
        Effect::RunGit(c) => assert_eq!(c, "status -s"),
        _ => panic!("expected a git command"),
    }
    a.git_finished("status -s", " M a.rs\n", false, |t: &str| t.len());
    assert_eq!(
        a.pending_git_blocks,
        vec!["<git cmd=\"status -s\">\n M a.rs\n\n</git>".to_string()]
    );
    assert!(matches!(run(&mut a, "/git"), Effect::Stay));
    assert_eq!(last_plain(&a), "/git: usage `/git <args>` (e.g. `/git status`)");
}

#[test]
fn ctrl_c_interrupts_and_leaves_on_a_second_press() {
    let mut a = app();
    a.begin_span(0, 1);
    let none = Vec::new();
    assert!(matches!(a.handle_key(ctrl('c'), at(1_000), &none), Effect::Stay));
    assert!(matches!(&a.take_outbox()[..], [Request::CancelTurn]));
    assert_eq!(a.toast.as_ref().unwrap().text, "Press ctrl+c again to exit");
    a.tick_ctrl_c_window(1_501);
    assert_eq!(a.work.ctrl_c_armed_at, None);
    assert!(matches!(a.handle_key(ctrl('c'), at(2_000), &none), Effect::Stay));
    assert!(matches!(a.handle_key(ctrl('c'), at(2_500), &none), Effect::Quit));
    assert!(matches!(a.handle_key(ctrl('d'), at(9_000), &none), Effect::Quit));
}

#[test]
fn keys_stay_in_the_overlay() {
    let mut a = app();
    for o in [
        Overlay::Settings,
        Overlay::ModelPicker,
        Overlay::Stats,
        Overlay::Sessions,
        Overlay::Skills,
        Overlay::Plans,
        Overlay::Permissions,
    ] {
        a.set_overlay(o, true);
        match hit(&mut a, KeyCode::Char('j')) {
            Effect::OverlayKey(got) => assert_eq!(got, o),
            _ => panic!("expected the overlay to take the key"),
        }
        a.set_overlay(o, false);
    }
    a.open_context_pane(ContextSnapshot::new(1, 2, 3, 4, None));
    assert!(matches!(hit(&mut a, KeyCode::Char('j')), Effect::Stay));
    assert!(a.context_pane.is_some());
    hit(&mut a, KeyCode::Char('q'));
    assert!(a.context_pane.is_none());
    assert_eq!(a.editor.composer.text(), "");
}

#[test]
fn a_focused_pane_gets_the_keys() {
    let mut a = app();
    a.pane_opened(PaneSide::Left);
    assert!(matches!(hit_key(&mut a, ctrl('c')), Effect::ForwardToPane));
    assert!(matches!(hit_key(&mut a, ctrl('o')), Effect::Stay));
    type_text(&mut a, "x");
    assert_eq!(a.editor.composer.text(), "x");
    assert!(matches!(hit_key(&mut a, ctrl('x')), Effect::TerminatePane));
    assert!(!a.pane.open);
}

#[test]
fn prune_asks_first() {
    let mut a = app();
    run(&mut a, "/prune");
    assert_eq!(last_plain(&a), "/prune: 0% prunable — nothing to do.");
    a.context.prunable_tokens = 40_000;
    a.context.last_usage = Some(100_000);
    a.context.cache_cold = false;
    run(&mut a, "/prune");
    assert!(last_plain(&a).starts_with(
        "/prune: context 50% → 30% (~40000 wire tokens). Cache is HOT"
    ));
    hit(&mut a, KeyCode::Char('y'));
    assert!(!a.requests.prune_confirm);
    let sent: Vec<Request> = a.take_outbox();
    assert!(matches!(sent.last(), Some(Request::Prune)));
    a.request_answered(sent.last().unwrap(), false, true);
    assert_eq!(last_plain(&a), "/prune: no daemon connection — cannot prune.");
    run(&mut a, "/prune");
    hit(&mut a, KeyCode::Char('n'));
    assert_eq!(last_plain(&a), "/prune: cancelled.");
    assert_eq!(a.editor.composer.text(), "");
}

#[test]
fn jobs_are_listed_and_stopped() {
    let mut a = app();
    live(&mut a);
    run(&mut a, "/ps");
    assert_eq!(last_plain(&a), "No background jobs in this session.");
    run(&mut a, "/jobs");
    assert_eq!(last_plain(&a), "/jobs: no active jobs");
    a.jobs.insert("j1".to_string(), job(1));
    a.jobs.insert("j2".to_string(), job(2));
    run(&mut a, "/jobs");
    assert_eq!(last_plain(&a), "  j2 [loop] 2 iter  watch  (cancel: /jobs cancel j2)");
    run(&mut a, "/ps");
    assert_eq!(last_plain(&a), "  j1 [loop] 2 iter  watch  (stop: /stop j1)");
    run(&mut a, "/stop j2");
    assert_eq!(
        last_plain(&a),
        "/stop: no job `j2` in this session (use /jobs for other sessions)"
    );
    a.take_outbox();
    run(&mut a, "/jobs cancel j2");
    let sent = a.take_outbox();
    assert!(matches!(sent.last(), Some(Request::CancelJob { job_id, .. }) if job_id == "j2"));
    a.request_answered(sent.last().unwrap(), true, true);
    assert_eq!(last_plain(&a), "/jobs: cancel requested for `j2`");
    run(&mut a, "/stop");
    assert_eq!(last_plain(&a), "/stop: Stop 1 job(s) in this session? [y/N]");
    a.take_outbox();
    hit(&mut a, KeyCode::Char('y'));
    let sent = a.take_outbox();
    assert!(matches!(&sent[..], [Request::CancelJob { job_id, .. }] if job_id == "j1"));
    a.request_answered(&sent[0], false, true);
    assert_eq!(last_plain(&a), "/stop: no daemon connection — cannot cancel `j1`");
    run(&mut a, "/stop");
    a.jobs.remove("j1");
    hit(&mut a, KeyCode::Char('Y'));
    assert_eq!(last_plain(&a), "/stop: those jobs already ended.");
    a.jobs.insert("j3".to_string(), job(1));
    run(&mut a, "/stop");
    hit(&mut a, KeyCode::Enter);
    assert_eq!(last_plain(&a), "/stop: cancelled.");
}

#[test]
fn requests_report_their_answers() {
    let mut a = app();
    live(&mut a);
    let mut answers = |line: &str, ok: bool| -> Option<String> {
        let before = a.history.len();
        run(&mut a, line);
        let sent = a.take_outbox();
        let r = sent.last().expect("a request");
        assert_eq!(a.history.len(), before, "nothing is said before the answer");
        a.request_answered(r, ok, true);
        if a.history.len() == before {
            None
        } else {
            Some(last_plain(&a))
        }
    };
    assert_eq!(answers("/plan", true).unwrap(), "Switched primary agent to `Plan`");
    assert_eq!(
        answers("/build", false).unwrap(),
        "Send a message first to start a session, then switch agents"
    );
    assert!(answers("/compact", true).unwrap().starts_with("/compact: assembling handoff"));
    assert_eq!(
        answers("/compact", false).unwrap(),
        "/compact: no daemon connection — cannot compact."
    );
    assert_eq!(answers("/sandbox on", true), None);
    assert_eq!(answers("/sandbox", false).unwrap(), "/sandbox: no daemon connection");
    assert_eq!(answers("/caffeinate on", true), None);
    assert_eq!(answers("/caffeinate", false).unwrap(), "/caffeinate: no daemon connection");
    assert_eq!(
        answers("/pin keep me", true).unwrap(),
        "/pin: pinned (survives /compact verbatim): keep me"
    );
    assert_eq!(
        answers("/pin keep me", false).unwrap(),
        "/pin: no daemon connection — cannot pin."
    );
    assert!(answers("/llm-mode defend", true).unwrap().starts_with("Heads up:"));
    assert_eq!(
        answers("/llm-mode", false).unwrap(),
        "Send a message first to start a session, then switch LLM mode"
    );
}

#[test]
fn wrong_arguments_are_named() {
    let mut a = app();
    for (line, said) in [
        ("/sandbox maybe", "/sandbox: unknown arg `maybe` — use `on` or `off`"),
        (
            "/caffeinate now",
            "/caffeinate: unknown arg `now` — use `on`, `off`, `until-idle`, or no arg to toggle",
        ),
        ("/pin", "/pin: usage `/pin <text>` — pins a message verbatim for /compact"),
        ("/llm-mode normal", "Already in `normal` LLM mode"),
        ("/jobs cancel", "/jobs: usage `/jobs cancel <job-id>`"),
        ("/rename", "Usage: `/rename <title>`"),
        ("/rename x", "/rename: no active session yet — send a message first"),
        ("/export", "/export: no active session yet — send a message first"),
        ("/side", "/side: no active session to fork from"),
        ("/side end", "/side: not in a side conversation"),
        ("/side now", "Usage: `/side` to start, `/side end` to discard"),
    ] {
        assert!(matches!(run(&mut a, line), Effect::Stay), "{line}");
        assert_eq!(last_plain(&a), said);
    }
}

#[test]
fn commands_open_their_panels() {
    let mut a = app();
    for (line, panel) in [
        ("/settings", Panel::Settings),
        ("/model-settings", Panel::ModelSettings),
        ("/modelsettings", Panel::ModelSettings),
        ("/stats", Panel::Stats),
        ("/context", Panel::Context),
        ("/sessions", Panel::Sessions),
        ("/resume", Panel::Sessions),
        ("/skills", Panel::Skills),
        ("/plans", Panel::Plans),
        ("/plans answer", Panel::PlanResolver),
        ("/permissions", Panel::Permissions),
    ] {
        match run(&mut a, line) {
            Effect::Open(p) => assert_eq!(p, panel, "{line}"),
            _ => panic!("{line} opens nothing"),
        }
    }
    assert_eq!(a.usage_slash.get("model-settings"), 2);
    assert_eq!(a.usage_slash.get("plans"), 2);
}

#[test]
fn commands_leave_things_to_do() {
    let mut a = app();
    live(&mut a);
    assert!(matches!(run(&mut a, "/exit"), Effect::Quit));
    assert!(matches!(run(&mut a, "/editor left"), Effect::OpenEditor(PaneSide::Left)));
    assert!(matches!(run(&mut a, "/fetch-models"), Effect::FetchModels));
    assert_eq!(last_plain(&a), "/fetch-models: starting…");
    assert!(matches!(run(&mut a, "/favorite"), Effect::ToggleFavorite));
    assert!(matches!(run(&mut a, "/mouse"), Effect::ToggleMouse));
    match run(&mut a, "/rename  new title ") {
        Effect::Rename { session_id, title } => {
            assert_eq!((session_id, title.as_str()), (1, "new title"));
        }
        _ => panic!("expected a rename"),
    }
    a.rename_finished("new title", Ok(()));
    assert_eq!(last_plain(&a), "Renamed session to `new title`");
    match run(&mut a, "/export debug") {
        Effect::Export { session_id, stem, debug } => {
            assert_eq!((session_id, stem.as_str(), debug), (1, "abc123", true));
        }
        _ => panic!("expected an export"),
    }
    a.debug_export_finished(Ok("x.zip".to_string()), 1, 512);
    assert_eq!(last_plain(&a), "Exported debug bundle (1 session, 512 bytes) → x.zip");
    a.export_finished(Err("disk full".to_string()));
    assert_eq!(last_plain(&a), "/export: disk full");
    run(&mut a, "/new");
    assert!(a.requests.new_session);
    a.pane_opened(PaneSide::Full);
    a.pane.focused = false;
    assert!(matches!(run(&mut a, "/editor"), Effect::Stay), "one pane at a time");
}

#[test]
fn a_session_without_a_short_id_is_named_in_full() {
    let mut a = app();
    a.launch.session_id = Some(0xa1a2a3a4b1b2c1c2d1d2d3d4d5d6d7d8);
    match run(&mut a, "/export") {
        Effect::Export { stem, debug, .. } => {
            assert_eq!(stem, "a1a2a3a4-b1b2-c1c2-d1d2-d3d4d5d6d7d8");
            assert!(!debug);
        }
        _ => panic!("expected an export"),
    }
    assert_eq!(a.exit_session_line(), None);
    a.link.session_persisted = true;
    assert_eq!(
        a.exit_session_line().as_deref(),
        Some("session a1a2a3a4-b1b2-c1c2-d1d2-d3d4d5d6d7d8")
    );
    a.launch.session_short_id = Some("k3m7qz".to_string());
    assert_eq!(a.exit_session_line().as_deref(), Some("session k3m7qz"));
}

#[test]
fn uses_wait_for_a_runner() {
    let mut a = app();
    run(&mut a, "/stats");
    assert!(a.outbox.is_empty());
    assert_eq!(a.pending_usage.len(), 1);
    live(&mut a);
    run(&mut a, "/stats");
    assert_eq!(a.pending_usage.len(), 1);
    assert!(matches!(
        &a.take_outbox()[..],
        [Request::RecordUsage(u)] if u.key == "stats" && u.kind == UsageKind::Slash
    ));
    assert_eq!(a.usage_slash.get("stats"), 2);
}

#[test]
fn accepted_tags_are_counted_for_the_project() {
    let mut a = app();
    a.project_id = Some("p".to_string());
    let found = vec![Suggestion {
        replacement: "src/foo.rs".to_string(),
        display: "src/foo.rs".to_string(),
        is_dir: false,
        needs_quoting: false,
    }];
    for c in "@fo".chars() {
        a.handle_key(KeyEvent::plain(KeyCode::Char(c)), at(0), &found);
    }
    a.handle_key(KeyEvent::plain(KeyCode::Enter), at(0), &found);
    assert!(a.editor.composer.text().starts_with("@src/foo.rs"));
    assert_eq!(a.usage_tags.get("src/foo.rs"), 1);
    assert_eq!(a.pending_usage[0].project_id.as_deref(), Some("p"));
}

#[test]
fn highlighted_command_runs() {
    let mut a = app();
    type_text(&mut a, "/pl");
    hit(&mut a, KeyCode::Down);
    match hit(&mut a, KeyCode::Enter) {
        Effect::Open(p) => assert_eq!(p, Panel::Plans),
        _ => panic!("expected the second match"),
    }
    type_text(&mut a, "/nothing");
    assert!(matches!(hit(&mut a, KeyCode::Enter), Effect::Stay));
    assert_eq!(a.editor.composer.text(), "/nothing");
}

#[test]
fn daemon_prompt_choices() {
    let probe = || {
        Some((
            DaemonStatus::NotRunning,
            DaemonPaths {
                pid_file: "/tmp/p".to_string(),
                socket: "/tmp/s".to_string(),
            },
        ))
    };
    let mut a = App::new(launch(), settings(), LlmMode::Normal, true, probe());
    assert!(!a.link.daemon_connected);
    assert!(matches!(hit(&mut a, KeyCode::Enter), Effect::StartDaemon));
    a.daemon_start_failed("no room");
    assert!(a.daemon_prompt.is_some());
    a.daemon_started(42);
    assert!(a.daemon_prompt.is_none());
    assert!(a.link.daemon_connected);
    assert_eq!(last_plain(&a), "daemon: spawned (pid 42); stop later with `cockpit daemon stop`");

    let mut b = App::new(launch(), settings(), LlmMode::Normal, true, probe());
    hit(&mut b, KeyCode::Char('j'));
    assert!(matches!(hit(&mut b, KeyCode::Enter), Effect::OfferProviderSetup));
    assert!(b.link.daemonless && b.link.daemon_connected);
    assert!(b.daemon_prompt.is_none());

    let mut c = App::new(launch(), settings(), LlmMode::Normal, true, probe());
    assert!(matches!(hit(&mut c, KeyCode::Esc), Effect::Quit));
}

#[test]
fn init_asks_before_it_overwrites() {
    let mut a = app();
    match run(&mut a, "/init docs/AGENTS.md") {
        Effect::FindInitTarget(t) => assert_eq!(t.as_deref(), Some("docs/AGENTS.md")),
        _ => panic!("expected a target"),
    }
    a.open_init_prompt("docs/AGENTS.md".to_string(), 0, 0);
    let id = a.pending_init.as_ref().unwrap().interrupt_id;
    assert_eq!((id >> 76) & 0xf, 4, "a random id of version 4");
    assert_eq!((id >> 62) & 0x3, 2);
    hit(&mut a, KeyCode::Down);
    match hit(&mut a, KeyCode::Enter) {
        Effect::StartInit { display, mode } => {
            assert_eq!(display, "docs/AGENTS.md");
            assert_eq!(mode, InitMode::Overwrite);
        }
        _ => panic!("expected a turn"),
    }
    assert!(a.outbox.is_empty(), "the daemon is not asked");
    a.begin_init_turn("docs/AGENTS.md", ctx(1));
    assert!(matches!(&a.history[0], HistoryEntry::User { text, .. } if text == "/init docs/AGENTS.md"));
    a.init_turn_finished(DispatchOutcome::NoRunner);
    assert!(!a.work.busy);
    assert_eq!(last_plain(&a), "/init: no engine runner — cannot start");

    a.ask_init("X.md".to_string(), 5, 0, 0);
    hit(&mut a, KeyCode::Esc);
    assert_eq!(last_plain(&a), "/init: cancelled — `X.md` left untouched");
    a.begin_span(0, 0);
    run(&mut a, "/init");
    assert_eq!(last_plain(&a), "/init: a turn is already running — wait for it to finish");
}

#[test]
fn answers_go_to_the_daemon() {
    let mut a = app();
    let item = |question| AttentionItem {
        interrupt_id: 77,
        description: String::new(),
        questions: None,
        question,
    };
    a.open_attention_dialog(item(None), 0, 0);
    assert!(a.question_dialog.is_none());
    let q = InterruptQuestion::Single {
        prompt: "Go on?".to_string(),
        options: vec![InterruptOption {
            id: "yes".to_string(),
            label: "Yes".to_string(),
            description: None,
        }],
        allow_freetext: false,
    };
    a.open_attention_dialog(item(Some(q)), 0, 0);
    hit(&mut a, KeyCode::Enter);
    assert!(a.question_dialog.is_none());
    match &a.take_outbox()[..] {
        [Request::ResolveInterrupt { interrupt_id: 77, responses: Some(r) }] => {
            assert_eq!(r.len(), 1);
        }
        _ => panic!("expected an answer"),
    }
}

#[test]
fn copies_are_prepared_and_reported() {
    let mut a = app();
    assert!(matches!(run(&mut a, "/copy"), Effect::Stay));
    assert_eq!(a.toast.as_ref().unwrap().text, "No response to copy yet.");
    a.history.push(answer("**hi**"));
    let job = match run(&mut a, "/copy rich") {
        Effect::Copy(j) => j,
        _ => panic!("expected a copy"),
    };
    assert_eq!(job.text, "**hi**");
    assert_eq!(job.format, CopyFormat::Rich);
    assert!(matches!(job.origin, CopyOrigin::Command));
    a.copy_finished(&job, &CopyOutcome::Done, 0);
    assert_eq!(a.toast.as_ref().unwrap().text, "Copied last response (rich).");
    a.copy_finished(&job, &CopyOutcome::PlainOverSsh, 0);
    assert_eq!(
        a.toast.as_ref().unwrap().text,
        "SSH — copied last response as plain text (rich copy unavailable over SSH)."
    );
    a.copy_finished(&job, &CopyOutcome::Failed("busy".to_string()), 0);
    assert_eq!(a.toast.as_ref().unwrap().text, "Copy failed: busy");
    assert!(matches!(run(&mut a, "/copy html"), Effect::Stay));
    assert!(a.toast.as_ref().unwrap().text.starts_with("Usage: `/copy"));

    let mut key = ctrl('y');
    key.shift = true;
    assert!(matches!(hit_key(&mut a, key), Effect::Copy(_)));
    a.settings.rich_text_copy = false;
    assert!(matches!(hit_key(&mut a, key), Effect::Stay));
    assert!(a.toast.as_ref().unwrap().text.starts_with("Rich-text copy is disabled"));
}

#[test]
fn selected_text_is_copied() {
    let mut a = app();
    a.screen.chat_area = Some(Rect::new(0, 0, 6, 2));
    let row = |s: &str| s.chars().map(|c| c.to_string()).collect::<Vec<String>>();
    a.grid = vec![row("  ab  "), row("  cd  ")];
    a.cont_rows = vec![false, true];
    a.screen.selection = Some(Selection {
        anchor: (5, 1),
        focus: (0, 0),
        active: false,
    });
    let mut key = ctrl('C');
    key.shift = true;
    let job = match hit_key(&mut a, key) {
        Effect::Copy(j) => j,
        _ => panic!("expected a copy"),
    };
    assert_eq!(job.text, "ab cd");
    a.copy_finished(&job, &CopyOutcome::Done, 0);
    assert_eq!(a.toast.as_ref().unwrap().text, "Copied 5 chars to clipboard.");
    assert!(a.screen.selection.is_none());
    // A selection outside the drawn chat is dropped.
    a.screen.selection = Some(Selection {
        anchor: (0, 0),
        focus: (9, 9),
        active: false,
    });
    assert!(matches!(hit_key(&mut a, key), Effect::Stay));
    assert!(a.screen.selection.is_none());
}

#[test]
fn typing_and_escape_drop_the_selection() {
    let mut a = app();
    let sel = Some(Selection {
        anchor: (0, 0),
        focus: (1, 1),
        active: false,
    });
    a.screen.selection = sel;
    hit(&mut a, KeyCode::Esc);
    assert!(a.screen.selection.is_none());
    a.screen.selection = sel;
    hit(&mut a, KeyCode::Modifier);
    assert!(a.screen.selection.is_some());
    type_text(&mut a, "x");
    assert!(a.screen.selection.is_none());
}

#[test]
fn reasoning_unfolds_or_a_line_begins() {
    let mut a = app();
    hit_key(&mut a, ctrl('j'));
    assert_eq!(a.editor.composer.text(), "\n");
    a.history.push(answer("hi"));
    hit_key(&mut a, ctrl('j'));
    assert!(matches!(&a.history[0], HistoryEntry::Agent { expanded: true, .. }));
    hit_key(&mut a, ctrl('j'));
    assert!(matches!(&a.history[0], HistoryEntry::Agent { expanded: false, .. }));
}

#[test]
fn the_editor_takes_the_text() {
    let mut a = app();
    hit_key(&mut a, ctrl('g'));
    assert!(a.take_external_edit());
    assert!(!a.take_external_edit());
    a.external_edit_finished("two\nlines\n");
    assert_eq!(a.editor.composer.text(), "two\nlines");
    let mut here = at(0);
    here.here.editor = false;
    a.handle_key(ctrl('g'), here, &Vec::new());
    assert_eq!(last_plain(&a), "No $EDITOR environment variable");
}

#[test]
fn tab_takes_the_prediction() {
    let mut a = app();
    a.settings.predict = PredictNextMessage::Long;
    a.history.push(HistoryEntry::User {
        text: "q".to_string(),
        timestamp: Timestamp { hour: 0, minute: 0 },
    });
    assert!(a.prediction_request().is_none());
    a.history.push(answer("done"));
    let (turn, turns) = a.prediction_request().expect("a prediction");
    assert_eq!(turns.len(), 1);
    a.drain_prediction(turn, Some("first\nsecond".to_string()));
    assert_eq!(a.prediction.ghost().unwrap().display_text(), "first");
    hit(&mut a, KeyCode::Tab);
    assert_eq!(a.prediction.ghost().unwrap().display_text(), "first\nsecond");
    assert_eq!(a.editor.composer.text(), "");
    hit(&mut a, KeyCode::Tab);
    assert_eq!(a.editor.composer.text(), "first\nsecond");
    a.sync_prediction_ghost();
    assert!(a.prediction.ghost().is_none());
}

#[test]
fn a_toast_goes_with_the_next_key() {
    let mut a = app();
    a.show_toast("hello".to_string(), ToastKind::Info, 0);
    hit(&mut a, KeyCode::Modifier);
    assert!(a.toast.is_some());
    hit(&mut a, KeyCode::Char('x'));
    assert!(a.toast.is_none());
}

#[test]
fn blank_shell_lines_run_nothing() {
    let mut a = app();
    assert!(matches!(run(&mut a, "!   "), Effect::Stay));
    assert_eq!(a.editor.composer.text(), "");
    match run(&mut a, "!  ls ") {
        Effect::RunShell(c) => assert_eq!(c, "ls"),
        _ => panic!("expected a shell command"),
    }
}

#[test]
fn rich_text_falls_back_to_plain_over_ssh() {
    let job = |format, origin| CopyJob { text: "*x*".to_string(), format, origin };
    let rich = job(CopyFormat::Rich, CopyOrigin::Command);
    assert_eq!(rich.first_attempt(), CopyAttempt::Rich);
    let ssh = || AttemptResult::UnsupportedOverSsh("no".to_string());
    assert!(rich.settle(CopyAttempt::Rich, ssh()).is_none());
    assert!(matches!(
        rich.settle(CopyAttempt::Text, AttemptResult::Done),
        Some(CopyOutcome::PlainOverSsh)
    ));
    assert!(matches!(
        rich.settle(CopyAttempt::Rich, AttemptResult::Done),
        Some(CopyOutcome::Done)
    ));
    assert!(matches!(
        rich.settle(CopyAttempt::Rich, AttemptResult::Failed("busy".to_string())),
        Some(CopyOutcome::Failed(e)) if e == "busy"
    ));
    let plain = job(CopyFormat::Plain, CopyOrigin::LastMessage);
    assert_eq!(plain.first_attempt(), CopyAttempt::Stripped);
    assert!(matches!(
        plain.settle(CopyAttempt::Stripped, ssh()),
        Some(CopyOutcome::Failed(e)) if e == "no"
    ));
    assert_eq!(job(CopyFormat::Markdown, CopyOrigin::Command).first_attempt(), CopyAttempt::Text);
    assert_eq!(job(CopyFormat::Plain, CopyOrigin::Selection).first_attempt(), CopyAttempt::Text);
}

#[test]
fn a_selection_outlives_a_failed_copy() {
    let mut a = app();
    let job = CopyJob {
        text: "abc".to_string(),
        format: CopyFormat::Plain,
        origin: CopyOrigin::Selection,
    };
    a.screen.selection = Some(Selection { anchor: (0, 0), focus: (2, 0), active: false });
    a.copy_finished(&job, &CopyOutcome::Failed("busy".to_string()), 0);
    assert!(a.screen.selection.is_some());
    assert_eq!(a.toast.as_ref().unwrap().text, "Copy failed: busy");
    a.copy_finished(&job, &CopyOutcome::Done, 0);
    assert!(a.screen.selection.is_none());
    assert_eq!(a.toast.as_ref().unwrap().text, "Copied 3 chars to clipboard.");
}

#[test]
fn a_sent_message_leaves_vim_in_normal_mode() {
    for vim in [false, true] {
        let mut a = app();
        a.editor = Editor::new(vim);
        assert!(matches!(run(&mut a, "hello"), Effect::Send(_)));
        a.submit_finished(true, DispatchOutcome::Sent);
        assert_eq!(a.editor.composer.text(), "");
        let expected = if vim { VimMode::Normal } else { VimMode::Insert };
        assert_eq!(a.editor.composer.vim_mode(), expected);
        // A shell line leaves it ready for the next one.
        a.editor = Editor::new(vim);
        assert!(matches!(run(&mut a, "!ls"), Effect::RunShell(_)));
        assert_eq!(a.editor.composer.vim_mode(), VimMode::Insert);
    }
}
