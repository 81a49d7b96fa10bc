use cockpit_tui::app::command::{CacheConfig, CacheMode, LlmMode, PaneSide};
use cockpit_tui::app::effect::Effect;
use cockpit_tui::app::events::EventContext;
use cockpit_tui::app::fetch::{
    fetch_end_line, merge_fetched_models, FetchConfig, FetchRun, OnUnlistedModels, ProviderModels,
    ProviderOutcome,
};
use cockpit_tui::app::history::{HistoryEntry, Timestamp};
use cockpit_tui::app::jobs::ActiveJob;
use cockpit_tui::app::life::ServerUsage;
use cockpit_tui::app::request::{Request, UsageKind};
use cockpit_tui::app::session::{Attached, LifecycleMode};
use cockpit_tui::app::slash::UsageCounts;
use cockpit_tui::app::state::{
    App, GuidanceEstimate, PendingCompact, PredictNextMessage, Runner, Settings, VimModeSetting,
};
use cockpit_tui::app::upkeep::CursorShape;
use cockpit_tui::composer::VimMode;
use cockpit_tui::diff::DiffStyle;
use cockpit_tui::key::{KeyCode, KeyEvent};
use cockpit_tui::launch::{LaunchInfo, RepoStatus};

fn launch() -> LaunchInfo {
    LaunchInfo {
        version: "1.0.0".to_string(),
        session_id: None,
        session_short_id: None,
        provider_line: "acme / large".to_string(),
        active_model: Some(("acme".to_string(), "large".to_string())),
        active_model_is_favorite: false,
        active_model_max_context: Some(200_000),
        active_model_supports_images: false,
        cwd_display: "~/project".to_string(),
        repo_status: None,
        agent_name: "Build".to_string(),
        user_name: None,
        banner_enabled: true,
    }
}

fn settings() -> Settings {
    Settings {
        vim: VimModeSetting::Disabled,
        diff_style: DiffStyle::Inline,
        use_emojis: true,
        agent_markdown: true,
        user_markdown: false,
        exit_tail_lines: 100,
        rich_text_copy: true,
        predict: PredictNextMessage::Short,
    }
}

fn app() -> App {
    App::new(launch(), settings(), LlmMode::Normal, true, None)
}

fn ctx(now: u64) -> EventContext {
    EventContext {
        now,
        time: Timestamp { hour: 9, minute: 5 },
        working_draw: 3,
        lockout_ms: 0,
        provider_caches: true,
    }
}

fn attached(id: u128, short: &str) -> Attached {
    Attached {
        session_id: id,
        short_id: short.to_string(),
        project_id: "proj".to_string(),
    }
}

fn live(a: &mut App) {
    a.runner = Runner::Live {
        session_id: 1,
        short_id: "main01".to_string(),
        project_id: "p".to_string(),
    };
    a.link.session_persisted = true;
}

fn say(a: &mut App, line: &str) {
    a.say_str(line);
}

fn lines(a: &App) -> Vec<String> {
    a.history
        .iter()
        .map(|e| match e {
            HistoryEntry::Plain { line } => line.clone(),
            HistoryEntry::User { text, .. } => format!("> {text}"),
            HistoryEntry::CompactBoundary { predecessor_short_id, .. } => {
                format!("-- {predecessor_short_id}")
            }
            _ => String::new(),
        })
        .collect()
}

fn job(session_id: u128) -> ActiveJob {
    ActiveJob {
        session_id,
        label: "watch".to_string(),
        kind: "loop".to_string(),
        iteration: 0,
        last_activity: 0,
    }
}

#[test]
fn a_side_conversation_comes_and_goes_without_a_trace() {
    let mut a = app();
    live(&mut a);
    say(&mut a, "main line");
    a.editor.queue = vec!["waiting".to_string()];
    a.jobs.insert("j1".to_string(), job(1));
    a.context.prunable_tokens = 9;
    a.context.cache_cold = false;
    a.screen.scroll_offset = 4;
    a.launch.session_id = Some(1);
    a.launch.session_short_id = Some("main01".to_string());
    a.project_id = Some("p".to_string());
    match a.handle_side_command("") {
        Effect::ForkSession { session_id } => assert_eq!(session_id, 1),
        _ => panic!("expected a fork"),
    }
    a.enter_side_conversation(2, "side02", "/tmp/s".to_string(), attached(2, "side02"));
    assert!(a.side.is_some());
    assert_eq!(a.current_session_id(), Some(2));
    assert!(!a.link.session_persisted);
    assert_eq!(a.jobs.len(), 0);
    assert!(a.editor.queue.is_empty());
    assert_eq!(lines(&a)[0], "main line", "what was said stays visible");
    assert!(lines(&a)[1].starts_with("Side conversation side02 — a throwaway fork."));
    say(&mut a, "side talk");
    a.jobs.insert("j9".to_string(), job(2));
    assert!(matches!(a.handle_side_command(""), Effect::Stay));
    assert_eq!(
        lines(&a).last().unwrap(),
        "/side: already in a side conversation (`/side end` to discard)"
    );
    match a.handle_side_command(" END ") {
        Effect::DiscardSession { socket, session_id } => {
            assert_eq!((socket.as_str(), session_id), ("/tmp/s", 2));
        }
        _ => panic!("expected the fork to be discarded"),
    }
    assert_eq!(
        lines(&a),
        vec!["main line", "Side conversation discarded — back in the main session."]
    );
    assert_eq!(a.editor.queue, vec!["waiting".to_string()]);
    assert_eq!(a.jobs.len(), 1);
    assert!(a.jobs.has("j1"));
    assert_eq!(a.context.prunable_tokens, 9);
    assert!(!a.context.cache_cold);
    assert_eq!(a.screen.scroll_offset, 4);
    assert_eq!(a.current_session_id(), Some(1));
    assert_eq!(a.project_id.as_deref(), Some("p"));
    assert!(a.link.session_persisted);
    assert!(a.side.is_none());
}

#[test]
fn escape_on_an_empty_line_ends_a_side_conversation() {
    let mut a = app();
    live(&mut a);
    a.enter_side_conversation(2, "side02", "/tmp/s".to_string(), attached(2, "side02"));
    let key = KeyEvent::plain(KeyCode::Esc);
    let here = cockpit_tui::app::slash_run::KeyContext {
        now: 0,
        estimate: 0,
        here: cockpit_tui::app::slash::Availability {
            editor: false,
            lazygit: false,
        },
    };
    assert!(matches!(
        a.handle_key(key, here, &Vec::new()),
        Effect::DiscardSession { session_id: 2, .. }
    ));
    assert!(a.side.is_none());
}

#[test]
fn an_unsaved_session_has_no_side() {
    let mut a = app();
    live(&mut a);
    a.link.session_persisted = false;
    assert!(matches!(a.handle_side_command(""), Effect::Stay));
    assert_eq!(
        lines(&a)[0],
        "/side: send a message first — there's nothing to fork yet"
    );
    a.side_fork_failed("busy");
    a.side_attach_failed("gone");
    assert_eq!(lines(&a)[1], "/side: could not fork: busy");
    assert_eq!(lines(&a)[2], "/side: could not enter side conversation: gone");
}

#[test]
fn a_handoff_starts_a_fresh_thread() {
    let mut a = app();
    live(&mut a);
    say(&mut a, "old");
    a.commit_compact("nothing".to_string(), Err("unused".to_string()), ctx(0));
    assert_eq!(lines(&a), vec!["old"], "without a handoff nothing happens");
    let pending = || PendingCompact {
        new_session_id: 7,
        seed_tool_count: 2,
        seed_tool_tokens: 900,
        predecessor_short_id: "main01".to_string(),
    };
    a.pending_compact = Some(pending());
    a.commit_compact("carry on".to_string(), Err("refused".to_string()), ctx(0));
    assert_eq!(
        lines(&a)[1],
        "/compact: could not attach to fresh session: refused"
    );
    a.pending_compact = Some(pending());
    a.commit_compact("carry on".to_string(), Ok(attached(7, "new007")), ctx(30));
    assert_eq!(
        lines(&a),
        vec![
            "-- main01",
            "/compact: committed — fresh session started (2 seed tool(s) re-running). Old session recoverable via `cockpit session resume`.",
            "> carry on",
        ]
    );
    assert!(a.work.busy);
    assert_eq!(a.work.span_started_at, Some(30));
    assert_eq!(a.current_session_id(), Some(7));
    assert!(a.pending_compact.is_none());
}

#[test]
fn another_session_is_resumed() {
    let mut a = app();
    live(&mut a);
    say(&mut a, "old");
    a.jobs.insert("j1".to_string(), job(1));
    a.resume_session(5, Err("no such session".to_string()));
    assert_eq!(
        lines(&a)[1],
        "/resume: could not attach to session: no such session"
    );
    a.resume_session(5, Ok(attached(5, "")));
    assert_eq!(
        lines(&a),
        vec!["/resume: switched to session 00000000-0000-0000-0000-000000000005."]
    );
    assert_eq!(a.jobs.len(), 0);
    assert_eq!(a.project_id.as_deref(), Some("proj"));
    assert_eq!(a.current_session_id(), Some(5));
}

#[test]
fn a_fresh_session_forgets_the_old_one() {
    let mut a = app();
    live(&mut a);
    say(&mut a, "old");
    a.editor.prompt_history = vec!["kept".to_string()];
    a.usage_slash.bump("plan", 3);
    a.editor.accepted_tags.push("my file.txt".to_string());
    a.context.last_usage = Some(9);
    a.requests.new_session = true;
    a.launch.repo_status = Some(RepoStatus {
        branch: "main".to_string(),
        staged: 1,
        unstaged: 0,
        unpushed: 0,
    });
    let turn = a.prediction.turn();
    let mut fresh = launch();
    fresh.agent_name = "Plan".to_string();
    a.start_new_session(fresh, settings());
    assert!(a.history.is_empty());
    assert!(!a.requests.new_session);
    assert!(a.editor.accepted_tags.is_empty());
    assert_eq!(a.editor.prompt_history, vec!["kept".to_string()]);
    assert_eq!(a.usage_slash.get("plan"), 0);
    assert_eq!(a.context.last_usage, None);
    assert!(matches!(a.runner, Runner::Absent));
    assert_eq!(a.launch.agent_name, "Plan");
    assert_eq!(a.launch.repo_status.as_ref().unwrap().branch, "main");
    assert_eq!(a.prediction.turn(), turn + 1);
    assert!(!a.link.session_persisted);
}

#[test]
fn an_adopted_runner_gets_what_waited() {
    let mut a = app();
    a.record_usage(UsageKind::Tag, "src/a.rs".to_string(), None);
    a.record_usage(UsageKind::Slash, "plan".to_string(), None);
    let mut usage = ServerUsage {
        models: UsageCounts::new(),
        slash: UsageCounts::new(),
        tags: UsageCounts::new(),
    };
    usage.slash.bump("plan", 10);
    let estimate = GuidanceEstimate {
        file: Some("AGENTS.md".to_string()),
        guidance_tokens: 1_234,
        system_tokens: 10,
    };
    a.adopt_runner(attached(3, "run003"), &usage, Some(estimate));
    assert_eq!(a.usage_slash.get("plan"), 11);
    assert_eq!(a.launch.session_short_id.as_deref(), Some("run003"));
    assert!(a.pending_usage.is_empty());
    match &a.take_outbox()[..] {
        [Request::RecordUsage(tag), Request::RecordUsage(slash)] => {
            assert_eq!(tag.project_id.as_deref(), Some("proj"));
            assert_eq!(slash.project_id, None);
        }
        _ => panic!("expected two records"),
    }
    assert_eq!(a.context_indicator_text(0), "1.2k tokens in AGENTS.md");
    // An estimate that says nothing is ignored.
    let empty = GuidanceEstimate {
        file: None,
        guidance_tokens: 0,
        system_tokens: 0,
    };
    a.adopt_runner(attached(3, "run003"), &usage, Some(empty));
    assert_eq!(a.context_indicator_text(0), "1.2k tokens in AGENTS.md");
}

#[test]
fn a_session_is_attached_for_display_only_when_all_permits() {
    let mut a = app();
    assert!(!a.wants_session_for_display(|| true));
    a.link.daemon_connected = true;
    assert!(a.wants_session_for_display(|| true));
    assert!(!a.wants_session_for_display(|| false));
    assert_eq!(a.lifecycle_mode(), LifecycleMode::AttachOrAutoPromote);
    a.link.daemonless = true;
    assert!(!a.wants_session_for_display(|| true));
    assert_eq!(a.lifecycle_mode(), LifecycleMode::AttachOwnEphemeral);
    a.link.daemonless = false;
    a.runner_failed("no".to_string());
    assert!(!a.wants_session_for_display(|| true));
}

#[test]
fn settings_take_effect_at_once() {
    let mut a = app();
    a.drain_prediction(0, Some("next".to_string()));
    assert!(a.prediction.ghost().is_some());
    let mut s = settings();
    s.vim = VimModeSetting::Hint;
    s.predict = PredictNextMessage::Off;
    a.reload_tui_config(s);
    assert!(a.editor.composer.vim_enabled());
    assert!(a.prediction.ghost().is_none());
    assert_eq!(a.cursor_shape(), CursorShape::Bar);
    a.editor.composer.set_vim_mode(VimMode::Normal);
    assert_eq!(a.cursor_shape(), CursorShape::Block);
    assert_eq!(a.popup_lines(), 1);
    s.vim = VimModeSetting::Disabled;
    a.reload_tui_config(s);
    assert_eq!(a.cursor_shape(), CursorShape::Bar);
}

#[test]
fn the_model_picker_reports_the_model() {
    let mut a = app();
    let mut fresh = launch();
    fresh.active_model = Some(("acme".to_string(), "small".to_string()));
    fresh.active_model_is_favorite = true;
    a.close_model_picker(fresh, true);
    assert_eq!(lines(&a)[0], "/model: active model is now acme/small (★)");
    assert_eq!(a.usage_models.get("acme/small"), 1);
    let mut none = launch();
    none.active_model = None;
    a.close_model_picker(none, true);
    assert_eq!(lines(&a)[1], "/model: no active model");
    a.favorite_toggled(true, "acme", "small", launch());
    assert_eq!(lines(&a)[2], "/favorite: marked acme/small as favorite");
}

#[test]
fn the_mouse_is_captured_or_not() {
    let mut a = app();
    a.mouse_toggled(true, 0);
    assert!(!a.requests.mouse_capture);
    assert_eq!(
        a.toast.as_ref().unwrap().text,
        "/mouse: capture off (this session only)"
    );
    a.mouse_toggled(false, 0);
    assert!(!a.requests.mouse_capture);
    assert_eq!(
        a.toast.as_ref().unwrap().text,
        "/mouse: terminal rejected the capture toggle"
    );
    a.pane_opened(PaneSide::Top);
    a.close_pane();
    assert!(!a.pane.open && !a.pane.focused);
}

#[test]
fn fetched_models_keep_or_drop_the_others() {
    let ids = |s: &[&str]| s.iter().map(|i| i.to_string()).collect::<Vec<String>>();
    let remote = ids(&["b", "c"]);
    let before = ids(&["a", "b", "a"]);
    assert_eq!(
        merge_fetched_models(&remote, &before, OnUnlistedModels::Keep),
        ids(&["b", "c", "a"])
    );
    assert_eq!(
        merge_fetched_models(&remote, &before, OnUnlistedModels::Remove),
        remote
    );
    assert_eq!(
        merge_fetched_models(&remote, &before, OnUnlistedModels::Ask),
        remote
    );
}

#[test]
fn a_run_asks_every_provider() {
    let provider = |id: &str, models: &[&str]| ProviderModels {
        id: id.to_string(),
        models: models.iter().map(|m| m.to_string()).collect(),
        fetched: false,
    };
    let mut run = FetchRun::start(FetchConfig::Loaded {
        providers: vec![
            provider("a", &["old"]),
            provider("b", &["kept"]),
            provider("c", &[]),
            provider("d", &[]),
        ],
        policy: None,
    })
    .unwrap_or_else(|e| panic!("{e}"));
    assert_eq!(run.pending().map(|s| s.as_str()), Some("a"));
    assert_eq!(
        run.answer(ProviderOutcome::Models(vec!["new".to_string()])),
        "/fetch-models: a → 1 model(s)"
    );
    assert_eq!(
        run.answer(ProviderOutcome::Failed("timeout".to_string())),
        "/fetch-models: b failed: timeout"
    );
    assert_eq!(
        run.answer(ProviderOutcome::Unsupported),
        "/fetch-models: c has no /models endpoint"
    );
    assert_eq!(
        run.answer(ProviderOutcome::Skipped("no key".to_string())),
        "/fetch-models: d skipped — no key"
    );
    assert!(run.pending().is_none());
    assert_eq!(run.providers[0].models, vec!["new", "old"]);
    assert!(run.providers[0].fetched);
    assert_eq!(run.providers[1].models, vec!["kept"]);
    assert!(!run.providers[1].fetched);
    assert_eq!(fetch_end_line(&Ok(())), "/fetch-models: done");
    assert_eq!(
        fetch_end_line(&Err("disk full".to_string())),
        "/fetch-models: write failed: disk full"
    );
}

#[test]
fn a_run_needs_providers() {
    let said = |config: FetchConfig| match FetchRun::start(config) {
        Ok(_) => panic!("expected no run"),
        Err(line) => line,
    };
    assert_eq!(
        said(FetchConfig::Missing),
        "/fetch-models: no cockpit config — run /settings to create one"
    );
    assert_eq!(
        said(FetchConfig::Broken("bad json".to_string())),
        "/fetch-models: config load failed: bad json"
    );
    assert_eq!(
        said(FetchConfig::Loaded { providers: Vec::new(), policy: None }),
        "/fetch-models: no providers configured"
    );
}

#[test]
fn progress_tells_when_to_reload() {
    let mut a = app();
    assert!(!a.drain_fetch_progress(vec!["/fetch-models: starting".to_string()]));
    assert!(a.drain_fetch_progress(vec!["/fetch-models: acme → 3 model(s)".to_string()]));
    assert!(a.drain_fetch_progress(vec!["/fetch-models: done".to_string()]));
    assert!(!a.drain_fetch_progress(vec!["done: no".to_string()]));
    assert_eq!(a.history.len(), 4);
}

#[test]
fn the_exit_tail_holds_what_was_streamed() {
    let mut a = app();
    say(&mut a, "one");
    a.settings.exit_tail_lines = 0;
    assert!(a.build_exit_tail_lines().is_empty());
    a.settings.exit_tail_lines = 1;
    say(&mut a, "two");
    assert_eq!(a.build_exit_tail_lines(), vec!["two".to_string()]);
    a.settings.exit_tail_lines = -1;
    assert_eq!(a.build_exit_tail_lines().len(), 2);
}

#[test]
fn agent_and_repository_are_kept_in_step() {
    let mut a = app();
    a.sync_active_agent("Plan".to_string());
    assert_eq!(a.launch.agent_name, "Plan");
    a.sync_repo_status(None);
    assert!(a.launch.repo_status.is_none());
}

#[test]
fn caching_depends_on_the_active_model() {
    let mut a = app();
    let off = CacheConfig { mode: CacheMode::Uncached, ttl_secs: 300 };
    let on = CacheConfig { mode: CacheMode::Ephemeral, ttl_secs: 300 };
    assert!(a.active_provider_caches(&on));
    assert!(!a.active_provider_caches(&off));
    a.launch.active_model = None;
    assert!(a.active_provider_caches(&off));
}
