use cockpit_tui::app::command::{LlmMode, ToolArgs};
use cockpit_tui::app::control::{message_after, working_draw, WORKING_MESSAGE_COUNT};
use cockpit_tui::app::events::{EventContext, ToolFailKind, TurnEvent};
use cockpit_tui::app::history::{HistoryEntry, Timestamp, ToolCallState};
use cockpit_tui::app::state::{
    App, PredictNextMessage, Runner, Settings, TagExpansion, ToastKind, VimModeSetting,
};
use cockpit_tui::dialog::question::{InterruptOption, InterruptQuestion, InterruptQuestionSet};
use cockpit_tui::diff::DiffStyle;
use cockpit_tui::launch::LaunchInfo;

fn launch() -> LaunchInfo {
    LaunchInfo {
        version: "1.0.0".to_string(),
        session_id: None,
        session_short_id: None,
        provider_line: "acme / large".to_string(),
        active_model: Some(("acme".to_string(), "large".to_string())),
        active_model_is_favorite: false,
        active_model_max_context: Some(200_000),
        active_model_supports_images: false,
        cwd_display: "~/project".to_string(),
        repo_status: None,
        agent_name: "Build".to_string(),
        user_name: None,
        banner_enabled: true,
    }
}

fn settings() -> Settings {
    Settings {
        vim: VimModeSetting::Disabled,
        diff_style: DiffStyle::Inline,
        use_emojis: true,
        agent_markdown: true,
        user_markdown: false,
        exit_tail_lines: 100,
        rich_text_copy: true,
        predict: PredictNextMessage::Short,
    }
}

fn app() -> App {
    App::new(launch(), settings(), LlmMode::Normal, true, None)
}

fn ctx(now: u64) -> EventContext {
    EventContext {
        now,
        time: Timestamp { hour: 9, minute: 5 },
        working_draw: 3,
        lockout_ms: 1_500,
        provider_caches: true,
    }
}

fn apply(app: &mut App, event: TurnEvent, ctx: EventContext) -> bool {
    app.apply_event(event, ctx, |t: &str| t.len())
}

fn args() -> ToolArgs {
    ToolArgs {
        path: Some("src/a.rs".to_string()),
        command: Some("ls\nls -l".to_string()),
        url: None,
        old_string: Some("old".to_string()),
        new_string: Some("new".to_string()),
        short: "{}".to_string(),
    }
}

fn plain(app: &App, i: usize) -> String {
    match &app.history[i] {
        HistoryEntry::Plain { line } => line.clone(),
        _ => panic!("expected a plain line"),
    }
}

fn last_plain(app: &App) -> String {
    plain(app, app.history.len() - 1)
}

fn start(app: &mut App, tool: &str, id: &str) {
    apply(app, 
        TurnEvent::ToolStart {
            tool: tool.to_string(),
            args: args(),
            call_id: id.to_string(),
        },
        ctx(0),
    );
}

#[test]
fn reconnecting_shows_the_attempt_and_begins_a_span() {
    let mut a = app();
    apply(&mut a, TurnEvent::Reconnecting { attempt: 2 }, ctx(50));
    assert_eq!(a.work.reconnect_attempt, Some(2));
    assert!(a.work.busy);
    assert_eq!(a.work.span_started_at, Some(50));
    assert_eq!(a.work.working_msg_idx, 3);
    // A span that runs already goes on.
    apply(&mut a, TurnEvent::Reconnecting { attempt: 3 }, ctx(90));
    assert_eq!(a.work.span_started_at, Some(50));
}

#[test]
fn a_round_takes_the_queued_messages() {
    let mut a = app();
    a.editor.queue = vec!["one".to_string(), "two".to_string()];
    a.queued_tag_calls.push(TagExpansion {
        tool: "read".to_string(),
        path: "a.rs".to_string(),
        ok: true,
        detail: "3 lines".to_string(),
    });
    apply(&mut a, TurnEvent::ThinkingStarted { agent: "Build".to_string() }, ctx(10));
    assert!(a.editor.queue.is_empty());
    assert!(a.queued_tag_calls.is_empty());
    assert!(matches!(&a.history[0], HistoryEntry::User { text, .. } if text == "one\n\ntwo"));
    assert_eq!(plain(&a, 1), "  → read(a.rs) ✓ 3 lines");
    assert!(a.pending.is_some());
    assert!(a.work.busy);
}

#[test]
fn streamed_text_becomes_an_answer() {
    let mut a = app();
    let agent = || "Build".to_string();
    apply(&mut a, TurnEvent::ThinkingStarted { agent: agent() }, ctx(100));
    for (now, piece) in [(200, "<thi"), (300, "nk>why</th"), (400, "ink>Hel"), (500, "lo")] {
        apply(&mut a, 
            TurnEvent::AssistantTextDelta { agent: agent(), delta: piece.to_string() },
            ctx(now),
        );
    }
    apply(&mut a, 
        TurnEvent::ReasoningDelta { agent: agent(), delta: " more".to_string() },
        ctx(600),
    );
    let idle = apply(&mut a, TurnEvent::AssistantText { text: "  ".to_string() }, ctx(700));
    assert!(!idle);
    match &a.history[0] {
        HistoryEntry::Agent { name, text, reasoning, timestamp, expanded, think_duration } => {
            assert_eq!(name, "Build");
            assert_eq!(text, "Hello");
            assert_eq!(reasoning, "why more");
            assert_eq!((timestamp.hour, timestamp.minute), (9, 5));
            assert!(!*expanded);
            assert_eq!(*think_duration, Some(300));
        }
        _ => panic!("expected an answer"),
    }
    assert!(a.pending.is_none());
}

#[test]
fn the_final_text_replaces_the_stream() {
    let mut a = app();
    apply(&mut a, 
        TurnEvent::AssistantTextDelta {
            agent: "Build".to_string(),
            delta: "Hallo".to_string(),
        },
        ctx(1),
    );
    apply(&mut a, TurnEvent::AssistantText { text: "Hello".to_string() }, ctx(2));
    assert!(matches!(&a.history[0], HistoryEntry::Agent { text, .. } if text == "Hello"));
}

#[test]
fn going_idle_ends_the_span_and_asks_for_a_prediction() {
    let mut a = app();
    apply(&mut a, TurnEvent::ThinkingStarted { agent: "Build".to_string() }, ctx(10));
    let turn = a.prediction.turn();
    assert!(apply(&mut a, TurnEvent::AgentIdle, ctx(20)));
    assert!(!a.work.busy);
    assert_eq!(a.work.span_started_at, None);
    assert_eq!(a.prediction.turn(), turn + 1);
    // An answer without text leaves nothing behind.
    assert!(a.history.is_empty());
}

#[test]
fn calls_share_a_box_until_something_else_comes() {
    let mut a = app();
    start(&mut a, "bash", "c1");
    start(&mut a, "read", "c2");
    apply(&mut a, 
        TurnEvent::ToolEnd {
            tool: "bash".to_string(),
            output: "out".to_string(),
            truncated: false,
            call_id: "c1".to_string(),
        },
        ctx(0),
    );
    apply(&mut a, 
        TurnEvent::ToolEnd {
            tool: "read".to_string(),
            output: "a whole file".to_string(),
            truncated: false,
            call_id: "c2".to_string(),
        },
        ctx(0),
    );
    assert_eq!(a.history.len(), 1);
    match &a.history[0] {
        HistoryEntry::ToolBox { calls, .. } => {
            assert_eq!(calls.len(), 2);
            assert_eq!(calls[0].summary, "ls …");
            assert_eq!(calls[0].full_input, "ls\nls -l");
            assert_eq!(calls[0].output, "out");
            assert_eq!(calls[0].state, ToolCallState::Success);
            assert_eq!(calls[1].summary, "src/a.rs");
            assert_eq!(calls[1].output, "", "files that were read are not kept");
        }
        _ => panic!("expected a box"),
    }
    apply(&mut a, TurnEvent::Notice { text: "careful".to_string() }, ctx(0));
    assert_eq!(last_plain(&a), "⚠ careful");
    start(&mut a, "bash", "c3");
    assert_eq!(a.history.len(), 3);
}

#[test]
fn writes_stand_on_their_own() {
    let mut a = app();
    start(&mut a, "write", "w1");
    assert!(matches!(
        &a.history[0],
        HistoryEntry::ToolLine { summary, state: ToolCallState::Processing, .. }
            if summary == "src/a.rs"
    ));
}

#[test]
fn edits_show_as_diffs_once_they_are_done() {
    let mut a = app();
    start(&mut a, "edit", "e1");
    assert!(a.history.is_empty());
    apply(&mut a, 
        TurnEvent::ToolEnd {
            tool: "edit".to_string(),
            output: "ok".to_string(),
            truncated: false,
            call_id: "e1".to_string(),
        },
        ctx(0),
    );
    match &a.history[0] {
        HistoryEntry::Diff { path, old_text, new_text, .. } => {
            assert_eq!((path.as_str(), old_text.as_str(), new_text.as_str()), ("src/a.rs", "old", "new"));
        }
        _ => panic!("expected a diff"),
    }
    assert!(a.pending_edits.is_empty());
}

#[test]
fn failures_mark_the_call_or_stand_alone() {
    let mut a = app();
    start(&mut a, "bash", "c1");
    start(&mut a, "edit", "e1");
    for (id, kind) in [("c1", ToolFailKind::Invocation), ("e1", ToolFailKind::Execution)] {
        apply(&mut a, 
            TurnEvent::ToolError {
                tool: "tool".to_string(),
                error: format!("{id} went wrong\nand more"),
                call_id: id.to_string(),
                kind,
            },
            ctx(0),
        );
    }
    assert!(matches!(
        &a.history[0],
        HistoryEntry::ToolBox { calls, .. } if calls[0].state == ToolCallState::BadCall
    ));
    assert!(matches!(
        &a.history[1],
        HistoryEntry::ToolLine { summary, state: ToolCallState::Failed, .. }
            if summary == "e1 went wrong"
    ));
    assert!(a.pending_edits.is_empty());
}

#[test]
fn delegations_are_settled_by_their_reports() {
    let mut a = app();
    apply(&mut a, 
        TurnEvent::SubagentSpawned {
            parent: "Build".to_string(),
            child: "explore".to_string(),
        },
        ctx(1_000),
    );
    apply(&mut a, 
        TurnEvent::SubagentReport {
            agent: "explore".to_string(),
            report: "found it".to_string(),
        },
        ctx(4_000),
    );
    assert!(matches!(
        &a.history[0],
        HistoryEntry::Subagent { outcome: Some(o), .. }
            if o.report == "found it" && o.duration == 3_000 && !o.failed
    ));
}

#[test]
fn usage_anchors_the_counter() {
    let mut a = app();
    apply(&mut a, TurnEvent::Notice { text: "12345".to_string() }, ctx(0));
    let shown = a.estimate_context_tokens(|t: &str| t.len());
    assert!(shown >= 5);
    assert_eq!(a.context_tokens(shown), shown);
    apply(&mut a, TurnEvent::Usage { total: 12_000 }, ctx(0));
    assert_eq!(a.context.last_usage, Some(12_000));
    assert_eq!(a.context.estimate_at_last_usage, shown);
    // The count is the provider's, and grows with what is streamed after it.
    assert_eq!(a.context_tokens(shown), 12_000);
    assert_eq!(a.context_tokens(shown + 8_000), 20_000);
    assert_eq!(a.context_tokens(0), 12_000);
    assert_eq!(a.context_indicator_text(shown + 8_000), "10% context (max 200k), 0% prunable");
    apply(&mut a, TurnEvent::Usage { total: u64::MAX }, ctx(0));
    assert_eq!(a.context_tokens(shown + 5), u32::MAX);
    assert_eq!(a.context_indicator_text(shown), "999% context (max 200k), 0% prunable");
}

#[test]
fn streamed_text_raises_the_count() {
    let mut a = app();
    let count = |t: &str| t.len();
    apply(&mut a, TurnEvent::Usage { total: 100 }, ctx(0));
    let delta = TurnEvent::AssistantTextDelta {
        agent: "Build".to_string(),
        delta: "seven!!".to_string(),
    };
    apply(&mut a, delta, ctx(1));
    assert_eq!(a.context_tokens(a.estimate_context_tokens(count)), 107);
    // The next report snaps back to the provider's count.
    apply(&mut a, TurnEvent::Usage { total: 105 }, ctx(2));
    assert_eq!(a.context_tokens(a.estimate_context_tokens(count)), 105);
}

#[test]
fn the_indicator_tells_of_a_lost_connection() {
    let mut a = app();
    apply(&mut a, TurnEvent::Reconnecting { attempt: 2 }, ctx(0));
    let line = a.status_indicator(60_000, "...").unwrap();
    assert_eq!(line.text(), " reconnecting… attempt 2");
    apply(&mut a, TurnEvent::ThinkingStarted { agent: "Build".to_string() }, ctx(1));
    let line = a.status_indicator(60_000, "...").unwrap();
    assert!(!line.text().contains("reconnecting"));
}

#[test]
fn edits_without_an_end_are_forgotten() {
    let mut a = app();
    start(&mut a, "edit", "c1");
    assert_eq!(a.pending_edits.len(), 1);
    apply(&mut a, TurnEvent::AgentIdle, ctx(1));
    assert!(a.pending_edits.is_empty());
}

#[test]
fn every_span_has_a_message_of_its_own() {
    let mut a = app();
    let mut last = a.work.working_msg_idx;
    for draw in [0, 0, 39, 39, 3, 3, usize::MAX] {
        a.begin_span(0, draw);
        assert!(a.work.working_msg_idx < WORKING_MESSAGE_COUNT);
        assert_ne!(a.work.working_msg_idx, last);
        last = a.work.working_msg_idx;
    }
    for _ in 0..100 {
        a.begin_span(0, working_draw());
        assert!(a.work.working_msg_idx < WORKING_MESSAGE_COUNT);
        assert_ne!(a.work.working_msg_idx, last);
        last = a.work.working_msg_idx;
    }
    // The first message of all can be any of them.
    assert_eq!(message_after(WORKING_MESSAGE_COUNT, 39), 39);
    assert_eq!(message_after(3, 3), 4);
    assert_eq!(message_after(3, 2), 2);
    assert_eq!(message_after(3, 39), 0);
}

#[test]
fn agent_and_mode_follow_the_daemon() {
    let mut a = app();
    apply(&mut a, TurnEvent::PrimarySwapped { name: "Plan".to_string() }, ctx(0));
    assert_eq!(a.launch.agent_name, "Plan");
    apply(&mut a, TurnEvent::LlmModeChanged { mode: LlmMode::Defensive }, ctx(0));
    assert_eq!(a.context.llm_mode, LlmMode::Defensive);
    assert_eq!(last_plain(&a), "Switched to `defensive` LLM mode");
}

#[test]
fn an_interrupt_opens_the_question_dialog() {
    let mut a = app();
    apply(&mut a, 
        TurnEvent::InterruptRaised {
            interrupt_id: 9,
            description: String::new(),
            questions: InterruptQuestionSet {
                questions: vec![InterruptQuestion::Single {
                    prompt: "Which?".to_string(),
                    options: vec![InterruptOption {
                        id: "a".to_string(),
                        label: "A".to_string(),
                        description: None,
                    }],
                    allow_freetext: false,
                }],
            },
        },
        ctx(10_000),
    );
    let d = a.question_dialog.as_ref().expect("dialog");
    assert_eq!(d.interrupt_id(), 9);
    assert!(d.state().locked(11_000));
    assert!(!d.state().locked(11_500));
}

#[test]
fn jobs_come_and_go() {
    let mut a = app();
    apply(&mut a, 
        TurnEvent::JobStarted {
            session_id: 1,
            job_id: "j1".to_string(),
            label: "watch".to_string(),
            kind: "loop".to_string(),
        },
        ctx(10),
    );
    assert_eq!(last_plain(&a), "[job j1] started: watch");
    apply(&mut a, TurnEvent::JobProgress { job_id: "j1".to_string() }, ctx(20));
    assert_eq!(a.jobs.job_at(0).last_activity, 20);
    assert_eq!(a.jobs.job_at(0).iteration, 0);
    apply(&mut a, 
        TurnEvent::JobNote { job_id: "j1".to_string(), text: "tick".to_string() },
        ctx(30),
    );
    assert_eq!(last_plain(&a), "[job j1 note] tick");
    assert_eq!(a.jobs.job_at(0).iteration, 1);
    apply(&mut a, 
        TurnEvent::JobCompleted {
            job_id: "j1".to_string(),
            label: "watch".to_string(),
            kind: "loop".to_string(),
            failed: true,
        },
        ctx(40),
    );
    assert_eq!(last_plain(&a), "[job j1] loop failed: watch");
    assert_eq!(a.jobs.len(), 0);
}

#[test]
fn pruning_is_reported() {
    let mut a = app();
    let pruned = |bodies: u64, auto: bool, cache_break: bool| TurnEvent::Pruned {
        auto,
        bodies,
        tokens_saved: 420,
        elided: vec!["e1".to_string()],
        cache_break,
    };
    apply(&mut a, pruned(0, true, false), ctx(0));
    assert_eq!(last_plain(&a), "auto-pruned: nothing to do (0% prunable)");
    apply(&mut a, pruned(1, false, false), ctx(0));
    assert_eq!(
        last_plain(&a),
        "/prune: collapsed 1 superseded snapshot (~420 wire tokens reclaimed)"
    );
    apply(&mut a, pruned(2, false, true), ctx(0));
    assert_eq!(
        plain(&a, 2),
        "/prune: collapsed 2 superseded snapshots (~420 wire tokens reclaimed)"
    );
    assert!(last_plain(&a).starts_with("Heads up: switching busts the prompt cache"));
    assert_eq!(a.elided, vec!["e1".to_string()]);
    let mut quiet = ctx(0);
    quiet.provider_caches = false;
    apply(&mut a, pruned(2, false, true), quiet);
    assert_eq!(a.history.len(), 5);
}

#[test]
fn a_handoff_waits_in_the_composer() {
    let mut a = app();
    a.runner = Runner::Live {
        session_id: 1,
        short_id: "abc123".to_string(),
        project_id: "p".to_string(),
    };
    apply(&mut a, 
        TurnEvent::CompactReady {
            new_session_id: 2,
            handoff: "carry on".to_string(),
            seed_tool_count: 3,
            seed_tool_tokens: 1_200,
        },
        ctx(0),
    );
    assert_eq!(a.editor.composer.text(), "carry on");
    let p = a.pending_compact.as_ref().expect("pending");
    assert_eq!(p.new_session_id, 2);
    assert_eq!(p.predecessor_short_id, "abc123");
    assert!(last_plain(&a).starts_with(
        "/compact: handoff ready for review in the composer — 3 seed tool(s), ~1200 tokens"
    ));
}

#[test]
fn daemon_news_show_as_toasts() {
    let mut a = app();
    apply(&mut a, TurnEvent::SandboxState { enabled: true }, ctx(1_000));
    let t = a.toast.as_ref().expect("toast");
    assert_eq!((t.text.as_str(), t.expires_at), ("sandbox on", 4_000));
    apply(&mut a, 
        TurnEvent::CaffeinateState {
            active: true,
            lid_close_guaranteed: false,
            message: Some("awake".to_string()),
        },
        ctx(2_000),
    );
    assert!(a.link.caffeinate_active);
    assert_eq!(a.toast.as_ref().unwrap().kind, ToastKind::Error);
    apply(&mut a, TurnEvent::DaemonDraining { forced: false }, ctx(3_000));
    assert!(a.link.draining);
    assert_eq!(
        a.toast.as_ref().unwrap().text,
        "finishing in-flight work, shutting down…"
    );
    apply(&mut a, TurnEvent::DaemonDraining { forced: true }, ctx(3_000));
    assert_eq!(a.toast.as_ref().unwrap().kind, ToastKind::Error);
    a.tick_toast(6_000);
    assert!(a.toast.is_some());
    a.tick_toast(6_001);
    assert!(a.toast.is_none());
}

#[test]
fn plan_counts_are_those_of_the_project() {
    let mut a = app();
    let state = |project: &str| TurnEvent::PlanStatusState {
        project_id: project.to_string(),
        ready: 1,
        in_progress: 2,
        interruptions: 3,
    };
    apply(&mut a, state("p"), ctx(0));
    assert_eq!(a.link.plan_status.ready, 0);
    a.project_id = Some("p".to_string());
    apply(&mut a, state("other"), ctx(0));
    assert_eq!(a.link.plan_status.ready, 0);
    apply(&mut a, state("p"), ctx(0));
    assert_eq!(a.link.plan_status.interruptions, 3);
}

#[test]
fn projection_is_taken_over() {
    let mut a = app();
    apply(&mut a, 
        TurnEvent::ContextProjection { prunable_tokens: 50, cache_cold: false },
        ctx(0),
    );
    assert_eq!(a.context.prunable_tokens, 50);
    assert!(!a.context.cache_cold);
}

#[test]
fn pieces_of_a_stream_add_up() {
    let whole = "a<think>b</think>c<thin d";
    let mut one = app();
    let delta = |d: &str| TurnEvent::AssistantTextDelta {
        agent: "Build".to_string(),
        delta: d.to_string(),
    };
    apply(&mut one, delta(whole), ctx(10));
    let mut many = app();
    for c in whole.chars() {
        apply(&mut many, delta(&c.to_string()), ctx(10));
    }
    let (p, q) = (one.pending.as_ref().unwrap(), many.pending.as_ref().unwrap());
    assert_eq!(p.text, "ac<thin d");
    assert_eq!(p.reasoning, "b");
    assert_eq!(
        (&p.text, &p.reasoning, p.inside_think, &p.tag_partial, p.text_started_at),
        (&q.text, &q.reasoning, q.inside_think, &q.tag_partial, q.text_started_at)
    );
}

#[test]
fn a_drain_is_not_taken_back() {
    let mut a = app();
    apply(&mut a, TurnEvent::DaemonDraining { forced: false }, ctx(0));
    apply(&mut a, TurnEvent::AgentIdle, ctx(1));
    apply(&mut a, TurnEvent::Notice { text: "still here".to_string() }, ctx(2));
    assert!(a.link.draining);
}
