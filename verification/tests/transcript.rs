use cockpit_tui::app::command::{
    cache_config_caches, cap_display_lines, cap_tokens, git_block, merge_output,
    parse_caffeinate_arg, parse_copy_format, parse_llm_mode_arg, parse_pane_side,
    parse_sandbox_arg, strip_ansi, xml_escape, CacheConfig, CacheMode, CaffeinateMode, CopyFormat,
    LlmMode, PaneSide, GIT_AGENT_TOKEN_CAP,
};
use cockpit_tui::app::history::{
    last_agent_text, settle_subagent_in, turns_from_history, HistoryEntry, PredictionTurn,
    Timestamp, ToolCall, ToolCallState,
};
use cockpit_tui::app::prediction::PredictionState;
use cockpit_tui::app::slash::slash_args;

const NOON: Timestamp = Timestamp {
    hour: 12,
    minute: 0,
};

/// Four bytes to a token.
fn count(text: &str) -> usize {
    text.len().div_ceil(4)
}

fn last_turns(turns: &[PredictionTurn]) -> &[PredictionTurn] {
    &turns[turns.len().saturating_sub(3)..]
}

#[test]
fn strip_ansi_removes_csi_and_cr() {
    assert_eq!(strip_ansi("\x1b[31mred\x1b[0m\r\nplain"), "red\nplain");
}

#[test]
fn strip_ansi_removes_osc() {
    assert_eq!(strip_ansi("\x1b]0;window title\x07body"), "body");
}

#[test]
fn slash_args_splits_off_command_token() {
    assert_eq!(slash_args("/git status -s"), "status -s");
    assert_eq!(slash_args("/git"), "");
    assert_eq!(slash_args("/editor right"), "right");
    // A bare prefix (popup-accepted before any space) has no args.
    assert_eq!(slash_args("/g"), "");
}

#[test]
fn parse_pane_side_aliases() {
    assert_eq!(parse_pane_side("up"), PaneSide::Top);
    assert_eq!(parse_pane_side("down"), PaneSide::Bottom);
    assert_eq!(parse_pane_side("LEFT"), PaneSide::Left);
    assert_eq!(parse_pane_side(""), PaneSide::Full);
    assert_eq!(parse_pane_side("garbage"), PaneSide::Full);
}

#[test]
fn parse_sandbox_arg_maps_to_enabled() {
    // `/sandbox` (no arg) toggles; `on`/`off` set explicitly
    // (sandboxing part 2). Case- and whitespace-insensitive.
    assert_eq!(parse_sandbox_arg(""), Ok(None));
    assert_eq!(parse_sandbox_arg("  "), Ok(None));
    assert_eq!(parse_sandbox_arg("on"), Ok(Some(true)));
    assert_eq!(parse_sandbox_arg(" ON "), Ok(Some(true)));
    assert_eq!(parse_sandbox_arg("off"), Ok(Some(false)));
    assert_eq!(parse_sandbox_arg("Off"), Ok(Some(false)));
    assert_eq!(parse_sandbox_arg("maybe"), Err("maybe".to_string()));
}

#[test]
fn parse_llm_mode_arg_toggle_default_and_aliases() {
    // No arg or `toggle` → toggle (None).
    assert_eq!(parse_llm_mode_arg(""), Ok(None));
    assert_eq!(parse_llm_mode_arg("  "), Ok(None));
    assert_eq!(parse_llm_mode_arg("toggle"), Ok(None));
    assert_eq!(parse_llm_mode_arg("TOGGLE"), Ok(None));
    // `defend` is the advertised form; `defensive` is a silent alias.
    assert_eq!(parse_llm_mode_arg("defend"), Ok(Some(LlmMode::Defensive)));
    assert_eq!(
        parse_llm_mode_arg("defensive"),
        Ok(Some(LlmMode::Defensive))
    );
    assert_eq!(parse_llm_mode_arg(" Defend "), Ok(Some(LlmMode::Defensive)));
    // `normal` selects normal.
    assert_eq!(parse_llm_mode_arg("normal"), Ok(Some(LlmMode::Normal)));
    // Anything else is a usage error.
    assert!(parse_llm_mode_arg("yolo").is_err());
}

#[test]
fn cache_break_warning_suppressed_on_no_cache_provider() {
    // No-cache provider → the predicate says it doesn't cache, so the
    // warning is suppressed.
    let none = CacheConfig {
        mode: CacheMode::Uncached,
        ttl_secs: 300,
    };
    assert!(
        !cache_config_caches(&none),
        "a no-cache provider must report no caching (warning suppressed)"
    );
    // Caching provider → the warning fires.
    let ephemeral = CacheConfig {
        mode: CacheMode::Ephemeral,
        ttl_secs: 300,
    };
    assert!(
        cache_config_caches(&ephemeral),
        "a caching provider must report caching (warning fires)"
    );
}

#[test]
fn xml_escape_attr() {
    assert_eq!(xml_escape("a\"b<c>&d"), "a&quot;b&lt;c&gt;&amp;d");
}

#[test]
fn cap_tokens_keeps_small_input() {
    let small = "short git output";
    assert_eq!(cap_tokens(small, GIT_AGENT_TOKEN_CAP, count), small);
}

#[test]
fn short_text_gets_no_note() {
    // Exactly as many tokens as allowed is short enough, whatever the length.
    let text = "x".repeat(10_000);
    assert_eq!(cap_tokens(&text, 5, |_: &str| 5), text);
    assert!(cap_tokens(&text, 4, |_: &str| 5).ends_with("\n… [truncated to ~4 tokens]"));
}

#[test]
fn cap_tokens_truncates_large_input() {
    let big = "word ".repeat(5000);
    let capped = cap_tokens(&big, 100, count);
    assert!(capped.contains("truncated"));
    assert!(count(&capped) <= 200);
}


fn running(parent: &str, child: &str) -> HistoryEntry {
    HistoryEntry::Subagent {
        parent: parent.to_string(),
        child: child.to_string(),
        spawned_at: 1_000,
        outcome: None,
        expanded: false,
    }
}

fn outcome(entry: &HistoryEntry) -> Option<(&str, bool)> {
    match entry {
        HistoryEntry::Subagent {
            outcome: Some(o), ..
        } => Some((o.report.as_str(), o.failed)),
        _ => None,
    }
}

/// Spawn → report transition settles the running entry in place
/// (no new entry pushed) with the report and failed=false.
#[test]
fn report_settles_running_entry_in_place() {
    let mut history = vec![running("Build", "explore")];
    settle_subagent_in(&mut history, "explore", "all done".to_string(), 3_500);
    assert_eq!(history.len(), 1);
    assert_eq!(outcome(&history[0]), Some(("all done", false)));
}

/// A report whose text is the driver's `Error: ` failure encoding
/// settles as a failure (failed=true) rather than a normal report.
#[test]
fn error_prefixed_report_settles_as_failure() {
    let mut history = vec![running("Build", "explore")];
    settle_subagent_in(&mut history, "explore", "Error: it broke".to_string(), 3_500);
    assert_eq!(outcome(&history[0]), Some(("Error: it broke", true)));
}

/// An empty report still settles the entry (the renderer shows a
/// bare header) — it doesn't leave a dangling running line.
#[test]
fn empty_report_settles_running_entry() {
    let mut history = vec![running("Build", "explore")];
    settle_subagent_in(&mut history, "explore", String::new(), 3_500);
    assert_eq!(outcome(&history[0]), Some(("", false)));
}

/// Each report settles the most-recent still-running entry for the
/// child (the just-spawned one), leaving already-settled entries
/// untouched. With two running entries, the first report settles the
/// newer (last) one, the second report settles the older.
#[test]
fn settles_most_recent_running_for_child() {
    let mut history = vec![running("Build", "explore"), running("Build", "explore")];
    settle_subagent_in(&mut history, "explore", "first".to_string(), 3_500);
    settle_subagent_in(&mut history, "explore", "second".to_string(), 3_500);
    assert_eq!(outcome(&history[1]), Some(("first", false)));
    assert_eq!(outcome(&history[0]), Some(("second", false)));
}

/// A report with no matching running entry pushes a settled entry
/// (defensive) so the report is never lost.
#[test]
fn orphan_report_pushes_settled_entry() {
    let mut history: Vec<HistoryEntry> = Vec::new();
    settle_subagent_in(&mut history, "explore", "orphan".to_string(), 3_500);
    assert_eq!(history.len(), 1);
    assert_eq!(outcome(&history[0]), Some(("orphan", false)));
}

fn user(text: &str) -> HistoryEntry {
    HistoryEntry::User {
        text: text.into(),
        timestamp: NOON,
    }
}

fn answer(text: &str, reasoning: &str) -> HistoryEntry {
    HistoryEntry::Agent {
        name: "Build".into(),
        text: text.into(),
        reasoning: reasoning.into(),
        timestamp: NOON,
        expanded: false,
        think_duration: None,
    }
}

fn tool_box() -> HistoryEntry {
    HistoryEntry::ToolBox {
        calls: vec![ToolCall {
            call_id: "c1".into(),
            tool: "bash".into(),
            summary: "ls".into(),
            full_input: "ls".into(),
            output: "file.txt".into(),
            state: ToolCallState::Success,
        }],
        view_offset: 0,
        follow: true,
        expanded: false,
    }
}

/// One pair per turn: the user message + the agent's final response,
/// with tool calls and reasoning skipped entirely.
#[test]
fn pairs_user_with_agent_final_response_only() {
    let history = vec![
        user("add a flag"),
        tool_box(),
        answer("Done, added the flag.", "let me think about this"),
    ];
    let turns = turns_from_history(&history);
    assert_eq!(turns.len(), 1);
    assert_eq!(turns[0].user, "add a flag");
    // The agent FINAL TEXT carries; reasoning never does.
    assert_eq!(turns[0].agent, "Done, added the flag.");
    assert!(!turns[0].agent.contains("think"));
}

/// More than three turns: assembly keeps every turn (the last-3 window
/// is applied by `engine::predict::last_turns`), but each is faithful.
#[test]
fn assembles_every_turn_faithfully() {
    let history = vec![
        user("q1"),
        answer("a1", ""),
        user("q2"),
        tool_box(),
        answer("a2", ""),
        user("q3"),
        answer("a3", ""),
        user("q4"),
        answer("a4", ""),
    ];
    let turns = turns_from_history(&history);
    assert_eq!(turns.len(), 4);
    let last3 = last_turns(&turns);
    assert_eq!(last3.len(), 3);
    assert_eq!(last3[0].user, "q2");
    assert_eq!(last3[2].user, "q4");
    assert_eq!(last3[2].agent, "a4");
}

/// A user message arriving before the agent reply (queued + folded)
/// folds into the open turn rather than opening a phantom turn.
#[test]
fn consecutive_user_messages_fold_into_open_turn() {
    let history = vec![user("first part"), user("second part"), answer("ok", "")];
    let turns = turns_from_history(&history);
    assert_eq!(turns.len(), 1);
    assert!(turns[0].user.contains("first part"));
    assert!(turns[0].user.contains("second part"));
    assert_eq!(turns[0].agent, "ok");
}

/// A trailing user message with no agent reply yet stays an open turn
/// with an empty agent response — never paired with the wrong reply.
#[test]
fn trailing_open_turn_has_empty_agent() {
    let history = vec![user("q1"), answer("a1", ""), user("q2")];
    let turns = turns_from_history(&history);
    assert_eq!(turns.len(), 2);
    assert_eq!(turns[1].user, "q2");
    assert!(turns[1].agent.is_empty());
}

/// A fresh session (no agent response yet) yields a window that
/// `engine::predict` treats as "nothing to predict".
#[test]
fn fresh_session_has_no_agent_response() {
    let history = vec![user("first message")];
    let turns = turns_from_history(&history);
    let window = last_turns(&turns);
    assert!(window.iter().all(|t| t.agent.trim().is_empty()));
}

/// Eager generate: a turn ends, a result for that turn lands, and the
/// empty box shows the ghost. Then typing hides it; clearing back to
/// empty restores it from the cache — WITHOUT a new result/utility call.
#[test]
fn show_hide_on_type_then_restore_from_cache_without_recall() {
    let mut st = PredictionState::default();
    st.begin_turn(); // turn 1
    let turn = st.turn();
    // Result for the current turn, box empty → ghost shows.
    st.on_result(turn, Some("run the tests".into()), false, true);
    assert_eq!(
        st.ghost().map(|g| g.display_text().to_string()),
        Some("run the tests".to_string())
    );
    // User types → box non-empty → ghost hidden (cache retained).
    st.reconcile(false);
    assert!(st.ghost().is_none());
    // User clears back to empty → ghost restored from CACHE. No new
    // `on_result` call was made (no new utility call this turn).
    st.reconcile(true);
    assert_eq!(
        st.ghost().map(|g| g.display_text().to_string()),
        Some("run the tests".to_string())
    );
}

/// Stale replacement: a result tagged with an older turn (a newer turn
/// already began) is discarded — never shown.
#[test]
fn stale_turn_result_is_discarded() {
    let mut st = PredictionState::default();
    st.begin_turn(); // turn 1
    let stale_turn = st.turn();
    st.begin_turn(); // turn 2 — the stale result now belongs to turn 1
    st.on_result(stale_turn, Some("old prediction".into()), false, true);
    assert!(
        st.ghost().is_none(),
        "a prior turn's prediction must not show"
    );
    // A result for the CURRENT turn does land.
    st.on_result(st.turn(), Some("fresh prediction".into()), false, true);
    assert_eq!(
        st.ghost().map(|g| g.display_text().to_string()),
        Some("fresh prediction".to_string())
    );
}

/// Appear-once-ready: a result that arrives while the user is already
/// typing (box non-empty) does NOT pop in over active input, but the
/// cache is kept so a later clear-to-empty restores it.
#[test]
fn result_arriving_during_typing_does_not_pop_in_but_caches() {
    let mut st = PredictionState::default();
    st.begin_turn();
    let turn = st.turn();
    // Box non-empty when the async result lands → no ghost now.
    st.on_result(turn, Some("later".into()), false, false);
    assert!(st.ghost().is_none());
    // Clearing to empty restores it from the cache (no new call).
    st.reconcile(true);
    assert_eq!(
        st.ghost().map(|g| g.display_text().to_string()),
        Some("later".to_string())
    );
}

/// A new turn invalidates the previous turn's cache + ghost so a prior
/// prediction never lingers into the next turn.
#[test]
fn begin_turn_drops_previous_prediction() {
    let mut st = PredictionState::default();
    st.begin_turn();
    st.on_result(st.turn(), Some("first".into()), false, true);
    assert!(st.ghost().is_some());
    st.begin_turn();
    assert!(st.ghost().is_none(), "new turn drops the old ghost");
    // The old cache is gone too: an empty-box reconcile restores
    // nothing until a fresh result lands.
    st.reconcile(true);
    assert!(st.ghost().is_none());
}

/// Consume (Tab → real text) drops both ghost and cache so a later
/// clear-to-empty does not re-offer the accepted prediction.
#[test]
fn consume_clears_cache_so_clear_to_empty_does_not_restore() {
    let mut st = PredictionState::default();
    st.begin_turn();
    st.on_result(st.turn(), Some("accepted text".into()), false, true);
    st.consume();
    assert!(st.ghost().is_none());
    st.reconcile(true);
    assert!(
        st.ghost().is_none(),
        "an accepted prediction must not reappear as a ghost"
    );
}

/// A `None` result (degrade path — model unset/timeout/empty) leaves no
/// ghost and no cache.
#[test]
fn none_result_leaves_no_ghost() {
    let mut st = PredictionState::default();
    st.begin_turn();
    st.on_result(st.turn(), None, false, true);
    assert!(st.ghost().is_none());
    st.reconcile(true);
    assert!(st.ghost().is_none());
}

fn agent(text: &str) -> HistoryEntry {
    HistoryEntry::Agent {
        name: "coder".to_string(),
        text: text.to_string(),
        reasoning: String::new(),
        timestamp: NOON,
        expanded: false,
        think_duration: None,
    }
}

#[test]
fn bare_and_markdown_default_to_markdown() {
    assert_eq!(parse_copy_format(""), Some(CopyFormat::Markdown));
    assert_eq!(parse_copy_format("markdown"), Some(CopyFormat::Markdown));
    // Whitespace-only / mixed case still resolve.
    assert_eq!(parse_copy_format("  "), Some(CopyFormat::Markdown));
    assert_eq!(parse_copy_format("MarkDown"), Some(CopyFormat::Markdown));
}

#[test]
fn plain_and_rich_aliases_parse() {
    assert_eq!(parse_copy_format("plain"), Some(CopyFormat::Plain));
    assert_eq!(parse_copy_format("plaintext"), Some(CopyFormat::Plain));
    assert_eq!(parse_copy_format("rich"), Some(CopyFormat::Rich));
    assert_eq!(parse_copy_format("richtext"), Some(CopyFormat::Rich));
}

#[test]
fn unknown_format_is_none() {
    assert_eq!(parse_copy_format("html"), None);
    assert_eq!(parse_copy_format("md"), None);
}

#[test]
fn last_agent_text_skips_non_agent_and_empty() {
    // No agent messages → None (the no-response path).
    assert_eq!(last_agent_text(&vec![]), None);
    assert_eq!(
        last_agent_text(&vec![HistoryEntry::Plain {
            line: "tool chrome".to_string(),
        }]),
        None
    );

    // Tool chrome after the agent message must not shadow it, and a
    // trailing empty agent turn is ignored.
    let history = vec![
        agent("first response"),
        HistoryEntry::Plain {
            line: "a tool ran".to_string(),
        },
        agent("**last** response"),
        agent("   "),
    ];
    assert_eq!(
        last_agent_text(&history).as_deref(),
        Some("**last** response")
    );
}

#[test]
fn caffeinate_arguments_name_their_modes() {
    assert_eq!(parse_caffeinate_arg(""), Ok(CaffeinateMode::Toggle));
    assert_eq!(parse_caffeinate_arg(" On "), Ok(CaffeinateMode::On));
    assert_eq!(parse_caffeinate_arg("off"), Ok(CaffeinateMode::Off));
    assert_eq!(parse_caffeinate_arg("until-idle"), Ok(CaffeinateMode::UntilIdle));
    assert_eq!(parse_caffeinate_arg("now"), Err("now".to_string()));
}

#[test]
fn llm_usage_names_the_argument() {
    assert_eq!(
        parse_llm_mode_arg("yolo"),
        Err("Usage: `/llm-mode [toggle|defend|normal]` (got `yolo`)".to_string())
    );
}

#[test]
fn output_of_commands_is_merged_and_capped() {
    assert_eq!(merge_output("out\n", ""), "out\n");
    assert!(merge_output("out", "err").contains("err"));
    let long: String = (0..1000).map(|i| format!("row {i}\n")).collect();
    let shown = cap_display_lines(&long);
    assert!(shown.starts_with("row 0\n"));
    assert!(shown.contains("more lines"));
    assert!(!shown.contains("row 999"));
    assert_eq!(cap_display_lines("a\nb\n\n"), "a\nb");
}

#[test]
fn git_output_is_wrapped_for_the_agent() {
    assert_eq!(
        git_block("log --format=\"%h\"", "abc"),
        "<git cmd=\"log --format=&quot;%h&quot;\">\nabc\n</git>"
    );
}

#[test]
fn settled_delegation_keeps_its_duration() {
    let mut history = vec![running("Build", "explore")];
    settle_subagent_in(&mut history, "explore", "done".to_string(), 3_500);
    match &history[0] {
        HistoryEntry::Subagent { outcome: Some(o), .. } => assert_eq!(o.duration, 2_500),
        _ => panic!("expected a settled delegation"),
    }
}
