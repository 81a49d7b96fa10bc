use cockpit_tui::app::control::{
    decide_ctrl_c, message_for_draw, pick_working_msg, should_attempt_display_attach,
    working_message_text, working_messages, CtrlCAction, CTRL_C_EXIT_WINDOW,
    WORKING_MESSAGE_COUNT,
};
use cockpit_tui::app::jobs::{format_job_line, session_job_ids, ActiveJob, JobTable};
use std::cell::Cell;

/// The happy path: no runner, prompt closed, not daemonless, believed
/// connected, and the daemon answers → attach.
#[test]
fn attaches_when_daemon_reachable() {
    assert!(should_attempt_display_attach(
        false,
        false,
        false,
        true,
        || true
    ));
}

/// A runner already exists → no attach, and the probe is never run
/// (cheap struct gates short-circuit before the costly probe).
#[test]
fn skips_when_runner_exists_without_probing() {
    let probed = Cell::new(false);
    let attach = should_attempt_display_attach(true, false, false, true, || {
        probed.set(true);
        true
    });
    assert!(!attach);
    assert!(!probed.get(), "must not probe once a runner exists");
}

/// The "daemon not running" prompt is still open → don't spawn a daemon
/// out from under the user's choice; probe is skipped.
#[test]
fn skips_while_prompt_open() {
    let probed = Cell::new(false);
    let attach = should_attempt_display_attach(false, true, false, true, || {
        probed.set(true);
        true
    });
    assert!(!attach);
    assert!(!probed.get());
}

/// Daemonless ("continue without daemon") → never eager-spawn the owned
/// ephemeral daemon purely to display an id (deliberate non-goal). Probe
/// is skipped even though `daemon_connected` is true in this mode.
#[test]
fn skips_in_daemonless_mode() {
    let probed = Cell::new(false);
    let attach = should_attempt_display_attach(false, false, true, true, || {
        probed.set(true);
        true
    });
    assert!(!attach);
    assert!(
        !probed.get(),
        "daemonless must not probe/attach for display"
    );
}

/// `daemon_connected` is false → no attach, no probe.
#[test]
fn skips_when_not_connected() {
    let probed = Cell::new(false);
    let attach = should_attempt_display_attach(false, false, false, false, || {
        probed.set(true);
        true
    });
    assert!(!attach);
    assert!(!probed.get());
}

/// All cheap gates pass but the just-started daemon's socket isn't bound
/// yet (probe returns false) → wait quietly; retry on a later tick. This
/// is the "Start and connect" startup gap that previously double-spawned.
#[test]
fn waits_when_socket_not_yet_bound() {
    assert!(!should_attempt_display_attach(
        false,
        false,
        false,
        true,
        || false
    ));
}

fn job(session_id: u128, kind: &str, iteration: u64) -> ActiveJob {
    ActiveJob {
        session_id,
        label: format!("{kind} job"),
        kind: kind.to_string(),
        iteration,
        last_activity: 0,
    }
}

fn fixture() -> (u128, u128, JobTable) {
    let a = 1u128;
    let b = 2u128;
    let mut jobs = JobTable::new();
    jobs.insert("job-a1".to_string(), job(a, "loop", 3));
    jobs.insert("job-a2".to_string(), job(a, "background", 0));
    jobs.insert("job-b1".to_string(), job(b, "timer", 1));
    (a, b, jobs)
}

#[test]
fn filters_to_only_the_current_session() {
    // `/ps` scope: session `a` sees its two jobs, in stable job-id
    // order, and never session `b`'s.
    let (a, b, jobs) = fixture();
    assert_eq!(session_job_ids(&jobs, a), vec!["job-a1", "job-a2"]);
    assert_eq!(session_job_ids(&jobs, b), vec!["job-b1"]);
}

#[test]
fn empty_when_session_has_no_jobs() {
    // `/ps` empty-state basis: a session with no jobs yields nothing.
    let (_, _, jobs) = fixture();
    let other = 99u128;
    assert!(session_job_ids(&jobs, other).is_empty());
}

#[test]
fn cross_session_id_is_not_in_current_set() {
    // `/stop <id>` refusal basis: an id owned by another session is
    // not a member of the current session's id set.
    let (a, _, jobs) = fixture();
    let current = session_job_ids(&jobs, a);
    assert!(!current.iter().any(|id| id == "job-b1"));
    assert!(current.iter().any(|id| id == "job-a1"));
}

#[test]
fn bare_stop_count_matches_current_session_jobs() {
    // Bare `/stop` confirm count `N` = number of current-session jobs.
    let (a, b, jobs) = fixture();
    assert_eq!(session_job_ids(&jobs, a).len(), 2);
    assert_eq!(session_job_ids(&jobs, b).len(), 1);
}

#[test]
fn job_line_shows_iteration_for_loops_but_not_background() {
    let a = 1u128;
    assert_eq!(
        format_job_line("job-a1", &job(a, "loop", 3)),
        "job-a1 [loop] 3 iter  loop job"
    );
    assert_eq!(
        format_job_line("job-a2", &job(a, "background", 0)),
        "job-a2 [background]  background job"
    );
}

#[test]
fn picks_in_range_and_avoids_previous() {
    // Re-roll many times from each previous index; the result must
    // always be valid and never equal to the previous pick.
    for prev in 0..working_messages().len() {
        for _ in 0..200 {
            let next = pick_working_msg(prev);
            assert!(next < working_messages().len());
            assert_ne!(next, prev);
        }
    }
}

#[test]
fn out_of_range_sentinel_allows_any_index() {
    // The one-past-end init lets the first roll land anywhere; just
    // assert it always returns an in-range index.
    for _ in 0..200 {
        let idx = pick_working_msg(working_messages().len());
        assert!(idx < working_messages().len());
    }
}

/// Idle + single (first) press: arm the window + show hint only,
/// nothing to interrupt. The window is armed at `now`.
#[test]
fn idle_first_press_arms_only() {
    let now = 10_000u64;
    let (action, armed) = decide_ctrl_c(now, None, CTRL_C_EXIT_WINDOW, false);
    assert_eq!(action, CtrlCAction::ArmOnly);
    assert_eq!(armed, Some(now));
}

/// Busy + single (first) press: arm the window AND interrupt the agent.
#[test]
fn busy_first_press_arms_and_interrupts() {
    let now = 10_000u64;
    let (action, armed) = decide_ctrl_c(now, None, CTRL_C_EXIT_WINDOW, true);
    assert_eq!(action, CtrlCAction::ArmAndInterrupt);
    assert_eq!(armed, Some(now));
}

/// Second press inside the window exits — regardless of agent state.
/// During a run, the first press already interrupted; this second one
/// is the "interrupt AND exit" case.
#[test]
fn second_press_within_window_exits_when_busy() {
    let first = 10_000u64;
    let second = first + 200; // < 500ms
    let (action, armed) = decide_ctrl_c(second, Some(first), CTRL_C_EXIT_WINDOW, true);
    assert_eq!(action, CtrlCAction::Exit);
    assert_eq!(armed, None);
}

/// Second press inside the window exits even when idle (idle + two fast
/// presses = exit).
#[test]
fn second_press_within_window_exits_when_idle() {
    let first = 10_000u64;
    let second = first + 499;
    let (action, _armed) = decide_ctrl_c(second, Some(first), CTRL_C_EXIT_WINDOW, false);
    assert_eq!(action, CtrlCAction::Exit);
}

/// Exactly at the window boundary still counts as a second press
/// (`<=` window).
#[test]
fn second_press_at_window_boundary_exits() {
    let first = 10_000u64;
    let second = first + CTRL_C_EXIT_WINDOW;
    let (action, _armed) = decide_ctrl_c(second, Some(first), CTRL_C_EXIT_WINDOW, false);
    assert_eq!(action, CtrlCAction::Exit);
}

/// Two presses spaced further apart than the window NEVER exit: the
/// second is treated as a fresh first press (re-armed at `now`).
#[test]
fn presses_outside_window_never_exit() {
    let first = 10_000u64;
    let second = first + 501; // > 500ms
    let (action, armed) = decide_ctrl_c(second, Some(first), CTRL_C_EXIT_WINDOW, false);
    assert_eq!(action, CtrlCAction::ArmOnly);
    assert_eq!(
        armed,
        Some(second),
        "a lapsed window re-arms at the new press"
    );

    // A steady stream of slow presses interrupts repeatedly, never
    // exits: each press is > window after the previous.
    let third = second + 600;
    let (action, armed) = decide_ctrl_c(third, Some(second), CTRL_C_EXIT_WINDOW, true);
    assert_eq!(action, CtrlCAction::ArmAndInterrupt);
    assert_eq!(armed, Some(third));
}

/// The window slides from the *last* press: a press just inside the
/// window of the immediately-previous press exits, even if the very
/// first press was long ago.
#[test]
fn window_slides_from_last_press() {
    let t0 = 10_000u64;
    // First press, armed at t0.
    let (_a, armed) = decide_ctrl_c(t0, None, CTRL_C_EXIT_WINDOW, false);
    // A press > window later: fresh first press, re-arm.
    let t1 = t0 + 800;
    let (a, armed) = decide_ctrl_c(t1, armed, CTRL_C_EXIT_WINDOW, false);
    assert_eq!(a, CtrlCAction::ArmOnly);
    // A press < window after t1: exits (slides from t1, not t0).
    let t2 = t1 + 100;
    let (a, _armed) = decide_ctrl_c(t2, armed, CTRL_C_EXIT_WINDOW, false);
    assert_eq!(a, CtrlCAction::Exit);
}

#[test]
fn every_other_message_is_drawn() {
    let mut seen: Vec<usize> = (0..WORKING_MESSAGE_COUNT - 1)
        .map(|draw| message_for_draw(5, draw))
        .collect();
    seen.sort();
    let all: Vec<usize> = (0..WORKING_MESSAGE_COUNT).filter(|i| *i != 5).collect();
    assert_eq!(seen, all);
}

#[test]
fn unknown_message_reads_working() {
    assert_eq!(working_message_text(0), "Working");
    assert_eq!(working_message_text(39), "Plan a party");
    assert_eq!(working_message_text(40), "Working");
}

#[test]
fn jobs_are_kept_in_order_and_replaced() {
    let (a, _, mut jobs) = fixture();
    jobs.insert("job-a0".to_string(), job(a, "loop", 0));
    assert_eq!(session_job_ids(&jobs, a), vec!["job-a0", "job-a1", "job-a2"]);
    jobs.insert("job-a1".to_string(), job(a, "timer", 9));
    assert_eq!(jobs.len(), 4);
    jobs.touch("job-a1", 77, true);
    assert_eq!(
        format_job_line("job-a1", jobs.job_at(jobs.position("job-a1"))),
        "job-a1 [timer] 10 iter  timer job"
    );
    jobs.remove("job-a0");
    assert!(!jobs.has("job-a0"));
    assert_eq!(session_job_ids(&jobs, a), vec!["job-a1", "job-a2"]);
}
