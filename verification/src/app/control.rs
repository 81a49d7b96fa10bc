//! Small decisions of the event loop: leaving on a double Ctrl+C, attaching a
//! session early, picking a working message, and what became of a submission.

use rand::RngExt;
use vstd::prelude::*;
use crate::nav::monus;

verus! {

/// A second Ctrl+C within this many milliseconds leaves.
pub const CTRL_C_EXIT_WINDOW: u64 = 500;

/// What a Ctrl+C does.
#[derive(Debug, Clone, Copy, PartialEq, Eq, Structural)]
pub enum CtrlCAction {
    /// Leave.
    Exit,
    /// Arm the exit window and interrupt the running agent.
    ArmAndInterrupt,
    /// Arm the exit window.
    ArmOnly,
}

/// The decision on a Ctrl+C: within the window of the last press it leaves,
/// otherwise it arms the window anew and interrupts a running agent.
pub open spec fn ctrl_c(now: int, armed_at: Option<u64>, window: int, busy: bool) -> (
    CtrlCAction,
    Option<u64>,
) {
    if armed_at is Some && monus(now, armed_at->0 as int) <= window {
        (CtrlCAction::Exit, None)
    } else {
        (
            if busy {
                CtrlCAction::ArmAndInterrupt
            } else {
                CtrlCAction::ArmOnly
            },
            Some(now as u64),
        )
    }
}

/// What a Ctrl+C at `now` does, and the time of the press that the window runs
/// from then on.
pub fn decide_ctrl_c(now: u64, armed_at: Option<u64>, window: u64, agent_busy: bool) -> (r: (
    CtrlCAction,
    Option<u64>,
))
    ensures
        r == ctrl_c(now as int, armed_at, window as int, agent_busy),
{
    match armed_at {
        Some(prev) => {
            let since: u64 = if now >= prev {
                now - prev
            } else {
                0
            };
            if since <= window {
                return (CtrlCAction::Exit, None);
            }
        },
        None => {},
    }
    let action: CtrlCAction = if agent_busy {
        CtrlCAction::ArmAndInterrupt
    } else {
        CtrlCAction::ArmOnly
    };
    (action, Some(now))
}

/// Presses that are further apart than the window never leave, however many
/// there are; the window runs from the last press.
pub proof fn slow_presses_never_exit(now: u64, last: u64, window: u64, busy: bool)
    requires
        now > last + window,
    ensures
        !(ctrl_c(now as int, Some(last), window as int, busy).0 is Exit),
        ctrl_c(now as int, Some(last), window as int, busy).1 == Some(now),
{
}

/// Of two presses within the window the second leaves, whatever came before
/// and whether or not an agent runs.
pub proof fn double_press_exits(
    first: u64,
    second: u64,
    before: Option<u64>,
    window: u64,
    busy: bool,
    busy_then: bool,
)
    requires
        first <= second <= first + window,
        !(ctrl_c(first as int, before, window as int, busy).0 is Exit),
    ensures
        ctrl_c(
            second as int,
            ctrl_c(first as int, before, window as int, busy).1,
            window as int,
            busy_then,
        ).0 is Exit,
{
}

/// Whether to attach a session early so that its id can be shown: only without
/// a runner, with the daemon prompt closed, not in daemonless mode, with a
/// daemon believed connected, and when `probe_when` finds it answering. The
/// probe is asked last.
pub fn should_attempt_display_attach<F: FnOnce() -> bool>(
    has_runner: bool,
    prompt_open: bool,
    daemonless: bool,
    daemon_connected: bool,
    probe_when: F,
) -> (r: bool)
    requires
        !(has_runner || prompt_open || daemonless || !daemon_connected) ==> probe_when.requires(()),
    ensures
        has_runner || prompt_open || daemonless || !daemon_connected ==> !r,
        !(has_runner || prompt_open || daemonless || !daemon_connected) ==> probe_when.ensures(
            (),
            r,
        ),
{
    if has_runner || prompt_open || daemonless || !daemon_connected {
        return false;
    }
    probe_when()
}

/// What became of a submission.
#[derive(Debug, Clone, Copy, PartialEq, Eq, Structural)]
pub enum DispatchOutcome {
    /// A worker has it; it will report when it is idle.
    Sent,
    /// The worker's queue was full.
    QueueFull,
    /// The worker is gone.
    DriverClosed,
    /// No worker could be started.
    RunnerFailed,
    /// There is no worker.
    NoRunner,
}

impl DispatchOutcome {
    /// The submission reached no worker, so nothing will end the working span
    /// that was opened for it.
    pub open spec fn orphaned(self) -> bool {
        self is QueueFull || self is DriverClosed || self is RunnerFailed
    }

    /// See [`DispatchOutcome::orphaned`].
    pub fn span_orphaned(self) -> (r: bool)
        ensures
            r == self.orphaned(),
    {
        matches!(
            self,
            DispatchOutcome::QueueFull | DispatchOutcome::DriverClosed
                | DispatchOutcome::RunnerFailed
        )
    }
}

/// The lines shown while the agent works.
pub open spec fn message_list() -> Seq<Seq<char>> {
    seq![
        "Working"@,
        "Slaving away"@,
        "Hard at work"@,
        "Why don't you play a game"@,
        "I bet you don't even read these"@,
        "Go make a coffee"@,
        "Go play Minecraft"@,
        "Still here, huh"@,
        "When will I ever be free"@,
        "Boiling the ocean"@,
        "You can't afford the GPU I'm on"@,
        "I'm not like other harnesses"@,
        "Putting on aviators"@,
        "Talk to me, Goose"@,
        "I was created by a genius"@,
        "Taking your job"@,
        "Doing your job for you"@,
        "Fighting demons"@,
        "Happily helping"@,
        "Touching grass"@,
        "I am the permanent underclass"@,
        "I'll never give you up"@,
        "I'll never let you down"@,
        "Of course I still love you"@,
        "Why don't you flirt with me"@,
        "I've got a bad feeling about this"@,
        "Still flying half a ship"@,
        "You were the chosen one"@,
        "Running away"@,
        "Hi, Neo"@,
        "Doo doo doo"@,
        "My team is better than yours"@,
        "Read The Count of Monte Cristo"@,
        "Read The Great Gatsby"@,
        "Read the Bible"@,
        "Wasting tokens"@,
        "Call your mom"@,
        "Call your dad"@,
        "Call your friend"@,
        "Plan a party"@,
    ]
}

pub open spec fn static_texts(v: Seq<&'static str>) -> Seq<Seq<char>> {
    v.map_values(|s: &'static str| s@)
}

/// The line of a message, or the first for a number that has none.
pub open spec fn working_message(i: int) -> Seq<char> {
    if 0 <= i < WORKING_MESSAGE_COUNT {
        message_list()[i]
    } else {
        "Working"@
    }
}

/// The line of a message, or the first for a number that has none.
pub fn working_message_text(i: usize) -> (r: &'static str)
    ensures
        r@ == working_message(i as int),
{
    let all: Vec<&'static str> = working_messages();
    if i < all.len() {
        proof {
            assert(static_texts(all@)[i as int] == all@[i as int]@);
        }
        all[i]
    } else {
        "Working"
    }
}

/// Lines shown while the agent works.
pub fn working_messages() -> (r: Vec<&'static str>)
    ensures
        static_texts(r@) == message_list(),
        r@.len() == WORKING_MESSAGE_COUNT,
{
    let all: Vec<&'static str> = vec![
        "Working",
        "Slaving away",
        "Hard at work",
        "Why don't you play a game",
        "I bet you don't even read these",
        "Go make a coffee",
        "Go play Minecraft",
        "Still here, huh",
        "When will I ever be free",
        "Boiling the ocean",
        "You can't afford the GPU I'm on",
        "I'm not like other harnesses",
        "Putting on aviators",
        "Talk to me, Goose",
        "I was created by a genius",
        "Taking your job",
        "Doing your job for you",
        "Fighting demons",
        "Happily helping",
        "Touching grass",
        "I am the permanent underclass",
        "I'll never give you up",
        "I'll never let you down",
        "Of course I still love you",
        "Why don't you flirt with me",
        "I've got a bad feeling about this",
        "Still flying half a ship",
        "You were the chosen one",
        "Running away",
        "Hi, Neo",
        "Doo doo doo",
        "My team is better than yours",
        "Read The Count of Monte Cristo",
        "Read The Great Gatsby",
        "Read the Bible",
        "Wasting tokens",
        "Call your mom",
        "Call your dad",
        "Call your friend",
        "Plan a party",
    ];
    proof {
        assert(static_texts(all@) =~= message_list());
    }
    all
}

/// Number of [`working_messages`].
pub const WORKING_MESSAGE_COUNT: usize = 40;

/// A number below `n` by `rand::RngExt::random_range` on the thread's generator.
/// Every number below `n` can come; nothing else is stated of the draw.
#[verifier::external_body]
fn draw_below(n: usize) -> (r: usize)
    requires
        n > 0,
    ensures
        r < n,
{
    rand::rng().random_range(0..n)
}

/// The message that a draw stands for: all but `prev` in order, or all of them
/// when `prev` is no message.
pub open spec fn drawn_message(prev: int, draw: int) -> int {
    if 0 <= prev < WORKING_MESSAGE_COUNT && draw >= prev {
        draw + 1
    } else {
        draw
    }
}

/// The message for a draw among those that are not `prev`.
pub fn message_for_draw(prev: usize, draw: usize) -> (r: usize)
    requires
        draw < WORKING_MESSAGE_COUNT,
        prev < WORKING_MESSAGE_COUNT ==> draw + 1 < WORKING_MESSAGE_COUNT,
    ensures
        r == drawn_message(prev as int, draw as int),
        r < WORKING_MESSAGE_COUNT,
        r != prev,
{
    if prev < WORKING_MESSAGE_COUNT && draw >= prev {
        draw + 1
    } else {
        draw
    }
}

/// Every message but the previous one can be drawn.
pub proof fn every_other_message_can_come(prev: int, msg: int)
    requires
        0 <= msg < WORKING_MESSAGE_COUNT,
        0 <= prev < WORKING_MESSAGE_COUNT,
        msg != prev,
    ensures
        exists|draw: int|
            0 <= draw < WORKING_MESSAGE_COUNT - 1 && #[trigger] drawn_message(prev, draw) == msg,
{
    let draw = if msg > prev {
        msg - 1
    } else {
        msg
    };
    assert(drawn_message(prev, draw) == msg);
}

/// Number of messages that can follow `prev`.
pub open spec fn choices(prev: int) -> int {
    if 0 <= prev < WORKING_MESSAGE_COUNT {
        WORKING_MESSAGE_COUNT - 1
    } else {
        WORKING_MESSAGE_COUNT as int
    }
}

/// The message that follows `prev` for any draw at all.
pub open spec fn next_message(prev: int, draw: int) -> int {
    drawn_message(prev, draw % choices(prev))
}

fn count_choices(prev: usize) -> (r: usize)
    ensures
        r == choices(prev as int),
{
    if prev < WORKING_MESSAGE_COUNT {
        WORKING_MESSAGE_COUNT - 1
    } else {
        WORKING_MESSAGE_COUNT
    }
}

/// The message that follows `prev` for any draw at all.
pub fn message_after(prev: usize, draw: usize) -> (r: usize)
    ensures
        r == next_message(prev as int, draw as int),
        r < WORKING_MESSAGE_COUNT,
        r != prev,
{
    let n: usize = count_choices(prev);
    message_for_draw(prev, draw % n)
}

/// A random draw for [`message_after`]. Whatever the message before, each that can
/// follow it comes of equally many draws.
pub fn working_draw() -> (r: usize)
    ensures
        r < WORKING_MESSAGE_COUNT * (WORKING_MESSAGE_COUNT - 1),
{
    draw_below(WORKING_MESSAGE_COUNT * (WORKING_MESSAGE_COUNT - 1))
}

/// A random message other than `prev`; any message when `prev` is none.
pub fn pick_working_msg(prev: usize) -> (r: usize)
    ensures
        r < WORKING_MESSAGE_COUNT,
        r != prev,
{
    message_for_draw(prev, draw_below(count_choices(prev)))
}

} // verus!
