//! What the reports of the engine and of the daemon tell, and what the job table holds.

use vstd::prelude::*;
use crate::app::events::{EventContext, TurnEvent};
use crate::app::history::EntryView;
use crate::app::jobs::{JobSeq, JobView, in_order, job_line, lemma_precedes_irreflexive, lemma_precedes_transitive, position_of_job, session_ids_are_its_own, with_job, without_job};
use crate::app::request::{CancelCommand, RequestView};
use crate::app::state::{AppView, RunnerView, ToastKind, ToastView};
use crate::launch::PlanStatusCounts;
use crate::text::{decimal, precedes, texts, trim};

verus! {

/// The table has this job under this id.
pub open spec fn runs_job(s: JobSeq, id: Seq<char>, j: JobView) -> bool {
    exists|i: int| 0 <= i < s.len() && #[trigger] s[i] == (id, j)
}

proof fn lemma_apart(s: JobSeq, i: int, k: int)
    requires
        in_order(s),
        0 <= i < s.len(),
        0 <= k < s.len(),
        s[i].0 == s[k].0,
    ensures
        i == k,
{
    lemma_precedes_irreflexive(s[i].0);
    if i < k {
        assert(precedes(s[i].0, s[k].0));
    }
    if k < i {
        assert(precedes(s[k].0, s[i].0));
    }
}

proof fn lemma_set(s: JobSeq, id: Seq<char>, job: JobView, x: Seq<char>, j: JobView)
    requires
        in_order(s),
    ensures
        runs_job(with_job(s, id, job), x, j) == (if x == id {
            j == job
        } else {
            runs_job(s, x, j)
        }),
    decreases s.len(),
{
    let all = with_job(s, id, job);
    if s.len() == 0 || precedes(s.last().0, id) {
        assert(all == s.push((id, job)));
        lemma_precedes_irreflexive(id);
        if x == id {
            assert(all[s.len() as int] == (id, job));
            if runs_job(all, x, j) {
                let i = choose|i: int| 0 <= i < all.len() && #[trigger] all[i] == (x, j);
                if i < s.len() {
                    assert(s[i].0 == id);
                    if i < s.len() - 1 {
                        assert(precedes(s[i].0, s[s.len() - 1].0));
                        lemma_precedes_transitive(s[i].0, s[s.len() - 1].0, id);
                    }
                }
            }
        } else {
            if runs_job(all, x, j) {
                let i = choose|i: int| 0 <= i < all.len() && #[trigger] all[i] == (x, j);
                assert(s[i] == (x, j));
            }
            if runs_job(s, x, j) {
                let i = choose|i: int| 0 <= i < s.len() && #[trigger] s[i] == (x, j);
                assert(all[i] == (x, j));
            }
        }
    } else if s.last().0 == id {
        let n = s.len() - 1;
        assert(all[n] == (id, job));
        if runs_job(all, x, j) {
            let i = choose|i: int| 0 <= i < all.len() && #[trigger] all[i] == (x, j);
            if i < n {
                assert(s[i] == (x, j));
                if x == id {
                    lemma_apart(s, i, n);
                }
            }
        }
        if x != id && runs_job(s, x, j) {
            let i = choose|i: int| 0 <= i < s.len() && #[trigger] s[i] == (x, j);
            assert(all[i] == (x, j));
        }
    } else {
        let rest = s.drop_last();
        let sub = with_job(rest, id, job);
        assert forall|a: int, b: int| 0 <= a < b < rest.len() implies precedes(
            (#[trigger] rest[a]).0,
            (#[trigger] rest[b]).0,
        ) by {
            assert(precedes(s[a].0, s[b].0));
        }
        lemma_set(rest, id, job, x, j);
        let l = s[s.len() - 1];
        assert(all == sub.push(l));
        assert(runs_job(all, x, j) == (runs_job(sub, x, j) || l == (x, j))) by {
            if runs_job(all, x, j) {
                let i = choose|i: int| 0 <= i < all.len() && #[trigger] all[i] == (x, j);
                if i < sub.len() {
                    assert(sub[i] == (x, j));
                }
            }
            if runs_job(sub, x, j) {
                let i = choose|i: int| 0 <= i < sub.len() && #[trigger] sub[i] == (x, j);
                assert(all[i] == (x, j));
            }
            if l == (x, j) {
                assert(all[sub.len() as int] == (x, j));
            }
        }
        assert(runs_job(s, x, j) == (runs_job(rest, x, j) || l == (x, j))) by {
            if runs_job(s, x, j) {
                let i = choose|i: int| 0 <= i < s.len() && #[trigger] s[i] == (x, j);
                if i < rest.len() {
                    assert(rest[i] == (x, j));
                }
            }
            if runs_job(rest, x, j) {
                let i = choose|i: int| 0 <= i < rest.len() && #[trigger] rest[i] == (x, j);
                assert(s[i] == (x, j));
            }
            if l == (x, j) {
                assert(s[s.len() - 1] == (x, j));
            }
        }
    }
}

proof fn lemma_at(s: JobSeq, id: Seq<char>, from: int)
    requires
        0 <= from <= s.len(),
    ensures
        from <= position_of_job(s, id, from) <= s.len(),
        position_of_job(s, id, from) < s.len() ==> s[position_of_job(s, id, from)].0 == id,
        forall|i: int| from <= i < position_of_job(s, id, from) ==> (#[trigger] s[i]).0 != id,
    decreases s.len() - from,
{
    if from < s.len() && s[from].0 != id {
        lemma_at(s, id, from + 1);
    }
}

/// A job that starts is listed with its session, kind and label and no iterations yet; the
/// other jobs stay. A job that ends is listed no more, and the others stay. Both are told.
pub proof fn jobs_come_and_go(
    v: AppView,
    event: TurnEvent,
    ctx: EventContext,
    estimate: u32,
    x: Seq<char>,
    j: JobView,
)
    requires
        in_order(v.jobs),
        v.pending is None,
    ensures
        ({
            let after = v.after_event(event, ctx, estimate);
            let fresh = JobView {
                session_id: event->JobStarted_session_id,
                label: event->JobStarted_label@,
                kind: event->JobStarted_kind@,
                iteration: 0,
                last_activity: ctx.now,
            };
            &&& event is JobStarted ==> runs_job(after.jobs, x, j) == (if x
                == event->JobStarted_job_id@ {
                j == fresh
            } else {
                runs_job(v.jobs, x, j)
            })
            &&& event is JobStarted ==> after.history == v.history.push(
                EntryView::Plain {
                    line: "[job "@ + event->JobStarted_job_id@ + "] started: "@
                        + event->JobStarted_label@,
                },
            )
            &&& event is JobCompleted ==> runs_job(after.jobs, x, j) == (x
                != event->JobCompleted_job_id@ && runs_job(v.jobs, x, j))
            &&& event is JobCompleted && event->failed ==> after.history == v.history.push(
                EntryView::Plain {
                    line: "[job "@ + event->JobCompleted_job_id@ + "] "@ + event->JobCompleted_kind@
                        + " failed: "@ + event->JobCompleted_label@,
                },
            )
            &&& event is JobCompleted && !event->failed ==> after.history == v.history.push(
                EntryView::Plain {
                    line: "[job "@ + event->JobCompleted_job_id@ + "] "@ + event->JobCompleted_kind@
                        + " ended: "@ + event->JobCompleted_label@,
                },
            )
        }),
{
    reveal(AppView::job_started);
    reveal(AppView::job_completed);
    if event is JobStarted {
        lemma_set(
            v.jobs,
            event->JobStarted_job_id@,
            JobView {
                session_id: event->JobStarted_session_id,
                label: event->JobStarted_label@,
                kind: event->JobStarted_kind@,
                iteration: 0,
                last_activity: ctx.now,
            },
            x,
            j,
        );
    }
    if event is JobCompleted {
        let id = event->JobCompleted_job_id@;
        let s = v.jobs;
        lemma_at(s, id, 0);
        let k = position_of_job(s, id, 0);
        let t = without_job(s, id);
        if runs_job(t, x, j) {
            let i = choose|i: int| 0 <= i < t.len() && #[trigger] t[i] == (x, j);
            let o = if k < s.len() && i >= k {
                i + 1
            } else {
                i
            };
            assert(s[o] == (x, j));
            if x == id {
                if k < s.len() {
                    lemma_apart(s, o, k);
                } else {
                    assert(s[o].0 != id);
                }
            }
        }
        if x != id && runs_job(s, x, j) {
            let i = choose|i: int| 0 <= i < s.len() && #[trigger] s[i] == (x, j);
            let o = if k < s.len() && i > k {
                i - 1
            } else {
                i
            };
            assert(t[o] == (x, j));
        }
        assert(t.len() >= 0);
    }
}

/// Progress and notes of a job mark it as active now, a note counts one more iteration, and
/// nothing else of any job changes. A note is told.
pub proof fn jobs_tell_their_progress(
    v: AppView,
    event: TurnEvent,
    ctx: EventContext,
    estimate: u32,
    i: int,
)
    requires
        in_order(v.jobs),
        v.pending is None,
        0 <= i < v.jobs.len(),
    ensures
        ({
            let after = v.after_event(event, ctx, estimate);
            let (id, j) = v.jobs[i];
            let touched = |note: bool|
                JobView {
                    last_activity: ctx.now,
                    iteration: if note && j.iteration < u64::MAX {
                        (j.iteration + 1) as u64
                    } else {
                        j.iteration
                    },
                    ..j
                };
            &&& event is JobProgress ==> after.jobs.len() == v.jobs.len() && after.jobs[i] == (
                id,
                if id == event->JobProgress_job_id@ {
                    touched(false)
                } else {
                    j
                },
            ) && after.history == v.history
            &&& event is JobNote ==> after.jobs.len() == v.jobs.len() && after.jobs[i] == (
                id,
                if id == event->JobNote_job_id@ {
                    touched(true)
                } else {
                    j
                },
            ) && after.history == v.history.push(
                EntryView::Plain {
                    line: "[job "@ + event->JobNote_job_id@ + " note] "@ + event->JobNote_text@,
                },
            )
        }),
{
    reveal(AppView::job_progressed);
    reveal(AppView::job_noted);
    let id = if event is JobProgress {
        event->JobProgress_job_id@
    } else {
        event->JobNote_job_id@
    };
    lemma_at(v.jobs, id, 0);
    let k = position_of_job(v.jobs, id, 0);
    if k < v.jobs.len() && v.jobs[i].0 == id {
        lemma_apart(v.jobs, i, k);
    }
    if k == v.jobs.len() {
        assert(v.jobs[i].0 != id);
    }
}

/// Only the jobs of the current session are listed and stopped: its runner's, or the last one's
/// when there is none.
pub proof fn current_jobs_are_the_sessions(v: AppView, id: Seq<char>)
    ensures
        ({
            let session = match v.runner {
                RunnerView::Live { session_id, .. } => Some(session_id),
                _ => v.launch.session_id,
            };
            v.current_jobs().contains(id) <==> session is Some && exists|j: JobView|
                j.session_id == session->0 && runs_job(v.jobs, id, j)
        }),
{
    match v.current_session() {
        Some(s) => {
            session_ids_are_its_own(v.jobs, s, id);
            if v.current_jobs().contains(id) {
                let i = choose|i: int|
                    0 <= i < v.jobs.len() && (#[trigger] v.jobs[i]).0 == id
                        && v.jobs[i].1.session_id == s;
                assert(runs_job(v.jobs, id, v.jobs[i].1));
            }
            if exists|j: JobView| j.session_id == s && runs_job(v.jobs, id, j) {
                let j = choose|j: JobView| j.session_id == s && runs_job(v.jobs, id, j);
                let i = choose|i: int| 0 <= i < v.jobs.len() && #[trigger] v.jobs[i] == (id, j);
                assert(v.jobs[i].0 == id && v.jobs[i].1.session_id == s);
            }
        },
        None => {},
    }
}

/// `/stop` with an id asks to cancel that job of the session; `/jobs cancel` any job; each says
/// which command it was.
pub proof fn jobs_are_cancelled_by_id(v: AppView, args: Seq<char>, id: Seq<char>)
    ensures
        id.len() > 0 && trim(args) == id && v.current_jobs().contains(id) ==> v.stop_command(args)
            == (AppView {
            outbox: v.outbox.push(
                RequestView::CancelJob { job_id: id, command: CancelCommand::Stop },
            ),
            ..v
        }),
        id.len() > 0 && trim(args) == "cancel "@ + id && trim(seq![' '] + id) == id
            ==> v.jobs_command(args) == (AppView {
            outbox: v.outbox.push(
                RequestView::CancelJob { job_id: id, command: CancelCommand::Jobs },
            ),
            ..v
        }),
{
    reveal(AppView::stop_command);
    reveal(AppView::jobs_command);
    reveal_strlit("cancel");
    reveal_strlit("cancel ");
    let a = "cancel "@ + id;
    assert(a.subrange(0, 6) =~= "cancel"@);
    assert(a.skip(6) =~= seq![' '] + id);
}

/// The line of a job tells its id, its kind and its label, and its iterations unless it runs in
/// the background.
pub proof fn job_lines_tell_the_job(id: Seq<char>, j: JobView)
    ensures
        j.kind == "background"@ ==> job_line(id, j) == id + " ["@ + j.kind + "]"@ + "  "@ + j.label,
        j.kind != "background"@ ==> job_line(id, j) == id + " ["@ + j.kind + "]"@ + " "@ + decimal(
            j.iteration as nat,
        ) + " iter"@ + "  "@ + j.label,
{
    reveal_strlit("");
    if j.kind == "background"@ {
        assert(job_line(id, j) =~= id + " ["@ + j.kind + "]"@ + "  "@ + j.label);
    } else {
        assert(job_line(id, j) =~= id + " ["@ + j.kind + "]"@ + " "@ + decimal(j.iteration as nat)
            + " iter"@ + "  "@ + j.label);
    }
}

/// What the daemon reports of the session is taken over as it is: the agent, the mode of the
/// model, what could be pruned, and the provider's count of the context.
pub proof fn session_reports_are_taken_over(
    v: AppView,
    event: TurnEvent,
    ctx: EventContext,
    estimate: u32,
)
    ensures
        ({
            let after = v.after_event(event, ctx, estimate);
            &&& event is PrimarySwapped ==> after.launch.agent_name == event->PrimarySwapped_name@
                && after.history == v.history
            &&& event is LlmModeChanged ==> after.context.llm_mode == event->LlmModeChanged_mode
                && after.history.len() == v.history.len() + 1
            &&& event is LlmModeChanged && event->LlmModeChanged_mode is Normal
                ==> after.history.last() == (EntryView::Plain {
                line: "Switched to `normal` LLM mode"@,
            })
            &&& event is LlmModeChanged && event->LlmModeChanged_mode is Defensive
                ==> after.history.last() == (EntryView::Plain {
                line: "Switched to `defensive` LLM mode"@,
            })
            &&& event is ContextProjection ==> after.context.prunable_tokens
                == event->prunable_tokens && after.context.cache_cold == event->cache_cold
                && after.context.last_usage == v.context.last_usage
            &&& event is Usage ==> after.context.last_usage == Some(event->total)
                && after.context.estimate_at_last_usage == estimate && after.context.prunable_tokens
                == v.context.prunable_tokens
            &&& event is Reconnecting ==> after.work.busy && after.work.reconnect_attempt == Some(
                event->attempt,
            )
        }),
{
    reveal(AppView::primary_swapped);
    reveal(AppView::llm_mode_changed);
    reveal(AppView::projected);
    reveal(AppView::used);
    reveal(AppView::reconnecting);
    reveal_strlit("Switched to `");
    reveal_strlit("normal");
    reveal_strlit("defensive");
    reveal_strlit("` LLM mode");
    reveal_strlit("Switched to `normal` LLM mode");
    reveal_strlit("Switched to `defensive` LLM mode");
    assert("Switched to `"@ + "normal"@ + "` LLM mode"@ =~= "Switched to `normal` LLM mode"@);
    assert("Switched to `"@ + "defensive"@ + "` LLM mode"@ =~= "Switched to `defensive` LLM mode"@);
}

/// What the daemon reports of itself shows: a toast for the sandbox, for staying awake where it
/// says something, and for a shutdown, which is an error where it was forced; the counts of
/// plans only of the own project.
pub proof fn daemon_reports_show(v: AppView, event: TurnEvent, ctx: EventContext, estimate: u32)
    ensures
        ({
            let after = v.after_event(event, ctx, estimate);
            let until = if ctx.now + 3000 <= u64::MAX {
                ctx.now + 3000
            } else {
                u64::MAX as int
            };
            &&& event is SandboxState && event->enabled ==> after.toast == Some(
                ToastView { text: "sandbox on"@, kind: ToastKind::Info, expires_at: until },
            )
            &&& event is SandboxState && !event->enabled ==> after.toast == Some(
                ToastView { text: "sandbox off"@, kind: ToastKind::Info, expires_at: until },
            )
            &&& event is CaffeinateState ==> after.link.caffeinate_active == event->active
            &&& event is CaffeinateState && event->message is None ==> after.toast == v.toast
            &&& event is CaffeinateState && event->message is Some ==> after.toast == Some(
                ToastView {
                    text: event->message->0@,
                    kind: (if event->active && !event->lid_close_guaranteed {
                        ToastKind::Error
                    } else {
                        ToastKind::Info
                    }),
                    expires_at: until,
                },
            )
            &&& event is DaemonDraining ==> after.link.draining && after.toast is Some
                && after.toast->0.expires_at == until && after.toast->0.kind == (if event->forced {
                ToastKind::Error
            } else {
                ToastKind::Info
            }) && after.toast->0.text == (if event->forced {
                "daemon shutdown forced — in-flight work was aborted"@
            } else {
                "finishing in-flight work, shutting down…"@
            })
            &&& event is PlanStatusState && v.project_id == Some(event->project_id@)
                ==> after.link.plan_status == (PlanStatusCounts {
                ready: event->ready,
                in_progress: event->in_progress,
                interruptions: event->interruptions,
            })
            &&& event is PlanStatusState && v.project_id != Some(event->project_id@) ==> after == v
            &&& event is Notice && v.pending is None ==> after.history == v.history.push(
                EntryView::Plain { line: "⚠ "@ + event->Notice_text@ },
            )
        }),
{
    reveal(AppView::sandbox_shown);
    reveal(AppView::caffeinated);
    reveal(AppView::drained);
    reveal(AppView::plan_status_set);
    reveal(AppView::noticed);
}

/// A prune takes over which results the model no longer sees, tells how many it collapsed and
/// what that saves, and warns where it broke the cache of a provider that has one.
pub proof fn prunes_are_told(v: AppView, event: TurnEvent, ctx: EventContext, estimate: u32)
    requires
        event is Pruned,
        v.pending is None,
    ensures
        ({
            let after = v.after_event(event, ctx, estimate);
            let n = v.history.len() as int;
            let how = if event->auto {
                "auto-pruned"@
            } else {
                "/prune"@
            };
            let warns = event->cache_break && ctx.provider_caches;
            &&& after.elided == texts(event->elided@)
            &&& after.history.len() == n + (if warns {
                2int
            } else {
                1int
            })
            &&& after.history.take(n) == v.history
            &&& event->bodies == 0 ==> after.history[n] == (EntryView::Plain {
                line: how + ": nothing to do (0% prunable)"@,
            })
            &&& event->bodies == 1 ==> after.history[n] == (EntryView::Plain {
                line: how + ": collapsed "@ + decimal(1) + " superseded snapshot"@ + " (~"@
                    + decimal(event->tokens_saved as nat) + " wire tokens reclaimed)"@,
            })
            &&& event->bodies > 1 ==> after.history[n] == (EntryView::Plain {
                line: how + ": collapsed "@ + decimal(event->bodies as nat)
                    + " superseded snapshots"@ + " (~"@ + decimal(event->tokens_saved as nat)
                    + " wire tokens reclaimed)"@,
            })
            &&& warns ==> after.history[n + 1] == (EntryView::Plain {
                line:
                    "Heads up: switching busts the prompt cache — the next call re-sends the full prefix uncached."@,
            })
        }),
{
    reveal(AppView::pruned);
    let after = v.after_event(event, ctx, estimate);
    let n = v.history.len() as int;
    assert(after.history.take(n) =~= v.history);
    reveal_strlit("");
    reveal_strlit("s");
    reveal_strlit(" superseded snapshot");
    reveal_strlit(" superseded snapshots");
    let how = if event->auto {
        "auto-pruned"@
    } else {
        "/prune"@
    };
    assert(" superseded snapshot"@ + ""@ =~= " superseded snapshot"@);
    assert(" superseded snapshot"@ + "s"@ =~= " superseded snapshots"@);
    let d = decimal(event->bodies as nat);
    let t = decimal(event->tokens_saved as nat);
    assert(how + ": collapsed "@ + d + " superseded snapshot"@ + ""@ + " (~"@ + t
        + " wire tokens reclaimed)"@ =~= how + ": collapsed "@ + d + " superseded snapshot"@ + " (~"@
        + t + " wire tokens reclaimed)"@);
    assert(how + ": collapsed "@ + d + " superseded snapshot"@ + "s"@ + " (~"@ + t
        + " wire tokens reclaimed)"@ =~= how + ": collapsed "@ + d + " superseded snapshots"@
        + " (~"@ + t + " wire tokens reclaimed)"@);
}

/// A handoff stands in the composer for review, and what it is for is kept until it is sent.
pub proof fn handoffs_are_reviewed(v: AppView, event: TurnEvent, ctx: EventContext, estimate: u32)
    requires
        event is CompactReady,
    ensures
        ({
            let after = v.after_event(event, ctx, estimate);
            &&& after.editor.composer.text == event->CompactReady_handoff@
            &&& after.editor.composer.pos == event->CompactReady_handoff@.len()
            &&& after.pending_compact is Some
            &&& after.pending_compact->0.new_session_id == event->new_session_id
            &&& after.pending_compact->0.seed_tool_count == event->seed_tool_count
            &&& after.pending_compact->0.seed_tool_tokens == event->seed_tool_tokens
            &&& v.runner is Live ==> after.pending_compact->0.predecessor_short_id
                == v.runner->short_id
            &&& after.runner == v.runner
        }),
{
    reveal(AppView::compact_ready);
}

/// An interrupt opens its questions at the first of them, unanswered, and locked for the time
/// that was asked for.
pub proof fn interrupts_ask(v: AppView, event: TurnEvent, ctx: EventContext, estimate: u32)
    requires
        event is InterruptRaised,
        event.wf(),
    ensures
        ({
            let after = v.after_event(event, ctx, estimate);
            let d = after.question_dialog->0;
            let asked = event->questions.questions@;
            &&& after.question_dialog is Some
            &&& d.interrupt_id == event->interrupt_id
            &&& d.description == event->description@
            &&& d.questions.len() == asked.len()
            &&& d.state.pages == d.questions
            &&& forall|i: int| 0 <= i < asked.len() ==> #[trigger] d.questions[i] == asked[i]@
            &&& forall|i: int|
                0 <= i < asked.len() ==> (#[trigger] d.state.states[i]).selected.len() == 0
                    && d.state.states[i].custom.text.len() == 0
            &&& d.state.page == 0 && d.state.cursor == 0
            &&& d.state.created_at == ctx.now && d.state.lockout == ctx.lockout_ms
            &&& d.result is None
            &&& after.history == v.history && after.editor == v.editor
        }),
{
    reveal(AppView::interrupted);
}

/// What is said once a request was sent, or could not be: a switch of agents names the agent, a
/// cancelled job its id, and what cannot be sent says so.
pub proof fn requests_are_answered(v: AppView, ok: bool, caches: bool, name: Seq<char>)
    ensures
        ({
            let says = |r: RequestView, line: Seq<char>|
                v.answered(r, ok, caches) == (AppView {
                    history: v.history.push(EntryView::Plain { line }),
                    ..v
                });
            &&& ok ==> says(
                RequestView::SetAgent { name },
                "Switched primary agent to `"@ + name + "`"@,
            )
            &&& !ok ==> says(
                RequestView::SetAgent { name },
                "Send a message first to start a session, then switch agents"@,
            )
            &&& ok ==> says(
                RequestView::CancelJob { job_id: name, command: CancelCommand::Jobs },
                "/jobs"@ + ": cancel requested for `"@ + name + "`"@,
            )
            &&& ok ==> says(
                RequestView::CancelJob { job_id: name, command: CancelCommand::Stop },
                "/stop"@ + ": cancel requested for `"@ + name + "`"@,
            )
            &&& !ok ==> says(
                RequestView::CancelJob { job_id: name, command: CancelCommand::Stop },
                "/stop"@ + ": no daemon connection — cannot cancel `"@ + name + "`"@,
            )
            &&& ok ==> says(
                RequestView::Pin { text: name },
                "/pin: pinned (survives /compact verbatim): "@ + name,
            )
            &&& !ok ==> says(
                RequestView::Pin { text: name },
                "/pin: no daemon connection — cannot pin."@,
            )
            &&& !ok ==> says(
                RequestView::Compact,
                "/compact: no daemon connection — cannot compact."@,
            )
            &&& !ok ==> says(RequestView::Prune, "/prune: no daemon connection — cannot prune."@)
            &&& ok ==> v.answered(RequestView::Prune, ok, caches) == v
            &&& ok && !caches ==> v.answered(
                RequestView::SetLlmMode { mode: None },
                ok,
                caches,
            ) == v
            &&& ok && caches ==> says(
                RequestView::SetLlmMode { mode: None },
                "Heads up: switching busts the prompt cache — the next call re-sends the full prefix uncached."@,
            )
        }),
{
}

/// `/prune` shows what it would save and waits; a yes asks the daemon, anything else lets it be.
pub proof fn prunes_are_confirmed(v: AppView, estimate: u32)
    ensures
        v.context.prunable_tokens > 0 ==> v.prune_armed(estimate).requests.prune_confirm
            && v.prune_armed(estimate).outbox == v.outbox,
        v.context.prunable_tokens == 0 ==> !v.prune_armed(estimate).requests.prune_confirm
            && v.prune_armed(estimate).history.last() == (EntryView::Plain {
            line: "/prune: 0% prunable — nothing to do."@,
        }),
        v.prune_committed().outbox == v.outbox.push(RequestView::Prune),
        !v.prune_committed().requests.prune_confirm,
        v.prune_cancelled().outbox == v.outbox,
        !v.prune_cancelled().requests.prune_confirm,
        v.stop_cancelled().outbox == v.outbox,
        v.stop_cancelled().pending_stop_confirm is None,
{
    reveal(AppView::prune_armed);
}

} // verus!
