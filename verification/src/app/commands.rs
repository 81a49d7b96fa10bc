//! Commands that only need the application's state: what they say and what they
//! ask of the daemon.

use vstd::prelude::*;
use crate::app::command::{CacheConfig, cache_config_caches, caffeinate_mode, llm_request, llm_usage, parse_caffeinate_arg, parse_llm_mode_arg, parse_sandbox_arg, sandbox_request, word};
use crate::app::events::{cache_break_warning, cache_warning};
use crate::app::history::plain_entry;
use crate::app::jobs::{JobSeq, JobView, format_job_line, has_job, job_line, lemma_position_found, position_of_job, session_ids, session_ids_are_its_own};
use crate::app::request::{CancelCommand, Request, RequestView, UsageKind, UsageRecord, UsageView, request_views, usage_views};
use crate::app::slash::with_uses;
use crate::app::state::{App, AppView, Requests, Runner};
use crate::editor::text_of;
use crate::nav::{min_int, monus};
use crate::text::{begins_with, concat2, concat3, decimal, from_range, list_has, push_decimal, starts_with, texts, to_chars, trim, trimmed};

verus! {

// ---- Answers of the daemon ------------------------------------------------

impl RequestView {
    /// What is said once a request was sent (`ok`) or could not be sent.
    pub open spec fn answer(self, ok: bool, provider_caches: bool) -> Option<Seq<char>> {
        match self {
            RequestView::CancelJob { job_id, command } => Some(
                if ok {
                    command.name() + ": cancel requested for `"@ + job_id + "`"@
                } else {
                    command.name() + ": no daemon connection — cannot cancel `"@ + job_id + "`"@
                },
            ),
            RequestView::SetLlmMode { .. } => if !ok {
                Some("Send a message first to start a session, then switch LLM mode"@)
            } else if provider_caches {
                Some(cache_warning())
            } else {
                None
            },
            RequestView::SetAgent { name } => Some(
                if ok {
                    "Switched primary agent to `"@ + name + "`"@
                } else {
                    "Send a message first to start a session, then switch agents"@
                },
            ),
            RequestView::Prune => if ok {
                None
            } else {
                Some("/prune: no daemon connection — cannot prune."@)
            },
            RequestView::Compact => Some(
                if ok {
                    "/compact: assembling handoff (prune-first, model brief, deterministic appendix, seed tools)…"@
                } else {
                    "/compact: no daemon connection — cannot compact."@
                },
            ),
            RequestView::SetSandbox { .. } => if ok {
                None
            } else {
                Some("/sandbox: no daemon connection"@)
            },
            RequestView::SetCaffeinate { .. } => if ok {
                None
            } else {
                Some("/caffeinate: no daemon connection"@)
            },
            RequestView::Pin { text } => Some(
                if ok {
                    "/pin: pinned (survives /compact verbatim): "@ + text
                } else {
                    "/pin: no daemon connection — cannot pin."@
                },
            ),
            _ => None,
        }
    }
}

/// What is said once a request was sent (`ok`) or could not be sent.
pub fn request_answer(r: &Request, ok: bool, provider_caches: bool) -> (line: Option<String>)
    ensures
        text_of(line) == r@.answer(ok, provider_caches),
{
    match r {
        Request::CancelJob { job_id, command } => {
            let mut line: String = String::from_str(command.label());
            if ok {
                line.append(": cancel requested for `");
            } else {
                line.append(": no daemon connection — cannot cancel `");
            }
            line.append(job_id.as_str());
            line.append("`");
            Some(line)
        },
        Request::SetLlmMode { .. } => if !ok {
            Some(
                String::from_str(
                    "Send a message first to start a session, then switch LLM mode",
                ),
            )
        } else {
            cache_break_warning(provider_caches)
        },
        Request::SetAgent { name } => Some(
            if ok {
                concat3("Switched primary agent to `", name.as_str(), "`")
            } else {
                String::from_str("Send a message first to start a session, then switch agents")
            },
        ),
        Request::Prune => if ok {
            None
        } else {
            Some(String::from_str("/prune: no daemon connection — cannot prune."))
        },
        Request::Compact => Some(
            String::from_str(
                if ok {
                    "/compact: assembling handoff (prune-first, model brief, deterministic appendix, seed tools)…"
                } else {
                    "/compact: no daemon connection — cannot compact."
                },
            ),
        ),
        Request::SetSandbox { .. } => if ok {
            None
        } else {
            Some(String::from_str("/sandbox: no daemon connection"))
        },
        Request::SetCaffeinate { .. } => if ok {
            None
        } else {
            Some(String::from_str("/caffeinate: no daemon connection"))
        },
        Request::Pin { text } => Some(
            if ok {
                concat2("/pin: pinned (survives /compact verbatim): ", text.as_str())
            } else {
                String::from_str("/pin: no daemon connection — cannot pin.")
            },
        ),
        _ => None,
    }
}

// ---- The commands ---------------------------------------------------------

/// The line of a job in the list of all jobs.
pub open spec fn jobs_row(job: (Seq<char>, JobView)) -> Seq<char> {
    "  "@ + job_line(job.0, job.1) + "  (cancel: /jobs cancel "@ + job.0 + ")"@
}

/// The line of a job in the list of a session.
pub open spec fn ps_row(jobs: JobSeq, id: Seq<char>) -> Seq<char> {
    "  "@ + job_line(id, jobs[position_of_job(jobs, id, 0)].1) + "  (stop: /stop "@ + id + ")"@
}

/// The requests that stop those of `ids` that still run.
pub open spec fn stop_requests(jobs: JobSeq, ids: Seq<Seq<char>>) -> Seq<RequestView>
    decreases ids.len(),
{
    if ids.len() == 0 {
        Seq::empty()
    } else {
        let rest = stop_requests(jobs, ids.drop_last());
        if has_job(jobs, ids.last()) {
            rest.push(RequestView::CancelJob { job_id: ids.last(), command: CancelCommand::Stop })
        } else {
            rest
        }
    }
}

impl AppView {
    /// The answer to a request written down.
    pub open spec fn answered(
        self,
        r: RequestView,
        ok: bool,
        provider_caches: bool,
    ) -> AppView {
        match r.answer(ok, provider_caches) {
            Some(line) => self.said(line),
            None => self,
        }
    }

    /// Several plain lines at the end of the transcript.
    pub open spec fn said_all(self, lines: Seq<Seq<char>>) -> AppView {
        AppView {
            history: self.history + lines.map_values(|l: Seq<char>| plain_entry(l)),
            ..self
        }
    }

    /// `/jobs`.
    #[verifier::opaque]
    pub open spec fn jobs_command(self, args: Seq<char>) -> AppView {
        let a = trim(args);
        if begins_with(a, "cancel"@) {
            let id = trim(a.skip(6));
            if id.len() == 0 {
                self.said("/jobs: usage `/jobs cancel <job-id>`"@)
            } else {
                self.requesting(
                    RequestView::CancelJob { job_id: id, command: CancelCommand::Jobs },
                )
            }
        } else if self.jobs.len() == 0 {
            self.said("/jobs: no active jobs"@)
        } else {
            self.said("/jobs: active —"@).said_all(
                self.jobs.map_values(|j: (Seq<char>, JobView)| jobs_row(j)),
            )
        }
    }

    /// `/ps`.
    #[verifier::opaque]
    pub open spec fn ps_command(self) -> AppView {
        let ids = self.current_jobs();
        if ids.len() == 0 {
            self.said("No background jobs in this session."@)
        } else {
            self.said("/ps: active in this session —"@).said_all(
                ids.map_values(|id: Seq<char>| ps_row(self.jobs, id)),
            )
        }
    }

    /// `/stop`.
    #[verifier::opaque]
    pub open spec fn stop_command(self, args: Seq<char>) -> AppView {
        let id = trim(args);
        if id.len() == 0 {
            self.stop_armed()
        } else if !self.current_jobs().contains(id) {
            self.said(
                "/stop: no job `"@ + id + "` in this session (use /jobs for other sessions)"@,
            )
        } else {
            self.requesting(RequestView::CancelJob { job_id: id, command: CancelCommand::Stop })
        }
    }

    /// A bare `/stop`: it asks before it stops the jobs of the session.
    pub open spec fn stop_armed(self) -> AppView {
        let ids = self.current_jobs();
        if ids.len() == 0 {
            AppView { pending_stop_confirm: None, ..self }.said(
                "No background jobs in this session."@,
            )
        } else {
            AppView { pending_stop_confirm: Some(ids), ..self }.said(
                "/stop: Stop "@ + decimal(ids.len()) + " job(s) in this session? [y/N]"@,
            )
        }
    }

    /// The armed `/stop` confirmed.
    #[verifier::opaque]
    pub open spec fn stop_committed(self) -> AppView {
        match self.pending_stop_confirm {
            None => self,
            Some(ids) => {
                let requests = stop_requests(self.jobs, ids);
                let v = AppView { pending_stop_confirm: None, ..self };
                if requests.len() == 0 {
                    v.said("/stop: those jobs already ended."@)
                } else {
                    AppView { outbox: v.outbox + requests, ..v }
                }
            },
        }
    }

    /// The armed `/stop` cancelled.
    pub open spec fn stop_cancelled(self) -> AppView {
        AppView { pending_stop_confirm: None, ..self }.said("/stop: cancelled."@)
    }

    /// `/llm-mode`.
    #[verifier::opaque]
    pub open spec fn llm_mode_command(self, args: Seq<char>) -> AppView {
        match llm_request(word(args)) {
            None => self.said(llm_usage(word(args))),
            Some(requested) => {
                let target = match requested {
                    Some(m) => m,
                    None => self.context.llm_mode.other(),
                };
                if target == self.context.llm_mode {
                    self.said("Already in `"@ + target.name() + "` LLM mode"@)
                } else {
                    self.requesting(RequestView::SetLlmMode { mode: requested })
                }
            },
        }
    }

    /// `/prune`: it shows what it would save and asks.
    #[verifier::opaque]
    pub open spec fn prune_armed(self, estimate: u32) -> AppView {
        if self.context.prunable_tokens == 0 {
            AppView { requests: Requests { prune_confirm: false, ..self.requests }, ..self }.said(
                "/prune: 0% prunable — nothing to do."@,
            )
        } else {
            let tokens = self.context_size(estimate);
            let prunable = self.context.prunable_tokens;
            let size = "~"@ + decimal(prunable as nat) + " wire tokens"@;
            let numbers = match self.launch.active_model_max_context {
                Some(max) => if max > 0 {
                    "context "@ + decimal(capped_percent(tokens, max as int) as nat) + "% → "@
                        + decimal(
                        capped_percent(monus(tokens, prunable as int), max as int) as nat,
                    ) + "% ("@ + size + ")"@
                } else {
                    size
                },
                None => size,
            };
            let cache = if self.context.cache_cold {
                "Cache is cold — pruning is free (auto-prune normally handles this)."@
            } else {
                "Cache is HOT — pruning breaks it; the cache-bust cost may exceed the savings. When the cache goes cold, auto-prune handles it for free."@
            };
            AppView { requests: Requests { prune_confirm: true, ..self.requests }, ..self }.said(
                "/prune: "@ + numbers + ". "@ + cache
                    + " Press y or Enter to confirm, any other key to cancel."@,
            )
        }
    }

    /// The armed `/prune` confirmed.
    pub open spec fn prune_committed(self) -> AppView {
        AppView {
            requests: Requests { prune_confirm: false, ..self.requests },
            ..self
        }.requesting(RequestView::Prune)
    }

    /// The armed `/prune` cancelled.
    pub open spec fn prune_cancelled(self) -> AppView {
        AppView { requests: Requests { prune_confirm: false, ..self.requests }, ..self }.said(
            "/prune: cancelled."@,
        )
    }

    /// `/sandbox`.
    #[verifier::opaque]
    pub open spec fn sandbox_command(self, args: Seq<char>) -> AppView {
        match sandbox_request(word(args)) {
            Some(enabled) => self.requesting(RequestView::SetSandbox { enabled }),
            None => self.said(
                "/sandbox: unknown arg `"@ + word(args) + "` — use `on` or `off`"@,
            ),
        }
    }

    /// `/caffeinate`.
    #[verifier::opaque]
    pub open spec fn caffeinate_command(self, args: Seq<char>) -> AppView {
        match caffeinate_mode(word(args)) {
            Some(mode) => self.requesting(RequestView::SetCaffeinate { mode }),
            None => self.said(
                "/caffeinate: unknown arg `"@ + word(args)
                    + "` — use `on`, `off`, `until-idle`, or no arg to toggle"@,
            ),
        }
    }

    /// `/pin`.
    #[verifier::opaque]
    pub open spec fn pin_command(self, args: Seq<char>) -> AppView {
        if trim(args).len() == 0 {
            self.said("/pin: usage `/pin <text>` — pins a message verbatim for /compact"@)
        } else {
            self.requesting(RequestView::Pin { text: trim(args) })
        }
    }

    /// Tokens in the context: those that the provider reported and what the
    /// estimate has grown by since, or else the estimate.
    pub open spec fn context_size(self, estimate: u32) -> int {
        match self.context.last_usage {
            Some(total) => min_int(
                total + monus(estimate as int, self.context.estimate_at_last_usage as int),
                u32::MAX as int,
            ),
            None => estimate as int,
        }
    }

    /// One more use of `key`.
    pub open spec fn use_counted(self, kind: UsageKind, key: Seq<char>) -> AppView {
        match kind {
            UsageKind::Model => AppView {
                usage_models: with_uses(self.usage_models, key, 1),
                ..self
            },
            UsageKind::Slash => AppView {
                usage_slash: with_uses(self.usage_slash, key, 1),
                ..self
            },
            UsageKind::Tag => AppView { usage_tags: with_uses(self.usage_tags, key, 1), ..self },
        }
    }

    /// A use recorded: counted, and sent when there is a runner or kept until
    /// there is one.
    #[verifier::opaque]
    pub open spec fn usage_recorded(self, u: UsageView) -> AppView {
        let v = self.use_counted(u.kind, u.key);
        if v.runner is Live {
            v.requesting(RequestView::RecordUsage(u))
        } else {
            AppView { pending_usage: v.pending_usage.push(u), ..v }
        }
    }
}

/// `part` as a percentage of `whole`, at most 999.
pub open spec fn capped_percent(part: int, whole: int) -> int {
    min_int(part * 100 / whole, 999)
}


impl App {
    /// Take the waiting requests.
    pub fn take_outbox(&mut self) -> (r: Vec<Request>)
        ensures
            old(self).wf() ==> final(self).wf(),
            request_views(r@) == old(self)@.outbox,
            final(self)@ == (AppView { outbox: Seq::empty(), ..old(self)@ }),
    {
        let ghost v = self@;
        let mut out: Vec<Request> = Vec::new();
        core::mem::swap(&mut self.outbox, &mut out);
        proof {
            assert(request_views(self.outbox@) =~= Seq::empty());
            assert(self@ =~= (AppView { outbox: Seq::empty(), ..v }));
        }
        out
    }

    /// A request was sent (`ok`) or could not be sent.
    pub fn request_answered(&mut self, r: &Request, ok: bool, provider_caches: bool)
        ensures
            old(self).wf() ==> final(self).wf(),
            final(self)@ == old(self)@.answered(r@, ok, provider_caches),
    {
        match request_answer(r, ok, provider_caches) {
            Some(line) => {
                self.say(line);
            },
            None => {},
        }
    }

    /// Add plain lines to the transcript.
    pub fn say_all(&mut self, lines: Vec<String>)
        ensures
            final(self)@ == old(self)@.said_all(texts(lines@)),
    {
        let ghost v = self@;
        let ghost rows = texts(lines@).map_values(|l: Seq<char>| plain_entry(l));
        let mut i: usize = 0;
        proof {
            assert(v.history + rows.take(0) =~= v.history);
        }
        while i < lines.len()
            invariant
                i <= lines@.len() == rows.len(),
                rows == texts(lines@).map_values(|l: Seq<char>| plain_entry(l)),
                self@ == (AppView { history: v.history + rows.take(i as int), ..v }),
            decreases lines@.len() - i,
        {
            let ghost before = self@;
            self.say_str(lines[i].as_str());
            proof {
                assert(rows[i as int] == plain_entry(lines@[i as int]@));
                assert(before.history.push(rows[i as int]) =~= v.history + rows.take(i + 1));
            }
            i = i + 1;
        }
        proof {
            assert(rows.take(i as int) =~= rows);
        }
    }

    fn count_use(&mut self, kind: UsageKind, key: &str)
        ensures
            final(self)@ == old(self)@.use_counted(kind, key@),
    {
        let ghost v = self@;
        match kind {
            UsageKind::Model => {
                self.usage_models.bump(key, 1);
                proof {
                    assert(self@ =~= v.use_counted(kind, key@));
                }
            },
            UsageKind::Slash => {
                self.usage_slash.bump(key, 1);
                proof {
                    assert(self@ =~= v.use_counted(kind, key@));
                }
            },
            UsageKind::Tag => {
                self.usage_tags.bump(key, 1);
                proof {
                    assert(self@ =~= v.use_counted(kind, key@));
                }
            },
        }
    }

    fn keep_usage(&mut self, u: UsageRecord)
        ensures
            final(self)@ == (AppView {
                pending_usage: old(self)@.pending_usage.push(u@),
                ..old(self)@
            }),
    {
        let ghost v = self@;
        self.pending_usage.push(u);
        proof {
            assert(usage_views(self.pending_usage@) =~= v.pending_usage.push(u@));
            assert(self@ =~= (AppView { pending_usage: v.pending_usage.push(u@), ..v }));
        }
    }

    /// Record an accepted suggestion.
    pub fn record_usage(&mut self, kind: UsageKind, key: String, project_id: Option<String>)
        ensures
            old(self).wf() ==> final(self).wf(),
            final(self)@ == old(self)@.usage_recorded(
                UsageView { kind, key: key@, project_id: text_of(project_id) },
            ),
    {
        proof {
            reveal(AppView::usage_recorded);
        }
        self.count_use(kind, key.as_str());
        let u = UsageRecord { kind, key, project_id };
        let live: bool = matches!(&self.runner, Runner::Live { .. });
        if live {
            self.request(Request::RecordUsage(u));
        } else {
            self.keep_usage(u);
        }
    }

    /// `/jobs`: list the jobs, or cancel one.
    pub fn handle_jobs_command(&mut self, args: &str)
        ensures
            old(self).wf() ==> final(self).wf(),
            final(self)@ == old(self)@.jobs_command(args@),
    {
        proof {
            reveal(AppView::jobs_command);
            reveal_strlit("cancel");
        }
        let a: String = trimmed(args);
        if starts_with(a.as_str(), "cancel") {
            let v: Vec<char> = to_chars(a.as_str());
            let rest: String = from_range(&v, 6, v.len());
            proof {
                assert(v@.subrange(6, v@.len() as int) =~= a@.skip(6));
            }
            let id: String = trimmed(rest.as_str());
            if id.as_str().unicode_len() == 0 {
                self.say_str("/jobs: usage `/jobs cancel <job-id>`");
            } else {
                self.request(Request::CancelJob { job_id: id, command: CancelCommand::Jobs });
            }
            return;
        }
        if self.jobs.len() == 0 {
            self.say_str("/jobs: no active jobs");
            return;
        }
        let ghost v = self@;
        let lines: Vec<String> = self.job_rows();
        self.say_str("/jobs: active —");
        self.say_all(lines);
    }

    fn job_rows(&self) -> (r: Vec<String>)
        ensures
            texts(r@) == self@.jobs.map_values(|j: (Seq<char>, JobView)| jobs_row(j)),
    {
        let ghost rows = self@.jobs.map_values(|j: (Seq<char>, JobView)| jobs_row(j));
        let mut out: Vec<String> = Vec::new();
        let mut i: usize = 0;
        proof {
            assert(texts(out@) =~= rows.take(0));
        }
        while i < self.jobs.len()
            invariant
                i <= self@.jobs.len() == rows.len(),
                rows == self@.jobs.map_values(|j: (Seq<char>, JobView)| jobs_row(j)),
                texts(out@) == rows.take(i as int),
            decreases self@.jobs.len() - i,
        {
            let id: &String = self.jobs.id_at(i);
            let l: String = format_job_line(id.as_str(), self.jobs.job_at(i));
            let mut line: String = concat3("  ", l.as_str(), "  (cancel: /jobs cancel ");
            line.append(id.as_str());
            line.append(")");
            let ghost before = texts(out@);
            out.push(line);
            proof {
                assert(texts(out@) =~= before.push(line@));
                assert(rows[i as int] == line@);
                assert(rows.take(i + 1) =~= before.push(rows[i as int]));
            }
            i = i + 1;
        }
        proof {
            assert(rows.take(i as int) =~= rows);
        }
        out
    }

    /// `/ps`: list the jobs of the current session.
    pub fn handle_ps_command(&mut self)
        ensures
            old(self).wf() ==> final(self).wf(),
            final(self)@ == old(self)@.ps_command(),
    {
        proof {
            reveal(AppView::ps_command);
        }
        let ids: Vec<String> = self.current_session_job_ids();
        if ids.len() == 0 {
            self.say_str("No background jobs in this session.");
            return;
        }
        let lines: Vec<String> = self.session_rows(&ids);
        self.say_str("/ps: active in this session —");
        self.say_all(lines);
    }

    fn session_rows(&self, ids: &Vec<String>) -> (r: Vec<String>)
        requires
            texts(ids@) == self@.current_jobs(),
        ensures
            texts(r@) == texts(ids@).map_values(|id: Seq<char>| ps_row(self@.jobs, id)),
    {
        let ghost rows = texts(ids@).map_values(|id: Seq<char>| ps_row(self@.jobs, id));
        let mut out: Vec<String> = Vec::new();
        let mut i: usize = 0;
        proof {
            assert(texts(out@) =~= rows.take(0));
        }
        while i < ids.len()
            invariant
                i <= ids@.len() == rows.len(),
                texts(ids@) == self@.current_jobs(),
                rows == texts(ids@).map_values(|id: Seq<char>| ps_row(self@.jobs, id)),
                texts(out@) == rows.take(i as int),
            decreases ids@.len() - i,
        {
            let id: &String = &ids[i];
            proof {
                let sid = self@.current_session()->0;
                assert(texts(ids@)[i as int] == id@);
                assert(self@.current_session() is Some);
                session_ids_are_its_own(self@.jobs, sid, id@);
                assert(session_ids(self@.jobs, sid).contains(id@));
                let k = choose|k: int|
                    0 <= k < self@.jobs.len() && (#[trigger] self@.jobs[k]).0 == id@
                        && self@.jobs[k].1.session_id == sid;
                lemma_position_found(self@.jobs, id@, 0, k);
            }
            let at: usize = self.jobs.position(id.as_str());
            let l: String = format_job_line(id.as_str(), self.jobs.job_at(at));
            let mut line: String = concat3("  ", l.as_str(), "  (stop: /stop ");
            line.append(id.as_str());
            line.append(")");
            let ghost before = texts(out@);
            out.push(line);
            proof {
                assert(texts(out@) =~= before.push(line@));
                assert(rows[i as int] == line@);
                assert(rows.take(i + 1) =~= before.push(rows[i as int]));
            }
            i = i + 1;
        }
        proof {
            assert(rows.take(i as int) =~= rows);
        }
        out
    }

    /// `/stop`: stop a job of the current session, or ask whether to stop all.
    pub fn handle_stop_command(&mut self, args: &str)
        ensures
            old(self).wf() ==> final(self).wf(),
            final(self)@ == old(self)@.stop_command(args@),
    {
        proof {
            reveal(AppView::stop_command);
        }
        let id: String = trimmed(args);
        if id.as_str().unicode_len() == 0 {
            self.arm_stop_confirm();
            return;
        }
        let ids: Vec<String> = self.current_session_job_ids();
        if !list_has(&ids, id.as_str()) {
            self.say(
                concat3(
                    "/stop: no job `",
                    id.as_str(),
                    "` in this session (use /jobs for other sessions)",
                ),
            );
        } else {
            self.request(Request::CancelJob { job_id: id, command: CancelCommand::Stop });
        }
    }

    /// Ask whether to stop all jobs of the session.
    pub fn arm_stop_confirm(&mut self)
        ensures
            old(self).wf() ==> final(self).wf(),
            final(self)@ == old(self)@.stop_armed(),
    {
        let ghost v = self@;
        let ids: Vec<String> = self.current_session_job_ids();
        let n: usize = ids.len();
        if n == 0 {
            self.pending_stop_confirm = None;
            proof {
                assert(self@ =~= (AppView { pending_stop_confirm: None, ..v }));
            }
            self.say_str("No background jobs in this session.");
        } else {
            let mut line: String = String::from_str("/stop: Stop ");
            push_decimal(&mut line, n as u64);
            line.append(" job(s) in this session? [y/N]");
            self.pending_stop_confirm = Some(ids);
            proof {
                assert(self@ =~= (AppView {
                    pending_stop_confirm: Some(v.current_jobs()),
                    ..v
                }));
            }
            self.say(line);
        }
    }

    /// Stop the jobs that the armed `/stop` was about, as far as they still run.
    pub fn commit_stop(&mut self)
        ensures
            old(self).wf() ==> final(self).wf(),
            final(self)@ == old(self)@.stop_committed(),
    {
        proof {
            reveal(AppView::stop_committed);
        }
        let ghost v = self@;
        let ids: Vec<String> = match self.pending_stop_confirm.take() {
            Some(ids) => ids,
            None => {
                proof {
                    assert(self@ =~= v);
                }
                return;
            },
        };
        let ghost w = AppView { pending_stop_confirm: None, ..v };
        let ghost all = texts(ids@);
        proof {
            assert(self@ =~= w);
            assert(all.take(0) =~= Seq::empty());
            assert(w.outbox + stop_requests(v.jobs, all.take(0)) =~= w.outbox);
        }
        let mut any: bool = false;
        let mut i: usize = 0;
        while i < ids.len()
            invariant
                i <= ids@.len() == all.len(),
                all == texts(ids@),
                w.jobs == v.jobs,
                self@ == (AppView {
                    outbox: w.outbox + stop_requests(v.jobs, all.take(i as int)),
                    ..w
                }),
                any == (stop_requests(v.jobs, all.take(i as int)).len() > 0),
            decreases ids@.len() - i,
        {
            proof {
                assert(all.take(i + 1).drop_last() =~= all.take(i as int));
                assert(all.take(i + 1).last() == ids@[i as int]@);
            }
            let ghost before = self@;
            if self.jobs.has(ids[i].as_str()) {
                self.request(
                    Request::CancelJob {
                        job_id: ids[i].clone(),
                        command: CancelCommand::Stop,
                    },
                );
                any = true;
                proof {
                    assert(self@.outbox =~= w.outbox + stop_requests(v.jobs, all.take(i + 1)));
                }
            }
            i = i + 1;
        }
        proof {
            assert(all.take(i as int) =~= all);
        }
        if !any {
            proof {
                assert(self@.outbox =~= w.outbox);
            }
            self.say_str("/stop: those jobs already ended.");
        }
    }

    /// Keep the jobs that the armed `/stop` was about.
    pub fn cancel_stop(&mut self)
        ensures
            old(self).wf() ==> final(self).wf(),
            final(self)@ == old(self)@.stop_cancelled(),
    {
        let ghost v = self@;
        self.pending_stop_confirm = None;
        proof {
            assert(self@ =~= (AppView { pending_stop_confirm: None, ..v }));
        }
        self.say_str("/stop: cancelled.");
    }

    /// Whether the active model's provider caches prompts, given how caching is
    /// configured for it. Without an active model it is taken to cache.
    pub fn active_provider_caches(&self, cache: &CacheConfig) -> (r: bool)
        ensures
            r == (self@.launch.active_model is None || !(cache.mode is Uncached)),
    {
        match &self.launch.active_model {
            Some(_) => cache_config_caches(cache),
            None => true,
        }
    }

    /// `/llm-mode`: switch the mode of the model.
    pub fn handle_llm_mode_command(&mut self, arg: &str)
        ensures
            old(self).wf() ==> final(self).wf(),
            final(self)@ == old(self)@.llm_mode_command(arg@),
    {
        proof {
            reveal(AppView::llm_mode_command);
        }
        match parse_llm_mode_arg(arg) {
            Err(usage) => {
                self.say(usage);
            },
            Ok(requested) => {
                let target = match requested {
                    Some(m) => m,
                    None => self.context.llm_mode.toggled(),
                };
                if target == self.context.llm_mode {
                    self.say(concat3("Already in `", target.as_str(), "` LLM mode"));
                } else {
                    self.request(Request::SetLlmMode { mode: requested });
                }
            },
        }
    }

    /// Tokens in the context, given an estimate.
    pub fn context_tokens(&self, estimate: u32) -> (r: u32)
        ensures
            r == self@.context_size(estimate),
    {
        match self.context.last_usage {
            Some(total) => {
                let before: u32 = self.context.estimate_at_last_usage;
                let grown: u32 = if estimate > before {
                    estimate - before
                } else {
                    0
                };
                if total >= (u32::MAX - grown) as u64 {
                    u32::MAX
                } else {
                    total as u32 + grown
                }
            },
            None => estimate,
        }
    }

    /// `/prune`: show what it would save, and ask.
    pub fn arm_prune_confirm(&mut self, estimate: u32)
        ensures
            old(self).wf() ==> final(self).wf(),
            final(self)@ == old(self)@.prune_armed(estimate),
    {
        proof {
            reveal(AppView::prune_armed);
        }
        if self.context.prunable_tokens == 0 {
            self.requests = Requests { prune_confirm: false, ..self.requests };
            self.say_str("/prune: 0% prunable — nothing to do.");
            return;
        }
        let tokens: u64 = self.context_tokens(estimate) as u64;
        let prunable: u64 = self.context.prunable_tokens;
        let mut size: String = String::from_str("~");
        push_decimal(&mut size, prunable);
        size.append(" wire tokens");
        let max: u64 = match self.launch.active_model_max_context {
            Some(m) => m as u64,
            None => 0,
        };
        let numbers: String = if max > 0 {
            let after: u64 = if tokens > prunable {
                tokens - prunable
            } else {
                0
            };
            let mut t: String = String::from_str("context ");
            push_decimal(&mut t, percent_of(tokens, max));
            t.append("% → ");
            push_decimal(&mut t, percent_of(after, max));
            t.append("% (");
            t.append(size.as_str());
            t.append(")");
            t
        } else {
            size
        };
        let mut line: String = concat3("/prune: ", numbers.as_str(), ". ");
        line.append(
            if self.context.cache_cold {
                "Cache is cold — pruning is free (auto-prune normally handles this)."
            } else {
                "Cache is HOT — pruning breaks it; the cache-bust cost may exceed the savings. When the cache goes cold, auto-prune handles it for free."
            },
        );
        line.append(" Press y or Enter to confirm, any other key to cancel.");
        self.requests = Requests { prune_confirm: true, ..self.requests };
        self.say(line);
    }

    /// Go on with the armed `/prune`.
    pub fn commit_prune(&mut self)
        ensures
            old(self).wf() ==> final(self).wf(),
            final(self)@ == old(self)@.prune_committed(),
    {
        self.requests = Requests { prune_confirm: false, ..self.requests };
        self.request(Request::Prune);
    }

    /// Forget the armed `/prune`.
    pub fn cancel_prune(&mut self)
        ensures
            old(self).wf() ==> final(self).wf(),
            final(self)@ == old(self)@.prune_cancelled(),
    {
        self.requests = Requests { prune_confirm: false, ..self.requests };
        self.say_str("/prune: cancelled.");
    }

    /// `/compact`: ask for a handoff.
    pub fn start_compact(&mut self)
        ensures
            old(self).wf() ==> final(self).wf(),
            final(self)@ == old(self)@.requesting(RequestView::Compact),
    {
        self.request(Request::Compact);
    }

    /// `/plan`, `/build`: swap the primary agent.
    pub fn swap_primary_agent(&mut self, name: &str)
        ensures
            old(self).wf() ==> final(self).wf(),
            final(self)@ == old(self)@.requesting(RequestView::SetAgent { name: name@ }),
    {
        self.request(Request::SetAgent { name: String::from_str(name) });
    }

    /// `/sandbox`: switch the sandbox.
    pub fn handle_sandbox_command(&mut self, args: &str)
        ensures
            old(self).wf() ==> final(self).wf(),
            final(self)@ == old(self)@.sandbox_command(args@),
    {
        proof {
            reveal(AppView::sandbox_command);
        }
        match parse_sandbox_arg(args) {
            Ok(enabled) => {
                self.request(Request::SetSandbox { enabled });
            },
            Err(other) => {
                self.say(
                    concat3("/sandbox: unknown arg `", other.as_str(), "` — use `on` or `off`"),
                );
            },
        }
    }

    /// `/caffeinate`: keep the machine awake.
    pub fn handle_caffeinate_command(&mut self, args: &str)
        ensures
            old(self).wf() ==> final(self).wf(),
            final(self)@ == old(self)@.caffeinate_command(args@),
    {
        proof {
            reveal(AppView::caffeinate_command);
        }
        match parse_caffeinate_arg(args) {
            Ok(mode) => {
                self.request(Request::SetCaffeinate { mode });
            },
            Err(other) => {
                self.say(
                    concat3(
                        "/caffeinate: unknown arg `",
                        other.as_str(),
                        "` — use `on`, `off`, `until-idle`, or no arg to toggle",
                    ),
                );
            },
        }
    }

    /// `/pin`: keep a text through `/compact`.
    pub fn handle_pin_command(&mut self, args: &str)
        ensures
            old(self).wf() ==> final(self).wf(),
            final(self)@ == old(self)@.pin_command(args@),
    {
        proof {
            reveal(AppView::pin_command);
        }
        let text: String = trimmed(args);
        if text.as_str().unicode_len() == 0 {
            self.say_str("/pin: usage `/pin <text>` — pins a message verbatim for /compact");
        } else {
            self.request(Request::Pin { text });
        }
    }
}

/// `part` as a percentage of `whole`, at most 999.
pub fn percent_of(part: u64, whole: u64) -> (r: u64)
    requires
        part <= u32::MAX,
        whole > 0,
    ensures
        r == capped_percent(part as int, whole as int),
{
    let p: u64 = part * 100 / whole;
    if p > 999 {
        999
    } else {
        p
    }
}


// ---- Laws -----------------------------------------------------------------

proof fn lemma_all_run(jobs: JobSeq, ids: Seq<Seq<char>>)
    requires
        forall|i: int| 0 <= i < ids.len() ==> has_job(jobs, #[trigger] ids[i]),
    ensures
        stop_requests(jobs, ids).len() == ids.len(),
        forall|i: int|
            0 <= i < ids.len() ==> #[trigger] stop_requests(jobs, ids)[i]
                == (RequestView::CancelJob { job_id: ids[i], command: CancelCommand::Stop }),
    decreases ids.len(),
{
    if ids.len() > 0 {
        let rest = ids.drop_last();
        assert forall|i: int| 0 <= i < rest.len() implies has_job(jobs, #[trigger] rest[i]) by {
            assert(rest[i] == ids[i]);
        }
        lemma_all_run(jobs, rest);
        assert(has_job(jobs, ids[ids.len() - 1]));
        let all = stop_requests(jobs, ids);
        assert forall|i: int| 0 <= i < ids.len() implies #[trigger] all[i]
            == (RequestView::CancelJob { job_id: ids[i], command: CancelCommand::Stop }) by {
            if i < rest.len() {
                assert(all[i] == stop_requests(jobs, rest)[i]);
            }
        }
    }
}

/// The jobs that `/ps` lists, those that `/stop` asks about and those that it
/// stops are the same: a confirmed `/stop` asks the daemon to cancel exactly the
/// jobs of the session, in their order.
pub proof fn stop_is_about_the_listed_jobs(v: AppView)
    requires
        v.current_jobs().len() > 0,
    ensures
        ({
            let ids = v.current_jobs();
            let committed = v.stop_armed().stop_committed();
            &&& v.stop_armed().pending_stop_confirm == Some(ids)
            &&& v.ps_command().history.len() == v.history.len() + 1 + ids.len()
            &&& committed.pending_stop_confirm is None
            &&& committed.outbox.len() == v.outbox.len() + ids.len()
            &&& forall|i: int|
                0 <= i < ids.len() ==> committed.outbox[v.outbox.len() + i] == (
                RequestView::CancelJob {
                    job_id: #[trigger] ids[i],
                    command: CancelCommand::Stop,
                })
        }),
{
    reveal(AppView::ps_command);
    reveal(AppView::stop_committed);
    let ids = v.current_jobs();
    let sid = v.current_session()->0;
    assert forall|i: int| 0 <= i < ids.len() implies has_job(v.jobs, #[trigger] ids[i]) by {
        session_ids_are_its_own(v.jobs, sid, ids[i]);
        assert(session_ids(v.jobs, sid).contains(ids[i]));
        let k = choose|k: int|
            0 <= k < v.jobs.len() && (#[trigger] v.jobs[k]).0 == ids[i] && v.jobs[k].1.session_id
                == sid;
        lemma_position_found(v.jobs, ids[i], 0, k);
    }
    lemma_all_run(v.jobs, ids);
    let committed = v.stop_armed().stop_committed();
    assert forall|i: int| 0 <= i < ids.len() implies committed.outbox[v.outbox.len() + i] == (
    RequestView::CancelJob { job_id: #[trigger] ids[i], command: CancelCommand::Stop }) by {
        assert(committed.outbox[v.outbox.len() + i] == stop_requests(v.jobs, ids)[i]);
    }
}

/// `/stop` with an id never reaches a job of another session.
pub proof fn stop_stays_in_the_session(v: AppView, args: Seq<char>)
    requires
        trim(args).len() > 0,
        !v.current_jobs().contains(trim(args)),
    ensures
        v.stop_command(args).outbox == v.outbox,
{
    reveal(AppView::stop_command);
}

/// A report of usage sets the count of the context to the provider's own, and
/// from there it grows with what is estimated to have been streamed since.
pub proof fn usage_anchors_the_count(v: AppView, total: u64, at_report: u32, later: u32)
    requires
        total + later <= u32::MAX,
    ensures
        v.used(total, at_report).context_size(at_report) == total,
        later >= at_report ==> v.used(total, at_report).context_size(later) == total + (later
            - at_report),
{
    reveal(AppView::used);
}

} // verus!
