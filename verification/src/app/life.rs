//! From launch to exit: the first state, fresh sessions, the runner, settings,
//! panes, local commands and `/init`.

use vstd::prelude::*;
use crate::app::command::{GIT_AGENT_TOKEN_CAP, LlmMode, PaneSide, cap_display_lines, cap_tokens, capped_by, capped_lines, git_block, git_block_text, plain_text, strip_ansi};
use crate::app::control::{WORKING_MESSAGE_COUNT, should_attempt_display_attach};
use crate::app::effect::{Effect, EffectView, InitMode};
use crate::app::events::{EventContext, askable};
use crate::app::history::{EntryView, HistoryEntry};
use crate::app::ids::{fresh_id, id_form, id_text};
use crate::app::jobs::JobTable;
use crate::app::prediction::{PredictionState, PredictionView};
use crate::app::request::{Request, RequestView, UsageKind, UsageRecord, UsageView, usage_views};
use crate::app::session::{Attached, AttachedView, LifecycleMode};
use crate::app::slash::{UsageCounts, merge_counts, merged_counts};
use crate::app::state::{App, AppView, ContextInfo, GuidanceEstimate, GuidanceView, InitView, Link, Overlays, Pane, PendingInit, PredictNextMessage, Requests, Runner, RunnerView, Screen, Settings, Split, TOAST_TTL, ToastKind, Work, guidance_of};
use crate::app::transcript::{exit_tail, exit_tail_lines};
use crate::daemon_prompt::{DaemonPaths, DaemonPromptDialog, DaemonStatus, PromptView};
use crate::dialog::{OptionView, PageKind, PageView};
use crate::dialog::question::{InterruptOption, InterruptQuestion, InterruptQuestionSet, proposal_views, question_views};
use crate::editor::{Editor, EditorView, text_of};
use crate::launch::{LaunchInfo, LaunchView, PlanStatusCounts};
use crate::text::{concat2, concat3, same, texts, trim, trimmed};

verus! {

/// What is known of the daemon at launch: its state and where it lives, unless
/// that could not be found out.
pub open spec fn daemon_at_launch(
    probe: Option<(DaemonStatus, DaemonPaths)>,
) -> (Option<PromptView>, bool) {
    match probe {
        None => (None, false),
        Some((status, paths)) => if status is Running {
            (None, true)
        } else {
            (
                Some(
                    PromptView {
                        status,
                        pid_file: paths.pid_file@,
                        socket: paths.socket@,
                        cursor: 0,
                        chosen: None,
                        error: None,
                    },
                ),
                false,
            )
        },
    }
}

/// No pane.
pub open spec fn no_pane() -> Pane {
    Pane {
        open: false,
        side: PaneSide::Full,
        focused: false,
        rect: None,
        divider: None,
        body: None,
        dragging: false,
        split: Split { part: 1, whole: 2 },
    }
}

/// Nothing drawn yet.
pub open spec fn blank_screen() -> Screen {
    Screen {
        chat_area: None,
        input_area: None,
        scroll_offset: 0,
        total_lines: 0,
        visible_lines: 0,
        selection: None,
    }
}

/// No overlay.
pub open spec fn no_overlays() -> Overlays {
    Overlays {
        settings: false,
        model_picker: false,
        stats: false,
        sessions: false,
        skills: false,
        plans: false,
        permissions: false,
    }
}

/// The state at launch.
pub open spec fn launched(
    launch: LaunchView,
    settings: Settings,
    llm_mode: LlmMode,
    mouse_capture: bool,
    probe: Option<(DaemonStatus, DaemonPaths)>,
) -> AppView {
    AppView {
        launch,
        editor: EditorView::fresh(!(settings.vim is Disabled)),
        settings,
        work: Work {
            busy: false,
            span_started_at: None,
            working_msg_idx: WORKING_MESSAGE_COUNT,
            reconnect_attempt: None,
            ctrl_c_armed_at: None,
        },
        overlays: no_overlays(),
        pane: no_pane(),
        screen: blank_screen(),
        link: Link {
            daemon_connected: daemon_at_launch(probe).1,
            daemonless: false,
            session_persisted: false,
            draining: false,
            caffeinate_active: false,
            plan_status: PlanStatusCounts { ready: 0, in_progress: 0, interruptions: 0 },
        },
        context: ContextInfo {
            last_usage: None,
            estimate_at_last_usage: 0,
            prunable_tokens: 0,
            cache_cold: true,
            llm_mode,
        },
        requests: Requests {
            prune_confirm: false,
            external_edit: false,
            new_session: false,
            mouse_capture,
        },
        history: Seq::empty(),
        pending: None,
        queued_tag_calls: Seq::empty(),
        pending_edits: Seq::empty(),
        daemon_prompt: daemon_at_launch(probe).0,
        question_dialog: None,
        context_pane: None,
        pending_init: None,
        runner: RunnerView::Absent,
        grid: Seq::empty(),
        cont_rows: Seq::empty(),
        clickable_rows: Seq::empty(),
        box_rows: Seq::empty(),
        entry_rows: Seq::empty(),
        usage_models: Seq::empty(),
        usage_slash: Seq::empty(),
        usage_tags: Seq::empty(),
        project_id: None,
        guidance: None,
        elided: Seq::empty(),
        pending_compact: None,
        pending_stop_confirm: None,
        context_menu: None,
        toast: None,
        pending_git_blocks: Seq::empty(),
        jobs: Seq::empty(),
        side: None,
        prediction: PredictionView::initial(),
        outbox: Seq::empty(),
        pending_usage: Seq::empty(),
    }
}

/// The project of a use that was recorded before it was known. Only tags are
/// counted per project.
pub open spec fn backfilled(u: UsageView, project_id: Seq<char>) -> UsageView {
    if u.kind is Tag && u.project_id is None {
        UsageView { project_id: Some(project_id), ..u }
    } else {
        u
    }
}

/// Counts of uses as the daemon has them.
pub struct ServerUsage {
    pub models: UsageCounts,
    pub slash: UsageCounts,
    pub tags: UsageCounts,
}

impl AppView {
    /// A session may be attached early: there is no runner and no open prompt,
    /// and a daemon of others is believed connected.
    pub open spec fn may_attach(self) -> bool {
        self.runner is Absent && self.daemon_prompt is None && !self.link.daemonless
            && self.link.daemon_connected
    }

    /// The launch state read anew; the repository's state is kept, it is fresher.
    pub open spec fn launch_reloaded(self, fresh: LaunchView) -> AppView {
        AppView {
            launch: LaunchView { repo_status: self.launch.repo_status, ..fresh },
            ..self
        }
    }

    /// The settings read anew.
    #[verifier::opaque]
    pub open spec fn settings_reloaded(self, settings: Settings) -> AppView {
        AppView {
            settings,
            prediction: if settings.predict is Off {
                self.prediction.dropped()
            } else {
                self.prediction
            },
            editor: EditorView {
                composer: if self.editor.composer.vim_enabled == !(settings.vim is Disabled) {
                    self.editor.composer
                } else {
                    self.editor.composer.with_vim(!(settings.vim is Disabled))
                },
                ..self.editor
            },
            ..self
        }
    }

    /// A fresh session.
    #[verifier::opaque]
    pub open spec fn renewed(self, fresh: LaunchView, settings: Settings) -> AppView {
        let v = self.fresh_thread().without_jobs();
        let w = AppView {
            requests: Requests { new_session: false, ..v.requests },
            editor: EditorView {
                prompt_history_cursor: 0,
                staged_draft: None,
                accepted_tags: Seq::empty(),
                ..v.editor
            },
            screen: Screen {
                chat_area: None,
                scroll_offset: 0,
                selection: None,
                ..v.screen
            },
            grid: Seq::empty(),
            cont_rows: Seq::empty(),
            clickable_rows: Seq::empty(),
            box_rows: Seq::empty(),
            entry_rows: Seq::empty(),
            pending_git_blocks: Seq::empty(),
            prediction: v.prediction.next_turn(),
            runner: RunnerView::Absent,
            link: Link { session_persisted: false, ..v.link },
            usage_models: Seq::empty(),
            usage_slash: Seq::empty(),
            usage_tags: Seq::empty(),
            project_id: None,
            pending_usage: Seq::empty(),
            context: ContextInfo {
                last_usage: None,
                estimate_at_last_usage: 0,
                ..v.context
            },
            ..v
        };
        w.launch_reloaded(fresh).settings_reloaded(settings)
    }

    /// A runner adopted: its session is named, what the daemon has counted is
    /// added, and the uses that waited for a runner are sent.
    #[verifier::opaque]
    pub open spec fn adopted(
        self,
        a: AttachedView,
        models: Seq<(Seq<char>, u64)>,
        slash: Seq<(Seq<char>, u64)>,
        tags: Seq<(Seq<char>, u64)>,
        estimate: Option<GuidanceView>,
    ) -> AppView {
        let v = self.named(Some(a.session_id), Some(a.short_id));
        AppView {
            runner: a.live(),
            project_id: Some(a.project_id),
            usage_models: merged_counts(self.usage_models, models),
            usage_slash: merged_counts(self.usage_slash, slash),
            usage_tags: merged_counts(self.usage_tags, tags),
            outbox: self.outbox + self.pending_usage.map_values(
                |u: UsageView| RequestView::RecordUsage(backfilled(u, a.project_id)),
            ),
            pending_usage: Seq::empty(),
            guidance: if estimate is Some && (estimate->0.file is Some
                || estimate->0.system_tokens > 0) {
                estimate
            } else {
                self.guidance
            },
            ..v
        }
    }

    /// The model picker closed.
    #[verifier::opaque]
    pub open spec fn model_chosen(self, fresh: LaunchView, accepted: bool) -> AppView {
        let v = AppView {
            overlays: Overlays { model_picker: false, ..self.overlays },
            ..self
        }.launch_reloaded(fresh);
        let w = match v.launch.active_model {
            Some((p, m)) => if accepted {
                v.usage_recorded(
                    UsageView { kind: UsageKind::Model, key: p + "/"@ + m, project_id: None },
                )
            } else {
                v
            },
            None => v,
        };
        w.said(v.model_summary())
    }

    /// What is said of the active model.
    pub open spec fn model_summary(self) -> Seq<char> {
        match self.launch.active_model {
            Some((p, m)) => "/model: active model is now "@ + p + "/"@ + m + (if
                self.launch.active_model_is_favorite {
                " (★)"@
            } else {
                ""@
            }),
            None => "/model: no active model"@,
        }
    }

    /// A local command that has run.
    pub open spec fn command_ran(
        self,
        label: Seq<char>,
        raw: Seq<char>,
        failed: bool,
    ) -> AppView {
        self.with_entry(
            EntryView::LocalCommand { label, output: capped_lines(plain_text(raw)), failed },
        ).at_newest()
    }

    /// A `git` command that has run; the agent gets to see it with the next
    /// message.
    pub open spec fn git_ran(
        self,
        args: Seq<char>,
        raw: Seq<char>,
        failed: bool,
        capped: Seq<char>,
    ) -> AppView {
        let v = self.command_ran("/git "@ + trim(args), raw, failed);
        AppView {
            pending_git_blocks: v.pending_git_blocks.push(git_block_text(trim(args), capped)),
            ..v
        }
    }

    /// The turn of `/init` begun.
    pub open spec fn init_begun(self, display: Seq<char>, ctx: EventContext) -> AppView {
        self.at_newest().span_drawn(ctx.now, ctx.working_draw).with_entry(
            EntryView::User { text: "/init "@ + display, timestamp: ctx.time },
        )
    }

    /// `/init` asks what to do with a file that is there already.
    #[verifier::opaque]
    pub open spec fn init_asked(
        self,
        display: Seq<char>,
        interrupt_id: u128,
        lockout: u64,
        now: u64,
    ) -> AppView {
        AppView {
            pending_init: Some(InitView { interrupt_id, display }),
            ..self.interrupted(interrupt_id, Seq::empty(), init_questions(display), lockout, now)
        }
    }

    /// The choice of what `/init` does.
    #[verifier::opaque]
    pub open spec fn init_chosen(self, choice: Option<Seq<char>>) -> (AppView, EffectView) {
        match self.pending_init {
            None => (self, EffectView::Stay),
            Some(p) => {
                let v = AppView { pending_init: None, ..self };
                if choice == Some("update"@) {
                    (
                        v,
                        EffectView::StartInit { display: p.display, mode: InitMode::Update },
                    )
                } else if choice == Some("overwrite"@) {
                    (
                        v,
                        EffectView::StartInit { display: p.display, mode: InitMode::Overwrite },
                    )
                } else {
                    (
                        v.said("/init: cancelled — `"@ + p.display + "` left untouched"@),
                        EffectView::Stay,
                    )
                }
            },
        }
    }

    /// `/init`.
    pub open spec fn init_command(self, args: Seq<char>) -> (AppView, EffectView) {
        if self.work.busy {
            (
                self.said("/init: a turn is already running — wait for it to finish"@),
                EffectView::Stay,
            )
        } else {
            (
                self,
                EffectView::FindInitTarget(
                    if trim(args).len() == 0 {
                        None
                    } else {
                        Some(trim(args))
                    },
                ),
            )
        }
    }
}

/// The question of `/init` for a file that is there already.
pub open spec fn init_questions(display: Seq<char>) -> Seq<PageView> {
    seq![
        PageView {
            kind: PageKind::Select,
            prompt: "`"@ + display + "` already exists — how should /init proceed?"@,
            options: seq![
                OptionView {
                    id: "update"@,
                    label: "Update in place"@,
                    description: Some("Revise and extend, preserving accurate content"@),
                },
                OptionView {
                    id: "overwrite"@,
                    label: "Overwrite from scratch"@,
                    description: Some("Replace the file entirely"@),
                },
                OptionView { id: "cancel"@, label: "Cancel"@, description: None },
            ],
        },
    ]
}


fn proposal(id: &str, label: &str, description: Option<String>) -> (r: InterruptOption)
    ensures
        r@ == (OptionView { id: id@, label: label@, description: text_of(description) }),
{
    InterruptOption { id: String::from_str(id), label: String::from_str(label), description }
}

fn init_question(display: &str) -> (r: InterruptQuestionSet)
    ensures
        question_views(r.questions@) == init_questions(display@),
        askable(r),
{
    let mut options: Vec<InterruptOption> = Vec::new();
    options.push(
        proposal(
            "update",
            "Update in place",
            Some(String::from_str("Revise and extend, preserving accurate content")),
        ),
    );
    options.push(
        proposal(
            "overwrite",
            "Overwrite from scratch",
            Some(String::from_str("Replace the file entirely")),
        ),
    );
    options.push(proposal("cancel", "Cancel", None));
    let prompt: String = concat3("`", display, "` already exists — how should /init proceed?");
    let ghost page = init_questions(display@)[0];
    proof {
        assert(proposal_views(options@) =~= page.options);
    }
    let q = InterruptQuestion::Single { prompt, options, allow_freetext: false };
    proof {
        assert(q@ =~= page);
    }
    let mut questions: Vec<InterruptQuestion> = Vec::new();
    questions.push(q);
    proof {
        assert(question_views(questions@) =~= init_questions(display@));
        assert(questions@[0]@.options.len() == 3);
    }
    InterruptQuestionSet { questions }
}

impl App {
    /// The application at launch.
    pub fn new(
        launch: LaunchInfo,
        settings: Settings,
        llm_mode: LlmMode,
        mouse_capture: bool,
        probe: Option<(DaemonStatus, DaemonPaths)>,
    ) -> (r: App)
        ensures
            r.wf(),
            r@ == launched(launch@, settings, llm_mode, mouse_capture, probe),
    {
        let (daemon_prompt, daemon_connected) = match probe {
            None => (None, false),
            Some((status, paths)) => if matches!(status, DaemonStatus::Running) {
                (None, true)
            } else {
                (Some(DaemonPromptDialog::new(status, paths)), false)
            },
        };
        let app = App {
            launch,
            editor: Editor::new(settings.vim.vim_enabled()),
            settings,
            work: Work {
                busy: false,
                span_started_at: None,
                working_msg_idx: WORKING_MESSAGE_COUNT,
                reconnect_attempt: None,
                ctrl_c_armed_at: None,
            },
            overlays: Overlays {
                settings: false,
                model_picker: false,
                stats: false,
                sessions: false,
                skills: false,
                plans: false,
                permissions: false,
            },
            pane: Pane {
                open: false,
                side: PaneSide::Full,
                focused: false,
                rect: None,
                divider: None,
                body: None,
                dragging: false,
                split: Split { part: 1, whole: 2 },
            },
            screen: Screen {
                chat_area: None,
                input_area: None,
                scroll_offset: 0,
                total_lines: 0,
                visible_lines: 0,
                selection: None,
            },
            link: Link {
                daemon_connected,
                daemonless: false,
                session_persisted: false,
                draining: false,
                caffeinate_active: false,
                plan_status: PlanStatusCounts { ready: 0, in_progress: 0, interruptions: 0 },
            },
            context: ContextInfo {
                last_usage: None,
                estimate_at_last_usage: 0,
                prunable_tokens: 0,
                cache_cold: true,
                llm_mode,
            },
            requests: Requests {
                prune_confirm: false,
                external_edit: false,
                new_session: false,
                mouse_capture,
            },
            history: Vec::new(),
            pending: None,
            queued_tag_calls: Vec::new(),
            pending_edits: Vec::new(),
            daemon_prompt,
            question_dialog: None,
            context_pane: None,
            pending_init: None,
            runner: Runner::Absent,
            grid: Vec::new(),
            cont_rows: Vec::new(),
            clickable_rows: Vec::new(),
            box_rows: Vec::new(),
            entry_rows: Vec::new(),
            usage_models: UsageCounts::new(),
            usage_slash: UsageCounts::new(),
            usage_tags: UsageCounts::new(),
            project_id: None,
            guidance: None,
            elided: Vec::new(),
            pending_compact: None,
            pending_stop_confirm: None,
            context_menu: None,
            toast: None,
            pending_git_blocks: Vec::new(),
            jobs: JobTable::new(),
            side: None,
            prediction: PredictionState::new(),
            outbox: Vec::new(),
            pending_usage: Vec::new(),
        };
        proof {
            assert(app@ =~= launched(launch@, settings, llm_mode, mouse_capture, probe));
        }
        app
    }

    /// Take over the launch state read anew.
    pub fn reload_launch_info(&mut self, fresh: LaunchInfo)
        ensures
            old(self).wf() ==> final(self).wf(),
            final(self)@ == old(self)@.launch_reloaded(fresh@),
    {
        let ghost v = self@;
        let mut fresh: LaunchInfo = fresh;
        core::mem::swap(&mut fresh.repo_status, &mut self.launch.repo_status);
        let ghost w = fresh@;
        self.launch = fresh;
        proof {
            assert(self@ =~= (AppView { launch: w, ..v }));
        }
    }

    /// Take over the settings read anew.
    pub fn reload_tui_config(&mut self, settings: Settings)
        requires
            old(self).wf(),
        ensures
            final(self).wf(),
            final(self)@ == old(self)@.settings_reloaded(settings),
    {
        proof {
            reveal(AppView::settings_reloaded);
        }
        let ghost v = self@;
        self.settings = settings;
        if matches!(settings.predict, PredictNextMessage::Off) {
            self.prediction.clear();
        }
        let vim: bool = settings.vim.vim_enabled();
        if self.editor.composer.vim_enabled() != vim {
            self.editor.composer.set_vim_enabled(vim);
        }
        proof {
            assert(self@ =~= v.settings_reloaded(settings));
        }
    }

    fn forget_screen(&mut self)
        ensures
            old(self).wf() ==> final(self).wf(),
            final(self)@ == (AppView {
                screen: Screen {
                    chat_area: None,
                    scroll_offset: 0,
                    selection: None,
                    ..old(self)@.screen
                },
                grid: Seq::empty(),
                cont_rows: Seq::empty(),
                clickable_rows: Seq::empty(),
                box_rows: Seq::empty(),
                entry_rows: Seq::empty(),
                ..old(self)@
            }),
    {
        let ghost v = self@;
        self.screen = Screen {
            chat_area: None,
            scroll_offset: 0,
            selection: None,
            ..self.screen
        };
        self.grid = Vec::new();
        self.cont_rows = Vec::new();
        self.clickable_rows = Vec::new();
        self.box_rows = Vec::new();
        self.entry_rows = Vec::new();
        proof {
            assert(self@ =~= (AppView {
                screen: Screen {
                    chat_area: None,
                    scroll_offset: 0,
                    selection: None,
                    ..v.screen
                },
                grid: Seq::empty(),
                cont_rows: Seq::empty(),
                clickable_rows: Seq::empty(),
                box_rows: Seq::empty(),
                entry_rows: Seq::empty(),
                ..v
            }));
        }
    }

    fn forget_uses(&mut self)
        ensures
            old(self).wf() ==> final(self).wf(),
            final(self)@ == (AppView {
                usage_models: Seq::empty(),
                usage_slash: Seq::empty(),
                usage_tags: Seq::empty(),
                project_id: None,
                pending_usage: Seq::empty(),
                ..old(self)@
            }),
    {
        let ghost v = self@;
        self.usage_models.clear();
        self.usage_slash.clear();
        self.usage_tags.clear();
        self.project_id = None;
        self.pending_usage = Vec::new();
        proof {
            assert(self@ =~= (AppView {
                usage_models: Seq::empty(),
                usage_slash: Seq::empty(),
                usage_tags: Seq::empty(),
                project_id: None,
                pending_usage: Seq::empty(),
                ..v
            }));
        }
    }

    fn forget_drafts(&mut self)
        ensures
            old(self).wf() ==> final(self).wf(),
            final(self)@ == (AppView {
                editor: EditorView {
                    prompt_history_cursor: 0,
                    staged_draft: None,
                    accepted_tags: Seq::empty(),
                    ..old(self)@.editor
                },
                pending_git_blocks: Seq::empty(),
                prediction: old(self)@.prediction.next_turn(),
                ..old(self)@
            }),
    {
        let ghost v = self@;
        self.editor.prompt_history_cursor = 0;
        self.editor.staged_draft = None;
        self.editor.accepted_tags = Vec::new();
        self.pending_git_blocks = Vec::new();
        self.prediction.begin_turn();
        proof {
            assert(texts(self.editor.accepted_tags@) =~= Seq::empty());
            assert(self@ =~= (AppView {
                editor: EditorView {
                    prompt_history_cursor: 0,
                    staged_draft: None,
                    accepted_tags: Seq::empty(),
                    ..v.editor
                },
                pending_git_blocks: Seq::empty(),
                prediction: v.prediction.next_turn(),
                ..v
            }));
        }
    }

    /// Start a fresh session, with the launch state and the settings read anew.
    /// A side conversation is ended before.
    pub fn start_new_session(&mut self, fresh: LaunchInfo, settings: Settings)
        requires
            old(self).wf(),
        ensures
            final(self).wf(),
            final(self)@ == old(self)@.renewed(fresh@, settings),
    {
        proof {
            reveal(AppView::renewed);
        }
        let ghost v = self@;
        self.begin_thread();
        self.forget_jobs();
        self.requests = Requests { new_session: false, ..self.requests };
        self.forget_screen();
        self.forget_drafts();
        self.set_runner(Runner::Absent);
        self.set_persisted(false);
        self.forget_uses();
        self.context = ContextInfo {
            last_usage: None,
            estimate_at_last_usage: 0,
            ..self.context
        };
        self.reload_launch_info(fresh);
        self.reload_tui_config(settings);
    }

    fn flush_uses(&mut self, project_id: &str)
        ensures
            old(self).wf() ==> final(self).wf(),
            final(self)@ == (AppView {
                outbox: old(self)@.outbox + old(self)@.pending_usage.map_values(
                    |u: UsageView| RequestView::RecordUsage(backfilled(u, project_id@)),
                ),
                pending_usage: Seq::empty(),
                ..old(self)@
            }),
    {
        let ghost v = self@;
        let mut waiting: Vec<UsageRecord> = Vec::new();
        core::mem::swap(&mut self.pending_usage, &mut waiting);
        let ghost rows = v.pending_usage.map_values(
            |u: UsageView| RequestView::RecordUsage(backfilled(u, project_id@)),
        );
        let n: usize = waiting.len();
        let mut i: usize = 0;
        proof {
            assert(usage_views(self.pending_usage@) =~= Seq::empty());
            assert(v.outbox + rows.take(0) =~= v.outbox);
            assert(self@ =~= (AppView { pending_usage: Seq::empty(), ..v }));
        }
        while i < n
            invariant
                i <= n == waiting@.len() == rows.len(),
                usage_views(waiting@) == v.pending_usage,
                rows == v.pending_usage.map_values(
                    |u: UsageView| RequestView::RecordUsage(backfilled(u, project_id@)),
                ),
                self@ == (AppView {
                    outbox: v.outbox + rows.take(i as int),
                    pending_usage: Seq::empty(),
                    ..v
                }),
            decreases n - i,
        {
            let w: &UsageRecord = &waiting[i];
            proof {
                assert(v.pending_usage[i as int] == w@);
            }
            let missing: bool = matches!(w.kind, UsageKind::Tag) && w.project_id.is_none();
            let u = UsageRecord {
                kind: w.kind,
                key: w.key.clone(),
                project_id: if missing {
                    Some(String::from_str(project_id))
                } else {
                    w.project_id.clone()
                },
            };
            let ghost before = self@;
            proof {
                assert(u@ == backfilled(w@, project_id@));
            }
            self.request(Request::RecordUsage(u));
            proof {
                assert(rows[i as int] == RequestView::RecordUsage(u@));
                assert(before.outbox.push(rows[i as int]) =~= v.outbox + rows.take(i + 1));
            }
            i = i + 1;
        }
        proof {
            assert(rows.take(i as int) =~= rows);
        }
    }

    fn merge_usage(&mut self, usage: &ServerUsage)
        ensures
            old(self).wf() ==> final(self).wf(),
            final(self)@ == (AppView {
                usage_models: merged_counts(old(self)@.usage_models, usage.models@),
                usage_slash: merged_counts(old(self)@.usage_slash, usage.slash@),
                usage_tags: merged_counts(old(self)@.usage_tags, usage.tags@),
                ..old(self)@
            }),
    {
        let ghost v = self@;
        merge_counts(&mut self.usage_models, &usage.models);
        merge_counts(&mut self.usage_slash, &usage.slash);
        merge_counts(&mut self.usage_tags, &usage.tags);
        proof {
            assert(self@ =~= (AppView {
                usage_models: merged_counts(v.usage_models, usage.models@),
                usage_slash: merged_counts(v.usage_slash, usage.slash@),
                usage_tags: merged_counts(v.usage_tags, usage.tags@),
                ..v
            }));
        }
    }

    fn adopt_estimate(&mut self, estimate: Option<GuidanceEstimate>)
        ensures
            old(self).wf() ==> final(self).wf(),
            final(self)@ == (AppView {
                guidance: if guidance_of(estimate) is Some && (guidance_of(estimate)->0.file
                    is Some || guidance_of(estimate)->0.system_tokens > 0) {
                    guidance_of(estimate)
                } else {
                    old(self)@.guidance
                },
                ..old(self)@
            }),
    {
        let ghost v = self@;
        let useful: bool = match &estimate {
            Some(e) => e.file.is_some() || e.system_tokens > 0,
            None => false,
        };
        if useful {
            self.guidance = estimate;
            proof {
                assert(self@ =~= (AppView { guidance: guidance_of(estimate), ..v }));
            }
        }
    }

    /// Take over a runner that was attached: its session, the daemon's counts of
    /// uses, and its estimate of the guidance file.
    pub fn adopt_runner(
        &mut self,
        a: Attached,
        usage: &ServerUsage,
        estimate: Option<GuidanceEstimate>,
    )
        ensures
            old(self).wf() ==> final(self).wf(),
            final(self)@ == old(self)@.adopted(
                a@,
                usage.models@,
                usage.slash@,
                usage.tags@,
                guidance_of(estimate),
            ),
    {
        proof {
            reveal(AppView::adopted);
        }
        let ghost v = self@;
        self.name_session(Some(a.session_id), Some(a.short_id.clone()));
        self.merge_usage(usage);
        self.set_project(Some(a.project_id.clone()));
        self.flush_uses(a.project_id.as_str());
        self.adopt_estimate(estimate);
        self.set_runner(
            Runner::Live {
                session_id: a.session_id,
                short_id: a.short_id,
                project_id: a.project_id,
            },
        );
        proof {
            assert(self@ =~= v.adopted(
                a@,
                usage.models@,
                usage.slash@,
                usage.tags@,
                guidance_of(estimate),
            ));
        }
    }

    /// Remember that no runner could be started.
    pub fn runner_failed(&mut self, error: String)
        ensures
            old(self).wf() ==> final(self).wf(),
            final(self)@ == (AppView { runner: RunnerView::Failed(error@), ..old(self)@ }),
    {
        self.set_runner(Runner::Failed(error));
    }

    /// How the daemon is reached.
    pub fn lifecycle_mode(&self) -> (r: LifecycleMode)
        ensures
            r == if self@.link.daemonless {
                LifecycleMode::AttachOwnEphemeral
            } else {
                LifecycleMode::AttachOrAutoPromote
            },
    {
        if self.link.daemonless {
            LifecycleMode::AttachOwnEphemeral
        } else {
            LifecycleMode::AttachOrAutoPromote
        }
    }

    /// Whether to attach a session now so that its id can be shown. `probe` is
    /// asked only when everything else permits it.
    pub fn wants_session_for_display<F: FnOnce() -> bool>(&self, probe: F) -> (r: bool)
        requires
            self@.may_attach() ==> probe.requires(()),
        ensures
            !self@.may_attach() ==> !r,
            self@.may_attach() ==> probe.ensures((), r),
    {
        should_attempt_display_attach(
            !matches!(&self.runner, Runner::Absent),
            self.daemon_prompt.is_some(),
            self.link.daemonless,
            self.link.daemon_connected,
            probe,
        )
    }

    /// What is said of the active model.
    pub fn model_summary_history_line(&self) -> (r: String)
        ensures
            r@ == self@.model_summary(),
    {
        match &self.launch.active_model {
            Some((p, m)) => {
                let mut out: String = concat3("/model: active model is now ", p.as_str(), "/");
                out.append(m.as_str());
                out.append(
                    if self.launch.active_model_is_favorite {
                        " (★)"
                    } else {
                        ""
                    },
                );
                out
            },
            None => String::from_str("/model: no active model"),
        }
    }

    /// The model picker closed, with the launch state read anew. An accepted
    /// choice is counted.
    pub fn close_model_picker(&mut self, fresh: LaunchInfo, accepted: bool)
        ensures
            old(self).wf() ==> final(self).wf(),
            final(self)@ == old(self)@.model_chosen(fresh@, accepted),
    {
        proof {
            reveal(AppView::model_chosen);
        }
        self.overlays = Overlays { model_picker: false, ..self.overlays };
        self.reload_launch_info(fresh);
        let line: String = self.model_summary_history_line();
        let key: Option<String> = match &self.launch.active_model {
            Some((p, m)) => if accepted {
                Some(concat3(p.as_str(), "/", m.as_str()))
            } else {
                None
            },
            None => None,
        };
        match key {
            Some(k) => {
                self.record_usage(UsageKind::Model, k, None);
            },
            None => {},
        }
        self.say(line);
    }

    /// `/favorite` marked the active model, or took the mark away.
    pub fn favorite_toggled(&mut self, marked: bool, provider: &str, model: &str, fresh: LaunchInfo)
        ensures
            old(self).wf() ==> final(self).wf(),
            final(self)@ == old(self)@.said(
                "/favorite: "@ + (if marked {
                    "marked "@
                } else {
                    "unmarked "@
                }) + provider@ + "/"@ + model@ + " as favorite"@,
            ).launch_reloaded(fresh@),
    {
        let mut line: String = concat2(
            "/favorite: ",
            if marked {
                "marked "
            } else {
                "unmarked "
            },
        );
        line.append(provider);
        line.append("/");
        line.append(model);
        line.append(" as favorite");
        self.say(line);
        self.reload_launch_info(fresh);
    }

    /// The capture of the mouse was switched, or the terminal refused.
    pub fn mouse_toggled(&mut self, ok: bool, now: u64)
        ensures
            old(self).wf() ==> final(self).wf(),
            final(self)@ == if ok {
                (AppView {
                    requests: Requests {
                        mouse_capture: !old(self)@.requests.mouse_capture,
                        ..old(self)@.requests
                    },
                    ..old(self)@
                }).toasted(
                    "/mouse: capture "@ + (if old(self)@.requests.mouse_capture {
                        "off"@
                    } else {
                        "on"@
                    }) + " (this session only)"@,
                    ToastKind::Info,
                    now as int,
                    TOAST_TTL as int,
                )
            } else {
                old(self)@.toasted(
                    "/mouse: terminal rejected the capture toggle"@,
                    ToastKind::Error,
                    now as int,
                    TOAST_TTL as int,
                )
            },
    {
        if ok {
            let on: bool = !self.requests.mouse_capture;
            self.requests = Requests { mouse_capture: on, ..self.requests };
            let text: String = concat3(
                "/mouse: capture ",
                if on {
                    "on"
                } else {
                    "off"
                },
                " (this session only)",
            );
            self.show_toast(text, ToastKind::Info, now);
        } else {
            self.show_toast(
                String::from_str("/mouse: terminal rejected the capture toggle"),
                ToastKind::Error,
                now,
            );
        }
    }

    /// A pane opened beside the chat, and has the focus.
    pub fn pane_opened(&mut self, side: PaneSide)
        ensures
            old(self).wf() ==> final(self).wf(),
            final(self)@ == (AppView {
                pane: Pane {
                    open: true,
                    side,
                    focused: true,
                    dragging: false,
                    ..old(self)@.pane
                },
                ..old(self)@
            }),
    {
        self.pane = Pane { open: true, side, focused: true, dragging: false, ..self.pane };
    }

    /// The pane closed.
    pub fn close_pane(&mut self)
        ensures
            old(self).wf() ==> final(self).wf(),
            final(self)@ == old(self)@.pane_closed(),
    {
        self.pane = Pane {
            open: false,
            focused: false,
            dragging: false,
            rect: None,
            divider: None,
            ..self.pane
        };
    }

    /// A shell command has run.
    pub fn shell_finished(&mut self, cmd: &str, raw: &str, failed: bool)
        ensures
            old(self).wf() ==> final(self).wf(),
            final(self)@ == if trim(cmd@).len() == 0 {
                old(self)@
            } else {
                old(self)@.command_ran("! "@ + trim(cmd@), raw@, failed)
            },
    {
        let c: String = trimmed(cmd);
        if c.as_str().unicode_len() > 0 {
            self.note_command(concat2("! ", c.as_str()), raw, failed);
        }
    }

    fn note_command(&mut self, label: String, raw: &str, failed: bool)
        ensures
            old(self).wf() ==> final(self).wf(),
            final(self)@ == old(self)@.command_ran(label@, raw@, failed),
    {
        let clean: String = strip_ansi(raw);
        let output: String = cap_display_lines(clean.as_str());
        self.add_entry(HistoryEntry::LocalCommand { label, output, failed });
        self.scroll_to_newest();
    }

    fn keep_git_block(&mut self, block: String)
        ensures
            old(self).wf() ==> final(self).wf(),
            final(self)@ == (AppView {
                pending_git_blocks: old(self)@.pending_git_blocks.push(block@),
                ..old(self)@
            }),
    {
        let ghost v = self@;
        self.pending_git_blocks.push(block);
        proof {
            assert(texts(self.pending_git_blocks@) =~= v.pending_git_blocks.push(block@));
            assert(self@ =~= (AppView {
                pending_git_blocks: v.pending_git_blocks.push(block@),
                ..v
            }));
        }
    }

    /// A `git` command has run. The agent gets to see its output, cut to some
    /// tokens as `count` counts them, with the next message.
    pub fn git_finished<F: Fn(&str) -> usize>(
        &mut self,
        args: &str,
        raw: &str,
        failed: bool,
        count: F,
    )
        requires
            forall|t: &str| #[trigger] count.requires((t,)),
        ensures
            old(self).wf() ==> final(self).wf(),
            exists|capped: Seq<char>|
                capped_by(count, plain_text(raw@), GIT_AGENT_TOKEN_CAP as int, capped)
                    && final(self)@ == #[trigger] old(self)@.git_ran(
                    args@,
                    raw@,
                    failed,
                    capped,
                ),
    {
        let ghost v = self@;
        let a: String = trimmed(args);
        self.note_command(concat2("/git ", a.as_str()), raw, failed);
        let clean: String = strip_ansi(raw);
        let capped: String = cap_tokens(clean.as_str(), GIT_AGENT_TOKEN_CAP, count);
        self.keep_git_block(git_block(a.as_str(), capped.as_str()));
        proof {
            assert(self@ == v.git_ran(args@, raw@, failed, capped@));
        }
    }

    /// `/init`.
    pub fn handle_init_command(&mut self, args: &str) -> (r: Effect)
        ensures
            old(self).wf() ==> final(self).wf(),
            (final(self)@, r@) == old(self)@.init_command(args@),
    {
        if self.work.busy {
            self.say_str("/init: a turn is already running — wait for it to finish");
            return Effect::Stay;
        }
        let a: String = trimmed(args);
        if a.as_str().unicode_len() == 0 {
            Effect::FindInitTarget(None)
        } else {
            Effect::FindInitTarget(Some(a))
        }
    }

    /// Ask what to do with the file of `/init`, under the interrupt id `id`.
    pub fn ask_init(&mut self, display: String, id: u128, lockout: u64, now: u64)
        requires
            old(self).wf(),
        ensures
            final(self).wf(),
            final(self)@ == old(self)@.init_asked(display@, id, lockout, now),
    {
        proof {
            reveal(AppView::init_asked);
        }
        let set: InterruptQuestionSet = init_question(display.as_str());
        self.raise_interrupt_at(id, String::new(), set, lockout, now);
        let ghost v = self@;
        self.pending_init = Some(PendingInit { interrupt_id: id, display });
        proof {
            assert(self@ =~= (AppView {
                pending_init: Some(InitView { interrupt_id: id, display: display@ }),
                ..v
            }));
        }
    }

    /// Ask what to do with the file of `/init`, under a fresh interrupt id.
    pub fn open_init_prompt(&mut self, display: String, lockout: u64, now: u64)
        requires
            old(self).wf(),
        ensures
            final(self).wf(),
            final(self)@.pending_init is Some,
            final(self)@ == old(self)@.init_asked(
                display@,
                final(self)@.pending_init->0.interrupt_id,
                lockout,
                now,
            ),
    {
        let id: u128 = fresh_id();
        self.ask_init(display, id, lockout, now);
        proof {
            reveal(AppView::init_asked);
        }
    }

    /// The choice of what `/init` does.
    pub fn resolve_init_choice(&mut self, selected_id: Option<&str>) -> (r: Effect)
        ensures
            old(self).wf() ==> final(self).wf(),
            (final(self)@, r@) == old(self)@.init_chosen(
                match selected_id {
                    Some(s) => Some(s@),
                    None => None,
                },
            ),
    {
        proof {
            reveal(AppView::init_chosen);
        }
        let ghost v = self@;
        let p: PendingInit = match self.pending_init.take() {
            Some(p) => p,
            None => {
                proof {
                    assert(self@ =~= v);
                }
                return Effect::Stay;
            },
        };
        proof {
            assert(self@ =~= (AppView { pending_init: None, ..v }));
        }
        let update: bool = match selected_id {
            Some(s) => same(s, "update"),
            None => false,
        };
        let overwrite: bool = match selected_id {
            Some(s) => same(s, "overwrite"),
            None => false,
        };
        if update {
            Effect::StartInit { display: p.display, mode: InitMode::Update }
        } else if overwrite {
            Effect::StartInit { display: p.display, mode: InitMode::Overwrite }
        } else {
            self.say(
                concat3("/init: cancelled — `", p.display.as_str(), "` left untouched"),
            );
            Effect::Stay
        }
    }

    /// Begin the turn of `/init`: it is shown as the user's.
    pub fn begin_init_turn(&mut self, display: &str, ctx: EventContext)
        ensures
            old(self).wf() ==> final(self).wf(),
            final(self)@ == old(self)@.init_begun(display@, ctx),
    {
        self.scroll_to_newest();
        self.begin_span(ctx.now, ctx.working_draw);
        self.add_entry(
            HistoryEntry::User { text: concat2("/init ", display), timestamp: ctx.time },
        );
    }

    /// The line about the session that is printed on exit: only a session that
    /// was written down is named.
    pub fn exit_session_line(&self) -> (r: Option<String>)
        ensures
            text_of(r) == if !self@.link.session_persisted {
                None
            } else {
                match self@.launch.session_short_id {
                    Some(s) => Some("session "@ + s),
                    None => match self@.launch.session_id {
                        Some(id) => Some("session "@ + id_form(id)),
                        None => None,
                    },
                }
            },
    {
        if !self.link.session_persisted {
            return None;
        }
        match &self.launch.session_short_id {
            Some(s) => Some(concat2("session ", s.as_str())),
            None => match self.launch.session_id {
                Some(id) => {
                    let t: String = id_text(id);
                    Some(concat2("session ", t.as_str()))
                },
                None => None,
            },
        }
    }

    /// The end of the transcript as it is printed on exit.
    pub fn build_exit_tail_lines(&mut self) -> (r: Vec<String>)
        ensures
            old(self).wf() ==> final(self).wf(),
            final(self)@ == old(self)@.finalized(),
            texts(r@) == exit_tail(
                old(self)@.finalized().history,
                old(self)@.settings.exit_tail_lines as int,
            ),
    {
        self.finalize_pending();
        exit_tail_lines(&self.history, self.settings.exit_tail_lines)
    }
}

impl AppView {
    pub open spec fn pane_closed(self) -> AppView {
        AppView {
            pane: Pane {
                open: false,
                focused: false,
                dragging: false,
                rect: None,
                divider: None,
                ..self.pane
            },
            ..self
        }
    }
}

} // verus!
