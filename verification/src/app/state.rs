//! The state of the application.

use vstd::prelude::*;
use crate::app::command::{EditView, LlmMode, PaneSide, PendingEditArgs};
use crate::app::control::{CTRL_C_EXIT_WINDOW, CtrlCAction, WORKING_MESSAGE_COUNT, choices, ctrl_c, decide_ctrl_c, message_after, next_message, pick_working_msg};
use crate::app::history::{Entries, EntryView, HistoryEntry, Timestamp, entry_views, plain_entry, push_entry, push_plain};
use crate::app::jobs::{JobSeq, JobTable, in_order, session_ids, session_job_ids};
use crate::app::prediction::{PredictionState, PredictionView};
use crate::app::request::{Request, RequestView, UsageRecord, UsageView, request_views, usage_views};
use crate::app::slash::UsageCounts;
use crate::context_menu::{ContextMenu, MenuView, menu_of};
use crate::context_pane::ContextPane;
use crate::daemon_prompt::{DaemonPromptDialog, PromptView};
use crate::dialog::question::{QuestionDialog, QuestionView};
use crate::diff::DiffStyle;
use crate::editor::{Editor, EditorView, text_of};
use crate::geometry::Rect;
use crate::launch::{LaunchInfo, LaunchView, PlanStatusCounts};
use crate::nav::{min_int, monus};
use crate::text::{blank, concat3, is_blank, texts};

verus! {

/// How vim editing is set.
#[derive(Debug, Clone, Copy, PartialEq, Eq, Structural)]
pub enum VimModeSetting {
    /// On, with a hint in Normal mode.
    Hint,
    Enabled,
    Disabled,
}

impl VimModeSetting {
    /// Whether vim editing is on.
    pub fn vim_enabled(self) -> (r: bool)
        ensures
            r == !(self is Disabled),
    {
        !matches!(self, VimModeSetting::Disabled)
    }

    /// Whether the Normal-mode hint shows.
    pub fn show_hint(self) -> (r: bool)
        ensures
            r == (self is Hint),
    {
        matches!(self, VimModeSetting::Hint)
    }
}

/// How the next message is predicted.
#[derive(Debug, Clone, Copy, PartialEq, Eq, Structural)]
pub enum PredictNextMessage {
    Off,
    Short,
    Long,
}

/// The user's settings.
#[derive(Debug, Clone, Copy, PartialEq, Eq, Structural)]
pub struct Settings {
    pub vim: VimModeSetting,
    pub diff_style: DiffStyle,
    pub use_emojis: bool,
    pub agent_markdown: bool,
    pub user_markdown: bool,
    pub exit_tail_lines: i32,
    pub rich_text_copy: bool,
    pub predict: PredictNextMessage,
}

/// A drag selection in the chat, in screen cells `(column, row)`.
#[derive(Debug, Clone, Copy)]
pub struct Selection {
    pub anchor: (u16, u16),
    pub focus: (u16, u16),
    /// The button is still held.
    pub active: bool,
}

/// Kind of a toast.
#[derive(Debug, Clone, Copy, PartialEq, Eq, Structural)]
pub enum ToastKind {
    Success,
    Error,
    Info,
}

/// A short message over the status line.
pub struct Toast {
    pub text: String,
    pub kind: ToastKind,
    /// Milliseconds on the clock of the application.
    pub expires_at: u64,
}

/// Lifetime of a toast in milliseconds.
pub const TOAST_TTL: u64 = 3000;

#[verifier::ext_equal]
pub struct ToastView {
    pub text: Seq<char>,
    pub kind: ToastKind,
    pub expires_at: int,
}

impl View for Toast {
    type V = ToastView;

    open spec fn view(&self) -> ToastView {
        ToastView { text: self.text@, kind: self.kind, expires_at: self.expires_at as int }
    }
}

pub open spec fn toast_of(t: Option<Toast>) -> Option<ToastView> {
    match t {
        Some(t) => Some(t@),
        None => None,
    }
}

/// An answer that is being streamed.
pub struct PendingMsg {
    pub name: String,
    pub text: String,
    pub reasoning: String,
    pub timestamp: Timestamp,
    pub started_at: u64,
    pub text_started_at: Option<u64>,
    pub inside_think: bool,
    pub tag_partial: String,
}

#[verifier::ext_equal]
pub struct PendingView {
    pub name: Seq<char>,
    pub text: Seq<char>,
    pub reasoning: Seq<char>,
    pub timestamp: Timestamp,
    pub started_at: u64,
    pub text_started_at: Option<u64>,
    pub inside_think: bool,
    pub tag_partial: Seq<char>,
}

impl View for PendingMsg {
    type V = PendingView;

    open spec fn view(&self) -> PendingView {
        PendingView {
            name: self.name@,
            text: self.text@,
            reasoning: self.reasoning@,
            timestamp: self.timestamp,
            started_at: self.started_at,
            text_started_at: self.text_started_at,
            inside_think: self.inside_think,
            tag_partial: self.tag_partial@,
        }
    }
}

pub open spec fn pending_of(p: Option<PendingMsg>) -> Option<PendingView> {
    match p {
        Some(p) => Some(p@),
        None => None,
    }
}

/// What became of an `@` tag of a submitted message.
pub struct TagExpansion {
    pub tool: String,
    pub path: String,
    pub ok: bool,
    pub detail: String,
}

#[verifier::ext_equal]
pub struct ExpansionView {
    pub tool: Seq<char>,
    pub path: Seq<char>,
    pub ok: bool,
    pub detail: Seq<char>,
}

impl View for TagExpansion {
    type V = ExpansionView;

    open spec fn view(&self) -> ExpansionView {
        ExpansionView { tool: self.tool@, path: self.path@, ok: self.ok, detail: self.detail@ }
    }
}

pub open spec fn expansion_views(v: Seq<TagExpansion>) -> Seq<ExpansionView> {
    v.map_values(|e: TagExpansion| e@)
}

/// The worker that the application talks to.
pub enum Runner {
    /// None yet.
    Absent,
    /// It could not be started.
    Failed(String),
    /// It is attached to a session.
    Live { session_id: u128, short_id: String, project_id: String },
}

pub enum RunnerView {
    Absent,
    Failed(Seq<char>),
    Live { session_id: u128, short_id: Seq<char>, project_id: Seq<char> },
}

impl View for Runner {
    type V = RunnerView;

    open spec fn view(&self) -> RunnerView {
        match self {
            Runner::Absent => RunnerView::Absent,
            Runner::Failed(e) => RunnerView::Failed(e@),
            Runner::Live { session_id, short_id, project_id } => RunnerView::Live {
                session_id: *session_id,
                short_id: short_id@,
                project_id: project_id@,
            },
        }
    }
}

/// An assembled handoff that waits in the composer.
pub struct PendingCompact {
    pub new_session_id: u128,
    pub seed_tool_count: usize,
    pub seed_tool_tokens: u64,
    pub predecessor_short_id: String,
}

#[verifier::ext_equal]
pub struct CompactView {
    pub new_session_id: u128,
    pub seed_tool_count: nat,
    pub seed_tool_tokens: u64,
    pub predecessor_short_id: Seq<char>,
}

impl View for PendingCompact {
    type V = CompactView;

    open spec fn view(&self) -> CompactView {
        CompactView {
            new_session_id: self.new_session_id,
            seed_tool_count: self.seed_tool_count as nat,
            seed_tool_tokens: self.seed_tool_tokens,
            predecessor_short_id: self.predecessor_short_id@,
        }
    }
}

pub open spec fn compact_of(c: Option<PendingCompact>) -> Option<CompactView> {
    match c {
        Some(c) => Some(c@),
        None => None,
    }
}

/// An `/init` that waits for the choice in the question dialog.
pub struct PendingInit {
    pub interrupt_id: u128,
    pub display: String,
}

#[verifier::ext_equal]
pub struct InitView {
    pub interrupt_id: u128,
    pub display: Seq<char>,
}

impl View for PendingInit {
    type V = InitView;

    open spec fn view(&self) -> InitView {
        InitView { interrupt_id: self.interrupt_id, display: self.display@ }
    }
}

pub open spec fn init_of(i: Option<PendingInit>) -> Option<InitView> {
    match i {
        Some(i) => Some(i@),
        None => None,
    }
}

/// The view of the main session while a side conversation is open.
pub struct SideConversation {
    pub side_session_id: u128,
    pub socket: String,
    pub runner: Runner,
    pub history: Vec<HistoryEntry>,
    pub queue: Vec<String>,
    pub pending: Option<PendingMsg>,
    pub prunable_tokens: u64,
    pub cache_cold: bool,
    pub elided: Vec<String>,
    pub jobs: JobTable,
    pub pending_stop_confirm: Option<Vec<String>>,
    pub chat_scroll_offset: usize,
    pub project_id: Option<String>,
    pub session_id: Option<u128>,
    pub session_short_id: Option<String>,
    pub current_session_persisted: bool,
}

#[verifier::ext_equal]
pub struct SideView {
    pub side_session_id: u128,
    pub socket: Seq<char>,
    pub runner: RunnerView,
    pub history: Entries,
    pub queue: Seq<Seq<char>>,
    pub pending: Option<PendingView>,
    pub prunable_tokens: u64,
    pub cache_cold: bool,
    pub elided: Seq<Seq<char>>,
    pub jobs: JobSeq,
    pub pending_stop_confirm: Option<Seq<Seq<char>>>,
    pub chat_scroll_offset: int,
    pub project_id: Option<Seq<char>>,
    pub session_id: Option<u128>,
    pub session_short_id: Option<Seq<char>>,
    pub current_session_persisted: bool,
}

pub open spec fn list_of(v: Option<Vec<String>>) -> Option<Seq<Seq<char>>> {
    match v {
        Some(v) => Some(texts(v@)),
        None => None,
    }
}

impl View for SideConversation {
    type V = SideView;

    open spec fn view(&self) -> SideView {
        SideView {
            side_session_id: self.side_session_id,
            socket: self.socket@,
            runner: self.runner@,
            history: entry_views(self.history@),
            queue: texts(self.queue@),
            pending: pending_of(self.pending),
            prunable_tokens: self.prunable_tokens,
            cache_cold: self.cache_cold,
            elided: texts(self.elided@),
            jobs: self.jobs@,
            pending_stop_confirm: list_of(self.pending_stop_confirm),
            chat_scroll_offset: self.chat_scroll_offset as int,
            project_id: text_of(self.project_id),
            session_id: self.session_id,
            session_short_id: text_of(self.session_short_id),
            current_session_persisted: self.current_session_persisted,
        }
    }
}

pub open spec fn side_of(s: Option<SideConversation>) -> Option<SideView> {
    match s {
        Some(s) => Some(s@),
        None => None,
    }
}

/// The size of the guidance file and of the system prompt.
pub struct GuidanceEstimate {
    pub file: Option<String>,
    pub guidance_tokens: u64,
    pub system_tokens: u64,
}

#[verifier::ext_equal]
pub struct GuidanceView {
    pub file: Option<Seq<char>>,
    pub guidance_tokens: u64,
    pub system_tokens: u64,
}

pub open spec fn guidance_of(g: Option<GuidanceEstimate>) -> Option<GuidanceView> {
    match g {
        Some(g) => Some(
            GuidanceView {
                file: text_of(g.file),
                guidance_tokens: g.guidance_tokens,
                system_tokens: g.system_tokens,
            },
        ),
        None => None,
    }
}

/// What the agent is doing.
#[derive(Debug, Clone, Copy)]
pub struct Work {
    /// An agent works on a turn, from its submission until it reports idle.
    pub busy: bool,
    pub span_started_at: Option<u64>,
    pub working_msg_idx: usize,
    /// Number of the connection attempt while one is retried.
    pub reconnect_attempt: Option<u32>,
    /// When Ctrl+C was last pressed, while a second press would leave.
    pub ctrl_c_armed_at: Option<u64>,
}

/// Which of the overlays that live outside are open.
#[derive(Debug, Clone, Copy)]
pub struct Overlays {
    pub settings: bool,
    pub model_picker: bool,
    pub stats: bool,
    pub sessions: bool,
    pub skills: bool,
    pub plans: bool,
    pub permissions: bool,
}

/// A share: `part` out of `whole`.
#[derive(Debug, Clone, Copy, PartialEq, Eq, Structural)]
pub struct Split {
    pub part: u32,
    pub whole: u32,
}

/// The embedded pane.
#[derive(Debug, Clone, Copy)]
pub struct Pane {
    pub open: bool,
    pub side: PaneSide,
    pub focused: bool,
    pub rect: Option<Rect>,
    pub divider: Option<Rect>,
    pub body: Option<Rect>,
    pub dragging: bool,
    /// The pane's share of the body.
    pub split: Split,
}

/// The chat and the composer as they were last drawn.
#[derive(Debug, Clone, Copy)]
pub struct Screen {
    pub chat_area: Option<Rect>,
    pub input_area: Option<Rect>,
    /// Lines scrolled back; 0 at the newest.
    pub scroll_offset: usize,
    pub total_lines: usize,
    pub visible_lines: usize,
    pub selection: Option<Selection>,
}

/// What is known of the daemon.
#[derive(Debug, Clone, Copy)]
pub struct Link {
    pub daemon_connected: bool,
    pub daemonless: bool,
    /// The session has been written down: a message was accepted.
    pub session_persisted: bool,
    /// The daemon finishes its work and takes no more.
    pub draining: bool,
    pub caffeinate_active: bool,
    pub plan_status: PlanStatusCounts,
}

/// What is known of the context window.
#[derive(Debug, Clone, Copy)]
pub struct ContextInfo {
    /// Tokens of the last round trip as the provider reports them.
    pub last_usage: Option<u64>,
    pub estimate_at_last_usage: u32,
    pub prunable_tokens: u64,
    pub cache_cold: bool,
    pub llm_mode: LlmMode,
}

/// What is about to happen.
#[derive(Debug, Clone, Copy)]
pub struct Requests {
    /// The next key confirms or cancels `/prune`.
    pub prune_confirm: bool,
    /// The composer's text goes to the editor.
    pub external_edit: bool,
    /// A fresh session starts.
    pub new_session: bool,
    pub mouse_capture: bool,
}

/// The application.
pub struct App {
    pub launch: LaunchInfo,
    pub editor: Editor,
    pub settings: Settings,
    pub work: Work,
    pub overlays: Overlays,
    pub pane: Pane,
    pub screen: Screen,
    pub link: Link,
    pub context: ContextInfo,
    pub requests: Requests,
    pub history: Vec<HistoryEntry>,
    pub pending: Option<PendingMsg>,
    pub queued_tag_calls: Vec<TagExpansion>,
    /// Edits whose result is awaited, by call id.
    pub pending_edits: Vec<(String, PendingEditArgs)>,
    pub daemon_prompt: Option<DaemonPromptDialog>,
    pub question_dialog: Option<QuestionDialog>,
    pub context_pane: Option<ContextPane>,
    pub pending_init: Option<PendingInit>,
    pub runner: Runner,
    /// The cells of the chat as they were last drawn.
    pub grid: Vec<Vec<String>>,
    /// Rows that continue the row before them.
    pub cont_rows: Vec<bool>,
    /// Entries whose reasoning is folded or unfolded by a click on a row.
    pub clickable_rows: Vec<Option<usize>>,
    /// Entries whose tool box a row belongs to.
    pub box_rows: Vec<Option<usize>>,
    /// Entries that the rows show.
    pub entry_rows: Vec<Option<usize>>,
    pub usage_models: UsageCounts,
    pub usage_slash: UsageCounts,
    pub usage_tags: UsageCounts,
    pub project_id: Option<String>,
    pub guidance: Option<GuidanceEstimate>,
    /// Tool results that the model no longer sees.
    pub elided: Vec<String>,
    pub pending_compact: Option<PendingCompact>,
    /// Jobs that the next key stops or keeps.
    pub pending_stop_confirm: Option<Vec<String>>,
    pub context_menu: Option<ContextMenu>,
    pub toast: Option<Toast>,
    pub pending_git_blocks: Vec<String>,
    pub jobs: JobTable,
    pub side: Option<SideConversation>,
    pub prediction: PredictionState,
    /// Requests that are to be sent.
    pub outbox: Vec<Request>,
    /// Uses recorded before there was a runner.
    pub pending_usage: Vec<UsageRecord>,
}

pub open spec fn edit_views(v: Seq<(String, PendingEditArgs)>) -> Seq<(Seq<char>, EditView)> {
    v.map_values(|e: (String, PendingEditArgs)| (e.0@, e.1@))
}

pub open spec fn prompt_of(p: Option<DaemonPromptDialog>) -> Option<PromptView> {
    match p {
        Some(p) => Some(p@),
        None => None,
    }
}

pub open spec fn question_of(q: Option<QuestionDialog>) -> Option<QuestionView> {
    match q {
        Some(q) => Some(q@),
        None => None,
    }
}

/// The rows of cells of a grid.
pub open spec fn grid_views(v: Seq<Vec<String>>) -> Seq<Seq<Seq<char>>> {
    v.map_values(|r: Vec<String>| texts(r@))
}

#[verifier::ext_equal]
pub struct AppView {
    pub launch: LaunchView,
    pub editor: EditorView,
    pub settings: Settings,
    pub work: Work,
    pub overlays: Overlays,
    pub pane: Pane,
    pub screen: Screen,
    pub link: Link,
    pub context: ContextInfo,
    pub requests: Requests,
    pub history: Entries,
    pub pending: Option<PendingView>,
    pub queued_tag_calls: Seq<ExpansionView>,
    pub pending_edits: Seq<(Seq<char>, EditView)>,
    pub daemon_prompt: Option<PromptView>,
    pub question_dialog: Option<QuestionView>,
    pub context_pane: Option<ContextPane>,
    pub pending_init: Option<InitView>,
    pub runner: RunnerView,
    pub grid: Seq<Seq<Seq<char>>>,
    pub cont_rows: Seq<bool>,
    pub clickable_rows: Seq<Option<usize>>,
    pub box_rows: Seq<Option<usize>>,
    pub entry_rows: Seq<Option<usize>>,
    pub usage_models: Seq<(Seq<char>, u64)>,
    pub usage_slash: Seq<(Seq<char>, u64)>,
    pub usage_tags: Seq<(Seq<char>, u64)>,
    pub project_id: Option<Seq<char>>,
    pub guidance: Option<GuidanceView>,
    pub elided: Seq<Seq<char>>,
    pub pending_compact: Option<CompactView>,
    pub pending_stop_confirm: Option<Seq<Seq<char>>>,
    pub context_menu: Option<MenuView>,
    pub toast: Option<ToastView>,
    pub pending_git_blocks: Seq<Seq<char>>,
    pub jobs: JobSeq,
    pub side: Option<SideView>,
    pub prediction: PredictionView,
    pub outbox: Seq<RequestView>,
    pub pending_usage: Seq<UsageView>,
}

impl View for App {
    type V = AppView;

    open spec fn view(&self) -> AppView {
        AppView {
            launch: self.launch@,
            editor: self.editor@,
            settings: self.settings,
            work: self.work,
            overlays: self.overlays,
            pane: self.pane,
            screen: self.screen,
            link: self.link,
            context: self.context,
            requests: self.requests,
            history: entry_views(self.history@),
            pending: pending_of(self.pending),
            queued_tag_calls: expansion_views(self.queued_tag_calls@),
            pending_edits: edit_views(self.pending_edits@),
            daemon_prompt: prompt_of(self.daemon_prompt),
            question_dialog: question_of(self.question_dialog),
            context_pane: self.context_pane,
            pending_init: init_of(self.pending_init),
            runner: self.runner@,
            grid: grid_views(self.grid@),
            cont_rows: self.cont_rows@,
            clickable_rows: self.clickable_rows@,
            box_rows: self.box_rows@,
            entry_rows: self.entry_rows@,
            usage_models: self.usage_models@,
            usage_slash: self.usage_slash@,
            usage_tags: self.usage_tags@,
            project_id: text_of(self.project_id),
            guidance: guidance_of(self.guidance),
            elided: texts(self.elided@),
            pending_compact: compact_of(self.pending_compact),
            pending_stop_confirm: list_of(self.pending_stop_confirm),
            context_menu: menu_of(self.context_menu),
            toast: toast_of(self.toast),
            pending_git_blocks: texts(self.pending_git_blocks@),
            jobs: self.jobs@,
            side: side_of(self.side),
            prediction: self.prediction@,
            outbox: request_views(self.outbox@),
            pending_usage: usage_views(self.pending_usage@),
        }
    }
}

impl AppView {
    /// The editor, the dialogs, the menu and the job tables are well formed.
    pub open spec fn wf(self) -> bool {
        &&& self.editor.wf()
        &&& in_order(self.jobs)
        &&& self.question_dialog is Some ==> self.question_dialog->0.wf()
        &&& self.side is Some ==> in_order(self.side->0.jobs)
        &&& self.context_menu is Some ==> self.context_menu->0.items.len() <= 3
    }

    /// A plain line at the end of the transcript.
    pub open spec fn said(self, line: Seq<char>) -> AppView {
        AppView { history: self.history.push(plain_entry(line)), ..self }
    }

    /// With a request in the outbox.
    pub open spec fn requesting(self, r: RequestView) -> AppView {
        AppView { outbox: self.outbox.push(r), ..self }
    }

    pub open spec fn with_entry(self, e: EntryView) -> AppView {
        AppView { history: self.history.push(e), ..self }
    }

    /// A toast that lasts `ttl` milliseconds from `now`.
    pub open spec fn toasted(
        self,
        text: Seq<char>,
        kind: ToastKind,
        now: int,
        ttl: int,
    ) -> AppView {
        AppView {
            toast: Some(
                ToastView { text, kind, expires_at: min_int(now + ttl, u64::MAX as int) },
            ),
            ..self
        }
    }

    /// A working span that starts at `now` under message `msg`.
    pub open spec fn span_begun(self, now: u64, msg: usize) -> AppView {
        AppView {
            work: Work {
                busy: true,
                span_started_at: Some(now),
                working_msg_idx: msg,
                ..self.work
            },
            ..self
        }
    }

    /// A working span that starts at `now` under the message that `draw` stands
    /// for: never the one of the span before.
    pub open spec fn span_drawn(self, now: u64, draw: usize) -> AppView {
        self.span_begun(
            now,
            next_message(self.work.working_msg_idx as int, draw as int) as usize,
        )
    }

    pub open spec fn span_ended(self) -> AppView {
        AppView { work: Work { busy: false, span_started_at: None, ..self.work }, ..self }
    }

    /// The streamed answer written down: with text it becomes an entry, without
    /// it is dropped.
    pub open spec fn finalized(self) -> AppView {
        match self.pending {
            None => self,
            Some(p) => {
                let text = if p.inside_think {
                    p.text
                } else {
                    p.text + p.tag_partial
                };
                let reasoning = if p.inside_think {
                    p.reasoning + p.tag_partial
                } else {
                    p.reasoning
                };
                let done = AppView { pending: None, ..self };
                if is_blank(text) {
                    done
                } else {
                    done.with_entry(
                        EntryView::Agent {
                            name: p.name,
                            text,
                            reasoning,
                            timestamp: p.timestamp,
                            expanded: false,
                            think_duration: match p.text_started_at {
                                Some(t) => Some(
                                    monus(t as int, p.started_at as int) as u64,
                                ),
                                None => None,
                            },
                        },
                    )
                }
            },
        }
    }

    /// The session that commands are about.
    pub open spec fn current_session(self) -> Option<u128> {
        match self.runner {
            RunnerView::Live { session_id, .. } => Some(session_id),
            _ => self.launch.session_id,
        }
    }

    /// The ids of the current session's jobs.
    pub open spec fn current_jobs(self) -> Seq<Seq<char>> {
        match self.current_session() {
            Some(id) => session_ids(self.jobs, id),
            None => Seq::empty(),
        }
    }
}

/// A submitted tag as the transcript shows it.
pub open spec fn tag_line(e: ExpansionView) -> Seq<char> {
    "  → "@ + e.tool + "("@ + e.path + ") "@ + (if e.ok {
        seq!['✓']
    } else {
        seq!['✗']
    }) + " "@ + e.detail
}

/// The transcript with the tags of a submitted message.
pub open spec fn with_tags(s: Entries, tags: Seq<ExpansionView>) -> Entries {
    s + tags.map_values(|e: ExpansionView| plain_entry(tag_line(e)))
}

// ---- Small operations -----------------------------------------------------

impl App {
    /// See [`AppView::wf`].
    pub open spec fn wf(&self) -> bool {
        self@.wf()
    }

    /// Add a plain line to the transcript.
    pub fn say(&mut self, line: String)
        ensures
            final(self)@ == old(self)@.said(line@),
    {
        push_plain(&mut self.history, line);
        proof {
            assert(self@ =~= old(self)@.said(line@));
        }
    }

    /// Add a plain line to the transcript.
    pub fn say_str(&mut self, line: &str)
        ensures
            final(self)@ == old(self)@.said(line@),
    {
        self.say(String::from_str(line));
    }

    /// Put a request into the outbox.
    pub fn request(&mut self, r: Request)
        ensures
            final(self)@ == old(self)@.requesting(r@),
    {
        let ghost v = self@;
        self.outbox.push(r);
        proof {
            assert(request_views(self.outbox@) =~= v.outbox.push(r@));
            assert(self@ =~= v.requesting(r@));
        }
    }

    /// Show a toast for `ttl` milliseconds.
    fn put_toast(&mut self, text: String, kind: ToastKind, now: u64, ttl: u64)
        ensures
            final(self)@ == old(self)@.toasted(text@, kind, now as int, ttl as int),
    {
        let expires_at: u64 = if now > u64::MAX - ttl {
            u64::MAX
        } else {
            now + ttl
        };
        self.toast = Some(Toast { text, kind, expires_at });
        proof {
            assert(self@ =~= old(self)@.toasted(text@, kind, now as int, ttl as int));
        }
    }

    /// Show a toast for its usual lifetime. The newest replaces an older one.
    pub fn show_toast(&mut self, text: String, kind: ToastKind, now: u64)
        ensures
            final(self)@ == old(self)@.toasted(text@, kind, now as int, TOAST_TTL as int),
    {
        self.put_toast(text, kind, now, TOAST_TTL);
    }

    /// Drop the toast once it has expired.
    pub fn tick_toast(&mut self, now: u64)
        ensures
            final(self)@ == (AppView {
                toast: if old(self)@.toast is Some && now > old(self)@.toast->0.expires_at {
                    None
                } else {
                    old(self)@.toast
                },
                ..old(self)@
            }),
    {
        let expired: bool = match &self.toast {
            Some(t) => now > t.expires_at,
            None => false,
        };
        if expired {
            self.toast = None;
        }
        proof {
            assert(self@ =~= (AppView {
                toast: if old(self)@.toast is Some && now > old(self)@.toast->0.expires_at {
                    None
                } else {
                    old(self)@.toast
                },
                ..old(self)@
            }));
        }
    }

    /// Forget the exit window once it has lapsed.
    pub fn tick_ctrl_c_window(&mut self, now: u64)
        ensures
            final(self)@ == (AppView {
                work: Work {
                    ctrl_c_armed_at: if old(self)@.work.ctrl_c_armed_at is Some && monus(
                        now as int,
                        old(self)@.work.ctrl_c_armed_at->0 as int,
                    ) > CTRL_C_EXIT_WINDOW {
                        None
                    } else {
                        old(self)@.work.ctrl_c_armed_at
                    },
                    ..old(self)@.work
                },
                ..old(self)@
            }),
    {
        let lapsed: bool = match self.work.ctrl_c_armed_at {
            Some(at) => now > at && now - at > CTRL_C_EXIT_WINDOW,
            None => false,
        };
        if lapsed {
            self.work = Work { ctrl_c_armed_at: None, ..self.work };
        }
    }

    fn set_ctrl_c_armed(&mut self, at: Option<u64>)
        ensures
            old(self).wf() ==> final(self).wf(),
            final(self)@ == (AppView {
                work: Work { ctrl_c_armed_at: at, ..old(self)@.work },
                ..old(self)@
            }),
    {
        self.work = Work { ctrl_c_armed_at: at, ..self.work };
    }

    /// Ask for the running turn to be cancelled.
    pub fn interrupt_agent(&mut self)
        ensures
            old(self).wf() ==> final(self).wf(),
            final(self)@ == old(self)@.requesting(RequestView::CancelTurn),
    {
        self.request(Request::CancelTurn);
    }

    /// Say for how long a second Ctrl+C leaves.
    fn show_ctrl_c_hint(&mut self, now: u64)
        ensures
            old(self).wf() ==> final(self).wf(),
            final(self)@ == old(self)@.toasted(
                "Press ctrl+c again to exit"@,
                ToastKind::Info,
                now as int,
                CTRL_C_EXIT_WINDOW as int,
            ),
    {
        self.put_toast(
            String::from_str("Press ctrl+c again to exit"),
            ToastKind::Info,
            now,
            CTRL_C_EXIT_WINDOW,
        );
    }

    /// A Ctrl+C at `now`. Returns whether to leave; unless it leaves, a running
    /// turn is cancelled, and a hint shows for the time in which a second press
    /// would leave.
    pub fn handle_ctrl_c(&mut self, now: u64) -> (r: bool)
        ensures
            old(self).wf() ==> final(self).wf(),
            r == (ctrl_c(
                now as int,
                old(self)@.work.ctrl_c_armed_at,
                CTRL_C_EXIT_WINDOW as int,
                old(self)@.work.busy,
            ).0 is Exit),
            final(self)@ == old(self)@.ctrl_c_pressed(now),
    {
        let (action, armed) = decide_ctrl_c(
            now,
            self.work.ctrl_c_armed_at,
            CTRL_C_EXIT_WINDOW,
            self.work.busy,
        );
        self.set_ctrl_c_armed(armed);
        match action {
            CtrlCAction::Exit => true,
            CtrlCAction::ArmAndInterrupt => {
                self.interrupt_agent();
                self.show_ctrl_c_hint(now);
                false
            },
            CtrlCAction::ArmOnly => {
                self.show_ctrl_c_hint(now);
                false
            },
        }
    }

    /// Start a working span at `now` under the message that `draw` stands for.
    pub fn begin_span(&mut self, now: u64, draw: usize)
        ensures
            final(self)@ == old(self)@.span_drawn(now, draw),
            final(self)@.work.working_msg_idx < WORKING_MESSAGE_COUNT,
            final(self)@.work.working_msg_idx != old(self)@.work.working_msg_idx,
    {
        let msg: usize = message_after(self.work.working_msg_idx, draw);
        self.start_span(now, msg);
    }

    fn start_span(&mut self, now: u64, msg: usize)
        ensures
            final(self)@ == old(self)@.span_begun(now, msg),
    {
        self.work = Work {
            busy: true,
            span_started_at: Some(now),
            working_msg_idx: msg,
            ..self.work
        };
    }

    /// Start a working span at `now` under a random message other than the last.
    pub fn begin_working_span(&mut self, now: u64)
        ensures
            final(self)@ == old(self)@.span_begun(now, final(self)@.work.working_msg_idx),
            final(self)@.work.working_msg_idx < WORKING_MESSAGE_COUNT,
            final(self)@.work.working_msg_idx != old(self)@.work.working_msg_idx,
    {
        let msg: usize = pick_working_msg(self.work.working_msg_idx);
        self.start_span(now, msg);
    }

    /// End the working span.
    pub fn end_working_span(&mut self)
        ensures
            final(self)@ == old(self)@.span_ended(),
    {
        self.work = Work { busy: false, span_started_at: None, ..self.work };
    }

    /// Write the streamed answer down.
    pub fn finalize_pending(&mut self)
        ensures
            final(self)@ == old(self)@.finalized(),
    {
        let ghost v = self@;
        match self.pending.take() {
            None => {},
            Some(p) => {
                let mut text: String = p.text;
                let mut reasoning: String = p.reasoning;
                if p.inside_think {
                    reasoning.append(p.tag_partial.as_str());
                } else {
                    text.append(p.tag_partial.as_str());
                }
                if !blank(text.as_str()) {
                    let think_duration: Option<u64> = match p.text_started_at {
                        Some(t) => Some(
                            if t >= p.started_at {
                                t - p.started_at
                            } else {
                                0
                            },
                        ),
                        None => None,
                    };
                    push_entry(
                        &mut self.history,
                        HistoryEntry::Agent {
                            name: p.name,
                            text,
                            reasoning,
                            timestamp: p.timestamp,
                            expanded: false,
                            think_duration,
                        },
                    );
                }
            },
        }
        proof {
            assert(self@ =~= v.finalized());
        }
    }

    /// The session that commands are about: that of the runner, or the last one
    /// that was attached.
    pub fn current_session_id(&self) -> (r: Option<u128>)
        ensures
            r == self@.current_session(),
    {
        match &self.runner {
            Runner::Live { session_id, .. } => Some(*session_id),
            _ => self.launch.session_id,
        }
    }

    /// The ids of the jobs of the current session.
    pub fn current_session_job_ids(&self) -> (r: Vec<String>)
        ensures
            texts(r@) == self@.current_jobs(),
    {
        match self.current_session_id() {
            Some(id) => session_job_ids(&self.jobs, id),
            None => {
                let v: Vec<String> = Vec::new();
                proof {
                    assert(texts(v@) =~= Seq::empty());
                }
                v
            },
        }
    }

    /// Show the tags of a submitted message in the transcript.
    pub fn push_tag_call_entries(&mut self, expansions: &Vec<TagExpansion>)
        ensures
            final(self)@ == (AppView {
                history: with_tags(old(self)@.history, expansion_views(expansions@)),
                ..old(self)@
            }),
    {
        let ghost v = self@;
        let ghost rows = expansion_views(expansions@).map_values(
            |e: ExpansionView| plain_entry(tag_line(e)),
        );
        let mut i: usize = 0;
        proof {
            assert(v.history + rows.take(0) =~= v.history);
        }
        while i < expansions.len()
            invariant
                i <= expansions@.len() == rows.len(),
                rows == expansion_views(expansions@).map_values(
                    |e: ExpansionView| plain_entry(tag_line(e)),
                ),
                self@ == (AppView { history: v.history + rows.take(i as int), ..v }),
            decreases expansions@.len() - i,
        {
            let e: &TagExpansion = &expansions[i];
            let mut line: String = concat3("  → ", e.tool.as_str(), "(");
            line.append(e.path.as_str());
            line.append(") ");
            let mut mark: String = String::new();
            mark.push(
                if e.ok {
                    '✓'
                } else {
                    '✗'
                },
            );
            proof {
                assert(mark@ =~= if e.ok {
                    seq!['✓']
                } else {
                    seq!['✗']
                });
            }
            line.append(mark.as_str());
            line.append(" ");
            line.append(e.detail.as_str());
            let ghost before = self@;
            self.say(line);
            proof {
                assert(rows[i as int] == plain_entry(line@));
                assert(before.history.push(rows[i as int]) =~= v.history + rows.take(i + 1));
            }
            i = i + 1;
        }
        proof {
            assert(rows.take(i as int) =~= rows);
        }
    }
}

impl AppView {
    /// After a Ctrl+C.
    pub open spec fn ctrl_c_pressed(self, now: u64) -> AppView {
        let (action, armed) = ctrl_c(
            now as int,
            self.work.ctrl_c_armed_at,
            CTRL_C_EXIT_WINDOW as int,
            self.work.busy,
        );
        let v = AppView { work: Work { ctrl_c_armed_at: armed, ..self.work }, ..self };
        if action is Exit {
            v
        } else {
            (if action is ArmAndInterrupt {
                v.requesting(RequestView::CancelTurn)
            } else {
                v
            }).toasted(
                "Press ctrl+c again to exit"@,
                ToastKind::Info,
                now as int,
                CTRL_C_EXIT_WINDOW as int,
            )
        }
    }
}

/// Each working span shows a message, and not the one of the span before.
pub proof fn spans_change_the_message(v: AppView, now: u64, draw: usize)
    ensures
        v.span_drawn(now, draw).work.working_msg_idx < WORKING_MESSAGE_COUNT,
        v.span_drawn(now, draw).work.working_msg_idx != v.work.working_msg_idx,
{
    let prev = v.work.working_msg_idx as int;
    assert(0 <= draw as int % choices(prev) < choices(prev));
}

} // verus!
