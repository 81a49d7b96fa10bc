//! Running slash commands.

use vstd::prelude::*;
use crate::app::command::{pane_side, parse_pane_side, word};
use crate::app::effect::{Effect, EffectView, Panel, copy_effect, copying};
use crate::app::request::{RequestView, UsageKind, UsageView};
use crate::app::session::{label_of_session, session_label};
use crate::app::slash::{Availability, SlashCommand, args_of, slash_args};
use crate::app::state::{App, AppView, Requests, Runner, RunnerView};
use crate::text::{concat2, concat3, decimal, push_decimal, same, trim, trimmed};

verus! {

/// The surroundings of a key: clock, the estimate of the context by
/// [`App::estimate_context_tokens`], which `/prune` tells, and what the machine
/// offers.
#[derive(Debug, Clone, Copy)]
pub struct KeyContext {
    pub now: u64,
    pub estimate: u32,
    pub here: Availability,
}

/// What a command opens.
pub open spec fn panel_of(name: Seq<char>, args: Seq<char>) -> Option<Panel> {
    if name == "settings"@ {
        Some(Panel::Settings)
    } else if name == "model-settings"@ {
        Some(Panel::ModelSettings)
    } else if name == "model"@ {
        Some(Panel::ModelPicker)
    } else if name == "stats"@ {
        Some(Panel::Stats)
    } else if name == "context"@ {
        Some(Panel::Context)
    } else if name == "sessions"@ || name == "resume"@ {
        Some(Panel::Sessions)
    } else if name == "skills"@ {
        Some(Panel::Skills)
    } else if name == "plans"@ {
        Some(
            if trim(args) == "answer"@ {
                Panel::PlanResolver
            } else {
                Panel::Plans
            },
        )
    } else if name == "permissions"@ {
        Some(Panel::Permissions)
    } else {
        None
    }
}

/// What a command opens.
pub fn panel_for(name: &str, args: &str) -> (r: Option<Panel>)
    ensures
        r == panel_of(name@, args@),
{
    if same(name, "settings") {
        Some(Panel::Settings)
    } else if same(name, "model-settings") {
        Some(Panel::ModelSettings)
    } else if same(name, "model") {
        Some(Panel::ModelPicker)
    } else if same(name, "stats") {
        Some(Panel::Stats)
    } else if same(name, "context") {
        Some(Panel::Context)
    } else if same(name, "sessions") || same(name, "resume") {
        Some(Panel::Sessions)
    } else if same(name, "skills") {
        Some(Panel::Skills)
    } else if same(name, "plans") {
        let a: String = trimmed(args);
        Some(
            if same(a.as_str(), "answer") {
                Panel::PlanResolver
            } else {
                Panel::Plans
            },
        )
    } else if same(name, "permissions") {
        Some(Panel::Permissions)
    } else {
        None
    }
}

impl AppView {
    /// `/editor`.
    pub open spec fn editor_command(self, args: Seq<char>, here: Availability) -> (
        AppView,
        EffectView,
    ) {
        if self.pane.open {
            (self, EffectView::Stay)
        } else if !here.editor {
            (self.said("/editor: no `$EDITOR` set"@), EffectView::Stay)
        } else {
            (self, EffectView::OpenEditor(pane_side(word(args))))
        }
    }

    /// `/lazygit`.
    pub open spec fn lazygit_command(self, here: Availability) -> (AppView, EffectView) {
        if self.pane.open {
            (self, EffectView::Stay)
        } else if !here.lazygit {
            (self.said("/lazygit: `lazygit` not found on `PATH`"@), EffectView::Stay)
        } else {
            (self, EffectView::OpenLazygit)
        }
    }

    /// `/git`.
    pub open spec fn git_command(self, args: Seq<char>) -> (AppView, EffectView) {
        if trim(args).len() == 0 {
            (
                self.said("/git: usage `/git <args>` (e.g. `/git status`)"@),
                EffectView::Stay,
            )
        } else {
            (self, EffectView::RunGit(trim(args)))
        }
    }

    /// `/rename`.
    pub open spec fn rename_command(self, args: Seq<char>) -> (AppView, EffectView) {
        if trim(args).len() == 0 {
            (self.said("Usage: `/rename <title>`"@), EffectView::Stay)
        } else {
            match self.current_session() {
                None => (
                    self.said("/rename: no active session yet — send a message first"@),
                    EffectView::Stay,
                ),
                Some(session_id) => (
                    self,
                    EffectView::Rename { session_id, title: trim(args) },
                ),
            }
        }
    }

    /// The short id of the current session.
    pub open spec fn current_short_id(self) -> Seq<char> {
        match self.runner {
            RunnerView::Live { short_id, .. } => short_id,
            _ => match self.launch.session_short_id {
                Some(s) => s,
                None => Seq::empty(),
            },
        }
    }

    /// `/export`.
    pub open spec fn export_command(self, args: Seq<char>) -> (AppView, EffectView) {
        match self.current_session() {
            None => (
                self.said("/export: no active session yet — send a message first"@),
                EffectView::Stay,
            ),
            Some(session_id) => (
                self,
                EffectView::Export {
                    session_id,
                    stem: session_label(self.current_short_id(), session_id),
                    debug: trim(args) == "debug"@,
                },
            ),
        }
    }

    /// The commands that only change the application.
    #[verifier::opaque]
    pub open spec fn plain_command(
        self,
        name: Seq<char>,
        args: Seq<char>,
        ctx: KeyContext,
    ) -> Option<AppView> {
        if name == "new"@ || name == "clear"@ {
            Some(
                AppView { requests: Requests { new_session: true, ..self.requests }, ..self },
            )
        } else if name == "llm-mode"@ {
            Some(self.llm_mode_command(args))
        } else if name == "jobs"@ {
            Some(self.jobs_command(args))
        } else if name == "ps"@ {
            Some(self.ps_command())
        } else if name == "stop"@ {
            Some(self.stop_command(args))
        } else if name == "caffeinate"@ {
            Some(self.caffeinate_command(args))
        } else if name == "compact"@ {
            Some(self.requesting(RequestView::Compact))
        } else if name == "prune"@ {
            Some(self.prune_armed(ctx.estimate))
        } else if name == "pin"@ {
            Some(self.pin_command(args))
        } else if name == "sandbox"@ {
            Some(self.sandbox_command(args))
        } else if name == "plan"@ {
            Some(self.requesting(RequestView::SetAgent { name: "Plan"@ }))
        } else if name == "build"@ {
            Some(self.requesting(RequestView::SetAgent { name: "Build"@ }))
        } else if name == "fork"@ {
            Some(
                self.said(
                    "/fork: stub — the ForkSession RPC is live in the daemon; the TUI re-attach flow on top of it ships in a later cut."@,
                ),
            )
        } else {
            None
        }
    }

    /// The commands that leave something to do outside.
    #[verifier::opaque]
    pub open spec fn outside_command(
        self,
        name: Seq<char>,
        args: Seq<char>,
        ctx: KeyContext,
    ) -> (AppView, EffectView) {
        if name == "exit"@ {
            (self, EffectView::Quit)
        } else if name == "editor"@ {
            self.editor_command(args, ctx.here)
        } else if name == "lazygit"@ {
            self.lazygit_command(ctx.here)
        } else if name == "git"@ {
            self.git_command(args)
        } else if name == "fetch-models"@ {
            (self.said("/fetch-models: starting…"@), EffectView::FetchModels)
        } else if name == "favorite"@ {
            (self, EffectView::ToggleFavorite)
        } else if name == "mouse"@ {
            (self, EffectView::ToggleMouse)
        } else if name == "init"@ {
            self.init_command(args)
        } else if name == "copy"@ {
            (self.copy_command(args, ctx.now).0, copying(self.copy_command(args, ctx.now).1))
        } else if name == "side"@ {
            self.side_command(args)
        } else if name == "rename"@ {
            self.rename_command(args)
        } else if name == "export"@ {
            self.export_command(args)
        } else {
            (self, EffectView::Stay)
        }
    }

    /// A command chosen: the composer is empty again, the use is counted, and the
    /// command runs.
    #[verifier::opaque]
    pub open spec fn slash_run(self, name: Seq<char>, ctx: KeyContext) -> (AppView, EffectView) {
        let args = args_of(self.editor.composer.text);
        let v = (AppView {
            editor: self.editor.cleared().slash_window_reset(),
            ..self
        }).usage_recorded(UsageView { kind: UsageKind::Slash, key: name, project_id: None });
        match panel_of(name, args) {
            Some(p) => (v, EffectView::Open(p)),
            None => match v.plain_command(name, args, ctx) {
                Some(w) => (w, EffectView::Stay),
                None => v.outside_command(name, args, ctx),
            },
        }
    }
}

impl App {
    fn run_outside_command(&mut self, name: &str, args: &str, ctx: KeyContext) -> (r: Effect)
        requires
            old(self).wf(),
        ensures
            final(self).wf(),
            (final(self)@, r@) == old(self)@.outside_command(name@, args@, ctx),
    {
        proof {
            reveal(AppView::outside_command);
        }
        if same(name, "exit") {
            Effect::Quit
        } else if same(name, "editor") {
            self.handle_editor_command(args, ctx.here)
        } else if same(name, "lazygit") {
            self.handle_lazygit_command(ctx.here)
        } else if same(name, "git") {
            self.handle_git_command(args)
        } else if same(name, "fetch-models") {
            self.say_str("/fetch-models: starting…");
            Effect::FetchModels
        } else if same(name, "favorite") {
            Effect::ToggleFavorite
        } else if same(name, "mouse") {
            Effect::ToggleMouse
        } else if same(name, "init") {
            self.handle_init_command(args)
        } else if same(name, "copy") {
            copy_effect(self.handle_copy_command(args, ctx.now))
        } else if same(name, "side") {
            self.handle_side_command(args)
        } else if same(name, "rename") {
            self.handle_rename_command(args)
        } else if same(name, "export") {
            self.handle_export_command(args)
        } else {
            Effect::Stay
        }
    }

    fn run_plain_command(&mut self, name: &str, args: &str, ctx: KeyContext) -> (r: bool)
        requires
            old(self).wf(),
        ensures
            final(self).wf(),
            match old(self)@.plain_command(name@, args@, ctx) {
                Some(v) => r && final(self)@ == v,
                None => !r && final(self)@ == old(self)@,
            },
    {
        proof {
            reveal(AppView::plain_command);
        }
        if same(name, "new") || same(name, "clear") {
            self.requests = Requests { new_session: true, ..self.requests };
        } else if same(name, "llm-mode") {
            self.handle_llm_mode_command(args);
        } else if same(name, "jobs") {
            self.handle_jobs_command(args);
        } else if same(name, "ps") {
            self.handle_ps_command();
        } else if same(name, "stop") {
            self.handle_stop_command(args);
        } else if same(name, "caffeinate") {
            self.handle_caffeinate_command(args);
        } else if same(name, "compact") {
            self.start_compact();
        } else if same(name, "prune") {
            self.arm_prune_confirm(ctx.estimate);
        } else if same(name, "pin") {
            self.handle_pin_command(args);
        } else if same(name, "sandbox") {
            self.handle_sandbox_command(args);
        } else if same(name, "plan") {
            self.swap_primary_agent("Plan");
        } else if same(name, "build") {
            self.swap_primary_agent("Build");
        } else if same(name, "fork") {
            self.say_str(
                "/fork: stub — the ForkSession RPC is live in the daemon; the TUI re-attach flow on top of it ships in a later cut.",
            );
        } else {
            return false;
        }
        true
    }

    /// `/editor`: open the editor in a pane.
    pub fn handle_editor_command(&mut self, args: &str, here: Availability) -> (r: Effect)
        ensures
            old(self).wf() ==> final(self).wf(),
            (final(self)@, r@) == old(self)@.editor_command(args@, here),
    {
        if self.pane.open {
            Effect::Stay
        } else if !here.editor {
            self.say_str("/editor: no `$EDITOR` set");
            Effect::Stay
        } else {
            Effect::OpenEditor(parse_pane_side(args))
        }
    }

    /// `/lazygit`: open lazygit in a pane.
    pub fn handle_lazygit_command(&mut self, here: Availability) -> (r: Effect)
        ensures
            old(self).wf() ==> final(self).wf(),
            (final(self)@, r@) == old(self)@.lazygit_command(here),
    {
        if self.pane.open {
            Effect::Stay
        } else if !here.lazygit {
            self.say_str("/lazygit: `lazygit` not found on `PATH`");
            Effect::Stay
        } else {
            Effect::OpenLazygit
        }
    }

    /// `/git`: run a `git` command.
    pub fn handle_git_command(&mut self, args: &str) -> (r: Effect)
        ensures
            old(self).wf() ==> final(self).wf(),
            (final(self)@, r@) == old(self)@.git_command(args@),
    {
        let a: String = trimmed(args);
        if a.as_str().unicode_len() == 0 {
            self.say_str("/git: usage `/git <args>` (e.g. `/git status`)");
            Effect::Stay
        } else {
            Effect::RunGit(a)
        }
    }

    /// `/rename`: rename the current session.
    pub fn handle_rename_command(&mut self, args: &str) -> (r: Effect)
        ensures
            old(self).wf() ==> final(self).wf(),
            (final(self)@, r@) == old(self)@.rename_command(args@),
    {
        let title: String = trimmed(args);
        if title.as_str().unicode_len() == 0 {
            self.say_str("Usage: `/rename <title>`");
            return Effect::Stay;
        }
        match self.current_session_id() {
            None => {
                self.say_str("/rename: no active session yet — send a message first");
                Effect::Stay
            },
            Some(session_id) => Effect::Rename { session_id, title },
        }
    }

    /// The session was renamed, or could not be.
    pub fn rename_finished(&mut self, title: &str, result: Result<(), String>)
        ensures
            old(self).wf() ==> final(self).wf(),
            final(self)@ == old(self)@.said(
                match result {
                    Ok(_) => "Renamed session to `"@ + title@ + "`"@,
                    Err(e) => "/rename: "@ + e@,
                },
            ),
    {
        match result {
            Ok(_) => {
                self.say(concat3("Renamed session to `", title, "`"));
            },
            Err(e) => {
                self.say(concat2("/rename: ", e.as_str()));
            },
        }
    }

    /// `/export`: export the current session.
    pub fn handle_export_command(&mut self, args: &str) -> (r: Effect)
        ensures
            old(self).wf() ==> final(self).wf(),
            (final(self)@, r@) == old(self)@.export_command(args@),
    {
        let session_id: u128 = match self.current_session_id() {
            None => {
                self.say_str("/export: no active session yet — send a message first");
                return Effect::Stay;
            },
            Some(id) => id,
        };
        let short: String = match &self.runner {
            Runner::Live { short_id, .. } => short_id.clone(),
            _ => match &self.launch.session_short_id {
                Some(s) => s.clone(),
                None => String::new(),
            },
        };
        let stem: String = label_of_session(short.as_str(), session_id);
        let a: String = trimmed(args);
        Effect::Export { session_id, stem, debug: same(a.as_str(), "debug") }
    }

    /// The transcript was exported, or could not be.
    pub fn export_finished(&mut self, result: Result<String, String>)
        ensures
            old(self).wf() ==> final(self).wf(),
            final(self)@ == old(self)@.said(
                match result {
                    Ok(path) => "Exported conversation → "@ + path@,
                    Err(e) => "/export: "@ + e@,
                },
            ),
    {
        match result {
            Ok(path) => {
                self.say(concat2("Exported conversation → ", path.as_str()));
            },
            Err(e) => {
                self.say(concat2("/export: ", e.as_str()));
            },
        }
    }

    /// The bundle for debugging was exported, or could not be.
    pub fn debug_export_finished(
        &mut self,
        result: Result<String, String>,
        sessions: u64,
        bytes: u64,
    )
        ensures
            old(self).wf() ==> final(self).wf(),
            final(self)@ == old(self)@.said(
                match result {
                    Ok(path) => "Exported debug bundle ("@ + decimal(sessions as nat)
                        + " session"@ + (if sessions == 1 {
                        ""@
                    } else {
                        "s"@
                    }) + ", "@ + decimal(bytes as nat) + " bytes) → "@ + path@,
                    Err(e) => "/export debug: "@ + e@,
                },
            ),
    {
        match result {
            Ok(path) => {
                let mut line: String = String::from_str("Exported debug bundle (");
                push_decimal(&mut line, sessions);
                line.append(" session");
                line.append(
                    if sessions == 1 {
                        ""
                    } else {
                        "s"
                    },
                );
                line.append(", ");
                push_decimal(&mut line, bytes);
                line.append(" bytes) → ");
                line.append(path.as_str());
                self.say(line);
            },
            Err(e) => {
                self.say(concat2("/export debug: ", e.as_str()));
            },
        }
    }

    fn clear_slash_line(&mut self)
        requires
            old(self).wf(),
        ensures
            final(self).wf(),
            final(self)@ == (AppView {
                editor: old(self)@.editor.cleared().slash_window_reset(),
                ..old(self)@
            }),
    {
        let ghost v = self@;
        self.editor.clear();
        self.editor.reset_slash_window();
        proof {
            assert(self@ =~= (AppView {
                editor: v.editor.cleared().slash_window_reset(),
                ..v
            }));
        }
    }

    /// Run a slash command with the arguments in the composer.
    pub fn execute_slash(&mut self, cmd: SlashCommand, ctx: KeyContext) -> (r: Effect)
        requires
            old(self).wf(),
        ensures
            final(self).wf(),
            (final(self)@, r@) == old(self)@.slash_run(cmd.name@, ctx),
    {
        proof {
            reveal(AppView::slash_run);
        }
        let raw: String = self.editor.composer.text();
        let args: String = slash_args(raw.as_str());
        self.clear_slash_line();
        self.record_usage(UsageKind::Slash, String::from_str(cmd.name), None);
        match panel_for(cmd.name, args.as_str()) {
            Some(p) => {
                return Effect::Open(p);
            },
            None => {},
        }
        if self.run_plain_command(cmd.name, args.as_str(), ctx) {
            return Effect::Stay;
        }
        self.run_outside_command(cmd.name, args.as_str(), ctx)
    }
}

} // verus!
