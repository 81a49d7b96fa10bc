//! What the slash commands are for.

use vstd::prelude::*;
use crate::app::command::{CaffeinateMode, LlmMode};
use crate::app::effect::{EffectView, Panel, copying};
use crate::app::history::{EntryView, plain_entry};
use crate::app::request::{RequestView, UsageKind, UsageView};
use crate::app::slash::{Availability, args_of, command_names, matches_query, ranking_is_ordered_and_complete};
use crate::app::slash_run::KeyContext;
use crate::app::state::{AppView, Requests, RunnerView, Screen};
use crate::editor::{EditorView, SuggestionView};
use crate::editor_laws::types;
use crate::key::KeyEvent;
use crate::text::{begins_with, is_space, lemma_space_from, lowered, space_from, trim};

verus! {

/// A command that asks exactly one thing of the daemon, behind the record of its use
/// when there is a runner to send it to; it says nothing and leaves nothing to do.
pub open spec fn only_asks(v: AppView, ran: (AppView, EffectView), r: RequestView) -> bool {
    let (after, effect) = ran;
    &&& effect is Stay
    &&& after.history == v.history
    &&& after.outbox.len() == v.outbox.len() + (if v.runner is Live {
        2int
    } else {
        1int
    })
    &&& after.outbox.take(v.outbox.len() as int) == v.outbox
    &&& after.outbox[after.outbox.len() - 1] == r
}

/// A command that asks nothing of the daemon but to record its use, and leaves `effect`
/// to do, having said what `lines` are.
pub open spec fn only_leaves(
    v: AppView,
    ran: (AppView, EffectView),
    effect: EffectView,
    lines: Seq<Seq<char>>,
) -> bool {
    let after = ran.0;
    &&& ran.1 == effect
    &&& after.history.len() == v.history.len() + lines.len()
    &&& after.history.take(v.history.len() as int) == v.history
    &&& forall|i: int|
        0 <= i < lines.len() ==> #[trigger] after.history[v.history.len() + i] == (
        EntryView::Plain { line: lines[i] })
    &&& after.outbox.len() == v.outbox.len() + (if v.runner is Live {
        1int
    } else {
        0int
    })
    &&& after.outbox.take(v.outbox.len() as int) == v.outbox
}

/// Every command empties the composer and counts its use, once.
pub proof fn commands_are_spent_and_counted(v: AppView, name: Seq<char>, ctx: KeyContext)
    ensures
        ({
            let noted = (AppView {
                editor: v.editor.cleared().slash_window_reset(),
                ..v
            }).usage_recorded(UsageView { kind: UsageKind::Slash, key: name, project_id: None });
            &&& noted.editor.composer.text.len() == 0
            &&& noted.editor.blocks().len() == 0
            &&& noted.editor.slash_selected == 0
            &&& noted.history == v.history
            &&& v.runner is Live ==> noted.outbox == v.outbox.push(
                RequestView::RecordUsage(
                    UsageView { kind: UsageKind::Slash, key: name, project_id: None },
                ),
            ) && noted.pending_usage == v.pending_usage
            &&& !(v.runner is Live) ==> noted.outbox == v.outbox && noted.pending_usage
                == v.pending_usage.push(
                UsageView { kind: UsageKind::Slash, key: name, project_id: None },
            )
            &&& noted.usage_models == v.usage_models && noted.usage_tags == v.usage_tags
        }),
{
    reveal(AppView::usage_recorded);
}

/// The words that are told apart: their lengths and first letters.
proof fn lemma_words()
    ensures
        "caffeinate"@.len() == 10,
        "caffeinate"@[0] == 'c',
        "caffeinate"@[1] == 'a',
        "caffeinate"@[2] == 'f',
        "build"@.len() == 5,
        "build"@[0] == 'b',
        "build"@[1] == 'u',
        "build"@[2] == 'i',
        "clear"@.len() == 5,
        "clear"@[0] == 'c',
        "clear"@[1] == 'l',
        "clear"@[2] == 'e',
        "compact"@.len() == 7,
        "compact"@[0] == 'c',
        "compact"@[1] == 'o',
        "compact"@[2] == 'm',
        "context"@.len() == 7,
        "context"@[0] == 'c',
        "context"@[1] == 'o',
        "context"@[2] == 'n',
        "copy"@.len() == 4,
        "copy"@[0] == 'c',
        "copy"@[1] == 'o',
        "copy"@[2] == 'p',
        "editor"@.len() == 6,
        "editor"@[0] == 'e',
        "editor"@[1] == 'd',
        "editor"@[2] == 'i',
        "exit"@.len() == 4,
        "exit"@[0] == 'e',
        "exit"@[1] == 'x',
        "exit"@[2] == 'i',
        "export"@.len() == 6,
        "export"@[0] == 'e',
        "export"@[1] == 'x',
        "export"@[2] == 'p',
        "favorite"@.len() == 8,
        "favorite"@[0] == 'f',
        "favorite"@[1] == 'a',
        "favorite"@[2] == 'v',
        "fetch-models"@.len() == 12,
        "fetch-models"@[0] == 'f',
        "fetch-models"@[1] == 'e',
        "fetch-models"@[2] == 't',
        "fork"@.len() == 4,
        "fork"@[0] == 'f',
        "fork"@[1] == 'o',
        "fork"@[2] == 'r',
        "git"@.len() == 3,
        "git"@[0] == 'g',
        "git"@[1] == 'i',
        "git"@[2] == 't',
        "init"@.len() == 4,
        "init"@[0] == 'i',
        "init"@[1] == 'n',
        "init"@[2] == 'i',
        "jobs"@.len() == 4,
        "jobs"@[0] == 'j',
        "jobs"@[1] == 'o',
        "jobs"@[2] == 'b',
        "lazygit"@.len() == 7,
        "lazygit"@[0] == 'l',
        "lazygit"@[1] == 'a',
        "lazygit"@[2] == 'z',
        "llm-mode"@.len() == 8,
        "llm-mode"@[0] == 'l',
        "llm-mode"@[1] == 'l',
        "llm-mode"@[2] == 'm',
        "model"@.len() == 5,
        "model"@[0] == 'm',
        "model"@[1] == 'o',
        "model"@[2] == 'd',
        "model-settings"@.len() == 14,
        "model-settings"@[0] == 'm',
        "model-settings"@[1] == 'o',
        "model-settings"@[2] == 'd',
        "mouse"@.len() == 5,
        "mouse"@[0] == 'm',
        "mouse"@[1] == 'o',
        "mouse"@[2] == 'u',
        "new"@.len() == 3,
        "new"@[0] == 'n',
        "new"@[1] == 'e',
        "new"@[2] == 'w',
        "permissions"@.len() == 11,
        "permissions"@[0] == 'p',
        "permissions"@[1] == 'e',
        "permissions"@[2] == 'r',
        "pin"@.len() == 3,
        "pin"@[0] == 'p',
        "pin"@[1] == 'i',
        "pin"@[2] == 'n',
        "plan"@.len() == 4,
        "plan"@[0] == 'p',
        "plan"@[1] == 'l',
        "plan"@[2] == 'a',
        "plans"@.len() == 5,
        "plans"@[0] == 'p',
        "plans"@[1] == 'l',
        "plans"@[2] == 'a',
        "prune"@.len() == 5,
        "prune"@[0] == 'p',
        "prune"@[1] == 'r',
        "prune"@[2] == 'u',
        "ps"@.len() == 2,
        "ps"@[0] == 'p',
        "ps"@[1] == 's',
        "rename"@.len() == 6,
        "rename"@[0] == 'r',
        "rename"@[1] == 'e',
        "rename"@[2] == 'n',
        "resume"@.len() == 6,
        "resume"@[0] == 'r',
        "resume"@[1] == 'e',
        "resume"@[2] == 's',
        "sandbox"@.len() == 7,
        "sandbox"@[0] == 's',
        "sandbox"@[1] == 'a',
        "sandbox"@[2] == 'n',
        "sessions"@.len() == 8,
        "sessions"@[0] == 's',
        "sessions"@[1] == 'e',
        "sessions"@[2] == 's',
        "settings"@.len() == 8,
        "settings"@[0] == 's',
        "settings"@[1] == 'e',
        "settings"@[2] == 't',
        "side"@.len() == 4,
        "side"@[0] == 's',
        "side"@[1] == 'i',
        "side"@[2] == 'd',
        "skills"@.len() == 6,
        "skills"@[0] == 's',
        "skills"@[1] == 'k',
        "skills"@[2] == 'i',
        "stats"@.len() == 5,
        "stats"@[0] == 's',
        "stats"@[1] == 't',
        "stats"@[2] == 'a',
        "stop"@.len() == 4,
        "stop"@[0] == 's',
        "stop"@[1] == 't',
        "stop"@[2] == 'o',
        ""@.len() == 0,
        "on"@.len() == 2,
        "on"@[0] == 'o',
        "on"@[1] == 'n',
        "off"@.len() == 3,
        "off"@[0] == 'o',
        "off"@[1] == 'f',
        "off"@[2] == 'f',
        "toggle"@.len() == 6,
        "toggle"@[0] == 't',
        "toggle"@[1] == 'o',
        "toggle"@[2] == 'g',
        "until-idle"@.len() == 10,
        "until-idle"@[0] == 'u',
        "until-idle"@[1] == 'n',
        "until-idle"@[2] == 't',
        "defend"@.len() == 6,
        "defend"@[0] == 'd',
        "defend"@[1] == 'e',
        "defend"@[2] == 'f',
        "defensive"@.len() == 9,
        "defensive"@[0] == 'd',
        "defensive"@[1] == 'e',
        "defensive"@[2] == 'f',
        "normal"@.len() == 6,
        "normal"@[0] == 'n',
        "normal"@[1] == 'o',
        "normal"@[2] == 'r',
        "left"@.len() == 4,
        "left"@[0] == 'l',
        "left"@[1] == 'e',
        "left"@[2] == 'f',
        "right"@.len() == 5,
        "right"@[0] == 'r',
        "right"@[1] == 'i',
        "right"@[2] == 'g',
        "top"@.len() == 3,
        "top"@[0] == 't',
        "top"@[1] == 'o',
        "top"@[2] == 'p',
        "up"@.len() == 2,
        "up"@[0] == 'u',
        "up"@[1] == 'p',
        "bottom"@.len() == 6,
        "bottom"@[0] == 'b',
        "bottom"@[1] == 'o',
        "bottom"@[2] == 't',
        "down"@.len() == 4,
        "down"@[0] == 'd',
        "down"@[1] == 'o',
        "down"@[2] == 'w',
        "Plan"@.len() == 4,
        "Plan"@[0] == 'P',
        "Plan"@[1] == 'l',
        "Plan"@[2] == 'a',
        "Build"@.len() == 5,
        "Build"@[0] == 'B',
        "Build"@[1] == 'u',
        "Build"@[2] == 'i',
        "answer"@.len() == 6,
        "answer"@[0] == 'a',
        "answer"@[1] == 'n',
        "answer"@[2] == 's',
        "debug"@.len() == 5,
        "debug"@[0] == 'd',
        "debug"@[1] == 'e',
        "debug"@[2] == 'b',
{
    reveal_strlit("caffeinate");
    reveal_strlit("build");
    reveal_strlit("clear");
    reveal_strlit("compact");
    reveal_strlit("context");
    reveal_strlit("copy");
    reveal_strlit("editor");
    reveal_strlit("exit");
    reveal_strlit("export");
    reveal_strlit("favorite");
    reveal_strlit("fetch-models");
    reveal_strlit("fork");
    reveal_strlit("git");
    reveal_strlit("init");
    reveal_strlit("jobs");
    reveal_strlit("lazygit");
    reveal_strlit("llm-mode");
    reveal_strlit("model");
    reveal_strlit("model-settings");
    reveal_strlit("mouse");
    reveal_strlit("new");
    reveal_strlit("permissions");
    reveal_strlit("pin");
    reveal_strlit("plan");
    reveal_strlit("plans");
    reveal_strlit("prune");
    reveal_strlit("ps");
    reveal_strlit("rename");
    reveal_strlit("resume");
    reveal_strlit("sandbox");
    reveal_strlit("sessions");
    reveal_strlit("settings");
    reveal_strlit("side");
    reveal_strlit("skills");
    reveal_strlit("stats");
    reveal_strlit("stop");
    reveal_strlit("");
    reveal_strlit("on");
    reveal_strlit("off");
    reveal_strlit("toggle");
    reveal_strlit("until-idle");
    reveal_strlit("defend");
    reveal_strlit("defensive");
    reveal_strlit("normal");
    reveal_strlit("left");
    reveal_strlit("right");
    reveal_strlit("top");
    reveal_strlit("up");
    reveal_strlit("bottom");
    reveal_strlit("down");
    reveal_strlit("Plan");
    reveal_strlit("Build");
    reveal_strlit("answer");
    reveal_strlit("debug");
}

/// The application when a command was chosen: its use is noted and the line is gone.
spec fn noted(v: AppView, name: Seq<char>) -> AppView {
    (AppView { editor: v.editor.cleared().slash_window_reset(), ..v }).usage_recorded(
        UsageView { kind: UsageKind::Slash, key: name, project_id: None },
    )
}

proof fn lemma_noted(v: AppView, name: Seq<char>)
    ensures
        ({
            let w = noted(v, name);
            &&& w.history == v.history
            &&& w.runner == v.runner
            &&& w.pane == v.pane
            &&& w.launch == v.launch
            &&& w.context == v.context
            &&& w.jobs == v.jobs
            &&& w.requests == v.requests
            &&& w.outbox.len() == v.outbox.len() + (if v.runner is Live {
                1int
            } else {
                0int
            })
            &&& w.outbox.take(v.outbox.len() as int) == v.outbox
        }),
{
    reveal(AppView::usage_recorded);
    assert(noted(v, name).outbox.take(v.outbox.len() as int) =~= v.outbox);
}

proof fn lemma_only_leaves(v: AppView, w: AppView, ran: (AppView, EffectView), lines: Seq<Seq<char>>)
    requires
        w.history == v.history,
        w.outbox.len() == v.outbox.len() + (if v.runner is Live {
            1int
        } else {
            0int
        }),
        w.outbox.take(v.outbox.len() as int) == v.outbox,
        ran.0.outbox == w.outbox,
        ran.0.history == w.history + lines.map_values(|l: Seq<char>| plain_entry(l)),
    ensures
        only_leaves(v, ran, ran.1, lines),
{
    assert(ran.0.history.take(v.history.len() as int) =~= v.history);
}

proof fn lemma_only_asks(v: AppView, w: AppView, ran: (AppView, EffectView), r: RequestView)
    requires
        w.history == v.history,
        w.outbox.len() == v.outbox.len() + (if v.runner is Live {
            1int
        } else {
            0int
        }),
        w.outbox.take(v.outbox.len() as int) == v.outbox,
        ran == (w.requesting(r), EffectView::Stay),
    ensures
        only_asks(v, ran, r),
{
    assert(ran.0.outbox.take(v.outbox.len() as int) =~= v.outbox);
}

proof fn lemma_run_settings(v: AppView, ctx: KeyContext)
    ensures
        ({
            let args = args_of(v.editor.composer.text);
            let w = noted(v, "settings"@);
            v.slash_run("settings"@, ctx) == (w, EffectView::Open(Panel::Settings))
        }),
{
    lemma_words();
    reveal(AppView::slash_run);
    reveal(AppView::plain_command);
    reveal(AppView::outside_command);
}

proof fn lemma_run_model_settings(v: AppView, ctx: KeyContext)
    ensures
        ({
            let args = args_of(v.editor.composer.text);
            let w = noted(v, "model-settings"@);
            v.slash_run("model-settings"@, ctx) == (w, EffectView::Open(Panel::ModelSettings))
        }),
{
    lemma_words();
    reveal(AppView::slash_run);
    reveal(AppView::plain_command);
    reveal(AppView::outside_command);
}

proof fn lemma_run_model(v: AppView, ctx: KeyContext)
    ensures
        ({
            let args = args_of(v.editor.composer.text);
            let w = noted(v, "model"@);
            v.slash_run("model"@, ctx) == (w, EffectView::Open(Panel::ModelPicker))
        }),
{
    lemma_words();
    reveal(AppView::slash_run);
    reveal(AppView::plain_command);
    reveal(AppView::outside_command);
}

proof fn lemma_run_stats(v: AppView, ctx: KeyContext)
    ensures
        ({
            let args = args_of(v.editor.composer.text);
            let w = noted(v, "stats"@);
            v.slash_run("stats"@, ctx) == (w, EffectView::Open(Panel::Stats))
        }),
{
    lemma_words();
    reveal(AppView::slash_run);
    reveal(AppView::plain_command);
    reveal(AppView::outside_command);
}

proof fn lemma_run_context(v: AppView, ctx: KeyContext)
    ensures
        ({
            let args = args_of(v.editor.composer.text);
            let w = noted(v, "context"@);
            v.slash_run("context"@, ctx) == (w, EffectView::Open(Panel::Context))
        }),
{
    lemma_words();
    reveal(AppView::slash_run);
    reveal(AppView::plain_command);
    reveal(AppView::outside_command);
}

proof fn lemma_run_sessions(v: AppView, ctx: KeyContext)
    ensures
        ({
            let args = args_of(v.editor.composer.text);
            let w = noted(v, "sessions"@);
            v.slash_run("sessions"@, ctx) == (w, EffectView::Open(Panel::Sessions))
        }),
{
    lemma_words();
    reveal(AppView::slash_run);
    reveal(AppView::plain_command);
    reveal(AppView::outside_command);
}

proof fn lemma_run_resume(v: AppView, ctx: KeyContext)
    ensures
        ({
            let args = args_of(v.editor.composer.text);
            let w = noted(v, "resume"@);
            v.slash_run("resume"@, ctx) == (w, EffectView::Open(Panel::Sessions))
        }),
{
    lemma_words();
    reveal(AppView::slash_run);
    reveal(AppView::plain_command);
    reveal(AppView::outside_command);
}

proof fn lemma_run_skills(v: AppView, ctx: KeyContext)
    ensures
        ({
            let args = args_of(v.editor.composer.text);
            let w = noted(v, "skills"@);
            v.slash_run("skills"@, ctx) == (w, EffectView::Open(Panel::Skills))
        }),
{
    lemma_words();
    reveal(AppView::slash_run);
    reveal(AppView::plain_command);
    reveal(AppView::outside_command);
}

proof fn lemma_run_permissions(v: AppView, ctx: KeyContext)
    ensures
        ({
            let args = args_of(v.editor.composer.text);
            let w = noted(v, "permissions"@);
            v.slash_run("permissions"@, ctx) == (w, EffectView::Open(Panel::Permissions))
        }),
{
    lemma_words();
    reveal(AppView::slash_run);
    reveal(AppView::plain_command);
    reveal(AppView::outside_command);
}

proof fn lemma_run_plans(v: AppView, ctx: KeyContext)
    ensures
        ({
            let args = args_of(v.editor.composer.text);
            let w = noted(v, "plans"@);
            v.slash_run("plans"@, ctx) == (
            w,
            EffectView::Open(
                if trim(args) == "answer"@ {
                    Panel::PlanResolver
                } else {
                    Panel::Plans
                },
            ),
        )
        }),
{
    lemma_words();
    reveal(AppView::slash_run);
    reveal(AppView::plain_command);
    reveal(AppView::outside_command);
}

proof fn lemma_run_new(v: AppView, ctx: KeyContext)
    ensures
        ({
            let args = args_of(v.editor.composer.text);
            let w = noted(v, "new"@);
            v.slash_run("new"@, ctx) == (AppView { requests: Requests { new_session: true, ..w.requests }, ..w }, EffectView::Stay)
        }),
{
    lemma_words();
    reveal(AppView::slash_run);
    reveal(AppView::plain_command);
    reveal(AppView::outside_command);
}

proof fn lemma_run_clear(v: AppView, ctx: KeyContext)
    ensures
        ({
            let args = args_of(v.editor.composer.text);
            let w = noted(v, "clear"@);
            v.slash_run("clear"@, ctx) == (AppView { requests: Requests { new_session: true, ..w.requests }, ..w }, EffectView::Stay)
        }),
{
    lemma_words();
    reveal(AppView::slash_run);
    reveal(AppView::plain_command);
    reveal(AppView::outside_command);
}

proof fn lemma_run_llm_mode(v: AppView, ctx: KeyContext)
    ensures
        ({
            let args = args_of(v.editor.composer.text);
            let w = noted(v, "llm-mode"@);
            v.slash_run("llm-mode"@, ctx) == (w.llm_mode_command(args), EffectView::Stay)
        }),
{
    lemma_words();
    reveal(AppView::slash_run);
    reveal(AppView::plain_command);
    reveal(AppView::outside_command);
}

proof fn lemma_run_caffeinate(v: AppView, ctx: KeyContext)
    ensures
        ({
            let args = args_of(v.editor.composer.text);
            let w = noted(v, "caffeinate"@);
            v.slash_run("caffeinate"@, ctx) == (w.caffeinate_command(args), EffectView::Stay)
        }),
{
    lemma_words();
    reveal(AppView::slash_run);
    reveal(AppView::plain_command);
    reveal(AppView::outside_command);
}

proof fn lemma_run_compact(v: AppView, ctx: KeyContext)
    ensures
        ({
            let args = args_of(v.editor.composer.text);
            let w = noted(v, "compact"@);
            v.slash_run("compact"@, ctx) == (w.requesting(RequestView::Compact), EffectView::Stay)
        }),
{
    lemma_words();
    reveal(AppView::slash_run);
    reveal(AppView::plain_command);
    reveal(AppView::outside_command);
}

proof fn lemma_run_pin(v: AppView, ctx: KeyContext)
    ensures
        ({
            let args = args_of(v.editor.composer.text);
            let w = noted(v, "pin"@);
            v.slash_run("pin"@, ctx) == (w.pin_command(args), EffectView::Stay)
        }),
{
    lemma_words();
    reveal(AppView::slash_run);
    reveal(AppView::plain_command);
    reveal(AppView::outside_command);
}

proof fn lemma_run_sandbox(v: AppView, ctx: KeyContext)
    ensures
        ({
            let args = args_of(v.editor.composer.text);
            let w = noted(v, "sandbox"@);
            v.slash_run("sandbox"@, ctx) == (w.sandbox_command(args), EffectView::Stay)
        }),
{
    lemma_words();
    reveal(AppView::slash_run);
    reveal(AppView::plain_command);
    reveal(AppView::outside_command);
}

proof fn lemma_run_plan(v: AppView, ctx: KeyContext)
    ensures
        ({
            let args = args_of(v.editor.composer.text);
            let w = noted(v, "plan"@);
            v.slash_run("plan"@, ctx) == (w.requesting(RequestView::SetAgent { name: "Plan"@ }), EffectView::Stay)
        }),
{
    lemma_words();
    reveal(AppView::slash_run);
    reveal(AppView::plain_command);
    reveal(AppView::outside_command);
}

proof fn lemma_run_build(v: AppView, ctx: KeyContext)
    ensures
        ({
            let args = args_of(v.editor.composer.text);
            let w = noted(v, "build"@);
            v.slash_run("build"@, ctx) == (w.requesting(RequestView::SetAgent { name: "Build"@ }), EffectView::Stay)
        }),
{
    lemma_words();
    reveal(AppView::slash_run);
    reveal(AppView::plain_command);
    reveal(AppView::outside_command);
}

proof fn lemma_run_jobs(v: AppView, ctx: KeyContext)
    ensures
        ({
            let args = args_of(v.editor.composer.text);
            let w = noted(v, "jobs"@);
            v.slash_run("jobs"@, ctx) == (w.jobs_command(args), EffectView::Stay)
        }),
{
    lemma_words();
    reveal(AppView::slash_run);
    reveal(AppView::plain_command);
    reveal(AppView::outside_command);
}

proof fn lemma_run_ps(v: AppView, ctx: KeyContext)
    ensures
        ({
            let args = args_of(v.editor.composer.text);
            let w = noted(v, "ps"@);
            v.slash_run("ps"@, ctx) == (w.ps_command(), EffectView::Stay)
        }),
{
    lemma_words();
    reveal(AppView::slash_run);
    reveal(AppView::plain_command);
    reveal(AppView::outside_command);
}

proof fn lemma_run_stop(v: AppView, ctx: KeyContext)
    ensures
        ({
            let args = args_of(v.editor.composer.text);
            let w = noted(v, "stop"@);
            v.slash_run("stop"@, ctx) == (w.stop_command(args), EffectView::Stay)
        }),
{
    lemma_words();
    reveal(AppView::slash_run);
    reveal(AppView::plain_command);
    reveal(AppView::outside_command);
}

proof fn lemma_run_prune(v: AppView, ctx: KeyContext)
    ensures
        ({
            let args = args_of(v.editor.composer.text);
            let w = noted(v, "prune"@);
            v.slash_run("prune"@, ctx) == (w.prune_armed(ctx.estimate), EffectView::Stay)
        }),
{
    lemma_words();
    reveal(AppView::slash_run);
    reveal(AppView::plain_command);
    reveal(AppView::outside_command);
}

proof fn lemma_run_exit(v: AppView, ctx: KeyContext)
    ensures
        ({
            let args = args_of(v.editor.composer.text);
            let w = noted(v, "exit"@);
            v.slash_run("exit"@, ctx) == (w, EffectView::Quit)
        }),
{
    lemma_words();
    reveal(AppView::slash_run);
    reveal(AppView::plain_command);
    reveal(AppView::outside_command);
}

proof fn lemma_run_editor(v: AppView, ctx: KeyContext)
    ensures
        ({
            let args = args_of(v.editor.composer.text);
            let w = noted(v, "editor"@);
            v.slash_run("editor"@, ctx) == w.editor_command(args, ctx.here)
        }),
{
    lemma_words();
    reveal(AppView::slash_run);
    reveal(AppView::plain_command);
    reveal(AppView::outside_command);
}

proof fn lemma_run_lazygit(v: AppView, ctx: KeyContext)
    ensures
        ({
            let args = args_of(v.editor.composer.text);
            let w = noted(v, "lazygit"@);
            v.slash_run("lazygit"@, ctx) == w.lazygit_command(ctx.here)
        }),
{
    lemma_words();
    reveal(AppView::slash_run);
    reveal(AppView::plain_command);
    reveal(AppView::outside_command);
}

proof fn lemma_run_git(v: AppView, ctx: KeyContext)
    ensures
        ({
            let args = args_of(v.editor.composer.text);
            let w = noted(v, "git"@);
            v.slash_run("git"@, ctx) == w.git_command(args)
        }),
{
    lemma_words();
    reveal(AppView::slash_run);
    reveal(AppView::plain_command);
    reveal(AppView::outside_command);
}

proof fn lemma_run_fetch_models(v: AppView, ctx: KeyContext)
    ensures
        ({
            let args = args_of(v.editor.composer.text);
            let w = noted(v, "fetch-models"@);
            v.slash_run("fetch-models"@, ctx) == (w.said("/fetch-models: starting…"@), EffectView::FetchModels)
        }),
{
    lemma_words();
    reveal(AppView::slash_run);
    reveal(AppView::plain_command);
    reveal(AppView::outside_command);
}

proof fn lemma_run_favorite(v: AppView, ctx: KeyContext)
    ensures
        ({
            let args = args_of(v.editor.composer.text);
            let w = noted(v, "favorite"@);
            v.slash_run("favorite"@, ctx) == (w, EffectView::ToggleFavorite)
        }),
{
    lemma_words();
    reveal(AppView::slash_run);
    reveal(AppView::plain_command);
    reveal(AppView::outside_command);
}

proof fn lemma_run_mouse(v: AppView, ctx: KeyContext)
    ensures
        ({
            let args = args_of(v.editor.composer.text);
            let w = noted(v, "mouse"@);
            v.slash_run("mouse"@, ctx) == (w, EffectView::ToggleMouse)
        }),
{
    lemma_words();
    reveal(AppView::slash_run);
    reveal(AppView::plain_command);
    reveal(AppView::outside_command);
}

proof fn lemma_run_rename(v: AppView, ctx: KeyContext)
    ensures
        ({
            let args = args_of(v.editor.composer.text);
            let w = noted(v, "rename"@);
            v.slash_run("rename"@, ctx) == w.rename_command(args)
        }),
{
    lemma_words();
    reveal(AppView::slash_run);
    reveal(AppView::plain_command);
    reveal(AppView::outside_command);
}

proof fn lemma_run_export(v: AppView, ctx: KeyContext)
    ensures
        ({
            let args = args_of(v.editor.composer.text);
            let w = noted(v, "export"@);
            v.slash_run("export"@, ctx) == w.export_command(args)
        }),
{
    lemma_words();
    reveal(AppView::slash_run);
    reveal(AppView::plain_command);
    reveal(AppView::outside_command);
}

proof fn lemma_run_init(v: AppView, ctx: KeyContext)
    ensures
        ({
            let args = args_of(v.editor.composer.text);
            let w = noted(v, "init"@);
            v.slash_run("init"@, ctx) == w.init_command(args)
        }),
{
    lemma_words();
    reveal(AppView::slash_run);
    reveal(AppView::plain_command);
    reveal(AppView::outside_command);
}

proof fn lemma_run_side(v: AppView, ctx: KeyContext)
    ensures
        ({
            let args = args_of(v.editor.composer.text);
            let w = noted(v, "side"@);
            v.slash_run("side"@, ctx) == w.side_command(args)
        }),
{
    lemma_words();
    reveal(AppView::slash_run);
    reveal(AppView::plain_command);
    reveal(AppView::outside_command);
}

proof fn lemma_run_copy(v: AppView, ctx: KeyContext)
    ensures
        ({
            let args = args_of(v.editor.composer.text);
            let w = noted(v, "copy"@);
            v.slash_run("copy"@, ctx) == (w.copy_command(args, ctx.now).0, copying(w.copy_command(args, ctx.now).1))
        }),
{
    lemma_words();
    reveal(AppView::slash_run);
    reveal(AppView::plain_command);
    reveal(AppView::outside_command);
}

/// `/plan` asks for the agent called Plan and `/build` for the one called Build: they
/// never ask for the same.
pub proof fn agents_are_switched_by_name(v: AppView, ctx: KeyContext)
    ensures
        only_asks(v, v.slash_run("plan"@, ctx), RequestView::SetAgent { name: "Plan"@ }),
        only_asks(v, v.slash_run("build"@, ctx), RequestView::SetAgent { name: "Build"@ }),
        "Plan"@ != "Build"@,

{
    lemma_words();
    reveal_strlit("Plan");
    reveal_strlit("Build");
    let w_plan = noted(v, "plan"@);
    let r_plan = v.slash_run("plan"@, ctx);
    lemma_run_plan(v, ctx);
    lemma_noted(v, "plan"@);
    let w_build = noted(v, "build"@);
    let r_build = v.slash_run("build"@, ctx);
    lemma_run_build(v, ctx);
    lemma_noted(v, "build"@);
    lemma_only_asks(v, w_plan, r_plan, RequestView::SetAgent { name: "Plan"@ });
    lemma_only_asks(v, w_build, r_build, RequestView::SetAgent { name: "Build"@ });
}

/// `/compact` asks for a handoff, `/pin` for its text to be kept, `/sandbox`,
/// `/caffeinate` and `/llm-mode` for the state that their argument names.
pub proof fn requests_go_to_the_daemon(v: AppView, ctx: KeyContext)
    ensures
        ({
            let args = args_of(v.editor.composer.text);
            let w = lowered(trim(args));
            let sandbox = v.slash_run("sandbox"@, ctx);
            let awake = v.slash_run("caffeinate"@, ctx);
            let mode = v.slash_run("llm-mode"@, ctx);
            let pin = v.slash_run("pin"@, ctx);
            &&& only_asks(v, v.slash_run("compact"@, ctx), RequestView::Compact)
            &&& trim(args).len() > 0 ==> only_asks(v, pin, RequestView::Pin { text: trim(args) })
            &&& trim(args).len() == 0 ==> only_leaves(
                v,
                pin,
                EffectView::Stay,
                seq!["/pin: usage `/pin <text>` — pins a message verbatim for /compact"@],
            )
            &&& w == "on"@ ==> only_asks(
                v,
                sandbox,
                RequestView::SetSandbox { enabled: Some(true) },
            )
            &&& w == "off"@ ==> only_asks(
                v,
                sandbox,
                RequestView::SetSandbox { enabled: Some(false) },
            )
            &&& w.len() == 0 ==> only_asks(v, sandbox, RequestView::SetSandbox { enabled: None })
            &&& w == "on"@ ==> only_asks(
                v,
                awake,
                RequestView::SetCaffeinate { mode: CaffeinateMode::On },
            )
            &&& w == "off"@ ==> only_asks(
                v,
                awake,
                RequestView::SetCaffeinate { mode: CaffeinateMode::Off },
            )
            &&& w == "until-idle"@ ==> only_asks(
                v,
                awake,
                RequestView::SetCaffeinate { mode: CaffeinateMode::UntilIdle },
            )
            &&& w.len() == 0 || w == "toggle"@ ==> only_asks(
                v,
                awake,
                RequestView::SetCaffeinate { mode: CaffeinateMode::Toggle },
            )
            &&& (w == "defend"@ || w == "defensive"@) && v.context.llm_mode is Normal ==> only_asks(
                v,
                mode,
                RequestView::SetLlmMode { mode: Some(LlmMode::Defensive) },
            )
            &&& w == "normal"@ && v.context.llm_mode is Defensive ==> only_asks(
                v,
                mode,
                RequestView::SetLlmMode { mode: Some(LlmMode::Normal) },
            )
            &&& w.len() == 0 || w == "toggle"@ ==> only_asks(
                v,
                mode,
                RequestView::SetLlmMode { mode: None },
            )
            &&& w == "normal"@ && v.context.llm_mode is Normal ==> only_leaves(
                v,
                mode,
                EffectView::Stay,
                seq!["Already in `normal` LLM mode"@],
            )
            &&& (w == "defend"@ || w == "defensive"@) && v.context.llm_mode is Defensive
                ==> only_leaves(
                v,
                mode,
                EffectView::Stay,
                seq!["Already in `defensive` LLM mode"@],
            )
        }),

{
    lemma_words();
    reveal_strlit("");
    reveal_strlit("on");
    reveal_strlit("off");
    reveal_strlit("toggle");
    reveal_strlit("until-idle");
    reveal_strlit("defend");
    reveal_strlit("defensive");
    reveal_strlit("normal");
    reveal_strlit("Already in `");
    reveal_strlit("` LLM mode");
    reveal_strlit("Already in `normal` LLM mode");
    reveal_strlit("Already in `defensive` LLM mode");
    reveal(AppView::pin_command);
    reveal(AppView::sandbox_command);
    reveal(AppView::caffeinate_command);
    reveal(AppView::llm_mode_command);
    let w_compact = noted(v, "compact"@);
    let r_compact = v.slash_run("compact"@, ctx);
    lemma_run_compact(v, ctx);
    lemma_noted(v, "compact"@);
    let w_pin = noted(v, "pin"@);
    let r_pin = v.slash_run("pin"@, ctx);
    lemma_run_pin(v, ctx);
    lemma_noted(v, "pin"@);
    let w_sandbox = noted(v, "sandbox"@);
    let r_sandbox = v.slash_run("sandbox"@, ctx);
    lemma_run_sandbox(v, ctx);
    lemma_noted(v, "sandbox"@);
    let w_caffeinate = noted(v, "caffeinate"@);
    let r_caffeinate = v.slash_run("caffeinate"@, ctx);
    lemma_run_caffeinate(v, ctx);
    lemma_noted(v, "caffeinate"@);
    let w_llm_mode = noted(v, "llm-mode"@);
    let r_llm_mode = v.slash_run("llm-mode"@, ctx);
    lemma_run_llm_mode(v, ctx);
    lemma_noted(v, "llm-mode"@);
    let args = args_of(v.editor.composer.text);
    let w = lowered(trim(args));
    if w.len() == 0 {
        assert(w =~= ""@);
    }
    assert("Already in `"@ + "normal"@ + "` LLM mode"@ =~= "Already in `normal` LLM mode"@);
    assert("Already in `"@ + "defensive"@ + "` LLM mode"@ =~= "Already in `defensive` LLM mode"@);
    lemma_only_asks(v, w_compact, r_compact, RequestView::Compact);
    if trim(args).len() > 0 {
        lemma_only_asks(v, w_pin, r_pin, RequestView::Pin { text: trim(args) });
    }
    if trim(args).len() == 0 {
        assert(r_pin.0.history =~= w_pin.history + seq!["/pin: usage `/pin <text>` — pins a message verbatim for /compact"@].map_values(
            |l: Seq<char>| plain_entry(l),
        ));
        lemma_only_leaves(v, w_pin, r_pin, seq!["/pin: usage `/pin <text>` — pins a message verbatim for /compact"@]);
    }
    if w == "on"@ {
        lemma_only_asks(v, w_sandbox, r_sandbox, RequestView::SetSandbox { enabled: Some(true) });
    }
    if w == "off"@ {
        lemma_only_asks(v, w_sandbox, r_sandbox, RequestView::SetSandbox { enabled: Some(false) });
    }
    if w.len() == 0 {
        lemma_only_asks(v, w_sandbox, r_sandbox, RequestView::SetSandbox { enabled: None });
    }
    if w == "on"@ {
        lemma_only_asks(v, w_caffeinate, r_caffeinate, RequestView::SetCaffeinate { mode: CaffeinateMode::On });
    }
    if w == "off"@ {
        lemma_only_asks(v, w_caffeinate, r_caffeinate, RequestView::SetCaffeinate { mode: CaffeinateMode::Off });
    }
    if w == "until-idle"@ {
        lemma_only_asks(v, w_caffeinate, r_caffeinate, RequestView::SetCaffeinate { mode: CaffeinateMode::UntilIdle });
    }
    if w.len() == 0 || w == "toggle"@ {
        lemma_only_asks(v, w_caffeinate, r_caffeinate, RequestView::SetCaffeinate { mode: CaffeinateMode::Toggle });
    }
    if (w == "defend"@ || w == "defensive"@) && v.context.llm_mode is Normal {
        lemma_only_asks(v, w_llm_mode, r_llm_mode, RequestView::SetLlmMode { mode: Some(LlmMode::Defensive) });
    }
    if w == "normal"@ && v.context.llm_mode is Defensive {
        lemma_only_asks(v, w_llm_mode, r_llm_mode, RequestView::SetLlmMode { mode: Some(LlmMode::Normal) });
    }
    if w.len() == 0 || w == "toggle"@ {
        lemma_only_asks(v, w_llm_mode, r_llm_mode, RequestView::SetLlmMode { mode: None });
    }
    if w == "normal"@ && v.context.llm_mode is Normal {
        assert(r_llm_mode.0.history =~= w_llm_mode.history + seq!["Already in `normal` LLM mode"@].map_values(
            |l: Seq<char>| plain_entry(l),
        ));
        lemma_only_leaves(v, w_llm_mode, r_llm_mode, seq!["Already in `normal` LLM mode"@]);
    }
    if (w == "defend"@ || w == "defensive"@) && v.context.llm_mode is Defensive {
        assert(r_llm_mode.0.history =~= w_llm_mode.history + seq!["Already in `defensive` LLM mode"@].map_values(
            |l: Seq<char>| plain_entry(l),
        ));
        lemma_only_leaves(v, w_llm_mode, r_llm_mode, seq!["Already in `defensive` LLM mode"@]);
    }
}

/// Each panel opens by the command that is named after it.
pub proof fn panels_open_by_name(v: AppView, ctx: KeyContext)
    ensures
        ({
            let args = args_of(v.editor.composer.text);
            let open = |name: Seq<char>, p: Panel|
                only_leaves(v, v.slash_run(name, ctx), EffectView::Open(p), Seq::empty());
            &&& open("settings"@, Panel::Settings)
            &&& open("model-settings"@, Panel::ModelSettings)
            &&& open("model"@, Panel::ModelPicker)
            &&& open("stats"@, Panel::Stats)
            &&& open("context"@, Panel::Context)
            &&& open("sessions"@, Panel::Sessions)
            &&& open("resume"@, Panel::Sessions)
            &&& open("skills"@, Panel::Skills)
            &&& open("permissions"@, Panel::Permissions)
            &&& trim(args) == "answer"@ ==> open("plans"@, Panel::PlanResolver)
            &&& trim(args) != "answer"@ ==> open("plans"@, Panel::Plans)
        }),

{
    lemma_words();
    let w_settings = noted(v, "settings"@);
    let r_settings = v.slash_run("settings"@, ctx);
    lemma_run_settings(v, ctx);
    lemma_noted(v, "settings"@);
    assert(r_settings.0.history =~= w_settings.history + Seq::<Seq<char>>::empty().map_values(
        |l: Seq<char>| plain_entry(l),
    ));
    lemma_only_leaves(v, w_settings, r_settings, Seq::<Seq<char>>::empty());
    let w_model_settings = noted(v, "model-settings"@);
    let r_model_settings = v.slash_run("model-settings"@, ctx);
    lemma_run_model_settings(v, ctx);
    lemma_noted(v, "model-settings"@);
    assert(r_model_settings.0.history =~= w_model_settings.history + Seq::<Seq<char>>::empty().map_values(
        |l: Seq<char>| plain_entry(l),
    ));
    lemma_only_leaves(v, w_model_settings, r_model_settings, Seq::<Seq<char>>::empty());
    let w_model = noted(v, "model"@);
    let r_model = v.slash_run("model"@, ctx);
    lemma_run_model(v, ctx);
    lemma_noted(v, "model"@);
    assert(r_model.0.history =~= w_model.history + Seq::<Seq<char>>::empty().map_values(
        |l: Seq<char>| plain_entry(l),
    ));
    lemma_only_leaves(v, w_model, r_model, Seq::<Seq<char>>::empty());
    let w_stats = noted(v, "stats"@);
    let r_stats = v.slash_run("stats"@, ctx);
    lemma_run_stats(v, ctx);
    lemma_noted(v, "stats"@);
    assert(r_stats.0.history =~= w_stats.history + Seq::<Seq<char>>::empty().map_values(
        |l: Seq<char>| plain_entry(l),
    ));
    lemma_only_leaves(v, w_stats, r_stats, Seq::<Seq<char>>::empty());
    let w_context = noted(v, "context"@);
    let r_context = v.slash_run("context"@, ctx);
    lemma_run_context(v, ctx);
    lemma_noted(v, "context"@);
    assert(r_context.0.history =~= w_context.history + Seq::<Seq<char>>::empty().map_values(
        |l: Seq<char>| plain_entry(l),
    ));
    lemma_only_leaves(v, w_context, r_context, Seq::<Seq<char>>::empty());
    let w_sessions = noted(v, "sessions"@);
    let r_sessions = v.slash_run("sessions"@, ctx);
    lemma_run_sessions(v, ctx);
    lemma_noted(v, "sessions"@);
    assert(r_sessions.0.history =~= w_sessions.history + Seq::<Seq<char>>::empty().map_values(
        |l: Seq<char>| plain_entry(l),
    ));
    lemma_only_leaves(v, w_sessions, r_sessions, Seq::<Seq<char>>::empty());
    let w_resume = noted(v, "resume"@);
    let r_resume = v.slash_run("resume"@, ctx);
    lemma_run_resume(v, ctx);
    lemma_noted(v, "resume"@);
    assert(r_resume.0.history =~= w_resume.history + Seq::<Seq<char>>::empty().map_values(
        |l: Seq<char>| plain_entry(l),
    ));
    lemma_only_leaves(v, w_resume, r_resume, Seq::<Seq<char>>::empty());
    let w_skills = noted(v, "skills"@);
    let r_skills = v.slash_run("skills"@, ctx);
    lemma_run_skills(v, ctx);
    lemma_noted(v, "skills"@);
    assert(r_skills.0.history =~= w_skills.history + Seq::<Seq<char>>::empty().map_values(
        |l: Seq<char>| plain_entry(l),
    ));
    lemma_only_leaves(v, w_skills, r_skills, Seq::<Seq<char>>::empty());
    let w_permissions = noted(v, "permissions"@);
    let r_permissions = v.slash_run("permissions"@, ctx);
    lemma_run_permissions(v, ctx);
    lemma_noted(v, "permissions"@);
    assert(r_permissions.0.history =~= w_permissions.history + Seq::<Seq<char>>::empty().map_values(
        |l: Seq<char>| plain_entry(l),
    ));
    lemma_only_leaves(v, w_permissions, r_permissions, Seq::<Seq<char>>::empty());
    let w_plans = noted(v, "plans"@);
    let r_plans = v.slash_run("plans"@, ctx);
    lemma_run_plans(v, ctx);
    lemma_noted(v, "plans"@);
    assert(r_plans.0.history =~= w_plans.history + Seq::<Seq<char>>::empty().map_values(
        |l: Seq<char>| plain_entry(l),
    ));
    lemma_only_leaves(v, w_plans, r_plans, Seq::<Seq<char>>::empty());
}

/// The commands that something outside has to do: `/exit` leaves, `/git` runs what
/// follows it, `/editor` and `/lazygit` open a pane where the machine has them and none
/// is open, `/fetch-models`, `/favorite` and `/mouse` do what they are called after.
pub proof fn commands_leave_their_work(v: AppView, ctx: KeyContext)
    ensures
        ({
            let args = args_of(v.editor.composer.text);
            let none = Seq::<Seq<char>>::empty();
            let git = v.slash_run("git"@, ctx);
            let editor = v.slash_run("editor"@, ctx);
            let lazygit = v.slash_run("lazygit"@, ctx);
            &&& only_leaves(v, v.slash_run("exit"@, ctx), EffectView::Quit, none)
            &&& only_leaves(v, v.slash_run("favorite"@, ctx), EffectView::ToggleFavorite, none)
            &&& only_leaves(v, v.slash_run("mouse"@, ctx), EffectView::ToggleMouse, none)
            &&& only_leaves(
                v,
                v.slash_run("fetch-models"@, ctx),
                EffectView::FetchModels,
                seq!["/fetch-models: starting…"@],
            )
            &&& trim(args).len() > 0 ==> only_leaves(
                v,
                git,
                EffectView::RunGit(trim(args)),
                none,
            )
            &&& trim(args).len() == 0 ==> only_leaves(
                v,
                git,
                EffectView::Stay,
                seq!["/git: usage `/git <args>` (e.g. `/git status`)"@],
            )
            &&& v.pane.open ==> only_leaves(v, editor, EffectView::Stay, none) && only_leaves(
                v,
                lazygit,
                EffectView::Stay,
                none,
            )
            &&& !v.pane.open && !ctx.here.editor ==> only_leaves(
                v,
                editor,
                EffectView::Stay,
                seq!["/editor: no `$EDITOR` set"@],
            )
            &&& !v.pane.open && ctx.here.editor ==> only_leaves(
                v,
                editor,
                EffectView::OpenEditor(editor.1->OpenEditor_0),
                none,
            )
            &&& !v.pane.open && ctx.here.editor && trim(args) == "left"@
                ==> editor.1->OpenEditor_0 is Left
            &&& !v.pane.open && ctx.here.editor && trim(args) == "right"@
                ==> editor.1->OpenEditor_0 is Right
            &&& !v.pane.open && ctx.here.editor && (trim(args) == "top"@ || trim(args) == "up"@)
                ==> editor.1->OpenEditor_0 is Top
            &&& !v.pane.open && ctx.here.editor && (trim(args) == "bottom"@ || trim(args)
                == "down"@) ==> editor.1->OpenEditor_0 is Bottom
            &&& !v.pane.open && ctx.here.editor && trim(args).len() == 0
                ==> editor.1->OpenEditor_0 is Full
            &&& !v.pane.open && ctx.here.lazygit ==> only_leaves(
                v,
                lazygit,
                EffectView::OpenLazygit,
                none,
            )
            &&& !v.pane.open && !ctx.here.lazygit ==> only_leaves(
                v,
                lazygit,
                EffectView::Stay,
                seq!["/lazygit: `lazygit` not found on `PATH`"@],
            )
        }),

{
    lemma_words();
    reveal_strlit("left");
    reveal_strlit("right");
    reveal_strlit("top");
    reveal_strlit("up");
    reveal_strlit("bottom");
    reveal_strlit("down");
    let args = args_of(v.editor.composer.text);
    assert(lowered("left"@) =~= "left"@);
    assert(lowered("right"@) =~= "right"@);
    assert(lowered("top"@) =~= "top"@);
    assert(lowered("up"@) =~= "up"@);
    assert(lowered("bottom"@) =~= "bottom"@);
    assert(lowered("down"@) =~= "down"@);
    assert(lowered(trim(args)).len() == trim(args).len());
    let w_exit = noted(v, "exit"@);
    let r_exit = v.slash_run("exit"@, ctx);
    lemma_run_exit(v, ctx);
    lemma_noted(v, "exit"@);
    let w_favorite = noted(v, "favorite"@);
    let r_favorite = v.slash_run("favorite"@, ctx);
    lemma_run_favorite(v, ctx);
    lemma_noted(v, "favorite"@);
    let w_mouse = noted(v, "mouse"@);
    let r_mouse = v.slash_run("mouse"@, ctx);
    lemma_run_mouse(v, ctx);
    lemma_noted(v, "mouse"@);
    let w_fetch_models = noted(v, "fetch-models"@);
    let r_fetch_models = v.slash_run("fetch-models"@, ctx);
    lemma_run_fetch_models(v, ctx);
    lemma_noted(v, "fetch-models"@);
    let w_git = noted(v, "git"@);
    let r_git = v.slash_run("git"@, ctx);
    lemma_run_git(v, ctx);
    lemma_noted(v, "git"@);
    let w_editor = noted(v, "editor"@);
    let r_editor = v.slash_run("editor"@, ctx);
    lemma_run_editor(v, ctx);
    lemma_noted(v, "editor"@);
    let w_lazygit = noted(v, "lazygit"@);
    let r_lazygit = v.slash_run("lazygit"@, ctx);
    lemma_run_lazygit(v, ctx);
    lemma_noted(v, "lazygit"@);
    assert(r_exit.0.history =~= w_exit.history + Seq::<Seq<char>>::empty().map_values(
        |l: Seq<char>| plain_entry(l),
    ));
    lemma_only_leaves(v, w_exit, r_exit, Seq::<Seq<char>>::empty());
    assert(r_favorite.0.history =~= w_favorite.history + Seq::<Seq<char>>::empty().map_values(
        |l: Seq<char>| plain_entry(l),
    ));
    lemma_only_leaves(v, w_favorite, r_favorite, Seq::<Seq<char>>::empty());
    assert(r_mouse.0.history =~= w_mouse.history + Seq::<Seq<char>>::empty().map_values(
        |l: Seq<char>| plain_entry(l),
    ));
    lemma_only_leaves(v, w_mouse, r_mouse, Seq::<Seq<char>>::empty());
    assert(r_fetch_models.0.history =~= w_fetch_models.history + seq!["/fetch-models: starting…"@].map_values(
        |l: Seq<char>| plain_entry(l),
    ));
    lemma_only_leaves(v, w_fetch_models, r_fetch_models, seq!["/fetch-models: starting…"@]);
    if trim(args).len() > 0 {
        assert(r_git.0.history =~= w_git.history + Seq::<Seq<char>>::empty().map_values(
            |l: Seq<char>| plain_entry(l),
        ));
        lemma_only_leaves(v, w_git, r_git, Seq::<Seq<char>>::empty());
    }
    if trim(args).len() == 0 {
        assert(r_git.0.history =~= w_git.history + seq!["/git: usage `/git <args>` (e.g. `/git status`)"@].map_values(
            |l: Seq<char>| plain_entry(l),
        ));
        lemma_only_leaves(v, w_git, r_git, seq!["/git: usage `/git <args>` (e.g. `/git status`)"@]);
    }
    if v.pane.open || ctx.here.editor {
        assert(r_editor.0.history =~= w_editor.history + Seq::<Seq<char>>::empty().map_values(
            |l: Seq<char>| plain_entry(l),
        ));
        lemma_only_leaves(v, w_editor, r_editor, Seq::<Seq<char>>::empty());
    }
    if !v.pane.open && !ctx.here.editor {
        assert(r_editor.0.history =~= w_editor.history + seq!["/editor: no `$EDITOR` set"@].map_values(
            |l: Seq<char>| plain_entry(l),
        ));
        lemma_only_leaves(v, w_editor, r_editor, seq!["/editor: no `$EDITOR` set"@]);
    }
    if v.pane.open || ctx.here.lazygit {
        assert(r_lazygit.0.history =~= w_lazygit.history + Seq::<Seq<char>>::empty().map_values(
            |l: Seq<char>| plain_entry(l),
        ));
        lemma_only_leaves(v, w_lazygit, r_lazygit, Seq::<Seq<char>>::empty());
    }
    if !v.pane.open && !ctx.here.lazygit {
        assert(r_lazygit.0.history =~= w_lazygit.history + seq!["/lazygit: `lazygit` not found on `PATH`"@].map_values(
            |l: Seq<char>| plain_entry(l),
        ));
        lemma_only_leaves(v, w_lazygit, r_lazygit, seq!["/lazygit: `lazygit` not found on `PATH`"@]);
    }
}

/// `/new` and `/clear` ask for a fresh session. `/rename` names the current session with
/// what follows it, and `/export` writes it out, in full with `debug`; without a session
/// both say so.
pub proof fn sessions_are_renamed_exported_and_left(v: AppView, ctx: KeyContext)
    ensures
        ({
            let args = args_of(v.editor.composer.text);
            let none = Seq::<Seq<char>>::empty();
            let rename = v.slash_run("rename"@, ctx);
            let export = v.slash_run("export"@, ctx);
            let session = match v.runner {
                RunnerView::Live { session_id, .. } => Some(session_id),
                _ => v.launch.session_id,
            };
            &&& v.slash_run("new"@, ctx).0.requests.new_session
            &&& v.slash_run("clear"@, ctx).0.requests.new_session
            &&& only_leaves(v, v.slash_run("new"@, ctx), EffectView::Stay, none)
            &&& only_leaves(v, v.slash_run("clear"@, ctx), EffectView::Stay, none)
            &&& trim(args).len() == 0 ==> only_leaves(
                v,
                rename,
                EffectView::Stay,
                seq!["Usage: `/rename <title>`"@],
            )
            &&& trim(args).len() > 0 && session is None ==> only_leaves(
                v,
                rename,
                EffectView::Stay,
                seq!["/rename: no active session yet — send a message first"@],
            )
            &&& trim(args).len() > 0 && session is Some ==> only_leaves(
                v,
                rename,
                EffectView::Rename { session_id: session->0, title: trim(args) },
                none,
            )
            &&& session is None ==> only_leaves(
                v,
                export,
                EffectView::Stay,
                seq!["/export: no active session yet — send a message first"@],
            )
            &&& session is Some ==> only_leaves(v, export, export.1, none) && export.1 is Export
                && export.1->Export_session_id == session->0 && export.1->debug == (trim(args)
                == "debug"@)
        }),

{
    lemma_words();
    let w_new = noted(v, "new"@);
    let r_new = v.slash_run("new"@, ctx);
    lemma_run_new(v, ctx);
    lemma_noted(v, "new"@);
    let w_clear = noted(v, "clear"@);
    let r_clear = v.slash_run("clear"@, ctx);
    lemma_run_clear(v, ctx);
    lemma_noted(v, "clear"@);
    let w_rename = noted(v, "rename"@);
    let r_rename = v.slash_run("rename"@, ctx);
    lemma_run_rename(v, ctx);
    lemma_noted(v, "rename"@);
    let w_export = noted(v, "export"@);
    let r_export = v.slash_run("export"@, ctx);
    lemma_run_export(v, ctx);
    lemma_noted(v, "export"@);
    let args = args_of(v.editor.composer.text);
    let session = match v.runner {
        RunnerView::Live { session_id, .. } => Some(session_id),
        _ => v.launch.session_id,
    };
    assert(r_new.0.history =~= w_new.history + Seq::<Seq<char>>::empty().map_values(
        |l: Seq<char>| plain_entry(l),
    ));
    lemma_only_leaves(v, w_new, r_new, Seq::<Seq<char>>::empty());
    assert(r_clear.0.history =~= w_clear.history + Seq::<Seq<char>>::empty().map_values(
        |l: Seq<char>| plain_entry(l),
    ));
    lemma_only_leaves(v, w_clear, r_clear, Seq::<Seq<char>>::empty());
    if trim(args).len() == 0 {
        assert(r_rename.0.history =~= w_rename.history + seq!["Usage: `/rename <title>`"@].map_values(
            |l: Seq<char>| plain_entry(l),
        ));
        lemma_only_leaves(v, w_rename, r_rename, seq!["Usage: `/rename <title>`"@]);
    }
    if trim(args).len() > 0 && session is None {
        assert(r_rename.0.history =~= w_rename.history + seq!["/rename: no active session yet — send a message first"@].map_values(
            |l: Seq<char>| plain_entry(l),
        ));
        lemma_only_leaves(v, w_rename, r_rename, seq!["/rename: no active session yet — send a message first"@]);
    }
    if trim(args).len() > 0 && session is Some {
        assert(r_rename.0.history =~= w_rename.history + Seq::<Seq<char>>::empty().map_values(
            |l: Seq<char>| plain_entry(l),
        ));
        lemma_only_leaves(v, w_rename, r_rename, Seq::<Seq<char>>::empty());
    }
    if session is None {
        assert(r_export.0.history =~= w_export.history + seq!["/export: no active session yet — send a message first"@].map_values(
            |l: Seq<char>| plain_entry(l),
        ));
        lemma_only_leaves(v, w_export, r_export, seq!["/export: no active session yet — send a message first"@]);
    }
    if session is Some {
        assert(r_export.0.history =~= w_export.history + Seq::<Seq<char>>::empty().map_values(
            |l: Seq<char>| plain_entry(l),
        ));
        lemma_only_leaves(v, w_export, r_export, Seq::<Seq<char>>::empty());
    }
}

/// The arguments of a command are what stands behind its first white space, without the
/// white space around it.
pub proof fn arguments_follow_the_name(name: Seq<char>, space: char, args: Seq<char>)
    requires
        forall|i: int| 0 <= i < name.len() ==> !is_space(#[trigger] name[i]),
        is_space(space),
    ensures
        args_of(seq!['/'] + name) == trim(Seq::empty()),
        args_of(seq!['/'] + name + seq![space] + args) == trim(seq![space] + args),
{
    let a = seq!['/'] + name;
    assert(a.drop_first() =~= name);
    lemma_space_from(name, 0);
    assert(name.skip(name.len() as int) =~= Seq::empty());
    let b = seq!['/'] + name + seq![space] + args;
    let r = b.drop_first();
    assert(r =~= name + seq![space] + args);
    lemma_space_from(r, 0);
    let k = space_from(r, 0);
    if k < name.len() {
        assert(!is_space(name[k]));
    }
    if k > name.len() {
        assert(is_space(r[name.len() as int]));
    }
    assert(r.skip(k) =~= seq![space] + args);
}

/// The chat has the keys: nothing lies over it, no question waits, and no pane is open.
pub open spec fn has_the_keys(v: AppView) -> bool {
    &&& !v.pane.open
    &&& !v.covered()
    &&& !v.requests.prune_confirm
    &&& v.pending_stop_confirm is None
}

/// Enter runs the highlighted command of the slash menu.
pub proof fn enter_runs_the_highlighted_command(
    v: AppView,
    key: KeyEvent,
    ctx: KeyContext,
    suggestions: Seq<SuggestionView>,
    i: int,
)
    requires
        has_the_keys(v),
        types(v.editor),
        key.code is Enter,
        !key.shift,
        !key.alt,
        suggestions.len() == 0,
        v.editor.slash_query() is Some,
        v.editor.slash_query()->0 != "modelsettings"@,
        0 <= i < v.slash_ranking(ctx.here).len(),
        v.editor.slash_selected == i,
    ensures
        v.key_pressed(key, ctx, suggestions) == (AppView {
            toast: None,
            screen: (Screen { selection: None, ..v.screen }),
            ..v
        }).slash_run(command_names()[v.slash_ranking(ctx.here)[i]], ctx),
{
    reveal(AppView::key_pressed);
    reveal(AppView::pane_key);
    reveal(AppView::leave_key);
    reveal(AppView::inner_key);
    reveal(AppView::confirm_key);
    reveal(AppView::menu_key);
    reveal(AppView::modal_key);
    reveal(AppView::shortcut_key);
    reveal(AppView::composer_key);
    reveal(AppView::completed);
    reveal(EditorView::pressed);
    let w = AppView { toast: None, screen: Screen { selection: None, ..v.screen }, ..v };
    assert(v.toast_dropped(key).deselected() =~= w);
    assert(AppView { editor: w.editor, ..w } =~= w);
}

/// With `/build` highlighted, Enter asks the daemon for the agent Build, and with
/// `/plan` for the agent Plan.
pub proof fn enter_switches_the_agent(
    v: AppView,
    key: KeyEvent,
    ctx: KeyContext,
    suggestions: Seq<SuggestionView>,
    i: int,
)
    requires
        has_the_keys(v),
        types(v.editor),
        key.code is Enter,
        !key.shift,
        !key.alt,
        suggestions.len() == 0,
        v.editor.slash_query() is Some,
        v.editor.slash_query()->0 != "modelsettings"@,
        0 <= i < v.slash_ranking(ctx.here).len(),
        v.editor.slash_selected == i,
    ensures
        ({
            let name = command_names()[v.slash_ranking(ctx.here)[i]];
            let after = v.key_pressed(key, ctx, suggestions).0;
            &&& name == "build"@ ==> after.outbox[after.outbox.len() - 1]
                == (RequestView::SetAgent { name: "Build"@ })
            &&& name == "plan"@ ==> after.outbox[after.outbox.len() - 1]
                == (RequestView::SetAgent { name: "Plan"@ })
        }),
{
    enter_runs_the_highlighted_command(v, key, ctx, suggestions, i);
    let w = AppView { toast: None, screen: Screen { selection: None, ..v.screen }, ..v };
    agents_are_switched_by_name(w, ctx);
}

/// A command is offered when its name begins with what was typed, whatever its rank.
pub proof fn typed_names_are_offered(v: AppView, here: Availability, i: int)
    requires
        0 <= i < 36,
        v.editor.slash_query() is Some,
        command_names()[i] == v.editor.slash_query()->0 || exists|rest: Seq<char>|
            command_names()[i] == #[trigger] (v.editor.slash_query()->0 + rest),
        command_names()[i] != "editor"@ || here.editor,
        command_names()[i] != "lazygit"@ || here.lazygit,
    ensures
        v.slash_ranking(here).contains(i),
{
    let q = v.editor.slash_query()->0;
    let name = command_names()[i];
    ranking_is_ordered_and_complete(36, q, v.usage_slash, here);
    assert(begins_with(name, q)) by {
        if name == q {
            assert(name.take(q.len() as int) =~= q);
        } else {
            let rest = choose|rest: Seq<char>| name == #[trigger] (q + rest);
            assert(name.take(q.len() as int) =~= q);
        }
    }
    assert(matches_query(i, q, here));
}

} // verus!
