use cockpit_tui::app::slash::{
    merge_counts, slash_args, slash_commands, slash_matches, Availability, SlashCommand,
    UsageCounts,
};

const HERE: Availability = Availability {
    editor: false,
    lazygit: true,
};

#[test]
fn frequency_outranks_declaration_order() {
    // The last-declared command, given a count, jumps to the front.
    let last = slash_commands().last().unwrap().name;
    let mut counts = UsageCounts::new();
    counts.bump(last, 9);
    let ranked = slash_matches("", &counts, HERE);
    assert_eq!(ranked.first().unwrap().name, last);
}

#[test]
fn equal_counts_fall_back_to_declaration_order() {
    let ranked = slash_matches("", &UsageCounts::new(), HERE);
    let names: Vec<&str> = ranked.iter().map(|c| c.name).collect();
    // `slash_matches` hides unavailable commands (`/editor` without
    // `$EDITOR`, `/lazygit` off `PATH`), so compare against the
    // available subset — otherwise this is env-dependent on CI.
    let declared: Vec<&str> = slash_commands()
        .iter()
        .filter(|c| c.is_available(HERE))
        .map(|c| c.name)
        .collect();
    assert_eq!(names, declared);
}

#[test]
fn sandbox_command_is_registered() {
    // `/sandbox` (sandboxing part 2) must be dispatchable.
    assert!(
        slash_commands().iter().any(|c| c.name == "sandbox"),
        "/sandbox must be a registered slash command"
    );
}

#[test]
fn plan_and_build_commands_are_registered() {
    // `/plan` and `/build` swap the primary agent (`plan.md §4.6.d`).
    for name in ["plan", "build"] {
        assert!(
            slash_commands().iter().any(|c| c.name == name),
            "/{name} must be a registered slash command"
        );
    }
}

#[test]
fn rename_command_is_registered() {
    // `/rename` (rename-current-session) must be dispatchable.
    assert!(
        slash_commands().iter().any(|c| c.name == "rename"),
        "/rename must be a registered slash command"
    );
}

#[test]
fn skills_command_is_registered() {
    // `/skills` (read-only skill listing) must be dispatchable.
    assert!(
        slash_commands().iter().any(|c| c.name == "skills"),
        "/skills must be a registered slash command"
    );
}

#[test]
fn side_command_is_registered() {
    // `/side` (ephemeral throwaway side conversation) must be dispatchable.
    assert!(
        slash_commands().iter().any(|c| c.name == "side"),
        "/side must be a registered slash command"
    );
}

#[test]
fn plans_command_is_registered() {
    // `/plans` (read-only plan browser) must be dispatchable.
    assert!(
        slash_commands().iter().any(|c| c.name == "plans"),
        "/plans must be a registered slash command"
    );
}

#[test]
fn permissions_command_is_registered() {
    // `/permissions` (delete-only approvals manager) must be dispatchable.
    assert!(
        slash_commands().iter().any(|c| c.name == "permissions"),
        "/permissions must be a registered slash command"
    );
}

#[test]
fn session_command_is_not_registered() {
    // The dead `/session` subcommand stub was removed in favor of
    // `/rename`; it must no longer appear in the menu or dispatch.
    assert!(
        !slash_commands().iter().any(|c| c.name == "session"),
        "/session must not be a registered slash command"
    );
}

#[test]
fn copy_command_is_registered() {
    // `/copy` (copy-last-response) must be dispatchable.
    assert!(
        slash_commands().iter().any(|c| c.name == "copy"),
        "/copy must be a registered slash command"
    );
}

#[test]
fn export_command_is_registered_and_visible() {
    // `/export` must be a registered, available (menu-visible) slash
    // command. The `debug` argument is hidden — it's an arg of
    // `/export`, never its own menu entry — so there is no `export
    // debug` command name.
    let export = slash_commands()
        .into_iter()
        .find(|c| c.name == "export")
        .expect("/export must be a registered slash command");
    assert!(export.is_available(HERE), "/export must be visible in the menu");
    assert!(
        !slash_commands().iter().any(|c| c.name == "export debug"),
        "`debug` is a hidden arg of /export, not its own command"
    );
}

#[test]
fn ps_and_stop_are_registered() {
    // `/ps` (current-session job list) and `/stop` (current-session
    // job stop) must both be dispatchable; `/jobs` (all-sessions) is
    // kept alongside them.
    assert!(
        slash_commands().iter().any(|c| c.name == "ps"),
        "/ps must be a registered slash command"
    );
    assert!(
        slash_commands().iter().any(|c| c.name == "stop"),
        "/stop must be a registered slash command"
    );
    assert!(
        slash_commands().iter().any(|c| c.name == "jobs"),
        "/jobs must remain a registered slash command"
    );
}

#[test]
fn new_and_clear_are_both_registered_aliases() {
    // `/new` and `/clear` are both menu entries routing to the one
    // fresh-session handler (`"new" | "clear"` dispatch arm).
    assert!(
        slash_commands().iter().any(|c| c.name == "new"),
        "/new must be a registered slash command"
    );
    assert!(
        slash_commands().iter().any(|c| c.name == "clear"),
        "/clear must be a registered slash command"
    );
}

#[test]
fn queries_match_prefixes() {
    let names: Vec<&str> = slash_matches("pl", &UsageCounts::new(), HERE)
        .iter()
        .map(|c| c.name)
        .collect();
    assert_eq!(names, vec!["plan", "plans"]);
    assert!(slash_matches("nothing", &UsageCounts::new(), HERE).is_empty());
}

#[test]
fn commands_that_cannot_run_are_hidden() {
    assert!(slash_matches("editor", &UsageCounts::new(), HERE).is_empty());
    let there = Availability {
        editor: true,
        lazygit: false,
    };
    assert_eq!(slash_matches("editor", &UsageCounts::new(), there).len(), 1);
    assert!(slash_matches("lazygit", &UsageCounts::new(), there).is_empty());
}

#[test]
fn counts_add_up() {
    let mut local = UsageCounts::new();
    local.bump("plan", 2);
    let mut server = UsageCounts::new();
    server.bump("plan", 3);
    server.bump("build", u64::MAX);
    merge_counts(&mut local, &server);
    assert_eq!(local.get("plan"), 5);
    local.bump("build", 1);
    assert_eq!(local.get("build"), u64::MAX);
    assert_eq!(local.get("unknown"), 0);
    local.clear();
    assert_eq!(local.get("plan"), 0);
}

#[test]
fn arguments_follow_the_command_word() {
    assert_eq!(slash_args("/pin  keep this  "), "keep this");
    assert_eq!(SlashCommand::model_settings_alias().name, "model-settings");
}

#[test]
fn the_hidden_alias_is_the_registered_command() {
    let alias = SlashCommand::model_settings_alias();
    let all = slash_commands();
    let registered = all.iter().find(|c| c.name == alias.name).expect("registered");
    assert_eq!(alias.description, registered.description);
}
