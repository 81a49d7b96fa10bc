//! Slash commands: the table, and which of them a query offers in what order.

use vstd::prelude::*;
use crate::nav::min_int;
use crate::text::{begins_with, find_space, from_range, same, space_from, starts_with, to_chars, trim, trimmed};

verus! {

/// A slash command.
#[derive(Debug, Clone, Copy)]
pub struct SlashCommand {
    pub name: &'static str,
    pub description: &'static str,
}

/// What the machine offers: `$EDITOR` is set, `lazygit` is installed.
#[derive(Debug, Clone, Copy, PartialEq, Eq, Structural)]
pub struct Availability {
    pub editor: bool,
    pub lazygit: bool,
}

/// Whether a command can be used here.
pub open spec fn offered(name: Seq<char>, here: Availability) -> bool {
    if name == "editor"@ {
        here.editor
    } else if name == "lazygit"@ {
        here.lazygit
    } else {
        true
    }
}

/// The names of the commands, in the order of the menu.
pub open spec fn command_names() -> Seq<Seq<char>> {
    seq![
        "caffeinate"@,
        "build"@,
        "clear"@,
        "compact"@,
        "context"@,
        "copy"@,
        "editor"@,
        "exit"@,
        "export"@,
        "favorite"@,
        "fetch-models"@,
        "fork"@,
        "git"@,
        "init"@,
        "jobs"@,
        "lazygit"@,
        "llm-mode"@,
        "model"@,
        "model-settings"@,
        "mouse"@,
        "new"@,
        "permissions"@,
        "pin"@,
        "plan"@,
        "plans"@,
        "prune"@,
        "ps"@,
        "rename"@,
        "resume"@,
        "sandbox"@,
        "sessions"@,
        "settings"@,
        "side"@,
        "skills"@,
        "stats"@,
        "stop"@,
    ]
}

pub open spec fn names_of(v: Seq<SlashCommand>) -> Seq<Seq<char>> {
    v.map_values(|c: SlashCommand| c.name@)
}

/// What the menu says of the commands, in the same order.
pub open spec fn command_descriptions() -> Seq<Seq<char>> {
    seq![
        "Keep the machine awake so agents survive a closed lid (arg: on/off/until-idle)"@,
        "Switch the primary agent to Build (make changes)"@,
        "Clear the chat and start a fresh session (alias of /new)"@,
        "Compress the conversation to save context"@,
        "Show a colored breakdown of how the context window is filled"@,
        "Copy the last response to the clipboard (arg: markdown/plain/rich)"@,
        "Open $EDITOR in an embedded pane (arg: left/right/top/bottom)"@,
        "Quit cockpit"@,
        "Export the current conversation to .cockpit/exports/ (arg: debug for the full bundle)"@,
        "Mark the active model as a favorite"@,
        "Refresh model lists from every configured provider"@,
        "Branch a new conversation from the current point"@,
        "Run a git command and share its output with the agent"@,
        "Explore the project and write its instructions file (arg: target path)"@,
        "List active async jobs (arg: cancel <job-id> to cancel one)"@,
        "Open lazygit in an embedded pane"@,
        "Switch LLM steering mode (arg: toggle/defend/normal; bare = toggle)"@,
        "Switch the active model"@,
        "Open the active model's context, cache, shrink, and mode settings"@,
        "Toggle mouse capture (click-to-position, drag-select) on/off"@,
        "Clear the chat and start a fresh session"@,
        "View and delete persisted command/path approvals across project and global scopes"@,
        "Pin a message so it survives /compact verbatim (arg: text)"@,
        "Switch the primary agent to Plan (author a plan)"@,
        "Browse plans and their step dependency graphs (read-only)"@,
        "Collapse superseded snapshot reads to reclaim context"@,
        "List this session's running async jobs"@,
        "Rename the current session (arg: title)"@,
        "Browse and resume previous sessions (alias of /sessions)"@,
        "Toggle filesystem sandboxing (arg: on/off)"@,
        "Browse and resume previous sessions"@,
        "Open the settings dialog"@,
        "Start a throwaway side conversation forked from here (`/side end` to discard)"@,
        "List every discovered skill in a read-only overlay"@,
        "On-device model and project performance (tokens, recovery, languages)"@,
        "Stop this session's async jobs (arg: job-id for one, bare for all)"@,
    ]
}

pub open spec fn descriptions_of(v: Seq<SlashCommand>) -> Seq<Seq<char>> {
    v.map_values(|c: SlashCommand| c.description@)
}

fn command(name: &'static str, description: &'static str) -> (r: SlashCommand)
    ensures
        r.name == name,
        r.description == description,
{
    SlashCommand { name, description }
}

/// The commands, in the order of the menu.
pub fn slash_commands() -> (r: Vec<SlashCommand>)
    ensures
        names_of(r@) == command_names(),
        descriptions_of(r@) == command_descriptions(),
        r@.len() == 36,
{
    let v = vec![
        command(
            "caffeinate",
            "Keep the machine awake so agents survive a closed lid (arg: on/off/until-idle)",
        ),
        command("build", "Switch the primary agent to Build (make changes)"),
        command("clear", "Clear the chat and start a fresh session (alias of /new)"),
        command("compact", "Compress the conversation to save context"),
        command("context", "Show a colored breakdown of how the context window is filled"),
        command("copy", "Copy the last response to the clipboard (arg: markdown/plain/rich)"),
        command("editor", "Open $EDITOR in an embedded pane (arg: left/right/top/bottom)"),
        command("exit", "Quit cockpit"),
        command(
            "export",
            "Export the current conversation to .cockpit/exports/ (arg: debug for the full bundle)",
        ),
        command("favorite", "Mark the active model as a favorite"),
        command("fetch-models", "Refresh model lists from every configured provider"),
        command("fork", "Branch a new conversation from the current point"),
        command("git", "Run a git command and share its output with the agent"),
        command(
            "init",
            "Explore the project and write its instructions file (arg: target path)",
        ),
        command("jobs", "List active async jobs (arg: cancel <job-id> to cancel one)"),
        command("lazygit", "Open lazygit in an embedded pane"),
        command(
            "llm-mode",
            "Switch LLM steering mode (arg: toggle/defend/normal; bare = toggle)",
        ),
        command("model", "Switch the active model"),
        command(
            "model-settings",
            "Open the active model's context, cache, shrink, and mode settings",
        ),
        command("mouse", "Toggle mouse capture (click-to-position, drag-select) on/off"),
        command("new", "Clear the chat and start a fresh session"),
        command(
            "permissions",
            "View and delete persisted command/path approvals across project and global scopes",
        ),
        command("pin", "Pin a message so it survives /compact verbatim (arg: text)"),
        command("plan", "Switch the primary agent to Plan (author a plan)"),
        command("plans", "Browse plans and their step dependency graphs (read-only)"),
        command("prune", "Collapse superseded snapshot reads to reclaim context"),
        command("ps", "List this session's running async jobs"),
        command("rename", "Rename the current session (arg: title)"),
        command("resume", "Browse and resume previous sessions (alias of /sessions)"),
        command("sandbox", "Toggle filesystem sandboxing (arg: on/off)"),
        command("sessions", "Browse and resume previous sessions"),
        command("settings", "Open the settings dialog"),
        command(
            "side",
            "Start a throwaway side conversation forked from here (`/side end` to discard)",
        ),
        command("skills", "List every discovered skill in a read-only overlay"),
        command(
            "stats",
            "On-device model and project performance (tokens, recovery, languages)",
        ),
        command("stop", "Stop this session's async jobs (arg: job-id for one, bare for all)"),
    ];
    proof {
        assert(names_of(v@) =~= command_names());
        assert(descriptions_of(v@) =~= command_descriptions());
    }
    v
}

impl SlashCommand {
    /// Whether the command shows in the menu and can be run here: `/editor`
    /// needs an editor, `/lazygit` the program.
    pub fn is_available(&self, here: Availability) -> (r: bool)
        ensures
            r == offered(self.name@, here),
    {
        if same(self.name, "editor") {
            here.editor
        } else if same(self.name, "lazygit") {
            here.lazygit
        } else {
            true
        }
    }

    /// The command that the hidden `/modelsettings` stands for.
    pub fn model_settings_alias() -> (r: SlashCommand)
        ensures
            r.name@ == command_names()[18],
            r.name@ == "model-settings"@,
            r.description@ == command_descriptions()[18],
    {
        command(
            "model-settings",
            "Open the active model's context, cache, shrink, and mode settings",
        )
    }
}

// ---- Counting uses --------------------------------------------------------

/// How often each key was used.
pub struct UsageCounts {
    entries: Vec<(String, u64)>,
}

pub open spec fn count_views(v: Seq<(String, u64)>) -> Seq<(Seq<char>, u64)> {
    v.map_values(|e: (String, u64)| (e.0@, e.1))
}

impl View for UsageCounts {
    type V = Seq<(Seq<char>, u64)>;

    closed spec fn view(&self) -> Seq<(Seq<char>, u64)> {
        count_views(self.entries@)
    }
}

/// The count of `key` in a list of counts: that of its first entry, or 0.
pub open spec fn count_of(entries: Seq<(Seq<char>, u64)>, key: Seq<char>) -> u64
    decreases entries.len(),
{
    if entries.len() == 0 {
        0
    } else if entries[0].0 == key {
        entries[0].1
    } else {
        count_of(entries.drop_first(), key)
    }
}

/// Position of the entry of `key` from `from` on, or the number of entries.
pub open spec fn entry_of(entries: Seq<(Seq<char>, u64)>, key: Seq<char>, from: int) -> int
    decreases entries.len() - from,
{
    if from >= entries.len() {
        entries.len() as int
    } else if entries[from].0 == key {
        from
    } else {
        entry_of(entries, key, from + 1)
    }
}

/// Counts with `n` more uses of `key`.
pub open spec fn with_uses(
    entries: Seq<(Seq<char>, u64)>,
    key: Seq<char>,
    n: u64,
) -> Seq<(Seq<char>, u64)> {
    let i = entry_of(entries, key, 0);
    if i < entries.len() {
        entries.update(i, (key, capped_sum(entries[i].1 as int, n as int) as u64))
    } else {
        entries.push((key, n))
    }
}

/// Counts with all those of `server` added.
pub open spec fn merged_counts(
    entries: Seq<(Seq<char>, u64)>,
    server: Seq<(Seq<char>, u64)>,
) -> Seq<(Seq<char>, u64)>
    decreases server.len(),
{
    if server.len() == 0 {
        entries
    } else {
        with_uses(
            merged_counts(entries, server.drop_last()),
            server.last().0,
            server.last().1,
        )
    }
}

/// Sum that stays within 64 bits.
pub open spec fn capped_sum(a: int, b: int) -> int {
    min_int(a + b, u64::MAX as int)
}

proof fn lemma_count_update(e: Seq<(Seq<char>, u64)>, i: int, n: u64, k: Seq<char>)
    requires
        0 <= i < e.len(),
        forall|j: int| 0 <= j < i ==> (#[trigger] e[j]).0 != e[i].0,
    ensures
        count_of(e.update(i, (e[i].0, n)), k) == if k == e[i].0 {
            n
        } else {
            count_of(e, k)
        },
    decreases e.len(),
{
    let u = e.update(i, (e[i].0, n));
    if i == 0 {
        assert(u.drop_first() =~= e.drop_first());
    } else {
        assert(u[0] == e[0]);
        assert(u.drop_first() =~= e.drop_first().update(i - 1, (e[i].0, n)));
        assert forall|j: int| 0 <= j < i - 1 implies (#[trigger] e.drop_first()[j]).0 != e[i].0 by {
            assert(e[j + 1].0 != e[i].0);
        }
        lemma_count_update(e.drop_first(), i - 1, n, k);
    }
}

proof fn lemma_count_push(e: Seq<(Seq<char>, u64)>, key: Seq<char>, n: u64, k: Seq<char>)
    requires
        forall|j: int| 0 <= j < e.len() ==> (#[trigger] e[j]).0 != key,
    ensures
        count_of(e, key) == 0,
        count_of(e.push((key, n)), k) == if k == key {
            n
        } else {
            count_of(e, k)
        },
    decreases e.len(),
{
    let p = e.push((key, n));
    if e.len() == 0 {
        assert(p[0] == (key, n));
        assert(p.drop_first() =~= Seq::empty());
        assert(count_of(p.drop_first(), k) == 0);
        assert(count_of(e, k) == 0);
    } else {
        assert(p[0] == e[0]);
        assert(e[0].0 != key);
        assert(p.drop_first() =~= e.drop_first().push((key, n)));
        assert forall|j: int| 0 <= j < e.drop_first().len() implies (#[trigger] e.drop_first()[j]).0
            != key by {
            assert(e[j + 1].0 != key);
        }
        lemma_count_push(e.drop_first(), key, n, k);
    }
}

proof fn lemma_count_at(e: Seq<(Seq<char>, u64)>, i: int)
    requires
        0 <= i < e.len(),
        forall|j: int| 0 <= j < i ==> (#[trigger] e[j]).0 != e[i].0,
    ensures
        count_of(e, e[i].0) == e[i].1,
    decreases e.len(),
{
    if i > 0 {
        assert(e[0].0 != e[i].0);
        assert forall|j: int| 0 <= j < i - 1 implies (#[trigger] e.drop_first()[j]).0
            != e.drop_first()[i - 1].0 by {
            assert(e[j + 1].0 != e[i].0);
        }
        lemma_count_at(e.drop_first(), i - 1);
    }
}

impl UsageCounts {
    pub fn new() -> (r: UsageCounts)
        ensures
            r@ == Seq::<(Seq<char>, u64)>::empty(),
    {
        let r = UsageCounts { entries: Vec::new() };
        proof {
            assert(r@ =~= Seq::<(Seq<char>, u64)>::empty());
        }
        r
    }

    /// Position of the entry of `key`, or the number of entries.
    fn find_key(&self, key: &str) -> (r: usize)
        ensures
            r <= self.entries@.len(),
            forall|j: int| 0 <= j < r ==> (#[trigger] self@[j]).0 != key@,
            r < self.entries@.len() ==> self@[r as int].0 == key@,
            r == entry_of(self@, key@, 0),
    {
        let mut i: usize = 0;
        while i < self.entries.len()
            invariant
                i <= self.entries@.len(),
                entry_of(self@, key@, 0) == entry_of(self@, key@, i as int),
                forall|j: int| 0 <= j < i ==> (#[trigger] self@[j]).0 != key@,
            decreases self.entries@.len() - i,
        {
            if same(self.entries[i].0.as_str(), key) {
                return i;
            }
            i = i + 1;
        }
        i
    }

    /// The count of `key`.
    pub fn get(&self, key: &str) -> (r: u64)
        ensures
            r == count_of(self@, key@),
    {
        let i: usize = self.find_key(key);
        if i < self.entries.len() {
            proof {
                lemma_count_at(self@, i as int);
            }
            self.entries[i].1
        } else {
            proof {
                lemma_count_push(self@, key@, 0, key@);
            }
            0
        }
    }

    /// Count `n` more uses of `key`.
    pub fn bump(&mut self, key: &str, n: u64)
        ensures
            final(self)@ == with_uses(old(self)@, key@, n),
            forall|k: Seq<char>|
                #[trigger] count_of(final(self)@, k) == if k == key@ {
                    capped_sum(count_of(old(self)@, k) as int, n as int)
                } else {
                    count_of(old(self)@, k) as int
                },
    {
        let i: usize = self.find_key(key);
        let ghost before = self@;
        if i < self.entries.len() {
            let c: u64 = self.entries[i].1;
            let sum: u64 = if c > u64::MAX - n {
                u64::MAX
            } else {
                c + n
            };
            self.entries[i].1 = sum;
            proof {
                lemma_count_at(before, i as int);
                assert(self@ =~= before.update(i as int, (key@, sum)));
                assert forall|k: Seq<char>| #[trigger] count_of(self@, k) == if k == key@ {
                    capped_sum(count_of(before, k) as int, n as int)
                } else {
                    count_of(before, k) as int
                } by {
                    lemma_count_update(before, i as int, sum, k);
                }
            }
        } else {
            self.entries.push((String::from_str(key), n));
            proof {
                assert(self@ =~= before.push((key@, n)));
                assert forall|k: Seq<char>| #[trigger] count_of(self@, k) == if k == key@ {
                    capped_sum(count_of(before, k) as int, n as int)
                } else {
                    count_of(before, k) as int
                } by {
                    lemma_count_push(before, key@, n, k);
                }
            }
        }
    }

    /// Forget all counts.
    pub fn clear(&mut self)
        ensures
            final(self)@ == Seq::<(Seq<char>, u64)>::empty(),
    {
        self.entries = Vec::new();
        proof {
            assert(self@ =~= Seq::<(Seq<char>, u64)>::empty());
        }
    }
}

/// Uses of `key` in a list of counts, all entries together.
pub open spec fn sum_of(entries: Seq<(Seq<char>, u64)>, key: Seq<char>) -> int
    decreases entries.len(),
{
    if entries.len() == 0 {
        0
    } else {
        sum_of(entries.drop_last(), key) + if entries.last().0 == key {
            entries.last().1 as int
        } else {
            0int
        }
    }
}

/// Add the counts of `server` to those of `local`.
pub fn merge_counts(local: &mut UsageCounts, server: &UsageCounts)
    ensures
        final(local)@ == merged_counts(old(local)@, server@),
        forall|k: Seq<char>|
            #[trigger] count_of(final(local)@, k) == capped_sum(
                count_of(old(local)@, k) as int,
                sum_of(server@, k),
            ),
{
    let ghost before = local@;
    let mut i: usize = 0;
    proof {
        assert(server@.take(0) =~= Seq::empty());
    }
    while i < server.entries.len()
        invariant
            i <= server.entries@.len(),
            before == old(local)@,
            local@ == merged_counts(before, server@.take(i as int)),
            forall|k: Seq<char>|
                #[trigger] count_of(local@, k) == capped_sum(
                    count_of(before, k) as int,
                    sum_of(server@.take(i as int), k),
                ),
            forall|k: Seq<char>| #[trigger] sum_of(server@.take(i as int), k) >= 0,
        decreases server.entries@.len() - i,
    {
        let ghost middle = local@;
        local.bump(server.entries[i].0.as_str(), server.entries[i].1);
        proof {
            let t = server@.take(i + 1);
            assert(t.drop_last() =~= server@.take(i as int));
            assert(t.last() == server@[i as int]);
            assert forall|k: Seq<char>| #[trigger] count_of(local@, k) == capped_sum(
                count_of(before, k) as int,
                sum_of(t, k),
            ) by {
                assert(count_of(middle, k) == capped_sum(
                    count_of(before, k) as int,
                    sum_of(server@.take(i as int), k),
                ));
            }
            assert forall|k: Seq<char>| #[trigger] sum_of(t, k) >= 0 by {
                assert(sum_of(server@.take(i as int), k) >= 0);
            }
        }
        i = i + 1;
    }
    proof {
        assert(server@.take(i as int) =~= server@);
    }
}

// ---- Matching and ranking -------------------------------------------------

/// Whether command `i` matches the query here.
pub open spec fn matches_query(i: int, query: Seq<char>, here: Availability) -> bool {
    begins_with(command_names()[i], query) && offered(command_names()[i], here)
}

/// Uses of command `i`.
pub open spec fn uses(counts: Seq<(Seq<char>, u64)>, i: int) -> u64 {
    count_of(counts, command_names()[i])
}

/// `ranked` with command `i` behind all that were used at least as often.
pub open spec fn rank_in(
    ranked: Seq<int>,
    i: int,
    counts: Seq<(Seq<char>, u64)>,
) -> Seq<int>
    decreases ranked.len(),
{
    if ranked.len() > 0 && uses(counts, ranked.last()) < uses(counts, i) {
        rank_in(ranked.drop_last(), i, counts).push(ranked.last())
    } else {
        ranked.push(i)
    }
}

/// The first `n` commands that match, by number of uses and then by their place
/// in the menu.
pub open spec fn ranking(
    n: int,
    query: Seq<char>,
    counts: Seq<(Seq<char>, u64)>,
    here: Availability,
) -> Seq<int>
    decreases n,
{
    if n <= 0 {
        Seq::empty()
    } else {
        let before = ranking(n - 1, query, counts, here);
        if matches_query(n - 1, query, here) {
            rank_in(before, n - 1, counts)
        } else {
            before
        }
    }
}

/// Whether `a` comes before `b` in a ranking.
pub open spec fn ranks_before(a: int, b: int, counts: Seq<(Seq<char>, u64)>) -> bool {
    uses(counts, a) > uses(counts, b) || (uses(counts, a) == uses(counts, b) && a < b)
}

proof fn lemma_push_has(s: Seq<int>, y: int, x: int)
    ensures
        s.push(y).contains(x) == (s.contains(x) || x == y),
{
    if s.contains(x) {
        let j = choose|j: int| 0 <= j < s.len() && s[j] == x;
        assert(s.push(y)[j] == x);
    }
    if x == y {
        assert(s.push(y)[s.len() as int] == x);
    }
}

proof fn lemma_rank_in_has(r: Seq<int>, i: int, counts: Seq<(Seq<char>, u64)>, x: int)
    ensures
        rank_in(r, i, counts).contains(x) == (x == i || r.contains(x)),
    decreases r.len(),
{
    if r.len() > 0 && uses(counts, r.last()) < uses(counts, i) {
        lemma_rank_in_has(r.drop_last(), i, counts, x);
        lemma_push_has(rank_in(r.drop_last(), i, counts), r.last(), x);
        lemma_push_has(r.drop_last(), r.last(), x);
        assert(r.drop_last().push(r.last()) =~= r);
    } else {
        lemma_push_has(r, i, x);
    }
}

proof fn lemma_rank_in(r: Seq<int>, i: int, counts: Seq<(Seq<char>, u64)>)
    requires
        forall|a: int, b: int|
            0 <= a < b < r.len() ==> ranks_before(#[trigger] r[a], #[trigger] r[b], counts),
        forall|a: int| 0 <= a < r.len() ==> 0 <= #[trigger] r[a] < i,
    ensures
        rank_in(r, i, counts).len() == r.len() + 1,
        forall|a: int, b: int|
            0 <= a < b < r.len() + 1 ==> ranks_before(
                #[trigger] rank_in(r, i, counts)[a],
                #[trigger] rank_in(r, i, counts)[b],
                counts,
            ),
    decreases r.len(),
{
    let all = rank_in(r, i, counts);
    if r.len() > 0 && uses(counts, r.last()) < uses(counts, i) {
        let rest = r.drop_last();
        assert forall|a: int, b: int| 0 <= a < b < rest.len() implies ranks_before(
            #[trigger] rest[a],
            #[trigger] rest[b],
            counts,
        ) by {
            assert(ranks_before(r[a], r[b], counts));
        }
        assert forall|a: int| 0 <= a < rest.len() implies 0 <= #[trigger] rest[a] < i by {
            assert(0 <= r[a] < i);
        }
        lemma_rank_in(rest, i, counts);
        let sub = rank_in(rest, i, counts);
        assert forall|a: int, b: int| 0 <= a < b < all.len() implies ranks_before(
            #[trigger] all[a],
            #[trigger] all[b],
            counts,
        ) by {
            if b < sub.len() {
                assert(ranks_before(sub[a], sub[b], counts));
            } else {
                assert(all[a] == sub[a]);
                assert(sub.contains(sub[a]));
                lemma_rank_in_has(rest, i, counts, sub[a]);
                if sub[a] != i {
                    let j = choose|j: int| 0 <= j < rest.len() && rest[j] == sub[a];
                    assert(ranks_before(r[j], r[r.len() - 1], counts));
                }
            }
        }
    } else {
        assert forall|a: int, b: int| 0 <= a < b < all.len() implies ranks_before(
            #[trigger] all[a],
            #[trigger] all[b],
            counts,
        ) by {
            if b == r.len() {
                assert(all[a] == r[a]);
                assert(0 <= r[a] < i);
                if a < r.len() - 1 {
                    assert(ranks_before(r[a], r[r.len() - 1], counts));
                }
            } else {
                assert(ranks_before(r[a], r[b], counts));
            }
        }
    }
}

proof fn lemma_ranking_has(
    n: int,
    query: Seq<char>,
    counts: Seq<(Seq<char>, u64)>,
    here: Availability,
    x: int,
)
    requires
        0 <= n,
    ensures
        ranking(n, query, counts, here).contains(x) == (0 <= x < n && matches_query(
            x,
            query,
            here,
        )),
    decreases n,
{
    if n > 0 {
        lemma_ranking_has(n - 1, query, counts, here, x);
        if matches_query(n - 1, query, here) {
            lemma_rank_in_has(ranking(n - 1, query, counts, here), n - 1, counts, x);
        }
    }
}

/// The ranking holds exactly the matching commands, each once, the more used
/// before the less used and equally used ones in the order of the menu.
pub proof fn ranking_is_ordered_and_complete(
    n: int,
    query: Seq<char>,
    counts: Seq<(Seq<char>, u64)>,
    here: Availability,
)
    requires
        0 <= n <= 36,
    ensures
        forall|a: int, b: int|
            0 <= a < b < ranking(n, query, counts, here).len() ==> ranks_before(
                #[trigger] ranking(n, query, counts, here)[a],
                #[trigger] ranking(n, query, counts, here)[b],
                counts,
            ),
        forall|i: int| #[trigger]
            ranking(n, query, counts, here).contains(i) <==> (0 <= i < n && matches_query(
                i,
                query,
                here,
            )),
    decreases n,
{
    assert forall|i: int| #[trigger]
        ranking(n, query, counts, here).contains(i) <==> (0 <= i < n && matches_query(
            i,
            query,
            here,
        )) by {
        lemma_ranking_has(n, query, counts, here, i);
    }
    if n > 0 {
        ranking_is_ordered_and_complete(n - 1, query, counts, here);
        let before = ranking(n - 1, query, counts, here);
        if matches_query(n - 1, query, here) {
            assert forall|a: int| 0 <= a < before.len() implies 0 <= #[trigger] before[a] < n
                - 1 by {
                assert(before.contains(before[a]));
            }
            lemma_rank_in(before, n - 1, counts);
        }
    }
}

/// Indexes as integers.
pub open spec fn as_indexes(v: Seq<usize>) -> Seq<int> {
    v.map_values(|i: usize| i as int)
}

/// The commands that begin with `query` and can be used here, the most used
/// first, equally used ones in the order of the menu.
pub fn slash_matches(query: &str, counts: &UsageCounts, here: Availability) -> (r: Vec<
    SlashCommand,
>)
    ensures
        names_of(r@) == ranking(36, query@, counts@, here).map_values(
            |i: int| command_names()[i],
        ),
        descriptions_of(r@) == ranking(36, query@, counts@, here).map_values(
            |i: int| command_descriptions()[i],
        ),
{
    let all: Vec<SlashCommand> = slash_commands();
    let mut ranked: Vec<usize> = Vec::new();
    let mut i: usize = 0;
    proof {
        assert(as_indexes(ranked@) =~= Seq::empty());
    }
    while i < all.len()
        invariant
            i <= all@.len() == 36,
            names_of(all@) == command_names(),
            descriptions_of(all@) == command_descriptions(),
            as_indexes(ranked@) == ranking(i as int, query@, counts@, here),
            forall|j: int| 0 <= j < ranked@.len() ==> #[trigger] ranked@[j] < i,
        decreases all@.len() - i,
    {
        proof {
            assert(command_names()[i as int] == all@[i as int].name@);
        }
        if starts_with(all[i].name, query) && all[i].is_available(here) {
            let mine: u64 = counts.get(all[i].name);
            let mut at: usize = ranked.len();
            let ghost before = as_indexes(ranked@);
            proof {
                assert(before.take(before.len() as int) =~= before);
                assert(before.skip(before.len() as int) =~= Seq::empty());
                assert(rank_in(before, i as int, counts@) =~= rank_in(before, i as int, counts@)
                    + Seq::empty());
            }
            while at > 0 && counts.get(all[ranked[at - 1]].name) < mine
                invariant
                    at <= ranked@.len() == before.len(),
                    i < all@.len() == 36,
                    names_of(all@) == command_names(),
                    before == as_indexes(ranked@),
                    forall|j: int| 0 <= j < ranked@.len() ==> #[trigger] ranked@[j] < i,
                    mine == uses(counts@, i as int),
                    rank_in(before, i as int, counts@) == rank_in(
                        before.take(at as int),
                        i as int,
                        counts@,
                    ) + before.skip(at as int),
                decreases at,
            {
                proof {
                    assert(command_names()[before[at - 1]] == all@[ranked@[at - 1] as int].name@);
                    assert(before.take(at as int).last() == before[at - 1]);
                    assert(before.take(at as int).drop_last() =~= before.take(at - 1));
                    assert(rank_in(before.take(at as int), i as int, counts@) + before.skip(
                        at as int,
                    ) =~= rank_in(before.take(at - 1), i as int, counts@) + before.skip(at - 1));
                }
                at = at - 1;
            }
            proof {
                if at > 0 {
                    assert(command_names()[before[at - 1]] == all@[ranked@[at - 1] as int].name@);
                    assert(before.take(at as int).last() == before[at - 1]);
                }
                assert(rank_in(before.take(at as int), i as int, counts@) == before.take(
                    at as int,
                ).push(i as int));
            }
            ranked.insert(at, i);
            proof {
                assert(as_indexes(ranked@) =~= before.take(at as int).push(i as int)
                    + before.skip(at as int));
            }
        }
        i = i + 1;
    }
    let mut out: Vec<SlashCommand> = Vec::new();
    let mut k: usize = 0;
    let ghost goal = ranking(36, query@, counts@, here).map_values(|j: int| command_names()[j]);
    let ghost told = ranking(36, query@, counts@, here).map_values(
        |j: int| command_descriptions()[j],
    );
    proof {
        assert(names_of(out@) =~= goal.take(0));
        assert(descriptions_of(out@) =~= told.take(0));
    }
    while k < ranked.len()
        invariant
            k <= ranked@.len() == goal.len(),
            all@.len() == 36,
            names_of(all@) == command_names(),
            as_indexes(ranked@) == ranking(36, query@, counts@, here),
            goal == ranking(36, query@, counts@, here).map_values(|j: int| command_names()[j]),
            forall|j: int| 0 <= j < ranked@.len() ==> #[trigger] ranked@[j] < 36,
            names_of(out@) == goal.take(k as int),
            told.len() == goal.len(),
            descriptions_of(all@) == command_descriptions(),
            told == ranking(36, query@, counts@, here).map_values(
                |j: int| command_descriptions()[j],
            ),
            descriptions_of(out@) == told.take(k as int),
        decreases ranked@.len() - k,
    {
        let ghost before = names_of(out@);
        let ghost said = descriptions_of(out@);
        let c: SlashCommand = all[ranked[k]];
        proof {
            assert(command_names()[ranked@[k as int] as int] == c.name@);
            assert(as_indexes(ranked@)[k as int] == ranked@[k as int]);
            assert(goal.take(k + 1) =~= goal.take(k as int).push(goal[k as int]));
            assert(command_descriptions()[ranked@[k as int] as int] == c.description@);
            assert(told.take(k + 1) =~= told.take(k as int).push(told[k as int]));
        }
        out.push(c);
        proof {
            assert(names_of(out@) =~= before.push(c.name@));
            assert(descriptions_of(out@) =~= said.push(c.description@));
        }
        k = k + 1;
    }
    proof {
        assert(goal.take(k as int) =~= goal);
        assert(told.take(k as int) =~= told);
    }
    out
}

/// The arguments of a slash line: what follows the command word.
pub open spec fn args_of(raw: Seq<char>) -> Seq<char> {
    let rest = if raw.len() > 0 && raw[0] == '/' {
        raw.drop_first()
    } else {
        raw
    };
    trim(rest.skip(space_from(rest, 0)))
}

/// The arguments of a slash line, without the white space around them.
pub fn slash_args(raw: &str) -> (r: String)
    ensures
        r@ == args_of(raw@),
{
    let v: Vec<char> = to_chars(raw);
    let from: usize = if v.len() > 0 && v[0] == '/' {
        1
    } else {
        0
    };
    let rest: String = from_range(&v, from, v.len());
    proof {
        if from == 1 {
            assert(rest@ =~= raw@.drop_first());
        } else {
            assert(rest@ =~= raw@);
        }
    }
    let w: Vec<char> = to_chars(rest.as_str());
    let at: usize = find_space(&w, 0);
    let tail: String = from_range(&w, at, w.len());
    proof {
        assert(tail@ =~= rest@.skip(space_from(rest@, 0)));
    }
    trimmed(tail.as_str())
}

} // verus!
