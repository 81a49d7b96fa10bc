//! Parsing command arguments, and preparing the output of local commands for
//! the chat and for the agent.

use vstd::prelude::*;
use crate::editor::text_of;
use crate::nav::{max_int, max_usize, min_int, min_usize};
use crate::text::{concat2, concat3, decimal, find, first_line, first_line_of, from_range, has_char, join, joined, lemma_has_char, lines, lines_of, lowered, push_decimal, same, texts, to_chars, trim, trim_newlines, trimmed_lower, without_final_newlines};

verus! {

// ---- Arguments ------------------------------------------------------------

/// Where an embedded pane sits.
#[derive(Debug, Clone, Copy, PartialEq, Eq, Structural)]
pub enum PaneSide {
    Full,
    Left,
    Right,
    Top,
    Bottom,
}

/// A command argument as it is compared: trimmed, in lower case.
pub open spec fn word(arg: Seq<char>) -> Seq<char> {
    lowered(trim(arg))
}

pub open spec fn pane_side(w: Seq<char>) -> PaneSide {
    if w == "left"@ {
        PaneSide::Left
    } else if w == "right"@ {
        PaneSide::Right
    } else if w == "top"@ || w == "up"@ {
        PaneSide::Top
    } else if w == "bottom"@ || w == "down"@ {
        PaneSide::Bottom
    } else {
        PaneSide::Full
    }
}

/// The side that an `/editor` argument names; the whole area for anything else.
pub fn parse_pane_side(arg: &str) -> (r: PaneSide)
    ensures
        r == pane_side(word(arg@)),
{
    let w: String = trimmed_lower(arg);
    let w: &str = w.as_str();
    if same(w, "left") {
        PaneSide::Left
    } else if same(w, "right") {
        PaneSide::Right
    } else if same(w, "top") || same(w, "up") {
        PaneSide::Top
    } else if same(w, "bottom") || same(w, "down") {
        PaneSide::Bottom
    } else {
        PaneSide::Full
    }
}

/// What a `/sandbox` argument asks for: `Some(None)` toggles, `None` is neither
/// `on` nor `off`.
pub open spec fn sandbox_request(w: Seq<char>) -> Option<Option<bool>> {
    if w == ""@ {
        Some(None)
    } else if w == "on"@ {
        Some(Some(true))
    } else if w == "off"@ {
        Some(Some(false))
    } else {
        None
    }
}

/// A `/sandbox` argument: none toggles, `on` and `off` set, anything else is
/// returned as the error.
pub fn parse_sandbox_arg(args: &str) -> (r: Result<Option<bool>, String>)
    ensures
        match r {
            Ok(enabled) => sandbox_request(word(args@)) == Some(enabled),
            Err(e) => sandbox_request(word(args@)) is None && e@ == word(args@),
        },
{
    let w: String = trimmed_lower(args);
    if same(w.as_str(), "") {
        Ok(None)
    } else if same(w.as_str(), "on") {
        Ok(Some(true))
    } else if same(w.as_str(), "off") {
        Ok(Some(false))
    } else {
        Err(w)
    }
}

/// How `/copy` copies.
#[derive(Debug, Clone, Copy, PartialEq, Eq, Structural)]
pub enum CopyFormat {
    Markdown,
    Plain,
    Rich,
}

pub open spec fn copy_format(w: Seq<char>) -> Option<CopyFormat> {
    if w == ""@ || w == "markdown"@ {
        Some(CopyFormat::Markdown)
    } else if w == "plain"@ || w == "plaintext"@ {
        Some(CopyFormat::Plain)
    } else if w == "rich"@ || w == "richtext"@ {
        Some(CopyFormat::Rich)
    } else {
        None
    }
}

/// The format that a `/copy` argument names; markdown without one.
pub fn parse_copy_format(arg: &str) -> (r: Option<CopyFormat>)
    ensures
        r == copy_format(word(arg@)),
{
    let w: String = trimmed_lower(arg);
    let w: &str = w.as_str();
    if same(w, "") || same(w, "markdown") {
        Some(CopyFormat::Markdown)
    } else if same(w, "plain") || same(w, "plaintext") {
        Some(CopyFormat::Plain)
    } else if same(w, "rich") || same(w, "richtext") {
        Some(CopyFormat::Rich)
    } else {
        None
    }
}

/// How strongly the model is steered.
#[derive(Debug, Clone, Copy, PartialEq, Eq, Structural)]
pub enum LlmMode {
    Normal,
    Defensive,
}

impl LlmMode {
    pub open spec fn name(self) -> Seq<char> {
        match self {
            LlmMode::Normal => "normal"@,
            LlmMode::Defensive => "defensive"@,
        }
    }

    pub open spec fn other(self) -> LlmMode {
        match self {
            LlmMode::Normal => LlmMode::Defensive,
            LlmMode::Defensive => LlmMode::Normal,
        }
    }

    pub fn as_str(self) -> (r: &'static str)
        ensures
            r@ == self.name(),
    {
        match self {
            LlmMode::Normal => "normal",
            LlmMode::Defensive => "defensive",
        }
    }

    /// The other mode.
    pub fn toggled(self) -> (r: LlmMode)
        ensures
            r == self.other(),
    {
        match self {
            LlmMode::Normal => LlmMode::Defensive,
            LlmMode::Defensive => LlmMode::Normal,
        }
    }
}

/// What an `/llm-mode` argument asks for: `Some(None)` toggles, `None` is no
/// mode.
pub open spec fn llm_request(w: Seq<char>) -> Option<Option<LlmMode>> {
    if w == ""@ || w == "toggle"@ {
        Some(None)
    } else if w == "defend"@ || w == "defensive"@ {
        Some(Some(LlmMode::Defensive))
    } else if w == "normal"@ {
        Some(Some(LlmMode::Normal))
    } else {
        None
    }
}

pub open spec fn llm_usage(w: Seq<char>) -> Seq<char> {
    "Usage: `/llm-mode [toggle|defend|normal]` (got `"@ + w + "`)"@
}

/// An `/llm-mode` argument: `Ok(None)` toggles, `Ok(Some(..))` sets, `Err` is
/// the usage line.
pub fn parse_llm_mode_arg(arg: &str) -> (r: Result<Option<LlmMode>, String>)
    ensures
        match r {
            Ok(m) => llm_request(word(arg@)) == Some(m),
            Err(usage) => llm_request(word(arg@)) is None && usage@ == llm_usage(word(arg@)),
        },
{
    let w: String = trimmed_lower(arg);
    if same(w.as_str(), "") || same(w.as_str(), "toggle") {
        Ok(None)
    } else if same(w.as_str(), "defend") || same(w.as_str(), "defensive") {
        Ok(Some(LlmMode::Defensive))
    } else if same(w.as_str(), "normal") {
        Ok(Some(LlmMode::Normal))
    } else {
        Err(concat3("Usage: `/llm-mode [toggle|defend|normal]` (got `", w.as_str(), "`)"))
    }
}

/// How the machine is kept awake.
#[derive(Debug, Clone, Copy, PartialEq, Eq, Structural)]
pub enum CaffeinateMode {
    Toggle,
    On,
    Off,
    UntilIdle,
}

pub open spec fn caffeinate_mode(w: Seq<char>) -> Option<CaffeinateMode> {
    if w == ""@ || w == "toggle"@ {
        Some(CaffeinateMode::Toggle)
    } else if w == "on"@ {
        Some(CaffeinateMode::On)
    } else if w == "off"@ {
        Some(CaffeinateMode::Off)
    } else if w == "until-idle"@ {
        Some(CaffeinateMode::UntilIdle)
    } else {
        None
    }
}

/// A `/caffeinate` argument: none toggles; anything unknown is returned as the
/// error.
pub fn parse_caffeinate_arg(arg: &str) -> (r: Result<CaffeinateMode, String>)
    ensures
        match r {
            Ok(m) => caffeinate_mode(word(arg@)) == Some(m),
            Err(e) => caffeinate_mode(word(arg@)) is None && e@ == word(arg@),
        },
{
    let w: String = trimmed_lower(arg);
    if same(w.as_str(), "") || same(w.as_str(), "toggle") {
        Ok(CaffeinateMode::Toggle)
    } else if same(w.as_str(), "on") {
        Ok(CaffeinateMode::On)
    } else if same(w.as_str(), "off") {
        Ok(CaffeinateMode::Off)
    } else if same(w.as_str(), "until-idle") {
        Ok(CaffeinateMode::UntilIdle)
    } else {
        Err(w)
    }
}

/// How a provider caches prompts.
#[derive(Debug, Clone, Copy, PartialEq, Eq, Structural)]
pub enum CacheMode {
    Uncached,
    Ephemeral,
}

#[derive(Debug, Clone, Copy, PartialEq, Eq, Structural)]
pub struct CacheConfig {
    pub mode: CacheMode,
    pub ttl_secs: u64,
}

/// Whether a provider with this configuration caches at all.
pub fn cache_config_caches(cache: &CacheConfig) -> (r: bool)
    ensures
        r == !(cache.mode is Uncached),
{
    !matches!(cache.mode, CacheMode::Uncached)
}

// ---- Tools ----------------------------------------------------------------

/// The arguments of a tool call that the chat shows.
pub struct ToolArgs {
    pub command: Option<String>,
    pub path: Option<String>,
    pub url: Option<String>,
    pub old_string: Option<String>,
    pub new_string: Option<String>,
    /// All arguments on one short line.
    pub short: String,
}

#[verifier::ext_equal]
pub struct ToolArgsView {
    pub command: Option<Seq<char>>,
    pub path: Option<Seq<char>>,
    pub url: Option<Seq<char>>,
    pub old_string: Option<Seq<char>>,
    pub new_string: Option<Seq<char>>,
    pub short: Seq<char>,
}

impl View for ToolArgs {
    type V = ToolArgsView;

    open spec fn view(&self) -> ToolArgsView {
        ToolArgsView {
            command: text_of(self.command),
            path: text_of(self.path),
            url: text_of(self.url),
            old_string: text_of(self.old_string),
            new_string: text_of(self.new_string),
            short: self.short@,
        }
    }
}

/// A value of JSON.
#[verifier::external_type_specification]
#[verifier::external_body]
pub struct ExJsonValue(serde_json::Value);

/// The members of an object of JSON that are strings; none of any other value.
pub uninterp spec fn string_members(v: serde_json::Value) -> Map<Seq<char>, Seq<char>>;

/// `serde_json::Value::get` by a name, and `as_str` of what it finds: the member
/// of that name when the value is an object that has it and the member is a
/// string.
#[verifier::external_body]
fn string_member(v: &serde_json::Value, name: &str) -> (r: Option<String>)
    ensures
        text_of(r) == member(string_members(*v), name@),
{
    v.get(name).and_then(|m| m.as_str()).map(str::to_string)
}

pub open spec fn member(m: Map<Seq<char>, Seq<char>>, name: Seq<char>) -> Option<Seq<char>> {
    if m.dom().contains(name) {
        Some(m[name])
    } else {
        None
    }
}

/// The arguments of a call whose string members are `m`.
pub open spec fn json_args(m: Map<Seq<char>, Seq<char>>, short: Seq<char>) -> ToolArgsView {
    ToolArgsView {
        command: member(m, "command"@),
        path: member(m, "path"@),
        url: member(m, "url"@),
        old_string: member(m, "old_string"@),
        new_string: member(m, "new_string"@),
        short,
    }
}

impl ToolArgs {
    /// What the chat shows of the arguments `args`, which `short` has on one line.
    pub fn from_json(args: &serde_json::Value, short: String) -> (r: ToolArgs)
        ensures
            r@ == json_args(string_members(*args), short@),
    {
        ToolArgs {
            command: string_member(args, "command"),
            path: string_member(args, "path"),
            url: string_member(args, "url"),
            old_string: string_member(args, "old_string"),
            new_string: string_member(args, "new_string"),
            short,
        }
    }
}

/// The parts of an edit that its diff needs.
pub struct PendingEditArgs {
    pub path: String,
    pub old: String,
    pub new: String,
}

#[verifier::ext_equal]
pub struct EditView {
    pub path: Seq<char>,
    pub old: Seq<char>,
    pub new: Seq<char>,
}

impl View for PendingEditArgs {
    type V = EditView;

    open spec fn view(&self) -> EditView {
        EditView { path: self.path@, old: self.old@, new: self.new@ }
    }
}

pub open spec fn edit_tool(tool: Seq<char>) -> bool {
    tool == "edit"@ || tool == "editunlock"@
}

pub open spec fn write_tool(tool: Seq<char>) -> bool {
    tool == "write"@ || tool == "writeunlock"@
}

/// Tools whose output is not kept.
pub open spec fn input_only_tool(tool: Seq<char>) -> bool {
    tool == "read"@ || tool == "readlock"@ || tool == "unlock"@
}

/// Whether the tool's calls show as diffs.
pub fn is_edit_tool(tool: &str) -> (r: bool)
    ensures
        r == edit_tool(tool@),
{
    same(tool, "edit") || same(tool, "editunlock")
}

/// Whether the tool's calls show as lines of their own.
pub fn is_write_tool(tool: &str) -> (r: bool)
    ensures
        r == write_tool(tool@),
{
    same(tool, "write") || same(tool, "writeunlock")
}

/// Whether the output of the tool is kept for the chat.
pub fn tool_shows_output(tool: &str) -> (r: bool)
    ensures
        r == !input_only_tool(tool@),
{
    !(same(tool, "read") || same(tool, "readlock") || same(tool, "unlock"))
}

pub open spec fn or_short(field: Option<Seq<char>>, args: ToolArgsView) -> Seq<char> {
    match field {
        Some(t) => t,
        None => args.short,
    }
}

/// The summary line and the full input of a tool call: the first line of a
/// command, the path of a file tool, the address of a fetch, or all arguments.
pub open spec fn invocation(tool: Seq<char>, args: ToolArgsView) -> (Seq<char>, Seq<char>) {
    if tool == "bash"@ {
        let cmd = match args.command {
            Some(c) => c,
            None => Seq::empty(),
        };
        let first = first_line_of(cmd);
        (
            if has_char(cmd, '\n') {
                first + " …"@
            } else {
                first
            },
            cmd,
        )
    } else if input_only_tool(tool) || write_tool(tool) || edit_tool(tool) {
        (or_short(args.path, args), or_short(args.path, args))
    } else if tool == "webfetch"@ {
        (or_short(args.url, args), or_short(args.url, args))
    } else {
        (args.short, args.short)
    }
}

fn field_or_short(field: &Option<String>, short: &String) -> (r: String)
    ensures
        r@ == (match text_of(*field) {
            Some(t) => t,
            None => short@,
        }),
{
    match field {
        Some(t) => t.clone(),
        None => short.clone(),
    }
}

/// The summary line and the full input of a tool call.
pub fn tool_invocation(tool: &str, args: &ToolArgs) -> (r: (String, String))
    ensures
        (r.0@, r.1@) == invocation(tool@, args@),
{
    if same(tool, "bash") {
        let cmd: String = match &args.command {
            Some(c) => c.clone(),
            None => String::new(),
        };
        let first: String = first_line(cmd.as_str());
        let v: Vec<char> = to_chars(cmd.as_str());
        proof {
            lemma_has_char(v@, '\n');
        }
        let summary: String = if find(&v, '\n', 0) < v.len() {
            concat2(first.as_str(), " …")
        } else {
            first
        };
        (summary, cmd)
    } else if !tool_shows_output(tool) || is_write_tool(tool) || is_edit_tool(tool) {
        (field_or_short(&args.path, &args.short), field_or_short(&args.path, &args.short))
    } else if same(tool, "webfetch") {
        (field_or_short(&args.url, &args.short), field_or_short(&args.url, &args.short))
    } else {
        (args.short.clone(), args.short.clone())
    }
}

/// The edit that the arguments describe, when all of it is there.
pub open spec fn edit_of(args: ToolArgsView) -> Option<EditView> {
    if args.path is Some && args.old_string is Some && args.new_string is Some {
        Some(
            EditView { path: args.path->0, old: args.old_string->0, new: args.new_string->0 },
        )
    } else {
        None
    }
}

/// The edit that the arguments describe, when all of it is there.
pub fn extract_edit_args(args: &ToolArgs) -> (r: Option<PendingEditArgs>)
    ensures
        match r {
            Some(e) => edit_of(args@) == Some(e@),
            None => edit_of(args@) is None,
        },
{
    match (&args.path, &args.old_string, &args.new_string) {
        (Some(path), Some(old), Some(new)) => Some(
            PendingEditArgs { path: path.clone(), old: old.clone(), new: new.clone() },
        ),
        _ => None,
    }
}

// ---- Output of local commands ---------------------------------------------

/// Lines of output shown in the chat.
pub const LOCAL_CMD_DISPLAY_LINES: usize = 100;

/// Tokens of output sent to the agent.
pub const GIT_AGENT_TOKEN_CAP: usize = 2000;

/// Position after the control sequence whose parameters start at `i`: past the
/// first character from `@` to `~`.
pub open spec fn csi_end(s: Seq<char>, i: int) -> int
    decreases s.len() - i,
{
    if i >= s.len() {
        s.len() as int
    } else if '\x40' <= s[i] && s[i] <= '\x7e' {
        i + 1
    } else {
        csi_end(s, i + 1)
    }
}

/// Position after the operating system command that starts at `i`: past a BEL
/// or an escape, and past the backslash after the latter.
pub open spec fn osc_end(s: Seq<char>, i: int) -> int
    decreases s.len() - i,
{
    if i >= s.len() {
        s.len() as int
    } else if s[i] == '\x07' {
        i + 1
    } else if s[i] == '\x1b' {
        if i + 1 < s.len() && s[i + 1] == '\\' {
            i + 2
        } else {
            i + 1
        }
    } else {
        osc_end(s, i + 1)
    }
}

proof fn lemma_csi_end(s: Seq<char>, i: int)
    requires
        0 <= i <= s.len(),
    ensures
        i <= csi_end(s, i) <= s.len(),
    decreases s.len() - i,
{
    if i < s.len() && !('\x40' <= s[i] && s[i] <= '\x7e') {
        lemma_csi_end(s, i + 1);
    }
}

proof fn lemma_osc_end(s: Seq<char>, i: int)
    requires
        0 <= i <= s.len(),
    ensures
        i <= osc_end(s, i) <= s.len(),
    decreases s.len() - i,
{
    if i < s.len() && s[i] != '\x07' && s[i] != '\x1b' {
        lemma_osc_end(s, i + 1);
    }
}

/// Position after the escape sequence at `i`.
pub open spec fn escape_end(s: Seq<char>, i: int) -> int {
    if i + 1 >= s.len() {
        s.len() as int
    } else if s[i + 1] == '[' {
        csi_end(s, i + 2)
    } else if s[i + 1] == ']' {
        osc_end(s, i + 2)
    } else {
        i + 2
    }
}

proof fn lemma_escape_end(s: Seq<char>, i: int)
    requires
        0 <= i < s.len(),
    ensures
        i < escape_end(s, i) <= s.len(),
{
    if i + 1 < s.len() {
        lemma_csi_end(s, i + 2);
        lemma_osc_end(s, i + 2);
    }
}

/// The text from `i` on without escape sequences and carriage returns. At most
/// `fuel` characters are looked at.
pub open spec fn plain_from(s: Seq<char>, i: int, fuel: nat) -> Seq<char>
    decreases fuel,
{
    if i >= s.len() || fuel == 0 {
        Seq::empty()
    } else if s[i] == '\x1b' {
        plain_from(s, escape_end(s, i), (fuel - 1) as nat)
    } else if s[i] == '\r' {
        plain_from(s, i + 1, (fuel - 1) as nat)
    } else {
        seq![s[i]] + plain_from(s, i + 1, (fuel - 1) as nat)
    }
}

/// `s` without escape sequences and carriage returns.
pub open spec fn plain_text(s: Seq<char>) -> Seq<char> {
    plain_from(s, 0, s.len())
}

proof fn lemma_plain_fuel(s: Seq<char>, i: int, a: nat, b: nat)
    requires
        0 <= i <= s.len(),
        a >= s.len() - i,
        b >= s.len() - i,
    ensures
        plain_from(s, i, a) == plain_from(s, i, b),
    decreases s.len() - i,
{
    if i < s.len() {
        lemma_escape_end(s, i);
        if s[i] == '\x1b' {
            lemma_plain_fuel(s, escape_end(s, i), (a - 1) as nat, (b - 1) as nat);
        } else {
            lemma_plain_fuel(s, i + 1, (a - 1) as nat, (b - 1) as nat);
        }
    }
}

proof fn lemma_plain_has_no_controls(s: Seq<char>, i: int, fuel: nat)
    ensures
        !has_char(plain_from(s, i, fuel), '\x1b'),
        !has_char(plain_from(s, i, fuel), '\r'),
    decreases fuel,
{
    if i < s.len() && fuel > 0 {
        if s[i] == '\x1b' {
            lemma_plain_has_no_controls(s, escape_end(s, i), (fuel - 1) as nat);
        } else {
            lemma_plain_has_no_controls(s, i + 1, (fuel - 1) as nat);
            if s[i] != '\r' {
                let rest = plain_from(s, i + 1, (fuel - 1) as nat);
                let all = seq![s[i]] + rest;
                assert forall|j: int| 0 <= j < all.len() implies all[j] != '\x1b' && all[j]
                    != '\r' by {
                    if j > 0 {
                        assert(all[j] == rest[j - 1]);
                    }
                }
            }
        }
    }
}

/// No escape and no carriage return is left.
pub proof fn plain_text_has_no_controls(s: Seq<char>)
    ensures
        !has_char(plain_text(s), '\x1b'),
        !has_char(plain_text(s), '\r'),
{
    lemma_plain_has_no_controls(s, 0, s.len());
}

proof fn lemma_plain_is_identity(s: Seq<char>, i: int, fuel: nat)
    requires
        0 <= i <= s.len(),
        fuel >= s.len() - i,
        !has_char(s, '\x1b'),
        !has_char(s, '\r'),
    ensures
        plain_from(s, i, fuel) == s.skip(i),
    decreases s.len() - i,
{
    if i < s.len() {
        lemma_plain_is_identity(s, i + 1, (fuel - 1) as nat);
        assert(s[i] != '\x1b' && s[i] != '\r');
        assert(seq![s[i]] + s.skip(i + 1) =~= s.skip(i));
    } else {
        assert(s.skip(i) =~= Seq::empty());
    }
}

/// Text without escapes and carriage returns stays as it is.
pub proof fn plain_text_is_kept(s: Seq<char>)
    requires
        !has_char(s, '\x1b'),
        !has_char(s, '\r'),
    ensures
        plain_text(s) == s,
{
    lemma_plain_is_identity(s, 0, s.len());
    assert(s.skip(0) =~= s);
}

fn skip_escape(v: &Vec<char>, i: usize) -> (r: usize)
    requires
        i < v@.len(),
    ensures
        r == escape_end(v@, i as int),
        i < r <= v@.len(),
{
    let n: usize = v.len();
    proof {
        lemma_escape_end(v@, i as int);
    }
    if i + 1 >= n {
        return n;
    }
    if v[i + 1] == '[' {
        let mut k: usize = i + 2;
        while k < n && !('\x40' <= v[k] && v[k] <= '\x7e')
            invariant
                i + 2 <= k <= n == v@.len(),
                csi_end(v@, i + 2) == csi_end(v@, k as int),
            decreases n - k,
        {
            k = k + 1;
        }
        if k < n {
            k + 1
        } else {
            n
        }
    } else if v[i + 1] == ']' {
        let mut k: usize = i + 2;
        while k < n && v[k] != '\x07' && v[k] != '\x1b'
            invariant
                i + 2 <= k <= n == v@.len(),
                osc_end(v@, i + 2) == osc_end(v@, k as int),
            decreases n - k,
        {
            k = k + 1;
        }
        if k == n {
            n
        } else if v[k] == '\x1b' && k + 1 < n && v[k + 1] == '\\' {
            k + 2
        } else {
            k + 1
        }
    } else {
        i + 2
    }
}

/// `s` without terminal escape sequences and carriage returns.
pub fn strip_ansi(s: &str) -> (r: String)
    ensures
        r@ == plain_text(s@),
{
    let v: Vec<char> = to_chars(s);
    let n: usize = v.len();
    let mut out: String = String::new();
    let mut i: usize = 0;
    proof {
        assert(out@ + plain_from(v@, 0, n as nat) =~= plain_text(s@));
    }
    while i < n
        invariant
            i <= n == v@.len(),
            out@ + plain_from(v@, i as int, (n - i) as nat) == plain_text(s@),
        decreases n - i,
    {
        let c: char = v[i];
        let ghost before = out@;
        if c == '\x1b' {
            let end: usize = skip_escape(&v, i);
            proof {
                lemma_plain_fuel(v@, end as int, (n - i - 1) as nat, (n - end) as nat);
            }
            i = end;
        } else if c == '\r' {
            i = i + 1;
        } else {
            out.push(c);
            i = i + 1;
            proof {
                let rest = plain_from(v@, i as int, (n - i) as nat);
                assert(before.push(c) + rest =~= before + (seq![c] + rest));
            }
        }
    }
    proof {
        assert(out@ + plain_from(v@, i as int, 0) =~= out@);
    }
    out
}

/// The output as the chat shows it: at most [`LOCAL_CMD_DISPLAY_LINES`] lines
/// and a note on the rest.
pub open spec fn capped_lines(s: Seq<char>) -> Seq<char> {
    let all = lines_of(s);
    if all.len() <= LOCAL_CMD_DISPLAY_LINES {
        trim_newlines(s)
    } else {
        joined(all.take(LOCAL_CMD_DISPLAY_LINES as int), "\n"@) + "\n… ["@ + decimal(
            (all.len() - LOCAL_CMD_DISPLAY_LINES) as nat,
        ) + " more lines — re-run in a real terminal for full output]"@
    }
}

/// The output as the chat shows it.
pub fn cap_display_lines(s: &str) -> (r: String)
    ensures
        r@ == capped_lines(s@),
{
    let mut all: Vec<String> = lines(s);
    let n: usize = all.len();
    if n <= LOCAL_CMD_DISPLAY_LINES {
        return without_final_newlines(s);
    }
    let ghost whole = texts(all@);
    all.truncate(LOCAL_CMD_DISPLAY_LINES);
    proof {
        assert(texts(all@) =~= whole.take(LOCAL_CMD_DISPLAY_LINES as int));
    }
    let mut out: String = join(&all, "\n");
    out.append("\n… [");
    push_decimal(&mut out, (n - LOCAL_CMD_DISPLAY_LINES) as u64);
    out.append(" more lines — re-run in a real terminal for full output]");
    out
}

/// The first `n` characters of `s`.
pub open spec fn cut(s: Seq<char>, n: int) -> Seq<char> {
    s.take(min_int(n, s.len() as int))
}

/// Characters kept at the `k`th try: four per token, at least 64, then three
/// quarters of the last try each time.
pub open spec fn budget(max_tokens: int, k: nat) -> int
    decreases k,
{
    if k == 0 {
        max_int(min_int(4 * max_tokens, usize::MAX as int), 64)
    } else {
        budget(max_tokens, (k - 1) as nat) * 3 / 4
    }
}

/// Whether `count` gives `n` for `text`.
pub open spec fn counts_as<F: Fn(&str) -> usize>(count: F, text: Seq<char>, n: usize) -> bool {
    exists|t: &str| t@ == text && #[trigger] count.ensures((t,), n)
}

/// Whether the `k`th try is too long: it has 64 characters of room or more and
/// counts too many tokens.
pub open spec fn too_long<F: Fn(&str) -> usize>(
    count: F,
    s: Seq<char>,
    max_tokens: int,
    k: nat,
) -> bool {
    budget(max_tokens, k) >= 64 && exists|n: usize|
        n > max_tokens && counts_as(count, cut(s, budget(max_tokens, k)), n)
}

/// Whether the `k`th try is short enough.
pub open spec fn short_enough<F: Fn(&str) -> usize>(
    count: F,
    s: Seq<char>,
    max_tokens: int,
    k: nat,
) -> bool {
    budget(max_tokens, k) < 64 || exists|n: usize|
        n <= max_tokens && counts_as(count, cut(s, budget(max_tokens, k)), n)
}

pub open spec fn truncation_note(max_tokens: nat) -> Seq<char> {
    "\n… [truncated to ~"@ + decimal(max_tokens) + " tokens]"@
}

/// Whether `r` is `s` cut to about `max_tokens` tokens: `s` itself where it is
/// short enough, and only where it is not the first of the tries that is, with a
/// note.
pub open spec fn capped_by<F: Fn(&str) -> usize>(
    count: F,
    s: Seq<char>,
    max_tokens: int,
    r: Seq<char>,
) -> bool {
    ||| r == s && exists|n: usize| n <= max_tokens && counts_as(count, s, n)
    ||| {
        &&& exists|n: usize| n > max_tokens && counts_as(count, s, n)
        &&& exists|k: nat|
            #![trigger budget(max_tokens, k)]
            {
                &&& r == cut(s, budget(max_tokens, k)) + truncation_note(max_tokens as nat)
                &&& short_enough(count, s, max_tokens, k)
                &&& forall|j: nat| j < k ==> #[trigger] too_long(count, s, max_tokens, j)
            }
    }
}

/// `s`, cut so that `count` gives it about `max_tokens` tokens, with a note
/// when something was cut. The first of the tries that is short enough is
/// taken.
pub fn cap_tokens<F: Fn(&str) -> usize>(s: &str, max_tokens: usize, count: F) -> (r: String)
    requires
        forall|t: &str| #[trigger] count.requires((t,)),
    ensures
        capped_by(count, s@, max_tokens as int, r@),
{
    let whole: usize = count(s);
    proof {
        assert(counts_as(count, s@, whole));
    }
    if whole <= max_tokens {
        return String::from_str(s);
    }
    let v: Vec<char> = to_chars(s);
    let four: usize = if max_tokens > usize::MAX / 4 {
        usize::MAX
    } else {
        4 * max_tokens
    };
    let mut room: usize = max_usize(four, 64);
    let ghost mut k: nat = 0;
    loop
        invariant
            v@ == s@,
            whole > max_tokens,
            counts_as(count, s@, whole),
            room == budget(max_tokens as int, k),
            forall|t: &str| #[trigger] count.requires((t,)),
            forall|j: nat| j < k ==> #[trigger] too_long(count, s@, max_tokens as int, j),
        decreases room,
    {
        let keep: usize = min_usize(room, v.len());
        let text: String = from_range(&v, 0, keep);
        proof {
            assert(text@ =~= cut(s@, room as int));
        }
        let mut done: bool = room < 64;
        if !done {
            let n: usize = count(text.as_str());
            proof {
                assert(counts_as(count, cut(s@, room as int), n));
            }
            done = n <= max_tokens;
        }
        if done {
            let mut out: String = text;
            let mut note: String = String::from_str("\n… [truncated to ~");
            push_decimal(&mut note, max_tokens as u64);
            note.append(" tokens]");
            out.append(note.as_str());
            return out;
        }
        proof {
            assert(too_long(count, s@, max_tokens as int, k));
            k = k + 1;
        }
        room = room / 4 * 3 + room % 4 * 3 / 4;
    }
}

/// A character escaped for an XML attribute.
pub open spec fn escaped_char(c: char) -> Seq<char> {
    if c == '&' {
        "&amp;"@
    } else if c == '<' {
        "&lt;"@
    } else if c == '>' {
        "&gt;"@
    } else if c == '"' {
        "&quot;"@
    } else {
        seq![c]
    }
}

/// `s` escaped for an XML attribute.
pub open spec fn escaped(s: Seq<char>) -> Seq<char>
    decreases s.len(),
{
    if s.len() == 0 {
        Seq::empty()
    } else {
        escaped(s.drop_last()) + escaped_char(s.last())
    }
}

/// Escaped text ends no attribute and opens no tag.
pub proof fn escaped_text_is_safe(s: Seq<char>)
    ensures
        !has_char(escaped(s), '"'),
        !has_char(escaped(s), '<'),
        !has_char(escaped(s), '>'),
    decreases s.len(),
{
    if s.len() > 0 {
        escaped_text_is_safe(s.drop_last());
        reveal_strlit("&amp;");
        reveal_strlit("&lt;");
        reveal_strlit("&gt;");
        reveal_strlit("&quot;");
        let head = escaped(s.drop_last());
        let tail = escaped_char(s.last());
        assert forall|i: int| 0 <= i < (head + tail).len() implies (head + tail)[i] != '"' && (head
            + tail)[i] != '<' && (head + tail)[i] != '>' by {
            if i < head.len() {
                assert((head + tail)[i] == head[i]);
            } else {
                assert((head + tail)[i] == tail[i - head.len()]);
            }
        }
    }
}

/// `s` escaped for an XML attribute.
pub fn xml_escape(s: &str) -> (r: String)
    ensures
        r@ == escaped(s@),
{
    let v: Vec<char> = to_chars(s);
    let mut out: String = String::new();
    let mut i: usize = 0;
    proof {
        assert(v@.take(0) =~= Seq::empty());
    }
    while i < v.len()
        invariant
            i <= v@.len(),
            out@ == escaped(v@.take(i as int)),
        decreases v@.len() - i,
    {
        let c: char = v[i];
        proof {
            assert(v@.take(i + 1).drop_last() =~= v@.take(i as int));
            assert(v@.take(i + 1).last() == c);
        }
        if c == '&' {
            out.append("&amp;");
        } else if c == '<' {
            out.append("&lt;");
        } else if c == '>' {
            out.append("&gt;");
        } else if c == '"' {
            out.append("&quot;");
        } else {
            let ghost before = out@;
            out.push(c);
            proof {
                assert(before.push(c) =~= before + seq![c]);
            }
        }
        i = i + 1;
    }
    proof {
        assert(v@.take(i as int) =~= v@);
    }
    out
}

/// The block that hands the output of a git command to the agent.
pub open spec fn git_block_text(args: Seq<char>, output: Seq<char>) -> Seq<char> {
    "<git cmd=\""@ + escaped(args) + "\">\n"@ + output + "\n</git>"@
}

/// The block that hands the output of a git command to the agent.
pub fn git_block(args: &str, output: &str) -> (r: String)
    ensures
        r@ == git_block_text(args@, output@),
{
    let mut out: String = String::from_str("<git cmd=\"");
    let e: String = xml_escape(args);
    out.append(e.as_str());
    out.append("\">\n");
    out.append(output);
    out.append("\n</git>");
    out
}

/// The output and the error output of a command, on lines of their own.
pub open spec fn merged_output(stdout: Seq<char>, stderr: Seq<char>) -> Seq<char> {
    if stderr.len() == 0 {
        stdout
    } else if stdout.len() > 0 && stdout.last() != '\n' {
        stdout.push('\n') + stderr
    } else {
        stdout + stderr
    }
}

/// The output and the error output of a command, on lines of their own.
pub fn merge_output(stdout: &str, stderr: &str) -> (r: String)
    ensures
        r@ == merged_output(stdout@, stderr@),
{
    let mut out: String = String::from_str(stdout);
    if !stderr.is_empty() {
        let v: Vec<char> = to_chars(stdout);
        if v.len() > 0 && v[v.len() - 1] != '\n' {
            out.push('\n');
        }
        out.append(stderr);
    }
    out
}

} // verus!
