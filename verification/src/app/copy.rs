//! Copying messages: what is copied, and what is said of it.

use vstd::prelude::*;
use crate::app::command::{CopyFormat, copy_format, parse_copy_format, word};
use crate::app::history::{Entries, agent_message_among, is_spoken, last_agent_message, last_message, last_spoken};
use crate::app::selection::{extract_selection_plaintext, selected_text};
use crate::app::state::{App, AppView, Screen, Selection, TOAST_TTL, ToastKind};
use crate::context_menu::ContextMenuAction;
use crate::geometry::Rect;
use crate::nav::min_int;
use crate::text::{concat2, concat3, decimal, push_decimal};

verus! {

/// What a copy was asked for by.
pub enum CopyOrigin {
    /// The context menu, for a message with this title.
    Menu(String),
    /// The key for the last message.
    LastMessage,
    /// `/copy`.
    Command,
    /// The drag selection.
    Selection,
}

pub enum OriginView {
    Menu(Seq<char>),
    LastMessage,
    Command,
    Selection,
}

impl View for CopyOrigin {
    type V = OriginView;

    open spec fn view(&self) -> OriginView {
        match self {
            CopyOrigin::Menu(t) => OriginView::Menu(t@),
            CopyOrigin::LastMessage => OriginView::LastMessage,
            CopyOrigin::Command => OriginView::Command,
            CopyOrigin::Selection => OriginView::Selection,
        }
    }
}

/// A text for the clipboard and the form it takes there.
pub struct CopyJob {
    pub text: String,
    pub format: CopyFormat,
    pub origin: CopyOrigin,
}

#[verifier::ext_equal]
pub struct JobToCopy {
    pub text: Seq<char>,
    pub format: CopyFormat,
    pub origin: OriginView,
}

impl View for CopyJob {
    type V = JobToCopy;

    open spec fn view(&self) -> JobToCopy {
        JobToCopy { text: self.text@, format: self.format, origin: self.origin@ }
    }
}

pub open spec fn job_of(j: Option<CopyJob>) -> Option<JobToCopy> {
    match j {
        Some(j) => Some(j@),
        None => None,
    }
}

/// What became of a copy.
pub enum CopyOutcome {
    Done,
    /// Rich text cannot be copied over SSH; plain text was.
    PlainOverSsh,
    Failed(String),
}

pub enum CopyOutcomeView {
    Done,
    PlainOverSsh,
    Failed(Seq<char>),
}

impl View for CopyOutcome {
    type V = CopyOutcomeView;

    open spec fn view(&self) -> CopyOutcomeView {
        match self {
            CopyOutcome::Done => CopyOutcomeView::Done,
            CopyOutcome::PlainOverSsh => CopyOutcomeView::PlainOverSsh,
            CopyOutcome::Failed(e) => CopyOutcomeView::Failed(e@),
        }
    }
}

/// The next thing to try for a copy.
#[derive(Debug, Clone, Copy, PartialEq, Eq, Structural)]
pub enum CopyAttempt {
    /// The text as it is.
    Text,
    /// The text without its markup.
    Stripped,
    /// Rich text.
    Rich,
}

/// What came of an attempt.
pub enum AttemptResult {
    Done,
    /// There is no way to copy this over SSH; what is said of that.
    UnsupportedOverSsh(String),
    Failed(String),
}

pub enum AttemptView {
    Done,
    UnsupportedOverSsh(Seq<char>),
    Failed(Seq<char>),
}

impl View for AttemptResult {
    type V = AttemptView;

    open spec fn view(&self) -> AttemptView {
        match self {
            AttemptResult::Done => AttemptView::Done,
            AttemptResult::UnsupportedOverSsh(e) => AttemptView::UnsupportedOverSsh(e@),
            AttemptResult::Failed(e) => AttemptView::Failed(e@),
        }
    }
}

impl JobToCopy {
    /// What is tried first. A selection is plain text already.
    pub open spec fn first_attempt(self) -> CopyAttempt {
        match self.format {
            CopyFormat::Rich => CopyAttempt::Rich,
            CopyFormat::Markdown => CopyAttempt::Text,
            CopyFormat::Plain => if self.origin is Selection {
                CopyAttempt::Text
            } else {
                CopyAttempt::Stripped
            },
        }
    }

    /// What became of the copy after an attempt; `None` when rich text could not be
    /// copied over SSH, and the text as it is comes next.
    pub open spec fn settled(self, attempt: CopyAttempt, result: AttemptView) -> Option<
        CopyOutcomeView,
    > {
        match result {
            AttemptView::Done => Some(
                if self.format is Rich && !(attempt is Rich) {
                    CopyOutcomeView::PlainOverSsh
                } else {
                    CopyOutcomeView::Done
                },
            ),
            AttemptView::UnsupportedOverSsh(e) => if attempt is Rich {
                None
            } else {
                Some(CopyOutcomeView::Failed(e))
            },
            AttemptView::Failed(e) => Some(CopyOutcomeView::Failed(e)),
        }
    }
}

impl CopyJob {
    /// What to try first.
    pub fn first_attempt(&self) -> (r: CopyAttempt)
        ensures
            r == self@.first_attempt(),
    {
        match self.format {
            CopyFormat::Rich => CopyAttempt::Rich,
            CopyFormat::Markdown => CopyAttempt::Text,
            CopyFormat::Plain => match &self.origin {
                CopyOrigin::Selection => CopyAttempt::Text,
                _ => CopyAttempt::Stripped,
            },
        }
    }

    /// What became of the copy after an attempt; `None` when [`CopyAttempt::Text`]
    /// is to be tried next.
    pub fn settle(&self, attempt: CopyAttempt, result: AttemptResult) -> (r: Option<CopyOutcome>)
        ensures
            match r {
                Some(o) => self@.settled(attempt, result@) == Some(o@),
                None => self@.settled(attempt, result@) is None,
            },
    {
        match result {
            AttemptResult::Done => Some(
                if matches!(self.format, CopyFormat::Rich) && !matches!(attempt, CopyAttempt::Rich) {
                    CopyOutcome::PlainOverSsh
                } else {
                    CopyOutcome::Done
                },
            ),
            AttemptResult::UnsupportedOverSsh(e) => if matches!(attempt, CopyAttempt::Rich) {
                None
            } else {
                Some(CopyOutcome::Failed(e))
            },
            AttemptResult::Failed(e) => Some(CopyOutcome::Failed(e)),
        }
    }
}

/// At most two things are tried: after the text as it is there is always an
/// outcome.
pub proof fn second_attempt_settles(job: JobToCopy, result: AttemptView)
    ensures
        job.settled(CopyAttempt::Text, result) is Some,
{
}

/// What is said after a copy.
pub open spec fn copy_note(job: JobToCopy, outcome: CopyOutcomeView) -> Seq<char> {
    match outcome {
        CopyOutcomeView::Failed(e) => "Copy failed: "@ + e,
        CopyOutcomeView::PlainOverSsh => match job.origin {
            OriginView::Menu(title) => "SSH — copied "@ + title
                + " as plain text (rich-text unavailable over SSH)."@,
            OriginView::Command =>
                "SSH — copied last response as plain text (rich copy unavailable over SSH)."@,
            _ => "SSH — copied as plain text (rich-text unavailable over SSH)."@,
        },
        CopyOutcomeView::Done => match job.origin {
            OriginView::Menu(title) => "Copied "@ + title + (match job.format {
                CopyFormat::Rich => " as rich text."@,
                CopyFormat::Markdown => " as markdown."@,
                CopyFormat::Plain => " as plain text."@,
            }),
            OriginView::LastMessage => "Copied last agent message as rich text."@,
            OriginView::Command => match job.format {
                CopyFormat::Rich => "Copied last response (rich)."@,
                CopyFormat::Markdown => "Copied last response (markdown)."@,
                CopyFormat::Plain => "Copied last response (plain)."@,
            },
            OriginView::Selection => "Copied "@ + decimal(job.text.len())
                + " chars to clipboard."@,
        },
    }
}

/// What is said after a copy.
pub fn copy_message(job: &CopyJob, outcome: &CopyOutcome) -> (r: String)
    ensures
        r@ == copy_note(job@, outcome@),
{
    match outcome {
        CopyOutcome::Failed(e) => concat2("Copy failed: ", e.as_str()),
        CopyOutcome::PlainOverSsh => match &job.origin {
            CopyOrigin::Menu(title) => concat3(
                "SSH — copied ",
                title.as_str(),
                " as plain text (rich-text unavailable over SSH).",
            ),
            CopyOrigin::Command => String::from_str(
                "SSH — copied last response as plain text (rich copy unavailable over SSH).",
            ),
            _ => String::from_str("SSH — copied as plain text (rich-text unavailable over SSH)."),
        },
        CopyOutcome::Done => match &job.origin {
            CopyOrigin::Menu(title) => concat3(
                "Copied ",
                title.as_str(),
                match job.format {
                    CopyFormat::Rich => " as rich text.",
                    CopyFormat::Markdown => " as markdown.",
                    CopyFormat::Plain => " as plain text.",
                },
            ),
            CopyOrigin::LastMessage => String::from_str("Copied last agent message as rich text."),
            CopyOrigin::Command => String::from_str(
                match job.format {
                    CopyFormat::Rich => "Copied last response (rich).",
                    CopyFormat::Markdown => "Copied last response (markdown).",
                    CopyFormat::Plain => "Copied last response (plain).",
                },
            ),
            CopyOrigin::Selection => {
                let mut out: String = String::from_str("Copied ");
                push_decimal(&mut out, job.text.as_str().unicode_len() as u64);
                out.append(" chars to clipboard.");
                out
            },
        },
    }
}

/// The entry on the last row at or before `row` that shows one.
pub open spec fn owner_until(rows: Seq<Option<usize>>, row: int) -> Option<usize>
    decreases row + 1,
{
    if row < 0 {
        None
    } else {
        match rows[row] {
            Some(i) => Some(i),
            None => owner_until(rows, row - 1),
        }
    }
}

/// The form that an item of the context menu copies in.
pub open spec fn format_of(action: ContextMenuAction) -> CopyFormat {
    match action {
        ContextMenuAction::CopyAsRichText => CopyFormat::Rich,
        ContextMenuAction::CopyAsMarkdown => CopyFormat::Markdown,
        ContextMenuAction::CopyAsPlainText => CopyFormat::Plain,
    }
}

impl AppView {
    pub open spec fn informed(self, text: Seq<char>, now: u64) -> AppView {
        self.toasted(text, ToastKind::Info, now as int, TOAST_TTL as int)
    }

    /// Number of entries at or before a row of the chat: those up to the entry that
    /// shows on the row, or on the nearest row above that shows one. Below the last
    /// row all entries are.
    pub open spec fn entries_until(self, row: int) -> int {
        if row >= self.entry_rows.len() {
            self.history.len() as int
        } else {
            match owner_until(self.entry_rows, row) {
                Some(i) => min_int(i + 1, self.history.len() as int),
                None => 0,
            }
        }
    }

    /// The agent message at or before a row of the chat, its title and text.
    pub open spec fn message_at(self, row: int) -> Option<(Seq<char>, Seq<char>)> {
        if self.screen.chat_area is None {
            None
        } else {
            match last_message(self.history.take(self.entries_until(row))) {
                Some((name, text)) => Some((name + " message"@, text)),
                None => None,
            }
        }
    }

    /// An item of the context menu that was opened on a row of the chat.
    #[verifier::opaque]
    pub open spec fn menu_copy(self, action: ContextMenuAction, row: usize, now: u64) -> (
        AppView,
        Option<JobToCopy>,
    ) {
        match self.message_at(row as int) {
            Some((title, text)) => (
                self,
                Some(
                    JobToCopy {
                        text,
                        format: format_of(action),
                        origin: OriginView::Menu(title),
                    },
                ),
            ),
            None => (self.informed("No agent message to copy yet."@, now), None),
        }
    }

    /// The key for the last message.
    #[verifier::opaque]
    pub open spec fn rich_copy(self, now: u64) -> (AppView, Option<JobToCopy>) {
        if !self.settings.rich_text_copy {
            (
                self.informed("Rich-text copy is disabled (toggle in /settings → ui)."@, now),
                None,
            )
        } else {
            match last_message(self.history) {
                None => (self.informed("No agent message to copy yet."@, now), None),
                Some((_, text)) => (
                    self,
                    Some(
                        JobToCopy {
                            text,
                            format: CopyFormat::Rich,
                            origin: OriginView::LastMessage,
                        },
                    ),
                ),
            }
        }
    }

    /// `/copy`.
    #[verifier::opaque]
    pub open spec fn copy_command(self, args: Seq<char>, now: u64) -> (
        AppView,
        Option<JobToCopy>,
    ) {
        match copy_format(word(args)) {
            None => (
                self.informed(
                    "Usage: `/copy [markdown|plain|rich]` (markdown is the default)"@,
                    now,
                ),
                None,
            ),
            Some(format) => match last_message(self.history) {
                None => (self.informed("No response to copy yet."@, now), None),
                Some((_, text)) => (
                    self,
                    Some(JobToCopy { text, format, origin: OriginView::Command }),
                ),
            },
        }
    }

    /// Whether a selection lies in the drawn chat.
    pub open spec fn selection_in_chat(self) -> bool {
        let (start, end) = self.screen.selection->0.span();
        let area = self.screen.chat_area->0;
        start.1 >= area.y && end.1 < area.bottom() && start.0 >= area.x && end.0 < area.right()
    }

    /// The text of the selection for the clipboard. A selection that no longer
    /// lies in the drawn chat is dropped.
    #[verifier::opaque]
    pub open spec fn selection_copy(self) -> (AppView, Option<JobToCopy>) {
        if self.screen.selection is None || self.screen.chat_area is None {
            (self, None)
        } else if !self.selection_in_chat() {
            (AppView { screen: Screen { selection: None, ..self.screen }, ..self }, None)
        } else {
            let text = selected_text(
                self.grid,
                self.cont_rows,
                self.screen.chat_area->0,
                self.screen.selection->0,
            );
            if text.len() == 0 {
                (self, None)
            } else {
                (
                    self,
                    Some(
                        JobToCopy {
                            text,
                            format: CopyFormat::Plain,
                            origin: OriginView::Selection,
                        },
                    ),
                )
            }
        }
    }

    /// After a copy. The selection is dropped when it was copied.
    pub open spec fn copied(self, job: JobToCopy, outcome: CopyOutcomeView, now: u64) -> AppView {
        let v = self.toasted(
            copy_note(job, outcome),
            if outcome is Failed {
                ToastKind::Error
            } else {
                ToastKind::Success
            },
            now as int,
            TOAST_TTL as int,
        );
        if job.origin is Selection && !(outcome is Failed) {
            AppView { screen: Screen { selection: None, ..v.screen }, ..v }
        } else {
            v
        }
    }
}

impl App {
    pub fn inform(&mut self, text: &str, now: u64)
        ensures
            old(self).wf() ==> final(self).wf(),
            final(self)@ == old(self)@.informed(text@, now),
    {
        self.show_toast(String::from_str(text), ToastKind::Info, now);
    }

    fn count_entries_until(&self, row: usize) -> (r: usize)
        ensures
            r == self@.entries_until(row as int),
            r <= self.history@.len(),
    {
        let n: usize = self.history.len();
        if row >= self.entry_rows.len() {
            return n;
        }
        let mut k: usize = row + 1;
        while k > 0
            invariant
                k <= row + 1 <= self.entry_rows@.len(),
                n == self.history@.len(),
                owner_until(self.entry_rows@, row as int) == owner_until(
                    self.entry_rows@,
                    k - 1,
                ),
            decreases k,
        {
            match self.entry_rows[k - 1] {
                Some(i) => {
                    return if i < n {
                        i + 1
                    } else {
                        n
                    };
                },
                None => {},
            }
            k = k - 1;
        }
        0
    }

    /// The agent message whose row is at or before a row of the chat, its title and
    /// text.
    pub fn agent_message_at_or_before(&self, clicked_chat_row: usize) -> (r: Option<
        (String, String),
    >)
        ensures
            match r {
                Some((title, text)) => self@.message_at(clicked_chat_row as int) == Some(
                    (title@, text@),
                ),
                None => self@.message_at(clicked_chat_row as int) is None,
            },
    {
        if self.screen.chat_area.is_none() {
            return None;
        }
        let n: usize = self.count_entries_until(clicked_chat_row);
        match agent_message_among(&self.history, n) {
            Some((name, text)) => Some((concat2(name.as_str(), " message"), text)),
            None => None,
        }
    }

    /// An item of the context menu that was opened on a row of the chat: what it
    /// copies.
    pub fn execute_context_menu_action(
        &mut self,
        action: ContextMenuAction,
        clicked_chat_row: usize,
        now: u64,
    ) -> (r: Option<CopyJob>)
        ensures
            old(self).wf() ==> final(self).wf(),
            (final(self)@, job_of(r)) == old(self)@.menu_copy(action, clicked_chat_row, now),
    {
        proof {
            reveal(AppView::menu_copy);
        }
        match self.agent_message_at_or_before(clicked_chat_row) {
            None => {
                self.inform("No agent message to copy yet.", now);
                None
            },
            Some((title, text)) => {
                let format = match action {
                    ContextMenuAction::CopyAsRichText => CopyFormat::Rich,
                    ContextMenuAction::CopyAsMarkdown => CopyFormat::Markdown,
                    ContextMenuAction::CopyAsPlainText => CopyFormat::Plain,
                };
                Some(CopyJob { text, format, origin: CopyOrigin::Menu(title) })
            },
        }
    }

    /// The key for the last message: what it copies.
    pub fn copy_last_agent_message_as_rich_text(&mut self, now: u64) -> (r: Option<CopyJob>)
        ensures
            old(self).wf() ==> final(self).wf(),
            (final(self)@, job_of(r)) == old(self)@.rich_copy(now),
    {
        proof {
            reveal(AppView::rich_copy);
        }
        if !self.settings.rich_text_copy {
            self.inform("Rich-text copy is disabled (toggle in /settings → ui).", now);
            return None;
        }
        match last_agent_message(&self.history) {
            None => {
                self.inform("No agent message to copy yet.", now);
                None
            },
            Some((_, text)) => Some(
                CopyJob { text, format: CopyFormat::Rich, origin: CopyOrigin::LastMessage },
            ),
        }
    }

    /// `/copy`: what it copies.
    pub fn handle_copy_command(&mut self, arg: &str, now: u64) -> (r: Option<CopyJob>)
        ensures
            old(self).wf() ==> final(self).wf(),
            (final(self)@, job_of(r)) == old(self)@.copy_command(arg@, now),
    {
        proof {
            reveal(AppView::copy_command);
        }
        match parse_copy_format(arg) {
            None => {
                self.inform("Usage: `/copy [markdown|plain|rich]` (markdown is the default)", now);
                None
            },
            Some(format) => match last_agent_message(&self.history) {
                None => {
                    self.inform("No response to copy yet.", now);
                    None
                },
                Some((_, text)) => Some(CopyJob { text, format, origin: CopyOrigin::Command }),
            },
        }
    }

    /// The text of the selection, to be copied.
    pub fn copy_selection_plaintext(&mut self) -> (r: Option<CopyJob>)
        ensures
            old(self).wf() ==> final(self).wf(),
            (final(self)@, job_of(r)) == old(self)@.selection_copy(),
    {
        proof {
            reveal(AppView::selection_copy);
        }
        let sel: Selection = match self.screen.selection {
            Some(s) => s,
            None => {
                return None;
            },
        };
        let area: Rect = match self.screen.chat_area {
            Some(a) => a,
            None => {
                return None;
            },
        };
        let (start, end) = sel.ordered();
        if start.1 < area.y || end.1 as u32 >= area.y as u32 + area.height as u32 || start.0
            < area.x || end.0 as u32 >= area.x as u32 + area.width as u32 {
            self.screen = Screen { selection: None, ..self.screen };
            return None;
        }
        let text: String = extract_selection_plaintext(&self.grid, &self.cont_rows, area, sel);
        if text.as_str().unicode_len() == 0 {
            None
        } else {
            Some(CopyJob { text, format: CopyFormat::Plain, origin: CopyOrigin::Selection })
        }
    }

    /// A copy was made, or failed.
    pub fn copy_finished(&mut self, job: &CopyJob, outcome: &CopyOutcome, now: u64)
        ensures
            old(self).wf() ==> final(self).wf(),
            final(self)@ == old(self)@.copied(job@, outcome@, now),
    {
        let kind = if matches!(outcome, CopyOutcome::Failed(_)) {
            ToastKind::Error
        } else {
            ToastKind::Success
        };
        self.show_toast(copy_message(job, outcome), kind, now);
        if matches!(&job.origin, CopyOrigin::Selection) && !matches!(outcome, CopyOutcome::Failed(_)) {
            self.screen = Screen { selection: None, ..self.screen };
        }
    }
}

/// A menu that was opened on a message of an agent copies that message, whatever
/// came after it.
pub proof fn clicked_message_is_copied(v: AppView, action: ContextMenuAction, row: usize, now: u64)
    requires
        v.screen.chat_area is Some,
        row < v.entry_rows.len(),
        v.entry_rows[row as int] is Some,
        v.entry_rows[row as int]->0 < v.history.len(),
        is_spoken(v.history[v.entry_rows[row as int]->0 as int]),
    ensures
        ({
            let said = v.history[v.entry_rows[row as int]->0 as int];
            let (after, job) = v.menu_copy(action, row, now);
            &&& after == v
            &&& job is Some
            &&& job->0.text == said->Agent_text
            &&& job->0.origin == OriginView::Menu(said->name + " message"@)
        }),
{
    reveal(AppView::menu_copy);
    let i = v.entry_rows[row as int]->0 as int;
    assert(owner_until(v.entry_rows, row as int) == Some(i as usize));
    assert(v.history.take(i + 1)[i] == v.history[i]);
}

proof fn lemma_nobody_spoke(s: Entries, n: int)
    requires
        0 <= n <= s.len(),
        forall|k: int| 0 <= k < n ==> !is_spoken(#[trigger] s[k]),
    ensures
        last_spoken(s, n) == -1,
    decreases n,
{
    if n > 0 {
        lemma_nobody_spoke(s, n - 1);
    }
}

/// A menu that was opened before any message of an agent copies nothing.
pub proof fn nothing_before_the_click_is_copied(
    v: AppView,
    action: ContextMenuAction,
    row: usize,
    now: u64,
)
    requires
        forall|k: int| 0 <= k < v.entries_until(row as int) ==> !is_spoken(#[trigger] v.history[k]),
    ensures
        v.menu_copy(action, row, now).1 is None,
{
    reveal(AppView::menu_copy);
    let n = v.entries_until(row as int);
    let before = v.history.take(n);
    assert(0 <= n <= v.history.len());
    assert forall|k: int| 0 <= k < n implies !is_spoken(#[trigger] before[k]) by {
        assert(before[k] == v.history[k]);
    }
    lemma_nobody_spoke(before, n);
}

proof fn lemma_owner_above(rows: Seq<Option<usize>>, row: int, above: int)
    requires
        0 <= above <= row < rows.len(),
        rows[above] is Some,
        forall|r: int| above < r <= row ==> (#[trigger] rows[r]) is None,
    ensures
        owner_until(rows, row) == rows[above],
    decreases row - above,
{
    if above < row {
        assert(rows[row] is None);
        lemma_owner_above(rows, row - 1, above);
    }
}

proof fn lemma_spoke_last(s: Entries, n: int, k: int)
    requires
        0 <= k < n <= s.len(),
        is_spoken(s[k]),
        forall|j: int| k < j < n ==> !is_spoken(#[trigger] s[j]),
    ensures
        last_spoken(s, n) == k,
    decreases n,
{
    if k < n - 1 {
        assert(!is_spoken(s[n - 1]));
        lemma_spoke_last(s, n - 1, k);
    }
}

/// A menu that was opened on a row that shows nothing goes by the row above it, and one
/// that was opened on no message copies the message before it. Row `above` shows entry `i`,
/// and message `k` is the last one up to it.
pub proof fn the_message_above_is_copied(
    v: AppView,
    action: ContextMenuAction,
    row: usize,
    now: u64,
    above: int,
    i: int,
    k: int,
)
    requires
        v.screen.chat_area is Some,
        0 <= above <= row < v.entry_rows.len(),
        v.entry_rows[above] is Some,
        v.entry_rows[above]->0 == i,
        forall|r: int| above < r <= row ==> (#[trigger] v.entry_rows[r]) is None,
        0 <= k <= i < v.history.len(),
        is_spoken(v.history[k]),
        forall|j: int| k < j <= i ==> !is_spoken(#[trigger] v.history[j]),
    ensures
        ({
            let (after, job) = v.menu_copy(action, row, now);
            &&& after == v
            &&& job is Some
            &&& job->0.text == v.history[k]->Agent_text
            &&& job->0.origin == OriginView::Menu(v.history[k]->name + " message"@)
            &&& action is CopyAsRichText ==> job->0.format is Rich
            &&& action is CopyAsMarkdown ==> job->0.format is Markdown
            &&& action is CopyAsPlainText ==> job->0.format is Plain
        }),
{
    reveal(AppView::menu_copy);
    lemma_owner_above(v.entry_rows, row as int, above);
    let before = v.history.take(i + 1);
    assert(before[k] == v.history[k]);
    assert forall|j: int| k < j < i + 1 implies !is_spoken(#[trigger] before[j]) by {
        assert(before[j] == v.history[j]);
    }
    lemma_spoke_last(before, i + 1, k);
}

/// Below the last row of the chat the last message of an agent is copied.
pub proof fn the_last_message_is_copied_below(
    v: AppView,
    action: ContextMenuAction,
    row: usize,
    now: u64,
    k: int,
)
    requires
        v.screen.chat_area is Some,
        row >= v.entry_rows.len(),
        0 <= k < v.history.len(),
        is_spoken(v.history[k]),
        forall|j: int| k < j < v.history.len() ==> !is_spoken(#[trigger] v.history[j]),
    ensures
        v.menu_copy(action, row, now).1 is Some,
        (v.menu_copy(action, row, now).1->0).text == v.history[k]->Agent_text,
{
    reveal(AppView::menu_copy);
    let all = v.history.take(v.history.len() as int);
    assert(all =~= v.history);
    lemma_spoke_last(all, all.len() as int, k);
}

} // verus!
