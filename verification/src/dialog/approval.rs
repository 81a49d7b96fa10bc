//! Command and path approval over the reusable [`DialogState`]: one page that
//! asks for the scope of the approval. A flagged wrapper can only be approved
//! once.

use vstd::prelude::*;
use crate::dialog::{Answer, AnswerView, DialogOption, DialogOutcome, DialogState, DialogView, OptionView, OutcomeView, Page, PageKind, PageStateView, PageView, answer_views, option_views};
use crate::key::KeyEvent;
use crate::text::{concat3, same};

verus! {

/// Option ids of the scope page.
pub const ID_ONCE: &'static str = "once";

pub const ID_SESSION: &'static str = "session";

pub const ID_PROJECT: &'static str = "project";

pub const ID_GLOBAL: &'static str = "global";

/// How long an approval lasts.
#[derive(Debug, Clone, Copy, PartialEq, Eq, Structural)]
pub enum Scope {
    Once,
    Session,
    Project,
    Global,
}

/// The user's choice. `Deny` is also what a dismissal means.
#[derive(Debug, Clone, Copy, PartialEq, Eq, Structural)]
pub enum ApprovalChoice {
    Approve(Scope),
    Deny,
}

/// What the host does once the dialog closes.
#[derive(Debug, Clone, Copy, PartialEq, Eq, Structural)]
pub enum ApprovalResult {
    /// Resolve the interrupt with the choice.
    Resolved { interrupt_id: u128, choice: ApprovalChoice },
}

/// The approval dialog.
pub struct ApprovalDialog {
    interrupt_id: u128,
    wrapper: bool,
    state: DialogState,
    result: Option<ApprovalResult>,
}

#[verifier::ext_equal]
pub struct ApprovalView {
    pub interrupt_id: u128,
    pub wrapper: bool,
    pub state: DialogView,
    pub result: Option<ApprovalResult>,
}

impl View for ApprovalDialog {
    type V = ApprovalView;

    closed spec fn view(&self) -> ApprovalView {
        ApprovalView {
            interrupt_id: self.interrupt_id,
            wrapper: self.wrapper,
            state: self.state@,
            result: self.result,
        }
    }
}

pub open spec fn scope_option(id: Seq<char>, label: Seq<char>) -> OptionView {
    OptionView { id, label, description: None }
}

/// The page that asks for the scope.
pub open spec fn scope_page_of(prompt: Seq<char>, wrapper: bool) -> PageView {
    PageView {
        prompt: if wrapper {
            "Run `"@ + prompt + "`? (wrapper — can't be remembered)"@
        } else {
            "Run `"@ + prompt + "`?"@
        },
        kind: PageKind::Select,
        options: if wrapper {
            seq![scope_option(ID_ONCE@, "Yes, once"@)]
        } else {
            seq![
                scope_option(ID_ONCE@, "Yes, once"@),
                scope_option(ID_SESSION@, "Yes, for this session"@),
                scope_option(ID_PROJECT@, "Always for this project"@),
                scope_option(ID_GLOBAL@, "Always everywhere"@),
            ]
        },
    }
}

/// The choice that an answer stands for. Everything but the id of a scope is a
/// denial.
pub open spec fn choice_of(answer: AnswerView) -> ApprovalChoice {
    match answer {
        AnswerView::Single { id } => if id == ID_ONCE@ {
            ApprovalChoice::Approve(Scope::Once)
        } else if id == ID_SESSION@ {
            ApprovalChoice::Approve(Scope::Session)
        } else if id == ID_PROJECT@ {
            ApprovalChoice::Approve(Scope::Project)
        } else if id == ID_GLOBAL@ {
            ApprovalChoice::Approve(Scope::Global)
        } else {
            ApprovalChoice::Deny
        },
        _ => ApprovalChoice::Deny,
    }
}

impl ApprovalView {
    /// The dialog after a key.
    pub open spec fn after_key(self, key: KeyEvent, now: nat) -> ApprovalView {
        let (state, outcome) = self.state.key(key, now);
        let result = match outcome {
            OutcomeView::Continue => self.result,
            OutcomeView::Cancel => Some(
                ApprovalResult::Resolved {
                    interrupt_id: self.interrupt_id,
                    choice: ApprovalChoice::Deny,
                },
            ),
            OutcomeView::Submit(answers) => Some(
                ApprovalResult::Resolved {
                    interrupt_id: self.interrupt_id,
                    choice: if answers.len() > 0 {
                        choice_of(answers[0])
                    } else {
                        ApprovalChoice::Deny
                    },
                },
            ),
        };
        ApprovalView { state, result, ..self }
    }
}

/// A custom answer never approves anything.
pub proof fn free_text_never_approves(text: Seq<char>)
    ensures
        choice_of(AnswerView::Text { text }) is Deny,
{
}

/// The page that asks for the scope of an approval of `prompt`.
pub fn scope_page(prompt: &str, wrapper: bool) -> (r: Page)
    ensures
        r@ == scope_page_of(prompt@, wrapper),
{
    let mut options: Vec<DialogOption> = Vec::new();
    options.push(DialogOption::new(ID_ONCE, "Yes, once"));
    let title: String = if wrapper {
        concat3("Run `", prompt, "`? (wrapper — can't be remembered)")
    } else {
        options.push(DialogOption::new(ID_SESSION, "Yes, for this session"));
        options.push(DialogOption::new(ID_PROJECT, "Always for this project"));
        options.push(DialogOption::new(ID_GLOBAL, "Always everywhere"));
        concat3("Run `", prompt, "`?")
    };
    proof {
        assert(option_views(options@) =~= scope_page_of(prompt@, wrapper).options);
    }
    Page::select(title.as_str(), options)
}

/// The choice that an answer stands for.
pub fn answer_to_choice(answer: &Answer) -> (r: ApprovalChoice)
    ensures
        r == choice_of(answer@),
{
    match answer {
        Answer::Single { id } => {
            if same(id.as_str(), ID_ONCE) {
                ApprovalChoice::Approve(Scope::Once)
            } else if same(id.as_str(), ID_SESSION) {
                ApprovalChoice::Approve(Scope::Session)
            } else if same(id.as_str(), ID_PROJECT) {
                ApprovalChoice::Approve(Scope::Project)
            } else if same(id.as_str(), ID_GLOBAL) {
                ApprovalChoice::Approve(Scope::Global)
            } else {
                ApprovalChoice::Deny
            }
        },
        _ => ApprovalChoice::Deny,
    }
}

impl ApprovalDialog {
    pub open spec fn wf(&self) -> bool {
        self@.state.wf()
    }

    /// The dialog for an approval of `prompt`, opened at `now`.
    pub fn new(interrupt_id: u128, prompt: &str, wrapper: bool, lockout: u64, now: u64) -> (r:
        ApprovalDialog)
        ensures
            r.wf(),
            r@ == (ApprovalView {
                interrupt_id,
                wrapper,
                state: DialogView {
                    pages: seq![scope_page_of(prompt@, wrapper)],
                    states: seq![PageStateView::empty()],
                    page: 0,
                    cursor: 0,
                    typing: false,
                    created_at: now as nat,
                    lockout: lockout as nat,
                    scroll: 0,
                    viewport: 0,
                },
                result: None,
            }),
    {
        let page: Page = scope_page(prompt, wrapper);
        let mut pages: Vec<Page> = Vec::new();
        pages.push(page);
        let state = DialogState::new(pages, lockout, now);
        proof {
            assert(state@.pages =~= seq![scope_page_of(prompt@, wrapper)]);
            assert(state@.states =~= seq![PageStateView::empty()]);
        }
        ApprovalDialog { interrupt_id, wrapper, state, result: None }
    }

    /// The dialog state, for the renderer.
    pub fn state(&self) -> (r: &DialogState)
        ensures
            r@ == self@.state,
    {
        &self.state
    }

    pub fn is_wrapper(&self) -> (r: bool)
        ensures
            r == self@.wrapper,
    {
        self.wrapper
    }

    /// Take the result after [`ApprovalDialog::handle_key`] returned `true`.
    pub fn take_result(&mut self) -> (r: Option<ApprovalResult>)
        ensures
            r == old(self)@.result,
            final(self)@ == (ApprovalView { result: None, ..old(self)@ }),
    {
        let r: Option<ApprovalResult> = self.result;
        self.result = None;
        r
    }

    /// A key. Returns `true` when the dialog closes.
    pub fn handle_key(&mut self, key: KeyEvent, now: u64) -> (r: bool)
        requires
            old(self).wf(),
        ensures
            final(self).wf(),
            final(self)@ == old(self)@.after_key(key, now as nat),
            r == !(old(self)@.state.key(key, now as nat).1 is Continue),
    {
        match self.state.handle_key(key, now) {
            DialogOutcome::Continue => false,
            DialogOutcome::Cancel => {
                self.result = Some(
                    ApprovalResult::Resolved {
                        interrupt_id: self.interrupt_id,
                        choice: ApprovalChoice::Deny,
                    },
                );
                true
            },
            DialogOutcome::Submit(answers) => {
                let choice: ApprovalChoice = if answers.len() > 0 {
                    proof {
                        assert(answer_views(answers@)[0] == answers@[0]@);
                    }
                    answer_to_choice(&answers[0])
                } else {
                    ApprovalChoice::Deny
                };
                self.result = Some(
                    ApprovalResult::Resolved { interrupt_id: self.interrupt_id, choice },
                );
                true
            },
        }
    }
}

} // verus!
