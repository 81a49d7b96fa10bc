//! Reusable answering dialog.
//!
//! A modal that replaces the composer and walks the user through a sequence of
//! pages that ends in a confirm page. The state machine knows nothing of what
//! the pages are for: on submit it yields one [`Answer`] per page, in order,
//! and the caller maps them to the resolution that its use needs.

use vstd::prelude::*;
use crate::editor::text_of;
use crate::key::{KeyCode, KeyEvent};
use crate::nav::{min_int, monus, next_index, prev_index, wrap_next, wrap_prev};
use crate::text::{copy_strings, same, texts, trim};
use crate::textfield::{FieldView, TextField};

pub mod approval;
pub mod face_laws;
pub mod laws;
pub mod question;

verus! {

/// One proposed option on a select or multiselect page.
#[derive(Debug)]
pub struct DialogOption {
    pub id: String,
    pub label: String,
    /// Optional description shown under the label.
    pub description: Option<String>,
}

pub struct OptionView {
    pub id: Seq<char>,
    pub label: Seq<char>,
    pub description: Option<Seq<char>>,
}

impl View for DialogOption {
    type V = OptionView;

    open spec fn view(&self) -> OptionView {
        OptionView {
            id: self.id@,
            label: self.label@,
            description: text_of(self.description),
        }
    }
}

pub open spec fn option_views(v: Seq<DialogOption>) -> Seq<OptionView> {
    v.map_values(|o: DialogOption| o@)
}

impl DialogOption {
    /// An option with a label only.
    pub fn new(id: &str, label: &str) -> (r: DialogOption)
        ensures
            r@ == (OptionView { id: id@, label: label@, description: None }),
    {
        DialogOption { id: String::from_str(id), label: String::from_str(label), description: None }
    }
}

/// What a page asks for.
#[derive(Debug, Clone, Copy, PartialEq, Eq, Structural)]
pub enum PageKind {
    /// Exactly one option.
    Select,
    /// Any number of options.
    Multiselect,
    /// Free text only.
    Text,
}

/// One page: a prompt, its answer mode and its options.
#[derive(Debug)]
pub struct Page {
    pub prompt: String,
    pub kind: PageKind,
    pub options: Vec<DialogOption>,
}

#[verifier::ext_equal]
pub struct PageView {
    pub prompt: Seq<char>,
    pub kind: PageKind,
    pub options: Seq<OptionView>,
}

impl View for Page {
    type V = PageView;

    open spec fn view(&self) -> PageView {
        PageView {
            prompt: self.prompt@,
            kind: self.kind,
            options: option_views(self.options@),
        }
    }
}

pub open spec fn page_views(v: Seq<Page>) -> Seq<PageView> {
    v.map_values(|p: Page| p@)
}

impl PageView {
    /// Number of cursor positions: one on a text page; the options and the
    /// custom answer on a select page; those and the "Next" row on a
    /// multiselect page.
    pub open spec fn cursor_count(self) -> int {
        match self.kind {
            PageKind::Text => 1,
            PageKind::Multiselect => (self.options.len() + 2) as int,
            PageKind::Select => (self.options.len() + 1) as int,
        }
    }

    /// Position of the custom answer.
    pub open spec fn custom_index(self) -> int {
        self.options.len() as int
    }

    /// Position of the "Next" row.
    pub open spec fn next_index(self) -> Option<int> {
        if self.kind is Multiselect {
            Some((self.options.len() + 1) as int)
        } else {
            None
        }
    }
}

impl Page {
    pub fn select(prompt: &str, options: Vec<DialogOption>) -> (r: Page)
        ensures
            r@ == (PageView {
                prompt: prompt@,
                kind: PageKind::Select,
                options: option_views(options@),
            }),
    {
        Page { prompt: String::from_str(prompt), kind: PageKind::Select, options }
    }

    pub fn multiselect(prompt: &str, options: Vec<DialogOption>) -> (r: Page)
        ensures
            r@ == (PageView {
                prompt: prompt@,
                kind: PageKind::Multiselect,
                options: option_views(options@),
            }),
    {
        Page { prompt: String::from_str(prompt), kind: PageKind::Multiselect, options }
    }

    pub fn text(prompt: &str) -> (r: Page)
        ensures
            r@ == (PageView { prompt: prompt@, kind: PageKind::Text, options: Seq::empty() }),
    {
        let r = Page { prompt: String::from_str(prompt), kind: PageKind::Text, options: Vec::new() };
        proof {
            assert(r@.options =~= Seq::empty());
        }
        r
    }

    pub fn is_text(&self) -> (r: bool)
        ensures
            r == (self@.kind is Text),
    {
        matches!(self.kind, PageKind::Text)
    }

    pub fn is_select(&self) -> (r: bool)
        ensures
            r == (self@.kind is Select),
    {
        matches!(self.kind, PageKind::Select)
    }

    /// Whether options show as radio buttons.
    pub fn kind_is_select(&self) -> (r: bool)
        ensures
            r == (self@.kind is Select),
    {
        self.is_select()
    }

    pub fn is_multiselect(&self) -> (r: bool)
        ensures
            r == (self@.kind is Multiselect),
    {
        matches!(self.kind, PageKind::Multiselect)
    }

    pub fn cursor_count(&self) -> (r: usize)
        requires
            self@.options.len() + 2 <= usize::MAX,
        ensures
            r == self@.cursor_count(),
    {
        if self.is_text() {
            1
        } else if self.is_multiselect() {
            self.options.len() + 2
        } else {
            self.options.len() + 1
        }
    }

    pub fn custom_index(&self) -> (r: usize)
        ensures
            r == self@.custom_index(),
    {
        self.options.len()
    }

    pub fn next_index(&self) -> (r: Option<usize>)
        requires
            self@.options.len() + 2 <= usize::MAX,
        ensures
            match r {
                Some(i) => self@.next_index() == Some(i as int),
                None => self@.next_index() is None,
            },
    {
        if self.is_multiselect() {
            Some(self.options.len() + 1)
        } else {
            None
        }
    }
}

/// What the user has answered on a page so far.
pub struct PageState {
    selected: Vec<String>,
    custom: TextField,
}

#[verifier::ext_equal]
pub struct PageStateView {
    pub selected: Seq<Seq<char>>,
    pub custom: FieldView,
}

impl View for PageState {
    type V = PageStateView;

    closed spec fn view(&self) -> PageStateView {
        PageStateView { selected: texts(self.selected@), custom: self.custom@ }
    }
}

pub open spec fn state_views(v: Seq<PageState>) -> Seq<PageStateView> {
    v.map_values(|s: PageState| s@)
}

impl PageStateView {
    pub open spec fn empty() -> PageStateView {
        PageStateView { selected: Seq::empty(), custom: FieldView::empty() }
    }

    /// Only `id` chosen, no custom answer.
    pub open spec fn chosen(id: Seq<char>) -> PageStateView {
        PageStateView { selected: seq![id], custom: FieldView::empty() }
    }

    pub open spec fn has_custom(self) -> bool {
        trim(self.custom.text).len() > 0
    }

    /// A radio page holds one option or a custom answer, never both; a text
    /// page holds no option.
    pub open spec fn fits(self, page: PageView) -> bool {
        &&& self.custom.in_text()
        &&& page.kind is Select ==> self.selected.len() <= 1 && (self.selected.len() == 0
            || self.custom.text.len() == 0)
        &&& page.kind is Text ==> self.selected.len() == 0
    }
}

/// The answer to one page.
#[derive(Debug, PartialEq, Eq)]
pub enum Answer {
    /// One chosen option.
    Single { id: String },
    /// Any number of options and a further free-text answer.
    Multi { ids: Vec<String>, custom: Option<String> },
    /// Free text.
    Text { text: String },
}

pub enum AnswerView {
    Single { id: Seq<char> },
    Multi { ids: Seq<Seq<char>>, custom: Option<Seq<char>> },
    Text { text: Seq<char> },
}

impl View for Answer {
    type V = AnswerView;

    open spec fn view(&self) -> AnswerView {
        match self {
            Answer::Single { id } => AnswerView::Single { id: id@ },
            Answer::Multi { ids, custom } => AnswerView::Multi {
                ids: texts(ids@),
                custom: text_of(*custom),
            },
            Answer::Text { text } => AnswerView::Text { text: text@ },
        }
    }
}

pub open spec fn answer_views(v: Seq<Answer>) -> Seq<AnswerView> {
    v.map_values(|a: Answer| a@)
}

/// What the host does after a key.
#[derive(Debug, PartialEq, Eq)]
pub enum DialogOutcome {
    /// Stay open.
    Continue,
    /// Submitted: one answer per page, in order.
    Submit(Vec<Answer>),
    /// Dismissed.
    Cancel,
}

pub enum OutcomeView {
    Continue,
    Submit(Seq<AnswerView>),
    Cancel,
}

impl View for DialogOutcome {
    type V = OutcomeView;

    open spec fn view(&self) -> OutcomeView {
        match self {
            DialogOutcome::Continue => OutcomeView::Continue,
            DialogOutcome::Submit(a) => OutcomeView::Submit(answer_views(a@)),
            DialogOutcome::Cancel => OutcomeView::Cancel,
        }
    }
}

/// Position of the first `x` in `s`, or the length.
pub open spec fn first_index(s: Seq<Seq<char>>, x: Seq<char>, from: int) -> int
    decreases s.len() - from,
{
    if from >= s.len() {
        s.len() as int
    } else if s[from] == x {
        from
    } else {
        first_index(s, x, from + 1)
    }
}

/// `s` with `x` taken out if it is there and added at the end otherwise.
pub open spec fn toggled(s: Seq<Seq<char>>, x: Seq<char>) -> Seq<Seq<char>> {
    let i = first_index(s, x, 0);
    if i < s.len() {
        s.remove(i)
    } else {
        s.push(x)
    }
}

/// The answer that a page's state stands for.
pub open spec fn answer_of(page: PageView, st: PageStateView) -> AnswerView {
    let custom = trim(st.custom.text);
    match page.kind {
        PageKind::Text => AnswerView::Text { text: custom },
        PageKind::Select => if st.selected.len() > 0 {
            AnswerView::Single { id: st.selected[0] }
        } else {
            AnswerView::Text { text: custom }
        },
        PageKind::Multiselect => AnswerView::Multi {
            ids: st.selected,
            custom: if custom.len() == 0 {
                None
            } else {
                Some(custom)
            },
        },
    }
}

/// The dialog: pages, answers so far, and where the user is.
#[verifier::ext_equal]
pub struct DialogView {
    pub pages: Seq<PageView>,
    pub states: Seq<PageStateView>,
    pub page: int,
    pub cursor: int,
    pub typing: bool,
    pub created_at: nat,
    pub lockout: nat,
    pub scroll: int,
    pub viewport: int,
}

/// First visible row of a list of `total` rows with `viewport` rows of room (0
/// for no limit), moved from `scroll` just far enough to show `cursor`.
pub open spec fn scrolled(cursor: int, scroll: int, total: int, viewport: int) -> int {
    if viewport == 0 || total <= viewport {
        0
    } else {
        let s = if cursor < scroll {
            cursor
        } else if cursor >= scroll + viewport {
            cursor + 1 - viewport
        } else {
            scroll
        };
        min_int(s, total - viewport)
    }
}

/// The focused row is inside the visible rows, and these are inside the list.
pub proof fn scrolling_keeps_focus_visible(cursor: int, scroll: int, total: int, viewport: int)
    requires
        0 <= cursor < total,
        0 <= scroll,
        0 < viewport,
    ensures
        ({
            let top = scrolled(cursor, scroll, total, viewport);
            &&& 0 <= top <= cursor < top + viewport
            &&& viewport < total ==> top + viewport <= total
        }),
{
}

impl DialogView {
    /// There is a page; the state of each page fits it; the cursor is on a row
    /// of the current page; typing happens on a page, never on the confirm
    /// page.
    pub open spec fn wf(self) -> bool {
        &&& self.pages.len() > 0
        &&& self.states.len() == self.pages.len()
        &&& 0 <= self.page <= self.pages.len()
        &&& self.page < self.pages.len() ==> 0 <= self.cursor < self.current().cursor_count()
        &&& self.page < self.pages.len() ==> self.scroll < self.current().cursor_count()
        &&& self.page == self.pages.len() ==> self.scroll == 0
        &&& self.typing ==> self.page < self.pages.len()
        &&& 0 <= self.scroll
        &&& 0 <= self.viewport
        &&& forall|i: int|
            0 <= i < self.pages.len() ==> (#[trigger] self.pages[i]).options.len() + 2 <= usize::MAX
        &&& forall|i: int|
            0 <= i < self.pages.len() ==> (#[trigger] self.states[i]).fits(self.pages[i])
    }

    pub open spec fn current(self) -> PageView {
        self.pages[self.page]
    }

    pub open spec fn state(self) -> PageStateView {
        self.states[self.page]
    }

    pub open spec fn on_confirm_page(self) -> bool {
        self.page == self.pages.len()
    }

    /// Whether the lockout still runs at time `now`.
    pub open spec fn locked(self, now: nat) -> bool {
        monus(now as int, self.created_at as int) < self.lockout
    }

    /// Whether page `i` has a usable answer.
    pub open spec fn is_answered(self, i: int) -> bool {
        (!(self.pages[i].kind is Text) && self.states[i].selected.len() > 0)
            || self.states[i].has_custom()
    }

    pub open spec fn all_answered(self) -> bool {
        forall|i: int| 0 <= i < self.pages.len() ==> self.is_answered(i)
    }

    pub open spec fn answers(self) -> Seq<AnswerView> {
        Seq::new(self.pages.len(), |i: int| answer_of(self.pages[i], self.states[i]))
    }

    pub open spec fn with_state(self, st: PageStateView) -> DialogView {
        DialogView { states: self.states.update(self.page, st), ..self }
    }

    /// The scroll position brought to the cursor.
    pub open spec fn clamped(self) -> DialogView {
        DialogView {
            scroll: if self.on_confirm_page() {
                0
            } else {
                scrolled(self.cursor, self.scroll, self.current().cursor_count(), self.viewport)
            },
            ..self
        }
    }

    pub open spec fn with_viewport(self, rows: int) -> DialogView {
        (DialogView { viewport: rows, ..self }).clamped()
    }

    /// On page `page`, at its first row; a text page opens in typing mode.
    pub open spec fn landed(self, page: int) -> DialogView {
        DialogView {
            page,
            cursor: 0,
            scroll: 0,
            typing: page < self.pages.len() && self.pages[page].kind is Text,
            ..self
        }
    }

    pub open spec fn next_page(self) -> DialogView {
        if self.page < self.pages.len() {
            self.landed(self.page + 1)
        } else {
            self
        }
    }

    pub open spec fn prev_page(self) -> DialogView {
        if self.page > 0 {
            self.landed(self.page - 1)
        } else {
            self
        }
    }

    /// A lone page that is answered is submitted at once; otherwise the next
    /// page comes.
    pub open spec fn submit_or_advance(self) -> (DialogView, OutcomeView) {
        if self.pages.len() == 1 && self.all_answered() {
            (self, OutcomeView::Submit(self.answers()))
        } else {
            (self.next_page(), OutcomeView::Continue)
        }
    }

    /// Start typing the custom answer; a radio choice is dropped.
    pub open spec fn custom_begun(self) -> DialogView {
        let cleared = if self.current().kind is Select {
            self.with_state(PageStateView { selected: Seq::empty(), ..self.state() })
        } else {
            self
        };
        DialogView { typing: true, ..cleared }
    }

    /// Option `i` toggled on a multiselect page.
    pub open spec fn option_toggled(self, i: int) -> DialogView {
        self.with_state(
            PageStateView {
                selected: toggled(self.state().selected, self.current().options[i].id),
                ..self.state()
            },
        )
    }

    /// Option `i` chosen on a select page.
    pub open spec fn option_chosen(self, i: int) -> DialogView {
        self.with_state(PageStateView::chosen(self.current().options[i].id))
    }

    pub open spec fn typing_key(self, key: KeyEvent) -> (DialogView, OutcomeView) {
        let page = self.current();
        let field = self.state().custom;
        if page.kind is Text && self.pages.len() > 1 && key.code is Left && field.pos == 0 {
            (self.prev_page(), OutcomeView::Continue)
        } else if page.kind is Text && self.pages.len() > 1 && key.code is Right && field.pos
            == field.text.len() {
            (self.next_page(), OutcomeView::Continue)
        } else if key.code is Enter {
            let done = DialogView { typing: false, ..self };
            if page.kind is Text {
                self.submit_or_advance()
            } else if page.kind is Multiselect || !self.state().has_custom() {
                (done, OutcomeView::Continue)
            } else {
                done.submit_or_advance()
            }
        } else {
            (
                self.with_state(
                    PageStateView {
                        selected: if page.kind is Select {
                            Seq::empty()
                        } else {
                            self.state().selected
                        },
                        custom: field.after_key(key),
                    },
                ),
                OutcomeView::Continue,
            )
        }
    }

    /// A digit that names option `i`.
    pub open spec fn number_key(self, i: int) -> (DialogView, OutcomeView) {
        if self.current().kind is Select {
            (DialogView { cursor: i, ..self }).clamped().option_chosen(i).submit_or_advance()
        } else {
            ((DialogView { cursor: i, ..self.option_toggled(i) }).clamped(), OutcomeView::Continue)
        }
    }

    pub open spec fn space_key(self) -> DialogView {
        let page = self.current();
        if page.next_index() == Some(self.cursor) {
            self
        } else if self.cursor == page.custom_index() {
            self.custom_begun()
        } else if page.kind is Select {
            if self.state().selected == seq![page.options[self.cursor].id] {
                self.with_state(PageStateView { selected: Seq::empty(), ..self.state() })
            } else {
                self.option_chosen(self.cursor)
            }
        } else {
            self.option_toggled(self.cursor)
        }
    }

    pub open spec fn enter_key(self) -> (DialogView, OutcomeView) {
        let page = self.current();
        if page.next_index() == Some(self.cursor) {
            self.submit_or_advance()
        } else if self.cursor == page.custom_index() {
            if !self.state().has_custom() {
                (self.custom_begun(), OutcomeView::Continue)
            } else if page.kind is Multiselect {
                (self, OutcomeView::Continue)
            } else {
                self.submit_or_advance()
            }
        } else if page.kind is Select {
            self.option_chosen(self.cursor).submit_or_advance()
        } else {
            (self.option_toggled(self.cursor), OutcomeView::Continue)
        }
    }

    /// The option that a digit key names, or -1 for other keys.
    pub open spec fn digit_of(key: KeyEvent) -> int {
        match key.code {
            KeyCode::Char(c) => if '1' <= c && c <= '9' {
                c as int - '1' as int
            } else {
                -1
            },
            _ => -1,
        }
    }

    pub open spec fn page_key(self, key: KeyEvent) -> (DialogView, OutcomeView) {
        let page = self.current();
        let n = page.cursor_count();
        let d = DialogView::digit_of(key);
        let left = key.code is Left || key.code == KeyCode::Char('h');
        let right = key.code is Right || key.code == KeyCode::Char('l');
        if left {
            (self.prev_page(), OutcomeView::Continue)
        } else if right {
            (self.next_page(), OutcomeView::Continue)
        } else if page.kind is Text {
            (DialogView { typing: true, ..self }).typing_key(key)
        } else if d >= 0 {
            if d < page.options.len() {
                self.number_key(d)
            } else {
                (self, OutcomeView::Continue)
            }
        } else if key.code is Up || key.code == KeyCode::Char('k') {
            (
                (DialogView { cursor: prev_index(self.cursor, n), ..self }).clamped(),
                OutcomeView::Continue,
            )
        } else if key.code is Down || key.code == KeyCode::Char('j') {
            (
                (DialogView { cursor: next_index(self.cursor, n), ..self }).clamped(),
                OutcomeView::Continue,
            )
        } else if key.code == KeyCode::Char(' ') {
            (self.space_key(), OutcomeView::Continue)
        } else if key.code is Enter {
            self.enter_key()
        } else {
            (self, OutcomeView::Continue)
        }
    }

    /// First page at or after `i` without an answer, or the number of pages.
    pub open spec fn first_unanswered(self, i: int) -> int
        decreases self.pages.len() - i,
    {
        if i >= self.pages.len() {
            self.pages.len() as int
        } else if !self.is_answered(i) {
            i
        } else {
            self.first_unanswered(i + 1)
        }
    }

    pub open spec fn confirm_key(self, key: KeyEvent) -> (DialogView, OutcomeView) {
        if key.code is Left || key.code == KeyCode::Char('h') {
            (self.prev_page(), OutcomeView::Continue)
        } else if key.code is Enter {
            if self.all_answered() {
                (self, OutcomeView::Submit(self.answers()))
            } else {
                (self.landed(self.first_unanswered(0)), OutcomeView::Continue)
            }
        } else {
            (self, OutcomeView::Continue)
        }
    }

    /// What a key at time `now` does.
    pub open spec fn key(self, key: KeyEvent, now: nat) -> (DialogView, OutcomeView) {
        if self.locked(now) {
            (self, OutcomeView::Continue)
        } else if key.code is Esc {
            (self, OutcomeView::Cancel)
        } else if self.typing {
            self.typing_key(key)
        } else if self.on_confirm_page() {
            self.confirm_key(key)
        } else {
            self.page_key(key)
        }
    }
}

// ---- Laws -----------------------------------------------------------------

/// While the lockout runs no key has any effect.
pub proof fn locked_dialog_ignores_keys(v: DialogView, key: KeyEvent, now: nat)
    requires
        v.locked(now),
    ensures
        v.key(key, now) == (v, OutcomeView::Continue),
{
}

/// Esc dismisses an unlocked dialog wherever the user is, also while typing.
pub proof fn esc_always_dismisses(v: DialogView, key: KeyEvent, now: nat)
    requires
        !v.locked(now),
        key.code is Esc,
    ensures
        v.key(key, now).1 is Cancel,
{
}

/// A dialog is only submitted when every page is answered, and then with one
/// answer per page, in order.
pub proof fn submit_is_complete(v: DialogView, key: KeyEvent, now: nat)
    requires
        v.wf(),
        v.key(key, now).1 is Submit,
    ensures
        v.key(key, now).0.all_answered(),
        v.key(key, now).1->Submit_0 == v.key(key, now).0.answers(),
        v.key(key, now).1->Submit_0.len() == v.pages.len(),
{
}

/// Keys never change what is asked, nor when the lockout ends.
pub proof fn keys_leave_the_questions_alone(v: DialogView, key: KeyEvent, now: nat)
    requires
        v.wf(),
    ensures
        v.key(key, now).0.pages == v.pages,
        v.key(key, now).0.lockout == v.lockout,
        v.key(key, now).0.created_at == v.created_at,
        v.key(key, now).0.states.len() == v.states.len(),
{
}

/// Toggling an option that is not chosen and toggling it again gives back the
/// choice there was.
pub proof fn toggling_twice_restores(s: Seq<Seq<char>>, x: Seq<char>)
    requires
        !s.contains(x),
    ensures
        toggled(toggled(s, x), x) == s,
{
    lemma_first_index(s, x, 0);
    assert(first_index(s, x, 0) == s.len());
    let t = s.push(x);
    lemma_first_index(t, x, 0);
    assert(t[s.len() as int] == x);
    assert(first_index(t, x, 0) == s.len()) by {
        let i = first_index(t, x, 0);
        if i < s.len() {
            assert(t[i] == s[i]);
            assert(s.contains(x));
        }
    }
    assert(t.remove(s.len() as int) =~= s);
}

proof fn lemma_first_index(s: Seq<Seq<char>>, x: Seq<char>, from: int)
    requires
        0 <= from <= s.len(),
    ensures
        from <= first_index(s, x, from) <= s.len(),
        first_index(s, x, from) < s.len() ==> s[first_index(s, x, from)] == x,
        forall|i: int| from <= i < first_index(s, x, from) ==> s[i] != x,
    decreases s.len() - from,
{
    if from < s.len() && s[from] != x {
        lemma_first_index(s, x, from + 1);
    }
}

proof fn lemma_first_unanswered(v: DialogView, i: int)
    requires
        0 <= i <= v.pages.len(),
        forall|j: int| 0 <= j < i ==> v.is_answered(j),
    ensures
        i <= v.first_unanswered(i) <= v.pages.len(),
        v.first_unanswered(i) < v.pages.len() <==> !v.all_answered(),
        v.first_unanswered(i) < v.pages.len() ==> !v.is_answered(v.first_unanswered(i)),
    decreases v.pages.len() - i,
{
    if i < v.pages.len() && v.is_answered(i) {
        lemma_first_unanswered(v, i + 1);
    }
}

// ---- The state machine ----------------------------------------------------

/// The dialog state machine. Times are milliseconds on one clock.
pub struct DialogState {
    pages: Vec<Page>,
    page_states: Vec<PageState>,
    page: usize,
    cursor: usize,
    typing: bool,
    created_at: u64,
    lockout: u64,
    scroll: usize,
    viewport: usize,
}

impl View for DialogState {
    type V = DialogView;

    closed spec fn view(&self) -> DialogView {
        DialogView {
            pages: page_views(self.pages@),
            states: state_views(self.page_states@),
            page: self.page as int,
            cursor: self.cursor as int,
            typing: self.typing,
            created_at: self.created_at as nat,
            lockout: self.lockout as nat,
            scroll: self.scroll as int,
            viewport: self.viewport as int,
        }
    }
}

impl DialogState {
    /// See [`DialogView::wf`].
    pub open spec fn wf(&self) -> bool {
        self@.wf()
    }

    /// The dialog over `pages`, opened at `created_at` and locked for `lockout`
    /// milliseconds. A text page opens in typing mode.
    pub fn new(pages: Vec<Page>, lockout: u64, created_at: u64) -> (r: DialogState)
        requires
            pages@.len() > 0,
            forall|i: int|
                0 <= i < pages@.len() ==> (#[trigger] pages@[i])@.options.len() + 2 <= usize::MAX,
        ensures
            r.wf(),
            r@ == (DialogView {
                pages: page_views(pages@),
                states: Seq::new(pages@.len(), |i: int| PageStateView::empty()),
                page: 0,
                cursor: 0,
                typing: pages@[0]@.kind is Text,
                created_at: created_at as nat,
                lockout: lockout as nat,
                scroll: 0,
                viewport: 0,
            }),
    {
        let mut page_states: Vec<PageState> = Vec::new();
        let mut i: usize = 0;
        while i < pages.len()
            invariant
                i <= pages@.len(),
                state_views(page_states@) == Seq::new(i as nat, |j: int| PageStateView::empty()),
            decreases pages@.len() - i,
        {
            let st = PageState { selected: Vec::new(), custom: TextField::new() };
            let ghost before = state_views(page_states@);
            proof {
                assert(st@ =~= PageStateView::empty());
            }
            page_states.push(st);
            i = i + 1;
            proof {
                assert(state_views(page_states@) =~= before.push(PageStateView::empty()));
                assert(state_views(page_states@) =~= Seq::new(
                    i as nat,
                    |j: int| PageStateView::empty(),
                ));
            }
        }
        let typing: bool = pages[0].is_text();
        DialogState {
            pages,
            page_states,
            page: 0,
            cursor: 0,
            typing,
            created_at,
            lockout,
            scroll: 0,
            viewport: 0,
        }
    }

    pub fn page_count(&self) -> (r: usize)
        ensures
            r == self@.pages.len(),
    {
        self.pages.len()
    }

    pub fn current_page(&self) -> (r: usize)
        ensures
            r == self@.page,
    {
        self.page
    }

    pub fn cursor(&self) -> (r: usize)
        ensures
            r == self@.cursor,
    {
        self.cursor
    }

    pub fn is_typing(&self) -> (r: bool)
        ensures
            r == self@.typing,
    {
        self.typing
    }

    pub fn pages(&self) -> (r: &Vec<Page>)
        ensures
            page_views(r@) == self@.pages,
    {
        &self.pages
    }

    /// Whether the dialog still ignores keys at time `now`.
    pub fn locked(&self, now: u64) -> (r: bool)
        ensures
            r == self@.locked(now as nat),
    {
        if now >= self.created_at {
            now - self.created_at < self.lockout
        } else {
            0 < self.lockout
        }
    }

    pub fn on_confirm_page(&self) -> (r: bool)
        ensures
            r == self@.on_confirm_page(),
    {
        self.page == self.pages.len()
    }

    fn is_answered(&self, page: usize) -> (r: bool)
        requires
            self.wf(),
            page < self@.pages.len(),
        ensures
            r == self@.is_answered(page as int),
    {
        proof {
            assert(self@.pages[page as int] == self.pages@[page as int]@);
            assert(self@.states[page as int] == self.page_states@[page as int]@);
        }
        let st: &PageState = &self.page_states[page];
        (!self.pages[page].is_text() && st.selected.len() > 0) || !st.custom.is_blank()
    }

    /// Whether each page has a usable answer.
    pub fn answered_flags(&self) -> (r: Vec<bool>)
        requires
            self.wf(),
        ensures
            r@ == Seq::new(self@.pages.len(), |i: int| self@.is_answered(i)),
    {
        let mut out: Vec<bool> = Vec::new();
        let mut i: usize = 0;
        while i < self.pages.len()
            invariant
                self.wf(),
                i <= self.pages@.len() == self@.pages.len(),
                out@ == Seq::new(i as nat, |j: int| self@.is_answered(j)),
            decreases self.pages@.len() - i,
        {
            let b: bool = self.is_answered(i);
            out.push(b);
            i = i + 1;
            proof {
                assert(out@ =~= Seq::new(i as nat, |j: int| self@.is_answered(j)));
            }
        }
        out
    }

    /// First page without an answer, or the number of pages.
    fn first_open_page(&self) -> (r: usize)
        requires
            self.wf(),
        ensures
            r == self@.first_unanswered(0),
            r <= self@.pages.len(),
            r == self@.pages.len() <==> self@.all_answered(),
    {
        let mut i: usize = 0;
        while i < self.pages.len() && self.is_answered(i)
            invariant
                self.wf(),
                i <= self.pages@.len() == self@.pages.len(),
                self@.first_unanswered(0) == self@.first_unanswered(i as int),
                forall|j: int| 0 <= j < i ==> self@.is_answered(j),
            decreases self.pages@.len() - i,
        {
            i = i + 1;
        }
        proof {
            lemma_first_unanswered(self@, i as int);
        }
        i
    }

    /// The chosen options of a page.
    pub fn selected_ids(&self, page: usize) -> (r: &Vec<String>)
        requires
            self.wf(),
            page < self@.pages.len(),
        ensures
            texts(r@) == self@.states[page as int].selected,
    {
        &self.page_states[page].selected
    }

    /// The custom answer of a page.
    pub fn custom_text(&self, page: usize) -> (r: String)
        requires
            self.wf(),
            page < self@.pages.len(),
        ensures
            r@ == self@.states[page as int].custom.text,
    {
        self.page_states[page].custom.text()
    }

    pub fn custom_cursor_col(&self, page: usize) -> (r: usize)
        requires
            self.wf(),
            page < self@.pages.len(),
        ensures
            r == self@.states[page as int].custom.pos,
    {
        self.page_states[page].custom.cursor_col()
    }

    /// First visible row of the current page.
    pub fn scroll(&self) -> (r: usize)
        ensures
            r == self@.scroll,
    {
        self.scroll
    }

    /// Row of the "Next" entry on the current page, if it has one.
    pub fn next_index(&self) -> (r: Option<usize>)
        requires
            self.wf(),
        ensures
            match r {
                Some(i) => !self@.on_confirm_page() && self@.current().next_index() == Some(
                    i as int,
                ),
                None => self@.on_confirm_page() || self@.current().next_index() is None,
            },
    {
        if self.on_confirm_page() {
            None
        } else {
            proof {
                assert(self@.pages[self.page as int] == self.pages@[self.page as int]@);
            }
            self.pages[self.page].next_index()
        }
    }

    /// Whether the current page is a text page.
    pub fn current_is_text(&self) -> (r: bool)
        requires
            self.wf(),
        ensures
            r == (!self@.on_confirm_page() && self@.current().kind is Text),
    {
        !self.on_confirm_page() && self.pages[self.page].is_text()
    }

    /// Tell how many rows can be shown (0 for no limit) and bring the focused
    /// row into view.
    pub fn set_viewport(&mut self, rows: usize)
        requires
            old(self).wf(),
        ensures
            final(self).wf(),
            final(self)@ == old(self)@.with_viewport(rows as int),
    {
        self.viewport = rows;
        self.clamp_scroll();
    }

    fn clamp_scroll(&mut self)
        requires
            old(self).wf(),
        ensures
            final(self).wf(),
            final(self)@ == old(self)@.clamped(),
    {
        if self.viewport == 0 || self.on_confirm_page() {
            self.scroll = 0;
            return;
        }
        proof {
            assert(self@.pages[self.page as int] == self.pages@[self.page as int]@);
        }
        let total: usize = self.pages[self.page].cursor_count();
        if total <= self.viewport {
            self.scroll = 0;
            return;
        }
        if self.cursor < self.scroll {
            self.scroll = self.cursor;
        } else if self.cursor - self.scroll >= self.viewport {
            self.scroll = self.cursor + 1 - self.viewport;
        }
        let max_scroll: usize = total - self.viewport;
        if self.scroll > max_scroll {
            self.scroll = max_scroll;
        }
    }

    /// A key at time `now`. While the lockout runs it is ignored.
    pub fn handle_key(&mut self, key: KeyEvent, now: u64) -> (r: DialogOutcome)
        requires
            old(self).wf(),
        ensures
            final(self).wf(),
            final(self)@ == old(self)@.key(key, now as nat).0,
            r@ == old(self)@.key(key, now as nat).1,
    {
        if self.locked(now) {
            return DialogOutcome::Continue;
        }
        if matches!(key.code, KeyCode::Esc) {
            return DialogOutcome::Cancel;
        }
        if self.typing {
            return self.handle_typing_key(key);
        }
        if self.on_confirm_page() {
            return self.handle_confirm_key(key);
        }
        self.handle_page_key(key)
    }

    fn handle_typing_key(&mut self, key: KeyEvent) -> (r: DialogOutcome)
        requires
            old(self).wf(),
            old(self)@.page < old(self)@.pages.len(),
        ensures
            final(self).wf(),
            final(self)@ == old(self)@.typing_key(key).0,
            r@ == old(self)@.typing_key(key).1,
    {
        let ghost v = self@;
        let p: usize = self.page;
        proof {
            assert(v.pages[p as int] == self.pages@[p as int]@);
            assert(v.states[p as int] == self.page_states@[p as int]@);
            assert(v.states[p as int].fits(v.pages[p as int]));
        }
        let is_text: bool = self.pages[p].is_text();
        if is_text && self.page_count() > 1 {
            if matches!(key.code, KeyCode::Left) && self.page_states[p].custom.cursor_col() == 0 {
                return self.prev_page();
            }
            if matches!(key.code, KeyCode::Right) && self.page_states[p].custom.at_end() {
                return self.next_page();
            }
        }
        if matches!(key.code, KeyCode::Enter) {
            if is_text {
                return self.fast_path_submit_or_advance();
            }
            self.typing = false;
            if self.pages[p].is_multiselect() || self.page_states[p].custom.is_blank() {
                return DialogOutcome::Continue;
            }
            return self.fast_path_submit_or_advance();
        }
        let is_select: bool = self.pages[p].is_select();
        if is_select {
            self.page_states[p].selected = Vec::new();
        }
        self.page_states[p].custom.handle_key(key);
        proof {
            let st = self.page_states@[p as int]@;
            if is_select {
                assert(st.selected =~= Seq::empty());
            }
            assert(self@.states =~= v.states.update(p as int, st));
            self.lemma_state_updated(v, st);
            assert(self@ =~= v.typing_key(key).0);
        }
        DialogOutcome::Continue
    }

    /// The invariant holds when only the current page's state changed to one
    /// that fits.
    proof fn lemma_state_updated(&self, v: DialogView, st: PageStateView)
        requires
            v.wf(),
            v.page < v.pages.len(),
            st.fits(v.current()),
            self@.pages == v.pages,
            self@.states == v.states.update(v.page, st),
            self@.page == v.page,
            self@.cursor == v.cursor,
            self@.scroll == v.scroll,
            self@.viewport == v.viewport,
        ensures
            self.wf(),
    {
        assert forall|i: int| 0 <= i < self@.pages.len() implies (
        #[trigger] self@.states[i]).fits(self@.pages[i]) by {
            assert(v.states[i].fits(v.pages[i]));
        }
    }

    fn handle_page_key(&mut self, key: KeyEvent) -> (r: DialogOutcome)
        requires
            old(self).wf(),
            old(self)@.page < old(self)@.pages.len(),
        ensures
            final(self).wf(),
            final(self)@ == old(self)@.page_key(key).0,
            r@ == old(self)@.page_key(key).1,
    {
        let ghost v = self@;
        let p: usize = self.page;
        proof {
            assert(v.pages[p as int] == self.pages@[p as int]@);
        }
        if matches!(key.code, KeyCode::Left | KeyCode::Char('h')) {
            return self.prev_page();
        }
        if matches!(key.code, KeyCode::Right | KeyCode::Char('l')) {
            return self.next_page();
        }
        if self.pages[p].is_text() {
            self.typing = true;
            return self.handle_typing_key(key);
        }
        match key.code {
            KeyCode::Char(c) => {
                if '1' <= c && c <= '9' {
                    let idx: usize = (c as u32 - '1' as u32) as usize;
                    if idx < self.pages[p].options.len() {
                        return self.number_select(idx);
                    }
                    return DialogOutcome::Continue;
                }
            },
            _ => {},
        }
        match key.code {
            KeyCode::Up | KeyCode::Char('k') => {
                let n: usize = self.pages[p].cursor_count();
                self.cursor = wrap_prev(self.cursor, n);
                self.clamp_scroll();
                DialogOutcome::Continue
            },
            KeyCode::Down | KeyCode::Char('j') => {
                let n: usize = self.pages[p].cursor_count();
                self.cursor = wrap_next(self.cursor, n);
                self.clamp_scroll();
                DialogOutcome::Continue
            },
            KeyCode::Char(' ') => {
                self.toggle_or_type();
                DialogOutcome::Continue
            },
            KeyCode::Enter => self.enter_on_page(),
            _ => DialogOutcome::Continue,
        }
    }

    /// Toggle option `i` of the current multiselect page.
    fn toggle_option(&mut self, i: usize)
        requires
            old(self).wf(),
            old(self)@.page < old(self)@.pages.len(),
            old(self)@.current().kind is Multiselect,
            i < old(self)@.current().options.len(),
        ensures
            final(self).wf(),
            final(self)@ == old(self)@.option_toggled(i as int),
    {
        let ghost v = self@;
        let p: usize = self.page;
        proof {
            assert(v.pages[p as int] == self.pages@[p as int]@);
            assert(v.states[p as int] == self.page_states@[p as int]@);
            assert(v.states[p as int].fits(v.pages[p as int]));
            assert(v.current().options[i as int] == self.pages@[p as int].options@[i as int]@);
        }
        let id: String = self.pages[p].options[i].id.clone();
        let ghost sel = v.state().selected;
        let mut k: usize = 0;
        while k < self.page_states[p].selected.len() && !same(
            self.page_states[p].selected[k].as_str(),
            id.as_str(),
        )
            invariant
                self@ == v,
                p < self.page_states@.len(),
                k <= self.page_states@[p as int].selected@.len(),
                sel == texts(self.page_states@[p as int].selected@),
                first_index(sel, id@, 0) == first_index(sel, id@, k as int),
            decreases self.page_states@[p as int].selected@.len() - k,
        {
            k = k + 1;
        }
        if k < self.page_states[p].selected.len() {
            let _gone: String = self.page_states[p].selected.remove(k);
            proof {
                assert(texts(self.page_states@[p as int].selected@) =~= sel.remove(k as int));
            }
        } else {
            self.page_states[p].selected.push(id);
            proof {
                assert(texts(self.page_states@[p as int].selected@) =~= sel.push(id@));
            }
        }
        proof {
            let st = self.page_states@[p as int]@;
            assert(self@.states =~= v.states.update(p as int, st));
            self.lemma_state_updated(v, st);
            assert(self@ =~= v.option_toggled(i as int));
        }
    }

    /// Choose option `i` of the current select page.
    fn choose_option(&mut self, i: usize)
        requires
            old(self).wf(),
            old(self)@.page < old(self)@.pages.len(),
            old(self)@.current().kind is Select,
            i < old(self)@.current().options.len(),
        ensures
            final(self).wf(),
            final(self)@ == old(self)@.option_chosen(i as int),
    {
        let ghost v = self@;
        let p: usize = self.page;
        proof {
            assert(v.pages[p as int] == self.pages@[p as int]@);
            assert(v.current().options[i as int] == self.pages@[p as int].options@[i as int]@);
        }
        let id: String = self.pages[p].options[i].id.clone();
        let mut one: Vec<String> = Vec::new();
        one.push(id);
        proof {
            assert(texts(one@) =~= seq![id@]);
        }
        self.page_states[p].selected = one;
        self.page_states[p].custom.clear();
        proof {
            let st = self.page_states@[p as int]@;
            assert(self@.states =~= v.states.update(p as int, st));
            self.lemma_state_updated(v, st);
            assert(self@ =~= v.option_chosen(i as int));
        }
    }

    /// A digit named option `idx`: on a select page it is chosen and the dialog
    /// moves on, on a multiselect page it is toggled.
    fn number_select(&mut self, idx: usize) -> (r: DialogOutcome)
        requires
            old(self).wf(),
            old(self)@.page < old(self)@.pages.len(),
            !(old(self)@.current().kind is Text),
            idx < old(self)@.current().options.len(),
        ensures
            final(self).wf(),
            final(self)@ == old(self)@.number_key(idx as int).0,
            r@ == old(self)@.number_key(idx as int).1,
    {
        let ghost v = self@;
        proof {
            assert(v.pages[self.page as int] == self.pages@[self.page as int]@);
        }
        if self.pages[self.page].is_select() {
            self.cursor = idx;
            self.clamp_scroll();
            self.choose_option(idx);
            self.fast_path_submit_or_advance()
        } else {
            self.toggle_option(idx);
            self.cursor = idx;
            self.clamp_scroll();
            DialogOutcome::Continue
        }
    }

    /// Space: toggle the hovered option, or start typing on the custom answer.
    fn toggle_or_type(&mut self)
        requires
            old(self).wf(),
            old(self)@.page < old(self)@.pages.len(),
            !(old(self)@.current().kind is Text),
        ensures
            final(self).wf(),
            final(self)@ == old(self)@.space_key(),
    {
        let ghost v = self@;
        let p: usize = self.page;
        proof {
            assert(v.pages[p as int] == self.pages@[p as int]@);
            assert(v.states[p as int] == self.page_states@[p as int]@);
        }
        match self.pages[p].next_index() {
            Some(next) => {
                if self.cursor == next {
                    return;
                }
            },
            None => {},
        }
        if self.cursor == self.pages[p].custom_index() {
            self.begin_custom_typing();
            return;
        }
        let i: usize = self.cursor;
        if self.pages[p].is_select() {
            proof {
                assert(v.current().options[i as int] == self.pages@[p as int].options@[i as int]@);
            }
            let chosen: bool = self.page_states[p].selected.len() == 1 && same(
                self.page_states[p].selected[0].as_str(),
                self.pages[p].options[i].id.as_str(),
            );
            proof {
                let sel = v.state().selected;
                if chosen {
                    assert(sel =~= seq![v.current().options[i as int].id]);
                } else if sel == seq![v.current().options[i as int].id] {
                    assert(sel[0] == v.current().options[i as int].id);
                }
            }
            if chosen {
                self.drop_selection();
            } else {
                self.choose_option(i);
            }
        } else {
            self.toggle_option(i);
        }
    }

    /// Forget the chosen options of the current page.
    fn drop_selection(&mut self)
        requires
            old(self).wf(),
            old(self)@.page < old(self)@.pages.len(),
        ensures
            final(self).wf(),
            final(self)@ == old(self)@.with_state(
                (PageStateView { selected: Seq::empty(), ..old(self)@.state() }),
            ),
    {
        let ghost v = self@;
        let p: usize = self.page;
        proof {
            assert(v.states[p as int] == self.page_states@[p as int]@);
            assert(v.states[p as int].fits(v.pages[p as int]));
        }
        self.page_states[p].selected = Vec::new();
        proof {
            let st = self.page_states@[p as int]@;
            assert(st.selected =~= Seq::empty());
            assert(self@.states =~= v.states.update(p as int, st));
            self.lemma_state_updated(v, st);
        }
    }

    /// Start typing the custom answer; on a select page the radio choice goes.
    fn begin_custom_typing(&mut self)
        requires
            old(self).wf(),
            old(self)@.page < old(self)@.pages.len(),
        ensures
            final(self).wf(),
            final(self)@ == old(self)@.custom_begun(),
    {
        if self.pages[self.page].is_select() {
            self.drop_selection();
        }
        self.typing = true;
    }

    /// Enter on a select or multiselect page.
    fn enter_on_page(&mut self) -> (r: DialogOutcome)
        requires
            old(self).wf(),
            old(self)@.page < old(self)@.pages.len(),
            !(old(self)@.current().kind is Text),
        ensures
            final(self).wf(),
            final(self)@ == old(self)@.enter_key().0,
            r@ == old(self)@.enter_key().1,
    {
        let ghost v = self@;
        let p: usize = self.page;
        proof {
            assert(v.pages[p as int] == self.pages@[p as int]@);
            assert(v.states[p as int] == self.page_states@[p as int]@);
        }
        match self.pages[p].next_index() {
            Some(next) => {
                if self.cursor == next {
                    return self.fast_path_submit_or_advance();
                }
            },
            None => {},
        }
        if self.cursor == self.pages[p].custom_index() {
            if self.page_states[p].custom.is_blank() {
                self.begin_custom_typing();
                return DialogOutcome::Continue;
            }
            if self.pages[p].is_multiselect() {
                return DialogOutcome::Continue;
            }
            return self.fast_path_submit_or_advance();
        }
        if self.pages[p].is_select() {
            self.choose_option(self.cursor);
            self.fast_path_submit_or_advance()
        } else {
            self.toggle_option(self.cursor);
            DialogOutcome::Continue
        }
    }

    fn fast_path_submit_or_advance(&mut self) -> (r: DialogOutcome)
        requires
            old(self).wf(),
        ensures
            final(self).wf(),
            final(self)@ == old(self)@.submit_or_advance().0,
            r@ == old(self)@.submit_or_advance().1,
    {
        if self.pages.len() == 1 && self.first_open_page() == self.pages.len() {
            return DialogOutcome::Submit(self.collect_answers());
        }
        self.next_page()
    }

    fn handle_confirm_key(&mut self, key: KeyEvent) -> (r: DialogOutcome)
        requires
            old(self).wf(),
        ensures
            final(self).wf(),
            final(self)@ == old(self)@.confirm_key(key).0,
            r@ == old(self)@.confirm_key(key).1,
    {
        match key.code {
            KeyCode::Left | KeyCode::Char('h') => self.prev_page(),
            KeyCode::Enter => {
                let first: usize = self.first_open_page();
                if first == self.pages.len() {
                    DialogOutcome::Submit(self.collect_answers())
                } else {
                    self.page = first;
                    self.land_on_page();
                    DialogOutcome::Continue
                }
            },
            _ => DialogOutcome::Continue,
        }
    }

    fn next_page(&mut self) -> (r: DialogOutcome)
        requires
            old(self).wf(),
        ensures
            final(self).wf(),
            final(self)@ == old(self)@.next_page(),
            r@ is Continue,
    {
        if self.page < self.pages.len() {
            self.page = self.page + 1;
            self.land_on_page();
        }
        DialogOutcome::Continue
    }

    fn prev_page(&mut self) -> (r: DialogOutcome)
        requires
            old(self).wf(),
        ensures
            final(self).wf(),
            final(self)@ == old(self)@.prev_page(),
            r@ is Continue,
    {
        if self.page > 0 {
            self.page = self.page - 1;
            self.land_on_page();
        }
        DialogOutcome::Continue
    }

    /// Start at the first row of the current page.
    fn land_on_page(&mut self)
        requires
            old(self)@.pages.len() > 0,
            old(self)@.page <= old(self)@.pages.len(),
        ensures
            final(self)@ == old(self)@.landed(old(self)@.page),
    {
        self.cursor = 0;
        self.scroll = 0;
        self.typing = !self.on_confirm_page() && self.pages[self.page].is_text();
    }

    /// One answer per page, in order.
    pub fn collect_answers(&self) -> (r: Vec<Answer>)
        requires
            self.wf(),
        ensures
            answer_views(r@) == self@.answers(),
    {
        let mut out: Vec<Answer> = Vec::new();
        let mut i: usize = 0;
        proof {
            assert(answer_views(out@) =~= self@.answers().take(0));
        }
        while i < self.pages.len()
            invariant
                self.wf(),
                i <= self.pages@.len() == self@.pages.len(),
                answer_views(out@) == self@.answers().take(i as int),
            decreases self.pages@.len() - i,
        {
            let ghost before = answer_views(out@);
            proof {
                assert(self@.states[i as int] == self.page_states@[i as int]@);
                assert(self@.pages[i as int] == self.pages@[i as int]@);
                assert(self@.answers().take(i + 1) =~= self@.answers().take(i as int).push(
                    self@.answers()[i as int],
                ));
            }
            let a: Answer = Self::answer_for(&self.pages[i], &self.page_states[i]);
            out.push(a);
            i = i + 1;
            proof {
                assert(answer_views(out@) =~= before.push(a@));
            }
        }
        proof {
            assert(self@.answers().take(i as int) =~= self@.answers());
        }
        out
    }

    fn answer_for(page: &Page, st: &PageState) -> (r: Answer)
        ensures
            r@ == answer_of(page@, st@),
    {
        match page.kind {
            PageKind::Text => Answer::Text { text: st.custom.trimmed() },
            PageKind::Select => {
                if st.selected.len() > 0 {
                    Answer::Single { id: st.selected[0].clone() }
                } else {
                    Answer::Text { text: st.custom.trimmed() }
                }
            },
            PageKind::Multiselect => {
                let ids: Vec<String> = copy_strings(&st.selected);
                let custom: Option<String> = if st.custom.is_blank() {
                    None
                } else {
                    Some(st.custom.trimmed())
                };
                Answer::Multi { ids, custom }
            },
        }
    }
}

} // verus!
