//! Questions over the reusable [`DialogState`]: builds the pages for a set of
//! questions, maps the answers back to responses, and lays the dialog out.

use vstd::prelude::*;
use crate::dialog::{Answer, AnswerView, DialogOption, DialogOutcome, DialogState, DialogView, OptionView, OutcomeView, Page, PageKind, PageStateView, PageView, answer_of, answer_views, keys_leave_the_questions_alone, option_views, page_views, scrolling_keeps_focus_visible, submit_is_complete};
use crate::editor::text_of;
use crate::key::KeyEvent;
use crate::nav::{max_int, min_int, min_usize, monus};
use crate::style::{Color, Line, LineView, Span, Style, line_views, push_line, push_lines, rawsp, sp};
use crate::text::{blank, blanks, concat2, concat3, copy_strings, decimal, decimal_text, join, joined, list_has, push_decimal, push_repeated, same, spaces, texts, trim};
use crate::theme::{ACCENT_BLUE_INDEX, MUTED_COLOR_INDEX};

verus! {

/// Most option rows shown at once; longer lists scroll.
pub const MAX_VISIBLE_OPTION_ROWS: usize = 8;

/// Most rows that the overlay takes.
pub const MAX_DIALOG_HEIGHT: u16 = 16;

pub const CUSTOM_LABEL: &'static str = "Type your own answer";

pub const NEXT_LABEL: &'static str = "Next";

/// A proposed answer.
#[derive(Debug)]
pub struct InterruptOption {
    pub id: String,
    pub label: String,
    pub description: Option<String>,
}

impl View for InterruptOption {
    type V = OptionView;

    open spec fn view(&self) -> OptionView {
        OptionView { id: self.id@, label: self.label@, description: text_of(self.description) }
    }
}

pub open spec fn proposal_views(v: Seq<InterruptOption>) -> Seq<OptionView> {
    v.map_values(|o: InterruptOption| o@)
}

/// A question of an interrupt.
#[derive(Debug)]
pub enum InterruptQuestion {
    Single { prompt: String, options: Vec<InterruptOption>, allow_freetext: bool },
    Multi { prompt: String, options: Vec<InterruptOption>, allow_freetext: bool },
    Freetext { prompt: String },
}

/// The questions of an interrupt.
#[derive(Debug)]
pub struct InterruptQuestionSet {
    pub questions: Vec<InterruptQuestion>,
}

/// A question is seen as the page that asks it.
impl View for InterruptQuestion {
    type V = PageView;

    open spec fn view(&self) -> PageView {
        match self {
            InterruptQuestion::Single { prompt, options, .. } => PageView {
                prompt: prompt@,
                kind: PageKind::Select,
                options: proposal_views(options@),
            },
            InterruptQuestion::Multi { prompt, options, .. } => PageView {
                prompt: prompt@,
                kind: PageKind::Multiselect,
                options: proposal_views(options@),
            },
            InterruptQuestion::Freetext { prompt } => PageView {
                prompt: prompt@,
                kind: PageKind::Text,
                options: Seq::empty(),
            },
        }
    }
}

pub open spec fn question_views(v: Seq<InterruptQuestion>) -> Seq<PageView> {
    v.map_values(|q: InterruptQuestion| q@)
}

/// The response to one question.
#[derive(Debug, PartialEq, Eq)]
pub enum ResolveResponse {
    Single { selected_id: String },
    Multi { selected_ids: Vec<String> },
    Freetext { text: String },
}

pub enum ResponseView {
    Single { selected_id: Seq<char> },
    Multi { selected_ids: Seq<Seq<char>> },
    Freetext { text: Seq<char> },
}

impl View for ResolveResponse {
    type V = ResponseView;

    open spec fn view(&self) -> ResponseView {
        match self {
            ResolveResponse::Single { selected_id } => ResponseView::Single {
                selected_id: selected_id@,
            },
            ResolveResponse::Multi { selected_ids } => ResponseView::Multi {
                selected_ids: texts(selected_ids@),
            },
            ResolveResponse::Freetext { text } => ResponseView::Freetext { text: text@ },
        }
    }
}

pub open spec fn response_views(v: Seq<ResolveResponse>) -> Seq<ResponseView> {
    v.map_values(|r: ResolveResponse| r@)
}

/// The response that an answer stands for. The free text of a multiselect page
/// goes along as a further id.
pub open spec fn response_of(answer: AnswerView) -> ResponseView {
    match answer {
        AnswerView::Single { id } => ResponseView::Single { selected_id: id },
        AnswerView::Multi { ids, custom } => ResponseView::Multi {
            selected_ids: match custom {
                Some(text) => ids.push(text),
                None => ids,
            },
        },
        AnswerView::Text { text } => ResponseView::Freetext { text },
    }
}

/// What the host does once the dialog closes.
#[derive(Debug)]
pub enum QuestionResult {
    /// Send the responses, one per question.
    Submit { interrupt_id: u128, responses: Vec<ResolveResponse> },
    /// Dismissed.
    Cancel { interrupt_id: u128 },
}

pub enum ResultView {
    Submit { interrupt_id: u128, responses: Seq<ResponseView> },
    Cancel { interrupt_id: u128 },
}

impl View for QuestionResult {
    type V = ResultView;

    open spec fn view(&self) -> ResultView {
        match self {
            QuestionResult::Submit { interrupt_id, responses } => ResultView::Submit {
                interrupt_id: *interrupt_id,
                responses: response_views(responses@),
            },
            QuestionResult::Cancel { interrupt_id } => ResultView::Cancel {
                interrupt_id: *interrupt_id,
            },
        }
    }
}

/// The question dialog.
pub struct QuestionDialog {
    interrupt_id: u128,
    description: String,
    questions: Vec<InterruptQuestion>,
    state: DialogState,
    result: Option<QuestionResult>,
}

#[verifier::ext_equal]
pub struct QuestionView {
    pub interrupt_id: u128,
    pub description: Seq<char>,
    pub questions: Seq<PageView>,
    pub state: DialogView,
    pub result: Option<ResultView>,
}

impl View for QuestionDialog {
    type V = QuestionView;

    closed spec fn view(&self) -> QuestionView {
        QuestionView {
            interrupt_id: self.interrupt_id,
            description: self.description@,
            questions: question_views(self.questions@),
            state: self.state@,
            result: match self.result {
                Some(r) => Some(r@),
                None => None,
            },
        }
    }
}

// ---- Layout ---------------------------------------------------------------

/// Lines that an option takes: one, and one for its description.
pub open spec fn option_lines(o: OptionView) -> nat {
    if o.description is Some {
        2
    } else {
        1
    }
}

/// Lines of each row of a page: the options, the custom answer, "Next".
pub open spec fn row_counts(page: PageView) -> Seq<nat> {
    let rows = page.options.map_values(|o: OptionView| option_lines(o)).push(1);
    if page.kind is Multiselect {
        rows.push(1)
    } else {
        rows
    }
}

pub open spec fn sum_range(rows: Seq<nat>, from: int, to: int) -> nat
    decreases to - from,
{
    if to <= from {
        0
    } else {
        sum_range(rows, from, to - 1) + rows[to - 1]
    }
}

/// Number of leading rows that fit into `budget` lines, at least one and at
/// most [`MAX_VISIBLE_OPTION_ROWS`]. `i` rows with `used` lines are in already.
pub open spec fn fitting(rows: Seq<nat>, budget: int, i: int, used: int) -> int
    decreases rows.len() - i,
{
    if i >= rows.len() || i >= MAX_VISIBLE_OPTION_ROWS {
        i
    } else if i > 0 && used + rows[i] > budget {
        i
    } else {
        fitting(rows, budget, i + 1, used + rows[i])
    }
}

proof fn lemma_fitting(rows: Seq<nat>, budget: int, i: int, used: int)
    requires
        0 <= i <= MAX_VISIBLE_OPTION_ROWS,
        i <= rows.len(),
    ensures
        i <= fitting(rows, budget, i, used) <= MAX_VISIBLE_OPTION_ROWS,
        rows.len() > 0 && i == 0 ==> 1 <= fitting(rows, budget, i, used),
    decreases rows.len() - i,
{
    if i < rows.len() && i < MAX_VISIBLE_OPTION_ROWS && !(i > 0 && used + rows[i] > budget) {
        lemma_fitting(rows, budget, i + 1, used + rows[i]);
    }
}

pub open spec fn muted() -> Style {
    Style::fg(Color::Indexed(MUTED_COLOR_INDEX))
}

/// A row of the option list.
pub open spec fn option_row(
    num: Seq<char>,
    marker: Seq<char>,
    label: Seq<char>,
    hovered: bool,
) -> LineView {
    seq![
        rawsp(
            if hovered {
                "▸ "@
            } else {
                "  "@
            },
        ),
        sp(
            num + marker + label,
            if hovered {
                Style::fg(Color::Indexed(ACCENT_BLUE_INDEX)).bold()
            } else {
                Style::fg(Color::White)
            },
        ),
    ]
}

pub open spec fn option_marker(radio: bool, checked: bool) -> Seq<char> {
    if radio {
        if checked {
            "(•) "@
        } else {
            "( ) "@
        }
    } else {
        if checked {
            "[x] "@
        } else {
            "[ ] "@
        }
    }
}

/// Number of an option as it shows.
pub open spec fn option_number(i: int) -> Seq<char> {
    decimal((i + 1) as nat) + ". "@
}

impl QuestionView {
    pub open spec fn wf(self) -> bool {
        &&& self.state.wf()
        &&& self.questions == self.state.pages
    }

    pub open spec fn has_context(self) -> bool {
        trim(self.description).len() > 0
    }

    /// The dialog after a key.
    pub open spec fn after_key(self, key: KeyEvent, now: nat) -> QuestionView {
        let (state, outcome) = self.state.key(key, now);
        QuestionView {
            state,
            result: match outcome {
                OutcomeView::Continue => self.result,
                OutcomeView::Cancel => Some(ResultView::Cancel { interrupt_id: self.interrupt_id }),
                OutcomeView::Submit(answers) => Some(
                    ResultView::Submit {
                        interrupt_id: self.interrupt_id,
                        responses: answers.map_values(|a: AnswerView| response_of(a)),
                    },
                ),
            },
            ..self
        }
    }

    /// Whether a key closes the dialog.
    pub open spec fn closes(self, key: KeyEvent, now: nat) -> bool {
        !(self.state.key(key, now).1 is Continue)
    }

    /// First row that the body shows, and one past the last.
    pub open spec fn window(self) -> (int, int) {
        let total = row_counts(self.state.current()).len() as int;
        let from = min_int(self.state.scroll, monus(total, 1));
        (from, from + min_int(MAX_VISIBLE_OPTION_ROWS as int, total - from))
    }

    /// Lines that the body takes.
    pub open spec fn body_lines(self) -> int {
        (if self.has_context() {
            2int
        } else {
            0int
        }) + (if self.state.on_confirm_page() {
            4 + self.questions.len() as int
        } else {
            let page = self.state.current();
            2 + (if page.kind is Text {
                1int
            } else {
                let (from, to) = self.window();
                sum_range(row_counts(page), from, to) as int
            })
        })
    }

    /// Rows that the overlay takes: the body with borders and footer, between 4
    /// and [`MAX_DIALOG_HEIGHT`].
    pub open spec fn height(self) -> int {
        min_int(max_int(3 + self.body_lines(), 4), MAX_DIALOG_HEIGHT as int)
    }

    /// Rows of the option list that fit into an area of `area_height` rows; 0
    /// when there is no list.
    pub open spec fn viewport_for(self, area_height: int) -> int {
        if self.state.on_confirm_page() || self.state.current().kind is Text {
            0
        } else {
            let overhead = if self.has_context() {
                7
            } else {
                5
            };
            fitting(row_counts(self.state.current()), monus(area_height, overhead), 0, 0)
        }
    }

    pub open spec fn header(self) -> Seq<LineView> {
        if self.has_context() {
            seq![seq![sp(self.description, muted().italic())], LineView::empty()]
        } else {
            Seq::empty()
        }
    }

    /// The lines of row `i` of the option list.
    pub open spec fn row(self, i: int) -> Seq<LineView> {
        let page = self.state.current();
        let st = self.state.state();
        let hovered = self.state.cursor == i;
        if i < page.options.len() {
            let o = page.options[i];
            let num = option_number(i);
            let marker = option_marker(page.kind is Select, st.selected.contains(o.id));
            let first = option_row(num, marker, o.label, hovered);
            match o.description {
                Some(d) => seq![
                    first,
                    seq![
                        sp(
                            spaces(2) + spaces(num.len()) + spaces(marker.len()) + d,
                            muted(),
                        ),
                    ],
                ],
                None => seq![first],
            }
        } else if i == page.options.len() {
            let label = if st.custom.text.len() == 0 {
                CUSTOM_LABEL@
            } else {
                CUSTOM_LABEL@ + ": "@ + st.custom.text
            };
            seq![
                option_row(
                    Seq::empty(),
                    if self.state.typing && hovered {
                        "✎ "@
                    } else {
                        "+ "@
                    },
                    label,
                    hovered,
                ),
            ]
        } else {
            seq![option_row(Seq::empty(), "→ "@, NEXT_LABEL@, hovered)]
        }
    }

    /// The lines of the rows from `from` up to `to`.
    pub open spec fn rows(self, from: int, to: int) -> Seq<LineView>
        decreases to - from,
    {
        if to <= from {
            Seq::empty()
        } else {
            self.rows(from, to - 1) + self.row(to - 1)
        }
    }

    pub open spec fn title_lines(self) -> Seq<LineView> {
        self.header().push(
            seq![sp(self.state.current().prompt, Style::plain().bold())],
        ).push(LineView::empty())
    }

    /// The body of a page.
    pub open spec fn page_lines(self) -> Seq<LineView> {
        let page = self.state.current();
        if page.kind is Text {
            self.title_lines().push(
                seq![
                    rawsp("▌ "@),
                    sp(
                        self.state.state().custom.text,
                        if self.state.typing {
                            Style::fg(Color::Indexed(ACCENT_BLUE_INDEX))
                        } else {
                            Style::fg(Color::White)
                        },
                    ),
                ],
            )
        } else {
            let (from, to) = self.window();
            let total = row_counts(page).len();
            let above = if from > 0 {
                seq![seq![sp("  ▲ more"@, muted())]]
            } else {
                Seq::empty()
            };
            let below = if to < total {
                seq![seq![sp("  ▼ more"@, muted())]]
            } else {
                Seq::empty()
            };
            self.title_lines() + above + self.rows(from, to) + below
        }
    }

    /// Column and row of the text cursor within the body of a page. What stands
    /// before the typed text takes one column for each character.
    pub open spec fn page_cursor(self) -> Option<(int, int)> {
        let page = self.state.current();
        let col = self.state.state().custom.pos;
        let (from, to) = self.window();
        if page.kind is Text {
            Some((2 + col, self.title_lines().len() as int))
        } else if self.state.typing && self.state.cursor == page.options.len() && from
            <= page.options.len() < to {
            Some(
                (
                    2 + "✎ "@.len() + CUSTOM_LABEL@.len() + ": "@.len() + col,
                    self.title_lines().len() + (if from > 0 {
                        1int
                    } else {
                        0int
                    }) + self.rows(from, page.options.len() as int).len(),
                ),
            )
        } else {
            None
        }
    }

    pub open spec fn title(self) -> Seq<char> {
        if self.state.pages.len() > 1 {
            if self.state.on_confirm_page() {
                " question · review "@
            } else {
                " question · "@ + decimal((self.state.page + 1) as nat) + "/"@ + decimal(
                    self.state.pages.len(),
                ) + " "@
            }
        } else {
            " question "@
        }
    }

    pub open spec fn footer(self, now: nat) -> Seq<char> {
        if self.state.locked(now) {
            "waiting…"@
        } else if self.state.typing {
            "type your answer  ·  enter: done  ·  esc: cancel"@
        } else if self.state.on_confirm_page() {
            "enter: submit  ·  ←/h: back  ·  esc: cancel"@
        } else {
            (if self.state.current().kind is Multiselect {
                "1-9/enter: toggle  ·  ↑/↓: move"@
            } else {
                "1-9: pick  ·  ↑/↓: move  ·  enter: choose"@
            }) + (if self.state.pages.len() > 1 {
                "  ·  ←/→: questions"@
            } else {
                ""@
            }) + "  ·  esc: cancel"@
        }
    }

    /// The review row of question `i`.
    pub open spec fn review_row(self, i: int) -> LineView {
        let q = self.questions[i];
        seq![
            sp(q.prompt + ": "@, muted()),
            if self.state.is_answered(i) {
                sp(
                    summary_of(answer_of(self.state.pages[i], self.state.states[i]), q),
                    Style::fg(Color::White),
                )
            } else {
                sp("⚠ unanswered"@, Style::fg(Color::Red))
            },
        ]
    }

    /// The body of the confirm page.
    pub open spec fn confirm_lines(self) -> Seq<LineView> {
        let rows = Seq::new(self.questions.len(), |i: int| self.review_row(i));
        (self.header().push(seq![sp("Review your answers"@, Style::plain().bold())]).push(
            LineView::empty(),
        ) + rows).push(LineView::empty()).push(
            if self.state.all_answered() {
                seq![sp("Press enter to submit."@, Style::fg(Color::Green))]
            } else {
                seq![sp("Answer every question before submitting."@, Style::fg(Color::Red))]
            },
        )
    }
}

/// The label of the option `id` of a question, or the id itself.
pub open spec fn label_from(options: Seq<OptionView>, id: Seq<char>, i: int) -> Seq<char>
    decreases options.len() - i,
{
    if i >= options.len() {
        id
    } else if options[i].id == id {
        options[i].label
    } else {
        label_from(options, id, i + 1)
    }
}

/// One line that sums up an answer.
pub open spec fn summary_of(answer: AnswerView, q: PageView) -> Seq<char> {
    match answer {
        AnswerView::Single { id } => label_from(q.options, id, 0),
        AnswerView::Multi { ids, custom } => {
            let labels = ids.map_values(|id: Seq<char>| label_from(q.options, id, 0));
            let parts = match custom {
                Some(text) => labels.push("“"@ + text + "”"@),
                None => labels,
            };
            if parts.len() == 0 {
                "[none]"@
            } else {
                joined(parts, ", "@)
            }
        },
        AnswerView::Text { text } => text,
    }
}

// ---- Laws -----------------------------------------------------------------

/// Every question gets one response, in order, when the dialog is submitted,
/// and the interrupt is the one that was raised.
pub proof fn submit_answers_every_question(v: QuestionView, key: KeyEvent, now: nat)
    requires
        v.wf(),
        v.state.key(key, now).1 is Submit,
    ensures
        v.after_key(key, now).result is Some,
        v.after_key(key, now).result->0 is Submit,
        v.after_key(key, now).result->0->Submit_interrupt_id == v.interrupt_id,
        v.after_key(key, now).result->0->responses.len() == v.questions.len(),
{
    submit_is_complete(v.state, key, now);
}

/// The overlay never takes fewer than 4 rows nor more than
/// [`MAX_DIALOG_HEIGHT`].
pub proof fn height_is_bounded(v: QuestionView)
    ensures
        4 <= v.height() <= MAX_DIALOG_HEIGHT,
{
}

/// After the viewport was fitted to the area, the focused row of an option list
/// is among the rows shown.
pub proof fn fitted_viewport_shows_focus(v: QuestionView, area_height: int)
    requires
        v.wf(),
        !v.state.on_confirm_page(),
        !(v.state.current().kind is Text),
    ensures
        ({
            let fitted = v.state.with_viewport(v.viewport_for(area_height));
            &&& fitted.scroll <= fitted.cursor < fitted.scroll + MAX_VISIBLE_OPTION_ROWS
        }),
{
    let page = v.state.current();
    let overhead = if v.has_context() {
        7
    } else {
        5
    };
    lemma_fitting(row_counts(page), monus(area_height, overhead), 0, 0);
    scrolling_keeps_focus_visible(
        v.state.cursor,
        v.state.scroll,
        page.cursor_count(),
        v.viewport_for(area_height),
    );
}

/// The description of an option stands right below its label.
pub proof fn descriptions_stand_under_labels(v: QuestionView, i: int)
    requires
        0 <= i < v.state.current().options.len(),
        v.state.current().options[i].description is Some,
    ensures
        ({
            let o = v.state.current().options[i];
            let first = v.row(i)[0];
            let second = v.row(i)[1];
            &&& v.row(i).len() == 2
            &&& exists|head: Seq<char>|
                {
                    &&& first[0].text + first[1].text == #[trigger] (head + o.label)
                    &&& second[0].text == spaces(head.len()) + o.description->0
                }
        }),
{
    let o = v.state.current().options[i];
    let first = v.row(i)[0];
    let num = option_number(i);
    let marker = option_marker(
        v.state.current().kind is Select,
        v.state.state().selected.contains(o.id),
    );
    reveal_strlit("▸ ");
    reveal_strlit("  ");
    let head = first[0].text + num + marker;
    assert(first[0].text.len() == 2);
    assert(first[0].text + first[1].text =~= head + o.label);
    assert(spaces(2) + spaces(num.len()) + spaces(marker.len()) =~= spaces(head.len()));
}

/// While a custom answer is typed, the cursor stands in it: behind all that the
/// row shows before it and as many of its characters as stand left of the cursor.
pub proof fn cursor_stands_in_the_answer(v: QuestionView)
    requires
        !(v.state.current().kind is Text),
        v.page_cursor() is Some,
        v.state.state().custom.text.len() > 0,
    ensures
        ({
            let row = v.row(v.state.current().options.len() as int)[0];
            let custom = v.state.state().custom;
            (v.page_cursor()->0).0 == (row[0].text + row[1].text).len() - custom.text.len()
                + custom.pos
        }),
{
    reveal_strlit("▸ ");
    reveal_strlit("  ");
    let row = v.row(v.state.current().options.len() as int)[0];
    assert(row[0].text.len() == 2);
}

// ---- Building -------------------------------------------------------------

fn copy_text(s: &Option<String>) -> (r: Option<String>)
    ensures
        text_of(r) == text_of(*s),
{
    match s {
        Some(t) => Some(t.clone()),
        None => None,
    }
}

/// The dialog options for proposed answers.
pub fn opts(options: &Vec<InterruptOption>) -> (r: Vec<DialogOption>)
    ensures
        option_views(r@) == proposal_views(options@),
{
    let mut out: Vec<DialogOption> = Vec::new();
    let mut i: usize = 0;
    proof {
        assert(option_views(out@) =~= proposal_views(options@).take(0));
    }
    while i < options.len()
        invariant
            i <= options@.len(),
            option_views(out@) == proposal_views(options@).take(i as int),
        decreases options@.len() - i,
    {
        let ghost before = option_views(out@);
        let o: &InterruptOption = &options[i];
        let d = DialogOption {
            id: o.id.clone(),
            label: o.label.clone(),
            description: copy_text(&o.description),
        };
        out.push(d);
        proof {
            assert(option_views(out@) =~= before.push(d@));
            assert(proposal_views(options@).take(i + 1) =~= before.push(o@));
        }
        i = i + 1;
    }
    proof {
        assert(proposal_views(options@).take(i as int) =~= proposal_views(options@));
    }
    out
}

/// The page that asks a question.
pub fn page_for(q: &InterruptQuestion) -> (r: Page)
    ensures
        r@ == q@,
{
    match q {
        InterruptQuestion::Single { prompt, options, .. } => Page::select(
            prompt.as_str(),
            opts(options),
        ),
        InterruptQuestion::Multi { prompt, options, .. } => Page::multiselect(
            prompt.as_str(),
            opts(options),
        ),
        InterruptQuestion::Freetext { prompt } => Page::text(prompt.as_str()),
    }
}

/// The response that an answer stands for.
pub fn answer_to_response(answer: &Answer, _q: &InterruptQuestion) -> (r: ResolveResponse)
    ensures
        r@ == response_of(answer@),
{
    match answer {
        Answer::Single { id } => ResolveResponse::Single { selected_id: id.clone() },
        Answer::Multi { ids, custom } => {
            let mut selected_ids: Vec<String> = copy_strings(ids);
            match custom {
                Some(text) => {
                    selected_ids.push(text.clone());
                    proof {
                        assert(texts(selected_ids@) =~= texts(ids@).push(text@));
                    }
                },
                None => {},
            }
            ResolveResponse::Multi { selected_ids }
        },
        Answer::Text { text } => ResolveResponse::Freetext { text: text.clone() },
    }
}

fn question_prompt(q: &InterruptQuestion) -> (r: &String)
    ensures
        r@ == q@.prompt,
{
    match q {
        InterruptQuestion::Single { prompt, .. } => prompt,
        InterruptQuestion::Multi { prompt, .. } => prompt,
        InterruptQuestion::Freetext { prompt } => prompt,
    }
}

fn label_in(options: &Vec<InterruptOption>, id: &str) -> (r: String)
    ensures
        r@ == label_from(proposal_views(options@), id@, 0),
{
    let mut i: usize = 0;
    while i < options.len()
        invariant
            i <= options@.len(),
            label_from(proposal_views(options@), id@, 0) == label_from(
                proposal_views(options@),
                id@,
                i as int,
            ),
        decreases options@.len() - i,
    {
        if same(options[i].id.as_str(), id) {
            return options[i].label.clone();
        }
        i = i + 1;
    }
    String::from_str(id)
}

fn label_for(q: &InterruptQuestion, id: &str) -> (r: String)
    ensures
        r@ == label_from(q@.options, id@, 0),
{
    match q {
        InterruptQuestion::Single { options, .. } => label_in(options, id),
        InterruptQuestion::Multi { options, .. } => label_in(options, id),
        InterruptQuestion::Freetext { .. } => String::from_str(id),
    }
}

/// One line that sums up an answer, with the labels of the chosen options.
pub fn summarize_answer(answer: &Answer, q: &InterruptQuestion) -> (r: String)
    ensures
        r@ == summary_of(answer@, q@),
{
    match answer {
        Answer::Single { id } => label_for(q, id.as_str()),
        Answer::Multi { ids, custom } => {
            let mut parts: Vec<String> = Vec::new();
            let ghost labels = texts(ids@).map_values(
                |id: Seq<char>| label_from(q@.options, id, 0),
            );
            let mut i: usize = 0;
            proof {
                assert(texts(parts@) =~= labels.take(0));
            }
            while i < ids.len()
                invariant
                    i <= ids@.len(),
                    labels == texts(ids@).map_values(
                        |id: Seq<char>| label_from(q@.options, id, 0),
                    ),
                    texts(parts@) == labels.take(i as int),
                decreases ids@.len() - i,
            {
                let ghost before = texts(parts@);
                let l: String = label_for(q, ids[i].as_str());
                parts.push(l);
                proof {
                    assert(texts(parts@) =~= before.push(l@));
                    assert(labels.take(i + 1) =~= before.push(labels[i as int]));
                }
                i = i + 1;
            }
            proof {
                assert(labels.take(i as int) =~= labels);
            }
            match custom {
                Some(text) => {
                    let quoted: String = concat3("“", text.as_str(), "”");
                    parts.push(quoted);
                    proof {
                        assert(texts(parts@) =~= labels.push(quoted@));
                    }
                },
                None => {},
            }
            if parts.len() == 0 {
                String::from_str("[none]")
            } else {
                join(&parts, ", ")
            }
        },
        Answer::Text { text } => text.clone(),
    }
}

// ---- The dialog -----------------------------------------------------------

impl QuestionDialog {
    pub open spec fn wf(&self) -> bool {
        self@.wf()
    }

    /// The dialog for the questions of an interrupt, opened at `now`.
    /// `description` is context shown above them.
    pub fn new(
        interrupt_id: u128,
        description: String,
        set: InterruptQuestionSet,
        lockout: u64,
        now: u64,
    ) -> (r: QuestionDialog)
        requires
            set.questions@.len() > 0,
            forall|i: int|
                0 <= i < set.questions@.len() ==> (#[trigger] set.questions@[i])@.options.len() + 2
                    <= usize::MAX,
        ensures
            r.wf(),
            r@ == (QuestionView {
                interrupt_id,
                description: description@,
                questions: question_views(set.questions@),
                state: DialogView {
                    pages: question_views(set.questions@),
                    states: Seq::new(set.questions@.len(), |i: int| PageStateView::empty()),
                    page: 0,
                    cursor: 0,
                    typing: set.questions@[0]@.kind is Text,
                    created_at: now as nat,
                    lockout: lockout as nat,
                    scroll: 0,
                    viewport: 0,
                },
                result: None,
            }),
    {
        let mut pages: Vec<Page> = Vec::new();
        let mut i: usize = 0;
        let ghost qs = question_views(set.questions@);
        proof {
            assert(page_views(pages@) =~= qs.take(0));
        }
        while i < set.questions.len()
            invariant
                i <= set.questions@.len(),
                qs == question_views(set.questions@),
                page_views(pages@) == qs.take(i as int),
            decreases set.questions@.len() - i,
        {
            let ghost before = page_views(pages@);
            let p: Page = page_for(&set.questions[i]);
            pages.push(p);
            proof {
                assert(page_views(pages@) =~= before.push(p@));
                assert(qs.take(i + 1) =~= before.push(qs[i as int]));
            }
            i = i + 1;
        }
        proof {
            assert(qs.take(i as int) =~= qs);
            assert forall|j: int| 0 <= j < pages@.len() implies (#[trigger] pages@[j])@.options.len()
                + 2 <= usize::MAX by {
                assert(page_views(pages@)[j] == qs[j]);
                assert(set.questions@[j]@.options.len() + 2 <= usize::MAX);
            }
            assert(page_views(pages@)[0] == qs[0]);
        }
        let state = DialogState::new(pages, lockout, now);
        QuestionDialog { interrupt_id, description, questions: set.questions, state, result: None }
    }

    /// The id of the interrupt that the dialog answers.
    pub fn interrupt_id(&self) -> (r: u128)
        ensures
            r == self@.interrupt_id,
    {
        self.interrupt_id
    }

    /// The dialog state, for the renderer.
    pub fn state(&self) -> (r: &DialogState)
        ensures
            r@ == self@.state,
    {
        &self.state
    }

    /// Take the result after [`QuestionDialog::handle_key`] returned `true`.
    pub fn take_result(&mut self) -> (r: Option<QuestionResult>)
        ensures
            (match r {
                Some(x) => Some(x@),
                None => None,
            }) == old(self)@.result,
            final(self)@ == (QuestionView { result: None, ..old(self)@ }),
    {
        self.result.take()
    }

    /// A key. Returns `true` when the dialog closes.
    pub fn handle_key(&mut self, key: KeyEvent, now: u64) -> (r: bool)
        requires
            old(self).wf(),
        ensures
            final(self).wf(),
            final(self)@ == old(self)@.after_key(key, now as nat),
            r == old(self)@.closes(key, now as nat),
    {
        let ghost v = self@;
        proof {
            keys_leave_the_questions_alone(v.state, key, now as nat);
        }
        match self.state.handle_key(key, now) {
            DialogOutcome::Continue => false,
            DialogOutcome::Cancel => {
                self.result = Some(QuestionResult::Cancel { interrupt_id: self.interrupt_id });
                true
            },
            DialogOutcome::Submit(answers) => {
                proof {
                    submit_is_complete(v.state, key, now as nat);
                    assert(answer_views(answers@).len() == answers@.len());
                }
                let mut responses: Vec<ResolveResponse> = Vec::new();
                let mut i: usize = 0;
                let ghost all = answer_views(answers@).map_values(|a: AnswerView| response_of(a));
                proof {
                    assert(response_views(responses@) =~= all.take(0));
                }
                while i < answers.len() && i < self.questions.len()
                    invariant
                        i <= answers@.len() == self.questions@.len(),
                        all == answer_views(answers@).map_values(|a: AnswerView| response_of(a)),
                        response_views(responses@) == all.take(i as int),
                    decreases answers@.len() - i,
                {
                    let ghost before = response_views(responses@);
                    let x: ResolveResponse = answer_to_response(&answers[i], &self.questions[i]);
                    responses.push(x);
                    proof {
                        assert(response_views(responses@) =~= before.push(x@));
                        assert(all.take(i + 1) =~= before.push(all[i as int]));
                    }
                    i = i + 1;
                }
                proof {
                    assert(all.take(i as int) =~= all);
                }
                self.result = Some(
                    QuestionResult::Submit { interrupt_id: self.interrupt_id, responses },
                );
                true
            },
        }
    }

    fn has_context(&self) -> (r: bool)
        ensures
            r == self@.has_context(),
    {
        !blank(self.description.as_str())
    }

    /// Lines of each row of a page.
    fn row_line_counts(&self, page: &Page) -> (r: Vec<usize>)
        requires
            page@.options.len() + 2 <= usize::MAX,
        ensures
            r@.len() == row_counts(page@).len(),
            forall|i: int| 0 <= i < r@.len() ==> r@[i] == #[trigger] row_counts(page@)[i],
            forall|i: int| 0 <= i < r@.len() ==> 1 <= #[trigger] r@[i] <= 2,
    {
        let mut counts: Vec<usize> = Vec::new();
        let mut i: usize = 0;
        while i < page.options.len()
            invariant
                i <= page.options@.len(),
                counts@.len() == i,
                forall|j: int|
                    0 <= j < i ==> counts@[j] == option_lines(#[trigger] page@.options[j]),
                forall|j: int| 0 <= j < i ==> 1 <= #[trigger] counts@[j] <= 2,
            decreases page.options@.len() - i,
        {
            let n: usize = if page.options[i].description.is_some() {
                2
            } else {
                1
            };
            counts.push(n);
            i = i + 1;
        }
        counts.push(1);
        if page.is_multiselect() {
            counts.push(1);
        }
        proof {
            assert forall|j: int| 0 <= j < counts@.len() implies counts@[j] == #[trigger] row_counts(
                page@,
            )[j] by {
                if j < page@.options.len() {
                    assert(counts@[j] == option_lines(page@.options[j]));
                }
            }
        }
        counts
    }

    /// Lines of the rows of an option list that show.
    fn visible_body_lines(&self, page: &Page) -> (r: usize)
        requires
            self.wf(),
            !self@.state.on_confirm_page(),
            page@ == self@.state.current(),
        ensures
            r == sum_range(row_counts(page@), self@.window().0, self@.window().1),
            r <= 16,
    {
        proof {
            assert(self@.state.pages[self@.state.page].options.len() + 2 <= usize::MAX);
        }
        let rows: Vec<usize> = self.row_line_counts(page);
        let total: usize = rows.len();
        let from: usize = min_usize(self.state.scroll(), total - 1);
        let shown: usize = min_usize(MAX_VISIBLE_OPTION_ROWS, total - from);
        let to: usize = from + shown;
        let mut sum: usize = 0;
        let mut i: usize = from;
        while i < to
            invariant
                from <= i <= to <= rows@.len(),
                to - from <= 8,
                rows@.len() == row_counts(page@).len(),
                forall|j: int| 0 <= j < rows@.len() ==> rows@[j] == #[trigger] row_counts(page@)[j],
                forall|j: int| 0 <= j < rows@.len() ==> 1 <= #[trigger] rows@[j] <= 2,
                sum == sum_range(row_counts(page@), from as int, i as int),
                sum <= 2 * (i - from),
            decreases to - i,
        {
            proof {
                assert(rows@[i as int] == row_counts(page@)[i as int]);
            }
            sum = sum + rows[i];
            i = i + 1;
        }
        sum
    }

    /// Rows that the overlay wants.
    pub fn desired_height(&self) -> (r: u16)
        requires
            self.wf(),
        ensures
            r == self@.height(),
    {
        let mut lines: usize = 3;
        if self.has_context() {
            lines = lines + 2;
        }
        if self.state.on_confirm_page() {
            if self.questions.len() >= MAX_DIALOG_HEIGHT as usize {
                return MAX_DIALOG_HEIGHT;
            }
            lines = lines + 4 + self.questions.len();
        } else {
            let idx: usize = self.state.current_page();
            let pages: &Vec<Page> = self.state.pages();
            proof {
                assert(self@.state.pages[idx as int] == pages@[idx as int]@);
            }
            let page: &Page = &pages[idx];
            lines = lines + 2 + if page.is_text() {
                1
            } else {
                self.visible_body_lines(page)
            };
        }
        if lines < 4 {
            4
        } else if lines > MAX_DIALOG_HEIGHT as usize {
            MAX_DIALOG_HEIGHT
        } else {
            lines as u16
        }
    }

    /// Fit the number of option rows to the height of the area and bring the
    /// focused row into view.
    pub fn sync_viewport(&mut self, area_height: u16)
        requires
            old(self).wf(),
        ensures
            final(self).wf(),
            final(self)@ == (QuestionView {
                state: old(self)@.state.with_viewport(
                    old(self)@.viewport_for(area_height as int),
                ),
                ..old(self)@
            }),
    {
        if self.state.on_confirm_page() || self.state.current_is_text() {
            self.state.set_viewport(0);
            return;
        }
        let overhead: usize = if self.has_context() {
            7
        } else {
            5
        };
        let height: usize = area_height as usize;
        let budget: usize = if height >= overhead {
            height - overhead
        } else {
            0
        };
        let idx: usize = self.state.current_page();
        let mut fit: usize = 0;
        let pages: &Vec<Page> = self.state.pages();
        proof {
            assert(self@.state.pages[idx as int] == pages@[idx as int]@);
            assert(self@.state.pages[idx as int].options.len() + 2 <= usize::MAX);
        }
        let rows: Vec<usize> = self.row_line_counts(&pages[idx]);
        let ghost counts = row_counts(self@.state.current());
        let mut used: usize = 0;
        let mut more: bool = true;
        while more && fit < rows.len() && fit < MAX_VISIBLE_OPTION_ROWS
            invariant
                fit <= rows@.len(),
                fit <= MAX_VISIBLE_OPTION_ROWS,
                used <= 2 * fit,
                rows@.len() == counts.len(),
                forall|j: int| 0 <= j < rows@.len() ==> rows@[j] == #[trigger] counts[j],
                forall|j: int| 0 <= j < rows@.len() ==> 1 <= #[trigger] rows@[j] <= 2,
                more ==> fitting(counts, budget as int, 0, 0) == fitting(
                    counts,
                    budget as int,
                    fit as int,
                    used as int,
                ),
                !more ==> fitting(counts, budget as int, 0, 0) == fit,
            decreases rows@.len() - fit,
                if more {
                    1int
                } else {
                    0int
                },
        {
            proof {
                assert(rows@[fit as int] == counts[fit as int]);
            }
            if fit > 0 && used + rows[fit] > budget {
                more = false;
            } else {
                used = used + rows[fit];
                fit = fit + 1;
            }
        }
        self.state.set_viewport(fit);
    }

    /// The title of the overlay.
    pub fn title_text(&self) -> (r: String)
        requires
            self.wf(),
            self@.state.pages.len() <= u64::MAX,
        ensures
            r@ == self@.title(),
    {
        let n: usize = self.state.page_count();
        if n > 1 {
            if self.state.on_confirm_page() {
                String::from_str(" question · review ")
            } else {
                let mut out: String = String::from_str(" question · ");
                push_decimal(&mut out, self.state.current_page() as u64 + 1);
                out.append("/");
                push_decimal(&mut out, n as u64);
                out.append(" ");
                out
            }
        } else {
            String::from_str(" question ")
        }
    }

    /// The hint in the footer.
    pub fn footer_hint(&self, now: u64) -> (r: String)
        requires
            self.wf(),
        ensures
            r@ == self@.footer(now as nat),
    {
        if self.state.locked(now) {
            return String::from_str("waiting…");
        }
        if self.state.is_typing() {
            return String::from_str("type your answer  ·  enter: done  ·  esc: cancel");
        }
        if self.state.on_confirm_page() {
            return String::from_str("enter: submit  ·  ←/h: back  ·  esc: cancel");
        }
        let nav: &str = if self.state.page_count() > 1 {
            "  ·  ←/→: questions"
        } else {
            ""
        };
        let pick: &str = if self.state.next_index().is_some() {
            "1-9/enter: toggle  ·  ↑/↓: move"
        } else {
            "1-9: pick  ·  ↑/↓: move  ·  enter: choose"
        };
        concat3(pick, nav, "  ·  esc: cancel")
    }

    fn option_line(&self, num: &str, marker: &str, label: &str, hovered: bool) -> (r: Line)
        ensures
            r@ == option_row(num@, marker@, label@, hovered),
    {
        let cursor: &str = if hovered {
            "▸ "
        } else {
            "  "
        };
        let style: Style = if hovered {
            Style::fg(Color::Indexed(ACCENT_BLUE_INDEX)).bold()
        } else {
            Style::fg(Color::White)
        };
        Line::of2(
            Span::raw(String::from_str(cursor)),
            Span::styled(concat3(num, marker, label), style),
        )
    }

    fn header_lines(&self) -> (r: Vec<Line>)
        ensures
            line_views(r@) == self@.header(),
    {
        let mut lines: Vec<Line> = Vec::new();
        proof {
            assert(line_views(lines@) =~= Seq::empty());
        }
        if self.has_context() {
            push_line(
                &mut lines,
                Line::of(
                    Span::styled(self.description.clone(), Style::fg(Color::Indexed(MUTED_COLOR_INDEX)).italic()),
                ),
            );
            push_line(&mut lines, Line::blank());
        }
        proof {
            assert(line_views(lines@) =~= self@.header());
        }
        lines
    }

    /// The lines of row `i` of the option list.
    fn row_lines(&self, i: usize) -> (r: Vec<Line>)
        requires
            self.wf(),
            !self@.state.on_confirm_page(),
            !(self@.state.current().kind is Text),
            i < self@.state.current().cursor_count(),
        ensures
            line_views(r@) == self@.row(i as int),
    {
        let mut out: Vec<Line> = Vec::new();
        proof {
            assert(line_views(out@) =~= Seq::empty());
        }
        let idx: usize = self.state.current_page();
        let pages: &Vec<Page> = self.state.pages();
        proof {
            assert(self@.state.pages[idx as int] == pages@[idx as int]@);
        }
        let page: &Page = &pages[idx];
        let hovered: bool = self.state.cursor() == i;
        if i < page.options.len() {
            let o: &DialogOption = &page.options[i];
            proof {
                assert(page@.options[i as int] == o@);
            }
            let checked: bool = list_has(self.state.selected_ids(idx), o.id.as_str());
            let marker: &str = if page.kind_is_select() {
                if checked {
                    "(•) "
                } else {
                    "( ) "
                }
            } else {
                if checked {
                    "[x] "
                } else {
                    "[ ] "
                }
            };
            let mut num: String = decimal_text(i as u64 + 1);
            num.append(". ");
            push_line(
                &mut out,
                self.option_line(num.as_str(), marker, o.label.as_str(), hovered),
            );
            match &o.description {
                Some(desc) => {
                    let mut text: String = blanks(2);
                    push_repeated(&mut text, ' ', num.as_str().unicode_len());
                    push_repeated(&mut text, ' ', marker.unicode_len());
                    text.append(desc.as_str());
                    push_line(&mut out, Line::of(Span::styled(text, Style::fg(Color::Indexed(MUTED_COLOR_INDEX)))));
                },
                None => {},
            }
        } else if i == page.options.len() {
            let typed: String = self.state.custom_text(idx);
            let label: String = if typed.as_str().is_empty() {
                String::from_str(CUSTOM_LABEL)
            } else {
                concat3(CUSTOM_LABEL, ": ", typed.as_str())
            };
            let marker: &str = if self.state.is_typing() && hovered {
                "✎ "
            } else {
                "+ "
            };
            proof {
                reveal_strlit("");
                assert(""@ =~= Seq::<char>::empty());
            }
            push_line(&mut out, self.option_line("", marker, label.as_str(), hovered));
        } else {
            proof {
                reveal_strlit("");
                assert(""@ =~= Seq::<char>::empty());
            }
            push_line(&mut out, self.option_line("", "→ ", NEXT_LABEL, hovered));
        }
        proof {
            assert(line_views(out@) =~= self@.row(i as int));
        }
        out
    }

    /// The body of the current page and the place of the text cursor in it, as
    /// a column and a row.
    pub fn render_page(&self) -> (r: (Vec<Line>, Option<(usize, usize)>))
        requires
            self.wf(),
            !self@.state.on_confirm_page(),
            self@.state.state().custom.pos + 64 <= usize::MAX,
        ensures
            line_views(r.0@) == self@.page_lines(),
            match r.1 {
                Some((x, y)) => self@.page_cursor() == Some((x as int, y as int)),
                None => self@.page_cursor() is None,
            },
    {
        let idx: usize = self.state.current_page();
        let pages: &Vec<Page> = self.state.pages();
        proof {
            assert(self@.state.pages[idx as int] == pages@[idx as int]@);
            assert(self@.state.pages[idx as int].options.len() + 2 <= usize::MAX);
        }
        let page: &Page = &pages[idx];
        let mut lines: Vec<Line> = self.header_lines();
        push_line(
            &mut lines,
            Line::of(Span::styled(page.prompt.clone(), Style::plain().bold())),
        );
        push_line(&mut lines, Line::blank());
        let col: usize = self.state.custom_cursor_col(idx);
        if page.is_text() {
            let style: Style = if self.state.is_typing() {
                Style::fg(Color::Indexed(ACCENT_BLUE_INDEX))
            } else {
                Style::fg(Color::White)
            };
            let row: usize = lines.len();
            push_line(
                &mut lines,
                Line::of2(
                    Span::raw(String::from_str("▌ ")),
                    Span::styled(self.state.custom_text(idx), style),
                ),
            );
            return (lines, Some((2 + col, row)));
        }
        let total: usize = page.cursor_count();
        let from: usize = min_usize(self.state.scroll(), total - 1);
        let shown: usize = min_usize(MAX_VISIBLE_OPTION_ROWS, total - from);
        let to: usize = from + shown;
        let custom: usize = page.custom_index();
        let mut cursor: Option<(usize, usize)> = None;
        if from > 0 {
            push_line(
                &mut lines,
                Line::of(Span::new("  ▲ more", Style::fg(Color::Indexed(MUTED_COLOR_INDEX)))),
            );
        }
        let ghost above = line_views(lines@);
        proof {
            assert(row_counts(page@).len() == total);
            let marker = if from > 0 {
                seq![seq![sp("  ▲ more"@, muted())]]
            } else {
                Seq::empty()
            };
            assert(above =~= self@.title_lines() + marker);
            lemma_small_labels();
        }
        let prefix: usize = 2 + "✎ ".unicode_len();
        let mut i: usize = from;
        proof {
            assert(above + self@.rows(from as int, from as int) =~= above);
        }
        while i < to
            invariant
                self.wf(),
                !self@.state.on_confirm_page(),
                page@ == self@.state.current(),
                !(page@.kind is Text),
                from <= i <= to <= total,
                total == page@.cursor_count(),
                custom == page@.options.len(),
                col == self@.state.state().custom.pos,
                line_views(lines@) == above + self@.rows(from as int, i as int),
                match cursor {
                    Some((x, y)) => self@.state.typing && self@.state.cursor == custom && from
                        <= custom < i && y == above.len() + self@.rows(from as int, custom as int).len() && x
                        == col,
                    None => !(self@.state.typing && self@.state.cursor == custom && from <= custom
                        < i),
                },
            decreases to - i,
        {
            if i == custom && self.state.is_typing() && self.state.cursor() == i {
                cursor = Some((col, lines.len()));
            }
            let more: Vec<Line> = self.row_lines(i);
            push_lines(&mut lines, more);
            i = i + 1;
            proof {
                assert(line_views(lines@) =~= above + self@.rows(from as int, i as int));
            }
        }
        if to < total {
            push_line(
                &mut lines,
                Line::of(Span::new("  ▼ more", Style::fg(Color::Indexed(MUTED_COLOR_INDEX)))),
            );
        }
        proof {
            let below = if to < total {
                seq![seq![sp("  ▼ more"@, muted())]]
            } else {
                Seq::empty()
            };
            assert(line_views(lines@) =~= above + self@.rows(from as int, to as int) + below);
            assert(above.len() == self@.title_lines().len() + if from > 0 {
                1int
            } else {
                0int
            });
        }
        let place: Option<(usize, usize)> = match cursor {
            Some((x, y)) => {
                let label: usize = CUSTOM_LABEL.unicode_len();
                let colon: usize = ": ".unicode_len();
                Some((prefix + label + colon + x, y))
            },
            None => None,
        };
        (lines, place)
    }

    /// The body of the confirm page.
    pub fn render_confirm(&self) -> (r: Vec<Line>)
        requires
            self.wf(),
        ensures
            line_views(r@) == self@.confirm_lines(),
    {
        let flags: Vec<bool> = self.state.answered_flags();
        let answers: Vec<Answer> = self.state.collect_answers();
        let mut lines: Vec<Line> = self.header_lines();
        push_line(&mut lines, Line::of(Span::new("Review your answers", Style::plain().bold())));
        push_line(&mut lines, Line::blank());
        let ghost head = line_views(lines@);
        let ghost rows = Seq::new(self@.questions.len(), |i: int| self@.review_row(i));
        let mut all: bool = true;
        let mut i: usize = 0;
        proof {
            assert(head + rows.take(0) =~= head);
        }
        while i < self.questions.len()
            invariant
                self.wf(),
                i <= self.questions@.len() == self@.questions.len(),
                flags@ == Seq::new(self@.state.pages.len(), |j: int| self@.state.is_answered(j)),
                answer_views(answers@) == self@.state.answers(),
                rows == Seq::new(self@.questions.len(), |j: int| self@.review_row(j)),
                line_views(lines@) == head + rows.take(i as int),
                all == (forall|j: int| 0 <= j < i ==> self@.state.is_answered(j)),
            decreases self.questions@.len() - i,
        {
            let q: &InterruptQuestion = &self.questions[i];
            proof {
                assert(self@.questions[i as int] == q@);
                assert(answer_views(answers@)[i as int] == self@.state.answers()[i as int]);
                assert(answer_views(answers@).len() == answers@.len());
            }
            let prompt: String = concat2(question_prompt(q).as_str(), ": ");
            let second: Span = if flags[i] {
                Span::styled(summarize_answer(&answers[i], q), Style::fg(Color::White))
            } else {
                all = false;
                Span::new("⚠ unanswered", Style::fg(Color::Red))
            };
            push_line(
                &mut lines,
                Line::of2(Span::styled(prompt, Style::fg(Color::Indexed(MUTED_COLOR_INDEX))), second),
            );
            proof {
                assert(head + rows.take(i + 1) =~= (head + rows.take(i as int)).push(
                    rows[i as int],
                ));
            }
            i = i + 1;
        }
        proof {
            assert(rows.take(i as int) =~= rows);
        }
        push_line(&mut lines, Line::blank());
        if all {
            push_line(
                &mut lines,
                Line::of(Span::new("Press enter to submit.", Style::fg(Color::Green))),
            );
        } else {
            push_line(
                &mut lines,
                Line::of(
                    Span::new("Answer every question before submitting.", Style::fg(Color::Red)),
                ),
            );
        }
        lines
    }
}

/// The labels around the custom answer are short.
proof fn lemma_small_labels()
    ensures
        "✎ "@.len() == 2,
        CUSTOM_LABEL@.len() == 20,
        ": "@.len() == 2,
{
    reveal_strlit("✎ ");
    reveal_strlit("Type your own answer");
    reveal_strlit(": ");
}

} // verus!
