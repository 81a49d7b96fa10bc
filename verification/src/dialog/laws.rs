//! What holds of the answers that a dialog collects.

use vstd::prelude::*;
use crate::dialog::{AnswerView, DialogView, OutcomeView, first_index, keys_leave_the_questions_alone, submit_is_complete, toggled};
use crate::dialog::approval::{ApprovalChoice, ApprovalResult, ApprovalView, ID_GLOBAL, ID_ONCE, ID_PROJECT, ID_SESSION, Scope, scope_page_of};
use crate::dialog::question::{QuestionView, ResponseView, ResultView};
use crate::key::{KeyCode, KeyEvent};
use crate::text::{trim, with_inserted};

verus! {

/// A dialog that takes keys at `now` and shows a page with options, nothing being typed.
pub open spec fn shows_options(v: DialogView, now: nat) -> bool {
    &&& v.wf()
    &&& now >= v.created_at + v.lockout
    &&& v.page < v.pages.len()
    &&& !v.typing
    &&& !(v.pages[v.page].kind is Text)
}

/// The key for the digit of row `i`.
pub open spec fn is_digit_key(key: KeyEvent, i: int) -> bool {
    &&& 0 <= i < 9
    &&& key.code == KeyCode::Char(seq!['1', '2', '3', '4', '5', '6', '7', '8', '9'][i])
}

/// The lockout runs for its whole time from when the dialog came up, and not a moment
/// longer.
pub proof fn lockout_lasts_its_time(v: DialogView, key: KeyEvent, now: nat)
    requires
        now >= v.created_at,
    ensures
        now < v.created_at + v.lockout ==> v.key(key, now) == (v, OutcomeView::Continue),
        now >= v.created_at + v.lockout && key.code is Esc ==> v.key(key, now) == (
            v,
            OutcomeView::Cancel,
        ),
{
}

/// A row of a radio page, by its digit or by Enter on it, is the one answer of the page. A
/// lone question is submitted with it at once; else the next page comes, at its first row.
pub proof fn a_picked_row_is_the_answer(v: DialogView, key: KeyEvent, now: nat, i: int)
    requires
        shows_options(v, now),
        v.pages[v.page].kind is Select,
        0 <= i < v.pages[v.page].options.len(),
        is_digit_key(key, i) || (key.code is Enter && v.cursor == i),
    ensures
        ({
            let (after, outcome) = v.key(key, now);
            let id = v.pages[v.page].options[i].id;
            &&& after.states[v.page].selected == seq![id]
            &&& after.states[v.page].custom.text.len() == 0
            &&& v.pages.len() == 1 ==> outcome == OutcomeView::Submit(
                seq![AnswerView::Single { id }],
            )
            &&& v.pages.len() > 1 ==> outcome is Continue && after.page == v.page + 1
                && after.cursor == 0
            &&& forall|k: int|
                0 <= k < v.pages.len() && k != v.page ==> #[trigger] after.states[k] == v.states[k]
        }),
{
    let id = v.pages[v.page].options[i].id;
    if v.pages.len() == 1 {
        let after = v.key(key, now).0;
        assert(after.is_answered(0));
        assert(after.answers() =~= seq![AnswerView::Single { id }]);
    }
}

/// Two rows of a radio page with different ids give different answers.
pub proof fn different_rows_answer_differently(
    v: DialogView,
    a: KeyEvent,
    b: KeyEvent,
    now: nat,
    i: int,
    j: int,
)
    requires
        shows_options(v, now),
        v.pages[v.page].kind is Select,
        0 <= i < v.pages[v.page].options.len(),
        0 <= j < v.pages[v.page].options.len(),
        v.pages[v.page].options[i].id != v.pages[v.page].options[j].id,
        is_digit_key(a, i),
        is_digit_key(b, j),
    ensures
        v.key(a, now).0.states[v.page].selected != v.key(b, now).0.states[v.page].selected,
{
    a_picked_row_is_the_answer(v, a, now, i);
    a_picked_row_is_the_answer(v, b, now, j);
    assert(v.key(a, now).0.states[v.page].selected[0] == v.pages[v.page].options[i].id);
    assert(v.key(b, now).0.states[v.page].selected[0] == v.pages[v.page].options[j].id);
}

/// The arrows walk through the rows of a page, round at its ends: the options, the row for
/// an answer of one's own, and with several choices the row that goes on. They choose
/// nothing.
pub proof fn arrows_walk_through_the_rows(v: DialogView, key: KeyEvent, now: nat)
    requires
        shows_options(v, now),
        key.code is Up || key.code is Down,
    ensures
        ({
            let (after, outcome) = v.key(key, now);
            let page = v.pages[v.page];
            let rows = page.options.len() + (if page.kind is Multiselect {
                2int
            } else {
                1int
            });
            &&& outcome is Continue
            &&& after.states == v.states
            &&& after.page == v.page
            &&& key.code is Down ==> after.cursor == (if v.cursor + 1 == rows {
                0
            } else {
                v.cursor + 1
            })
            &&& key.code is Up ==> after.cursor == (if v.cursor == 0 {
                rows - 1
            } else {
                v.cursor - 1
            })
        }),
{
}

/// On a page with several choices a row is chosen or given up, by its digit, by Enter or by
/// the space bar; the other rows and the answer of one's own stay, and the page stays.
pub proof fn several_rows_can_be_chosen(v: DialogView, key: KeyEvent, now: nat, i: int)
    requires
        shows_options(v, now),
        v.pages[v.page].kind is Multiselect,
        0 <= i < v.pages[v.page].options.len(),
        is_digit_key(key, i) || ((key.code is Enter || key.code == KeyCode::Char(' ')) && v.cursor
            == i),
        v.states[v.page].selected.no_duplicates(),
    ensures
        ({
            let (after, outcome) = v.key(key, now);
            let id = v.pages[v.page].options[i].id;
            let before = v.states[v.page].selected;
            let chosen = after.states[v.page].selected;
            &&& outcome is Continue
            &&& after.page == v.page
            &&& chosen.contains(id) == !before.contains(id)
            &&& forall|x: Seq<char>| x != id ==> #[trigger] chosen.contains(x) == before.contains(x)
            &&& after.states[v.page].custom == v.states[v.page].custom
        }),
{
    let id = v.pages[v.page].options[i].id;
    let before = v.states[v.page].selected;
    let chosen = v.key(key, now).0.states[v.page].selected;
    assert(chosen == toggled(before, id));
    lemma_toggled(before, id);
}

proof fn lemma_index(s: Seq<Seq<char>>, x: Seq<char>, from: int)
    requires
        0 <= from <= s.len(),
    ensures
        from <= first_index(s, x, from) <= s.len(),
        first_index(s, x, from) < s.len() ==> s[first_index(s, x, from)] == x,
        forall|i: int| from <= i < first_index(s, x, from) ==> s[i] != x,
    decreases s.len() - from,
{
    if from < s.len() && s[from] != x {
        lemma_index(s, x, from + 1);
    }
}

proof fn lemma_toggled(s: Seq<Seq<char>>, x: Seq<char>)
    requires
        s.no_duplicates(),
    ensures
        toggled(s, x).contains(x) == !s.contains(x),
        forall|y: Seq<char>| y != x ==> #[trigger] toggled(s, x).contains(y) == s.contains(y),
{
    lemma_index(s, x, 0);
    let k = first_index(s, x, 0);
    let t = toggled(s, x);
    if k < s.len() {
        assert(s.contains(x));
        assert(!t.contains(x)) by {
            if t.contains(x) {
                let j = choose|j: int| 0 <= j < t.len() && t[j] == x;
                if j < k {
                    assert(s[j] == x);
                } else {
                    assert(s[j + 1] == x);
                }
            }
        }
        assert forall|y: Seq<char>| y != x implies #[trigger] t.contains(y) == s.contains(y) by {
            if t.contains(y) {
                let j = choose|j: int| 0 <= j < t.len() && t[j] == y;
                if j < k {
                    assert(s[j] == y);
                } else {
                    assert(s[j + 1] == y);
                }
            }
            if s.contains(y) {
                let j = choose|j: int| 0 <= j < s.len() && s[j] == y;
                if j < k {
                    assert(t[j] == y);
                } else {
                    assert(t[j - 1] == y);
                }
            }
        }
    } else {
        assert(!s.contains(x)) by {
            if s.contains(x) {
                let j = choose|j: int| 0 <= j < s.len() && s[j] == x;
                assert(s[j] != x);
            }
        }
        assert(t[s.len() as int] == x);
        assert forall|y: Seq<char>| y != x implies #[trigger] t.contains(y) == s.contains(y) by {
            if t.contains(y) {
                let j = choose|j: int| 0 <= j < t.len() && t[j] == y;
                assert(s[j] == y);
            }
            if s.contains(y) {
                let j = choose|j: int| 0 <= j < s.len() && s[j] == y;
                assert(t[j] == y);
            }
        }
    }
}

/// The space bar on a row of a radio page chooses it, or gives it up where it is chosen.
pub proof fn space_chooses_a_row(v: DialogView, key: KeyEvent, now: nat, i: int)
    requires
        shows_options(v, now),
        v.pages[v.page].kind is Select,
        0 <= i < v.pages[v.page].options.len(),
        key.code == KeyCode::Char(' '),
        v.cursor == i,
    ensures
        ({
            let (after, outcome) = v.key(key, now);
            let id = v.pages[v.page].options[i].id;
            &&& outcome is Continue
            &&& after.page == v.page
            &&& after.states[v.page].selected == (if v.states[v.page].selected == seq![id] {
                Seq::empty()
            } else {
                seq![id]
            })
        }),
{
}

/// The row for an answer of one's own starts typing, and on a radio page drops the choice
/// there was. The row that goes on behind several choices goes to the next page, or submits
/// a lone question that is answered.
pub proof fn last_rows_type_and_go_on(v: DialogView, key: KeyEvent, now: nat)
    requires
        shows_options(v, now),
        key.code is Enter,
    ensures
        ({
            let (after, outcome) = v.key(key, now);
            let page = v.pages[v.page];
            let st = v.states[v.page];
            let answered = st.selected.len() > 0 || trim(st.custom.text).len() > 0;
            &&& v.cursor == page.options.len() && trim(st.custom.text).len() == 0 ==> after.typing
                && outcome is Continue && (page.kind is Select
                ==> after.states[v.page].selected.len() == 0)
            &&& page.kind is Multiselect && v.cursor == page.options.len() + 1 && v.pages.len() > 1
                ==> outcome is Continue && after.page == v.page + 1
            &&& page.kind is Multiselect && v.cursor == page.options.len() + 1 && v.pages.len() == 1
                ==> (outcome is Submit) == answered
        }),
{
    if v.pages.len() == 1 {
        assert(v.is_answered(0) == (v.states[v.page].selected.len() > 0 || trim(
            v.states[v.page].custom.text,
        ).len() > 0));
        if v.is_answered(0) {
            assert(v.all_answered());
        }
    }
}

/// What is typed goes into the answer of one's own at its cursor, and on a radio page takes
/// the place of a choice.
pub proof fn typing_builds_the_answer(v: DialogView, key: KeyEvent, now: nat, c: char)
    requires
        v.wf(),
        now >= v.created_at + v.lockout,
        v.typing,
        key.code == KeyCode::Char(c),
        !key.ctrl,
        !key.alt,
    ensures
        ({
            let (after, outcome) = v.key(key, now);
            let field = v.states[v.page].custom;
            let typed = after.states[v.page].custom;
            &&& outcome is Continue
            &&& after.typing && after.page == v.page
            &&& typed.text == field.text.take(field.pos).push(c) + field.text.skip(field.pos)
            &&& typed.pos == field.pos + 1
            &&& v.pages[v.page].kind is Select ==> after.states[v.page].selected.len() == 0
            &&& v.pages[v.page].kind is Multiselect ==> after.states[v.page].selected
                == v.states[v.page].selected
        }),
{
    let field = v.states[v.page].custom;
    assert(v.states[v.page].fits(v.pages[v.page]));
    assert(with_inserted(field.text, field.pos, seq![c]) =~= field.text.take(field.pos).push(c)
        + field.text.skip(field.pos));
}

/// Enter on the answer of one's own to a lone radio or text question submits it without the
/// white space around it; an empty one submits nothing.
pub proof fn own_answers_are_submitted(v: DialogView, key: KeyEvent, now: nat)
    requires
        v.wf(),
        now >= v.created_at + v.lockout,
        v.typing,
        v.pages.len() == 1,
        !(v.pages[0].kind is Multiselect),
        v.states[0].selected.len() == 0,
        key.code is Enter,
    ensures
        ({
            let outcome = v.key(key, now).1;
            let text = trim(v.states[0].custom.text);
            &&& text.len() > 0 ==> outcome == OutcomeView::Submit(seq![AnswerView::Text { text }])
            &&& text.len() == 0 ==> outcome is Continue
        }),
{
    let text = trim(v.states[0].custom.text);
    if text.len() > 0 {
        assert(v.is_answered(0));
        assert(v.all_answered());
        assert(v.answers() =~= seq![AnswerView::Text { text }]);
        let done = DialogView { typing: false, ..v };
        assert(done.is_answered(0));
        assert(done.all_answered());
        assert(done.answers() =~= seq![AnswerView::Text { text }]);
    } else {
        assert(!v.is_answered(0));
    }
}

/// The pages are walked to the right and to the left, the answers staying as they are.
pub proof fn pages_are_walked(v: DialogView, key: KeyEvent, now: nat)
    requires
        shows_options(v, now),
    ensures
        ({
            let (after, outcome) = v.key(key, now);
            &&& key.code is Right || key.code == KeyCode::Char('l') ==> outcome is Continue
                && after.page == v.page + 1 && after.states == v.states
            &&& key.code is Left || key.code == KeyCode::Char('h') ==> outcome is Continue
                && after.page == (if v.page > 0 {
                v.page - 1
            } else {
                0
            }) && after.states == v.states
        }),
{
}

/// A page is entered at its first row, and one for a text ready to type; so it is after the
/// arrows, after the row that goes on, and back from the review.
pub proof fn pages_are_entered_at_the_top(v: DialogView, key: KeyEvent, now: nat)
    requires
        shows_options(v, now),
        key.code is Right || key.code is Left,
        v.page > 0 || key.code is Right,
    ensures
        ({
            let after = v.key(key, now).0;
            &&& after.page == if key.code is Right {
                v.page + 1
            } else {
                v.page - 1
            }
            &&& after.cursor == 0
            &&& after.scroll == 0
            &&& after.typing == (after.page < v.pages.len() && v.pages[after.page].kind is Text)
            &&& after.pages == v.pages
        }),
{
}

/// On a page for a text the arrows leave it at the ends of the text where there are several
/// pages, and move in the text elsewhere.
pub proof fn text_pages_are_left_at_the_ends(v: DialogView, key: KeyEvent, now: nat)
    requires
        v.wf(),
        now >= v.created_at + v.lockout,
        v.typing,
        v.page < v.pages.len(),
        v.pages[v.page].kind is Text,
        key.code is Left || key.code is Right,
    ensures
        ({
            let (after, outcome) = v.key(key, now);
            let field = v.states[v.page].custom;
            let at_start = field.pos == 0 && key.code is Left;
            let at_end = field.pos == field.text.len() && key.code is Right;
            &&& outcome is Continue
            &&& v.pages.len() > 1 && at_start && v.page > 0 ==> after.page == v.page - 1
            &&& v.pages.len() > 1 && at_end ==> after.page == v.page + 1
            &&& !at_start && !at_end ==> after.page == v.page && after.states[v.page].custom.text
                == field.text && after.states[v.page].custom.pos == (if key.code is Left {
                field.pos - 1
            } else {
                field.pos + 1
            })
            &&& v.pages.len() == 1 ==> after.page == v.page
        }),
{
}

proof fn lemma_unanswered(v: DialogView, i: int)
    requires
        0 <= i <= v.pages.len(),
    ensures
        i <= v.first_unanswered(i) <= v.pages.len(),
        v.first_unanswered(i) < v.pages.len() ==> !v.is_answered(v.first_unanswered(i)),
        forall|j: int| i <= j < v.first_unanswered(i) ==> v.is_answered(j),
    decreases v.pages.len() - i,
{
    if i < v.pages.len() && v.is_answered(i) {
        lemma_unanswered(v, i + 1);
    }
}

/// The page has an answer: an option is chosen, or the answer of one's own is not blank.
pub open spec fn has_answer(v: DialogView, i: int) -> bool {
    ||| !(v.pages[i].kind is Text) && v.states[i].selected.len() > 0
    ||| trim(v.states[i].custom.text).len() > 0
}

/// The review at the end submits when all questions are answered, and otherwise goes to the
/// first that is not.
pub proof fn review_submits_or_goes_back(v: DialogView, key: KeyEvent, now: nat)
    requires
        v.wf(),
        now >= v.created_at + v.lockout,
        v.page == v.pages.len(),
        key.code is Enter,
    ensures
        ({
            let (after, outcome) = v.key(key, now);
            let all = forall|i: int| 0 <= i < v.pages.len() ==> #[trigger] has_answer(v, i);
            &&& all ==> outcome is Submit
            &&& !all ==> outcome is Continue && 0 <= after.page < v.pages.len() && !has_answer(
                v,
                after.page,
            ) && forall|i: int| 0 <= i < after.page ==> #[trigger] has_answer(v, i)
            &&& after.states == v.states
        }),
{
    lemma_unanswered(v, 0);
    assert forall|i: int| 0 <= i < v.pages.len() implies #[trigger] has_answer(v, i)
        == v.is_answered(i) by {}
    let all = forall|i: int| 0 <= i < v.pages.len() ==> #[trigger] has_answer(v, i);
    if all {
        assert forall|i: int| 0 <= i < v.pages.len() implies v.is_answered(i) by {
            assert(has_answer(v, i));
        }
        assert(v.all_answered());
    } else {
        let i = choose|i: int| 0 <= i < v.pages.len() && !has_answer(v, i);
        assert(!v.is_answered(i));
        assert(!v.all_answered());
        let k = v.first_unanswered(0);
        assert forall|j: int| 0 <= j < k implies #[trigger] has_answer(v, j) by {
            assert(v.is_answered(j));
        }
    }
}

/// What is submitted for a page is what was chosen and typed on it: the chosen option of a
/// radio page, all chosen options and the answer of one's own where several can be chosen,
/// and the text of a text page.
pub proof fn submitted_answers_are_what_was_chosen(v: DialogView, key: KeyEvent, now: nat, i: int)
    requires
        v.wf(),
        v.key(key, now).1 is Submit,
        0 <= i < v.pages.len(),
    ensures
        ({
            let after = v.key(key, now).0;
            let answer = v.key(key, now).1->Submit_0[i];
            let st = after.states[i];
            let own = trim(st.custom.text);
            &&& v.key(key, now).1->Submit_0.len() == v.pages.len()
            &&& has_answer(after, i)
            &&& v.pages[i].kind is Text ==> answer == (AnswerView::Text { text: own })
            &&& v.pages[i].kind is Select && st.selected.len() > 0 ==> answer == (
            AnswerView::Single { id: st.selected[0] })
            &&& v.pages[i].kind is Select && st.selected.len() == 0 ==> answer == (
            AnswerView::Text { text: own })
            &&& v.pages[i].kind is Multiselect ==> answer == (AnswerView::Multi {
                ids: st.selected,
                custom: (if own.len() > 0 {
                    Some(own)
                } else {
                    None
                }),
            })
        }),
{
    submit_is_complete(v, key, now);
    keys_leave_the_questions_alone(v, key, now);
    let after = v.key(key, now).0;
    assert(after.is_answered(i));
}

/// The responses to a question set say what the answers say: one id for a radio choice, all
/// ids and then the text of one's own where several were chosen, and plain text else. Esc
/// answers nothing.
pub proof fn responses_say_what_was_answered(v: QuestionView, key: KeyEvent, now: nat, i: int)
    requires
        v.wf(),
        !(v.state.key(key, now).1 is Continue),
        0 <= i < v.questions.len(),
    ensures
        ({
            let outcome = v.state.key(key, now).1;
            let result = v.after_key(key, now).result;
            &&& v.closes(key, now)
            &&& outcome is Cancel ==> result == Some(
                ResultView::Cancel { interrupt_id: v.interrupt_id },
            )
            &&& outcome is Submit ==> {
                let answer = outcome->Submit_0[i];
                let response = result->0->responses[i];
                &&& result is Some && result->0 is Submit
                &&& result->0->Submit_interrupt_id == v.interrupt_id
                &&& result->0->responses.len() == v.questions.len()
                &&& answer is Single ==> response == (ResponseView::Single {
                    selected_id: answer->id,
                })
                &&& answer is Text ==> response == (ResponseView::Freetext {
                    text: answer->Text_text,
                })
                &&& answer is Multi ==> response == (ResponseView::Multi {
                    selected_ids: answer->ids + (match answer->custom {
                        Some(t) => seq![t],
                        None => Seq::empty(),
                    }),
                })
            }
        }),
{
    let outcome = v.state.key(key, now).1;
    if outcome is Submit {
        submit_is_complete(v.state, key, now);
        let answer = outcome->Submit_0[i];
        if answer is Multi {
            match answer->custom {
                Some(t) => {
                    assert(answer->ids.push(t) =~= answer->ids + seq![t]);
                },
                None => {
                    assert(answer->ids =~= answer->ids + Seq::<Seq<char>>::empty());
                },
            }
        }
    }
}

// ---- Approvals ------------------------------------------------------------

/// An approval that waits for its scope, as it comes up for a command.
pub open spec fn asks_for_scope(v: ApprovalView, prompt: Seq<char>, wrapper: bool, now: nat) -> bool {
    &&& v.state.wf()
    &&& v.state.pages == seq![scope_page_of(prompt, wrapper)]
    &&& v.state.page == 0
    &&& !v.state.typing
    &&& now >= v.state.created_at + v.state.lockout
}

/// The rows say how far an approval reaches, from the narrowest to the widest. A wrapper has
/// the first of them only.
pub proof fn scope_rows_are_labelled(prompt: Seq<char>)
    ensures
        ({
            let rows = scope_page_of(prompt, false).options;
            let only = scope_page_of(prompt, true).options;
            &&& rows.len() == 4
            &&& rows[0].label == "Yes, once"@
            &&& rows[1].label == "Yes, for this session"@
            &&& rows[2].label == "Always for this project"@
            &&& rows[3].label == "Always everywhere"@
            &&& only.len() == 1
            &&& only[0].label == "Yes, once"@
            &&& scope_page_of(prompt, false).kind is Select
            &&& scope_page_of(prompt, true).kind is Select
        }),
{
}

proof fn lemma_scope_ids()
    ensures
        ID_ONCE@ != ID_SESSION@,
        ID_ONCE@ != ID_PROJECT@,
        ID_ONCE@ != ID_GLOBAL@,
        ID_SESSION@ != ID_PROJECT@,
        ID_SESSION@ != ID_GLOBAL@,
        ID_PROJECT@ != ID_GLOBAL@,
{
    reveal_strlit("once");
    reveal_strlit("session");
    reveal_strlit("project");
    reveal_strlit("global");
    assert(ID_ONCE@.len() == 4);
    assert(ID_GLOBAL@.len() == 6);
    assert(ID_SESSION@.len() == 7);
    assert("session"@[0] == 's');
    assert("project"@[0] == 'p');
}

/// The row that is picked, by its digit or by Enter on it, is the scope of the approval: the
/// first once, the second for the session, the third for the project, the fourth everywhere.
/// No row gives a wider scope than it says, and no other digit approves anything.
pub proof fn picked_scope_is_granted(
    v: ApprovalView,
    prompt: Seq<char>,
    wrapper: bool,
    key: KeyEvent,
    now: nat,
    i: int,
)
    requires
        asks_for_scope(v, prompt, wrapper, now),
        0 <= i < 4,
        is_digit_key(key, i) || (key.code is Enter && v.state.cursor == i),
        !wrapper || i == 0,
    ensures
        v.after_key(key, now).result == Some(
            ApprovalResult::Resolved {
                interrupt_id: v.interrupt_id,
                choice: ApprovalChoice::Approve(
                    if i == 0 {
                        Scope::Once
                    } else if i == 1 {
                        Scope::Session
                    } else if i == 2 {
                        Scope::Project
                    } else {
                        Scope::Global
                    },
                ),
            },
        ),
{
    lemma_scope_ids();
    a_picked_row_is_the_answer(v.state, key, now, i);
}

/// A wrapper can only be approved once: no digit past the first row does anything.
pub proof fn wrappers_are_never_remembered(
    v: ApprovalView,
    prompt: Seq<char>,
    key: KeyEvent,
    now: nat,
    i: int,
)
    requires
        asks_for_scope(v, prompt, true, now),
        1 <= i < 9,
        is_digit_key(key, i),
    ensures
        v.after_key(key, now) == v,
{
}

/// Esc denies.
pub proof fn dismissal_denies(v: ApprovalView, key: KeyEvent, now: nat)
    requires
        now >= v.state.created_at + v.state.lockout,
        key.code is Esc,
    ensures
        v.after_key(key, now).result == Some(
            ApprovalResult::Resolved {
                interrupt_id: v.interrupt_id,
                choice: ApprovalChoice::Deny,
            },
        ),
{
}

/// An answer of one's own, whatever it says, denies.
pub proof fn own_answers_deny(v: ApprovalView, prompt: Seq<char>, wrapper: bool, key: KeyEvent, now: nat)
    requires
        v.state.wf(),
        v.state.pages == seq![scope_page_of(prompt, wrapper)],
        now >= v.state.created_at + v.state.lockout,
        v.state.typing,
        v.state.states[0].selected.len() == 0,
        key.code is Enter,
        trim(v.state.states[0].custom.text).len() > 0,
    ensures
        v.after_key(key, now).result == Some(
            ApprovalResult::Resolved {
                interrupt_id: v.interrupt_id,
                choice: ApprovalChoice::Deny,
            },
        ),
{
    own_answers_are_submitted(v.state, key, now);
}

} // verus!
