//! What a question shows.

use vstd::prelude::*;
use crate::dialog::{AnswerView, OptionView, PageView, answer_of};
use crate::dialog::question::{CUSTOM_LABEL, MAX_DIALOG_HEIGHT, MAX_VISIBLE_OPTION_ROWS, NEXT_LABEL, QuestionView, fitting, label_from, row_counts, sum_range, summary_of};
use crate::style::{Color, Style};
use crate::text::{decimal, trim};
use crate::theme::ACCENT_BLUE_INDEX;

verus! {

/// An option shows its number, whether it is chosen, and its label, and below it its
/// description; the row in focus is marked.
pub proof fn options_show_their_state(v: QuestionView, i: int)
    requires
        0 <= i < v.state.current().options.len(),
    ensures
        ({
            let page = v.state.current();
            let o = page.options[i];
            let chosen = v.state.state().selected.contains(o.id);
            let mark = if page.kind is Select {
                if chosen {
                    "(•) "@
                } else {
                    "( ) "@
                }
            } else if chosen {
                "[x] "@
            } else {
                "[ ] "@
            };
            let rows = v.row(i);
            &&& rows.len() == if o.description is Some {
                2int
            } else {
                1
            }
            &&& rows[0][1].text == decimal((i + 1) as nat) + ". "@ + mark + o.label
            &&& rows[0][0].text == if v.state.cursor == i {
                "▸ "@
            } else {
                "  "@
            }
            &&& v.state.cursor == i ==> rows[0][1].style == Style::fg(
                Color::Indexed(ACCENT_BLUE_INDEX),
            ).bold()
            &&& v.state.cursor != i ==> rows[0][1].style == Style::fg(Color::White)
        }),
{
}

/// Behind the options stands the row for an own answer, with what was typed there, and
/// where several options can be chosen the row that goes on.
pub proof fn last_rows_show_the_own_answer(v: QuestionView)
    ensures
        ({
            let n = v.state.current().options.len() as int;
            let typed = v.state.state().custom.text;
            let row = v.row(n)[0];
            let mark = if v.state.typing && v.state.cursor == n {
                "✎ "@
            } else {
                "+ "@
            };
            &&& typed.len() == 0 ==> row[1].text == mark + CUSTOM_LABEL@
            &&& typed.len() > 0 ==> row[1].text == mark + (CUSTOM_LABEL@ + ": "@ + typed)
            &&& v.row(n + 1)[0][1].text == "→ "@ + NEXT_LABEL@
        }),
{
    let n = v.state.current().options.len() as int;
    let none: Seq<char> = Seq::empty();
    let typed = v.state.state().custom.text;
    let mark = if v.state.typing && v.state.cursor == n {
        "✎ "@
    } else {
        "+ "@
    };
    assert(none + mark =~= mark);
    assert(none + "→ "@ =~= "→ "@);
}

/// A page counts its rows: the options, the own answer, and where several can be chosen
/// the row that goes on.
pub proof fn pages_count_their_rows(page: PageView, i: int)
    requires
        0 <= i < page.options.len(),
    ensures
        row_counts(page).len() == page.options.len() + (if page.kind is Multiselect {
            2int
        } else {
            1
        }),
        row_counts(page)[i] == if page.options[i].description is Some {
            2int
        } else {
            1
        },
        row_counts(page)[page.options.len() as int] == 1,
{
}

/// The rows follow each other.
pub proof fn rows_follow_each_other(v: QuestionView, from: int, to: int)
    requires
        from <= to,
    ensures
        v.rows(from, from).len() == 0,
        v.rows(from, to + 1) == v.rows(from, to) + v.row(to),
{
}

/// A page shows what the question is about, the question, and its rows, with marks where
/// there are more above or below; a question for a text shows what was typed.
pub proof fn pages_show_the_question(v: QuestionView)
    ensures
        ({
            let l = v.page_lines();
            let about = trim(v.description).len() > 0;
            let k = if about {
                2int
            } else {
                0
            };
            let (from, to) = v.window();
            let total = row_counts(v.state.current()).len();
            &&& about ==> l[0][0].text == v.description && l[1].len() == 0
            &&& l[k][0].text == v.state.current().prompt && l[k + 1].len() == 0
            &&& v.state.current().kind is Text ==> l.len() == k + 3 && l[k + 2][0].text == "▌ "@
                && l[k + 2][1].text == v.state.state().custom.text
            &&& !(v.state.current().kind is Text) && from > 0 ==> l[k + 2][0].text == "  ▲ more"@
            &&& !(v.state.current().kind is Text) && to < total ==> l[l.len() - 1][0].text
                == "  ▼ more"@
            &&& !(v.state.current().kind is Text) && from == 0 && to == total ==> l.skip(k + 2)
                == v.rows(from, to)
        }),
{
    let l = v.page_lines();
    let k = if trim(v.description).len() > 0 {
        2int
    } else {
        0
    };
    let (from, to) = v.window();
    let total = row_counts(v.state.current()).len();
    if !(v.state.current().kind is Text) && from == 0 && to == total {
        assert(l.skip(k + 2) =~= v.rows(from, to));
    }
}

/// The title counts the questions where there are several, and names the review.
pub proof fn titles_count_the_questions(v: QuestionView)
    ensures
        v.state.pages.len() <= 1 ==> v.title() == " question "@,
        v.state.pages.len() > 1 && v.state.on_confirm_page() ==> v.title()
            == " question · review "@,
        v.state.pages.len() > 1 && !v.state.on_confirm_page() ==> v.title() == " question · "@
            + decimal((v.state.page + 1) as nat) + "/"@ + decimal(v.state.pages.len()) + " "@,
{
}

/// The footer tells the keys that count now.
pub proof fn footers_tell_the_keys(v: QuestionView, now: nat)
    ensures
        ({
            let f = v.footer(now);
            let free = !v.state.locked(now) && !v.state.typing && !v.state.on_confirm_page();
            let many = v.state.current().kind is Multiselect;
            let several = v.state.pages.len() > 1;
            &&& v.state.locked(now) ==> f == "waiting…"@
            &&& !v.state.locked(now) && v.state.typing ==> f
                == "type your answer  ·  enter: done  ·  esc: cancel"@
            &&& !v.state.locked(now) && !v.state.typing && v.state.on_confirm_page() ==> f
                == "enter: submit  ·  ←/h: back  ·  esc: cancel"@
            &&& free && many && several ==> f == "1-9/enter: toggle  ·  ↑/↓: move"@
                + "  ·  ←/→: questions"@ + "  ·  esc: cancel"@
            &&& free && many && !several ==> f == "1-9/enter: toggle  ·  ↑/↓: move"@ + ""@
                + "  ·  esc: cancel"@
            &&& free && !many && several ==> f == "1-9: pick  ·  ↑/↓: move  ·  enter: choose"@
                + "  ·  ←/→: questions"@ + "  ·  esc: cancel"@
            &&& free && !many && !several ==> f == "1-9: pick  ·  ↑/↓: move  ·  enter: choose"@
                + ""@ + "  ·  esc: cancel"@
        }),
{
}

/// The review shows each question with its answer, or that it has none, and whether all
/// can be submitted.
pub proof fn reviews_show_the_answers(v: QuestionView, i: int)
    requires
        0 <= i < v.questions.len(),
    ensures
        ({
            let l = v.confirm_lines();
            let k = if trim(v.description).len() > 0 {
                2int
            } else {
                0
            };
            let row = l[k + 2 + i];
            &&& l.len() == k + 4 + v.questions.len()
            &&& l[k][0].text == "Review your answers"@
            &&& row[0].text == v.questions[i].prompt + ": "@
            &&& v.state.is_answered(i) ==> row[1].text == summary_of(
                answer_of(v.state.pages[i], v.state.states[i]),
                v.questions[i],
            )
            &&& !v.state.is_answered(i) ==> row[1].text == "⚠ unanswered"@
            &&& v.state.all_answered() ==> l[l.len() - 1][0].text == "Press enter to submit."@
            &&& !v.state.all_answered() ==> l[l.len() - 1][0].text
                == "Answer every question before submitting."@
        }),
{
    assert(v.confirm_lines()[(if trim(v.description).len() > 0 {
        2int
    } else {
        0
    }) + 2 + i] == v.review_row(i));
}

proof fn lemma_label(options: Seq<OptionView>, id: Seq<char>, i: int, k: int)
    requires
        0 <= i <= k < options.len(),
        options[k].id == id,
        forall|j: int| 0 <= j < k ==> (#[trigger] options[j]).id != id,
    ensures
        label_from(options, id, i) == options[k].label,
    decreases k - i,
{
    if i < k {
        lemma_label(options, id, i + 1, k);
    }
}

/// An answer is summed up by the labels of what was chosen, in the order in which it was
/// chosen, and by what was typed between quotes; no choice at all is said too.
pub proof fn answers_are_summed_up(q: PageView, k: int, text: Seq<char>, ids: Seq<Seq<char>>)
    requires
        0 <= k < q.options.len(),
        forall|j: int| 0 <= j < k ==> (#[trigger] q.options[j]).id != q.options[k].id,
    ensures
        summary_of((AnswerView::Single { id: q.options[k].id }), q) == q.options[k].label,
        summary_of((AnswerView::Text { text }), q) == text,
        summary_of((AnswerView::Multi { ids: Seq::empty(), custom: None }), q) == "[none]"@,
        summary_of((AnswerView::Multi { ids: seq![q.options[k].id], custom: None }), q)
            == q.options[k].label,
        summary_of((AnswerView::Multi { ids: Seq::empty(), custom: Some(text) }), q) == "“"@ + text
            + "”"@,
        summary_of((AnswerView::Multi { ids: seq![q.options[k].id], custom: Some(text) }), q)
            == q.options[k].label + ", "@ + ("“"@ + text + "”"@),
        ids.len() > 0 ==> summary_of(
            (AnswerView::Multi { ids: ids.push(q.options[k].id), custom: None }),
            q,
        ) == summary_of((AnswerView::Multi { ids, custom: None }), q) + ", "@ + q.options[k].label,
{
    let id = q.options[k].id;
    let f = |x: Seq<char>| label_from(q.options, x, 0);
    lemma_label(q.options, id, 0, k);
    let none: Seq<Seq<char>> = Seq::empty();
    let label = q.options[k].label;
    let quoted = "“"@ + text + "”"@;
    assert(none.map_values(f) =~= none);
    assert(seq![id].map_values(f) =~= seq![label]);
    assert(none.push(quoted) =~= seq![quoted]);
    assert(seq![label].push(quoted).drop_last() =~= seq![label]);
    assert(ids.push(id).map_values(f) =~= ids.map_values(f).push(label));
    assert(ids.map_values(f).push(label).drop_last() =~= ids.map_values(f));
    reveal_with_fuel(crate::text::joined, 2);
}

/// The rows that show begin where the page is scrolled to and are at most nine.
pub proof fn windows_show_nine_rows(v: QuestionView)
    requires
        v.state.scroll >= 0,
    ensures
        ({
            let total = row_counts(v.state.current()).len() as int;
            let (from, to) = v.window();
            &&& from <= v.state.scroll
            &&& v.state.scroll < total ==> from == v.state.scroll
            &&& to == if from + MAX_VISIBLE_OPTION_ROWS <= total {
                from + MAX_VISIBLE_OPTION_ROWS
            } else {
                total
            }
        }),
{
}

/// The overlay is as high as what it shows, with its frame and its footer.
pub proof fn overlays_fit_the_question(v: QuestionView)
    ensures
        ({
            let about = if trim(v.description).len() > 0 {
                2int
            } else {
                0
            };
            let (from, to) = v.window();
            &&& v.state.on_confirm_page() ==> v.body_lines() == about + 4 + v.questions.len()
            &&& !v.state.on_confirm_page() && v.state.current().kind is Text ==> v.body_lines()
                == about + 3
            &&& !v.state.on_confirm_page() && !(v.state.current().kind is Text) ==> v.body_lines()
                == about + 2 + sum_range(row_counts(v.state.current()), from, to)
            &&& 4 <= v.body_lines() + 3 <= MAX_DIALOG_HEIGHT ==> v.height() == v.body_lines() + 3
        }),
{
}

/// The lines of rows add up.
pub proof fn row_lines_add_up(rows: Seq<nat>, from: int, to: int)
    requires
        0 <= from <= to < rows.len(),
    ensures
        sum_range(rows, from, from) == 0,
        sum_range(rows, from, to + 1) == sum_range(rows, from, to) + rows[to],
{
}

/// As many rows show as fit, and one at least; the next one would not fit.
pub proof fn fitting_rows_fit(rows: Seq<nat>, budget: int)
    requires
        rows.len() > 0,
    ensures
        ({
            let n = fitting(rows, budget, 0, 0);
            &&& 1 <= n <= rows.len()
            &&& n <= MAX_VISIBLE_OPTION_ROWS
            &&& n > 1 ==> sum_range(rows, 0, n) <= budget
            &&& n < rows.len() && n < MAX_VISIBLE_OPTION_ROWS ==> sum_range(rows, 0, n) + rows[n]
                > budget
        }),
{
    lemma_fit(rows, budget, 0, 0);
}

proof fn lemma_fit(rows: Seq<nat>, budget: int, i: int, used: int)
    requires
        rows.len() > 0,
        0 <= i <= rows.len(),
        i <= MAX_VISIBLE_OPTION_ROWS,
        used == sum_range(rows, 0, i),
        i > 1 ==> used <= budget,
    ensures
        ({
            let n = fitting(rows, budget, i, used);
            &&& i <= n <= rows.len() && n <= MAX_VISIBLE_OPTION_ROWS
            &&& i == 0 ==> n >= 1
            &&& n > 1 ==> sum_range(rows, 0, n) <= budget
            &&& n < rows.len() && n < MAX_VISIBLE_OPTION_ROWS ==> sum_range(rows, 0, n) + rows[n]
                > budget
        }),
    decreases rows.len() - i,
{
    if i < rows.len() && i < MAX_VISIBLE_OPTION_ROWS && !(i > 0 && used + rows[i] > budget) {
        assert(sum_range(rows, 0, i + 1) == sum_range(rows, 0, i) + rows[i]);
        lemma_fit(rows, budget, i + 1, used + rows[i]);
    }
}

} // verus!
