//! How uses are counted and commands ranked, and how runs and reports begin.

use vstd::prelude::*;
use crate::app::boxes::status_columns;
use crate::app::command::{budget, capped_by, cut, short_enough, too_long, truncation_note};
use crate::app::control::{choices, next_message};
use crate::app::fetch::{FetchConfig, FetchView, fetch_started};
use crate::app::selection::{Cells, highlighted, highlights};
use crate::app::slash::{Availability, command_names, count_of, entry_of, matches_query, merged_counts, ranks_before, with_uses};
use crate::app::state::{AppView, Selection, ToastKind, ToastView};
use crate::context_menu::{ContextMenuAction, menu_line};
use crate::geometry::Rect;
use crate::style::{Color, LineView, Style};
use crate::text::decimal;
use crate::text_laws::texts_hold_their_pieces;
use crate::width::line_cells;

verus! {

proof fn lemma_entry(e: Seq<(Seq<char>, u64)>, key: Seq<char>, from: int)
    requires
        0 <= from <= e.len(),
    ensures
        from <= entry_of(e, key, from) <= e.len(),
        entry_of(e, key, from) < e.len() ==> e[entry_of(e, key, from)].0 == key,
        forall|j: int| from <= j < entry_of(e, key, from) ==> (#[trigger] e[j]).0 != key,
    decreases e.len() - from,
{
    if from < e.len() && e[from].0 != key {
        lemma_entry(e, key, from + 1);
    }
}

proof fn lemma_count(e: Seq<(Seq<char>, u64)>, key: Seq<char>, i: int)
    requires
        0 <= i <= e.len(),
        forall|j: int| 0 <= j < i ==> (#[trigger] e[j]).0 != key,
        i < e.len() ==> e[i].0 == key,
    ensures
        count_of(e, key) == if i < e.len() {
            e[i].1
        } else {
            0
        },
    decreases e.len(),
{
    if e.len() > 0 && i > 0 {
        assert(e[0].0 != key);
        let t = e.drop_first();
        assert forall|j: int| 0 <= j < i - 1 implies (#[trigger] t[j]).0 != key by {
            assert(e[j + 1].0 != key);
        }
        lemma_count(t, key, i - 1);
    }
}

/// Uses of a key add to its count, up to what a count can hold, and change no other.
pub proof fn uses_add_up(e: Seq<(Seq<char>, u64)>, key: Seq<char>, n: u64, other: Seq<char>)
    ensures
        count_of(Seq::empty(), key) == 0,
        count_of(with_uses(e, key, n), key) == if count_of(e, key) + n <= u64::MAX {
            count_of(e, key) + n
        } else {
            u64::MAX as int
        },
        other != key ==> count_of(with_uses(e, key, n), other) == count_of(e, other),
{
    let i = entry_of(e, key, 0);
    lemma_entry(e, key, 0);
    lemma_count(e, key, i);
    let w = with_uses(e, key, n);
    assert forall|j: int| 0 <= j < i implies (#[trigger] w[j]).0 != key by {
        assert(e[j].0 != key);
    }
    lemma_count(w, key, i);
    if other != key {
        let k = entry_of(e, other, 0);
        lemma_entry(e, other, 0);
        lemma_count(e, other, k);
        if k < e.len() {
            assert forall|j: int| 0 <= j < k implies (#[trigger] w[j]).0 != other by {
                assert(e[j].0 != other);
            }
            assert(w[k] == e[k]);
            lemma_count(w, other, k);
        } else {
            assert forall|j: int| 0 <= j < w.len() implies (#[trigger] w[j]).0 != other by {
                if j < e.len() {
                    assert(e[j].0 != other);
                }
            }
            lemma_count(w, other, w.len() as int);
        }
    }
}

/// The counts of the daemon are added one by one.
pub proof fn server_counts_are_added(
    e: Seq<(Seq<char>, u64)>,
    server: Seq<(Seq<char>, u64)>,
    key: Seq<char>,
    n: u64,
)
    ensures
        merged_counts(e, Seq::empty()) == e,
        merged_counts(e, server.push((key, n))) == with_uses(merged_counts(e, server), key, n),
{
    assert(server.push((key, n)).drop_last() =~= server);
}

/// The editor is offered where there is one, lazygit where it is installed, and every
/// other command everywhere. A command matches what its name begins with.
pub proof fn commands_match_their_beginning(i: int, rest: Seq<char>, query: Seq<char>,
    here: Availability,
)
    requires
        command_names()[i] == query + rest,
    ensures
        command_names()[i] != "editor"@ && command_names()[i] != "lazygit"@ ==> matches_query(
            i,
            query,
            here,
        ),
        command_names()[i] == "editor"@ ==> matches_query(i, query, here) == here.editor,
        command_names()[i] == "lazygit"@ ==> matches_query(i, query, here) == here.lazygit,
{
    texts_hold_their_pieces(command_names()[i], query, query, rest);
    reveal_strlit("editor");
    reveal_strlit("lazygit");
    assert("editor"@.len() == 6 && "lazygit"@.len() == 7);
}

/// Of two matching commands the more used one comes first, and of equally used ones the
/// one that stands first in the menu.
pub proof fn used_commands_come_first(a: int, b: int, counts: Seq<(Seq<char>, u64)>)
    ensures
        count_of(counts, command_names()[a]) > count_of(counts, command_names()[b])
            ==> ranks_before(a, b, counts) && !ranks_before(b, a, counts),
        count_of(counts, command_names()[a]) == count_of(counts, command_names()[b]) && a < b
            ==> ranks_before(a, b, counts) && !ranks_before(b, a, counts),
{
}

/// A run over the providers begins with the first of them, and keeps unlisted models
/// unless something else is set. Without a configuration or providers it says why not.
pub proof fn runs_begin_with_the_first(config: FetchConfig)
    ensures
        ({
            let r = fetch_started(config);
            &&& config is Missing ==> r == Err::<FetchView, Seq<char>>(
                "/fetch-models: no cockpit config — run /settings to create one"@,
            )
            &&& config is Broken ==> r == Err::<FetchView, Seq<char>>(
                "/fetch-models: config load failed: "@ + config->Broken_0@,
            )
            &&& config is Loaded && config->providers@.len() == 0 ==> r == Err::<
                FetchView,
                Seq<char>,
            >("/fetch-models: no providers configured"@)
            &&& config is Loaded && config->providers@.len() > 0 ==> {
                &&& r is Ok
                &&& r->Ok_0.next == 0
                &&& r->Ok_0.providers.len() == config->providers@.len()
                &&& config->policy is None ==> r->Ok_0.policy is Keep
                &&& config->policy is Some ==> r->Ok_0.policy == config->policy->0
            }
        }),
{
}

/// A paste goes to the composer alone, and only where that has the keys; an image goes
/// before a text, and a toast says so where the model takes none.
pub proof fn pastes_go_to_the_composer(
    v: AppView,
    data: Seq<char>,
    image: Option<Seq<u8>>,
    tokens: nat,
    condense: bool,
    now: u64,
)
    requires
        now + 3000 <= u64::MAX,
    ensures
        ({
            let after = v.pasted(data, image, tokens, condense, now);
            let free = !v.pane.open && !v.covered();
            let vision = v.launch.active_model_supports_images;
            &&& !free ==> after == v
            &&& free && image is None ==> after == (AppView {
                editor: v.editor.text_pasted(data, tokens, condense),
                ..v
            })
            &&& free && image is Some ==> after.editor == v.editor.image_pasted(image->0)
                && after.history == v.history
            &&& free && image is Some && vision ==> after.toast == v.toast
            &&& free && image is Some && !vision ==> after.toast == Some(
                (ToastView {
                    text:
                        "Current model has no image support — this image will be sent as a text note."@,
                    kind: ToastKind::Info,
                    expires_at: now + 3000,
                }),
            )
        }),
{
    reveal(AppView::pasted);
}

/// The highlighted stretches of a selection are those of its rows, one after another.
pub proof fn highlights_go_row_by_row(
    grid: Seq<Cells>,
    chips: Seq<bool>,
    area: Rect,
    sel: Selection,
    row: int,
)
    requires
        row >= sel.span().0.1,
    ensures
        highlights(grid, chips, area, sel, sel.span().0.1 as int).len() == 0,
        highlighted(grid, chips, area, sel, row) is None ==> highlights(
            grid,
            chips,
            area,
            sel,
            row + 1,
        ) == highlights(grid, chips, area, sel, row),
        highlighted(grid, chips, area, sel, row) is Some ==> highlights(
            grid,
            chips,
            area,
            sel,
            row + 1,
        ) == highlights(grid, chips, area, sel, row).push(
            (
                row,
                (highlighted(grid, chips, area, sel, row)->0).0,
                (highlighted(grid, chips, area, sel, row)->0).1,
            ),
        ),
{
}

/// What is cut for the agent is the beginning of the output with a note, and output that
/// is not cut is whole.
pub proof fn cut_output_is_its_beginning<F: Fn(&str) -> usize>(
    count: F,
    s: Seq<char>,
    tokens: int,
    r: Seq<char>,
)
    requires
        capped_by(count, s, tokens, r),
        0 <= tokens,
    ensures
        r == s || exists|n: int|
            0 <= n <= s.len() && r == #[trigger] s.take(n) + ("\n… [truncated to ~"@ + decimal(
                tokens as nat,
            ) + " tokens]"@),
{
    if r != s {
        let k = choose|k: nat|
            #![trigger budget(tokens, k)]
            {
                &&& r == cut(s, budget(tokens, k)) + truncation_note(tokens as nat)
                &&& short_enough(count, s, tokens, k)
                &&& forall|j: nat| j < k ==> #[trigger] too_long(count, s, tokens, j)
            };
        lemma_budget(tokens, k);
        let n = if budget(tokens, k) <= s.len() {
            budget(tokens, k)
        } else {
            s.len() as int
        };
        assert(r == s.take(n) + truncation_note(tokens as nat));
    }
}

proof fn lemma_budget(tokens: int, k: nat)
    ensures
        budget(tokens, k) >= 0,
    decreases k,
{
    if k > 0 {
        lemma_budget(tokens, (k - 1) as nat);
    }
}

/// The messages of the working line are drawn from all but the last one.
pub proof fn messages_are_drawn_from_the_others(prev: int, draw: int)
    requires
        0 <= draw,
    ensures
        0 <= next_message(prev, draw) < 40,
        next_message(prev, draw) != prev,
        !(0 <= prev < 40) && draw < 40 ==> next_message(prev, draw) == draw,
        0 <= prev < 40 && draw < prev ==> next_message(prev, draw) == draw,
        0 <= prev < 40 && prev <= draw < 39 ==> next_message(prev, draw) == draw + 1,
{
    if draw < choices(prev) {
        vstd::arithmetic::div_mod::lemma_small_mod(draw as nat, choices(prev) as nat);
    }
    vstd::arithmetic::div_mod::lemma_mod_bound(draw, choices(prev));
}

/// The rows of the menu show their labels, and the one in focus is marked.
pub proof fn menu_rows_mark_the_focus(item: ContextMenuAction)
    ensures
        menu_line(item, true)[0].text == "▸ "@,
        menu_line(item, false)[0].text == "  "@,
        menu_line(item, true)[1].text == item.spec_label(),
        menu_line(item, false)[1].text == item.spec_label(),
        menu_line(item, true)[1].style == Style::fg(Color::Yellow).bold(),
        menu_line(item, false)[1].style == Style::fg(Color::White),
{
}

/// The right side of the status line gets the columns that it needs, if there are so many.
pub proof fn status_sides_share_the_line(right: LineView, width: int)
    requires
        width >= 0,
    ensures
        line_cells(right) <= width ==> status_columns(right, width) == line_cells(right),
        line_cells(right) > width ==> status_columns(right, width) == width,
{
}

} // verus!
