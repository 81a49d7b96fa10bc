//! The context overlay: a still picture of how the context window is filled,
//! as a header, a bar of colored segments and a legend.

use vstd::prelude::*;
use crate::decimal::{short_decimal, short_decimal_text};
use crate::key::{KeyCode, KeyEvent};
use crate::nav::{max_int, min_int, monus};
use crate::style::{Color, Line, LineView, Span, Style, line_views, push_line, push_span, rawsp, sp, span_views};
use crate::text::{concat2, decimal, decimal_text, push_decimal, push_repeated, repeated};
use crate::theme::{CONTEXT_BLOCK_INDEX, CONTEXT_GUIDANCE_INDEX, CONTEXT_MESSAGES_INDEX, CONTEXT_SYSTEM_INDEX, MUTED_COLOR_INDEX};

verus! {

/// Fills the bar and the swatches of the legend.
pub const BLOCK: char = '█';

/// Narrower than this there is no bar.
pub const MIN_BAR_WIDTH: u16 = 8;

/// A kind of context content.
#[derive(Debug, Clone, Copy)]
pub struct Category {
    pub name: &'static str,
    pub color_index: u8,
    pub tokens: u64,
}

/// The context as it was when the overlay was opened.
#[derive(Debug)]
pub struct ContextSnapshot {
    /// In the order in which they show.
    pub categories: Vec<Category>,
    /// Size of the context window, where the model declares one.
    pub window: Option<u64>,
}

/// Tokens of all categories together.
pub open spec fn total_tokens(c: Seq<Category>) -> nat
    decreases c.len(),
{
    if c.len() == 0 {
        0
    } else {
        total_tokens(c.drop_last()) + c.last().tokens as nat
    }
}

impl ContextSnapshot {
    /// The standard categories, in their fixed order.
    pub fn new(
        base_prompt: u64,
        system_block: u64,
        guidance: u64,
        messages: u64,
        window: Option<u32>,
    ) -> (r: ContextSnapshot)
        ensures
            r.categories@ == seq![
                Category {
                    name: "system",
                    color_index: CONTEXT_SYSTEM_INDEX,
                    tokens: base_prompt,
                },
                Category {
                    name: "sys block",
                    color_index: CONTEXT_BLOCK_INDEX,
                    tokens: system_block,
                },
                Category {
                    name: "guidance",
                    color_index: CONTEXT_GUIDANCE_INDEX,
                    tokens: guidance,
                },
                Category {
                    name: "messages",
                    color_index: CONTEXT_MESSAGES_INDEX,
                    tokens: messages,
                },
            ],
            r.window == (match window {
                Some(w) => Some(w as u64),
                None => None,
            }),
    {
        let mut categories: Vec<Category> = Vec::new();
        categories.push(
            Category { name: "system", color_index: CONTEXT_SYSTEM_INDEX, tokens: base_prompt },
        );
        categories.push(
            Category { name: "sys block", color_index: CONTEXT_BLOCK_INDEX, tokens: system_block },
        );
        categories.push(
            Category { name: "guidance", color_index: CONTEXT_GUIDANCE_INDEX, tokens: guidance },
        );
        categories.push(
            Category { name: "messages", color_index: CONTEXT_MESSAGES_INDEX, tokens: messages },
        );
        ContextSnapshot {
            categories,
            window: match window {
                Some(w) => Some(w as u64),
                None => None,
            },
        }
    }

    /// Tokens in use.
    pub fn used(&self) -> (r: u64)
        requires
            total_tokens(self.categories@) <= u64::MAX,
        ensures
            r == total_tokens(self.categories@),
    {
        sum_tokens(&self.categories) as u64
    }
}

fn sum_tokens(categories: &Vec<Category>) -> (r: u128)
    ensures
        r == total_tokens(categories@),
{
    let mut sum: u128 = 0;
    let mut i: usize = 0;
    let n: usize = categories.len();
    proof {
        assert(categories@.take(0) =~= Seq::empty());
    }
    while i < n
        invariant
            i <= n == categories@.len(),
            sum == total_tokens(categories@.take(i as int)),
            sum <= i * u64::MAX,
        decreases n - i,
    {
        proof {
            assert(categories@.take(i + 1).drop_last() =~= categories@.take(i as int));
            assert(i * u64::MAX + u64::MAX <= usize::MAX * u64::MAX) by (nonlinear_arith)
                requires
                    i + 1 <= usize::MAX,
            ;
            assert((i + 1) * u64::MAX == i * u64::MAX + u64::MAX) by (nonlinear_arith);
        }
        sum = sum + categories[i].tokens as u128;
        i = i + 1;
    }
    proof {
        assert(categories@.take(i as int) =~= categories@);
    }
    sum
}

/// A token count in compact notation: below a thousand as it is, then in
/// thousands (`k`) and millions (`M`) with one decimal, without it where the
/// quotient is whole.
pub open spec fn compact_count(n: int) -> Seq<char> {
    if n < 1_000 {
        decimal(n as nat)
    } else if n < 1_000_000 {
        short_decimal(n, 1_000) + "k"@
    } else {
        short_decimal(n, 1_000_000) + "M"@
    }
}

/// A token count in compact notation: `820`, `89.2k`, `1M`.
pub fn k_notation(n: u64) -> (r: String)
    ensures
        r@ == compact_count(n as int),
{
    if n < 1_000 {
        decimal_text(n)
    } else if n < 1_000_000 {
        concat2(short_decimal_text(n, 1_000).as_str(), "k")
    } else {
        concat2(short_decimal_text(n, 1_000_000).as_str(), "M")
    }
}

/// Share of the window in use in percent, at most 999. The product saturates
/// before the division.
pub open spec fn percent(used: int, window: int) -> int {
    min_int(min_int(used * 100, u64::MAX as int) / window, 999)
}

/// The header: used and window with the share, or the used count alone where
/// no window is known.
pub open spec fn header(used: int, window: Option<u64>) -> Seq<char> {
    match window {
        Some(w) => if w > 0 {
            compact_count(used) + " / "@ + compact_count(w as int) + "  ("@ + decimal(
                percent(used, w as int) as nat,
            ) + "%)"@
        } else {
            compact_count(used) + " tokens"@
        },
        None => compact_count(used) + " tokens"@,
    }
}

/// The header of the overlay.
pub fn header_text(snapshot: &ContextSnapshot) -> (r: String)
    requires
        total_tokens(snapshot.categories@) <= u64::MAX,
    ensures
        r@ == header(total_tokens(snapshot.categories@) as int, snapshot.window),
{
    let used: u64 = snapshot.used();
    let mut out: String = k_notation(used);
    match snapshot.window {
        Some(w) => {
            if w > 0 {
                let scaled: u64 = if used > u64::MAX / 100 {
                    u64::MAX
                } else {
                    used * 100
                };
                let share: u64 = scaled / w;
                let pct: u64 = if share > 999 {
                    999
                } else {
                    share
                };
                out.append(" / ");
                let total: String = k_notation(w);
                out.append(total.as_str());
                out.append("  (");
                push_decimal(&mut out, pct);
                out.append("%)");
                return out;
            }
        },
        None => {},
    }
    out.append(" tokens");
    out
}

// ---- The bar --------------------------------------------------------------

/// A run of cells of one color.
#[derive(Debug, Clone, Copy, PartialEq, Eq, Structural)]
pub struct Segment {
    pub width: u16,
    pub color_index: u8,
}

/// What the bar is divided among: the categories and, with a color for it, the
/// unused rest.
pub open spec fn weights(
    categories: Seq<Category>,
    denom: u64,
    free_index: Option<u8>,
) -> Seq<(int, u8)> {
    let used = categories.map_values(|c: Category| (c.tokens as int, c.color_index));
    match free_index {
        Some(idx) => used.push((monus(denom as int, total_tokens(categories) as int), idx)),
        None => used,
    }
}

/// What all weights come to.
pub open spec fn weight_sum(ws: Seq<(int, u8)>) -> int
    decreases ws.len(),
{
    if ws.len() == 0 {
        0
    } else {
        weight_sum(ws.drop_last()) + ws.last().0
    }
}

/// Whole cells of each weight in a bar that stands for `whole`.
pub open spec fn floors(ws: Seq<(int, u8)>, whole: int, bar: int) -> Seq<int> {
    ws.map_values(|w: (int, u8)| w.0 * bar / whole)
}

/// What is left of each weight beyond its whole cells.
pub open spec fn remainders(ws: Seq<(int, u8)>, whole: int, bar: int) -> Seq<int> {
    ws.map_values(|w: (int, u8)| w.0 * bar % whole)
}

pub open spec fn sum_ints(s: Seq<int>) -> int
    decreases s.len(),
{
    if s.len() == 0 {
        0
    } else {
        sum_ints(s.drop_last()) + s.last()
    }
}

/// Position of the first largest element of `s`, or -1 when it is empty.
pub open spec fn largest(s: Seq<int>) -> int
    decreases s.len(),
{
    if s.len() == 0 {
        -1
    } else {
        let best = largest(s.drop_last());
        if best < 0 || s.last() > s[best] {
            s.len() - 1
        } else {
            best
        }
    }
}

/// `left` more cells, one each to the largest remainders in turn, the earlier
/// of equal ones first. A weight that got its cell has remainder -1.
pub open spec fn hand_out(cells: Seq<int>, rems: Seq<int>, left: int) -> Seq<int>
    decreases left,
{
    let i = largest(rems);
    if left <= 0 || i < 0 || rems[i] < 0 {
        cells
    } else {
        hand_out(cells.update(i, cells[i] + 1), rems.update(i, -1), left - 1)
    }
}

/// Cells of each weight in a bar of `bar` cells that stands for all of them.
pub open spec fn cell_counts(ws: Seq<(int, u8)>, bar: int) -> Seq<int> {
    let base = floors(ws, weight_sum(ws), bar);
    hand_out(base, remainders(ws, weight_sum(ws), bar), bar - sum_ints(base))
}

/// The segments with at least one cell, in order.
pub open spec fn drawn(ws: Seq<(int, u8)>, cells: Seq<int>) -> Seq<Segment>
    decreases ws.len(),
{
    if ws.len() == 0 {
        Seq::empty()
    } else {
        let rest = drawn(ws.drop_last(), cells.drop_last());
        if cells.last() > 0 {
            rest.push(Segment { width: cells.last() as u16, color_index: ws.last().1 })
        } else {
            rest
        }
    }
}

/// The segments of a bar of `bar_width` cells. It stands for what is used and,
/// with a color for it, for the unused rest of `denom`.
pub open spec fn bar(
    categories: Seq<Category>,
    denom: u64,
    bar_width: u16,
    free_index: Option<u8>,
) -> Seq<Segment> {
    let ws = weights(categories, denom, free_index);
    if bar_width == 0 || denom == 0 || weight_sum(ws) == 0 {
        Seq::empty()
    } else {
        drawn(ws, cell_counts(ws, bar_width as int))
    }
}

/// Cells that the segments take together.
pub open spec fn total_width(s: Seq<Segment>) -> int
    decreases s.len(),
{
    if s.len() == 0 {
        0
    } else {
        total_width(s.drop_last()) + s.last().width
    }
}

// ---- Laws of the bar ------------------------------------------------------

proof fn lemma_largest(s: Seq<int>)
    ensures
        -1 <= largest(s) < s.len(),
        s.len() > 0 ==> 0 <= largest(s),
        forall|i: int| 0 <= i < s.len() ==> #[trigger] s[i] <= s[largest(s)],
    decreases s.len(),
{
    if s.len() > 0 {
        lemma_largest(s.drop_last());
        assert forall|i: int| 0 <= i < s.len() implies #[trigger] s[i] <= s[largest(s)] by {
            if i < s.len() - 1 {
                assert(s.drop_last()[i] == s[i]);
                assert(s.drop_last()[i] <= s.drop_last()[largest(s.drop_last())]);
            }
        }
    }
}

proof fn lemma_sum_update(s: Seq<int>, i: int, x: int)
    requires
        0 <= i < s.len(),
    ensures
        sum_ints(s.update(i, x)) == sum_ints(s) - s[i] + x,
    decreases s.len(),
{
    if i == s.len() - 1 {
        assert(s.update(i, x).drop_last() =~= s.drop_last());
    } else {
        lemma_sum_update(s.drop_last(), i, x);
        assert(s.update(i, x).drop_last() =~= s.drop_last().update(i, x));
    }
}

/// Number of remainders above zero.
spec fn unserved(rems: Seq<int>) -> int
    decreases rems.len(),
{
    if rems.len() == 0 {
        0
    } else {
        unserved(rems.drop_last()) + if rems.last() > 0 {
            1int
        } else {
            0int
        }
    }
}

proof fn lemma_unserved_update(rems: Seq<int>, i: int)
    requires
        0 <= i < rems.len(),
        rems[i] > 0,
    ensures
        unserved(rems.update(i, -1)) == unserved(rems) - 1,
    decreases rems.len(),
{
    if i == rems.len() - 1 {
        assert(rems.update(i, -1).drop_last() =~= rems.drop_last());
    } else {
        lemma_unserved_update(rems.drop_last(), i);
        assert(rems.update(i, -1).drop_last() =~= rems.drop_last().update(i, -1));
    }
}

proof fn lemma_some_unserved(rems: Seq<int>)
    requires
        unserved(rems) > 0,
    ensures
        exists|i: int| 0 <= i < rems.len() && rems[i] > 0,
    decreases rems.len(),
{
    if rems.last() > 0 {
        assert(rems[rems.len() - 1] > 0);
    } else {
        lemma_some_unserved(rems.drop_last());
        let i = choose|i: int| 0 <= i < rems.drop_last().len() && rems.drop_last()[i] > 0;
        assert(rems[i] > 0);
    }
}

/// All cells are handed out, and only to weights with a remainder.
proof fn lemma_hand_out(cells: Seq<int>, rems: Seq<int>, left: int)
    requires
        cells.len() == rems.len(),
        0 <= left <= unserved(rems),
    ensures
        sum_ints(hand_out(cells, rems, left)) == sum_ints(cells) + left,
        hand_out(cells, rems, left).len() == cells.len(),
        forall|i: int|
            0 <= i < cells.len() ==> cells[i] <= #[trigger] hand_out(cells, rems, left)[i],
        forall|i: int|
            0 <= i < cells.len() && rems[i] <= 0 ==> #[trigger] hand_out(cells, rems, left)[i]
                == cells[i],
    decreases left,
{
    if left > 0 {
        lemma_some_unserved(rems);
        lemma_largest(rems);
        let i = largest(rems);
        lemma_sum_update(cells, i, cells[i] + 1);
        lemma_unserved_update(rems, i);
        let next = cells.update(i, cells[i] + 1);
        let rest = rems.update(i, -1);
        lemma_hand_out(next, rest, left - 1);
        assert forall|j: int| 0 <= j < cells.len() implies cells[j] <= #[trigger] hand_out(
            cells,
            rems,
            left,
        )[j] by {
            assert(next[j] <= hand_out(next, rest, left - 1)[j]);
        }
        assert forall|j: int| 0 <= j < cells.len() && rems[j] <= 0 implies #[trigger] hand_out(
            cells,
            rems,
            left,
        )[j] == cells[j] by {
            assert(rest[j] <= 0);
            assert(hand_out(next, rest, left - 1)[j] == next[j]);
        }
    }
}

/// Whole cells and remainders make up the products exactly.
proof fn lemma_division(ws: Seq<(int, u8)>, whole: int, bar: int)
    requires
        0 < whole,
        0 <= bar,
        forall|i: int| 0 <= i < ws.len() ==> 0 <= (#[trigger] ws[i]).0,
    ensures
        whole * sum_ints(floors(ws, whole, bar)) + sum_ints(remainders(ws, whole, bar))
            == weight_sum(ws) * bar,
        0 <= unserved(remainders(ws, whole, bar)),
        0 <= sum_ints(remainders(ws, whole, bar)) <= unserved(remainders(ws, whole, bar)) * (whole
            - 1),
        0 <= sum_ints(floors(ws, whole, bar)),
        0 <= weight_sum(ws),
        forall|i: int| 0 <= i < ws.len() ==> #[trigger] remainders(ws, whole, bar)[i] >= 0,
        forall|i: int| 0 <= i < ws.len() ==> #[trigger] floors(ws, whole, bar)[i] >= 0,
    decreases ws.len(),
{
    if ws.len() > 0 {
        let rest = ws.drop_last();
        let w = ws[ws.len() - 1].0;
        assert forall|i: int| 0 <= i < rest.len() implies 0 <= (#[trigger] rest[i]).0 by {
            assert(rest[i] == ws[i]);
        }
        lemma_division(rest, whole, bar);
        assert(floors(ws, whole, bar).drop_last() =~= floors(rest, whole, bar));
        assert(remainders(ws, whole, bar).drop_last() =~= remainders(rest, whole, bar));
        let p = w * bar;
        assert(0 <= p) by (nonlinear_arith)
            requires
                0 <= w,
                0 <= bar,
                p == w * bar,
        ;
        let f = p / whole;
        let r = p % whole;
        assert(p == whole * f + r && 0 <= r < whole && 0 <= f) by (nonlinear_arith)
            requires
                0 < whole,
                0 <= p,
                f == p / whole,
                r == p % whole,
        ;
        let fs = sum_ints(floors(rest, whole, bar));
        let rs = sum_ints(remainders(rest, whole, bar));
        let n = unserved(remainders(rest, whole, bar));
        let wsum = weight_sum(rest);
        assert(whole * (fs + f) + (rs + r) == (wsum + w) * bar) by (nonlinear_arith)
            requires
                whole * fs + rs == wsum * bar,
                p == whole * f + r,
                p == w * bar,
        ;
        assert((n + 1) * (whole - 1) == n * (whole - 1) + (whole - 1)) by (nonlinear_arith);
        assert forall|i: int| 0 <= i < ws.len() implies #[trigger] remainders(ws, whole, bar)[i]
            >= 0 by {
            if i < rest.len() {
                assert(remainders(rest, whole, bar)[i] >= 0);
            }
        }
        assert forall|i: int| 0 <= i < ws.len() implies #[trigger] floors(ws, whole, bar)[i]
            >= 0 by {
            if i < rest.len() {
                assert(floors(rest, whole, bar)[i] >= 0);
            }
        }
    }
}

/// The cells of all weights together are the bar, and a weight of nothing has
/// none of them.
proof fn lemma_cell_counts(ws: Seq<(int, u8)>, bar: int)
    requires
        0 <= bar,
        0 < weight_sum(ws),
        forall|i: int| 0 <= i < ws.len() ==> 0 <= (#[trigger] ws[i]).0,
    ensures
        cell_counts(ws, bar).len() == ws.len(),
        sum_ints(cell_counts(ws, bar)) == bar,
        0 <= sum_ints(floors(ws, weight_sum(ws), bar)) <= bar,
        forall|i: int| 0 <= i < ws.len() ==> 0 <= #[trigger] cell_counts(ws, bar)[i] <= bar,
        forall|i: int|
            0 <= i < ws.len() && ws[i].0 == 0 ==> #[trigger] cell_counts(ws, bar)[i] == 0,
        forall|i: int|
            0 <= i < ws.len() ==> 0 <= #[trigger] floors(ws, weight_sum(ws), bar)[i] <= bar,
{
    let d = weight_sum(ws);
    lemma_division(ws, d, bar);
    let base = floors(ws, d, bar);
    let rems = remainders(ws, d, bar);
    let fs = sum_ints(base);
    let rs = sum_ints(rems);
    let n = unserved(rems);
    let left = bar - fs;
    assert(rs == d * left) by (nonlinear_arith)
        requires
            d * fs + rs == d * bar,
            left == bar - fs,
    ;
    assert(0 <= left <= n) by (nonlinear_arith)
        requires
            rs == d * left,
            0 <= rs <= n * (d - 1),
            0 <= n,
            d > 0,
    ;
    lemma_hand_out(base, rems, left);
    let cells = cell_counts(ws, bar);
    assert forall|j: int| 0 <= j < cells.len() implies #[trigger] cells[j] >= 0 by {
        assert(base[j] >= 0);
        assert(base[j] <= hand_out(base, rems, left)[j]);
    }
    assert forall|i: int| 0 <= i < ws.len() implies 0 <= #[trigger] cells[i] <= bar by {
        lemma_part_below_sum(cells, i);
    }
    assert forall|i: int| 0 <= i < ws.len() implies 0 <= #[trigger] base[i] <= bar by {
        assert(base[i] <= hand_out(base, rems, left)[i]);
        assert(cells[i] <= bar);
    }
    assert forall|i: int| 0 <= i < ws.len() && ws[i].0 == 0 implies #[trigger] cells[i] == 0 by {
        assert(0 * bar == 0 && 0int / d == 0 && 0int % d == 0) by (nonlinear_arith)
            requires
                d > 0,
        ;
        assert(base[i] == 0 && rems[i] == 0);
        assert(hand_out(base, rems, left)[i] == base[i]);
    }
}

proof fn lemma_drawn_width(ws: Seq<(int, u8)>, cells: Seq<int>)
    requires
        ws.len() == cells.len(),
        forall|i: int| 0 <= i < cells.len() ==> 0 <= #[trigger] cells[i] <= u16::MAX,
    ensures
        total_width(drawn(ws, cells)) == sum_ints(cells),
    decreases ws.len(),
{
    if ws.len() > 0 {
        assert forall|i: int| 0 <= i < cells.drop_last().len() implies 0 <= #[trigger] cells.drop_last()[i]
            <= u16::MAX by {
            assert(cells.drop_last()[i] == cells[i]);
        }
        lemma_drawn_width(ws.drop_last(), cells.drop_last());
        assert(0 <= cells[cells.len() - 1] <= u16::MAX);
        if cells.last() > 0 {
            let rest = drawn(ws.drop_last(), cells.drop_last());
            assert(drawn(ws, cells).drop_last() =~= rest);
        }
    }
}

proof fn lemma_weight_sum(categories: Seq<Category>)
    ensures
        weight_sum(categories.map_values(|c: Category| (c.tokens as int, c.color_index)))
            == total_tokens(categories),
    decreases categories.len(),
{
    if categories.len() > 0 {
        lemma_weight_sum(categories.drop_last());
        let ws = categories.map_values(|c: Category| (c.tokens as int, c.color_index));
        assert(ws.drop_last() =~= categories.drop_last().map_values(
            |c: Category| (c.tokens as int, c.color_index),
        ));
    }
}

proof fn lemma_part_below_sum(s: Seq<int>, i: int)
    requires
        0 <= i < s.len(),
        forall|j: int| 0 <= j < s.len() ==> #[trigger] s[j] >= 0,
    ensures
        s[i] <= sum_ints(s),
        0 <= sum_ints(s),
    decreases s.len(),
{
    assert forall|j: int| 0 <= j < s.drop_last().len() implies #[trigger] s.drop_last()[j] >= 0 by {
        assert(s.drop_last()[j] == s[j]);
    }
    assert(s[s.len() - 1] >= 0);
    if s.len() == 1 {
        assert(sum_ints(s.drop_last()) == 0);
    } else {
        lemma_part_below_sum(s.drop_last(), if i < s.len() - 1 {
            i
        } else {
            0
        });
    }
}

proof fn lemma_weights(categories: Seq<Category>, denom: u64, free_index: Option<u8>)
    ensures
        ({
            let ws = weights(categories, denom, free_index);
            &&& weight_sum(ws) == if free_index is Some {
                max_int(denom as int, total_tokens(categories) as int)
            } else {
                total_tokens(categories) as int
            }
            &&& forall|i: int| 0 <= i < ws.len() ==> 0 <= (#[trigger] ws[i]).0
            &&& forall|i: int|
                0 <= i < categories.len() ==> (#[trigger] ws[i]).0 == categories[i].tokens
        }),
{
    let ws = weights(categories, denom, free_index);
    let used = categories.map_values(|c: Category| (c.tokens as int, c.color_index));
    lemma_weight_sum(categories);
    if free_index is Some {
        assert(ws.drop_last() =~= used);
    }
    assert forall|i: int| 0 <= i < ws.len() implies 0 <= (#[trigger] ws[i]).0 by {
        if i < categories.len() {
            assert(ws[i] == used[i]);
        }
    }
}

/// Whenever anything is drawn, the segments fill the bar exactly. Something is
/// drawn when the bar has a cell, `denom` is not zero, and there is a used token
/// or a color for the unused rest.
pub proof fn bar_fills_exactly(
    categories: Seq<Category>,
    denom: u64,
    bar_width: u16,
    free_index: Option<u8>,
)
    ensures
        ({
            let segments = bar(categories, denom, bar_width, free_index);
            let draws = bar_width > 0 && denom > 0 && (free_index is Some || total_tokens(
                categories,
            ) > 0);
            &&& segments.len() > 0 <==> draws
            &&& total_width(segments) == if draws {
                bar_width as int
            } else {
                0
            }
        }),
{
    let ws = weights(categories, denom, free_index);
    let b = bar_width as int;
    lemma_weights(categories, denom, free_index);
    if b > 0 && denom > 0 && weight_sum(ws) > 0 {
        lemma_cell_counts(ws, b);
        lemma_drawn_width(ws, cell_counts(ws, b));
    }
}

/// A category without tokens takes no cell.
pub proof fn empty_categories_take_no_cell(
    categories: Seq<Category>,
    denom: u64,
    bar_width: u16,
    free_index: Option<u8>,
    i: int,
)
    requires
        0 <= i < categories.len(),
        categories[i].tokens == 0,
        weight_sum(weights(categories, denom, free_index)) > 0,
    ensures
        cell_counts(weights(categories, denom, free_index), bar_width as int)[i] == 0,
{
    let ws = weights(categories, denom, free_index);
    lemma_weights(categories, denom, free_index);
    lemma_cell_counts(ws, bar_width as int);
    assert(ws[i].0 == 0);
}

// ---- Drawing the bar ------------------------------------------------------

/// A list of machine integers as integers.
pub open spec fn as_ints(v: Seq<i128>) -> Seq<int> {
    v.map_values(|x: i128| x as int)
}

fn find_largest(v: &Vec<i128>) -> (r: usize)
    requires
        v@.len() > 0,
    ensures
        r == largest(as_ints(v@)),
        r < v@.len(),
{
    let mut best: usize = 0;
    let mut i: usize = 1;
    proof {
        let first = as_ints(v@).take(1);
        assert(first.drop_last() =~= Seq::<int>::empty());
        assert(largest(first.drop_last()) == -1);
    }
    while i < v.len()
        invariant
            1 <= i <= v@.len(),
            best < i,
            best == largest(as_ints(v@).take(i as int)),
        decreases v@.len() - i,
    {
        proof {
            assert(as_ints(v@).take(i + 1).drop_last() =~= as_ints(v@).take(i as int));
        }
        if v[i] > v[best] {
            best = i;
        }
        i = i + 1;
    }
    proof {
        assert(as_ints(v@).take(i as int) =~= as_ints(v@));
    }
    best
}

/// Weights as pairs of tokens and color.
pub open spec fn weight_views(v: Seq<(u64, u8)>) -> Seq<(int, u8)> {
    v.map_values(|w: (u64, u8)| (w.0 as int, w.1))
}

/// Lay the segments out over a bar of `bar_width` cells. Each category gets cells
/// in proportion to its tokens; what the rounding leaves goes to the largest
/// remainders, so that the bar is filled. With `free_index` the unused rest of
/// `denom` becomes a last segment. Segments without a cell are left out.
pub fn bar_segments(
    categories: &Vec<Category>,
    denom: u64,
    bar_width: u16,
    free_index: Option<u8>,
) -> (r: Vec<Segment>)
    requires
        categories@.len() < usize::MAX,
    ensures
        r@ == bar(categories@, denom, bar_width, free_index),
        r@.len() > 0 ==> total_width(r@) == bar_width,
{
    let mut out: Vec<Segment> = Vec::new();
    proof {
        bar_fills_exactly(categories@, denom, bar_width, free_index);
        lemma_weights(categories@, denom, free_index);
    }
    if bar_width == 0 || denom == 0 {
        return out;
    }
    let used: u128 = sum_tokens(categories);
    let ghost ws = weights(categories@, denom, free_index);
    let mut pairs: Vec<(u64, u8)> = Vec::new();
    let mut i: usize = 0;
    while i < categories.len()
        invariant
            i <= categories@.len(),
            pairs@.len() == i,
            forall|j: int|
                0 <= j < i ==> pairs@[j] == (categories@[j].tokens, categories@[j].color_index),
        decreases categories@.len() - i,
    {
        pairs.push((categories[i].tokens, categories[i].color_index));
        i = i + 1;
    }
    let mut whole: u128 = used;
    match free_index {
        Some(idx) => {
            let free: u64 = if used >= denom as u128 {
                0
            } else {
                denom - used as u64
            };
            pairs.push((free, idx));
            if free > 0 {
                whole = denom as u128;
            }
        },
        None => {},
    }
    proof {
        assert(weight_views(pairs@) =~= ws);
        assert(whole == weight_sum(ws));
    }
    if whole == 0 {
        return out;
    }
    let ghost d = whole as int;
    let ghost b = bar_width as int;
    proof {
        lemma_cell_counts(ws, b);
    }
    let n: usize = pairs.len();
    let mut cells: Vec<i128> = Vec::new();
    let mut rems: Vec<i128> = Vec::new();
    let mut assigned: u128 = 0;
    let mut k: usize = 0;
    proof {
        assert(floors(ws, d, b).take(0) =~= Seq::empty());
    }
    while k < n
        invariant
            k <= n == pairs@.len(),
            whole > 0,
            d == whole,
            b == bar_width,
            weight_views(pairs@) == ws,
            cells@.len() == k,
            rems@.len() == k,
            forall|j: int| 0 <= j < n ==> 0 <= #[trigger] floors(ws, d, b)[j] <= b,
            as_ints(cells@) == floors(ws, d, b).take(k as int),
            as_ints(rems@) == remainders(ws, d, b).take(k as int),
            forall|j: int| 0 <= j < k ==> 0 <= #[trigger] cells@[j] <= u16::MAX,
            assigned == sum_ints(floors(ws, d, b).take(k as int)),
            assigned <= k * u16::MAX,
        decreases n - k,
    {
        let w: u64 = pairs[k].0;
        proof {
            assert(ws[k as int].0 == w);
            assert(w * bar_width <= 0x1_0000_0000_0000_0000 * 0x10000) by (nonlinear_arith)
                requires
                    w < 0x1_0000_0000_0000_0000,
                    bar_width < 0x10000,
            ;
        }
        let product: u128 = w as u128 * bar_width as u128;
        let floor: u128 = product / whole;
        let rem: u128 = product % whole;
        proof {
            assert(floor == floors(ws, d, b)[k as int]);
            assert(rem <= product) by (nonlinear_arith)
                requires
                    rem == product % whole,
                    whole > 0,
            ;
            assert(floors(ws, d, b).take(k + 1) =~= floors(ws, d, b).take(k as int).push(
                floor as int,
            ));
            assert(floors(ws, d, b).take(k + 1).drop_last() =~= floors(ws, d, b).take(k as int));
            assert(remainders(ws, d, b).take(k + 1) =~= remainders(ws, d, b).take(k as int).push(
                rem as int,
            ));
            assert((k + 1) * u16::MAX == k * u16::MAX + u16::MAX) by (nonlinear_arith);
        }
        cells.push(floor as i128);
        rems.push(rem as i128);
        assigned = assigned + floor;
        k = k + 1;
        proof {
            assert(as_ints(cells@) =~= floors(ws, d, b).take(k as int));
            assert(as_ints(rems@) =~= remainders(ws, d, b).take(k as int));
        }
    }
    proof {
        assert(floors(ws, d, b).take(k as int) =~= floors(ws, d, b));
        assert(remainders(ws, d, b).take(k as int) =~= remainders(ws, d, b));
    }
    let mut left: u128 = bar_width as u128 - assigned;
    let ghost goal = cell_counts(ws, b);
    let mut more: bool = true;
    while more && left > 0 && n > 0
        invariant
            left <= bar_width,
            n == pairs@.len(),
            cells@.len() == n,
            rems@.len() == n,
            forall|j: int|
                0 <= j < n ==> 0 <= #[trigger] cells@[j] <= u16::MAX + (bar_width - left),
            more ==> goal == hand_out(as_ints(cells@), as_ints(rems@), left as int),
            !more ==> goal == as_ints(cells@),
        decreases
                left,
                if more {
                    1int
                } else {
                    0int
                },
    {
        let at: usize = find_largest(&rems);
        proof {
            assert(as_ints(rems@)[at as int] == rems@[at as int]);
        }
        if rems[at] < 0 {
            more = false;
        } else {
            let ghost before_cells = as_ints(cells@);
            let ghost before_rems = as_ints(rems@);
            let c: i128 = cells[at];
            cells[at] = c + 1;
            rems[at] = -1;
            left = left - 1;
            proof {
                assert(as_ints(cells@) =~= before_cells.update(
                    at as int,
                    before_cells[at as int] + 1,
                ));
                assert(as_ints(rems@) =~= before_rems.update(at as int, -1));
            }
        }
    }
    proof {
        if more && n == 0 {
            assert(as_ints(rems@).len() == 0);
        }
        assert(goal == as_ints(cells@));
    }
    let mut m: usize = 0;
    proof {
        assert(ws.take(0) =~= Seq::empty());
    }
    while m < n
        invariant
            m <= n == pairs@.len(),
            cells@.len() == n,
            weight_views(pairs@) == ws,
            goal == as_ints(cells@),
            forall|j: int| 0 <= j < n ==> 0 <= #[trigger] goal[j] <= u16::MAX,
            out@ == drawn(ws.take(m as int), goal.take(m as int)),
        decreases n - m,
    {
        proof {
            assert(ws.take(m + 1).drop_last() =~= ws.take(m as int));
            assert(goal.take(m + 1).drop_last() =~= goal.take(m as int));
            assert(goal.take(m + 1).last() == cells@[m as int]);
            assert(ws.take(m + 1).last().1 == pairs@[m as int].1);
        }
        let c: i128 = cells[m];
        if c > 0 {
            proof {
                assert(goal[m as int] == c);
            }
            let width: u16 = c as u16;
            out.push(Segment { width, color_index: pairs[m].1 });
        }
        m = m + 1;
    }
    proof {
        assert(ws.take(m as int) =~= ws);
        assert(goal.take(m as int) =~= goal);
    }
    out
}

// ---- The pane -------------------------------------------------------------

/// The overlay.
pub struct ContextPane {
    pub snapshot: ContextSnapshot,
}

/// The cells of a bar.
pub open spec fn bar_line(segments: Seq<Segment>) -> LineView {
    segments.map_values(
        |s: Segment|
            sp(repeated(BLOCK, s.width as nat), Style::fg(Color::Indexed(s.color_index))),
    )
}

/// What the bar stands for and the color of its free rest.
pub open spec fn bar_basis(used: int, window: Option<u64>) -> (u64, Option<u8>) {
    match window {
        Some(w) => if w > 0 {
            (w, Some(MUTED_COLOR_INDEX))
        } else {
            (used as u64, None)
        },
        None => (used as u64, None),
    }
}

pub open spec fn legend_row(swatch: Style, name: Seq<char>, tokens: int) -> LineView {
    seq![
        sp(seq![BLOCK, ' '], swatch),
        rawsp(name + "  "@),
        sp(compact_count(tokens), Style::fg(Color::Indexed(MUTED_COLOR_INDEX))),
    ]
}

/// The legend of the categories that hold tokens.
pub open spec fn legend(categories: Seq<Category>) -> Seq<LineView>
    decreases categories.len(),
{
    if categories.len() == 0 {
        Seq::empty()
    } else {
        let rest = legend(categories.drop_last());
        let c = categories.last();
        if c.tokens > 0 {
            rest.push(
                legend_row(
                    Style::fg(Color::Indexed(c.color_index)),
                    c.name@,
                    c.tokens as int,
                ),
            )
        } else {
            rest
        }
    }
}

/// The rows of the overlay for an interior of `width` cells.
pub open spec fn pane_lines(
    categories: Seq<Category>,
    window: Option<u64>,
    width: u16,
) -> Seq<LineView> {
    let muted = Style::fg(Color::Indexed(MUTED_COLOR_INDEX));
    let used = total_tokens(categories) as int;
    let (denom, free_index) = bar_basis(used, window);
    let segments = bar(categories, denom, width, free_index);
    let head = seq![
        seq![sp(header(used, window), Style::plain().bold())],
        LineView::empty(),
    ];
    let middle = if width >= MIN_BAR_WIDTH && segments.len() > 0 {
        seq![bar_line(segments), LineView::empty()]
    } else {
        Seq::empty()
    };
    let entries = legend(categories);
    let list = if entries.len() == 0 {
        seq![seq![sp("context is empty"@, muted)]]
    } else {
        entries
    };
    let tail = match window {
        Some(w) => if w > used {
            seq![legend_row(muted, "free"@, w - used)]
        } else {
            Seq::empty()
        },
        None => Seq::empty(),
    };
    head + middle + list + tail
}

fn legend_line(swatch: Style, name: &str, tokens: u64) -> (r: Line)
    ensures
        r@ == legend_row(swatch, name@, tokens as int),
{
    let mut mark: String = String::new();
    mark.push(BLOCK);
    mark.push(' ');
    proof {
        assert(mark@ =~= seq![BLOCK, ' ']);
    }
    let mut line: Line = Line::of2(
        Span::styled(mark, swatch),
        Span::raw(concat2(name, "  ")),
    );
    line.push(
        Span::styled(k_notation(tokens), Style::fg(Color::Indexed(MUTED_COLOR_INDEX))),
    );
    proof {
        assert(line@ =~= legend_row(swatch, name@, tokens as int));
    }
    line
}

/// The rows of the overlay.
pub fn body_lines(snapshot: &ContextSnapshot, width: u16) -> (r: Vec<Line>)
    requires
        total_tokens(snapshot.categories@) <= u64::MAX,
        snapshot.categories@.len() < usize::MAX,
    ensures
        line_views(r@) == pane_lines(snapshot.categories@, snapshot.window, width),
{
    let muted: Style = Style::fg(Color::Indexed(MUTED_COLOR_INDEX));
    let used: u64 = snapshot.used();
    let mut out: Vec<Line> = Vec::new();
    push_line(
        &mut out,
        Line::of(Span::styled(header_text(snapshot), Style::plain().bold())),
    );
    push_line(&mut out, Line::blank());
    let ghost head = line_views(out@);
    let basis: (u64, Option<u8>) = match snapshot.window {
        Some(w) => if w > 0 {
            (w, Some(MUTED_COLOR_INDEX))
        } else {
            (used, None)
        },
        None => (used, None),
    };
    let ghost segs = bar(snapshot.categories@, basis.0, width, basis.1);
    let ghost mut middle = Seq::<LineView>::empty();
    if width >= MIN_BAR_WIDTH {
        let segments: Vec<Segment> = bar_segments(&snapshot.categories, basis.0, width, basis.1);
        if segments.len() > 0 {
            let mut spans: Vec<Span> = Vec::new();
            let mut i: usize = 0;
            proof {
                assert(span_views(spans@) =~= bar_line(segments@).take(0));
            }
            while i < segments.len()
                invariant
                    i <= segments@.len(),
                    span_views(spans@) == bar_line(segments@).take(i as int),
                decreases segments@.len() - i,
            {
                let mut cells: String = String::new();
                push_repeated(&mut cells, BLOCK, segments[i].width as usize);
                proof {
                    assert(cells@ =~= repeated(BLOCK, segments@[i as int].width as nat));
                    assert(bar_line(segments@).take(i + 1) =~= bar_line(segments@).take(
                        i as int,
                    ).push(bar_line(segments@)[i as int]));
                }
                push_span(
                    &mut spans,
                    Span::styled(cells, Style::fg(Color::Indexed(segments[i].color_index))),
                );
                i = i + 1;
            }
            let line = Line { spans };
            proof {
                assert(bar_line(segments@).take(i as int) =~= bar_line(segments@));
                middle = seq![bar_line(segs), LineView::empty()];
            }
            push_line(&mut out, line);
            push_line(&mut out, Line::blank());
        }
    }
    proof {
        assert(line_views(out@) =~= head + middle);
    }
    let ghost entries = legend(snapshot.categories@);
    let mut any: bool = false;
    let mut k: usize = 0;
    proof {
        assert(snapshot.categories@.take(0) =~= Seq::empty());
        assert(head + middle + legend(snapshot.categories@.take(0)) =~= head + middle);
    }
    while k < snapshot.categories.len()
        invariant
            k <= snapshot.categories@.len(),
            line_views(out@) == head + middle + legend(snapshot.categories@.take(k as int)),
            any == (legend(snapshot.categories@.take(k as int)).len() > 0),
        decreases snapshot.categories@.len() - k,
    {
        let c: Category = snapshot.categories[k];
        proof {
            assert(snapshot.categories@.take(k + 1).drop_last() =~= snapshot.categories@.take(
                k as int,
            ));
            assert(snapshot.categories@.take(k + 1).last() == c);
        }
        if c.tokens > 0 {
            any = true;
            push_line(
                &mut out,
                legend_line(Style::fg(Color::Indexed(c.color_index)), c.name, c.tokens),
            );
        }
        k = k + 1;
        proof {
            assert(line_views(out@) =~= head + middle + legend(
                snapshot.categories@.take(k as int),
            ));
        }
    }
    proof {
        assert(snapshot.categories@.take(k as int) =~= snapshot.categories@);
    }
    if !any {
        push_line(&mut out, Line::of(Span::new("context is empty", muted)));
    }
    let ghost list = if entries.len() == 0 {
        seq![seq![sp("context is empty"@, muted)]]
    } else {
        entries
    };
    proof {
        if !any {
            assert(entries =~= Seq::empty());
        }
        assert(line_views(out@) =~= head + middle + list);
    }
    let ghost before_tail = line_views(out@);
    match snapshot.window {
        Some(w) => {
            if w > used {
                push_line(&mut out, legend_line(muted, "free", w - used));
            }
        },
        None => {},
    }
    proof {
        assert(line_views(out@) =~= pane_lines(snapshot.categories@, snapshot.window, width));
    }
    out
}

impl ContextPane {
    /// Open the overlay on a snapshot.
    pub fn open(snapshot: ContextSnapshot) -> (r: ContextPane)
        ensures
            r.snapshot == snapshot,
    {
        ContextPane { snapshot }
    }

    /// A key. Returns `true` when the overlay closes: on Esc and `q`.
    pub fn handle_key(&mut self, key: KeyEvent) -> (r: bool)
        ensures
            r == (key.code is Esc || key.code == KeyCode::Char('q')),
            *final(self) == *old(self),
    {
        matches!(key.code, KeyCode::Esc | KeyCode::Char('q'))
    }

    /// The rows of the overlay for an interior of `width` cells.
    pub fn render(&self, width: u16) -> (r: Vec<Line>)
        requires
            total_tokens(self.snapshot.categories@) <= u64::MAX,
            self.snapshot.categories@.len() < usize::MAX,
        ensures
            line_views(r@) == pane_lines(
                self.snapshot.categories@,
                self.snapshot.window,
                width,
            ),
    {
        body_lines(&self.snapshot, width)
    }
}

} // verus!
