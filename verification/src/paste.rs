//! Paste blocks: placeholders in the composer that stand for long pasted text
//! or for an image, and the registry that keeps their positions in step with
//! the text.

use vstd::prelude::*;
use crate::text::{decimal, from_range, same, with_inserted, without};

verus! {

/// Marks in outgoing text where an attached image belongs.
pub const IMAGE_MARK: char = '\u{fffc}';

/// What a block stands for.
pub enum PasteContent {
    Text(String),
    Image(Vec<u8>),
}

/// A placeholder in the composer: the characters from `start` up to `end` are
/// `label`.
pub struct PasteBlock {
    pub start: usize,
    pub end: usize,
    pub label: String,
    pub content: PasteContent,
}

pub enum PasteContentView {
    Text(Seq<char>),
    Image(Seq<u8>),
}

#[verifier::ext_equal]
pub struct BlockView {
    pub start: int,
    pub end: int,
    pub label: Seq<char>,
    pub content: PasteContentView,
}

impl View for PasteContent {
    type V = PasteContentView;

    open spec fn view(&self) -> PasteContentView {
        match self {
            PasteContent::Text(t) => PasteContentView::Text(t@),
            PasteContent::Image(p) => PasteContentView::Image(p@),
        }
    }
}

impl View for PasteBlock {
    type V = BlockView;

    open spec fn view(&self) -> BlockView {
        BlockView {
            start: self.start as int,
            end: self.end as int,
            label: self.label@,
            content: self.content@,
        }
    }
}

impl BlockView {
    /// The block `by` positions further on.
    pub open spec fn shifted(self, by: int) -> BlockView {
        BlockView { start: self.start + by, end: self.end + by, ..self }
    }

    /// Whether the block's placeholder stands in `text` where the block says.
    pub open spec fn stands_in(self, text: Seq<char>) -> bool {
        &&& 0 <= self.start < self.end <= text.len()
        &&& text.subrange(self.start, self.end) == self.label
    }
}

/// Whether every block's placeholder stands in `text`, in order and apart.
pub open spec fn synced(text: Seq<char>, blocks: Seq<BlockView>) -> bool {
    &&& forall|i: int| 0 <= i < blocks.len() ==> (#[trigger] blocks[i]).stands_in(text)
    &&& forall|i: int, j: int|
        0 <= i < j < blocks.len() ==> (#[trigger] blocks[i]).end <= (#[trigger] blocks[j]).start
}

/// `p`, or the edge of the block that `p` stands strictly inside of: its end
/// when `forward`, its start otherwise.
pub open spec fn snap(blocks: Seq<BlockView>, p: int, forward: bool) -> int
    decreases blocks.len(),
{
    if blocks.len() == 0 {
        p
    } else {
        let b = blocks.last();
        if b.start < p < b.end {
            if forward {
                b.end
            } else {
                b.start
            }
        } else {
            snap(blocks.drop_last(), p, forward)
        }
    }
}

/// The blocks after `n` characters were inserted at `at`.
pub open spec fn after_insert(blocks: Seq<BlockView>, at: int, n: int) -> Seq<BlockView> {
    blocks.map_values(
        |b: BlockView|
            if b.start >= at {
                b.shifted(n)
            } else {
                b
            },
    )
}

/// The blocks after the characters from `lo` up to `hi` were removed: those
/// inside are gone, those behind move up.
pub open spec fn after_remove(blocks: Seq<BlockView>, lo: int, hi: int) -> Seq<BlockView>
    decreases blocks.len(),
{
    if blocks.len() == 0 {
        Seq::empty()
    } else {
        let rest = after_remove(blocks.drop_last(), lo, hi);
        let b = blocks.last();
        if b.end <= lo {
            rest.push(b)
        } else if b.start >= hi {
            rest.push(b.shifted(lo - hi))
        } else {
            rest
        }
    }
}

/// Start of the block that ends at `p`, or -1.
pub open spec fn block_before(blocks: Seq<BlockView>, p: int) -> int
    decreases blocks.len(),
{
    if blocks.len() == 0 {
        -1
    } else if blocks.last().end == p {
        blocks.last().start
    } else {
        block_before(blocks.drop_last(), p)
    }
}

/// End of the block that starts at `p`, or -1.
pub open spec fn block_after(blocks: Seq<BlockView>, p: int) -> int
    decreases blocks.len(),
{
    if blocks.len() == 0 {
        -1
    } else if blocks.last().start == p {
        blocks.last().end
    } else {
        block_after(blocks.drop_last(), p)
    }
}

// ---- Laws -----------------------------------------------------------------

proof fn lemma_synced_prefix(text: Seq<char>, blocks: Seq<BlockView>)
    requires
        synced(text, blocks),
        blocks.len() > 0,
    ensures
        synced(text, blocks.drop_last()),
        blocks.last().stands_in(text),
{
    assert forall|i: int| 0 <= i < blocks.drop_last().len() implies (
    #[trigger] blocks.drop_last()[i]).stands_in(text) by {
        assert(blocks[i].stands_in(text));
    }
    assert forall|i: int, j: int| 0 <= i < j < blocks.drop_last().len() implies (
    #[trigger] blocks.drop_last()[i]).end <= (#[trigger] blocks.drop_last()[j]).start by {
        assert(blocks[i].end <= blocks[j].start);
    }
    assert(blocks[blocks.len() - 1].stands_in(text));
}

/// A snapped position stays in the text, moves in the direction asked for, and
/// stands strictly inside no block.
pub proof fn snap_leaves_blocks(text: Seq<char>, blocks: Seq<BlockView>, p: int, forward: bool)
    requires
        synced(text, blocks),
        0 <= p <= text.len(),
    ensures
        0 <= snap(blocks, p, forward) <= text.len(),
        forward ==> p <= snap(blocks, p, forward),
        !forward ==> snap(blocks, p, forward) <= p,
        forall|i: int|
            0 <= i < blocks.len() ==> !((#[trigger] blocks[i]).start < snap(blocks, p, forward)
                < blocks[i].end),
    decreases blocks.len(),
{
    if blocks.len() > 0 {
        lemma_synced_prefix(text, blocks);
        let b = blocks.last();
        let rest = blocks.drop_last();
        let q = snap(blocks, p, forward);
        if b.start < p < b.end {
            assert forall|i: int| 0 <= i < blocks.len() implies !((#[trigger] blocks[i]).start < q
                < blocks[i].end) by {
                if i < blocks.len() - 1 {
                    assert(blocks[i].end <= blocks[blocks.len() - 1].start);
                }
            }
        } else {
            snap_leaves_blocks(text, rest, p, forward);
            assert forall|i: int| 0 <= i < blocks.len() implies !((#[trigger] blocks[i]).start < q
                < blocks[i].end) by {
                if i < blocks.len() - 1 {
                    assert(rest[i] == blocks[i]);
                } else {
                    if q != p {
                        lemma_snap_is_edge(rest, p, forward);
                        let j = choose|j: int|
                            0 <= j < rest.len() && (#[trigger] rest[j]).start < p < rest[j].end
                                && (q == rest[j].start || q == rest[j].end);
                        assert(blocks[j].end <= blocks[blocks.len() - 1].start);
                    }
                }
            }
        }
    }
}

proof fn lemma_snap_is_edge(blocks: Seq<BlockView>, p: int, forward: bool)
    requires
        snap(blocks, p, forward) != p,
    ensures
        exists|j: int|
            0 <= j < blocks.len() && (#[trigger] blocks[j]).start < p < blocks[j].end && (snap(
                blocks,
                p,
                forward,
            ) == blocks[j].start || snap(blocks, p, forward) == blocks[j].end),
    decreases blocks.len(),
{
    if blocks.len() > 0 {
        let b = blocks[blocks.len() - 1];
        if b.start < p < b.end {
            assert(blocks[blocks.len() - 1].start < p < blocks[blocks.len() - 1].end);
        } else {
            lemma_snap_is_edge(blocks.drop_last(), p, forward);
            let j = choose|j: int|
                0 <= j < blocks.drop_last().len() && (#[trigger] blocks.drop_last()[j]).start < p
                    < blocks.drop_last()[j].end && (snap(blocks, p, forward)
                    == blocks.drop_last()[j].start || snap(blocks, p, forward)
                    == blocks.drop_last()[j].end);
            assert(blocks[j] == blocks.drop_last()[j]);
        }
    }
}

/// A position strictly inside a block goes to the end of the block forward, and to its
/// start backward.
pub proof fn snap_goes_to_the_edge(
    text: Seq<char>,
    blocks: Seq<BlockView>,
    p: int,
    forward: bool,
    i: int,
)
    requires
        synced(text, blocks),
        0 <= i < blocks.len(),
        blocks[i].start < p < blocks[i].end,
    ensures
        snap(blocks, p, forward) == if forward {
            blocks[i].end
        } else {
            blocks[i].start
        },
    decreases blocks.len(),
{
    lemma_synced_prefix(text, blocks);
    let n = blocks.len() - 1;
    if i < n {
        assert(blocks[i].end <= blocks[n].start);
        assert(blocks.drop_last()[i] == blocks[i]);
        snap_goes_to_the_edge(text, blocks.drop_last(), p, forward, i);
    }
}

/// Text inserted outside every block leaves all placeholders intact.
pub proof fn insert_keeps_blocks(text: Seq<char>, blocks: Seq<BlockView>, at: int, t: Seq<char>)
    requires
        synced(text, blocks),
        0 <= at <= text.len(),
        forall|i: int|
            0 <= i < blocks.len() ==> !((#[trigger] blocks[i]).start < at < blocks[i].end),
    ensures
        synced(with_inserted(text, at, t), after_insert(blocks, at, t.len() as int)),
{
    let new = with_inserted(text, at, t);
    let moved = after_insert(blocks, at, t.len() as int);
    assert forall|i: int| 0 <= i < moved.len() implies (#[trigger] moved[i]).stands_in(new) by {
        let b = blocks[i];
        assert(b.stands_in(text));
        assert(new.subrange(moved[i].start, moved[i].end) =~= text.subrange(b.start, b.end));
    }
    assert forall|i: int, j: int| 0 <= i < j < moved.len() implies (#[trigger] moved[i]).end <= (
    #[trigger] moved[j]).start by {
        assert(blocks[i].end <= blocks[j].start);
        assert(blocks[i].stands_in(text));
        assert(blocks[j].stands_in(text));
    }
}

/// Removing text that cuts through no block leaves the placeholders that are
/// not removed intact.
pub proof fn remove_keeps_blocks(text: Seq<char>, blocks: Seq<BlockView>, lo: int, hi: int)
    requires
        synced(text, blocks),
        0 <= lo <= hi <= text.len(),
        forall|i: int|
            0 <= i < blocks.len() ==> !((#[trigger] blocks[i]).start < lo < blocks[i].end)
                && !(blocks[i].start < hi < blocks[i].end),
    ensures
        synced(without(text, lo, hi), after_remove(blocks, lo, hi)),
        forall|i: int|
            0 <= i < after_remove(blocks, lo, hi).len() ==> exists|j: int|
                0 <= j < blocks.len() && is_moved(
                    blocks[j],
                    #[trigger] after_remove(blocks, lo, hi)[i],
                    lo,
                    hi,
                ),
    decreases blocks.len(),
{
    let new = without(text, lo, hi);
    let kept = after_remove(blocks, lo, hi);
    if blocks.len() > 0 {
        lemma_synced_prefix(text, blocks);
        let rest = blocks.drop_last();
        assert forall|i: int| 0 <= i < rest.len() implies !((#[trigger] rest[i]).start < lo
            < rest[i].end) && !(rest[i].start < hi < rest[i].end) by {
            assert(rest[i] == blocks[i]);
        }
        remove_keeps_blocks(text, rest, lo, hi);
        let old_kept = after_remove(rest, lo, hi);
        let b = blocks[blocks.len() - 1];
        assert(!(b.start < lo < b.end) && !(b.start < hi < b.end));
        assert forall|i: int| 0 <= i < kept.len() implies (#[trigger] kept[i]).stands_in(new) by {
            if i < old_kept.len() {
                assert(old_kept[i].stands_in(new));
            } else {
                assert(new.subrange(kept[i].start, kept[i].end) =~= text.subrange(b.start, b.end));
            }
        }
        assert forall|i: int| 0 <= i < kept.len() implies exists|j: int|
            0 <= j < blocks.len() && is_moved(blocks[j], #[trigger] kept[i], lo, hi) by {
            if i < old_kept.len() {
                assert(kept[i] == old_kept[i]);
                let j = choose|j: int|
                    0 <= j < rest.len() && is_moved(rest[j], old_kept[i], lo, hi);
                assert(is_moved(blocks[j], kept[i], lo, hi));
            } else {
                assert(is_moved(blocks[blocks.len() - 1], kept[i], lo, hi));
            }
        }
        assert forall|i: int, j: int| 0 <= i < j < kept.len() implies (#[trigger] kept[i]).end <= (
        #[trigger] kept[j]).start by {
            if j < old_kept.len() {
                assert(old_kept[i].end <= old_kept[j].start);
            } else {
                assert(kept[i] == old_kept[i]);
                let o = choose|o: int| 0 <= o < rest.len() && is_moved(rest[o], old_kept[i], lo, hi);
                assert(blocks[o].end <= blocks[blocks.len() - 1].start);
            }
        }
    }
}

/// A removal takes the blocks that it touches and no others: one that ends before it stays
/// where it is, one that begins behind it moves up, and nothing else comes about.
pub proof fn removal_spares_other_blocks(
    blocks: Seq<BlockView>,
    lo: int,
    hi: int,
    i: int,
    b: BlockView,
)
    requires
        lo <= hi,
        0 <= i < blocks.len(),
    ensures
        blocks[i].end <= lo ==> after_remove(blocks, lo, hi).contains(blocks[i]),
        blocks[i].end > lo && blocks[i].start >= hi ==> after_remove(blocks, lo, hi).contains(
            (BlockView {
                start: blocks[i].start - (hi - lo),
                end: blocks[i].end - (hi - lo),
                ..blocks[i]
            }),
        ),
        after_remove(blocks, lo, hi).contains(b) ==> exists|j: int|
            0 <= j < blocks.len() && b.label == (#[trigger] blocks[j]).label && b.content
                == blocks[j].content && (blocks[j].end <= lo || blocks[j].start >= hi),
    decreases blocks.len(),
{
    let n = blocks.len() - 1;
    let front = blocks.drop_last();
    let rest = after_remove(front, lo, hi);
    let all = after_remove(blocks, lo, hi);
    let last = blocks[n];
    assert(blocks.last() == last);
    let moved = BlockView { start: last.start - (hi - lo), end: last.end - (hi - lo), ..last };
    assert(last.shifted(lo - hi) == moved);
    if last.end <= lo {
        assert(all[rest.len() as int] == last);
    } else if last.start >= hi {
        assert(all[rest.len() as int] == moved);
    }
    if i < n {
        assert(front[i] == blocks[i]);
        removal_spares_other_blocks(front, lo, hi, i, b);
        let at = BlockView {
            start: blocks[i].start - (hi - lo),
            end: blocks[i].end - (hi - lo),
            ..blocks[i]
        };
        if rest.contains(blocks[i]) {
            let k = choose|k: int| 0 <= k < rest.len() && rest[k] == blocks[i];
            assert(all[k] == blocks[i]);
        }
        if rest.contains(at) {
            let k = choose|k: int| 0 <= k < rest.len() && rest[k] == at;
            assert(all[k] == at);
        }
    }
    if all.contains(b) {
        let k = choose|k: int| 0 <= k < all.len() && all[k] == b;
        if k < rest.len() {
            assert(rest[k] == b);
            assert(rest.contains(b));
            if front.len() > 0 {
                removal_spares_other_blocks(front, lo, hi, 0, b);
                let j = choose|j: int|
                    0 <= j < front.len() && b.label == (#[trigger] front[j]).label && b.content
                        == front[j].content && (front[j].end <= lo || front[j].start >= hi);
                assert(blocks[j] == front[j]);
            }
        } else {
            assert(b.label == blocks[n].label);
        }
    }
}

/// A block whose placeholder stands apart from all others can be added.
pub proof fn register_keeps_blocks(text: Seq<char>, blocks: Seq<BlockView>, b: BlockView)
    requires
        synced(text, blocks),
        b.stands_in(text),
        forall|i: int|
            0 <= i < blocks.len() ==> (#[trigger] blocks[i]).end <= b.start || blocks[i].start
                >= b.end,
    ensures
        synced(text, insert_sorted(blocks, b)),
        forall|i: int|
            0 <= i < insert_sorted(blocks, b).len() ==> (#[trigger] insert_sorted(blocks, b)[i] == b
                || exists|j: int|
                0 <= j < blocks.len() && insert_sorted(blocks, b)[i] == #[trigger] blocks[j]),
    decreases blocks.len(),
{
    let all = insert_sorted(blocks, b);
    if blocks.len() > 0 && blocks.last().start >= b.end {
        lemma_synced_prefix(text, blocks);
        let rest = blocks.drop_last();
        let last = blocks[blocks.len() - 1];
        assert forall|i: int| 0 <= i < rest.len() implies (#[trigger] rest[i]).end <= b.start
            || rest[i].start >= b.end by {
            assert(rest[i] == blocks[i]);
        }
        register_keeps_blocks(text, rest, b);
        let sub = insert_sorted(rest, b);
        assert forall|i: int| 0 <= i < all.len() implies (#[trigger] all[i] == b || exists|j: int|
            0 <= j < blocks.len() && all[i] == #[trigger] blocks[j]) by {
            if i < sub.len() {
                assert(all[i] == sub[i]);
                if sub[i] != b {
                    let j = choose|j: int| 0 <= j < rest.len() && sub[i] == #[trigger] rest[j];
                    assert(all[i] == blocks[j]);
                }
            } else {
                assert(all[i] == blocks[blocks.len() - 1]);
            }
        }
        assert forall|i: int, j: int| 0 <= i < j < all.len() implies (#[trigger] all[i]).end <= (
        #[trigger] all[j]).start by {
            if j < sub.len() {
                assert(sub[i].end <= sub[j].start);
            } else {
                assert(all[i] == sub[i]);
                if sub[i] != b {
                    let o = choose|o: int| 0 <= o < rest.len() && sub[i] == #[trigger] rest[o];
                    assert(blocks[o].end <= blocks[blocks.len() - 1].start);
                }
            }
        }
        assert forall|i: int| 0 <= i < all.len() implies (#[trigger] all[i]).stands_in(text) by {
            if i < sub.len() {
                assert(sub[i].stands_in(text));
            }
        }
    } else {
        assert forall|i: int| 0 <= i < all.len() implies (#[trigger] all[i] == b || exists|j: int|
            0 <= j < blocks.len() && all[i] == #[trigger] blocks[j]) by {
            if i < blocks.len() {
                assert(all[i] == blocks[i]);
            }
        }
        assert forall|i: int, j: int| 0 <= i < j < all.len() implies (#[trigger] all[i]).end <= (
        #[trigger] all[j]).start by {
            if j == blocks.len() {
                assert(all[i] == blocks[i]);
                assert(blocks[blocks.len() - 1].end <= b.start || blocks[blocks.len() - 1].start
                    >= b.end);
                if i < blocks.len() - 1 {
                    assert(blocks[i].end <= blocks[blocks.len() - 1].start);
                    assert(blocks[blocks.len() - 1].stands_in(text));
                }
            } else {
                assert(blocks[i].end <= blocks[j].start);
            }
        }
        assert forall|i: int| 0 <= i < all.len() implies (#[trigger] all[i]).stands_in(text) by {
            if i < blocks.len() {
                assert(blocks[i].stands_in(text));
            }
        }
    }
}

/// Whether `new` is where `old` stands after the removal of `lo..hi`.
pub open spec fn is_moved(old: BlockView, new: BlockView, lo: int, hi: int) -> bool {
    (old.end <= lo && new == old) || (old.start >= hi && new == old.shifted(lo - hi))
}

pub proof fn lemma_block_before(text: Seq<char>, blocks: Seq<BlockView>, p: int)
    requires
        synced(text, blocks),
    ensures
        block_before(blocks, p) >= 0 ==> block_before(blocks, p) < p <= text.len(),
        block_before(blocks, p) >= -1,
    decreases blocks.len(),
{
    if blocks.len() > 0 {
        lemma_synced_prefix(text, blocks);
        lemma_block_before(text, blocks.drop_last(), p);
    }
}

pub proof fn lemma_block_after(text: Seq<char>, blocks: Seq<BlockView>, p: int)
    requires
        synced(text, blocks),
    ensures
        block_after(blocks, p) >= 0 ==> 0 <= p < block_after(blocks, p) <= text.len(),
        block_after(blocks, p) >= -1,
    decreases blocks.len(),
{
    if blocks.len() > 0 {
        lemma_synced_prefix(text, blocks);
        lemma_block_after(text, blocks.drop_last(), p);
    }
}

// ---- The registry ---------------------------------------------------------

/// The paste blocks of a composer, in the order in which they stand in it, and
/// the number that the next one gets.
pub struct PasteRegistry {
    blocks: Vec<PasteBlock>,
    next_number: u64,
}

#[verifier::ext_equal]
pub struct RegistryView {
    pub blocks: Seq<BlockView>,
    pub next_number: nat,
}

pub open spec fn block_views(v: Seq<PasteBlock>) -> Seq<BlockView> {
    v.map_values(|b: PasteBlock| b@)
}

impl View for PasteRegistry {
    type V = RegistryView;

    closed spec fn view(&self) -> RegistryView {
        RegistryView { blocks: block_views(self.blocks@), next_number: self.next_number as nat }
    }
}

impl RegistryView {
    pub open spec fn empty() -> RegistryView {
        RegistryView { blocks: Seq::empty(), next_number: 1 }
    }

    /// The registry with `b` added in the order of positions.
    pub open spec fn with_block(self, b: BlockView) -> RegistryView {
        RegistryView {
            blocks: insert_sorted(self.blocks, b),
            next_number: if self.next_number < u64::MAX {
                self.next_number + 1
            } else {
                self.next_number
            },
        }
    }
}

/// `blocks` with `b` before the first block that starts at or after its end.
pub open spec fn insert_sorted(blocks: Seq<BlockView>, b: BlockView) -> Seq<BlockView>
    decreases blocks.len(),
{
    if blocks.len() > 0 && blocks.last().start >= b.end {
        insert_sorted(blocks.drop_last(), b).push(blocks.last())
    } else {
        blocks.push(b)
    }
}

/// Placeholder of a condensed text.
pub open spec fn text_label(number: nat, tokens: nat) -> Seq<char> {
    "[Pasted text #"@ + decimal(number) + ", "@ + decimal(tokens) + " tokens]"@
}

/// Placeholder of an image.
pub open spec fn image_label(number: nat) -> Seq<char> {
    "[Pasted image #"@ + decimal(number) + "]"@
}

/// What is sent in place of an image to a model without image support.
pub open spec fn image_note(label: Seq<char>) -> Seq<char> {
    label + " (image not sent: the model has no image support)"@
}

/// The text that is sent: every text block replaced by its full text, every
/// image block by a mark (`vision`) or by a note.
pub open spec fn wire_text(text: Seq<char>, blocks: Seq<BlockView>, vision: bool) -> Seq<char>
    decreases blocks.len(),
{
    if blocks.len() == 0 {
        text
    } else {
        let b = blocks.last();
        wire_text(text.subrange(0, b.start), blocks.drop_last(), vision) + (match b.content {
            PasteContentView::Text(full) => full,
            PasteContentView::Image(_) => if vision {
                seq![IMAGE_MARK]
            } else {
                image_note(b.label)
            },
        }) + text.subrange(b.end, text.len() as int)
    }
}

/// The images among the blocks, in order.
pub open spec fn wire_images(blocks: Seq<BlockView>) -> Seq<Seq<u8>>
    decreases blocks.len(),
{
    if blocks.len() == 0 {
        Seq::empty()
    } else {
        let rest = wire_images(blocks.drop_last());
        match blocks.last().content {
            PasteContentView::Text(_) => rest,
            PasteContentView::Image(png) => rest.push(png),
        }
    }
}

/// Without blocks the text is sent as it is.
pub proof fn wire_text_without_blocks(text: Seq<char>, vision: bool)
    ensures
        wire_text(text, Seq::empty(), vision) == text,
        wire_images(Seq::empty()) == Seq::<Seq<u8>>::empty(),
{
}

pub open spec fn byte_lists(v: Seq<Vec<u8>>) -> Seq<Seq<u8>> {
    v.map_values(|b: Vec<u8>| b@)
}

fn copy_bytes(v: &Vec<u8>) -> (r: Vec<u8>)
    ensures
        r@ == v@,
{
    let mut out: Vec<u8> = Vec::new();
    let mut i: usize = 0;
    while i < v.len()
        invariant
            i <= v@.len(),
            out@ == v@.take(i as int),
        decreases v@.len() - i,
    {
        proof {
            assert(v@.take(i + 1) =~= v@.take(i as int).push(v@[i as int]));
        }
        out.push(v[i]);
        i = i + 1;
    }
    proof {
        assert(v@.take(v@.len() as int) =~= v@);
    }
    out
}

impl PasteRegistry {
    pub fn new() -> (r: PasteRegistry)
        ensures
            r@ == RegistryView::empty(),
    {
        let r = PasteRegistry { blocks: Vec::new(), next_number: 1 };
        proof {
            assert(block_views(r.blocks@) =~= Seq::empty());
        }
        r
    }

    pub fn is_empty(&self) -> (r: bool)
        ensures
            r == (self@.blocks.len() == 0),
    {
        self.blocks.len() == 0
    }

    /// Forget every block and number from 1 again.
    pub fn clear(&mut self)
        ensures
            final(self)@ == RegistryView::empty(),
    {
        self.blocks = Vec::new();
        self.next_number = 1;
        proof {
            assert(block_views(self.blocks@) =~= Seq::empty());
        }
    }

    /// The number that the next block gets.
    pub fn next_number(&self) -> (r: u64)
        ensures
            r == self@.next_number,
    {
        self.next_number
    }

    /// `p`, moved out of the block that it stands inside of: to the block's end
    /// when `forward`, to its start otherwise.
    pub fn skip_cursor(&self, p: usize, forward: bool) -> (r: usize)
        ensures
            r == snap(self@.blocks, p as int, forward),
    {
        let mut i: usize = self.blocks.len();
        proof {
            assert(self@.blocks.take(self@.blocks.len() as int) =~= self@.blocks);
        }
        while i > 0
            invariant
                i <= self.blocks@.len(),
                snap(self@.blocks, p as int, forward) == snap(
                    self@.blocks.take(i as int),
                    p as int,
                    forward,
                ),
            decreases i,
        {
            let b: &PasteBlock = &self.blocks[i - 1];
            proof {
                assert(self@.blocks.take(i as int).last() == b@);
                assert(self@.blocks.take(i as int).drop_last() =~= self@.blocks.take(i - 1));
            }
            if b.start < p && p < b.end {
                return if forward {
                    b.end
                } else {
                    b.start
                };
            }
            i = i - 1;
        }
        p
    }

    /// The block that ends at `p`.
    pub fn block_ending_at(&self, p: usize) -> (r: Option<usize>)
        ensures
            match r {
                Some(start) => block_before(self@.blocks, p as int) == start,
                None => block_before(self@.blocks, p as int) == -1,
            },
    {
        let mut i: usize = self.blocks.len();
        proof {
            assert(self@.blocks.take(self@.blocks.len() as int) =~= self@.blocks);
        }
        while i > 0
            invariant
                i <= self.blocks@.len(),
                block_before(self@.blocks, p as int) == block_before(
                    self@.blocks.take(i as int),
                    p as int,
                ),
            decreases i,
        {
            proof {
                assert(self@.blocks.take(i as int).last() == self.blocks@[i - 1]@);
                assert(self@.blocks.take(i as int).drop_last() =~= self@.blocks.take(i - 1));
            }
            if self.blocks[i - 1].end == p {
                return Some(self.blocks[i - 1].start);
            }
            i = i - 1;
        }
        None
    }

    /// The block that starts at `p`.
    pub fn block_starting_at(&self, p: usize) -> (r: Option<usize>)
        ensures
            match r {
                Some(end) => block_after(self@.blocks, p as int) == end,
                None => block_after(self@.blocks, p as int) == -1,
            },
    {
        let mut i: usize = self.blocks.len();
        proof {
            assert(self@.blocks.take(self@.blocks.len() as int) =~= self@.blocks);
        }
        while i > 0
            invariant
                i <= self.blocks@.len(),
                block_after(self@.blocks, p as int) == block_after(
                    self@.blocks.take(i as int),
                    p as int,
                ),
            decreases i,
        {
            proof {
                assert(self@.blocks.take(i as int).last() == self.blocks@[i - 1]@);
                assert(self@.blocks.take(i as int).drop_last() =~= self@.blocks.take(i - 1));
            }
            if self.blocks[i - 1].start == p {
                return Some(self.blocks[i - 1].end);
            }
            i = i - 1;
        }
        None
    }

    /// The full text of the block that ends at `p`, when it is a text block.
    pub fn text_ending_at(&self, p: usize, data: &str) -> (r: Option<usize>)
        ensures
            match r {
                Some(start) => expandable(self@.blocks, p as int, data@) == start,
                None => expandable(self@.blocks, p as int, data@) == -1,
            },
    {
        let mut i: usize = self.blocks.len();
        proof {
            assert(self@.blocks.take(self@.blocks.len() as int) =~= self@.blocks);
        }
        while i > 0
            invariant
                i <= self.blocks@.len(),
                expandable(self@.blocks, p as int, data@) == expandable(
                    self@.blocks.take(i as int),
                    p as int,
                    data@,
                ),
            decreases i,
        {
            proof {
                assert(self@.blocks.take(i as int).last() == self.blocks@[i - 1]@);
                assert(self@.blocks.take(i as int).drop_last() =~= self@.blocks.take(i - 1));
            }
            if self.blocks[i - 1].end == p {
                match &self.blocks[i - 1].content {
                    PasteContent::Text(full) => {
                        if same(full.as_str(), data) {
                            return Some(self.blocks[i - 1].start);
                        }
                    },
                    PasteContent::Image(_) => {},
                }
            }
            i = i - 1;
        }
        None
    }

    /// Move the blocks for `n` characters inserted at `at`.
    pub fn shift_for_insert(&mut self, at: usize, n: usize)
        requires
            forall|i: int|
                0 <= i < old(self)@.blocks.len() ==> (#[trigger] old(self)@.blocks[i]).end + n
                    <= usize::MAX && old(self)@.blocks[i].start <= old(self)@.blocks[i].end,
        ensures
            final(self)@ == (RegistryView {
                blocks: after_insert(old(self)@.blocks, at as int, n as int),
                ..old(self)@
            }),
    {
        let mut i: usize = 0;
        let ghost before = self@.blocks;
        let ghost number = self@.next_number;
        while i < self.blocks.len()
            invariant
                i <= self.blocks@.len() == before.len(),
                before == old(self)@.blocks,
                number == old(self)@.next_number,
                self@.next_number == number,
                forall|j: int|
                    0 <= j < before.len() ==> (#[trigger] before[j]).end + n <= usize::MAX
                        && before[j].start <= before[j].end,
                forall|j: int|
                    0 <= j < i ==> (#[trigger] self.blocks@[j])@ == after_insert(
                        before,
                        at as int,
                        n as int,
                    )[j],
                forall|j: int| i <= j < before.len() ==> (#[trigger] self.blocks@[j])@ == before[j],
            decreases self.blocks@.len() - i,
        {
            proof {
                assert(self.blocks@[i as int]@ == before[i as int]);
            }
            if self.blocks[i].start >= at {
                let s: usize = self.blocks[i].start + n;
                let e: usize = self.blocks[i].end + n;
                self.blocks[i].start = s;
                self.blocks[i].end = e;
            }
            i = i + 1;
        }
        proof {
            assert(self@.blocks =~= after_insert(before, at as int, n as int));
        }
    }

    /// Drop the blocks inside `lo..hi` and move up those behind.
    pub fn remove_range(&mut self, lo: usize, hi: usize)
        requires
            lo <= hi,
            forall|i: int|
                0 <= i < old(self)@.blocks.len() ==> (#[trigger] old(self)@.blocks[i]).start
                    <= old(self)@.blocks[i].end,
        ensures
            final(self)@ == (RegistryView {
                blocks: after_remove(old(self)@.blocks, lo as int, hi as int),
                ..old(self)@
            }),
    {
        let ghost before = self@.blocks;
        let total: usize = self.blocks.len();
        let mut i: usize = 0;
        let mut done: usize = 0;
        proof {
            assert(before.take(0) =~= Seq::empty());
            assert(before.skip(0) =~= before);
            assert(self@.blocks =~= after_remove(before.take(0), lo as int, hi as int)
                + before.skip(0));
        }
        while i < self.blocks.len()
            invariant
                done <= total == before.len(),
                lo <= hi,
                before == old(self)@.blocks,
                self@.next_number == old(self)@.next_number,
                forall|j: int|
                    0 <= j < before.len() ==> (#[trigger] before[j]).start <= before[j].end,
                i == after_remove(before.take(done as int), lo as int, hi as int).len(),
                self.blocks@.len() == i + before.len() - done,
                self@.blocks == after_remove(before.take(done as int), lo as int, hi as int)
                    + before.skip(done as int),
            decreases before.len() - done,
        {
            let ghost kept = after_remove(before.take(done as int), lo as int, hi as int);
            let ghost now = self@.blocks;
            proof {
                assert(self@.blocks[i as int] == before.skip(done as int)[0]);
                assert(self.blocks@[i as int]@ == before[done as int]);
                assert(before.take(done + 1).drop_last() =~= before.take(done as int));
                assert(before.take(done + 1).last() == before[done as int]);
                assert(before.len() == self.blocks@.len() - i + done);
                assert(self.blocks.len() <= usize::MAX);
            }
            if self.blocks[i].end <= lo {
                i = i + 1;
                proof {
                    assert(self@.blocks =~= kept.push(before[done as int]) + before.skip(done + 1));
                }
            } else if self.blocks[i].start >= hi {
                let s: usize = self.blocks[i].start - (hi - lo);
                let e: usize = self.blocks[i].end - (hi - lo);
                self.blocks[i].start = s;
                self.blocks[i].end = e;
                i = i + 1;
                proof {
                    assert(self@.blocks =~= now.update(
                        i - 1,
                        before[done as int].shifted(lo - hi),
                    ));
                    assert(now.update(i - 1, before[done as int].shifted(lo - hi)) =~= kept.push(
                        before[done as int].shifted(lo - hi),
                    ) + before.skip(done + 1));
                }
            } else {
                let _gone = self.blocks.remove(i);
                proof {
                    assert(self@.blocks =~= now.remove(i as int));
                    assert(now.remove(i as int) =~= kept + before.skip(done + 1));
                }
            }
            done = done + 1;
        }
        proof {
            assert(done == before.len());
            assert(before.take(done as int) =~= before);
            assert(before.skip(done as int) =~= Seq::empty());
            assert(self@.blocks =~= after_remove(before, lo as int, hi as int));
        }
    }

    /// Add a block in the order of positions and advance the numbering.
    pub fn register(&mut self, block: PasteBlock)
        ensures
            final(self)@ == old(self)@.with_block(block@),
    {
        let ghost before = self@.blocks;
        let ghost b = block@;
        let mut i: usize = self.blocks.len();
        proof {
            assert(before.take(before.len() as int) =~= before);
            assert(before.skip(before.len() as int) =~= Seq::empty());
            assert(insert_sorted(before, b) =~= insert_sorted(before, b) + Seq::empty());
        }
        while i > 0 && self.blocks[i - 1].start >= block.end
            invariant
                i <= self.blocks@.len() == before.len(),
                self@.blocks == before,
                b == block@,
                before == old(self)@.blocks,
                self@.next_number == old(self)@.next_number,
                insert_sorted(before, b) == insert_sorted(before.take(i as int), b) + before.skip(
                    i as int,
                ),
            decreases i,
        {
            proof {
                assert(before[i - 1] == self.blocks@[i - 1]@);
                assert(before.take(i as int).last() == before[i - 1]);
                assert(before.take(i as int).drop_last() =~= before.take(i - 1));
                assert(insert_sorted(before.take(i as int), b) + before.skip(i as int)
                    =~= insert_sorted(before.take(i - 1), b) + before.skip(i - 1));
            }
            i = i - 1;
        }
        proof {
            if i > 0 {
                assert(before[i - 1] == self.blocks@[i - 1]@);
                assert(before.take(i as int).last() == before[i - 1]);
            }
            assert(insert_sorted(before.take(i as int), b) == before.take(i as int).push(b));
        }
        self.blocks.insert(i, block);
        if self.next_number < u64::MAX {
            self.next_number = self.next_number + 1;
        }
        proof {
            assert(self@.blocks =~= before.take(i as int).push(b) + before.skip(i as int));
        }
    }

    /// The text to send and the images that go with it: text blocks in full,
    /// images as marks when the model takes images and as notes otherwise.
    pub fn build_wire(&self, text: &Vec<char>, vision: bool) -> (r: (String, Vec<Vec<u8>>))
        requires
            synced(text@, self@.blocks),
        ensures
            r.0@ == wire_text(text@, self@.blocks, vision),
            byte_lists(r.1@) == if vision {
                wire_images(self@.blocks)
            } else {
                Seq::empty()
            },
    {
        let mut out: String = String::new();
        let mut images: Vec<Vec<u8>> = Vec::new();
        let mut from: usize = 0;
        let mut i: usize = 0;
        let ghost blocks = self@.blocks;
        proof {
            assert(blocks.take(0) =~= Seq::empty());
            assert(text@.take(0) =~= Seq::empty());
            assert(byte_lists(images@) =~= Seq::empty());
        }
        while i < self.blocks.len()
            invariant
                i <= self.blocks@.len(),
                blocks == self@.blocks,
                synced(text@, blocks),
                from <= text@.len(),
                i > 0 ==> from == blocks[i - 1].end,
                i == 0 ==> from == 0,
                out@ == wire_text(text@.take(from as int), blocks.take(i as int), vision),
                byte_lists(images@) == if vision {
                    wire_images(blocks.take(i as int))
                } else {
                    Seq::empty()
                },
            decreases self.blocks@.len() - i,
        {
            let b: &PasteBlock = &self.blocks[i];
            let ghost head = blocks.take(i + 1);
            proof {
                assert(b@ == blocks[i as int]);
                assert(blocks[i as int].stands_in(text@));
                if i > 0 {
                    assert(blocks[i - 1].end <= blocks[i as int].start);
                }
                assert(head.drop_last() =~= blocks.take(i as int));
                assert(head.last() == b@);
                lemma_wire_extends(text@, blocks.take(i as int), from as int, b@.start, vision);
                assert(text@.take(b@.end).subrange(0, b@.start) =~= text@.take(b@.start));
                assert(text@.take(b@.end).subrange(b@.end, b@.end) =~= Seq::empty());
            }
            let gap: String = from_range(text, from, b.start);
            out.append(gap.as_str());
            match &b.content {
                PasteContent::Text(full) => {
                    out.append(full.as_str());
                },
                PasteContent::Image(png) => {
                    if vision {
                        out.push(IMAGE_MARK);
                        let copy: Vec<u8> = copy_bytes(png);
                        images.push(copy);
                    } else {
                        let mut note: String = b.label.clone();
                        note.append(" (image not sent: the model has no image support)");
                        out.append(note.as_str());
                    }
                },
            }
            from = b.end;
            i = i + 1;
            proof {
                assert(out@ =~= wire_text(text@.take(from as int), head, vision));
                assert(byte_lists(images@) =~= if vision {
                    wire_images(head)
                } else {
                    Seq::empty()
                });
            }
        }
        proof {
            assert(blocks.take(blocks.len() as int) =~= blocks);
            lemma_wire_extends(text@, blocks, from as int, text@.len() as int, vision);
            assert(text@.take(text@.len() as int) =~= text@);
        }
        let tail: String = from_range(text, from, text.len());
        out.append(tail.as_str());
        (out, images)
    }
}

pub proof fn lemma_expandable(text: Seq<char>, blocks: Seq<BlockView>, p: int, data: Seq<char>)
    requires
        synced(text, blocks),
    ensures
        expandable(blocks, p, data) >= -1,
        expandable(blocks, p, data) >= 0 ==> expandable(blocks, p, data) < p <= text.len(),
    decreases blocks.len(),
{
    if blocks.len() > 0 {
        lemma_synced_prefix(text, blocks);
        lemma_expandable(text, blocks.drop_last(), p, data);
    }
}

/// Start of the text block that ends at `p` and holds `data`, or -1.
pub open spec fn expandable(blocks: Seq<BlockView>, p: int, data: Seq<char>) -> int
    decreases blocks.len(),
{
    if blocks.len() == 0 {
        -1
    } else if blocks.last().end == p && blocks.last().content == PasteContentView::Text(data) {
        blocks.last().start
    } else {
        expandable(blocks.drop_last(), p, data)
    }
}

/// Text behind the last block is sent as it is.
proof fn lemma_wire_extends(
    text: Seq<char>,
    blocks: Seq<BlockView>,
    from: int,
    to: int,
    vision: bool,
)
    requires
        0 <= from <= to <= text.len(),
        blocks.len() > 0 ==> 0 <= blocks.last().start <= blocks.last().end <= from,
    ensures
        wire_text(text.take(to), blocks, vision) == wire_text(text.take(from), blocks, vision)
            + text.subrange(from, to),
{
    if blocks.len() == 0 {
        assert(text.take(to) =~= text.take(from) + text.subrange(from, to));
    } else {
        let b = blocks.last();
        assert(text.take(to).subrange(0, b.start) =~= text.take(from).subrange(0, b.start));
        assert(text.take(to).subrange(b.end, to) =~= text.take(from).subrange(b.end, from)
            + text.subrange(from, to));
        assert(wire_text(text.take(to), blocks, vision) =~= wire_text(
            text.take(from),
            blocks,
            vision,
        ) + text.subrange(from, to));
    }
}

} // verus!
