//! What the keys do to a text, said of the text itself.

use vstd::prelude::*;
use crate::composer::{CharClass, ComposerView, Motion, Operator, VimMode, at_sign, classes_of, is_letter_or_digit, line_deletion, line_end, line_start, motion_target, position_above, position_below, rskip_class, skip_class};
use crate::editor::{EditorActionView, EditorView, SuggestionView};
use crate::key::{KeyCode, KeyEvent};
use crate::paste::{BlockView, IMAGE_MARK, PasteContentView, after_remove, block_after, block_before, expandable, image_label, snap, synced, text_label, wire_images, wire_text};
use crate::tag::{tag_after_is_a_tag, tag_before_is_a_tag};
use crate::text::{decimal, is_space, lemma_find_from, lemma_rfind_before, rfind_before, with_inserted};

verus! {

/// A character that words are made of.
pub open spec fn in_words(c: char) -> bool {
    is_letter_or_digit(c) || c == '_'
}

/// Two characters that no word motion stops between.
pub open spec fn alike(a: char, b: char, big: bool) -> bool {
    !is_space(a) && !is_space(b) && (big || in_words(a) == in_words(b))
}

/// One word from `a` up to `end`, and nothing but white space from there up to `b`.
pub open spec fn word_and_space(s: Seq<char>, big: bool, a: int, end: int, b: int) -> bool {
    &&& a <= end <= b
    &&& forall|i: int| a <= i < end ==> alike(s[a], #[trigger] s[i], big)
    &&& forall|i: int| end <= i < b ==> is_space(#[trigger] s[i])
}

/// `to` is where the next word after `from` starts: past the rest of the word at
/// `from`, if there is one, and past the white space behind it.
pub open spec fn starts_next_word(s: Seq<char>, big: bool, from: int, to: int) -> bool {
    &&& from <= to <= s.len()
    &&& to < s.len() ==> !is_space(s[to])
    &&& from < s.len() ==> exists|end: int|
        {
            &&& #[trigger] word_and_space(s, big, from, end, to)
            &&& end == from ==> is_space(s[from])
            &&& end == to && end < s.len() ==> !alike(s[from], s[end], big)
        }
}

/// `to` is where the word before `from` starts: behind it are the word and then only
/// white space up to `from`. Without a word before it is the start of the text.
pub open spec fn starts_word_before(s: Seq<char>, big: bool, from: int, to: int) -> bool {
    &&& 0 <= to <= from
    &&& exists|end: int|
        {
            &&& #[trigger] word_and_space(s, big, to, end, from)
            &&& end == to ==> to == 0
            &&& end > to && to > 0 ==> !alike(s[to - 1], s[to], big)
        }
}

/// The line that `pos` stands in goes from `a` up to `b`.
pub open spec fn is_line(s: Seq<char>, pos: int, a: int, b: int) -> bool {
    &&& 0 <= a <= pos <= b <= s.len()
    &&& a == 0 || s[a - 1] == '\n'
    &&& b == s.len() || s[b] == '\n'
    &&& forall|i: int| a <= i < b ==> #[trigger] s[i] != '\n'
}

/// A text with its cursor and no paste blocks.
pub open spec fn is_bare(v: EditorView) -> bool {
    v.wf() && v.blocks().len() == 0
}

proof fn lemma_line(s: Seq<char>, pos: int)
    requires
        0 <= pos <= s.len(),
    ensures
        is_line(s, pos, line_start(s, pos), line_end(s, pos)),
{
    lemma_find_from(s, '\n', pos);
    lemma_rfind_before(s, '\n', pos);
}

proof fn lemma_classes(s: Seq<char>, big: bool, a: int, b: int)
    requires
        0 <= a < s.len(),
        0 <= b < s.len(),
    ensures
        (classes_of(s, big)[a] == CharClass::Space) == is_space(s[a]),
        classes_of(s, big)[a] != CharClass::Space && classes_of(s, big)[b] != CharClass::Space ==> (
        classes_of(s, big)[a] == classes_of(s, big)[b]) == alike(s[a], s[b], big),
{
}

proof fn lemma_skip(k: Seq<CharClass>, class: CharClass, from: int)
    requires
        0 <= from <= k.len(),
    ensures
        from <= skip_class(k, class, from) <= k.len(),
        skip_class(k, class, from) < k.len() ==> k[skip_class(k, class, from)] != class,
        forall|i: int| from <= i < skip_class(k, class, from) ==> #[trigger] k[i] == class,
    decreases k.len() - from,
{
    if from < k.len() && k[from] == class {
        lemma_skip(k, class, from + 1);
    }
}

proof fn lemma_rskip(k: Seq<CharClass>, class: CharClass, to: int)
    requires
        0 <= to <= k.len(),
    ensures
        0 <= rskip_class(k, class, to) <= to,
        rskip_class(k, class, to) > 0 ==> k[rskip_class(k, class, to) - 1] != class,
        forall|i: int| rskip_class(k, class, to) <= i < to ==> #[trigger] k[i] == class,
    decreases to,
{
    if to > 0 && k[to - 1] == class {
        lemma_rskip(k, class, to - 1);
    }
}

/// The forward word motion lands where the next word starts.
pub proof fn forward_lands_on_the_next_word(s: Seq<char>, big: bool, pos: int)
    requires
        0 <= pos <= s.len(),
    ensures
        starts_next_word(s, big, pos, motion_target(s, pos, Motion::WordForward(big))),
{
    let k = classes_of(s, big);
    if pos < s.len() {
        let end = if k[pos] == CharClass::Space {
            pos
        } else {
            skip_class(k, k[pos], pos)
        };
        lemma_skip(k, k[pos], pos);
        lemma_skip(k, CharClass::Space, end);
        let to = skip_class(k, CharClass::Space, end);
        assert forall|i: int| pos <= i < end implies alike(s[pos], #[trigger] s[i], big) by {
            lemma_classes(s, big, pos, i);
            lemma_classes(s, big, i, pos);
            assert(k[i] == k[pos]);
        }
        assert forall|i: int| end <= i < to implies is_space(#[trigger] s[i]) by {
            assert(k[i] == CharClass::Space);
        }
        assert(word_and_space(s, big, pos, end, to));
        if to < s.len() {
            lemma_classes(s, big, to, pos);
        }
        if end < s.len() {
            lemma_classes(s, big, pos, end);
            lemma_classes(s, big, end, pos);
        }
    }
}

/// The backward word motion lands where the word before starts.
pub proof fn backward_lands_on_the_word_before(s: Seq<char>, big: bool, pos: int)
    requires
        0 <= pos <= s.len(),
    ensures
        starts_word_before(s, big, pos, motion_target(s, pos, Motion::WordBackward(big))),
{
    let k = classes_of(s, big);
    lemma_rskip(k, CharClass::Space, pos);
    let end = rskip_class(k, CharClass::Space, pos);
    assert forall|i: int| end <= i < pos implies is_space(#[trigger] s[i]) by {
        assert(k[i] == CharClass::Space);
    }
    if end > 0 {
        lemma_rskip(k, k[end - 1], end);
        let to = rskip_class(k, k[end - 1], end);
        if to == end {
            assert(k[end - 1] != k[end - 1]);
        }
        assert(k[to] == k[end - 1]);
        assert forall|i: int| to <= i < end implies alike(s[to], #[trigger] s[i], big) by {
            lemma_classes(s, big, to, i);
            lemma_classes(s, big, i, to);
            assert(k[i] == k[end - 1]);
        }
        assert(word_and_space(s, big, to, end, pos));
        if to > 0 {
            lemma_classes(s, big, to - 1, to);
            lemma_classes(s, big, to, to - 1);
        }
    } else {
        assert(word_and_space(s, big, 0, 0, pos));
    }
}

// ---- Deleting -------------------------------------------------------------

/// What is left of a bare editor when `d` or `c` was followed by a key: the text
/// before `lo` and the text from `hi` on, the cursor between them.
pub open spec fn cut_out(v: EditorView, after: EditorView, lo: int, hi: int, op: Operator) -> bool {
    &&& after.composer.text == v.composer.text.take(lo) + v.composer.text.skip(hi)
    &&& after.composer.pos == lo
    &&& after.composer.vim_mode == (if op is Change {
        VimMode::Insert
    } else {
        VimMode::Normal
    })
    &&& after.composer.vim_enabled == v.composer.vim_enabled
    &&& after.queue == v.queue
    &&& after.prompt_history == v.prompt_history
}

proof fn lemma_bare_cut(v: EditorView, lo: int, hi: int)
    requires
        is_bare(v),
        0 <= lo <= hi <= v.composer.text.len(),
        v.composer.pos == lo || v.composer.pos == hi,
    ensures
        v.removed(lo, hi).composer == (ComposerView {
            text: v.composer.text.take(lo) + v.composer.text.skip(hi),
            pos: lo,
            ..v.composer
        }),
        v.removed(lo, hi).blocks().len() == 0,
{
    assert(v.removed(lo, hi).composer.text =~= v.composer.text.take(lo) + v.composer.text.skip(hi));
    assert(after_remove(v.blocks(), lo, hi).len() == 0);
}

/// `d` and `c` with a word motion: forward they remove from the cursor up to the next
/// word, and the text before the cursor stays; backward they remove from the word
/// before up to the cursor, and the text from the cursor on stays.
pub proof fn operators_take_words(
    v: EditorView,
    op: Operator,
    key: KeyEvent,
    suggestions: Seq<SuggestionView>,
    n: int,
)
    requires
        is_bare(v),
        v.composer.vim_enabled,
        v.composer.vim_mode == VimMode::Operator(op),
    ensures
        ({
            let after = v.pressed(key, suggestions, n).0;
            let s = v.composer.text;
            let pos = v.composer.pos;
            &&& key.code == KeyCode::Char('w') ==> exists|to: int|
                starts_next_word(s, false, pos, to) && #[trigger] cut_out(v, after, pos, to, op)
            &&& key.code == KeyCode::Char('W') ==> exists|to: int|
                starts_next_word(s, true, pos, to) && #[trigger] cut_out(v, after, pos, to, op)
            &&& key.code == KeyCode::Char('b') ==> exists|to: int|
                starts_word_before(s, false, pos, to) && #[trigger] cut_out(v, after, to, pos, op)
            &&& key.code == KeyCode::Char('B') ==> exists|to: int|
                starts_word_before(s, true, pos, to) && #[trigger] cut_out(v, after, to, pos, op)
        }),
{
    reveal(EditorView::pressed);
    let s = v.composer.text;
    let pos = v.composer.pos;
    let r = v.with_pending_g(false);
    let after = v.pressed(key, suggestions, n).0;
    let f = motion_target(s, pos, Motion::WordForward(false));
    let ff = motion_target(s, pos, Motion::WordForward(true));
    let b = motion_target(s, pos, Motion::WordBackward(false));
    let bb = motion_target(s, pos, Motion::WordBackward(true));
    forward_lands_on_the_next_word(s, false, pos);
    forward_lands_on_the_next_word(s, true, pos);
    backward_lands_on_the_word_before(s, false, pos);
    backward_lands_on_the_word_before(s, true, pos);
    lemma_bare_cut(r, pos, f);
    lemma_bare_cut(r, pos, ff);
    lemma_bare_cut(r, b, pos);
    lemma_bare_cut(r, bb, pos);
    if key.code == KeyCode::Char('w') {
        assert(cut_out(v, after, pos, f, op));
    }
    if key.code == KeyCode::Char('W') {
        assert(cut_out(v, after, pos, ff, op));
    }
    if key.code == KeyCode::Char('b') {
        assert(cut_out(v, after, b, pos, op));
    }
    if key.code == KeyCode::Char('B') {
        assert(cut_out(v, after, bb, pos, op));
    }
}

/// `d` and `c` with a motion over the line or the text: `$` takes the rest of the
/// line, `0` what stands before the cursor in it, `G` the rest of the text, and `gg`
/// all before the cursor.
pub proof fn operators_take_lines_and_ends(
    v: EditorView,
    op: Operator,
    key: KeyEvent,
    suggestions: Seq<SuggestionView>,
    n: int,
    a: int,
    b: int,
)
    requires
        is_bare(v),
        v.composer.vim_enabled,
        v.composer.vim_mode == VimMode::Operator(op),
        is_line(v.composer.text, v.composer.pos, a, b),
    ensures
        ({
            let after = v.pressed(key, suggestions, n).0;
            let pos = v.composer.pos;
            &&& key.code == KeyCode::Char('$') ==> cut_out(v, after, pos, b, op)
            &&& key.code == KeyCode::Char('0') ==> cut_out(v, after, a, pos, op)
            &&& key.code == KeyCode::Char('G') ==> cut_out(
                v,
                after,
                pos,
                v.composer.text.len() as int,
                op,
            )
            &&& key.code == KeyCode::Char('g') && v.composer.pending_g ==> cut_out(
                v,
                after,
                0,
                pos,
                op,
            )
            &&& key.code == KeyCode::Char('g') && !v.composer.pending_g ==> after == (EditorView {
                composer: ComposerView { pending_g: true, ..v.composer },
                ..v
            })
        }),
{
    reveal(EditorView::pressed);
    let s = v.composer.text;
    let pos = v.composer.pos;
    let r = v.with_pending_g(false);
    lemma_line_is(s, pos, a, b);
    lemma_bare_cut(r, pos, b);
    lemma_bare_cut(r, a, pos);
    lemma_bare_cut(r, pos, s.len() as int);
    lemma_bare_cut(r, 0, pos);
    lemma_bare_cut(v, 0, pos);
}

/// The line at a position is the only one there.
proof fn lemma_line_is(s: Seq<char>, pos: int, a: int, b: int)
    requires
        is_line(s, pos, a, b),
    ensures
        a == line_start(s, pos),
        b == line_end(s, pos),
{
    lemma_line(s, pos);
    let x = line_start(s, pos);
    let y = line_end(s, pos);
    if x < a {
        assert(s[a - 1] != '\n');
    }
    if a < x {
        assert(s[x - 1] != '\n');
    }
    if b < y {
        assert(s[b] != '\n');
    }
    if y < b {
        assert(s[y] != '\n');
    }
}

/// The doubled operator: `dd` removes the line with one newline, and `cc` empties it
/// and leaves the others alone.
pub proof fn doubled_operators_take_the_line(
    v: EditorView,
    op: Operator,
    key: KeyEvent,
    suggestions: Seq<SuggestionView>,
    n: int,
    a: int,
    b: int,
)
    requires
        is_bare(v),
        v.composer.vim_enabled,
        v.composer.vim_mode == VimMode::Operator(op),
        is_line(v.composer.text, v.composer.pos, a, b),
    ensures
        ({
            let after = v.pressed(key, suggestions, n).0;
            let s = v.composer.text;
            &&& key.code == KeyCode::Char('c') && op is Change ==> cut_out(v, after, a, b, op)
            &&& key.code == KeyCode::Char('d') && op is Delete ==> {
                &&& after.composer.vim_mode is Normal
                &&& after.composer.text == (if b < s.len() {
                    s.take(a) + s.skip(b + 1)
                } else if a > 0 {
                    s.take(a - 1)
                } else {
                    Seq::empty()
                })
                &&& exists|e: int| is_line(after.composer.text, after.composer.pos, after.composer.pos, e)
            }
        }),
{
    reveal(EditorView::pressed);
    let s = v.composer.text;
    let pos = v.composer.pos;
    let r = v.with_pending_g(false);
    lemma_line_is(s, pos, a, b);
    lemma_line(s, a);
    lemma_line_is(s, a, a, b);
    let at_start = r.moved(a);
    lemma_bare_cut(at_start, a, b);
    let (from, to) = line_deletion(s, pos);
    let cut = r.removed(from, to);
    assert(cut.composer.text =~= s.take(from) + s.skip(to));
    assert(cut.composer.pos == from || from == to);
    if key.code == KeyCode::Char('d') && op is Delete {
        if from == to {
            assert(s =~= Seq::<char>::empty());
        }
        let after = v.pressed(key, suggestions, n).0;
        let t = after.composer.text;
        if b == s.len() && a > 0 {
            assert(t =~= s.take(a - 1));
        } else if b == s.len() {
            assert(t =~= Seq::<char>::empty());
        } else {
            assert(t =~= s.take(a) + s.skip(b + 1));
        }
        lemma_line(t, cut.composer.pos);
        let x = line_start(t, cut.composer.pos);
        lemma_line_is(t, x, x, line_end(t, cut.composer.pos));
        assert(is_line(t, after.composer.pos, after.composer.pos, line_end(t, cut.composer.pos)));
    }
}

/// Any other key, and Esc, gives up an operator and changes nothing.
pub proof fn other_keys_give_up_an_operator(
    v: EditorView,
    op: Operator,
    key: KeyEvent,
    suggestions: Seq<SuggestionView>,
    n: int,
)
    requires
        v.composer.vim_enabled,
        v.composer.vim_mode == VimMode::Operator(op),
        key.code is Esc || (key.code != KeyCode::Char('g') && key.code != KeyCode::Char('w')
            && key.code != KeyCode::Char('W') && key.code != KeyCode::Char('b') && key.code
            != KeyCode::Char('B') && key.code != KeyCode::Char('$') && key.code != KeyCode::Char(
            '0',
        ) && key.code != KeyCode::Char('G') && !(key.code == KeyCode::Char('d') && op is Delete)
            && !(key.code == KeyCode::Char('c') && op is Change)),
    ensures
        v.pressed(key, suggestions, n) == (
            EditorView {
                composer: ComposerView {
                    vim_mode: VimMode::Normal,
                    pending_g: false,
                    ..v.composer
                },
                ..v
            },
            EditorActionView::Done,
        ),
{
    reveal(EditorView::pressed);
}

// ---- Normal mode ----------------------------------------------------------

/// The same editor with the cursor elsewhere and no key pending.
pub open spec fn only_moved(v: EditorView, after: EditorView, pos: int) -> bool {
    after == (EditorView {
        composer: ComposerView { pos, pending_g: false, pending_find: None, ..v.composer },
        ..v
    })
}

/// The motions of Normal mode leave the text alone: `w` and `W` go to the next word,
/// `b` and `B` to the word before, `h` and `l` one character to the left and to the
/// right, `0` and `$` to the ends of the line, `gg` to the start of the text and `G` to
/// the start of its last line.
pub proof fn motions_only_move(
    v: EditorView,
    key: KeyEvent,
    suggestions: Seq<SuggestionView>,
    n: int,
    a: int,
    b: int,
)
    requires
        is_bare(v),
        v.composer.vim_enabled,
        v.composer.vim_mode is Normal,
        v.composer.pending_find is None,
        is_line(v.composer.text, v.composer.pos, a, b),
    ensures
        ({
            let after = v.pressed(key, suggestions, n).0;
            let s = v.composer.text;
            let pos = v.composer.pos;
            &&& key.code == KeyCode::Char('w') ==> starts_next_word(
                s,
                false,
                pos,
                after.composer.pos,
            ) && only_moved(v, after, after.composer.pos)
            &&& key.code == KeyCode::Char('W') ==> starts_next_word(
                s,
                true,
                pos,
                after.composer.pos,
            ) && only_moved(v, after, after.composer.pos)
            &&& key.code == KeyCode::Char('b') ==> starts_word_before(
                s,
                false,
                pos,
                after.composer.pos,
            ) && only_moved(v, after, after.composer.pos)
            &&& key.code == KeyCode::Char('B') ==> starts_word_before(
                s,
                true,
                pos,
                after.composer.pos,
            ) && only_moved(v, after, after.composer.pos)
            &&& key.code == KeyCode::Char('h') ==> only_moved(
                v,
                after,
                if pos > 0 {
                    pos - 1
                } else {
                    0
                },
            )
            &&& key.code == KeyCode::Char('l') ==> only_moved(
                v,
                after,
                if pos < s.len() {
                    pos + 1
                } else {
                    pos
                },
            )
            &&& key.code == KeyCode::Char('0') ==> only_moved(v, after, a)
            &&& key.code == KeyCode::Char('$') ==> only_moved(v, after, b)
            &&& key.code == KeyCode::Char('g') && v.composer.pending_g ==> only_moved(v, after, 0)
            &&& key.code == KeyCode::Char('G') ==> only_moved(v, after, after.composer.pos)
                && is_line(s, s.len() as int, after.composer.pos, s.len() as int)
        }),
{
    reveal(EditorView::pressed);
    let s = v.composer.text;
    let pos = v.composer.pos;
    lemma_line_is(s, pos, a, b);
    lemma_line(s, s.len() as int);
    lemma_find_from(s, '\n', s.len() as int);
    forward_lands_on_the_next_word(s, false, pos);
    forward_lands_on_the_next_word(s, true, pos);
    backward_lands_on_the_word_before(s, false, pos);
    backward_lands_on_the_word_before(s, true, pos);
    assert(block_before(v.blocks(), pos) == -1);
    assert(block_after(v.blocks(), pos) == -1);
}

/// A first `g` waits for a second one.
pub proof fn g_waits(v: EditorView, key: KeyEvent, suggestions: Seq<SuggestionView>, n: int)
    requires
        v.composer.vim_enabled,
        v.composer.vim_mode is Normal,
        v.composer.pending_find is None,
        !v.composer.pending_g,
        key.code == KeyCode::Char('g'),
    ensures
        v.pressed(key, suggestions, n).0.composer == (ComposerView {
            pending_g: true,
            ..v.composer
        }),
{
    reveal(EditorView::pressed);
}

/// The keys that enter Insert mode: `i` stays, `a` goes one to the right, `I` and `A`
/// go to the ends of the line, and `o` and `O` open an empty line below or above it.
pub proof fn insert_mode_starts_where_asked(
    v: EditorView,
    key: KeyEvent,
    suggestions: Seq<SuggestionView>,
    n: int,
    a: int,
    b: int,
)
    requires
        is_bare(v),
        v.composer.vim_enabled,
        v.composer.vim_mode is Normal,
        v.composer.pending_find is None,
        is_line(v.composer.text, v.composer.pos, a, b),
    ensures
        ({
            let c = v.pressed(key, suggestions, n).0.composer;
            let s = v.composer.text;
            let pos = v.composer.pos;
            let same = c.text == s && c.vim_mode is Insert;
            &&& key.code == KeyCode::Char('i') ==> same && c.pos == pos
            &&& key.code == KeyCode::Char('I') ==> same && c.pos == a
            &&& key.code == KeyCode::Char('A') ==> same && c.pos == b
            &&& key.code == KeyCode::Char('a') ==> same && c.pos == (if pos < s.len() {
                pos + 1
            } else {
                pos
            })
            &&& key.code == KeyCode::Char('o') ==> c.vim_mode is Insert && c.text == s.take(b).push(
                '\n',
            ) + s.skip(b) && c.pos == b + 1
            &&& key.code == KeyCode::Char('O') ==> c.vim_mode is Insert && c.text == s.take(a).push(
                '\n',
            ) + s.skip(a) && c.pos == a
        }),
{
    reveal(EditorView::pressed);
    let s = v.composer.text;
    let pos = v.composer.pos;
    lemma_line_is(s, pos, a, b);
    assert(block_after(v.blocks(), pos) == -1);
    assert(with_inserted(s, b, seq!['\n']) =~= s.take(b).push('\n') + s.skip(b));
    assert(with_inserted(s, a, seq!['\n']) =~= s.take(a).push('\n') + s.skip(a));
}

/// The keys of Normal mode that delete: `x` takes the character at the cursor, `D` and
/// `C` the rest of the line, `C` going on in Insert mode; `d` and `c` wait for a motion.
pub proof fn normal_mode_deletes(
    v: EditorView,
    key: KeyEvent,
    suggestions: Seq<SuggestionView>,
    n: int,
    a: int,
    b: int,
)
    requires
        is_bare(v),
        v.composer.vim_enabled,
        v.composer.vim_mode is Normal,
        v.composer.pending_find is None,
        is_line(v.composer.text, v.composer.pos, a, b),
    ensures
        ({
            let c = v.pressed(key, suggestions, n).0.composer;
            let s = v.composer.text;
            let pos = v.composer.pos;
            &&& key.code == KeyCode::Char('x') ==> c.pos == pos && c.vim_mode is Normal && c.text
                == (if pos < s.len() {
                s.take(pos) + s.skip(pos + 1)
            } else {
                s
            })
            &&& key.code == KeyCode::Char('D') || key.code == KeyCode::Char('C') ==> c.pos == pos
                && c.text == s.take(pos) + s.skip(b)
            &&& key.code == KeyCode::Char('D') ==> c.vim_mode is Normal
            &&& key.code == KeyCode::Char('C') ==> c.vim_mode is Insert
            &&& key.code == KeyCode::Char('d') ==> c.text == s && c.pos == pos && c.vim_mode
                == VimMode::Operator(Operator::Delete)
            &&& key.code == KeyCode::Char('c') ==> c.text == s && c.pos == pos && c.vim_mode
                == VimMode::Operator(Operator::Change)
        }),
{
    reveal(EditorView::pressed);
    let s = v.composer.text;
    let pos = v.composer.pos;
    let r = v.with_pending_g(false).with_pending_find(None);
    lemma_line_is(s, pos, a, b);
    assert(block_after(v.blocks(), pos) == -1);
    lemma_bare_cut(r, pos, b);
    if pos < s.len() {
        lemma_bare_cut(r, pos, pos + 1);
    }
}

/// `f` and `F` wait for a character, and then go to its next place on the line to the
/// right or to the left of the cursor, or nowhere when there is none.
pub proof fn searches_stay_on_the_line(
    v: EditorView,
    key: KeyEvent,
    c: char,
    suggestions: Seq<SuggestionView>,
    n: int,
    a: int,
    b: int,
)
    requires
        v.wf(),
        v.composer.vim_enabled,
        v.composer.vim_mode is Normal,
        is_line(v.composer.text, v.composer.pos, a, b),
        key.code == KeyCode::Char(c),
        c != '\n',
    ensures
        ({
            let after = v.pressed(key, suggestions, n).0.composer;
            let s = v.composer.text;
            let pos = v.composer.pos;
            let to = after.pos;
            &&& v.composer.pending_find is None && c == 'f' ==> after.pending_find == Some(true)
                && after.text == s && to == pos
            &&& v.composer.pending_find is None && c == 'F' ==> after.pending_find == Some(false)
                && after.text == s && to == pos
            &&& v.composer.pending_find is Some ==> after.pending_find is None && after.text == s
            &&& v.composer.pending_find == Some(true) ==> {
                ||| pos < to < b && s[to] == c && forall|i: int| pos < i < to ==> s[i] != c
                ||| to == pos && forall|i: int| pos < i < b ==> s[i] != c
            }
            &&& v.composer.pending_find == Some(false) ==> {
                ||| a <= to < pos && s[to] == c && forall|i: int| to < i < pos ==> s[i] != c
                ||| to == pos && forall|i: int| a <= i < pos ==> s[i] != c
            }
        }),
{
    reveal(EditorView::pressed);
    let s = v.composer.text;
    let pos = v.composer.pos;
    lemma_line_is(s, pos, a, b);
    if pos < s.len() {
        lemma_find_from(s, c, pos + 1);
    }
    lemma_rfind_before(s, c, pos);
}

// ---- Insert mode ----------------------------------------------------------

/// Insert mode, or editing without vim, with no popup that takes keys.
pub open spec fn types(v: EditorView) -> bool {
    &&& is_bare(v)
    &&& !v.composer.vim_enabled || v.composer.vim_mode is Insert
}

/// A typed character stands at the cursor, which moves behind it; nothing else of the
/// text changes. Enter with Shift or Alt, and Ctrl+J, type a newline. Enter alone
/// submits and changes nothing, unless a suggestion is taken.
pub proof fn typing_inserts_at_the_cursor(
    v: EditorView,
    key: KeyEvent,
    c: char,
    suggestions: Seq<SuggestionView>,
    n: int,
)
    requires
        types(v),
    ensures
        ({
            let (after, action) = v.pressed(key, suggestions, n);
            let s = v.composer.text;
            let pos = v.composer.pos;
            let newline = after.composer.text == s.take(pos).push('\n') + s.skip(pos)
                && after.composer.pos == pos + 1 && action is Done;
            &&& key.code == KeyCode::Char(c) && !key.ctrl ==> after.composer.text == s.take(
                pos,
            ).push(c) + s.skip(pos) && after.composer.pos == pos + 1 && action is Done
            &&& key.code == KeyCode::Char('j') && key.ctrl ==> newline
            &&& key.code == KeyCode::Char(c) && key.ctrl && c != 'j' ==> after == v
            &&& key.code is Enter && (key.shift || key.alt) && suggestions.len() == 0 ==> newline
            &&& key.code is Enter && !key.shift && !key.alt && suggestions.len() == 0 ==> after == v
                && action is Submit
        }),
{
    reveal(EditorView::pressed);
    let s = v.composer.text;
    let pos = v.composer.pos;
    assert(with_inserted(s, pos, seq![c]) =~= s.take(pos).push(c) + s.skip(pos));
    assert(with_inserted(s, pos, seq!['\n']) =~= s.take(pos).push('\n') + s.skip(pos));
}

/// Backspace takes the character before the cursor and Delete the one at it, unless a
/// completed tag goes whole; the arrows go one character to each side, and Home and End
/// to the ends of the line. Esc leads to Normal mode.
pub proof fn editing_keys_act_at_the_cursor(
    v: EditorView,
    key: KeyEvent,
    suggestions: Seq<SuggestionView>,
    n: int,
    a: int,
    b: int,
)
    requires
        types(v),
        is_line(v.composer.text, v.composer.pos, a, b),
    ensures
        ({
            let c = v.pressed(key, suggestions, n).0.composer;
            let s = v.composer.text;
            let pos = v.composer.pos;
            &&& key.code is Backspace && (v.at_popup_active() || v.tag_left() is None) ==> if pos
                > 0 {
                c.text == s.take(pos - 1) + s.skip(pos) && c.pos == pos - 1
            } else {
                c.text == s && c.pos == 0
            }
            &&& key.code is Delete && (v.at_popup_active() || v.tag_right() is None) ==> c.pos
                == pos && c.text == (if pos < s.len() {
                s.take(pos) + s.skip(pos + 1)
            } else {
                s
            })
            &&& key.code is Left ==> c.text == s && c.pos == (if pos > 0 {
                pos - 1
            } else {
                0
            })
            &&& key.code is Right ==> c.text == s && c.pos == (if pos < s.len() {
                pos + 1
            } else {
                pos
            })
            &&& key.code is Home ==> c.text == s && c.pos == a
            &&& key.code is End ==> c.text == s && c.pos == b
            &&& key.code is Esc && v.composer.vim_enabled && !v.at_popup_active()
                && v.slash_query() is None ==> c.text == s && c.pos == pos && c.vim_mode is Normal
            &&& key.code is Esc && !v.at_popup_active() && v.slash_query() is Some ==> c.text.len()
                == 0
        }),
{
    reveal(EditorView::pressed);
    let s = v.composer.text;
    let pos = v.composer.pos;
    lemma_line_is(s, pos, a, b);
    assert(block_before(v.blocks(), pos) == -1);
    assert(block_after(v.blocks(), pos) == -1);
    if pos > 0 {
        lemma_bare_cut(v, pos - 1, pos);
    }
    if pos < s.len() {
        lemma_bare_cut(v, pos, pos + 1);
    }
}

/// A completed tag goes whole: Backspace behind it and Delete before it remove all of
/// it and nothing else.
pub proof fn tags_go_whole(v: EditorView, key: KeyEvent, suggestions: Seq<SuggestionView>, n: int)
    requires
        types(v),
        !v.at_popup_active(),
    ensures
        ({
            let c = v.pressed(key, suggestions, n).0.composer;
            let s = v.composer.text;
            let pos = v.composer.pos;
            &&& key.code is Backspace && v.tag_left() is Some ==> exists|at: int|
                {
                    &&& 0 <= at < pos
                    &&& s[at] == '@'
                    &&& at == 0 || is_space(s[at - 1])
                    &&& pos == s.len() || is_space(s[pos])
                    &&& c.text == #[trigger] s.take(at) + s.skip(pos)
                    &&& c.pos == at
                }
            &&& key.code is Delete && v.tag_right() is Some ==> exists|end: int|
                {
                    &&& pos < end <= s.len()
                    &&& s[pos] == '@'
                    &&& pos == 0 || is_space(s[pos - 1])
                    &&& c.text == s.take(pos) + #[trigger] s.skip(end)
                    &&& c.pos == pos
                }
        }),
{
    reveal(EditorView::pressed);
    let s = v.composer.text;
    let pos = v.composer.pos;
    assert(block_before(v.blocks(), pos) == -1);
    assert(block_after(v.blocks(), pos) == -1);
    tag_before_is_a_tag(s, pos, v.accepted_tags);
    tag_after_is_a_tag(s, pos, v.accepted_tags);
    if v.tag_left() is Some {
        let (x, y) = v.tag_left()->0;
        lemma_bare_cut(v, x, y);
        assert(v.removed(x, y).composer.text == s.take(x) + s.skip(pos));
    }
    if v.tag_right() is Some {
        let (x, y) = v.tag_right()->0;
        lemma_bare_cut(v, x, y);
        assert(v.removed(x, y).composer.text == s.take(pos) + s.skip(y));
    }
}

// ---- Up and Down ----------------------------------------------------------

/// `to` stands on the line above the one from `a`, in the same column or at its end.
pub open spec fn is_above(s: Seq<char>, pos: int, a: int, to: int) -> bool {
    exists|c: int|
        #[trigger] is_line(s, to, c, a - 1) && to - c == (if pos - a <= a - 1 - c {
            pos - a
        } else {
            a - 1 - c
        })
}

/// `to` stands on the line below the one that ends at `b`, in the same column or at its
/// end.
pub open spec fn is_below(s: Seq<char>, pos: int, a: int, b: int, to: int) -> bool {
    exists|d: int|
        #[trigger] is_line(s, to, b + 1, d) && to - (b + 1) == (if pos - a <= d - (b + 1) {
            pos - a
        } else {
            d - (b + 1)
        })
}

/// Up inside a text goes to the line above. On the first line it goes back in the
/// messages that were sent: a queued message comes back into an empty composer, else the
/// message before the one that shows, and the text that was being written is kept.
pub proof fn up_goes_back(
    v: EditorView,
    key: KeyEvent,
    suggestions: Seq<SuggestionView>,
    n: int,
    a: int,
    b: int,
)
    requires
        types(v),
        !v.at_popup_active(),
        v.slash_query() is None,
        is_line(v.composer.text, v.composer.pos, a, b),
        key.code is Up,
    ensures
        ({
            let after = v.pressed(key, suggestions, n).0;
            let k = v.prompt_history_cursor;
            let m = v.prompt_history.len();
            &&& a > 0 ==> after.composer.text == v.composer.text && is_above(
                v.composer.text,
                v.composer.pos,
                a,
                after.composer.pos,
            ) && after.prompt_history_cursor == k
            &&& a == 0 && k == 0 && v.composer.text.len() == 0 && v.queue.len() > 0
                ==> after.composer.text == v.queue[v.queue.len() - 1] && after.queue
                == v.queue.take(v.queue.len() - 1) && after.prompt_history_cursor == 0
            &&& a == 0 && !(k == 0 && v.composer.text.len() == 0 && v.queue.len() > 0) && k < m
                ==> after.composer.text == v.prompt_history[m - 1 - k] && after.composer.pos
                == after.composer.text.len() && after.prompt_history_cursor == k + 1 && after.queue
                == v.queue && (k == 0 ==> after.staged_draft == (if v.composer.text.len() == 0 {
                None
            } else {
                Some(v.composer.text)
            }))
            &&& a == 0 && k > 0 && k == m ==> after == v
            &&& after.prompt_history == v.prompt_history
        }),
{
    reveal(EditorView::pressed);
    let s = v.composer.text;
    let pos = v.composer.pos;
    lemma_line_is(s, pos, a, b);
    if a > 0 {
        let c = line_start(s, a - 1);
        lemma_line(s, a - 1);
        lemma_line_is(s, a - 1, c, line_end(s, a - 1));
        lemma_find_from(s, '\n', a - 1);
        assert(line_end(s, a - 1) == a - 1);
        let to = position_above(s, pos);
        assert(is_line(s, to, c, a - 1));
    }
    assert(v.queue.len() > 0 ==> v.queue.drop_last() =~= v.queue.take(v.queue.len() - 1));
}

/// Down inside a text goes to the line below. On the last line it goes forth in the
/// messages that were sent, and past the newest of them the text comes back that was
/// being written.
pub proof fn down_goes_forth(
    v: EditorView,
    key: KeyEvent,
    suggestions: Seq<SuggestionView>,
    n: int,
    a: int,
    b: int,
)
    requires
        types(v),
        !v.at_popup_active(),
        v.slash_query() is None,
        is_line(v.composer.text, v.composer.pos, a, b),
        key.code is Down,
    ensures
        ({
            let after = v.pressed(key, suggestions, n).0;
            let k = v.prompt_history_cursor;
            let m = v.prompt_history.len();
            let s = v.composer.text;
            &&& b < s.len() ==> after.composer.text == s && is_below(
                s,
                v.composer.pos,
                a,
                b,
                after.composer.pos,
            ) && after.prompt_history_cursor == k
            &&& b == s.len() && k == 0 ==> after == v
            &&& b == s.len() && k == 1 ==> after.prompt_history_cursor == 0 && after.composer.text
                == (match v.staged_draft {
                Some(t) => t,
                None => Seq::empty(),
            }) && after.staged_draft is None
            &&& b == s.len() && k > 1 ==> after.prompt_history_cursor == k - 1
                && after.composer.text == v.prompt_history[m - (k - 1)] && after.staged_draft
                == v.staged_draft
            &&& after.prompt_history == v.prompt_history && after.queue == v.queue
        }),
{
    reveal(EditorView::pressed);
    let s = v.composer.text;
    let pos = v.composer.pos;
    lemma_line_is(s, pos, a, b);
    if b < s.len() {
        let d = line_end(s, b + 1);
        lemma_line(s, b + 1);
        lemma_rfind_before(s, '\n', b + 1);
        assert(line_start(s, b + 1) == b + 1);
        let to = position_below(s, pos);
        assert(is_line(s, to, b + 1, d));
    }
}

// ---- Popups ---------------------------------------------------------------

/// Up and Down in a popup go from row to row, round at the ends, and leave the text
/// alone.
pub proof fn popups_are_walked_through(
    v: EditorView,
    key: KeyEvent,
    suggestions: Seq<SuggestionView>,
    n: int,
)
    requires
        types(v),
        key.code is Up || key.code is Down,
    ensures
        ({
            let after = v.pressed(key, suggestions, n).0;
            let rows = suggestions.len();
            let next = |i: int, len: int|
                if key.code is Down {
                    if i == len - 1 {
                        0
                    } else {
                        i + 1
                    }
                } else {
                    if i == 0 {
                        len - 1
                    } else {
                        i - 1
                    }
                };
            &&& v.at_popup_active() && 0 <= v.at_selected < rows ==> after.at_selected == next(
                v.at_selected,
                rows as int,
            ) && after.composer == v.composer && after.slash_selected == v.slash_selected
            &&& !v.at_popup_active() && v.slash_query() is Some && 0 <= v.slash_selected < n
                ==> after.slash_selected == next(v.slash_selected, n) && after.composer
                == v.composer && after.at_selected == v.at_selected
        }),
{
    reveal(EditorView::pressed);
}

/// The window of a popup follows the highlight, so that the highlighted row shows; one
/// that shows already, with a row above it and one below, leaves the window in place.
pub proof fn popup_windows_follow(
    v: EditorView,
    key: KeyEvent,
    suggestions: Seq<SuggestionView>,
    n: int,
)
    requires
        types(v),
        key.code is Up || key.code is Down,
        0 <= v.at_scroll,
        0 <= v.slash_scroll,
    ensures
        ({
            let after = v.pressed(key, suggestions, n).0;
            let rows = suggestions.len() as int;
            let a = after.at_selected;
            let b = after.slash_selected;
            &&& v.at_popup_active() && 0 <= v.at_selected < rows ==> after.at_scroll <= a
                < after.at_scroll + 6
            &&& v.at_popup_active() && 0 <= v.at_selected < rows && v.at_scroll + 6 <= rows
                && v.at_scroll < a && a + 1 < v.at_scroll + 6 ==> after.at_scroll == v.at_scroll
            &&& !v.at_popup_active() && v.slash_query() is Some && 0 <= v.slash_selected < n
                ==> after.slash_scroll <= b < after.slash_scroll + 6
            &&& !v.at_popup_active() && v.slash_query() is Some && 0 <= v.slash_selected < n
                && v.slash_scroll + 6 <= n && v.slash_scroll < b && b + 1 < v.slash_scroll + 6
                ==> after.slash_scroll == v.slash_scroll
        }),
{
    reveal(EditorView::pressed);
}

/// Esc closes the popup for files and leaves everything else as it is; the token stays
/// closed until it is left.
pub proof fn esc_closes_the_popup(
    v: EditorView,
    key: KeyEvent,
    suggestions: Seq<SuggestionView>,
    n: int,
)
    requires
        types(v),
        v.at_popup_active(),
        key.code is Esc,
    ensures
        ({
            let (after, action) = v.pressed(key, suggestions, n);
            &&& after.at_dismissed && !after.at_popup_active()
            &&& after.composer == v.composer
            &&& after.registry == v.registry
            &&& after.at_selected == 0
            &&& action is Done
        }),
{
    reveal(EditorView::pressed);
}

/// A path that needs quotes is remembered when it is taken, once, and no other is.
pub proof fn quoted_paths_are_remembered_once(
    v: EditorView,
    key: KeyEvent,
    suggestions: Seq<SuggestionView>,
    n: int,
)
    requires
        types(v),
        v.at_popup_active(),
        0 <= v.at_selected < suggestions.len(),
        key.code is Enter,
    ensures
        ({
            let after = v.pressed(key, suggestions, n).0;
            let s = suggestions[v.at_selected];
            after.accepted_tags == if s.needs_quoting && !v.accepted_tags.contains(s.replacement) {
                v.accepted_tags.push(s.replacement)
            } else {
                v.accepted_tags
            }
        }),
{
    reveal(EditorView::pressed);
}

/// What is typed puts the highlight of both menus back to their first row, and opens the
/// popup again once the token was left.
pub proof fn typing_starts_the_menus_anew(
    v: EditorView,
    key: KeyEvent,
    suggestions: Seq<SuggestionView>,
    n: int,
)
    requires
        types(v),
        key.code is Char,
        !key.ctrl,
    ensures
        ({
            let after = v.pressed(key, suggestions, n).0;
            &&& after.at_selected == 0 && after.at_scroll == 0
            &&& after.slash_selected == 0 && after.slash_scroll == 0
            &&& after.at_query() is None ==> !after.at_dismissed
            &&& after.at_query() is Some ==> after.at_dismissed == v.at_dismissed
            &&& after.queue == v.queue && after.prompt_history == v.prompt_history
            &&& after.accepted_tags == v.accepted_tags
        }),
{
    reveal(EditorView::pressed);
}

/// Going further back keeps the text that was being written.
pub proof fn drafts_are_kept_while_going_back(
    v: EditorView,
    key: KeyEvent,
    suggestions: Seq<SuggestionView>,
    n: int,
)
    requires
        types(v),
        !v.at_popup_active(),
        v.slash_query() is None,
        v.prompt_history_cursor > 0,
        key.code is Up,
    ensures
        v.pressed(key, suggestions, n).0.staged_draft == v.staged_draft,
        v.pressed(key, suggestions, n).0.queue == v.queue,
{
    reveal(EditorView::pressed);
}

/// The `@` of the token that the cursor stands in.
pub open spec fn is_token(s: Seq<char>, at: int, pos: int) -> bool {
    &&& 0 <= at < pos <= s.len()
    &&& s[at] == '@'
    &&& at == 0 || is_space(s[at - 1])
    &&& forall|i: int| at < i < pos ==> s[i] != '@' && !is_space(#[trigger] s[i])
}

/// The popup for files is open exactly while the cursor stands in a token that was not
/// dismissed, and it looks for what stands between the `@` and the cursor.
pub proof fn tokens_open_the_popup(v: EditorView)
    requires
        v.wf(),
    ensures
        v.at_popup_active() <==> !v.at_dismissed && exists|at: int|
            is_token(v.composer.text, at, v.composer.pos),
        forall|at: int|
            is_token(v.composer.text, at, v.composer.pos) ==> #[trigger] v.composer.text.subrange(
                at + 1,
                v.composer.pos,
            ) == v.at_query()->0,
{
    let s = v.composer.text;
    let pos = v.composer.pos;
    lemma_rfind_before(s, '@', pos);
    if v.at_query() is Some {
        assert(is_token(s, at_sign(s, pos), pos));
    }
    assert forall|at: int| is_token(s, at, pos) implies at == at_sign(s, pos) && v.at_query() is Some
        && #[trigger] s.subrange(at + 1, pos) == v.at_query()->0 by {
        let r = rfind_before(s, '@', pos);
        if r < at {
            assert(s[at] != '@');
        }
        if r > at {
            assert(s[r] != '@');
        }
    }
}

/// A suggestion taken stands behind the `@` in place of what was typed. Enter, and Tab
/// on a file, put a blank behind it and close the popup; Tab on a directory leaves it
/// open for what is in the directory.
pub proof fn suggestions_replace_the_token(
    v: EditorView,
    key: KeyEvent,
    suggestions: Seq<SuggestionView>,
    n: int,
    at: int,
)
    requires
        types(v),
        v.at_popup_active(),
        is_token(v.composer.text, at, v.composer.pos),
        suggestions.len() > 0,
        0 <= v.at_selected < suggestions.len(),
        key.code is Tab || key.code is Enter,
    ensures
        ({
            let (after, action) = v.pressed(key, suggestions, n);
            let s = v.composer.text;
            let chosen = suggestions[v.at_selected];
            let ends = key.code is Enter || !chosen.is_dir;
            let put = if ends {
                chosen.replacement.push(' ')
            } else {
                chosen.replacement
            };
            &&& after.composer.text == s.take(at + 1) + put + s.skip(v.composer.pos)
            &&& after.composer.pos == at + 1 + put.len()
            &&& ends ==> after.at_dismissed && action == EditorActionView::TagAccepted(
                chosen.replacement,
            )
            &&& !ends ==> !after.at_dismissed && action is Done
            &&& ends && chosen.needs_quoting ==> after.accepted_tags.contains(chosen.replacement)
        }),
{
    reveal(EditorView::pressed);
    tokens_open_the_popup(v);
    let s = v.composer.text;
    let pos = v.composer.pos;
    let chosen = suggestions[v.at_selected];
    lemma_rfind_before(s, '@', pos);
    let r = rfind_before(s, '@', pos);
    if r < at {
        assert(s[at] != '@');
    }
    if r > at {
        assert(s[r] != '@');
    }
    assert(at_sign(s, pos) == at);
    lemma_bare_cut(v, at + 1, pos);
    let cut = v.removed(at + 1, pos);
    let placed = cut.inserted(chosen.replacement);
    let head = s.take(at + 1);
    assert(cut.composer.text == head + s.skip(pos));
    assert(placed.composer.text =~= head + chosen.replacement + s.skip(pos));
    let noted = placed.at_window_reset().tag_noted(chosen);
    assert(noted.blocks().len() == 0);
    assert(noted.inserted(seq![' ']).composer.text =~= head + chosen.replacement.push(' ')
        + s.skip(pos));
    if chosen.needs_quoting {
        if !v.accepted_tags.contains(chosen.replacement) {
            assert(v.accepted_tags.push(chosen.replacement)[v.accepted_tags.len() as int]
                == chosen.replacement);
        }
    }
}

// ---- Pastes ---------------------------------------------------------------

/// A short paste stands at the cursor. A long one shows as one block that tells its
/// number and size, and what is sent is the pasted text in its place.
pub proof fn pastes_are_sent_in_full(
    v: EditorView,
    data: Seq<char>,
    tokens: nat,
    condense: bool,
    vision: bool,
)
    requires
        is_bare(v),
        data.len() > 0,
    ensures
        ({
            let after = v.text_pasted(data, tokens, condense);
            let s = v.composer.text;
            let pos = v.composer.pos;
            let label = "[Pasted text #"@ + decimal(v.registry.next_number) + ", "@ + decimal(tokens)
                + " tokens]"@;
            let shown = if condense {
                label
            } else {
                data
            };
            &&& after.composer.text == s.take(pos) + shown + s.skip(pos)
            &&& after.composer.pos == pos + shown.len()
            &&& wire_text(after.composer.text, after.blocks(), vision) == s.take(pos) + data
                + s.skip(pos)
            &&& wire_images(after.blocks()).len() == 0
        }),
{
    let s = v.composer.text;
    let pos = v.composer.pos;
    let label = text_label(v.registry.next_number, tokens);
    assert(expandable(v.blocks(), pos, data) == -1);
    let after = v.text_pasted(data, tokens, condense);
    if condense {
        let typed = v.inserted(label);
        assert(typed.composer.text =~= s.take(pos) + label + s.skip(pos));
        assert(typed.blocks() =~= Seq::empty());
        let b = BlockView {
            start: pos,
            end: pos + label.len(),
            label,
            content: PasteContentView::Text(data),
        };
        assert(after.blocks() =~= seq![b]);
        assert(seq![b].drop_last() =~= Seq::empty());
        let t = after.composer.text;
        assert(t.subrange(0, pos) =~= s.take(pos));
        assert(t.subrange(b.end, t.len() as int) =~= s.skip(pos));
        assert(wire_text(t.subrange(0, pos), Seq::empty(), vision) == s.take(pos));
        assert(wire_images(Seq::<BlockView>::empty()).len() == 0);
    } else {
        assert(after.composer.text =~= s.take(pos) + data + s.skip(pos));
        assert(after.blocks() =~= Seq::empty());
    }
}

/// An image shows as a block with its number. A model that takes images gets the image
/// and a mark in its place, any other the block and a note.
pub proof fn images_are_sent_or_noted(v: EditorView, png: Seq<u8>, vision: bool)
    requires
        is_bare(v),
    ensures
        ({
            let after = v.image_pasted(png);
            let s = v.composer.text;
            let pos = v.composer.pos;
            let label = "[Pasted image #"@ + decimal(v.registry.next_number) + "]"@;
            &&& after.composer.text == s.take(pos) + label + s.skip(pos)
            &&& after.composer.pos == pos + label.len()
            &&& wire_images(after.blocks()) == seq![png]
            &&& wire_text(after.composer.text, after.blocks(), vision) == s.take(pos) + (if vision {
                seq![IMAGE_MARK]
            } else {
                label + " (image not sent: the model has no image support)"@
            }) + s.skip(pos)
        }),
{
    let s = v.composer.text;
    let pos = v.composer.pos;
    let label = image_label(v.registry.next_number);
    let after = v.image_pasted(png);
    let typed = v.inserted(label);
    assert(typed.composer.text =~= s.take(pos) + label + s.skip(pos));
    assert(typed.blocks() =~= Seq::empty());
    let b = BlockView {
        start: pos,
        end: pos + label.len(),
        label,
        content: PasteContentView::Image(png),
    };
    assert(after.blocks() =~= seq![b]);
    assert(seq![b].drop_last() =~= Seq::empty());
    let t = after.composer.text;
    assert(t.subrange(0, pos) =~= s.take(pos));
    assert(t.subrange(b.end, t.len() as int) =~= s.skip(pos));
    assert(wire_text(t.subrange(0, pos), Seq::empty(), vision) == s.take(pos));
    assert(wire_images(Seq::<BlockView>::empty()) =~= Seq::<Seq<u8>>::empty());
    assert(wire_images(after.blocks()) =~= seq![png]);
}

proof fn lemma_block_edges(text: Seq<char>, blocks: Seq<BlockView>, i: int)
    requires
        synced(text, blocks),
        0 <= i < blocks.len(),
    ensures
        block_before(blocks, blocks[i].end) == blocks[i].start,
        block_after(blocks, blocks[i].start) == blocks[i].end,
    decreases blocks.len(),
{
    let rest = blocks.drop_last();
    assert(blocks[i].stands_in(text));
    assert(blocks.last().stands_in(text)) by {
        assert(blocks[blocks.len() - 1].stands_in(text));
    }
    if i < blocks.len() - 1 {
        assert(blocks[i].end <= blocks[blocks.len() - 1].start);
        assert(synced(text, rest)) by {
            assert forall|j: int| 0 <= j < rest.len() implies (#[trigger] rest[j]).stands_in(
                text,
            ) by {
                assert(blocks[j].stands_in(text));
            }
        }
        lemma_block_edges(text, rest, i);
    }
}

proof fn lemma_snap_at_edges(text: Seq<char>, blocks: Seq<BlockView>, p: int, forward: bool)
    requires
        forall|i: int|
            0 <= i < blocks.len() ==> !((#[trigger] blocks[i]).start < p < blocks[i].end),
    ensures
        snap(blocks, p, forward) == p,
    decreases blocks.len(),
{
    if blocks.len() > 0 {
        assert(!(blocks[blocks.len() - 1].start < p < blocks[blocks.len() - 1].end));
        assert forall|i: int| 0 <= i < blocks.drop_last().len() implies !((
        #[trigger] blocks.drop_last()[i]).start < p < blocks.drop_last()[i].end) by {
            assert(!(blocks[i].start < p < blocks[i].end));
        }
        lemma_snap_at_edges(text, blocks.drop_last(), p, forward);
    }
}

/// A paste block is one step for the arrows, and one stroke for Backspace behind it and
/// for Delete before it.
pub proof fn blocks_are_one_piece(
    v: EditorView,
    key: KeyEvent,
    suggestions: Seq<SuggestionView>,
    n: int,
    i: int,
)
    requires
        v.wf(),
        !v.composer.vim_enabled || v.composer.vim_mode is Insert,
        0 <= i < v.blocks().len(),
    ensures
        ({
            let after = v.pressed(key, suggestions, n).0;
            let b = v.blocks()[i];
            let s = v.composer.text;
            &&& v.composer.pos == b.end && key.code is Left ==> after.composer.pos == b.start
                && after.composer.text == s
            &&& v.composer.pos == b.start && key.code is Right ==> after.composer.pos == b.end
                && after.composer.text == s
            &&& (v.composer.pos == b.end && key.code is Backspace) || (v.composer.pos == b.start
                && key.code is Delete) ==> after.composer.text == s.take(b.start) + s.skip(b.end)
                && after.composer.pos == b.start
        }),
{
    reveal(EditorView::pressed);
    let s = v.composer.text;
    let b = v.blocks()[i];
    assert(b.stands_in(s));
    lemma_block_edges(s, v.blocks(), i);
    assert forall|j: int| 0 <= j < v.blocks().len() implies !((#[trigger] v.blocks()[j]).start
        < b.start < v.blocks()[j].end) && !(v.blocks()[j].start < b.end < v.blocks()[j].end) by {
        if j < i {
            assert(v.blocks()[j].end <= v.blocks()[i].start);
        } else if i < j {
            assert(v.blocks()[i].end <= v.blocks()[j].start);
        }
    }
    lemma_snap_at_edges(s, v.blocks(), b.start, false);
    lemma_snap_at_edges(s, v.blocks(), b.end, true);
    assert(v.removed(b.start, b.end).composer.text =~= s.take(b.start) + s.skip(b.end));
}

/// The same text pasted again right behind its block takes the block's place.
pub proof fn pasting_again_unfolds(v: EditorView, data: Seq<char>, tokens: nat)
    requires
        is_bare(v),
        data.len() > 0,
    ensures
        ({
            let again = v.text_pasted(data, tokens, true).text_pasted(data, tokens, true);
            &&& again.composer.text == v.composer.text.take(v.composer.pos) + data
                + v.composer.text.skip(v.composer.pos)
            &&& again.blocks().len() == 0
        }),
{
    let s = v.composer.text;
    let pos = v.composer.pos;
    pastes_are_sent_in_full(v, data, tokens, true, true);
    let one = v.text_pasted(data, tokens, true);
    let label = text_label(v.registry.next_number, tokens);
    let b = BlockView {
        start: pos,
        end: pos + label.len(),
        label,
        content: PasteContentView::Text(data),
    };
    assert(v.inserted(label).blocks() =~= Seq::empty());
    assert(one.blocks() =~= seq![b]);
    assert(seq![b].drop_last() =~= Seq::empty());
    reveal_with_fuel(expandable, 2);
    reveal_with_fuel(snap, 2);
    reveal_with_fuel(after_remove, 2);
    assert(expandable(one.blocks(), one.composer.pos, data) == pos);
    let cut = one.removed(pos, one.composer.pos);
    reveal_strlit("[Pasted text #");
    assert(label.len() > 0);
    assert(cut.composer.text =~= s.take(pos) + s.skip(pos));
    assert(cut.blocks() =~= Seq::empty());
    let again = one.text_pasted(data, tokens, true);
    assert(again.composer.text =~= s.take(pos) + data + s.skip(pos));
}

} // verus!
