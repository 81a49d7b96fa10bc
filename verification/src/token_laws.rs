//! How words, tokens and tags are told apart.

use vstd::prelude::*;
use crate::composer::{CharClass, ComposerView, at_partial, at_sign, class_of};
use crate::editor::slash_query_of;
use crate::editor_laws::is_token;
use crate::paste::{image_label, image_note, text_label};
use crate::tag::{longest_path_ending, longest_path_starting, path_tag_ends, path_tag_starts, tag_after, tag_before};
use crate::text::{decimal, find_from, is_space, lemma_find_from, lemma_rfind_before, lemma_space_from, rfind_before, space_from};
use crate::text_laws::printed_characters_are_no_space;

verus! {

/// Of ASCII, words are made of letters, digits and the underscore; all other printed
/// characters are punctuation, and for big words nothing but white space parts them.
pub proof fn words_are_made_of_letters(c: char)
    ensures
        'a' <= c && c <= 'z' || 'A' <= c && c <= 'Z' || '0' <= c && c <= '9' || c == '_'
            ==> class_of(c, false) == CharClass::Word,
        '!' <= c && c <= '~' && !('a' <= c && c <= 'z' || 'A' <= c && c <= 'Z' || '0' <= c && c
            <= '9' || c == '_') ==> class_of(c, false) == CharClass::Punctuation,
        '!' <= c && c <= '~' ==> class_of(c, true) == CharClass::Word,
        c == ' ' || c == '\t' || c == '\n' ==> class_of(c, false) == CharClass::Space && class_of(
            c,
            true,
        ) == CharClass::Space,
{
    printed_characters_are_no_space(c);
}

/// Replacing the token at the cursor keeps its `@` and all text around it, and puts the
/// cursor behind what was put in.
pub proof fn tokens_are_replaced(c: ComposerView, at: int, t: Seq<char>)
    requires
        is_token(c.text, at, c.pos),
    ensures
        c.at_token_replaced(t).text == c.text.take(at + 1) + t + c.text.skip(c.pos),
        c.at_token_replaced(t).pos == at + 1 + t.len(),
{
    let s = c.text;
    lemma_rfind_before(s, '@', c.pos);
    let r = rfind_before(s, '@', c.pos);
    if r < at {
        assert(s[at] != '@');
    }
    if r > at {
        assert(s[r] != '@');
    }
    assert(at_sign(s, c.pos) == at);
    assert(at_partial(s, c.pos) is Some);
    assert(s.subrange(0, at + 1) =~= s.take(at + 1));
    assert(s.subrange(c.pos, s.len() as int) =~= s.skip(c.pos));
}

/// A text that begins with a slash asks for the command up to the first white space; no
/// other text does.
pub proof fn slashes_ask_for_commands(w: Seq<char>, rest: Seq<char>)
    requires
        forall|i: int| 0 <= i < w.len() ==> !is_space(#[trigger] w[i]),
        rest.len() > 0 ==> is_space(rest[0]),
    ensures
        slash_query_of(seq!['/'] + w + rest) == Some(w),
        rest.len() > 0 && rest[0] != '/' ==> slash_query_of(rest) is None,
        slash_query_of(Seq::empty()) is None,
{
    let s = seq!['/'] + w + rest;
    lemma_space_from(s, 1);
    let e = space_from(s, 1);
    let n = 1 + w.len() as int;
    if e < n {
        assert(s[e] == w[e - 1]);
    }
    if rest.len() > 0 {
        assert(s[n] == rest[0]);
    }
    assert(e == n);
    assert(s.subrange(1, n) =~= w);
}

/// The labels of what was pasted tell its number, and of a text how many tokens it has;
/// what stands for an image that is not sent says so.
pub proof fn pastes_are_labelled(number: nat, tokens: nat, label: Seq<char>)
    ensures
        text_label(number, tokens) == "[Pasted text #"@ + decimal(number) + ", "@ + decimal(tokens)
            + " tokens]"@,
        image_label(number) == "[Pasted image #"@ + decimal(number) + "]"@,
        image_note(label) == label + " (image not sent: the model has no image support)"@,
{
}

// ---- Tags -----------------------------------------------------------------

/// A place where a tag can begin: the start of the text, or behind a blank.
pub open spec fn begins_word(a: Seq<char>) -> bool {
    a.len() == 0 || a[a.len() - 1] == ' ' || a[a.len() - 1] == '\t' || a[a.len() - 1] == '\n'
        || a[a.len() - 1] == '\r'
}

/// A place where a tag can end: the end of the text, or before a blank.
pub open spec fn ends_word(b: Seq<char>) -> bool {
    b.len() == 0 || b[0] == ' ' || b[0] == '\t' || b[0] == '\n' || b[0] == '\r'
}

/// A bare tag is found whole from its end and from its start.
pub proof fn bare_tags_are_found(a: Seq<char>, w: Seq<char>, b: Seq<char>)
    requires
        begins_word(a),
        ends_word(b),
        w.len() > 0,
        forall|i: int|
            0 <= i < w.len() ==> !is_space(#[trigger] w[i]) && w[i] != '@' && w[i] != '"',
    ensures
        ({
            let s = a + seq!['@'] + w + b;
            let at = a.len() as int;
            let end = at + 1 + w.len();
            &&& tag_before(s, end, Seq::empty()) == Some((at, end))
            &&& tag_after(s, at, Seq::empty()) == Some((at, end))
        }),
{
    let s = a + seq!['@'] + w + b;
    let at = a.len() as int;
    let end = at + 1 + w.len() as int;
    assert(s[at] == '@');
    assert forall|i: int| at < i < end implies !is_space(#[trigger] s[i]) && s[i] != '@' && s[i]
        != '"' by {
        assert(s[i] == w[i - at - 1]);
    }
    if at > 0 {
        assert(s[at - 1] == a[at - 1]);
    }
    if b.len() > 0 {
        assert(s[end] == b[0]);
        assert(is_space(s[end]));
    }
    lemma_rfind_before(s, '@', end);
    let r = rfind_before(s, '@', end);
    assert(r == at) by {
        if r < at {
            assert(s[at] != '@');
        }
    }
    assert(s[end - 1] != '"');
    lemma_space_from(s, at + 1);
    let e = space_from(s, at + 1);
    assert(e == end) by {
        if e < end {
            assert(is_space(s[e]));
        }
        if e > end {
            assert(!is_space(s[end]));
        }
    }
    assert(s[at + 1] != '"');
}

/// A quoted tag is found whole from its end and from its start, blanks and all.
pub proof fn quoted_tags_are_found(a: Seq<char>, w: Seq<char>, b: Seq<char>, paths: Seq<Seq<char>>)
    requires
        begins_word(a),
        ends_word(b),
        forall|i: int| 0 <= i < w.len() ==> #[trigger] w[i] != '"',
    ensures
        ({
            let s = a + seq!['@', '"'] + w + seq!['"'] + b;
            let at = a.len() as int;
            let end = at + 3 + w.len();
            &&& tag_before(s, end, paths) == Some((at, end))
            &&& tag_after(s, at, paths) == Some((at, end))
        }),
{
    let s = a + seq!['@', '"'] + w + seq!['"'] + b;
    let at = a.len() as int;
    let end = at + 3 + w.len() as int;
    assert(s[at] == '@' && s[at + 1] == '"' && s[end - 1] == '"');
    assert forall|i: int| at + 1 < i < end - 1 implies #[trigger] s[i] != '"' by {
        assert(s[i] == w[i - at - 2]);
    }
    if at > 0 {
        assert(s[at - 1] == a[at - 1]);
    }
    if b.len() > 0 {
        assert(s[end] == b[0]);
    }
    lemma_rfind_before(s, '"', end - 1);
    let q = rfind_before(s, '"', end - 1);
    assert(q == at + 1) by {
        if q < at + 1 {
            assert(s[at + 1] != '"');
        }
    }
    lemma_find_from(s, '"', at + 2);
    let close = find_from(s, '"', at + 2);
    assert(close == end - 1) by {
        if close > end - 1 {
            assert(s[end - 1] != '"');
        }
    }
}

/// A quoted tag takes the line range behind it along.
pub proof fn quoted_tags_take_their_range(
    a: Seq<char>,
    w: Seq<char>,
    range: Seq<char>,
    b: Seq<char>,
    paths: Seq<Seq<char>>,
)
    requires
        begins_word(a),
        b.len() > 0 ==> is_space(b[0]),
        range.len() > 0,
        forall|i: int| 0 <= i < w.len() ==> #[trigger] w[i] != '"',
        forall|i: int|
            0 <= i < range.len() ==> '0' <= #[trigger] range[i] && range[i] <= '9' || range[i]
                == '-',
    ensures
        ({
            let s = a + seq!['@', '"'] + w + seq!['"', ':'] + range + b;
            let at = a.len() as int;
            tag_after(s, at, paths) == Some((at, at + 4 + w.len() + range.len()))
        }),
{
    let s = a + seq!['@', '"'] + w + seq!['"', ':'] + range + b;
    let at = a.len() as int;
    let end = at + 3 + w.len() as int;
    assert(s[at] == '@' && s[at + 1] == '"' && s[end - 1] == '"' && s[end] == ':');
    assert forall|i: int| at + 1 < i < end - 1 implies #[trigger] s[i] != '"' by {
        assert(s[i] == w[i - at - 2]);
    }
    if at > 0 {
        assert(s[at - 1] == a[at - 1]);
    }
    lemma_find_from(s, '"', at + 2);
    let close = find_from(s, '"', at + 2);
    assert(close == end - 1) by {
        if close > end - 1 {
            assert(s[end - 1] != '"');
        }
    }
    let stop = end + 1 + range.len() as int;
    assert forall|i: int| end < i < stop implies ('0' <= #[trigger] s[i] && s[i] <= '9' || s[i]
        == '-') by {
        assert(s[i] == range[i - end - 1]);
    }
    if b.len() > 0 {
        assert(s[stop] == b[0]);
    }
    lemma_space_from(s, end + 1);
    let e = space_from(s, end + 1);
    assert(e == stop) by {
        if e < stop {
            assert(is_space(s[e]));
        }
        if e > stop {
            assert(!is_space(s[stop]));
        }
    }
}

/// A tag of a path that was accepted is found whole, also where the path has blanks, and
/// of several such paths the longest.
pub proof fn accepted_paths_are_found(
    a: Seq<char>,
    p: Seq<char>,
    b: Seq<char>,
    paths: Seq<Seq<char>>,
)
    requires
        begins_word(a),
        ends_word(b),
        p.len() > 0,
        p[0] != '"',
        p[p.len() - 1] != '"',
        paths.contains(p),
    ensures
        ({
            let s = a + seq!['@'] + p + b;
            let at = a.len() as int;
            let end = at + 1 + p.len();
            &&& tag_before(s, end, paths) is Some
            &&& (tag_before(s, end, paths)->0).0 <= at
            &&& (forall|k: int|
                0 <= k < paths.len() && (#[trigger] paths[k]).len() > p.len() ==> !path_tag_ends(
                    s,
                    end,
                    paths[k],
                )) ==> tag_before(s, end, paths) == Some((at, end))
            &&& tag_after(s, at, paths) is Some
            &&& (tag_after(s, at, paths)->0).1 >= end
            &&& (forall|k: int|
                0 <= k < paths.len() && (#[trigger] paths[k]).len() > p.len() ==> !path_tag_starts(
                    s,
                    at,
                    paths[k],
                )) ==> tag_after(s, at, paths) == Some((at, end))
        }),
{
    let s = a + seq!['@'] + p + b;
    let at = a.len() as int;
    let end = at + 1 + p.len() as int;
    assert(s[at] == '@');
    assert(s.subrange(at + 1, at + 1 + p.len()) =~= p);
    if at > 0 {
        assert(s[at - 1] == a[at - 1]);
    }
    if b.len() > 0 {
        assert(s[end] == b[0]);
    }
    assert(s[end - 1] == p[p.len() - 1]);
    assert(s[at + 1] == p[0]);
    let j = choose|j: int| 0 <= j < paths.len() && paths[j] == p;
    lemma_longest_before(s, end, paths, j);
    lemma_longest_after(s, at, paths, j);
}

proof fn lemma_longest_before(s: Seq<char>, k: int, paths: Seq<Seq<char>>, j: int)
    requires
        0 <= j < paths.len(),
        path_tag_ends(s, k, paths[j]),
    ensures
        longest_path_ending(s, k, paths) >= paths[j].len(),
        (forall|i: int|
            0 <= i < paths.len() && (#[trigger] paths[i]).len() > paths[j].len()
                ==> !path_tag_ends(s, k, paths[i])) ==> longest_path_ending(s, k, paths)
            == paths[j].len(),
    decreases paths.len(),
{
    let rest = paths.drop_last();
    assert(forall|i: int| 0 <= i < rest.len() ==> rest[i] == #[trigger] paths[i]);
    if j < rest.len() {
        lemma_longest_before(s, k, rest, j);
        if forall|i: int|
            0 <= i < paths.len() && (#[trigger] paths[i]).len() > paths[j].len()
                ==> !path_tag_ends(s, k, paths[i]) {
            assert forall|i: int|
                0 <= i < rest.len() && (#[trigger] rest[i]).len() > rest[j].len() implies
                !path_tag_ends(s, k, rest[i]) by {
                assert(rest[i] == paths[i]);
            }
            assert(paths.last() == paths[paths.len() - 1]);
        }
    } else {
        lemma_longest_bound(s, k, rest, paths[j].len() as int);
        if forall|i: int|
            0 <= i < paths.len() && (#[trigger] paths[i]).len() > paths[j].len()
                ==> !path_tag_ends(s, k, paths[i]) {
            assert forall|i: int|
                0 <= i < rest.len() && (#[trigger] rest[i]).len() > paths[j].len() implies
                !path_tag_ends(s, k, rest[i]) by {
                assert(rest[i] == paths[i]);
            }
        }
    }
}

proof fn lemma_longest_bound(s: Seq<char>, k: int, paths: Seq<Seq<char>>, n: int)
    requires
        0 <= n,
    ensures
        (forall|i: int|
            0 <= i < paths.len() && (#[trigger] paths[i]).len() > n ==> !path_tag_ends(
                s,
                k,
                paths[i],
            )) ==> longest_path_ending(s, k, paths) <= n,
    decreases paths.len(),
{
    if paths.len() > 0 {
        let rest = paths.drop_last();
        lemma_longest_bound(s, k, rest, n);
        if forall|i: int|
            0 <= i < paths.len() && (#[trigger] paths[i]).len() > n ==> !path_tag_ends(
                s,
                k,
                paths[i],
            ) {
            assert forall|i: int| 0 <= i < rest.len() && (#[trigger] rest[i]).len() > n implies
                !path_tag_ends(s, k, rest[i]) by {
                assert(rest[i] == paths[i]);
            }
            assert(paths.last() == paths[paths.len() - 1]);
        }
    }
}

proof fn lemma_longest_after(s: Seq<char>, k: int, paths: Seq<Seq<char>>, j: int)
    requires
        0 <= j < paths.len(),
        path_tag_starts(s, k, paths[j]),
    ensures
        longest_path_starting(s, k, paths) >= paths[j].len(),
        (forall|i: int|
            0 <= i < paths.len() && (#[trigger] paths[i]).len() > paths[j].len()
                ==> !path_tag_starts(s, k, paths[i])) ==> longest_path_starting(s, k, paths)
            == paths[j].len(),
    decreases paths.len(),
{
    let rest = paths.drop_last();
    if j < rest.len() {
        assert(rest[j] == paths[j]);
        lemma_longest_after(s, k, rest, j);
        if forall|i: int|
            0 <= i < paths.len() && (#[trigger] paths[i]).len() > paths[j].len()
                ==> !path_tag_starts(s, k, paths[i]) {
            assert forall|i: int|
                0 <= i < rest.len() && (#[trigger] rest[i]).len() > rest[j].len() implies
                !path_tag_starts(s, k, rest[i]) by {
                assert(rest[i] == paths[i]);
            }
            assert(paths.last() == paths[paths.len() - 1]);
        }
    } else {
        lemma_longest_after_bound(s, k, rest, paths[j].len() as int);
        if forall|i: int|
            0 <= i < paths.len() && (#[trigger] paths[i]).len() > paths[j].len()
                ==> !path_tag_starts(s, k, paths[i]) {
            assert forall|i: int|
                0 <= i < rest.len() && (#[trigger] rest[i]).len() > paths[j].len() implies
                !path_tag_starts(s, k, rest[i]) by {
                assert(rest[i] == paths[i]);
            }
        }
    }
}

proof fn lemma_longest_after_bound(s: Seq<char>, k: int, paths: Seq<Seq<char>>, n: int)
    requires
        0 <= n,
    ensures
        (forall|i: int|
            0 <= i < paths.len() && (#[trigger] paths[i]).len() > n ==> !path_tag_starts(
                s,
                k,
                paths[i],
            )) ==> longest_path_starting(s, k, paths) <= n,
    decreases paths.len(),
{
    if paths.len() > 0 {
        let rest = paths.drop_last();
        lemma_longest_after_bound(s, k, rest, n);
        if forall|i: int|
            0 <= i < paths.len() && (#[trigger] paths[i]).len() > n ==> !path_tag_starts(
                s,
                k,
                paths[i],
            ) {
            assert forall|i: int| 0 <= i < rest.len() && (#[trigger] rest[i]).len() > n implies
                !path_tag_starts(s, k, rest[i]) by {
                assert(rest[i] == paths[i]);
            }
            assert(paths.last() == paths[paths.len() - 1]);
        }
    }
}

} // verus!
