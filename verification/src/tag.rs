//! Completed `@`-tags: finding the tag that ends or starts at the cursor, so
//! that one key deletes it whole.
//!
//! A tag is `@` at the start of the text or after a blank, followed by a quoted
//! path, by a path that was accepted from the suggestions, or by characters up
//! to white space.

use vstd::prelude::*;
use crate::text::{byte_at, byte_len, byte_offset, char_position, find, find_from, find_space, is_position, is_space, lemma_find_from, lemma_rfind_before, lemma_space_from, occurs_at, position_is_unique, rfind, rfind_before, space_from, stands_at, texts, to_chars};

verus! {

/// The blanks that part tags.
pub open spec fn is_blank_char(c: char) -> bool {
    c == ' ' || c == '\t' || c == '\n' || c == '\r'
}

fn is_ws_char(c: char) -> (r: bool)
    ensures
        r == is_blank_char(c),
{
    c == ' ' || c == '\t' || c == '\n' || c == '\r'
}

/// Whether a tag may start at `at`.
pub open spec fn opens_word(s: Seq<char>, at: int) -> bool {
    at == 0 || is_blank_char(s[at - 1])
}

/// Whether a tag may end at `at`.
pub open spec fn closes_word(s: Seq<char>, at: int) -> bool {
    at >= s.len() || is_blank_char(s[at])
}

// ---- Tags that end at a position ------------------------------------------

/// Start of a quoted tag that ends at `k`, or -1.
pub open spec fn quoted_tag_start(s: Seq<char>, k: int) -> int {
    let q = rfind_before(s, '"', k - 1);
    if s[k - 1] == '"' && q >= 1 && s[q - 1] == '@' && opens_word(s, q - 1) {
        q - 1
    } else {
        -1
    }
}

/// Whether the text before `k` is `@` and the path `p`, at the start of a word.
pub open spec fn path_tag_ends(s: Seq<char>, k: int, p: Seq<char>) -> bool {
    let at = k - 1 - p.len();
    &&& at >= 0
    &&& s[at] == '@'
    &&& occurs_at(s, p, at + 1)
    &&& opens_word(s, at)
}

/// Length of the longest of the paths whose tag ends at `k`, or -1.
pub open spec fn longest_path_ending(s: Seq<char>, k: int, paths: Seq<Seq<char>>) -> int
    decreases paths.len(),
{
    if paths.len() == 0 {
        -1
    } else {
        let best = longest_path_ending(s, k, paths.drop_last());
        let p = paths.last();
        if path_tag_ends(s, k, p) && p.len() > best {
            p.len() as int
        } else {
            best
        }
    }
}

/// Start of a bare tag that ends at `k`, or -1.
pub open spec fn bare_tag_start(s: Seq<char>, k: int) -> int {
    let at = rfind_before(s, '@', k);
    if at >= 0 && at + 1 < k && opens_word(s, at) && !(exists|i: int|
        at < i < k && is_space(s[i])) {
        at
    } else {
        -1
    }
}

/// The completed tag that ends at `k`.
pub open spec fn tag_before(s: Seq<char>, k: int, paths: Seq<Seq<char>>) -> Option<(int, int)> {
    if k == 0 || !closes_word(s, k) {
        None
    } else if quoted_tag_start(s, k) >= 0 {
        Some((quoted_tag_start(s, k), k))
    } else if longest_path_ending(s, k, paths) >= 0 {
        Some((k - 1 - longest_path_ending(s, k, paths), k))
    } else if bare_tag_start(s, k) >= 0 {
        Some((bare_tag_start(s, k), k))
    } else {
        None
    }
}

// ---- Tags that start at a position ----------------------------------------

pub open spec fn is_range_char(c: char) -> bool {
    ('0' <= c && c <= '9') || c == '-'
}

/// End of a quoted tag whose closing quote is just before `end`, with the line
/// range that may follow after a colon.
pub open spec fn quoted_tag_end(s: Seq<char>, end: int) -> int {
    let re = space_from(s, end + 1);
    if end < s.len() && s[end] == ':' && re > end + 1 && (forall|i: int|
        end < i < re ==> is_range_char(s[i])) {
        re
    } else {
        end
    }
}

/// Whether `p` follows the `@` at `k` and ends a word there.
pub open spec fn path_tag_starts(s: Seq<char>, k: int, p: Seq<char>) -> bool {
    occurs_at(s, p, k + 1) && closes_word(s, k + 1 + p.len())
}

/// Length of the longest of the paths whose tag starts at `k`, or -1.
pub open spec fn longest_path_starting(s: Seq<char>, k: int, paths: Seq<Seq<char>>) -> int
    decreases paths.len(),
{
    if paths.len() == 0 {
        -1
    } else {
        let best = longest_path_starting(s, k, paths.drop_last());
        let p = paths.last();
        if path_tag_starts(s, k, p) && p.len() > best {
            p.len() as int
        } else {
            best
        }
    }
}

/// The completed tag that starts at `k`.
pub open spec fn tag_after(s: Seq<char>, k: int, paths: Seq<Seq<char>>) -> Option<(int, int)> {
    if k >= s.len() || s[k] != '@' || !opens_word(s, k) {
        None
    } else if k + 1 < s.len() && s[k + 1] == '"' {
        let close = find_from(s, '"', k + 2);
        if close < s.len() {
            Some((k, quoted_tag_end(s, close + 1)))
        } else {
            None
        }
    } else if longest_path_starting(s, k, paths) >= 0 {
        Some((k, k + 1 + longest_path_starting(s, k, paths)))
    } else if space_from(s, k + 1) > k + 1 {
        Some((k, space_from(s, k + 1)))
    } else {
        None
    }
}

// ---- Laws -----------------------------------------------------------------

proof fn lemma_longest_path_ending(s: Seq<char>, k: int, paths: Seq<Seq<char>>)
    ensures
        longest_path_ending(s, k, paths) >= 0 ==> exists|p: Seq<char>|
            path_tag_ends(s, k, p) && p.len() == longest_path_ending(s, k, paths),
    decreases paths.len(),
{
    if paths.len() > 0 {
        lemma_longest_path_ending(s, k, paths.drop_last());
        let p = paths.last();
        if path_tag_ends(s, k, p) && p.len() > longest_path_ending(s, k, paths.drop_last()) {
            assert(path_tag_ends(s, k, p) && p.len() == longest_path_ending(s, k, paths));
        }
    }
}

proof fn lemma_longest_path_starting(s: Seq<char>, k: int, paths: Seq<Seq<char>>)
    ensures
        longest_path_starting(s, k, paths) >= 0 ==> exists|p: Seq<char>|
            path_tag_starts(s, k, p) && p.len() == longest_path_starting(s, k, paths),
    decreases paths.len(),
{
    if paths.len() > 0 {
        lemma_longest_path_starting(s, k, paths.drop_last());
        let p = paths.last();
        if path_tag_starts(s, k, p) && p.len() > longest_path_starting(s, k, paths.drop_last()) {
            assert(path_tag_starts(s, k, p) && p.len() == longest_path_starting(s, k, paths));
        }
    }
}

/// A tag found before a position ends there, is not empty, starts with `@` at
/// the start of a word, and is followed by a blank or by the end of the text.
pub proof fn tag_before_is_a_tag(s: Seq<char>, k: int, paths: Seq<Seq<char>>)
    requires
        0 <= k <= s.len(),
    ensures
        match tag_before(s, k, paths) {
            Some((from, to)) => {
                &&& 0 <= from < to == k
                &&& s[from] == '@'
                &&& opens_word(s, from)
                &&& closes_word(s, to)
            },
            None => true,
        },
{
    if k > 0 {
        lemma_rfind_before(s, '"', k - 1);
        lemma_longest_path_ending(s, k, paths);
        lemma_rfind_before(s, '@', k);
    }
}

/// A tag found after a position starts there with `@` at the start of a word,
/// is not empty, and stays inside the text.
pub proof fn tag_after_is_a_tag(s: Seq<char>, k: int, paths: Seq<Seq<char>>)
    requires
        0 <= k,
    ensures
        match tag_after(s, k, paths) {
            Some((from, to)) => {
                &&& from == k < to <= s.len()
                &&& s[from] == '@'
                &&& opens_word(s, from)
            },
            None => true,
        },
{
    if k < s.len() {
        if k + 1 < s.len() {
            lemma_find_from(s, '"', k + 2);
            let close = find_from(s, '"', k + 2);
            if close + 1 < s.len() {
                lemma_space_from(s, close + 2);
            }
        }
        lemma_longest_path_starting(s, k, paths);
        lemma_space_from(s, k + 1);
    }
}

// ---- Finding --------------------------------------------------------------

fn longest_ending(v: &Vec<char>, k: usize, accepted: &Vec<String>) -> (r: Option<usize>)
    requires
        0 < k <= v@.len(),
    ensures
        match r {
            Some(n) => longest_path_ending(v@, k as int, texts(accepted@)) == n && n < k,
            None => longest_path_ending(v@, k as int, texts(accepted@)) == -1,
        },
{
    let mut best: Option<usize> = None;
    let mut i: usize = 0;
    proof {
        assert(texts(accepted@).take(0) =~= Seq::<Seq<char>>::empty());
    }
    while i < accepted.len()
        invariant
            0 < k <= v@.len(),
            i <= accepted@.len(),
            match best {
                Some(n) => longest_path_ending(v@, k as int, texts(accepted@).take(i as int)) == n
                    && n < k,
                None => longest_path_ending(v@, k as int, texts(accepted@).take(i as int)) == -1,
            },
        decreases accepted@.len() - i,
    {
        let p: Vec<char> = to_chars(accepted[i].as_str());
        let n: usize = p.len();
        proof {
            let t = texts(accepted@).take(i + 1);
            assert(t.drop_last() =~= texts(accepted@).take(i as int));
            assert(t.last() == p@);
        }
        let hit: bool = n < k && v[k - 1 - n] == '@' && stands_at(v, &p, k - n) && (k - 1 - n == 0
            || is_ws_char(v[k - 2 - n]));
        let longer: bool = match best {
            Some(m) => n > m,
            None => true,
        };
        if hit && longer {
            best = Some(n);
        }
        i = i + 1;
    }
    proof {
        assert(texts(accepted@).take(accepted@.len() as int) =~= texts(accepted@));
    }
    best
}

fn longest_starting(v: &Vec<char>, k: usize, accepted: &Vec<String>) -> (r: Option<usize>)
    requires
        k < v@.len(),
    ensures
        match r {
            Some(n) => longest_path_starting(v@, k as int, texts(accepted@)) == n && k + 1 + n
                <= v@.len(),
            None => longest_path_starting(v@, k as int, texts(accepted@)) == -1,
        },
{
    let len: usize = v.len();
    let mut best: Option<usize> = None;
    let mut i: usize = 0;
    proof {
        assert(texts(accepted@).take(0) =~= Seq::<Seq<char>>::empty());
    }
    while i < accepted.len()
        invariant
            k < len == v@.len(),
            i <= accepted@.len(),
            match best {
                Some(n) => longest_path_starting(v@, k as int, texts(accepted@).take(i as int))
                    == n && k + 1 + n <= v@.len(),
                None => longest_path_starting(v@, k as int, texts(accepted@).take(i as int)) == -1,
            },
        decreases accepted@.len() - i,
    {
        let p: Vec<char> = to_chars(accepted[i].as_str());
        let n: usize = p.len();
        proof {
            let t = texts(accepted@).take(i + 1);
            assert(t.drop_last() =~= texts(accepted@).take(i as int));
            assert(t.last() == p@);
        }
        let hit: bool = stands_at(v, &p, k + 1) && (k + 1 + n == len || is_ws_char(
            v[k + 1 + n],
        ));
        let longer: bool = match best {
            Some(m) => n > m,
            None => true,
        };
        if hit && longer {
            best = Some(n);
        }
        i = i + 1;
    }
    proof {
        assert(texts(accepted@).take(accepted@.len() as int) =~= texts(accepted@));
    }
    best
}

/// The completed tag that ends at character position `k`.
pub fn tag_ending_at(v: &Vec<char>, k: usize, accepted: &Vec<String>) -> (r: Option<(usize, usize)>)
    requires
        k <= v@.len(),
    ensures
        match r {
            Some((a, b)) => tag_before(v@, k as int, texts(accepted@)) == Some((a as int, b as int))
                && a < b && b == k,
            None => tag_before(v@, k as int, texts(accepted@)) is None,
        },
{
    proof {
        tag_before_is_a_tag(v@, k as int, texts(accepted@));
    }
    if k == 0 || !(k == v.len() || is_ws_char(v[k])) {
        return None;
    }
    proof {
        lemma_rfind_before(v@, '"', k - 1);
        lemma_rfind_before(v@, '@', k as int);
    }
    if v[k - 1] == '"' {
        match rfind(v, '"', k - 1) {
            Some(q) => {
                if q >= 1 && v[q - 1] == '@' && (q - 1 == 0 || is_ws_char(v[q - 2])) {
                    return Some((q - 1, k));
                }
            },
            None => {},
        }
    }
    match longest_ending(v, k, accepted) {
        Some(n) => {
            return Some((k - 1 - n, k));
        },
        None => {},
    }
    match rfind(v, '@', k) {
        Some(at) => {
            let space: usize = find_space(v, at + 1);
            proof {
                lemma_space_from(v@, at + 1);
                if space < k {
                    assert(is_space(v@[space as int]));
                }
            }
            if at + 1 < k && space >= k && (at == 0 || is_ws_char(v[at - 1])) {
                return Some((at, k));
            }
        },
        None => {},
    }
    None
}

/// The completed tag that starts at character position `k`.
pub fn tag_starting_at(v: &Vec<char>, k: usize, accepted: &Vec<String>) -> (r: Option<
    (usize, usize),
>)
    requires
        k <= v@.len(),
    ensures
        match r {
            Some((a, b)) => tag_after(v@, k as int, texts(accepted@)) == Some((a as int, b as int))
                && a == k && a < b <= v@.len(),
            None => tag_after(v@, k as int, texts(accepted@)) is None,
        },
{
    proof {
        tag_after_is_a_tag(v@, k as int, texts(accepted@));
    }
    if k == v.len() || v[k] != '@' || !(k == 0 || is_ws_char(v[k - 1])) {
        return None;
    }
    if k + 1 < v.len() && v[k + 1] == '"' {
        let close: usize = find(v, '"', k + 2);
        if close == v.len() {
            return None;
        }
        let end: usize = close + 1;
        if end < v.len() && v[end] == ':' {
            let re: usize = find_space(v, end + 1);
            let mut all: bool = true;
            let mut i: usize = end + 1;
            while i < re
                invariant
                    end < i <= re <= v@.len(),
                    all == (forall|j: int| end < j < i ==> is_range_char(v@[j])),
                decreases re - i,
            {
                let c: char = v[i];
                if !(('0' <= c && c <= '9') || c == '-') {
                    all = false;
                }
                i = i + 1;
            }
            if re > end + 1 && all {
                return Some((k, re));
            }
        }
        return Some((k, end));
    }
    match longest_starting(v, k, accepted) {
        Some(n) => {
            return Some((k, k + 1 + n));
        },
        None => {},
    }
    let end: usize = find_space(v, k + 1);
    if end > k + 1 {
        Some((k, end))
    } else {
        None
    }
}

/// Whether `r` gives the byte offsets of the positions in `o`.
pub open spec fn is_byte_span(
    s: Seq<char>,
    r: Option<(usize, usize)>,
    o: Option<(int, int)>,
) -> bool {
    match (r, o) {
        (Some((a, b)), Some((i, j))) => a == byte_at(s, i) && b == byte_at(s, j),
        (None, None) => true,
        _ => false,
    }
}

/// The byte span of a completed `@`-tag whose right edge is exactly at byte
/// offset `cursor`: a quoted tag `@"…"`, a tracked path `@<accepted>` (the
/// longest that matches), or a bare `@token`. `None` when the cursor stands
/// inside a tag or no completed tag ends there.
pub fn completed_tag_span(buffer: &str, cursor: usize, accepted: &Vec<String>) -> (r: Option<
    (usize, usize),
>)
    requires
        cursor <= byte_len(buffer@),
    ensures
        forall|k: int|
            is_position(buffer@, cursor as int, k) ==> is_byte_span(
                buffer@,
                r,
                #[trigger] tag_before(buffer@, k, texts(accepted@)),
            ),
        (forall|k: int| !is_position(buffer@, cursor as int, k)) ==> r is None,
{
    let v: Vec<char> = to_chars(buffer);
    match char_position(&v, cursor) {
        None => None,
        Some(k) => {
            proof {
                assert forall|j: int| is_position(buffer@, cursor as int, j) implies j == k by {
                    position_is_unique(buffer@, cursor as int, j, k as int);
                }
            }
            match tag_ending_at(&v, k, accepted) {
                None => None,
                Some((a, b)) => Some((byte_offset(&v, a), byte_offset(&v, b))),
            }
        },
    }
}

/// Mirror of [`completed_tag_span`] for forward deletion: the byte span of the
/// tag whose `@` is exactly at byte offset `cursor`.
pub fn completed_tag_span_forward(buffer: &str, cursor: usize, accepted: &Vec<String>) -> (r:
    Option<(usize, usize)>)
    ensures
        forall|k: int|
            is_position(buffer@, cursor as int, k) ==> is_byte_span(
                buffer@,
                r,
                #[trigger] tag_after(buffer@, k, texts(accepted@)),
            ),
        (forall|k: int| !is_position(buffer@, cursor as int, k)) ==> r is None,
{
    let v: Vec<char> = to_chars(buffer);
    match char_position(&v, cursor) {
        None => None,
        Some(k) => {
            proof {
                assert forall|j: int| is_position(buffer@, cursor as int, j) implies j == k by {
                    position_is_unique(buffer@, cursor as int, j, k as int);
                }
            }
            match tag_starting_at(&v, k, accepted) {
                None => None,
                Some((a, b)) => Some((byte_offset(&v, a), byte_offset(&v, b))),
            }
        },
    }
}

} // verus!
