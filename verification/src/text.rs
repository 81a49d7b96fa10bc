//! Characters, strings and byte offsets.
//!
//! Text is modelled as a sequence of characters. A byte offset into a text is
//! the length of the UTF-8 encoding of the characters before it.

use vstd::prelude::*;
use vstd::utf8::*;

verus! {

/// Number of bytes in the UTF-8 encoding of `s`.
pub open spec fn byte_len(s: Seq<char>) -> nat {
    encode_utf8(s).len()
}

/// Byte offset of character position `k` of `s`.
pub open spec fn byte_at(s: Seq<char>, k: int) -> nat {
    byte_len(s.take(k))
}

/// Number of bytes that `c` takes.
pub open spec fn char_bytes(c: char) -> nat {
    encode_scalar(c as u32).len()
}

pub proof fn lemma_byte_len_push(s: Seq<char>, c: char)
    ensures
        byte_len(s.push(c)) == byte_len(s) + char_bytes(c),
    decreases s.len(),
{
    if s.len() == 0 {
        assert(s.push(c).drop_first() =~= Seq::<char>::empty());
        assert(encode_utf8(Seq::<char>::empty()).len() == 0);
        assert(s.push(c)[0] == c);
    } else {
        lemma_byte_len_push(s.drop_first(), c);
        assert(s.push(c).drop_first() =~= s.drop_first().push(c));
        assert(s.push(c)[0] == s[0]);
    }
}

/// Byte offsets grow strictly with character positions.
pub proof fn lemma_byte_at_step(s: Seq<char>, k: int)
    requires
        0 <= k < s.len(),
    ensures
        byte_at(s, k + 1) == byte_at(s, k) + char_bytes(s[k]),
        char_bytes(s[k]) >= 1,
{
    assert(s.take(k + 1) =~= s.take(k).push(s[k]));
    lemma_byte_len_push(s.take(k), s[k]);
}

pub proof fn lemma_byte_at_monotonic(s: Seq<char>, i: int, j: int)
    requires
        0 <= i < j <= s.len(),
    ensures
        byte_at(s, i) < byte_at(s, j),
    decreases j - i,
{
    lemma_byte_at_step(s, j - 1);
    if i < j - 1 {
        lemma_byte_at_monotonic(s, i, j - 1);
    }
}

/// Appends `c` to the string (`String::push`): the old characters followed by
/// `c`.
pub assume_specification[ String::push ](s: &mut String, c: char)
    ensures
        final(s)@ == old(s)@.push(c),
;

/// The characters of `s`.
pub fn to_chars(s: &str) -> (r: Vec<char>)
    ensures
        r@ == s@,
{
    let mut out: Vec<char> = Vec::new();
    for c in it: s.chars()
        invariant
            it.seq() == s@,
            out@ == s@.take(it.index() as int),
    {
        proof {
            assert(s@.take(it.index() + 1) =~= s@.take(it.index() as int).push(c));
        }
        out.push(c);
    }
    proof {
        assert(s@.take(s@.len() as int) =~= s@);
    }
    out
}

/// The string made of the characters of `v` from `from` up to `to`.
pub fn from_range(v: &Vec<char>, from: usize, to: usize) -> (r: String)
    requires
        from <= to <= v@.len(),
    ensures
        r@ == v@.subrange(from as int, to as int),
{
    let mut out: String = String::new();
    let mut i: usize = from;
    while i < to
        invariant
            from <= i <= to <= v@.len(),
            out@ == v@.subrange(from as int, i as int),
        decreases to - i,
    {
        proof {
            assert(v@.subrange(from as int, i + 1) =~= v@.subrange(from as int, i as int).push(
                v@[i as int],
            ));
        }
        out.push(v[i]);
        i = i + 1;
    }
    out
}

/// The string made of the characters of `v`.
pub fn from_chars(v: &Vec<char>) -> (r: String)
    ensures
        r@ == v@,
{
    proof {
        assert(v@.subrange(0, v@.len() as int) =~= v@);
    }
    from_range(v, 0, v.len())
}

/// Byte offset of character position `k`.
pub fn byte_offset(v: &Vec<char>, k: usize) -> (r: usize)
    requires
        k <= v@.len(),
    ensures
        r == byte_at(v@, k as int),
{
    let prefix: String = from_range(v, 0, k);
    proof {
        assert(v@.subrange(0, k as int) =~= v@.take(k as int));
    }
    prefix.as_str().as_bytes().len()
}

/// Character position whose byte offset is `byte`, if there is one.
pub open spec fn is_position(s: Seq<char>, byte: int, k: int) -> bool {
    0 <= k <= s.len() && byte_at(s, k) == byte
}

/// Bytes taken by one character.
pub fn width_of(c: char) -> (r: usize)
    ensures
        r == char_bytes(c),
        1 <= r <= 4,
{
    let n: u32 = c as u32;
    if n < 0x80 {
        1
    } else if n < 0x800 {
        2
    } else if n < 0x10000 {
        3
    } else {
        4
    }
}

/// The character position at byte offset `byte`, or `None` when `byte` is past
/// the end or inside a character.
pub fn char_position(v: &Vec<char>, byte: usize) -> (r: Option<usize>)
    ensures
        match r {
            Some(k) => is_position(v@, byte as int, k as int),
            None => forall|k: int| !is_position(v@, byte as int, k),
        },
{
    let mut k: usize = 0;
    let mut left: usize = byte;
    proof {
        assert(v@.take(0) =~= Seq::<char>::empty());
    }
    while k < v.len() && left > 0
        invariant
            k <= v@.len(),
            byte_at(v@, k as int) + left == byte,
        decreases v@.len() - k,
    {
        let w: usize = width_of(v[k]);
        proof {
            lemma_byte_at_step(v@, k as int);
        }
        if w > left {
            proof {
                assert forall|j: int| !is_position(v@, byte as int, j) by {
                    if 0 <= j <= v@.len() {
                        if j < k {
                            lemma_byte_at_monotonic(v@, j, k as int);
                        } else if j > k + 1 {
                            lemma_byte_at_monotonic(v@, k + 1, j);
                        }
                    }
                }
            }
            return None;
        }
        left = left - w;
        k = k + 1;
    }
    if left == 0 {
        Some(k)
    } else {
        proof {
            assert forall|j: int| !is_position(v@, byte as int, j) by {
                if 0 <= j < v@.len() {
                    lemma_byte_at_monotonic(v@, j, v@.len() as int);
                }
            }
        }
        None
    }
}

/// Largest position of `s` whose byte offset is at most `byte`.
pub open spec fn is_floor_position(s: Seq<char>, byte: int, k: int) -> bool {
    &&& 0 <= k <= s.len()
    &&& byte_at(s, k) <= byte
    &&& k < s.len() ==> byte < byte_at(s, k + 1)
}

/// The largest character position whose byte offset is at most `byte`.
pub fn floor_position(v: &Vec<char>, byte: usize) -> (r: usize)
    ensures
        is_floor_position(v@, byte as int, r as int),
{
    let mut k: usize = 0;
    let mut left: usize = byte;
    proof {
        assert(v@.take(0) =~= Seq::<char>::empty());
    }
    while k < v.len()
        invariant
            k <= v@.len(),
            byte_at(v@, k as int) + left == byte,
        decreases v@.len() - k,
    {
        let w: usize = width_of(v[k]);
        proof {
            lemma_byte_at_step(v@, k as int);
        }
        if w > left {
            return k;
        }
        left = left - w;
        k = k + 1;
    }
    k
}

/// Two positions with the same byte offset are the same position.
pub proof fn position_is_unique(s: Seq<char>, byte: int, i: int, j: int)
    requires
        is_position(s, byte, i),
        is_position(s, byte, j),
    ensures
        i == j,
{
    if i < j {
        lemma_byte_at_monotonic(s, i, j);
    } else if j < i {
        lemma_byte_at_monotonic(s, j, i);
    }
}

// ---- Searching ------------------------------------------------------------

/// First position at or after `from` that holds `c`, or the length of `s`.
pub open spec fn find_from(s: Seq<char>, c: char, from: int) -> int
    decreases s.len() - from,
{
    if from >= s.len() {
        s.len() as int
    } else if s[from] == c {
        from
    } else {
        find_from(s, c, from + 1)
    }
}

/// Last position before `to` that holds `c`, or -1.
pub open spec fn rfind_before(s: Seq<char>, c: char, to: int) -> int
    decreases to,
{
    if to <= 0 {
        -1
    } else if s[to - 1] == c {
        to - 1
    } else {
        rfind_before(s, c, to - 1)
    }
}

/// `find_from` finds the first occurrence.
pub proof fn lemma_find_from(s: Seq<char>, c: char, from: int)
    requires
        0 <= from <= s.len(),
    ensures
        from <= find_from(s, c, from) <= s.len(),
        find_from(s, c, from) < s.len() ==> s[find_from(s, c, from)] == c,
        forall|i: int| from <= i < find_from(s, c, from) ==> s[i] != c,
    decreases s.len() - from,
{
    if from < s.len() && s[from] != c {
        lemma_find_from(s, c, from + 1);
    }
}

/// `rfind_before` finds the last occurrence.
pub proof fn lemma_rfind_before(s: Seq<char>, c: char, to: int)
    requires
        0 <= to <= s.len(),
    ensures
        -1 <= rfind_before(s, c, to) < to,
        rfind_before(s, c, to) >= 0 ==> s[rfind_before(s, c, to)] == c,
        forall|i: int| rfind_before(s, c, to) < i < to ==> s[i] != c,
    decreases to,
{
    if to > 0 && s[to - 1] != c {
        lemma_rfind_before(s, c, to - 1);
    }
}

/// Position of the first `c` at or after `from`, or the length.
pub fn find(v: &Vec<char>, c: char, from: usize) -> (r: usize)
    requires
        from <= v@.len(),
    ensures
        r == find_from(v@, c, from as int),
        from <= r <= v@.len(),
{
    let mut i: usize = from;
    while i < v.len() && v[i] != c
        invariant
            from <= i <= v@.len(),
            find_from(v@, c, from as int) == find_from(v@, c, i as int),
        decreases v@.len() - i,
    {
        i = i + 1;
    }
    i
}

/// Position of the last `c` before `to`, if any.
pub fn rfind(v: &Vec<char>, c: char, to: usize) -> (r: Option<usize>)
    requires
        to <= v@.len(),
    ensures
        match r {
            Some(i) => rfind_before(v@, c, to as int) == i && i < to,
            None => rfind_before(v@, c, to as int) == -1,
        },
{
    let mut i: usize = to;
    while i > 0
        invariant
            i <= to <= v@.len(),
            rfind_before(v@, c, to as int) == rfind_before(v@, c, i as int),
        decreases i,
    {
        if v[i - 1] == c {
            return Some(i - 1);
        }
        i = i - 1;
    }
    None
}

/// Whether `c` occurs in `s`.
pub open spec fn has_char(s: Seq<char>, c: char) -> bool {
    exists|i: int| 0 <= i < s.len() && s[i] == c
}

pub proof fn lemma_has_char(s: Seq<char>, c: char)
    ensures
        has_char(s, c) <==> find_from(s, c, 0) < s.len(),
{
    lemma_find_from(s, c, 0);
}

/// Number of times `c` occurs in `s`.
pub open spec fn count_char(s: Seq<char>, c: char) -> nat
    decreases s.len(),
{
    if s.len() == 0 {
        0
    } else {
        count_char(s.drop_last(), c) + if s.last() == c {
            1nat
        } else {
            0nat
        }
    }
}

/// Number of `c` among the first `to` characters.
pub fn count_upto(v: &Vec<char>, c: char, to: usize) -> (r: usize)
    requires
        to <= v@.len(),
    ensures
        r == count_char(v@.take(to as int), c),
        r <= to,
{
    let mut n: usize = 0;
    let mut i: usize = 0;
    while i < to
        invariant
            i <= to <= v@.len(),
            n == count_char(v@.take(i as int), c),
            n <= i,
        decreases to - i,
    {
        proof {
            assert(v@.take(i + 1).drop_last() =~= v@.take(i as int));
        }
        if v[i] == c {
            n = n + 1;
        }
        i = i + 1;
    }
    n
}

// ---- Editing --------------------------------------------------------------

/// `s` without the characters from `from` up to `to`.
pub open spec fn without(s: Seq<char>, from: int, to: int) -> Seq<char> {
    s.subrange(0, from) + s.subrange(to, s.len() as int)
}

/// `s` with `t` inserted before position `at`.
pub open spec fn with_inserted(s: Seq<char>, at: int, t: Seq<char>) -> Seq<char> {
    s.subrange(0, at) + t + s.subrange(at, s.len() as int)
}

/// Appends the characters of `src` from `from` up to `to` to `dst`.
pub fn push_range(dst: &mut Vec<char>, src: &Vec<char>, from: usize, to: usize)
    requires
        from <= to <= src@.len(),
    ensures
        final(dst)@ == old(dst)@ + src@.subrange(from as int, to as int),
{
    let mut i: usize = from;
    proof {
        assert(old(dst)@ + src@.subrange(from as int, from as int) =~= old(dst)@);
    }
    while i < to
        invariant
            from <= i <= to <= src@.len(),
            dst@ == old(dst)@ + src@.subrange(from as int, i as int),
        decreases to - i,
    {
        proof {
            assert(old(dst)@ + src@.subrange(from as int, i + 1) =~= (old(dst)@ + src@.subrange(
                from as int,
                i as int,
            )).push(src@[i as int]));
        }
        dst.push(src[i]);
        i = i + 1;
    }
}

/// The characters of `v` without those from `from` up to `to`.
pub fn remove_span(v: &Vec<char>, from: usize, to: usize) -> (r: Vec<char>)
    requires
        from <= to <= v@.len(),
    ensures
        r@ == without(v@, from as int, to as int),
{
    let mut out: Vec<char> = Vec::new();
    push_range(&mut out, v, 0, from);
    push_range(&mut out, v, to, v.len());
    proof {
        assert(out@ =~= without(v@, from as int, to as int));
    }
    out
}

/// The characters of `v` with those of `t` inserted before position `at`.
pub fn insert_span(v: &Vec<char>, at: usize, t: &Vec<char>) -> (r: Vec<char>)
    requires
        at <= v@.len(),
    ensures
        r@ == with_inserted(v@, at as int, t@),
{
    let mut out: Vec<char> = Vec::new();
    push_range(&mut out, v, 0, at);
    push_range(&mut out, t, 0, t.len());
    push_range(&mut out, v, at, v.len());
    proof {
        assert(out@ =~= with_inserted(v@, at as int, t@));
    }
    out
}

// ---- Character classes ----------------------------------------------------

/// The characters with the Unicode `White_Space` property.
pub open spec fn is_space(c: char) -> bool {
    let n = c as u32;
    ||| 0x09 <= n <= 0x0d
    ||| n == 0x20
    ||| n == 0x85
    ||| n == 0xa0
    ||| n == 0x1680
    ||| 0x2000 <= n <= 0x200a
    ||| n == 0x2028
    ||| n == 0x2029
    ||| n == 0x202f
    ||| n == 0x205f
    ||| n == 0x3000
}

/// Whether `c` is white space.
pub fn is_whitespace(c: char) -> (r: bool)
    ensures
        r == is_space(c),
{
    let n: u32 = c as u32;
    (0x09 <= n && n <= 0x0d) || n == 0x20 || n == 0x85 || n == 0xa0 || n == 0x1680 || (0x2000 <= n
        && n <= 0x200a) || n == 0x2028 || n == 0x2029 || n == 0x202f || n == 0x205f || n == 0x3000
}

/// First position at or after `from` that holds white space, or the length.
pub open spec fn space_from(s: Seq<char>, from: int) -> int
    decreases s.len() - from,
{
    if from >= s.len() {
        s.len() as int
    } else if is_space(s[from]) {
        from
    } else {
        space_from(s, from + 1)
    }
}

/// First position at or after `from` that holds no white space, or the length.
pub open spec fn skip_space(s: Seq<char>, from: int) -> int
    decreases s.len() - from,
{
    if from >= s.len() {
        s.len() as int
    } else if !is_space(s[from]) {
        from
    } else {
        skip_space(s, from + 1)
    }
}

/// Position just after the last character before `to` that is no white space,
/// or 0.
pub open spec fn rskip_space(s: Seq<char>, to: int) -> int
    decreases to,
{
    if to <= 0 {
        0
    } else if !is_space(s[to - 1]) {
        to
    } else {
        rskip_space(s, to - 1)
    }
}

pub proof fn lemma_space_from(s: Seq<char>, from: int)
    requires
        0 <= from <= s.len(),
    ensures
        from <= space_from(s, from) <= s.len(),
        space_from(s, from) < s.len() ==> is_space(s[space_from(s, from)]),
        forall|i: int| from <= i < space_from(s, from) ==> !is_space(s[i]),
    decreases s.len() - from,
{
    if from < s.len() && !is_space(s[from]) {
        lemma_space_from(s, from + 1);
    }
}

pub proof fn lemma_skip_space(s: Seq<char>, from: int)
    requires
        0 <= from <= s.len(),
    ensures
        from <= skip_space(s, from) <= s.len(),
        skip_space(s, from) < s.len() ==> !is_space(s[skip_space(s, from)]),
        forall|i: int| from <= i < skip_space(s, from) ==> is_space(s[i]),
    decreases s.len() - from,
{
    if from < s.len() && is_space(s[from]) {
        lemma_skip_space(s, from + 1);
    }
}

pub proof fn lemma_rskip_space(s: Seq<char>, to: int)
    requires
        0 <= to <= s.len(),
    ensures
        0 <= rskip_space(s, to) <= to,
        rskip_space(s, to) > 0 ==> !is_space(s[rskip_space(s, to) - 1]),
        forall|i: int| rskip_space(s, to) <= i < to ==> is_space(s[i]),
    decreases to,
{
    if to > 0 && is_space(s[to - 1]) {
        lemma_rskip_space(s, to - 1);
    }
}

/// Position of the first white space at or after `from`, or the length.
pub fn find_space(v: &Vec<char>, from: usize) -> (r: usize)
    requires
        from <= v@.len(),
    ensures
        r == space_from(v@, from as int),
        from <= r <= v@.len(),
{
    let mut i: usize = from;
    while i < v.len() && !is_whitespace(v[i])
        invariant
            from <= i <= v@.len(),
            space_from(v@, from as int) == space_from(v@, i as int),
        decreases v@.len() - i,
    {
        i = i + 1;
    }
    i
}

/// `s` without the white space around it.
pub open spec fn trim(s: Seq<char>) -> Seq<char> {
    let end = rskip_space(s, s.len() as int);
    let start = skip_space(s, 0);
    if start >= end {
        Seq::empty()
    } else {
        s.subrange(start, end)
    }
}

/// The bounds of the text without the white space around it; equal bounds when
/// nothing else is there.
pub fn trim_bounds(v: &Vec<char>) -> (r: (usize, usize))
    ensures
        r.0 <= r.1 <= v@.len(),
        v@.subrange(r.0 as int, r.1 as int) == trim(v@),
{
    let mut start: usize = 0;
    while start < v.len() && is_whitespace(v[start])
        invariant
            start <= v@.len(),
            skip_space(v@, 0) == skip_space(v@, start as int),
        decreases v@.len() - start,
    {
        start = start + 1;
    }
    let mut end: usize = v.len();
    while end > start && is_whitespace(v[end - 1])
        invariant
            start <= end <= v@.len(),
            rskip_space(v@, v@.len() as int) == rskip_space(v@, end as int),
        decreases end,
    {
        end = end - 1;
    }
    proof {
        lemma_skip_space(v@, 0);
        lemma_rskip_space(v@, v@.len() as int);
        if start < end {
            assert(skip_space(v@, 0) == start);
            assert(rskip_space(v@, v@.len() as int) == end);
        } else {
            lemma_rskip_space(v@, end as int);
        }
        assert(v@.subrange(start as int, end as int) =~= trim(v@));
    }
    (start, end)
}

/// `s` without the white space around it.
pub fn trimmed(s: &str) -> (r: String)
    ensures
        r@ == trim(s@),
{
    let v: Vec<char> = to_chars(s);
    let (a, b) = trim_bounds(&v);
    from_range(&v, a, b)
}

/// Whether `s` holds nothing but white space.
pub open spec fn is_blank(s: Seq<char>) -> bool {
    forall|i: int| 0 <= i < s.len() ==> is_space(s[i])
}

/// Whether nothing is left of `s` without white space.
pub fn blank(s: &str) -> (r: bool)
    ensures
        r == is_blank(s@),
        r == (trim(s@).len() == 0),
{
    let v: Vec<char> = to_chars(s);
    let (a, b) = trim_bounds(&v);
    proof {
        lemma_skip_space(v@, 0);
        lemma_rskip_space(v@, v@.len() as int);
        if a == b {
            assert(trim(v@).len() == 0);
            assert(skip_space(v@, 0) >= rskip_space(v@, v@.len() as int));
            assert forall|i: int| 0 <= i < v@.len() implies is_space(v@[i]) by {
                if i >= skip_space(v@, 0) {
                    assert(i >= rskip_space(v@, v@.len() as int));
                }
            }
        } else {
            assert(trim(v@).len() > 0);
            assert(!is_space(v@[skip_space(v@, 0)]));
        }
    }
    a == b
}

// ---- Comparing ------------------------------------------------------------

/// Whether two strings hold the same characters.
pub fn same(a: &str, b: &str) -> (r: bool)
    ensures
        r == (a@ == b@),
{
    let x: Vec<char> = to_chars(a);
    let y: Vec<char> = to_chars(b);
    same_chars(&x, &y)
}

/// Whether two character vectors hold the same characters.
pub fn same_chars(x: &Vec<char>, y: &Vec<char>) -> (r: bool)
    ensures
        r == (x@ == y@),
{
    if x.len() != y.len() {
        return false;
    }
    let mut i: usize = 0;
    while i < x.len()
        invariant
            i <= x@.len() == y@.len(),
            forall|j: int| 0 <= j < i ==> x@[j] == y@[j],
        decreases x@.len() - i,
    {
        if x[i] != y[i] {
            return false;
        }
        i = i + 1;
    }
    proof {
        assert(x@ =~= y@);
    }
    true
}

/// Whether `p` stands in `s` at position `at`.
pub open spec fn occurs_at(s: Seq<char>, p: Seq<char>, at: int) -> bool {
    0 <= at && at + p.len() <= s.len() && s.subrange(at, at + p.len()) == p
}

/// Whether `p` stands in `s` at position `at`.
pub fn stands_at(s: &Vec<char>, p: &Vec<char>, at: usize) -> (r: bool)
    requires
        at <= s@.len(),
    ensures
        r == occurs_at(s@, p@, at as int),
{
    let n: usize = s.len();
    if n - at < p.len() {
        return false;
    }
    let mut i: usize = 0;
    while i < p.len()
        invariant
            i <= p@.len(),
            at + p@.len() <= n,
            n == s@.len(),
            forall|j: int| 0 <= j < i ==> s@[at + j] == p@[j],
        decreases p@.len() - i,
    {
        if s[at + i] != p[i] {
            proof {
                assert(s@.subrange(at as int, at + p@.len())[i as int] == s@[at + i]);
            }
            return false;
        }
        i = i + 1;
    }
    proof {
        assert(s@.subrange(at as int, at + p@.len()) =~= p@);
    }
    true
}

/// Whether `s` begins with `p`.
pub open spec fn begins_with(s: Seq<char>, p: Seq<char>) -> bool {
    occurs_at(s, p, 0)
}

/// Whether `s` begins with `p`.
pub fn starts_with(s: &str, p: &str) -> (r: bool)
    ensures
        r == begins_with(s@, p@),
{
    let a: Vec<char> = to_chars(s);
    let b: Vec<char> = to_chars(p);
    stands_at(&a, &b, 0)
}

/// Whether `p` occurs anywhere in `s`.
pub open spec fn has_text(s: Seq<char>, p: Seq<char>) -> bool {
    exists|at: int| occurs_at(s, p, at)
}

/// Whether `p` occurs anywhere in `s`.
pub fn contains(s: &str, p: &str) -> (r: bool)
    ensures
        r == has_text(s@, p@),
{
    let a: Vec<char> = to_chars(s);
    let b: Vec<char> = to_chars(p);
    let mut at: usize = 0;
    while at < a.len()
        invariant
            at <= a@.len(),
            a@ == s@,
            b@ == p@,
            forall|j: int| 0 <= j < at ==> !occurs_at(a@, b@, j),
        decreases a@.len() - at,
    {
        if stands_at(&a, &b, at) {
            return true;
        }
        at = at + 1;
    }
    let r: bool = stands_at(&a, &b, at);
    proof {
        if r {
            assert(occurs_at(s@, p@, at as int));
        }
    }
    r
}

/// Lexicographic order of texts by code point.
pub open spec fn precedes(a: Seq<char>, b: Seq<char>) -> bool
    decreases a.len(),
{
    if b.len() == 0 {
        false
    } else if a.len() == 0 {
        true
    } else if a[0] == b[0] {
        precedes(a.drop_first(), b.drop_first())
    } else {
        a[0] < b[0]
    }
}

// ---- Lists of strings -----------------------------------------------------

/// The texts of a list of strings.
pub open spec fn texts(v: Seq<String>) -> Seq<Seq<char>> {
    v.map_values(|s: String| s@)
}

/// Whether `s` is one of the strings of `v`.
pub fn list_has(v: &Vec<String>, s: &str) -> (r: bool)
    ensures
        r == texts(v@).contains(s@),
{
    let mut i: usize = 0;
    while i < v.len()
        invariant
            i <= v@.len(),
            forall|j: int| 0 <= j < i ==> v@[j]@ != s@,
        decreases v@.len() - i,
    {
        if same(v[i].as_str(), s) {
            proof {
                assert(texts(v@)[i as int] == s@);
            }
            return true;
        }
        i = i + 1;
    }
    false
}

/// A copy of a list of strings.
pub fn copy_strings(v: &Vec<String>) -> (r: Vec<String>)
    ensures
        texts(r@) == texts(v@),
        r@ == v@,
{
    let mut out: Vec<String> = Vec::new();
    let mut i: usize = 0;
    while i < v.len()
        invariant
            i <= v@.len(),
            out@ == v@.take(i as int),
        decreases v@.len() - i,
    {
        let s: String = v[i].clone();
        out.push(s);
        i = i + 1;
        proof {
            assert(out@ =~= v@.take(i as int));
        }
    }
    proof {
        assert(v@.take(i as int) =~= v@);
    }
    out
}

/// The strings of `v` with `sep` between them.
pub open spec fn joined(v: Seq<Seq<char>>, sep: Seq<char>) -> Seq<char>
    decreases v.len(),
{
    if v.len() == 0 {
        Seq::empty()
    } else if v.len() == 1 {
        v[0]
    } else {
        joined(v.drop_last(), sep) + sep + v.last()
    }
}

/// The strings of `v` with `sep` between them.
pub fn join(v: &Vec<String>, sep: &str) -> (r: String)
    ensures
        r@ == joined(texts(v@), sep@),
{
    let mut out: String = String::new();
    let mut i: usize = 0;
    proof {
        assert(texts(v@).take(0) =~= Seq::empty());
    }
    while i < v.len()
        invariant
            i <= v@.len(),
            out@ == joined(texts(v@).take(i as int), sep@),
        decreases v@.len() - i,
    {
        proof {
            let t = texts(v@).take(i + 1);
            assert(t.drop_last() =~= texts(v@).take(i as int));
            assert(t.last() == v@[i as int]@);
        }
        if i > 0 {
            out.append(sep);
        }
        out.append(v[i].as_str());
        i = i + 1;
        proof {
            assert(out@ =~= joined(texts(v@).take(i as int), sep@));
        }
    }
    proof {
        assert(texts(v@).take(i as int) =~= texts(v@));
    }
    out
}

/// `n` times `c`.
pub open spec fn repeated(c: char, n: nat) -> Seq<char> {
    Seq::new(n, |i: int| c)
}

/// `n` spaces.
pub open spec fn spaces(n: nat) -> Seq<char> {
    repeated(' ', n)
}

/// Appends `n` times `c`.
pub fn push_repeated(out: &mut String, c: char, n: usize)
    ensures
        final(out)@ == old(out)@ + repeated(c, n as nat),
{
    let mut i: usize = 0;
    proof {
        assert(old(out)@ + repeated(c, 0) =~= old(out)@);
    }
    while i < n
        invariant
            i <= n,
            out@ == old(out)@ + repeated(c, i as nat),
        decreases n - i,
    {
        out.push(c);
        i = i + 1;
        proof {
            assert(out@ =~= old(out)@ + repeated(c, i as nat));
        }
    }
}

/// `n` spaces.
pub fn blanks(n: usize) -> (r: String)
    ensures
        r@ == spaces(n as nat),
{
    let mut out: String = String::new();
    push_repeated(&mut out, ' ', n);
    proof {
        assert(out@ =~= spaces(n as nat));
    }
    out
}

/// The two texts one after the other.
pub fn concat2(a: &str, b: &str) -> (r: String)
    ensures
        r@ == a@ + b@,
{
    let mut out: String = String::from_str(a);
    out.append(b);
    out
}

/// The three texts one after the other.
pub fn concat3(a: &str, b: &str, c: &str) -> (r: String)
    ensures
        r@ == a@ + b@ + c@,
{
    let mut out: String = String::from_str(a);
    out.append(b);
    out.append(c);
    out
}

// ---- Numbers --------------------------------------------------------------

/// The decimal digit `d`.
pub open spec fn digit(d: nat) -> char {
    (48 + d) as char
}

/// `n` in decimal.
pub open spec fn decimal(n: nat) -> Seq<char>
    decreases n,
{
    if n < 10 {
        seq![digit(n)]
    } else {
        decimal(n / 10).push(digit(n % 10))
    }
}

/// `n` in decimal.
pub fn decimal_text(n: u64) -> (r: String)
    ensures
        r@ == decimal(n as nat),
    decreases n,
{
    let mut out: String = if n < 10 {
        String::new()
    } else {
        decimal_text(n / 10)
    };
    let d: u8 = (n % 10) as u8;
    out.push((48 + d) as char);
    proof {
        assert(out@ =~= decimal(n as nat));
    }
    out
}

/// Appends `n` in decimal.
pub fn push_decimal(out: &mut String, n: u64)
    ensures
        final(out)@ == old(out)@ + decimal(n as nat),
{
    let d: String = decimal_text(n);
    out.append(d.as_str());
}

// ---- Lines ----------------------------------------------------------------

/// The parts of `s` between newlines; one empty part for an empty text.
pub open spec fn newline_parts(s: Seq<char>) -> Seq<Seq<char>>
    decreases s.len(),
{
    if s.len() == 0 {
        seq![Seq::empty()]
    } else {
        let p = newline_parts(s.drop_last());
        if s.last() == '\n' {
            p.push(Seq::empty())
        } else {
            p.drop_last().push(p.last().push(s.last()))
        }
    }
}

pub proof fn lemma_newline_parts(s: Seq<char>)
    ensures
        newline_parts(s).len() == count_char(s, '\n') + 1,
        newline_parts(s).len() >= 1,
    decreases s.len(),
{
    if s.len() > 0 {
        lemma_newline_parts(s.drop_last());
    }
}

/// The parts of `s` between newlines.
pub fn split_newlines(s: &str) -> (r: Vec<String>)
    ensures
        texts(r@) == newline_parts(s@),
        r@.len() >= 1,
{
    let v: Vec<char> = to_chars(s);
    let mut out: Vec<String> = Vec::new();
    let mut cur: String = String::new();
    let mut i: usize = 0;
    proof {
        assert(v@.take(0) =~= Seq::empty());
        assert(texts(out@).push(cur@) =~= newline_parts(v@.take(0)));
    }
    while i < v.len()
        invariant
            i <= v@.len(),
            v@ == s@,
            texts(out@).push(cur@) == newline_parts(v@.take(i as int)),
        decreases v@.len() - i,
    {
        let ghost before = texts(out@);
        let ghost head = v@.take(i as int);
        proof {
            let t = v@.take(i + 1);
            assert(t.drop_last() =~= head);
            assert(t.last() == v@[i as int]);
            assert(newline_parts(head).drop_last() =~= before);
            assert(newline_parts(head).last() == cur@);
        }
        if v[i] == '\n' {
            let done: String = cur;
            out.push(done);
            cur = String::new();
            proof {
                assert(texts(out@) =~= newline_parts(head));
            }
        } else {
            cur.push(v[i]);
        }
        i = i + 1;
    }
    out.push(cur);
    proof {
        assert(v@.take(i as int) =~= v@);
        assert(texts(out@) =~= newline_parts(s@));
    }
    out
}

/// `l` without a carriage return at its end.
pub open spec fn without_cr(l: Seq<char>) -> Seq<char> {
    if l.len() > 0 && l.last() == '\r' {
        l.drop_last()
    } else {
        l
    }
}

/// The lines of `s` as `str::lines` gives them: `\n` and `\r\n` end a line, and
/// nothing comes after a final line ending.
pub open spec fn lines_of(s: Seq<char>) -> Seq<Seq<char>> {
    let p = newline_parts(s);
    let ended = p.drop_last().map_values(|l: Seq<char>| without_cr(l));
    if p.last().len() == 0 {
        ended
    } else {
        ended.push(p.last())
    }
}

/// The lines of `s`.
pub fn lines(s: &str) -> (r: Vec<String>)
    ensures
        texts(r@) == lines_of(s@),
{
    let parts: Vec<String> = split_newlines(s);
    let n: usize = parts.len();
    let ghost p = newline_parts(s@);
    let ghost ended = p.drop_last().map_values(|l: Seq<char>| without_cr(l));
    let mut out: Vec<String> = Vec::new();
    let mut i: usize = 0;
    proof {
        assert(texts(out@) =~= ended.take(0));
        assert(p.len() == n);
    }
    while i < n - 1
        invariant
            i <= n - 1,
            n == parts@.len() == p.len(),
            texts(parts@) == p,
            ended == p.drop_last().map_values(|l: Seq<char>| without_cr(l)),
            texts(out@) == ended.take(i as int),
        decreases n - i,
    {
        let v: Vec<char> = to_chars(parts[i].as_str());
        let len: usize = v.len();
        let ghost before = texts(out@);
        let line: String = if len > 0 && v[len - 1] == '\r' {
            proof {
                assert(v@.subrange(0, len - 1) =~= v@.drop_last());
            }
            from_range(&v, 0, len - 1)
        } else {
            from_chars(&v)
        };
        out.push(line);
        proof {
            assert(p[i as int] == v@);
            assert(ended[i as int] == line@);
            assert(texts(out@) =~= before.push(line@));
            assert(ended.take(i + 1) =~= before.push(ended[i as int]));
        }
        i = i + 1;
    }
    proof {
        assert(ended.take(i as int) =~= ended);
        assert(p.last() == parts@[n - 1]@);
    }
    if !parts[n - 1].as_str().is_empty() {
        let last: String = parts[n - 1].clone();
        out.push(last);
        proof {
            assert(texts(out@) =~= lines_of(s@));
        }
    }
    out
}

/// The first line of `s`, or nothing.
pub open spec fn first_line_of(s: Seq<char>) -> Seq<char> {
    if lines_of(s).len() > 0 {
        lines_of(s)[0]
    } else {
        Seq::empty()
    }
}

/// The first line of `s`, or nothing.
pub fn first_line(s: &str) -> (r: String)
    ensures
        r@ == first_line_of(s@),
{
    let all: Vec<String> = lines(s);
    if all.len() > 0 {
        proof {
            assert(lines_of(s@)[0] == all@[0]@);
        }
        all[0].clone()
    } else {
        String::new()
    }
}

/// The first line of `s`, cut with an ellipsis to `width` characters.
pub open spec fn clipped_line(s: Seq<char>, width: int) -> Seq<char> {
    let first = first_line_of(s);
    if width <= 0 {
        Seq::empty()
    } else if first.len() <= width {
        first
    } else {
        first.take(width - 1).push('…')
    }
}

/// The first line of `s`, cut with an ellipsis to `width` characters.
pub fn first_line_truncated(s: &str, width: usize) -> (r: String)
    ensures
        r@ == clipped_line(s@, width as int),
        r@.len() <= width,
{
    if width == 0 {
        return String::new();
    }
    let first: String = first_line(s);
    let v: Vec<char> = to_chars(first.as_str());
    if v.len() <= width {
        return first;
    }
    let mut out: String = from_range(&v, 0, width - 1);
    proof {
        assert(v@.subrange(0, width - 1) =~= v@.take(width - 1));
    }
    out.push('…');
    out
}

/// `s` without the newlines at its end.
pub open spec fn trim_newlines(s: Seq<char>) -> Seq<char>
    decreases s.len(),
{
    if s.len() > 0 && s.last() == '\n' {
        trim_newlines(s.drop_last())
    } else {
        s
    }
}

/// `s` without the newlines at its end.
pub fn without_final_newlines(s: &str) -> (r: String)
    ensures
        r@ == trim_newlines(s@),
{
    let v: Vec<char> = to_chars(s);
    let mut end: usize = v.len();
    proof {
        assert(v@.take(v@.len() as int) =~= v@);
    }
    while end > 0 && v[end - 1] == '\n'
        invariant
            end <= v@.len(),
            trim_newlines(v@) == trim_newlines(v@.take(end as int)),
        decreases end,
    {
        proof {
            assert(v@.take(end as int).drop_last() =~= v@.take(end - 1));
            assert(v@.take(end as int).last() == v@[end - 1]);
        }
        end = end - 1;
    }
    proof {
        if end > 0 {
            assert(v@.take(end as int).last() == v@[end - 1]);
        }
        assert(v@.subrange(0, end as int) =~= v@.take(end as int));
    }
    from_range(&v, 0, end)
}

// ---- Case -----------------------------------------------------------------

/// ASCII lower case of a character.
pub open spec fn lower(c: char) -> char {
    if 'A' <= c && c <= 'Z' {
        (c as u32 + 32) as char
    } else {
        c
    }
}

pub open spec fn lowered(s: Seq<char>) -> Seq<char> {
    s.map_values(|c: char| lower(c))
}

/// ASCII lower case of a character.
pub fn lower_char(c: char) -> (r: char)
    ensures
        r == lower(c),
{
    if 'A' <= c && c <= 'Z' {
        let b: u8 = c as u8;
        (b + 32) as char
    } else {
        c
    }
}

/// `s` in ASCII lower case, without the white space around it.
pub fn trimmed_lower(s: &str) -> (r: String)
    ensures
        r@ == lowered(trim(s@)),
{
    let v: Vec<char> = to_chars(s);
    let (a, b) = trim_bounds(&v);
    let ghost t = trim(s@);
    let mut out: String = String::new();
    let mut i: usize = a;
    proof {
        assert(t.len() == b - a);
        assert(out@ =~= lowered(t).take(0));
    }
    while i < b
        invariant
            a <= i <= b <= v@.len(),
            t == v@.subrange(a as int, b as int),
            out@ == lowered(t).take(i - a),
        decreases b - i,
    {
        out.push(lower_char(v[i]));
        proof {
            assert(lowered(t).take(i + 1 - a) =~= lowered(t).take(i - a).push(lowered(t)[i - a]));
        }
        i = i + 1;
    }
    proof {
        assert(lowered(t).take(i - a) =~= lowered(t));
    }
    out
}

} // verus!
