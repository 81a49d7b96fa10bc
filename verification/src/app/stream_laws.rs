//! How the marks of reasoning are found in a stream.

use vstd::prelude::*;
use crate::app::stream::{StreamView, awaited_tag, routed};

verus! {

/// `tag` ends in `d` at `k`.
pub open spec fn ends_at(d: Seq<char>, tag: Seq<char>, k: int) -> bool {
    tag.len() <= k <= d.len() && d.subrange(k - tag.len(), k) == tag
}

/// What the stream writes to where it stands.
pub open spec fn open_part(s: StreamView) -> Seq<char> {
    if s.inside {
        s.reasoning
    } else {
        s.text
    }
}

/// What the stream does not write to.
pub open spec fn other_part(s: StreamView) -> Seq<char> {
    if s.inside {
        s.text
    } else {
        s.reasoning
    }
}

proof fn lemma_tags()
    ensures
        "<think>"@.len() == 7,
        "</think>"@.len() == 8,
        forall|inside: bool| (#[trigger] awaited_tag(inside)).len() >= 7,
        forall|inside: bool| (#[trigger] awaited_tag(inside))[0] == '<',
        forall|inside: bool, i: int|
            0 < i < awaited_tag(inside).len() ==> #[trigger] awaited_tag(inside)[i] != '<',
{
    reveal_strlit("<think>");
    reveal_strlit("</think>");
    assert("<think>"@ =~= seq!['<', 't', 'h', 'i', 'n', 'k', '>']);
    assert("</think>"@ =~= seq!['<', '/', 't', 'h', 'i', 'n', 'k', '>']);
}

/// `p` is the longest end of `d` that begins the awaited tag without being all of it.
pub open spec fn longest_begun(d: Seq<char>, tag: Seq<char>, p: Seq<char>) -> bool {
    &&& p.len() < tag.len()
    &&& p.len() <= d.len()
    &&& p == tag.take(p.len() as int)
    &&& p == d.skip(d.len() - p.len())
    &&& forall|m: int|
        1 <= m <= d.len() && m < tag.len() && #[trigger] d.skip(d.len() - m) == tag.take(m) ==> m
            <= p.len()
}

proof fn lemma_routed(s: StreamView, d: Seq<char>)
    requires
        s.partial.len() == 0,
        forall|k: int| 0 <= k <= d.len() ==> !#[trigger] ends_at(d, awaited_tag(s.inside), k),
    ensures
        ({
            let r = routed(s, d);
            &&& r.inside == s.inside
            &&& open_part(r) + r.partial == open_part(s) + d
            &&& other_part(r) == other_part(s)
            &&& longest_begun(d, awaited_tag(s.inside), r.partial)
        }),
    decreases d.len(),
{
    lemma_tags();
    let tag = awaited_tag(s.inside);
    if d.len() == 0 {
        assert(s.partial =~= tag.take(0));
        assert(s.partial =~= d.skip(0));
        assert(open_part(s) + s.partial =~= open_part(s) + d);
    } else {
        let e = d.drop_last();
        let c = d.last();
        assert forall|k: int| 0 <= k <= e.len() implies !#[trigger] ends_at(e, tag, k) by {
            if ends_at(e, tag, k) {
                assert(d.subrange(k - tag.len(), k) =~= e.subrange(k - tag.len(), k));
                assert(ends_at(d, tag, k));
            }
        }
        lemma_routed(s, e);
        assert(e.push(c) =~= d);
        assert(!ends_at(d, tag, d.len() as int));
        lemma_next(s, e, c);
    }
}

proof fn lemma_next(s: StreamView, e: Seq<char>, c: char)
    requires
        ({
            let r = routed(s, e);
            &&& r.inside == s.inside
            &&& open_part(r) + r.partial == open_part(s) + e
            &&& other_part(r) == other_part(s)
            &&& longest_begun(e, awaited_tag(s.inside), r.partial)
        }),
        !ends_at(e.push(c), awaited_tag(s.inside), e.len() as int + 1),
    ensures
        ({
            let r = routed(s, e).with_char(c);
            &&& r.inside == s.inside
            &&& open_part(r) + r.partial == open_part(s) + e.push(c)
            &&& other_part(r) == other_part(s)
            &&& longest_begun(e.push(c), awaited_tag(s.inside), r.partial)
        }),
{
    lemma_tags();
    let tag = awaited_tag(s.inside);
    let d = e.push(c);
    let r = routed(s, e);
    let p = r.partial;
    let held = p.push(c);
    let w = r.with_char(c);
    assert(d.skip(d.len() - held.len()) =~= held) by {
        assert(e.skip(e.len() - p.len()) == p);
    }
    // an end of `d` that begins the tag is an end of `e` that does, and `c`
    assert forall|m: int|
        1 <= m <= d.len() && m < tag.len() && #[trigger] d.skip(d.len() - m) == tag.take(m) implies m
        - 1 <= p.len() && c == tag[m - 1] by {
        assert(d.skip(d.len() - m)[m - 1] == c);
        assert(tag.take(m)[m - 1] == tag[m - 1]);
        if m > 1 {
            assert(e.skip(e.len() - (m - 1)) =~= tag.take(m - 1)) by {
                assert forall|i: int| 0 <= i < m - 1 implies e[e.len() - (m - 1) + i] == tag[i] by {
                    assert(d.skip(d.len() - m)[i] == tag.take(m)[i]);
                }
            }
        }
    }
    if r.starts_tag(held) {
        assert(tag.subrange(0, held.len() as int) == held);
        assert(tag.take(held.len() as int) =~= held);
        if held.len() == tag.len() {
            assert(held =~= tag);
            assert(d.subrange(d.len() - tag.len(), d.len() as int) =~= d.skip(
                d.len() - held.len(),
            ));
            assert(false);
        }
        assert(w.partial == held);
        assert(open_part(w) + held =~= open_part(s) + d) by {
            assert(open_part(r) + held =~= (open_part(r) + p).push(c));
        }
    } else {
        let f = r.flushed();
        assert(open_part(f) =~= open_part(s) + e);
        assert(other_part(f) == other_part(s));
        if f.starts_tag(seq![c]) {
            assert(tag.subrange(0, 1)[0] == c);
            assert(seq![c] =~= tag.take(1));
            assert(d.skip(d.len() - 1) =~= seq![c]);
            assert(open_part(w) + seq![c] =~= open_part(s) + d);
        } else {
            assert(c != tag[0]) by {
                if c == tag[0] {
                    assert(tag.subrange(0, 1) =~= seq![c]);
                }
            }
            assert(w.partial =~= Seq::empty());
            assert(w.partial =~= tag.take(0));
            assert(w.partial =~= d.skip(d.len() - 0));
            assert(open_part(w) =~= open_part(s) + d);
            assert(open_part(w) + w.partial =~= open_part(s) + d);
            assert forall|m: int|
                1 <= m <= d.len() && m < tag.len() && #[trigger] d.skip(d.len() - m) == tag.take(
                    m,
                ) implies m <= w.partial.len() by {
                assert(m - 1 <= p.len() && c == tag[m - 1]);
                assert(m > 1);
                if m - 1 == p.len() {
                    assert(held =~= tag.take(m));
                    assert(tag.subrange(0, held.len() as int) =~= held);
                } else {
                    let k = p.len() - (m - 1);
                    assert(e[e.len() - (m - 1)] == tag[0]) by {
                        assert(d.skip(d.len() - m)[0] == tag.take(m)[0]);
                    }
                    assert(e.skip(e.len() - p.len())[k] == e[e.len() - (m - 1)]);
                    assert(p[k] == tag[k]);
                    assert(tag[k] == '<');
                }
            }
        }
    }
}

/// As long as no tag is complete, all that comes is written where the stream stands, but
/// for an end that may yet become a tag, which is held back.
pub proof fn text_without_tags_is_kept(s: StreamView, d: Seq<char>, tag: Seq<char>)
    requires
        s.partial.len() == 0,
        s.inside ==> tag == "</think>"@,
        !s.inside ==> tag == "<think>"@,
        forall|k: int| 0 <= k <= d.len() ==> !#[trigger] ends_at(d, tag, k),
    ensures
        ({
            let r = routed(s, d);
            &&& r.inside == s.inside
            &&& open_part(r) + r.partial == open_part(s) + d
            &&& other_part(r) == other_part(s)
            &&& r.partial.len() < tag.len()
            &&& r.partial == tag.take(r.partial.len() as int)
        }),
{
    lemma_tags();
    assert(tag == awaited_tag(s.inside));
    lemma_routed(s, d);
}

/// The first tag that is complete switches the stream over, whatever stands before it:
/// that is written, and the tag is not.
pub proof fn first_tags_switch(s: StreamView, d: Seq<char>)
    requires
        s.partial.len() == 0,
        d.len() > 0,
        ends_at(d, awaited_tag(s.inside), d.len() as int),
        forall|k: int|
            0 <= k < d.len() ==> !#[trigger] ends_at(d, awaited_tag(s.inside), k),
    ensures
        ({
            let r = routed(s, d);
            let before = d.take(d.len() - awaited_tag(s.inside).len());
            &&& r.inside == !s.inside
            &&& r.partial.len() == 0
            &&& s.inside ==> r.reasoning == s.reasoning + before && r.text == s.text
            &&& !s.inside ==> r.text == s.text + before && r.reasoning == s.reasoning
        }),
        awaited_tag(false) == "<think>"@,
        awaited_tag(true) == "</think>"@,
{
    lemma_tags();
    let tag = awaited_tag(s.inside);
    let e = d.drop_last();
    let c = d.last();
    assert forall|k: int| 0 <= k <= e.len() implies !#[trigger] ends_at(e, tag, k) by {
        if ends_at(e, tag, k) {
            assert(d.subrange(k - tag.len(), k) =~= e.subrange(k - tag.len(), k));
            assert(ends_at(d, tag, k));
        }
    }
    lemma_routed(s, e);
    let r = routed(s, e);
    let n = tag.len() as int;
    let whole = d.subrange(d.len() - n, d.len() as int);
    assert(e.skip(e.len() - (n - 1)) =~= tag.take(n - 1)) by {
        assert forall|i: int| 0 <= i < n - 1 implies e[e.len() - (n - 1) + i] == tag[i] by {
            assert(whole[i] == tag[i]);
        }
    }
    assert(r.partial.len() == n - 1);
    assert(c == tag[n - 1]) by {
        assert(whole[n - 1] == tag[n - 1]);
    }
    let held = r.partial.push(c);
    assert(held =~= tag);
    assert(tag.subrange(0, n) =~= tag);
    let before = d.take(d.len() - n);
    assert(open_part(r) =~= open_part(s) + before) by {
        assert(open_part(r) + r.partial == open_part(s) + e);
        let a = open_part(r) + r.partial;
        let b = open_part(s) + e;
        assert(a.len() == open_part(r).len() + (n - 1));
        assert(b.len() == open_part(s).len() + (d.len() - 1));
        assert(open_part(r).len() == open_part(s).len() + before.len());
        assert forall|i: int| 0 <= i < open_part(r).len() implies open_part(r)[i] == (open_part(s)
            + before)[i] by {
            assert(a[i] == b[i]);
        }
    }
}

} // verus!
