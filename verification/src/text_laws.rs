//! What the functions on texts and lists give, said of the texts themselves.

use vstd::prelude::*;
use crate::key::KeyEvent;
use crate::nav::scroll_top;
use crate::text::{begins_with, clipped_line, decimal, digit, first_line_of, has_text, is_blank, is_space, joined, lemma_newline_parts, lemma_rskip_space, lemma_skip_space, lines_of, lower, lowered, newline_parts, occurs_at, precedes, rskip_space, skip_space, trim, trim_newlines, with_inserted, without};
use crate::textfield::FieldView;

verus! {

/// `s` without the white space around it goes from `a` up to `b`.
pub open spec fn trimmed_at(s: Seq<char>, a: int, b: int) -> bool {
    &&& 0 <= a <= b <= s.len()
    &&& forall|i: int| 0 <= i < a ==> is_space(#[trigger] s[i])
    &&& forall|i: int| b <= i < s.len() ==> is_space(#[trigger] s[i])
    &&& a < b ==> !is_space(s[a]) && !is_space(s[b - 1])
}

/// Trimming takes the white space at both ends and nothing else. A text trims to nothing
/// exactly when it is blank, and trimming again changes nothing.
pub proof fn trimming_takes_the_ends(s: Seq<char>)
    ensures
        exists|a: int, b: int| #[trigger] trimmed_at(s, a, b) && trim(s) == s.subrange(a, b),
        (trim(s).len() == 0) == (forall|i: int| 0 <= i < s.len() ==> is_space(#[trigger] s[i])),
        is_blank(s) == (trim(s).len() == 0),
        trim(trim(s)) == trim(s),
{
    lemma_skip_space(s, 0);
    lemma_rskip_space(s, s.len() as int);
    let a = skip_space(s, 0);
    let b = rskip_space(s, s.len() as int);
    if a < b {
        assert(trimmed_at(s, a, b));
        assert(!is_space(s[a]));
        let t = trim(s);
        assert(t[0] == s[a] && t[t.len() - 1] == s[b - 1]);
        lemma_skip_space(t, 0);
        lemma_rskip_space(t, t.len() as int);
        assert(skip_space(t, 0) == 0);
        assert(rskip_space(t, t.len() as int) == t.len());
        assert(t.subrange(0, t.len() as int) =~= t);
    } else {
        assert forall|i: int| 0 <= i < s.len() implies is_space(#[trigger] s[i]) by {}
        let n = s.len() as int;
        assert(trimmed_at(s, n, n));
        assert(s.subrange(n, n) =~= Seq::empty());
        let none: Seq<char> = Seq::empty();
        assert(trim(none) =~= none);
    }
}

/// Tabs, line ends and blanks are white space; letters, digits and the other printed
/// characters of ASCII are not.
pub proof fn printed_characters_are_no_space(c: char)
    ensures
        is_space(' ') && is_space('\t') && is_space('\n') && is_space('\r'),
        '!' <= c && c <= '~' ==> !is_space(c),
{
}

/// The parts between newlines hold none, and with newlines between them they are the
/// text again.
pub proof fn parts_make_the_text(s: Seq<char>)
    ensures
        joined(newline_parts(s), seq!['\n']) == s,
        newline_parts(s).len() > 0,
        forall|i: int, k: int|
            0 <= i < newline_parts(s).len() && 0 <= k < newline_parts(s)[i].len()
                ==> #[trigger] newline_parts(s)[i][k] != '\n',
    decreases s.len(),
{
    let nl = seq!['\n'];
    let p = newline_parts(s);
    if s.len() == 0 {
        assert(joined(p, nl) =~= s);
    } else {
        let q = newline_parts(s.drop_last());
        parts_make_the_text(s.drop_last());
        if s.last() == '\n' {
            assert(p.drop_last() =~= q);
            assert(p.len() >= 2);
            assert(joined(p, nl) =~= joined(q, nl) + nl + Seq::<char>::empty());
            assert(s =~= s.drop_last() + nl);
            assert(joined(p, nl) =~= s);
        } else {
            assert(p.drop_last() =~= q.drop_last());
            assert(s =~= s.drop_last().push(s.last()));
            if p.len() == 1 {
                assert(joined(p, nl) =~= q[0].push(s.last()));
                assert(joined(q, nl) == q[0]);
            } else {
                assert(joined(p, nl) == joined(p.drop_last(), nl) + nl + p.last());
                assert(joined(q, nl) == joined(q.drop_last(), nl) + nl + q.last());
                assert(joined(p, nl) =~= joined(q, nl).push(s.last()));
            }
        }
        assert forall|i: int, k: int| 0 <= i < p.len() && 0 <= k < p[i].len() implies
            #[trigger] p[i][k] != '\n' by {
            if s.last() == '\n' {
                if i < q.len() {
                    assert(p[i] == q[i]);
                    assert(q[i][k] != '\n');
                }
            } else if i < q.len() - 1 {
                assert(p[i] == q[i]);
                assert(q[i][k] != '\n');
            } else if k < q[i].len() {
                assert(q[i][k] != '\n');
            }
        }
    }
}

/// Lines are the parts between newlines, each without one carriage return at its end; a
/// newline at the end of the text begins no further line.
pub proof fn lines_are_the_parts(s: Seq<char>)
    ensures
        ({
            let p = newline_parts(s);
            let l = lines_of(s);
            let n = p.len() - 1;
            &&& l.len() == if p[n].len() == 0 {
                n
            } else {
                n + 1
            }
            &&& forall|i: int|
                0 <= i < n ==> p[i] == (#[trigger] l[i]).push('\r') || p[i] == l[i] && !(
                l[i].len() > 0 && l[i][l[i].len() - 1] == '\r')
            &&& p[n].len() > 0 ==> l[n] == p[n]
        }),
        s.len() > 0 && s[s.len() - 1] != '\n' ==> newline_parts(s)[newline_parts(s).len()
            - 1].len() > 0,
        s.len() == 0 ==> lines_of(s).len() == 0,
{
    let p = newline_parts(s);
    parts_make_the_text(s);
    assert forall|i: int| 0 <= i < p.len() - 1 implies (p[i] == (#[trigger] lines_of(s)[i]).push(
        '\r',
    ) || p[i] == lines_of(s)[i] && !(lines_of(s)[i].len() > 0 && lines_of(s)[i][lines_of(
        s,
    )[i].len() - 1] == '\r')) by {
        assert(p.drop_last()[i] == p[i]);
        if p[i].len() > 0 && p[i].last() == '\r' {
            assert(p[i] =~= p[i].drop_last().push('\r'));
        }
    }
}

/// The first line is the beginning of the text up to its first line end.
pub proof fn first_lines_begin_the_text(s: Seq<char>)
    ensures
        begins_with(s, first_line_of(s)),
        !first_line_of(s).contains('\n'),
        !s.contains('\n') ==> first_line_of(s) == s,
{
    lemma_first_part(s);
    lines_are_the_parts(s);
    parts_make_the_text(s);
    let p = newline_parts(s);
    let f = first_line_of(s);
    if lines_of(s).len() > 0 {
        if p.len() == 1 {
            assert(f == p[0]);
        } else {
            assert(p[0] == f.push('\r') || p[0] == f);
        }
        assert(s.subrange(0, f.len() as int) =~= f);
        assert forall|k: int| 0 <= k < f.len() implies #[trigger] f[k] != '\n' by {
            assert(p[0][k] == f[k]);
        }
    } else {
        assert(s.subrange(0, 0) =~= f);
    }
    if !s.contains('\n') {
        lemma_one_part(s);
        assert(f =~= s);
    }
}

proof fn lemma_one_part(s: Seq<char>)
    requires
        !s.contains('\n'),
    ensures
        newline_parts(s) == seq![s],
    decreases s.len(),
{
    if s.len() == 0 {
        assert(s =~= Seq::empty());
    } else {
        assert(s[s.len() - 1] != '\n');
        assert forall|k: int| 0 <= k < s.drop_last().len() implies s.drop_last()[k] != '\n' by {
            assert(s[k] != '\n');
        }
        lemma_one_part(s.drop_last());
        assert(s.drop_last().push(s.last()) =~= s);
        assert(newline_parts(s) =~= seq![s]);
    }
}

proof fn lemma_first_part(s: Seq<char>)
    ensures
        newline_parts(s)[0].len() <= s.len(),
        s.subrange(0, newline_parts(s)[0].len() as int) == newline_parts(s)[0],
    decreases s.len(),
{
    if s.len() > 0 {
        let t = s.drop_last();
        lemma_first_part(t);
        lemma_newline_parts(t);
        let q = newline_parts(t);
        assert(t.subrange(0, q[0].len() as int) =~= s.subrange(0, q[0].len() as int));
        if s.last() != '\n' && q.len() == 1 {
            parts_make_the_text(t);
            assert(joined(q, seq!['\n']) == q[0]);
            assert(newline_parts(s)[0] =~= s);
            assert(s.subrange(0, s.len() as int) =~= s);
        } else {
            assert(newline_parts(s)[0] == q[0]);
        }
    } else {
        assert(s.subrange(0, 0) =~= Seq::empty());
    }
}

/// A clipped line is the first line where that fits, and else its beginning with an
/// ellipsis, exactly as wide as there is room.
pub proof fn clipped_lines_fit(s: Seq<char>, width: int)
    requires
        width > 0,
    ensures
        first_line_of(s).len() <= width ==> clipped_line(s, width) == first_line_of(s),
        first_line_of(s).len() > width ==> clipped_line(s, width).len() == width && clipped_line(
            s,
            width,
        )[width - 1] == '…' && clipped_line(s, width).take(width - 1) == first_line_of(s).take(
            width - 1,
        ),
        clipped_line(s, 0).len() == 0,
{
    if first_line_of(s).len() > width {
        assert(clipped_line(s, width).take(width - 1) =~= first_line_of(s).take(width - 1));
    }
}

/// Newlines at the end go, all of them, and nothing else goes.
pub proof fn final_newlines_go(s: Seq<char>)
    ensures
        ({
            let t = trim_newlines(s);
            &&& t.len() <= s.len()
            &&& t == s.take(t.len() as int)
            &&& forall|i: int| t.len() <= i < s.len() ==> #[trigger] s[i] == '\n'
            &&& t.len() > 0 ==> t[t.len() - 1] != '\n'
        }),
    decreases s.len(),
{
    if s.len() > 0 && s.last() == '\n' {
        final_newlines_go(s.drop_last());
        let t = trim_newlines(s);
        assert(s.drop_last().take(t.len() as int) =~= s.take(t.len() as int));
        assert forall|i: int| t.len() <= i < s.len() implies #[trigger] s[i] == '\n' by {
            if i < s.len() - 1 {
                assert(s.drop_last()[i] == '\n');
            }
        }
    } else {
        assert(s.take(s.len() as int) =~= s);
    }
}

/// A list is joined by putting the separator between its members and nowhere else.
pub proof fn lists_are_joined(v: Seq<Seq<char>>, x: Seq<char>, sep: Seq<char>)
    ensures
        joined(Seq::empty(), sep).len() == 0,
        joined(seq![x], sep) == x,
        v.len() > 0 ==> joined(v.push(x), sep) == joined(v, sep) + sep + x,
{
    assert(v.push(x).drop_last() =~= v);
}

/// The number that a row of digits says.
pub open spec fn number_of(s: Seq<char>) -> int
    decreases s.len(),
{
    if s.len() == 0 {
        0
    } else {
        10 * number_of(s.drop_last()) + (s.last() as u32 - '0' as u32)
    }
}

/// A number in decimal is a row of digits that says it, without a zero in front of others.
pub proof fn decimals_say_the_number(n: nat)
    ensures
        number_of(decimal(n)) == n,
        decimal(n).len() > 0,
        forall|i: int|
            0 <= i < decimal(n).len() ==> '0' <= #[trigger] decimal(n)[i] && decimal(n)[i] <= '9',
        decimal(n).len() > 1 ==> decimal(n)[0] != '0',
    decreases n,
{
    if n < 10 {
        let s = seq![digit(n)];
        assert(s.drop_last() =~= Seq::empty());
        assert(number_of(s.drop_last()) == 0);
        assert(decimal(n) == s);
    } else {
        decimals_say_the_number(n / 10);
        let s = decimal(n);
        assert(s.drop_last() =~= decimal(n / 10));
        assert(s.last() == digit(n % 10));
        if decimal(n / 10).len() == 1 {
            reveal_with_fuel(number_of, 2);
            assert(decimal(n / 10)[0] != '0') by {
                let d = decimal(n / 10);
                assert(d.drop_last() =~= Seq::empty());
                assert(number_of(d) == (d[0] as u32 - '0' as u32));
            }
        }
    }
}

/// Lower case changes the capital letters of ASCII, each to its small one, and no other
/// character; it leaves no capital behind.
pub proof fn lower_case_has_no_capitals(s: Seq<char>, i: int)
    requires
        0 <= i < s.len(),
    ensures
        lowered(s).len() == s.len(),
        !('A' <= s[i] && s[i] <= 'Z') ==> lowered(s)[i] == s[i],
        'A' <= s[i] && s[i] <= 'Z' ==> lowered(s)[i] as u32 - 'a' as u32 == s[i] as u32
            - 'A' as u32,
        !('A' <= lowered(s)[i] && lowered(s)[i] <= 'Z'),
        lowered(lowered(s)) == lowered(s),
{
    assert forall|k: int| 0 <= k < s.len() implies lower(lower(s[k])) == lower(s[k]) by {}
    assert(lowered(lowered(s)) =~= lowered(s));
}

/// The first place where `a` and `b` differ is at `k`, and `a` is the smaller one there
/// or ends there.
pub open spec fn smaller_at(a: Seq<char>, b: Seq<char>, k: int) -> bool {
    &&& 0 <= k <= a.len()
    &&& k < b.len()
    &&& forall|i: int| 0 <= i < k ==> #[trigger] a[i] == b[i]
    &&& k < a.len() ==> a[k] < b[k]
}

/// Texts are in the order of a dictionary by their code points.
pub proof fn texts_are_ordered(a: Seq<char>, b: Seq<char>)
    ensures
        precedes(a, b) <==> exists|k: int| #[trigger] smaller_at(a, b, k),
        a != b ==> precedes(a, b) != precedes(b, a),
        !precedes(a, a),
    decreases a.len(),
{
    if a.len() > 0 && b.len() > 0 && a[0] == b[0] {
        let c = a.drop_first();
        let d = b.drop_first();
        texts_are_ordered(c, d);
        if precedes(c, d) {
            let k = choose|k: int| #[trigger] smaller_at(c, d, k);
            assert forall|i: int| 0 <= i < k + 1 implies #[trigger] a[i] == b[i] by {
                if i > 0 {
                    assert(c[i - 1] == d[i - 1]);
                }
            }
            assert(smaller_at(a, b, k + 1));
        }
        if exists|k: int| #[trigger] smaller_at(a, b, k) {
            let k = choose|k: int| #[trigger] smaller_at(a, b, k);
            assert forall|i: int| 0 <= i < k - 1 implies #[trigger] c[i] == d[i] by {
                assert(a[i + 1] == b[i + 1]);
            }
            assert(smaller_at(c, d, k - 1));
        }
        if a != b {
            assert(c != d) by {
                if c == d {
                    assert(a =~= seq![a[0]] + c);
                    assert(b =~= seq![b[0]] + d);
                }
            }
        }
        if a == b {
            assert(c == d);
        }
    } else {
        if precedes(a, b) {
            assert(smaller_at(a, b, 0));
        }
        if exists|k: int| #[trigger] smaller_at(a, b, k) {
            let k = choose|k: int| #[trigger] smaller_at(a, b, k);
            if k > 0 {
                assert(a[0] == b[0]);
            }
        }
        if a.len() == 0 && b.len() == 0 {
            assert(a =~= b);
        }
    }
    if a.len() > 0 {
        texts_are_ordered(a.drop_first(), a.drop_first());
    }
}

/// A text begins with another, or holds it, exactly when the rest can be put around it.
pub proof fn texts_hold_their_pieces(s: Seq<char>, p: Seq<char>, a: Seq<char>, b: Seq<char>)
    ensures
        s == p + b ==> begins_with(s, p),
        begins_with(s, p) ==> s == p + s.skip(p.len() as int),
        s == a + p + b ==> has_text(s, p),
        s == a + p + b ==> occurs_at(s, p, a.len() as int),
        occurs_at(s, p, a.len() as int) ==> s == s.take(a.len() as int) + p + s.skip(
            (a.len() + p.len()) as int,
        ),
{
    if s == p + b {
        assert(s.subrange(0, p.len() as int) =~= p);
    }
    if begins_with(s, p) {
        assert forall|i: int| 0 <= i < p.len() implies s[i] == p[i] by {
            assert(s.subrange(0, p.len() as int)[i] == p[i]);
        }
        assert(s =~= p + s.skip(p.len() as int));
    }
    let n = a.len() as int;
    if s == a + p + b {
        assert(s.subrange(n, n + p.len()) =~= p);
        assert(occurs_at(s, p, n));
    }
    if occurs_at(s, p, n) {
        assert forall|i: int| 0 <= i < p.len() implies s[n + i] == p[i] by {
            assert(s.subrange(n, n + p.len())[i] == p[i]);
        }
        assert(s =~= s.take(n) + p + s.skip(n + p.len()));
    }
}

/// A text with something put in holds the same characters before it and behind it, and
/// taking that out again gives the text back.
pub proof fn pieces_are_put_in_and_taken_out(s: Seq<char>, at: int, t: Seq<char>)
    requires
        0 <= at <= s.len(),
    ensures
        with_inserted(s, at, t).len() == s.len() + t.len(),
        with_inserted(s, at, t).take(at) == s.take(at),
        with_inserted(s, at, t).subrange(at, at + t.len()) == t,
        with_inserted(s, at, t).skip((at + t.len()) as int) == s.skip(at),
        without(with_inserted(s, at, t), at, (at + t.len()) as int) == s,
{
    let w = with_inserted(s, at, t);
    assert(w.take(at) =~= s.take(at));
    assert(w.subrange(at, at + t.len()) =~= t);
    assert(w.skip((at + t.len()) as int) =~= s.skip(at));
    assert(without(w, at, (at + t.len()) as int) =~= s);
}

/// A window over a list stays where it is as long as the selected row and the rows next
/// to it are in it, and else moves only as far as it must.
pub proof fn windows_move_as_little_as_needed(selected: int, offset: int, len: int, window: int)
    requires
        0 <= selected < len,
        0 <= offset <= len - window,
        3 <= window,
    ensures
        ({
            let top = scroll_top(selected, offset, len, window);
            &&& offset < selected && selected + 1 < offset + window ==> top == offset
            &&& selected <= offset ==> top == (if selected == 0 {
                0
            } else {
                selected - 1
            })
            &&& selected + 1 >= offset + window ==> top == (if selected + 1 == len {
                len - window
            } else {
                selected + 2 - window
            })
        }),
        len <= window ==> scroll_top(selected, offset, len, window) == 0,
{
}

/// In a line of input a character goes in at the cursor, the deleting keys take the one
/// before it or behind it, and the other keys only move it, never out of the text.
pub proof fn fields_are_edited_at_the_cursor(f: FieldView, key: KeyEvent)
    requires
        f.in_text(),
    ensures
        ({
            let after = f.after_key(key);
            let n = f.text.len() as int;
            let before = f.text.take(f.pos);
            let behind = f.text.skip(f.pos);
            &&& key.code is Char && !key.ctrl && !key.alt ==> after.text == before + seq![
                key.code->Char_0,
            ] + behind && after.pos == f.pos + 1
            &&& key.code is Char && (key.ctrl || key.alt) ==> after == f
            &&& key.code is Backspace && f.pos > 0 ==> after.text == f.text.take(f.pos - 1)
                + behind && after.pos == f.pos - 1
            &&& key.code is Backspace && f.pos == 0 ==> after == f
            &&& key.code is Delete && f.pos < n ==> after.text == before + f.text.skip(f.pos + 1)
                && after.pos == f.pos
            &&& key.code is Delete && f.pos == n ==> after == f
            &&& key.code is Left ==> after.text == f.text && after.pos == (if f.pos == 0 {
                0
            } else {
                f.pos - 1
            })
            &&& key.code is Right ==> after.text == f.text && after.pos == (if f.pos == n {
                n
            } else {
                f.pos + 1
            })
            &&& key.code is Home ==> after.text == f.text && after.pos == 0
            &&& key.code is End ==> after.text == f.text && after.pos == n
            &&& after.in_text()
        }),
{
    let n = f.text.len() as int;
    assert(f.text.subrange(0, f.pos) =~= f.text.take(f.pos));
    assert(f.text.subrange(f.pos, n) =~= f.text.skip(f.pos));
    if f.pos > 0 {
        assert(f.text.subrange(0, f.pos - 1) =~= f.text.take(f.pos - 1));
    }
    if f.pos < n {
        assert(f.text.subrange(f.pos + 1, n) =~= f.text.skip(f.pos + 1));
    }
}

} // verus!
