//! How many terminal columns a text takes.

use vstd::prelude::*;
use crate::style::{LineView, Span, span_views};

verus! {

/// Columns that `unicode_width::UnicodeWidthStr::width` gives for a text.
pub uninterp spec fn display_width(s: Seq<char>) -> nat;

/// The characters that frames are drawn with.
pub open spec fn is_frame_char(c: char) -> bool {
    c == ' ' || c == '─' || c == '│' || c == '╭' || c == '╮' || c == '╰' || c == '╯'
}

pub open spec fn is_frame(s: Seq<char>) -> bool {
    forall|i: int| 0 <= i < s.len() ==> is_frame_char(s[i])
}

/// `unicode_width::UnicodeWidthStr::width`: the columns of a text by the
/// Unicode tables of that crate. The result is named, and the tables are not
/// stated but for the space and the lines and corners of frames, which take one
/// column each.
#[verifier::external_body]
pub(crate) fn text_width(s: &str) -> (r: usize)
    ensures
        r == display_width(s@),
        is_frame(s@) ==> r == s@.len(),
{
    unicode_width::UnicodeWidthStr::width(s)
}

/// Columns of a text: one per character of a frame, the display width of any
/// other text.
pub open spec fn cells(s: Seq<char>) -> nat {
    if is_frame(s) {
        s.len()
    } else {
        display_width(s)
    }
}

/// Columns of a text.
pub fn cell_width(s: &str) -> (r: usize)
    ensures
        r == cells(s@),
{
    text_width(s)
}

/// Columns of a line.
pub open spec fn line_cells(l: LineView) -> nat
    decreases l.len(),
{
    if l.len() == 0 {
        0
    } else {
        line_cells(l.drop_last()) + cells(l.last().text)
    }
}

pub proof fn lemma_line_cells_concat(a: LineView, b: LineView)
    ensures
        line_cells(a + b) == line_cells(a) + line_cells(b),
    decreases b.len(),
{
    if b.len() == 0 {
        assert(a + b =~= a);
    } else {
        assert((a + b).drop_last() =~= a + b.drop_last());
        lemma_line_cells_concat(a, b.drop_last());
    }
}

/// Columns of a list of spans.
pub fn spans_width(spans: &Vec<Span>) -> (r: u128)
    ensures
        r == line_cells(span_views(spans@)),
        r <= spans@.len() * usize::MAX,
{
    let mut sum: u128 = 0;
    let mut i: usize = 0;
    let n: usize = spans.len();
    proof {
        assert(span_views(spans@).take(0) =~= LineView::empty());
    }
    while i < n
        invariant
            i <= n == spans@.len(),
            sum == line_cells(span_views(spans@).take(i as int)),
            sum <= i * usize::MAX,
        decreases n - i,
    {
        proof {
            let t = span_views(spans@).take(i + 1);
            assert(t.drop_last() =~= span_views(spans@).take(i as int));
            assert(t.last() == spans@[i as int]@);
            assert(i * usize::MAX + usize::MAX <= usize::MAX * usize::MAX) by (nonlinear_arith)
                requires
                    i + 1 <= usize::MAX,
            ;
            assert((i + 1) * usize::MAX == i * usize::MAX + usize::MAX) by (nonlinear_arith);
        }
        sum = sum + cell_width(spans[i].text.as_str()) as u128;
        i = i + 1;
    }
    proof {
        assert(span_views(spans@).take(i as int) =~= span_views(spans@));
    }
    sum
}

} // verus!
