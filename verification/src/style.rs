//! Styled text as plain values.

use vstd::prelude::*;

verus! {

/// Terminal colors.
#[derive(Debug, Clone, Copy, PartialEq, Eq, Structural)]
pub enum Color {
    White,
    Black,
    Red,
    Green,
    Yellow,
    Blue,
    Cyan,
    Magenta,
    Indexed(u8),
    Rgb(u8, u8, u8),
}

#[derive(Debug, Clone, Copy, PartialEq, Eq, Structural)]
pub struct Style {
    pub fg: Option<Color>,
    pub bg: Option<Color>,
    pub bold: bool,
    pub italic: bool,
    pub reversed: bool,
    pub dim: bool,
}

impl Style {
    pub open spec fn spec_plain() -> Style {
        Style { fg: None, bg: None, bold: false, italic: false, reversed: false, dim: false }
    }

    pub open spec fn spec_fg(c: Color) -> Style {
        Style { fg: Some(c), ..Style::spec_plain() }
    }

    /// The terminal's own style.
    #[verifier::when_used_as_spec(spec_plain)]
    pub fn plain() -> (r: Style)
        ensures
            r == Style::plain(),
    {
        Style { fg: None, bg: None, bold: false, italic: false, reversed: false, dim: false }
    }

    /// Foreground `c`.
    #[verifier::when_used_as_spec(spec_fg)]
    pub fn fg(c: Color) -> (r: Style)
        ensures
            r == Style::fg(c),
    {
        Style { fg: Some(c), bg: None, bold: false, italic: false, reversed: false, dim: false }
    }

    pub open spec fn spec_bold(self) -> Style {
        Style { bold: true, ..self }
    }

    pub open spec fn spec_italic(self) -> Style {
        Style { italic: true, ..self }
    }

    pub open spec fn spec_on(self, c: Color) -> Style {
        Style { bg: Some(c), ..self }
    }

    pub open spec fn spec_dim(self) -> Style {
        Style { dim: true, ..self }
    }

    /// Background `c`.
    #[verifier::when_used_as_spec(spec_on)]
    pub fn on(self, c: Color) -> (r: Style)
        ensures
            r == self.on(c),
    {
        Style { bg: Some(c), ..self }
    }

    #[verifier::when_used_as_spec(spec_dim)]
    pub fn dim(self) -> (r: Style)
        ensures
            r == self.dim(),
    {
        Style { dim: true, ..self }
    }

    #[verifier::when_used_as_spec(spec_bold)]
    pub fn bold(self) -> (r: Style)
        ensures
            r == self.bold(),
    {
        Style { bold: true, ..self }
    }

    #[verifier::when_used_as_spec(spec_italic)]
    pub fn italic(self) -> (r: Style)
        ensures
            r == self.italic(),
    {
        Style { italic: true, ..self }
    }
}

/// Text in one style.
#[derive(Debug)]
pub struct Span {
    pub text: String,
    pub style: Style,
}

#[verifier::ext_equal]
pub struct SpanView {
    pub text: Seq<char>,
    pub style: Style,
}

impl View for Span {
    type V = SpanView;

    open spec fn view(&self) -> SpanView {
        SpanView { text: self.text@, style: self.style }
    }
}

pub open spec fn span_views(v: Seq<Span>) -> Seq<SpanView> {
    v.map_values(|s: Span| s@)
}

impl Span {
    pub fn styled(text: String, style: Style) -> (r: Span)
        ensures
            r@ == (SpanView { text: text@, style }),
    {
        Span { text, style }
    }

    pub fn raw(text: String) -> (r: Span)
        ensures
            r@ == (SpanView { text: text@, style: Style::plain() }),
    {
        Span { text, style: Style::plain() }
    }

    pub fn new(text: &str, style: Style) -> (r: Span)
        ensures
            r@ == (SpanView { text: text@, style }),
    {
        Span { text: String::from_str(text), style }
    }
}

/// A styled span in specifications.
pub open spec fn sp(text: Seq<char>, style: Style) -> SpanView {
    SpanView { text, style }
}

/// An unstyled span in specifications.
pub open spec fn rawsp(text: Seq<char>) -> SpanView {
    SpanView { text, style: Style::plain() }
}

/// A row of spans.
#[derive(Debug)]
pub struct Line {
    pub spans: Vec<Span>,
}

pub type LineView = Seq<SpanView>;

impl View for Line {
    type V = Seq<SpanView>;

    open spec fn view(&self) -> Seq<SpanView> {
        span_views(self.spans@)
    }
}

pub open spec fn line_views(v: Seq<Line>) -> Seq<LineView> {
    v.map_values(|l: Line| l@)
}

/// The text of a line without its styles.
pub open spec fn line_text(l: LineView) -> Seq<char>
    decreases l.len(),
{
    if l.len() == 0 {
        Seq::empty()
    } else {
        line_text(l.drop_last()) + l.last().text
    }
}

impl Line {
    /// An empty row.
    pub fn blank() -> (r: Line)
        ensures
            r@ == LineView::empty(),
    {
        let r = Line { spans: Vec::new() };
        proof {
            assert(r@ =~= LineView::empty());
        }
        r
    }

    /// A row of one span.
    pub fn of(a: Span) -> (r: Line)
        ensures
            r@ == seq![a@],
    {
        let mut spans: Vec<Span> = Vec::new();
        spans.push(a);
        let r = Line { spans };
        proof {
            assert(r@ =~= seq![a@]);
        }
        r
    }

    /// A row of two spans.
    pub fn of2(a: Span, b: Span) -> (r: Line)
        ensures
            r@ == seq![a@, b@],
    {
        let mut spans: Vec<Span> = Vec::new();
        spans.push(a);
        spans.push(b);
        let r = Line { spans };
        proof {
            assert(r@ =~= seq![a@, b@]);
        }
        r
    }

    /// Adds a span at the end.
    pub fn push(&mut self, a: Span)
        ensures
            final(self)@ == old(self)@.push(a@),
    {
        self.spans.push(a);
        proof {
            assert(self@ =~= old(self)@.push(a@));
        }
    }

    /// The text without its styles.
    pub fn text(&self) -> (r: String)
        ensures
            r@ == line_text(self@),
    {
        let mut out: String = String::new();
        let mut i: usize = 0;
        proof {
            assert(self@.take(0) =~= LineView::empty());
        }
        while i < self.spans.len()
            invariant
                i <= self.spans@.len(),
                out@ == line_text(self@.take(i as int)),
            decreases self.spans@.len() - i,
        {
            proof {
                assert(self@.take(i + 1).drop_last() =~= self@.take(i as int));
                assert(self@.take(i + 1).last() == self.spans@[i as int]@);
            }
            out.append(self.spans[i].text.as_str());
            i = i + 1;
        }
        proof {
            assert(self@.take(i as int) =~= self@);
        }
        out
    }
}

/// Appends a span to a row under construction.
pub fn push_span(v: &mut Vec<Span>, s: Span)
    ensures
        span_views(final(v)@) == span_views(old(v)@).push(s@),
{
    v.push(s);
    proof {
        assert(span_views(v@) =~= span_views(old(v)@).push(s@));
    }
}

/// Appends all spans of `more`.
pub fn push_spans(v: &mut Vec<Span>, more: Vec<Span>)
    ensures
        span_views(final(v)@) == span_views(old(v)@) + span_views(more@),
{
    let mut rest: Vec<Span> = more;
    v.append(&mut rest);
    proof {
        assert(span_views(v@) =~= span_views(old(v)@) + span_views(more@));
    }
}

/// Appends a line.
pub fn push_line(v: &mut Vec<Line>, l: Line)
    ensures
        line_views(final(v)@) == line_views(old(v)@).push(l@),
{
    v.push(l);
    proof {
        assert(line_views(v@) =~= line_views(old(v)@).push(l@));
    }
}

/// Appends all lines of `more`.
pub fn push_lines(v: &mut Vec<Line>, more: Vec<Line>)
    ensures
        line_views(final(v)@) == line_views(old(v)@) + line_views(more@),
{
    let mut rest: Vec<Line> = more;
    v.append(&mut rest);
    proof {
        assert(line_views(v@) =~= line_views(old(v)@) + line_views(more@));
    }
}

} // verus!
