//! The chat pane: which rows of the transcript show, and what a click on each of
//! them is for.

use vstd::prelude::*;
use crate::app::history::{Entries, EntryView, HistoryEntry};
use crate::app::state::{App, AppView, Screen};
use crate::geometry::Rect;
use crate::nav::{min_int, monus};
use crate::style::{Line, LineView, SpanView, line_views, push_line, push_lines};

verus! {

/// An entry as it is drawn.
pub struct RenderedEntry {
    pub lines: Vec<Line>,
    /// The row that unfolds the entry's reasoning.
    pub chip_row: Option<usize>,
    /// Rows that continue the row before them.
    pub continuations: Vec<bool>,
}

#[verifier::ext_equal]
pub struct RenderedView {
    pub lines: Seq<LineView>,
    pub chip_row: Option<usize>,
    pub continuations: Seq<bool>,
}

impl View for RenderedEntry {
    type V = RenderedView;

    open spec fn view(&self) -> RenderedView {
        RenderedView {
            lines: line_views(self.lines@),
            chip_row: self.chip_row,
            continuations: self.continuations@,
        }
    }
}

pub open spec fn rendered_views(v: Seq<RenderedEntry>) -> Seq<RenderedView> {
    v.map_values(|r: RenderedEntry| r@)
}

/// Rows of the pane: their text, the entries that a click on them unfolds, the
/// entries whose tool box they belong to, whether they continue the row before
/// them, and the entries that they show. The empty row behind an entry counts as
/// the entry's.
pub struct Rows {
    pub lines: Vec<Line>,
    pub chips: Vec<Option<usize>>,
    pub boxes: Vec<Option<usize>>,
    pub conts: Vec<bool>,
    pub owners: Vec<Option<usize>>,
}

#[verifier::ext_equal]
pub struct RowsView {
    pub lines: Seq<LineView>,
    pub chips: Seq<Option<usize>>,
    pub boxes: Seq<Option<usize>>,
    pub conts: Seq<bool>,
    pub owners: Seq<Option<usize>>,
}

impl View for Rows {
    type V = RowsView;

    open spec fn view(&self) -> RowsView {
        RowsView {
            lines: line_views(self.lines@),
            chips: self.chips@,
            boxes: self.boxes@,
            conts: self.conts@,
            owners: self.owners@,
        }
    }
}

impl RowsView {
    pub open spec fn wf(self) -> bool {
        self.lines.len() == self.chips.len() == self.boxes.len() == self.conts.len()
            == self.owners.len()
    }

    pub open spec fn plus(self, other: RowsView) -> RowsView {
        RowsView {
            lines: self.lines + other.lines,
            chips: self.chips + other.chips,
            boxes: self.boxes + other.boxes,
            conts: self.conts + other.conts,
            owners: self.owners + other.owners,
        }
    }

    pub open spec fn part(self, from: int, to: int) -> RowsView {
        RowsView {
            lines: self.lines.subrange(from, to),
            chips: self.chips.subrange(from, to),
            boxes: self.boxes.subrange(from, to),
            conts: self.conts.subrange(from, to),
            owners: self.owners.subrange(from, to),
        }
    }
}

/// Rows that only show something of `owner`.
pub open spec fn owned_rows(lines: Seq<LineView>, owner: Option<usize>) -> RowsView {
    RowsView {
        lines,
        chips: Seq::new(lines.len(), |i: int| None),
        boxes: Seq::new(lines.len(), |i: int| None),
        conts: Seq::new(lines.len(), |i: int| false),
        owners: Seq::new(lines.len(), |i: int| owner),
    }
}

/// Rows that show nothing of the transcript.
pub open spec fn still_rows(lines: Seq<LineView>) -> RowsView {
    owned_rows(lines, None)
}

/// The empty row behind entry `idx`.
pub open spec fn gap_row(idx: int) -> RowsView {
    owned_rows(seq![Seq::<SpanView>::empty()], Some(idx as usize))
}

/// `n` empty rows.
pub open spec fn empty_rows(n: int) -> RowsView {
    still_rows(Seq::new(n as nat, |i: int| Seq::<SpanView>::empty()))
}

/// The rows of entry `idx`.
pub open spec fn rows_of_entry(r: RenderedView, idx: int, is_box: bool) -> RowsView {
    RowsView {
        lines: r.lines,
        chips: Seq::new(
            r.lines.len(),
            |i: int|
                if r.chip_row == Some(i as usize) {
                    Some(idx as usize)
                } else {
                    None
                },
        ),
        boxes: Seq::new(
            r.lines.len(),
            |i: int|
                if is_box {
                    Some(idx as usize)
                } else {
                    None
                },
        ),
        conts: Seq::new(r.lines.len(), |i: int| i < r.continuations.len() && r.continuations[i]),
        owners: Seq::new(r.lines.len(), |i: int| Some(idx as usize)),
    }
}

/// Whether an empty row follows entry `idx`. Consecutive messages of agents are
/// one block.
pub open spec fn gap_after(s: Entries, idx: int) -> bool {
    match s[idx] {
        EntryView::User { .. } => true,
        EntryView::ToolBox { .. } => true,
        EntryView::ToolLine { .. } => true,
        EntryView::Agent { .. } => !(idx > 0 && s[idx - 1] is Agent),
        _ => false,
    }
}

/// The rows of the first `n` entries.
pub open spec fn rows_of_history(s: Entries, rendered: Seq<RenderedView>, n: int) -> RowsView
    decreases n,
{
    if n <= 0 {
        still_rows(Seq::empty())
    } else {
        let above = rows_of_history(s, rendered, n - 1).plus(
            rows_of_entry(rendered[n - 1], n - 1, s[n - 1] is ToolBox),
        );
        if gap_after(s, n - 1) {
            above.plus(gap_row(n - 1))
        } else {
            above
        }
    }
}

/// Whether the banner and `m` rows fit a pane of `h` rows.
pub open spec fn banner_floats(b: int, m: int, h: int) -> bool {
    b > 0 && b + m <= h
}

/// The rows that show in a pane of `h` rows, scrolled back by `offset`. Rows are
/// aligned to the bottom. A banner that fits floats in the middle, or lower
/// down right above them; one that does not is the top of what is scrolled.
pub open spec fn shown_rows(
    rows: RowsView,
    banner: Seq<LineView>,
    h: int,
    offset: int,
) -> RowsView {
    let b = banner.len() as int;
    let m = rows.lines.len() as int;
    if banner_floats(b, m, h) {
        let top = min_int((h - b) / 2, h - m - b);
        empty_rows(top).plus(still_rows(banner)).plus(empty_rows(h - m - b - top)).plus(rows)
    } else {
        let all = still_rows(banner).plus(rows);
        if b + m < h {
            empty_rows(h - b - m).plus(all)
        } else {
            let from = b + m - h - shown_offset(b, m, h, offset);
            all.part(from, from + h)
        }
    }
}

/// How far back the pane can be scrolled, `offset` at most.
pub open spec fn shown_offset(b: int, m: int, h: int, offset: int) -> int {
    if banner_floats(b, m, h) {
        0
    } else {
        min_int(offset, monus(b + m, h))
    }
}

proof fn lemma_history_rows(s: Entries, rendered: Seq<RenderedView>, n: int)
    ensures
        rows_of_history(s, rendered, n).wf(),
    decreases n,
{
    if n > 0 {
        lemma_history_rows(s, rendered, n - 1);
    }
}

/// The pane is always full, whatever it holds and however far it is scrolled:
/// text, click targets and continuations have one row for each row of the pane.
pub proof fn pane_is_filled(rows: RowsView, banner: Seq<LineView>, h: int, offset: int)
    requires
        rows.wf(),
        h >= 0,
        offset >= 0,
    ensures
        shown_rows(rows, banner, h, offset).wf(),
        shown_rows(rows, banner, h, offset).lines.len() == h,
{
}

/// A pane that is not scrolled back shows the newest row at its bottom.
pub proof fn newest_row_is_at_the_bottom(rows: RowsView, banner: Seq<LineView>, h: int)
    requires
        rows.wf(),
        h > 0,
        rows.lines.len() > 0,
    ensures
        shown_rows(rows, banner, h, 0).lines.last() == rows.lines.last(),
        shown_rows(rows, banner, h, 0).chips.last() == rows.chips.last(),
        shown_rows(rows, banner, h, 0).boxes.last() == rows.boxes.last(),
        shown_rows(rows, banner, h, 0).owners.last() == rows.owners.last(),
{
}

/// Scrolling one row further back moves every row that still shows down by one.
pub proof fn scrolling_moves_rows_down(
    rows: RowsView,
    banner: Seq<LineView>,
    h: int,
    offset: int,
    i: int,
)
    requires
        rows.wf(),
        0 <= i,
        i + 1 < h,
        0 <= offset,
        offset + 1 <= banner.len() + rows.lines.len() - h,
    ensures
        shown_rows(rows, banner, h, offset + 1).lines[i + 1] == shown_rows(
            rows,
            banner,
            h,
            offset,
        ).lines[i],
        shown_rows(rows, banner, h, offset + 1).chips[i + 1] == shown_rows(
            rows,
            banner,
            h,
            offset,
        ).chips[i],
{
}

impl Rows {
    pub fn new() -> (r: Rows)
        ensures
            r@ == still_rows(Seq::empty()),
    {
        let r = Rows {
            lines: Vec::new(),
            chips: Vec::new(),
            boxes: Vec::new(),
            conts: Vec::new(),
            owners: Vec::new(),
        };
        proof {
            assert(r@ =~= still_rows(Seq::empty()));
        }
        r
    }

    fn append(&mut self, other: Rows)
        ensures
            final(self)@ == old(self)@.plus(other@),
    {
        let ghost v = self@;
        let ghost o = other@;
        let mut other: Rows = other;
        push_lines(&mut self.lines, other.lines);
        self.chips.append(&mut other.chips);
        self.boxes.append(&mut other.boxes);
        self.conts.append(&mut other.conts);
        self.owners.append(&mut other.owners);
        proof {
            assert(self@ =~= v.plus(o));
        }
    }

    /// Keep the rows from `from` up to `to`.
    fn keep(&mut self, from: usize, to: usize)
        requires
            old(self)@.wf(),
            from <= to <= old(self)@.lines.len(),
        ensures
            final(self)@ == old(self)@.part(from as int, to as int),
    {
        let ghost v = self@;
        self.lines.truncate(to);
        self.chips.truncate(to);
        self.boxes.truncate(to);
        self.conts.truncate(to);
        self.owners.truncate(to);
        self.lines = self.lines.split_off(from);
        self.chips = self.chips.split_off(from);
        self.boxes = self.boxes.split_off(from);
        self.conts = self.conts.split_off(from);
        self.owners = self.owners.split_off(from);
        proof {
            assert(self@ =~= v.part(from as int, to as int));
        }
    }
}

fn owned(lines: Vec<Line>, owner: Option<usize>) -> (r: Rows)
    ensures
        r@ == owned_rows(line_views(lines@), owner),
{
    let n: usize = lines.len();
    let mut out = Rows {
        lines,
        chips: Vec::new(),
        boxes: Vec::new(),
        conts: Vec::new(),
        owners: Vec::new(),
    };
    let mut i: usize = 0;
    while i < n
        invariant
            i <= n == lines@.len(),
            out.lines == lines,
            out.chips@ =~= Seq::new(i as nat, |k: int| None::<usize>),
            out.boxes@ =~= Seq::new(i as nat, |k: int| None::<usize>),
            out.conts@ =~= Seq::new(i as nat, |k: int| false),
            out.owners@ =~= Seq::new(i as nat, |k: int| owner),
        decreases n - i,
    {
        out.chips.push(None);
        out.boxes.push(None);
        out.conts.push(false);
        out.owners.push(owner);
        i = i + 1;
    }
    proof {
        assert(out@ =~= owned_rows(line_views(lines@), owner));
    }
    out
}

fn still(lines: Vec<Line>) -> (r: Rows)
    ensures
        r@ == still_rows(line_views(lines@)),
{
    owned(lines, None)
}

fn gap(idx: usize) -> (r: Rows)
    ensures
        r@ == gap_row(idx as int),
{
    let mut lines: Vec<Line> = Vec::new();
    push_line(&mut lines, Line::blank());
    proof {
        assert(line_views(lines@) =~= seq![Seq::<SpanView>::empty()]);
    }
    owned(lines, Some(idx))
}

fn empty(n: usize) -> (r: Rows)
    ensures
        r@ == empty_rows(n as int),
{
    let mut lines: Vec<Line> = Vec::new();
    let mut i: usize = 0;
    proof {
        assert(line_views(lines@) =~= Seq::new(0nat, |k: int| Seq::<SpanView>::empty()));
    }
    while i < n
        invariant
            i <= n,
            line_views(lines@) == Seq::new(i as nat, |k: int| Seq::<SpanView>::empty()),
        decreases n - i,
    {
        let ghost before = line_views(lines@);
        push_line(&mut lines, Line::blank());
        proof {
            assert(line_views(lines@) =~= Seq::new(
                (i + 1) as nat,
                |k: int| Seq::<SpanView>::empty(),
            ));
        }
        i = i + 1;
    }
    still(lines)
}

fn of_entry(r: RenderedEntry, idx: usize, is_box: bool) -> (out: Rows)
    ensures
        out@ == rows_of_entry(r@, idx as int, is_box),
{
    let n: usize = r.lines.len();
    let mut chips: Vec<Option<usize>> = Vec::new();
    let mut boxes: Vec<Option<usize>> = Vec::new();
    let mut conts: Vec<bool> = Vec::new();
    let mut owners: Vec<Option<usize>> = Vec::new();
    let ghost v = rows_of_entry(r@, idx as int, is_box);
    let mut i: usize = 0;
    while i < n
        invariant
            i <= n == r.lines@.len(),
            v == rows_of_entry(r@, idx as int, is_box),
            chips@ =~= v.chips.take(i as int),
            boxes@ =~= v.boxes.take(i as int),
            conts@ =~= v.conts.take(i as int),
            owners@ =~= v.owners.take(i as int),
        decreases n - i,
    {
        let chip: bool = match r.chip_row {
            Some(c) => c == i,
            None => false,
        };
        chips.push(
            if chip {
                Some(idx)
            } else {
                None
            },
        );
        boxes.push(
            if is_box {
                Some(idx)
            } else {
                None
            },
        );
        let cont: bool = i < r.continuations.len() && r.continuations[i];
        conts.push(cont);
        owners.push(Some(idx));
        i = i + 1;
    }
    let out = Rows { lines: r.lines, chips, boxes, conts, owners };
    proof {
        assert(out@ =~= v);
    }
    out
}

impl AppView {
    /// All rows of the transcript. The streamed answer stands behind all entries.
    pub open spec fn transcript_rows(
        self,
        rendered: Seq<RenderedView>,
        pending: Seq<LineView>,
    ) -> RowsView {
        rows_of_history(self.history, rendered, self.history.len() as int).plus(
            owned_rows(pending, Some(self.history.len() as usize)),
        )
    }

    /// After the chat was drawn in `area`.
    pub open spec fn history_drawn(
        self,
        area: Rect,
        rendered: Seq<RenderedView>,
        pending: Seq<LineView>,
        banner: Seq<LineView>,
    ) -> AppView {
        let rows = self.transcript_rows(rendered, pending);
        let b = banner.len() as int;
        let m = rows.lines.len() as int;
        let h = area.height as int;
        let shown = shown_rows(rows, banner, h, self.screen.scroll_offset as int);
        AppView {
            screen: Screen {
                chat_area: Some(area),
                total_lines: min_int(b + m, usize::MAX as int) as usize,
                visible_lines: area.height as usize,
                scroll_offset: shown_offset(
                    b,
                    m,
                    h,
                    self.screen.scroll_offset as int,
                ) as usize,
                ..self.screen
            },
            clickable_rows: shown.chips,
            box_rows: shown.boxes,
            cont_rows: shown.conts,
            entry_rows: shown.owners,
            ..self
        }
    }
}

impl App {
    fn gap_after_entry(&self, i: usize) -> (r: bool)
        requires
            i < self.history@.len(),
        ensures
            r == gap_after(self@.history, i as int),
    {
        proof {
            assert(self@.history[i as int] == self.history@[i as int]@);
            if i > 0 {
                assert(self@.history[i - 1] == self.history@[i - 1]@);
            }
        }
        match &self.history[i] {
            HistoryEntry::User { .. } => true,
            HistoryEntry::ToolBox { .. } => true,
            HistoryEntry::ToolLine { .. } => true,
            HistoryEntry::Agent { .. } => !(i > 0 && matches!(
                &self.history[i - 1],
                HistoryEntry::Agent { .. }
            )),
            _ => false,
        }
    }

    /// The rows of the transcript, from its entries as they are drawn.
    fn all_rows(&self, rendered: Vec<RenderedEntry>, pending: Vec<Line>) -> (r: Rows)
        requires
            rendered@.len() == self@.history.len(),
        ensures
            r@ == self@.transcript_rows(rendered_views(rendered@), line_views(pending@)),
            r@.wf(),
    {
        let ghost views = rendered_views(rendered@);
        let ghost s = self@.history;
        let n: usize = rendered.len();
        let mut rendered: Vec<RenderedEntry> = rendered;
        let mut rows = Rows::new();
        let mut i: usize = 0;
        while i < n
            invariant
                i <= n == s.len() == views.len() == rendered@.len(),
                s == self@.history,
                self.history@.len() == s.len(),
                forall|k: int| i <= k < n ==> (#[trigger] rendered@[k])@ == views[k],
                rows@ == rows_of_history(s, views, i as int),
            decreases n - i,
        {
            proof {
                assert(s[i as int] == self.history@[i as int]@);
                assert(rendered@[i as int]@ == views[i as int]);
            }
            let mut entry = RenderedEntry {
                lines: Vec::new(),
                chip_row: None,
                continuations: Vec::new(),
            };
            core::mem::swap(&mut entry, &mut rendered[i]);
            let is_box: bool = matches!(&self.history[i], HistoryEntry::ToolBox { .. });
            rows.append(of_entry(entry, i, is_box));
            if self.gap_after_entry(i) {
                rows.append(gap(i));
            }
            i = i + 1;
        }
        rows.append(owned(pending, Some(n)));
        proof {
            lemma_history_rows(s, views, s.len() as int);
        }
        rows
    }

    /// Lay the chat out in `area`: the entries and the streamed answer as they
    /// are drawn, under the banner. Returns the lines to show.
    pub fn lay_out_history(
        &mut self,
        area: Rect,
        rendered: Vec<RenderedEntry>,
        pending: Vec<Line>,
        banner: Vec<Line>,
    ) -> (r: Vec<Line>)
        requires
            rendered@.len() == old(self)@.history.len(),
        ensures
            line_views(r@) == shown_rows(
                old(self)@.transcript_rows(rendered_views(rendered@), line_views(pending@)),
                line_views(banner@),
                area.height as int,
                old(self)@.screen.scroll_offset as int,
            ).lines,
            r@.len() == area.height,
            final(self)@ == old(self)@.history_drawn(
                area,
                rendered_views(rendered@),
                line_views(pending@),
                line_views(banner@),
            ),
    {
        let ghost v = self@;
        let ghost all = v.transcript_rows(rendered_views(rendered@), line_views(pending@));
        let ghost bv = line_views(banner@);
        let rows: Rows = self.all_rows(rendered, pending);
        let h: usize = area.height as usize;
        let b: usize = banner.len();
        let m: usize = rows.lines.len();
        let offset: usize = self.screen.scroll_offset;
        let total: usize = if b > usize::MAX - m {
            usize::MAX
        } else {
            b + m
        };
        proof {
            assert(all.lines.len() == m);
            pane_is_filled(all, bv, h as int, offset as int);
        }
        let (shown, kept) = fit_rows(rows, banner, h, offset);
        proof {
            assert(line_views(shown.lines@).len() == shown.lines@.len());
        }
        self.screen = Screen {
            chat_area: Some(area),
            total_lines: total,
            visible_lines: h,
            scroll_offset: kept,
            ..self.screen
        };
        self.clickable_rows = shown.chips;
        self.box_rows = shown.boxes;
        self.cont_rows = shown.conts;
        self.entry_rows = shown.owners;
        proof {
            assert(self@ =~= v.history_drawn(
                area,
                rendered_views(rendered@),
                line_views(pending@),
                bv,
            ));
        }
        shown.lines
    }
}

/// The rows that show in a pane of `h` rows, and how far back it is scrolled.
pub fn fit_rows(rows: Rows, banner: Vec<Line>, h: usize, offset: usize) -> (r: (Rows, usize))
    requires
        rows@.wf(),
    ensures
        r.0@ == shown_rows(rows@, line_views(banner@), h as int, offset as int),
        r.1 == shown_offset(
            banner@.len() as int,
            rows@.lines.len() as int,
            h as int,
            offset as int,
        ),
{
    let b: usize = banner.len();
    let m: usize = rows.lines.len();
    let ghost bv = line_views(banner@);
    let ghost rv = rows@;
    let mut out: Rows;
    if b > 0 && m <= h && b <= h - m {
        let middle: usize = (h - b) / 2;
        let above: usize = h - m - b;
        let top: usize = if middle < above {
            middle
        } else {
            above
        };
        out = empty(top);
        out.append(still(banner));
        out.append(empty(above - top));
        out.append(rows);
        (out, 0)
    } else if m <= h && b < h - m {
        out = empty(h - m - b);
        out.append(still(banner));
        out.append(rows);
        proof {
            assert(empty_rows(h - bv.len() - rv.lines.len()).plus(still_rows(bv)).plus(rv)
                =~= empty_rows(h - bv.len() - rv.lines.len()).plus(still_rows(bv).plus(rv)));
        }
        (out, 0)
    } else {
        out = still(banner);
        out.append(rows);
        let total: usize = out.lines.len();
        proof {
            assert(out@.lines.len() == bv.len() + rv.lines.len());
        }
        let most: usize = total - h;
        let kept: usize = if offset > most {
            most
        } else {
            offset
        };
        let from: usize = most - kept;
        out.keep(from, from + h);
        (out, kept)
    }
}

} // verus!
