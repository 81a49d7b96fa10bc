//! The prediction of the next message: shown as a ghost in an empty composer,
//! hidden while the user types, brought back when the composer is cleared.

use vstd::prelude::*;
use crate::editor::text_of;
use crate::text::{find, find_from, from_range, has_char, lemma_has_char, to_chars};

verus! {

/// A prediction in an empty composer. In long mode one of several lines shows
/// its first line before it shows whole.
pub struct PredictionGhost {
    text: String,
    long_mode: bool,
    revealed: bool,
}

#[verifier::ext_equal]
pub struct GhostView {
    pub text: Seq<char>,
    pub long_mode: bool,
    pub revealed: bool,
}

impl View for PredictionGhost {
    type V = GhostView;

    closed spec fn view(&self) -> GhostView {
        GhostView { text: self.text@, long_mode: self.long_mode, revealed: self.revealed }
    }
}

impl GhostView {
    pub open spec fn fresh(text: Seq<char>, long_mode: bool) -> GhostView {
        GhostView { text, long_mode, revealed: false }
    }

    /// Only the first line shows.
    pub open spec fn is_folded(self) -> bool {
        self.long_mode && !self.revealed && has_char(self.text, '\n')
    }

    /// What shows.
    pub open spec fn shown(self) -> Seq<char> {
        if self.is_folded() {
            self.text.take(find_from(self.text, '\n', 0))
        } else {
            self.text
        }
    }
}

impl PredictionGhost {
    pub fn new(text: String, long_mode: bool) -> (r: PredictionGhost)
        ensures
            r@ == GhostView::fresh(text@, long_mode),
    {
        PredictionGhost { text, long_mode, revealed: false }
    }

    fn is_folded(&self) -> (r: bool)
        ensures
            r == self@.is_folded(),
    {
        let v: Vec<char> = to_chars(self.text.as_str());
        proof {
            lemma_has_char(v@, '\n');
        }
        self.long_mode && !self.revealed && find(&v, '\n', 0) < v.len()
    }

    /// The part of the prediction that shows.
    pub fn display_text(&self) -> (r: String)
        ensures
            r@ == self@.shown(),
    {
        if self.is_folded() {
            let v: Vec<char> = to_chars(self.text.as_str());
            let end: usize = find(&v, '\n', 0);
            proof {
                assert(v@.subrange(0, end as int) =~= v@.take(end as int));
            }
            from_range(&v, 0, end)
        } else {
            self.text.clone()
        }
    }

    /// The accept key: a folded prediction unfolds, a whole one is accepted and
    /// its text returned.
    pub fn advance(&mut self) -> (r: Option<String>)
        ensures
            text_of(r) == if old(self)@.is_folded() {
                None
            } else {
                Some(old(self)@.text)
            },
            final(self)@ == if old(self)@.is_folded() {
                (GhostView { revealed: true, ..old(self)@ })
            } else {
                old(self)@
            },
    {
        if self.is_folded() {
            self.revealed = true;
            None
        } else {
            Some(self.text.clone())
        }
    }
}

/// A finished prediction.
pub struct Prediction {
    pub turn: u64,
    pub text: String,
    pub long_mode: bool,
}

#[verifier::ext_equal]
pub struct PredictionRecord {
    pub turn: u64,
    pub text: Seq<char>,
    pub long_mode: bool,
}

impl View for Prediction {
    type V = PredictionRecord;

    open spec fn view(&self) -> PredictionRecord {
        PredictionRecord { turn: self.turn, text: self.text@, long_mode: self.long_mode }
    }
}

/// The prediction of the current turn, and its ghost while the composer is
/// empty.
pub struct PredictionState {
    turn: u64,
    cached: Option<Prediction>,
    ghost_text: Option<PredictionGhost>,
}

#[verifier::ext_equal]
pub struct PredictionView {
    pub turn: u64,
    pub cached: Option<PredictionRecord>,
    pub ghost_text: Option<GhostView>,
}

impl View for PredictionState {
    type V = PredictionView;

    closed spec fn view(&self) -> PredictionView {
        PredictionView {
            turn: self.turn,
            cached: match self.cached {
                Some(p) => Some(p@),
                None => None,
            },
            ghost_text: match self.ghost_text {
                Some(g) => Some(g@),
                None => None,
            },
        }
    }
}

impl PredictionView {
    pub open spec fn initial() -> PredictionView {
        PredictionView { turn: 0, cached: None, ghost_text: None }
    }

    /// A new turn: nothing predicted yet.
    pub open spec fn next_turn(self) -> PredictionView {
        PredictionView {
            turn: if self.turn == u64::MAX {
                0
            } else {
                (self.turn + 1) as u64
            },
            cached: None,
            ghost_text: None,
        }
    }

    /// A result for turn `result_turn`.
    pub open spec fn with_result(
        self,
        result_turn: u64,
        text: Option<Seq<char>>,
        long_mode: bool,
        box_empty: bool,
    ) -> PredictionView {
        if result_turn != self.turn || text is None {
            self
        } else {
            PredictionView {
                cached: Some(PredictionRecord { turn: result_turn, text: text->0, long_mode }),
                ghost_text: if box_empty {
                    Some(GhostView::fresh(text->0, long_mode))
                } else {
                    self.ghost_text
                },
                ..self
            }
        }
    }

    /// The ghost brought in line with whether the composer is empty.
    pub open spec fn reconciled(self, box_empty: bool) -> PredictionView {
        if !box_empty {
            PredictionView { ghost_text: None, ..self }
        } else if self.ghost_text is None && self.cached is Some && self.cached->0.turn
            == self.turn {
            PredictionView {
                ghost_text: Some(GhostView::fresh(self.cached->0.text, self.cached->0.long_mode)),
                ..self
            }
        } else {
            self
        }
    }

    pub open spec fn dropped(self) -> PredictionView {
        PredictionView { cached: None, ghost_text: None, ..self }
    }
}

// ---- Laws -----------------------------------------------------------------

/// A result of an earlier turn changes nothing.
pub proof fn stale_results_are_ignored(
    v: PredictionView,
    turn: u64,
    text: Option<Seq<char>>,
    long_mode: bool,
    box_empty: bool,
)
    requires
        turn != v.turn,
    ensures
        v.with_result(turn, text, long_mode, box_empty) == v,
{
}

/// Typing hides the ghost; clearing the composer in the same turn brings the
/// prediction back, from its first stage, without a new result.
pub proof fn typing_and_clearing_restores(
    v: PredictionView,
    text: Seq<char>,
    long_mode: bool,
    box_empty: bool,
)
    ensures
        ({
            let typed = v.with_result(v.turn, Some(text), long_mode, box_empty).reconciled(false);
            &&& typed.ghost_text is None
            &&& typed.reconciled(true).ghost_text == Some(GhostView::fresh(text, long_mode))
        }),
{
}

/// After a new turn, or once the prediction was taken, an empty composer shows
/// no ghost.
pub proof fn old_predictions_never_return(v: PredictionView)
    ensures
        v.next_turn().reconciled(true).ghost_text is None,
        v.dropped().reconciled(true).ghost_text is None,
{
}

/// The ghost never stands beside typed text.
pub proof fn typed_text_wins(v: PredictionView)
    ensures
        v.reconciled(false).ghost_text is None,
{
}

impl PredictionState {
    pub fn new() -> (r: PredictionState)
        ensures
            r@ == PredictionView::initial(),
    {
        PredictionState { turn: 0, cached: None, ghost_text: None }
    }

    pub fn turn(&self) -> (r: u64)
        ensures
            r == self@.turn,
    {
        self.turn
    }

    /// The ghost, if one shows.
    pub fn ghost(&self) -> (r: Option<&PredictionGhost>)
        ensures
            match r {
                Some(g) => self@.ghost_text == Some(g@),
                None => self@.ghost_text is None,
            },
    {
        match &self.ghost_text {
            Some(g) => Some(g),
            None => None,
        }
    }

    /// The accept key on the ghost; see [`PredictionGhost::advance`].
    pub fn advance_ghost(&mut self) -> (r: Option<String>)
        ensures
            text_of(r) == (match old(self)@.ghost_text {
                Some(g) => if g.is_folded() {
                    None
                } else {
                    Some(g.text)
                },
                None => None,
            }),
            final(self)@ == (PredictionView {
                ghost_text: match old(self)@.ghost_text {
                    Some(g) => Some(
                        if g.is_folded() {
                            GhostView { revealed: true, ..g }
                        } else {
                            g
                        },
                    ),
                    None => None,
                },
                ..old(self)@
            }),
    {
        match self.ghost_text.take() {
            Some(mut g) => {
                let r: Option<String> = g.advance();
                self.ghost_text = Some(g);
                r
            },
            None => None,
        }
    }

    /// A new turn began.
    pub fn begin_turn(&mut self)
        ensures
            final(self)@ == old(self)@.next_turn(),
    {
        self.turn = if self.turn == u64::MAX {
            0
        } else {
            self.turn + 1
        };
        self.cached = None;
        self.ghost_text = None;
    }

    /// A prediction for turn `result_turn` came in.
    pub fn on_result(
        &mut self,
        result_turn: u64,
        text: Option<String>,
        long_mode: bool,
        box_empty: bool,
    )
        ensures
            final(self)@ == old(self)@.with_result(
                result_turn,
                text_of(text),
                long_mode,
                box_empty,
            ),
    {
        if result_turn != self.turn {
            return;
        }
        match text {
            Some(t) => {
                if box_empty {
                    self.ghost_text = Some(PredictionGhost::new(t.clone(), long_mode));
                }
                self.cached = Some(Prediction { turn: result_turn, text: t, long_mode });
            },
            None => {},
        }
    }

    /// Bring the ghost in line with the composer.
    pub fn reconcile(&mut self, box_empty: bool)
        ensures
            final(self)@ == old(self)@.reconciled(box_empty),
    {
        if !box_empty {
            self.ghost_text = None;
            return;
        }
        if self.ghost_text.is_none() {
            match &self.cached {
                Some(p) => {
                    if p.turn == self.turn {
                        self.ghost_text = Some(PredictionGhost::new(p.text.clone(), p.long_mode));
                    }
                },
                None => {},
            }
        }
    }

    /// The prediction was taken.
    pub fn consume(&mut self)
        ensures
            final(self)@ == old(self)@.dropped(),
    {
        self.ghost_text = None;
        self.cached = None;
    }

    /// Predictions were switched off.
    pub fn clear(&mut self)
        ensures
            final(self)@ == old(self)@.dropped(),
    {
        self.cached = None;
        self.ghost_text = None;
    }
}

impl Default for PredictionState {
    fn default() -> (r: PredictionState)
        ensures
            r@ == PredictionView::initial(),
    {
        PredictionState::new()
    }
}

} // verus!
