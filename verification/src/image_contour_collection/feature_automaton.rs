//! The six-state automaton that turns row pair changes into contour features.
//!
//! The state encodes which of the two rows of the current pair the scan
//! position is inside: state 0 is outside both, the other five states encode
//! the possible occupancies while a contour is being crossed.  Every change
//! event flips the side it belongs to, so after a whole row pair, whose two
//! change lists both have even length, the automaton is back in state 0.

use vstd::prelude::*;
use crate::image_contour_collection::row_pair_changes::{RowPairChange, RowPairChangeKind};

verus! {

/// Contour feature kinds.
///
/// A `Head` is a top corner starting a new ring downward; an `OuterFoot` or
/// `InnerFoot` is a bottom corner closing two open ring ends, on the outside
/// or the inside of the ring; a `LeftShelf` or `RightShelf` is a vertex where
/// a ring turns across the row pair; `Vertical` marks a ring crossing the row
/// pair without producing a vertex; `Nothing` is an internal transition.
#[derive(Debug, Clone, Copy, PartialEq, Eq, Structural)]
pub enum FeatureKind {
    Nothing,
    Head,
    Vertical,
    LeftShelf,
    RightShelf,
    InnerFoot,
    OuterFoot,
}

/// Contour feature: its kind and the x coordinate of its representative
/// point.  Features combined in scan order give the even points of the
/// contours; `Vertical` features carry no representative point of their own
/// and repeat the most recently latched x.
#[derive(Debug, Clone, Copy, PartialEq, Eq, Structural)]
pub struct Feature {
    pub kind: FeatureKind,
    pub x: i32,
}

/// One transition of the automaton: the new state, whether the feature x
/// coordinate is latched from the incoming change, and the emitted kind.
pub open spec fn transition(state: int, kind: RowPairChangeKind) -> (int, bool, FeatureKind) {
    match kind {
        RowPairChangeKind::Top => {
            if state == 0 { (1, false, FeatureKind::Nothing) }
            else if state == 1 { (0, true, FeatureKind::OuterFoot) }
            else if state == 2 { (3, false, FeatureKind::LeftShelf) }
            else if state == 3 { (4, true, FeatureKind::Nothing) }
            else if state == 4 { (3, false, FeatureKind::InnerFoot) }
            else { (0, true, FeatureKind::RightShelf) }
        },
        RowPairChangeKind::Bottom => {
            if state == 0 { (2, true, FeatureKind::Nothing) }
            else if state == 1 { (3, true, FeatureKind::LeftShelf) }
            else if state == 2 { (0, false, FeatureKind::Head) }
            else if state == 3 { (5, false, FeatureKind::Nothing) }
            else if state == 4 { (0, false, FeatureKind::RightShelf) }
            else { (3, true, FeatureKind::Head) }
        },
        RowPairChangeKind::Both => {
            if state == 0 { (3, false, FeatureKind::Vertical) }
            else if state == 1 { (4, true, FeatureKind::LeftShelf) }
            else if state == 2 { (5, false, FeatureKind::LeftShelf) }
            else if state == 3 { (0, false, FeatureKind::Vertical) }
            else if state == 4 { (5, false, FeatureKind::InnerFoot) }
            else { (4, true, FeatureKind::Head) }
        },
    }
}

/// How many open ring ends a feature takes off the work queue.
pub open spec fn queue_pops(kind: FeatureKind) -> int {
    match kind {
        FeatureKind::Nothing => 0,
        FeatureKind::Head => 0,
        FeatureKind::Vertical => 1,
        FeatureKind::LeftShelf => 1,
        FeatureKind::RightShelf => 1,
        FeatureKind::InnerFoot => 2,
        FeatureKind::OuterFoot => 2,
    }
}

/// Whether the scan position is inside a foreground run of the top row: the
/// parity of the top-row changes consumed so far.
pub open spec fn inside_top(state: int) -> bool {
    state == 1 || state == 3 || state == 5
}

/// Whether the scan position is inside a foreground run of the bottom row:
/// the parity of the bottom-row changes consumed so far.
pub open spec fn inside_bottom(state: int) -> bool {
    state == 2 || state == 3 || state == 4
}

/// The net number of queue entries the automaton state accounts for, beyond
/// one entry per change of the bottom row consumed so far and one per change
/// of the top row still to come.
pub open spec fn state_balance(state: int) -> int {
    if state == 0 { 0 }
    else if state == 1 { 1 }
    else if state == 2 { -1 }
    else if state == 3 { 0 }
    else if state == 4 { 1 }
    else { -1 }
}

/// As long as the queue length keeps the books balanced — one entry per
/// bottom change already consumed, one per top change still to come, plus
/// the state's own balance — every feature finds the open ends it pops.
pub proof fn lemma_pops_available(state: int, kind: RowPairChangeKind, rem_top: int, bi: int,
    qlen: int)
    requires
        0 <= state < 6,
        rem_top >= 0,
        bi >= 0,
        qlen == rem_top + bi + state_balance(state),
        (kind == RowPairChangeKind::Top || kind == RowPairChangeKind::Both) ==> rem_top >= 1,
        (state == 2 || state == 5) ==> bi >= 1,
    ensures
        qlen >= queue_pops(transition(state, kind).2),
{
}

/// Only state 0 lies outside both rows: when both rows' consumed change
/// counts are even, the automaton is back at the start state.
pub proof fn lemma_state_zero(state: int)
    requires
        0 <= state < 6,
        !inside_top(state),
        !inside_bottom(state),
    ensures
        state == 0,
{
}

/// A final-state automaton that takes row pair changes as input
/// and returns contour features as output.
#[derive(Debug, Clone, Copy)]
pub struct FeatureAutomaton {
    /// States are numbered 0 to 5; 0 means outside both rows.
    state: usize,
    /// The x coordinate of the most recently latched representative point.
    feature_x: i32,
}

impl FeatureAutomaton {
    pub open spec fn inv(&self) -> bool {
        0 <= self.spec_state() < 6
    }

    /// The current state, for contracts.
    pub closed spec fn spec_state(&self) -> int {
        self.state as int
    }

    /// The currently latched x coordinate, for contracts.
    pub closed spec fn spec_x(&self) -> int {
        self.feature_x as int
    }

    /// A fresh automaton: outside any ring, latched x zeroed.
    pub fn new() -> (r: Self)
        ensures
            r.inv(),
            r.spec_state() == 0,
            r.spec_x() == 0,
    {
        Self { state: 0, feature_x: 0 }
    }

    /// Performs one transition and returns the detected feature.
    pub fn step(&mut self, change: RowPairChange) -> (f: Feature)
        requires
            old(self).inv(),
        ensures
            final(self).inv(),
            final(self).spec_state() == transition(old(self).spec_state(), change.kind).0,
            final(self).spec_x() == if transition(old(self).spec_state(), change.kind).1 {
                change.x as int
            } else {
                old(self).spec_x()
            },
            f.kind == transition(old(self).spec_state(), change.kind).2,
            f.x as int == final(self).spec_x(),
    {
        let (new_state, update_x, feature_kind): (usize, bool, FeatureKind) = match change.kind {
            RowPairChangeKind::Top => match self.state {
                0 => (1, false, FeatureKind::Nothing),
                1 => (0, true, FeatureKind::OuterFoot),
                2 => (3, false, FeatureKind::LeftShelf),
                3 => (4, true, FeatureKind::Nothing),
                4 => (3, false, FeatureKind::InnerFoot),
                _ => (0, true, FeatureKind::RightShelf),
            },
            RowPairChangeKind::Bottom => match self.state {
                0 => (2, true, FeatureKind::Nothing),
                1 => (3, true, FeatureKind::LeftShelf),
                2 => (0, false, FeatureKind::Head),
                3 => (5, false, FeatureKind::Nothing),
                4 => (0, false, FeatureKind::RightShelf),
                _ => (3, true, FeatureKind::Head),
            },
            RowPairChangeKind::Both => match self.state {
                0 => (3, false, FeatureKind::Vertical),
                1 => (4, true, FeatureKind::LeftShelf),
                2 => (5, false, FeatureKind::LeftShelf),
                3 => (0, false, FeatureKind::Vertical),
                4 => (5, false, FeatureKind::InnerFoot),
                _ => (4, true, FeatureKind::Head),
            },
        };
        self.state = new_state;
        if update_x {
            self.feature_x = change.x;
        }
        Feature { kind: feature_kind, x: self.feature_x }
    }
}

} // verus!
