//! The run-based variant of the feature automaton.
//!
//! It takes the comparison of the two rows' next change positions as input
//! — `Greater` where only the top row changes, `Less` where only the bottom
//! row changes, `Equal` where both do — and steps through the same six
//! states as the row pair automaton.

use vstd::prelude::*;
use std::cmp::Ordering;
use crate::image_contour_collection::row_pair_changes::RowPairChangeKind;
use crate::image_contour_collection::feature_automaton::{FeatureKind, transition};
use super::types::Feature;

verus! {

/// The side a comparison outcome stands for: the top row changes first
/// where its next change is the smaller one.
pub open spec fn kind_of_ordering(ordering: Ordering) -> RowPairChangeKind {
    match ordering {
        Ordering::Greater => RowPairChangeKind::Top,
        Ordering::Less => RowPairChangeKind::Bottom,
        Ordering::Equal => RowPairChangeKind::Both,
    }
}

/// The run-based feature for each feature kind of the row pair automaton.
pub open spec fn feature_of_kind(kind: FeatureKind) -> Feature {
    match kind {
        FeatureKind::Nothing => Feature::Nothing,
        FeatureKind::Head => Feature::Head,
        FeatureKind::Vertical => Feature::Vertical,
        FeatureKind::LeftShelf => Feature::LeftShelf,
        FeatureKind::RightShelf => Feature::RightShelf,
        FeatureKind::InnerFoot => Feature::InnerFoot,
        FeatureKind::OuterFoot => Feature::OuterFoot,
    }
}

/// The six-state transducer from run changes to contour features.
pub struct StateMachine {
    state: usize,
    x: u32,
}

impl StateMachine {
    pub closed spec fn spec_state(&self) -> int {
        self.state as int
    }

    pub closed spec fn spec_x(&self) -> int {
        self.x as int
    }

    pub open spec fn inv(&self) -> bool {
        0 <= self.spec_state() < 6
    }

    /// A fresh machine: outside any ring.
    pub fn new() -> (r: Self)
        ensures
            r.inv(),
            r.spec_state() == 0,
            r.spec_x() == 0,
    {
        Self { state: 0, x: 0 }
    }

    /// Performs one transition, latching `new_x` where the table says so,
    /// and returns the representative x together with the detected feature.
    pub fn step(&mut self, ordering: Ordering, new_x: u32) -> (r: (u32, Feature))
        requires
            old(self).inv(),
        ensures
            final(self).inv(),
            final(self).spec_state()
                == transition(old(self).spec_state(), kind_of_ordering(ordering)).0,
            final(self).spec_x()
                == if transition(old(self).spec_state(), kind_of_ordering(ordering)).1 {
                    new_x as int
                } else {
                    old(self).spec_x()
                },
            r.0 as int == final(self).spec_x(),
            r.1 == feature_of_kind(
                transition(old(self).spec_state(), kind_of_ordering(ordering)).2),
    {
        let (new_state, update_x, feature): (usize, bool, Feature) = match ordering {
            Ordering::Greater => match self.state {
                0 => (1, false, Feature::Nothing),
                1 => (0, true, Feature::OuterFoot),
                2 => (3, false, Feature::LeftShelf),
                3 => (4, true, Feature::Nothing),
                4 => (3, false, Feature::InnerFoot),
                _ => (0, true, Feature::RightShelf),
            },
            Ordering::Less => match self.state {
                0 => (2, true, Feature::Nothing),
                1 => (3, true, Feature::LeftShelf),
                2 => (0, false, Feature::Head),
                3 => (5, false, Feature::Nothing),
                4 => (0, false, Feature::RightShelf),
                _ => (3, true, Feature::Head),
            },
            Ordering::Equal => match self.state {
                0 => (3, false, Feature::Vertical),
                1 => (4, true, Feature::LeftShelf),
                2 => (5, false, Feature::LeftShelf),
                3 => (0, false, Feature::Vertical),
                4 => (5, false, Feature::InnerFoot),
                _ => (4, true, Feature::Head),
            },
        };
        self.state = new_state;
        if update_x {
            self.x = new_x;
        }
        (self.x, feature)
    }
}

} // verus!
