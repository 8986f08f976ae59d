//! The point record and feature classification of the run-based variant.

use vstd::prelude::*;

verus! {

/// How a table point relates to the contour structure.  A head point
/// carries `Parent` while the scan runs and `Child` or `Nothing` after the
/// links are rebuilt; an absorbed head carries `Alias`; `Sibling` marks the
/// point after a head whose contour has a later sibling.
#[derive(Debug, Clone, Copy, PartialEq, Eq, Structural)]
pub enum Relation {
    Nothing,
    Alias(usize),
    Parent(usize),
    Child(usize),
    Sibling(usize),
}

/// Coordinates of a contour point, the index of the next point of the same
/// ring, and the point's structural relation.
#[derive(Debug, Clone, Copy, PartialEq, Eq, Structural)]
pub struct ContourPoint {
    pub x: u32,
    pub y: u32,
    pub next: usize,
    pub relation: Relation,
}

impl ContourPoint {
    /// A point not yet linked to anything.
    pub fn new(x: u32, y: u32) -> (r: Self)
        ensures
            r == (ContourPoint { x, y, next: 0, relation: Relation::Nothing }),
    {
        Self { x, y, next: 0, relation: Relation::Nothing }
    }

    /// A point whose ring successor is already known.
    pub fn with_next(x: u32, y: u32, next: usize) -> (r: Self)
        ensures
            r == (ContourPoint { x, y, next, relation: Relation::Nothing }),
    {
        Self { x, y, next, relation: Relation::Nothing }
    }
}

/// Contour feature kinds, as the run-based state machine emits them.
#[derive(Debug, Clone, Copy, PartialEq, Eq, Structural)]
pub enum Feature {
    Nothing,
    Head,
    Vertical,
    LeftShelf,
    RightShelf,
    InnerFoot,
    OuterFoot,
}

} // verus!
