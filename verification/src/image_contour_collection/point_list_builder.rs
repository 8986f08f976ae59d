//! The append-only point list and its builder.

use vstd::prelude::*;

verus! {

/// A temporary index value for points that do not yet have a `next`.
/// A fully constructed point list should not contain `NONE`s.
pub const NONE: usize = usize::MAX;

/// Coordinates of a contour point
/// and a link to the next point of the same contour ring.
#[derive(Debug, Clone, Copy, PartialEq, Eq, Structural)]
pub struct PointListItem {
    pub x: i32,
    pub y: i32,
    pub next: usize,
}

/// Constructs a contour point list by adding points.
#[derive(Debug)]
pub struct PointListBuilder {
    point_list: Vec<PointListItem>,
}

impl PointListBuilder {
    /// The points added so far, for contracts.
    pub closed spec fn points(&self) -> Seq<PointListItem> {
        self.point_list@
    }

    /// Creates an empty list.
    pub fn new() -> (r: Self)
        ensures
            r.points() == Seq::<PointListItem>::empty(),
    {
        Self { point_list: Vec::new() }
    }

    /// Adds a point that is not yet connected to anything.
    /// Returns its index.
    pub fn add(&mut self, x: i32, y: i32) -> (index: usize)
        ensures
            index == old(self).points().len(),
            final(self).points() == old(self).points().push(
                PointListItem { x, y, next: NONE }),
    {
        let index = self.point_list.len();
        self.point_list.push(PointListItem { x, y, next: NONE });
        index
    }

    /// Adds a point connected to an existing next point.
    /// Returns the index of the new point.
    pub fn add_with_next(&mut self, x: i32, y: i32, next: usize) -> (index: usize)
        ensures
            index == old(self).points().len(),
            final(self).points() == old(self).points().push(
                PointListItem { x, y, next }),
    {
        let index = self.point_list.len();
        self.point_list.push(PointListItem { x, y, next });
        index
    }

    /// Adds a point connected to an existing previous point.
    /// Returns the index of the new point.
    pub fn add_with_previous(&mut self, x: i32, y: i32, previous: usize) -> (index: usize)
        requires
            previous < old(self).points().len(),
        ensures
            index == old(self).points().len(),
            final(self).points() == old(self).points()
                .push(PointListItem { x, y, next: NONE })
                .update(previous as int, PointListItem {
                    x: old(self).points()[previous as int].x,
                    y: old(self).points()[previous as int].y,
                    next: index,
                }),
    {
        let index = self.point_list.len();
        self.point_list.push(PointListItem { x, y, next: NONE });
        let p = self.point_list[previous];
        self.point_list.set(previous, PointListItem { x: p.x, y: p.y, next: index });
        index
    }

    /// Adds a point connected to existing next and previous points.
    /// Does not return anything.
    pub fn add_with_next_and_previous(&mut self, x: i32, y: i32, next: usize, previous: usize)
        requires
            previous < old(self).points().len(),
        ensures
            final(self).points() == old(self).points()
                .push(PointListItem { x, y, next })
                .update(previous as int, PointListItem {
                    x: old(self).points()[previous as int].x,
                    y: old(self).points()[previous as int].y,
                    next: old(self).points().len() as usize,
                }),
    {
        let index = self.point_list.len();
        self.point_list.push(PointListItem { x, y, next });
        let p = self.point_list[previous];
        self.point_list.set(previous, PointListItem { x: p.x, y: p.y, next: index });
    }

    /// Returns the constructed list.
    pub fn into(self) -> (r: Vec<PointListItem>)
        ensures
            r@ == self.points(),
            r@.len() <= usize::MAX,
    {
        let length = self.point_list.len();
        assert(self.points().len() == length);
        self.point_list
    }
}

} // verus!
