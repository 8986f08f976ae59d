//! Contour handles and iterators over the finished flat table.

use vstd::prelude::*;
use super::table_builder::{TableItem, wf_table};
use super::types::Relation;

verus! {

/// A contour of the finished table: the index of its head point and whether
/// the contour is a hole.
pub struct Contour<'a> {
    table: &'a [TableItem],
    is_hole: bool,
    start_index: usize,
}

impl<'a> Contour<'a> {
    pub closed spec fn spec_table(&self) -> Seq<TableItem> {
        self.table@
    }

    pub closed spec fn spec_is_hole(&self) -> bool {
        self.is_hole
    }

    pub closed spec fn start(&self) -> int {
        self.start_index as int
    }

    pub open spec fn wf(&self) -> bool {
        &&& wf_table(self.spec_table())
        &&& 0 <= self.start() < self.spec_table().len()
    }

    pub fn new(table: &'a [TableItem], is_hole: bool, start_index: usize) -> (r: Self)
        requires
            wf_table(table@),
            start_index < table@.len(),
        ensures
            r.wf(),
            r.spec_table() == table@,
            r.spec_is_hole() == is_hole,
            r.start() == start_index as int,
    {
        Self { table, is_hole, start_index }
    }

    /// Whether this contour bounds a hole.
    pub fn is_hole(&self) -> (r: bool)
        ensures
            r == self.spec_is_hole(),
    {
        self.is_hole
    }

    /// Walks the contour's control points, the head point first.
    pub fn control_points(&self) -> (r: ControlPointIter<'a>)
        requires
            self.wf(),
        ensures
            r.wf(),
            r.table() == self.spec_table(),
            r.start() == self.start(),
            r.current() == Some(self.start() as usize),
    {
        ControlPointIter {
            table: self.table,
            start_index: self.start_index,
            current_index: Some(self.start_index),
        }
    }
}

/// Walks one contour ring along the `next` links.
pub struct ControlPointIter<'a> {
    table: &'a [TableItem],
    start_index: usize,
    current_index: Option<usize>,
}

impl<'a> ControlPointIter<'a> {
    pub closed spec fn table(&self) -> Seq<TableItem> {
        self.table@
    }

    pub closed spec fn start(&self) -> int {
        self.start_index as int
    }

    pub closed spec fn current(&self) -> Option<usize> {
        self.current_index
    }

    pub open spec fn wf(&self) -> bool {
        &&& wf_table(self.table())
        &&& 0 <= self.start() < self.table().len()
        &&& match self.current() {
            Some(i) => i < self.table().len(),
            None => true,
        }
    }

    /// Returns the current point's coordinates and steps along the ring,
    /// stopping when the walk has come back to its start.
    pub fn next(&mut self) -> (r: Option<(u32, u32)>)
        requires
            old(self).wf(),
        ensures
            final(self).wf(),
            final(self).table() == old(self).table(),
            final(self).start() == old(self).start(),
            match old(self).current() {
                Some(i) => {
                    let point = old(self).table()[i as int];
                    &&& r == Some((point.x, point.y))
                    &&& final(self).current()
                        == if point.next != old(self).start() as usize {
                            Some(point.next)
                        } else {
                            None::<usize>
                        }
                },
                None => r == None::<(u32, u32)> && final(self).current() == None::<usize>,
            },
    {
        match self.current_index {
            Some(index) => {
                let point = &self.table[index];
                self.current_index = if point.next != self.start_index {
                    Some(point.next)
                } else {
                    None
                };
                Some((point.x, point.y))
            },
            None => None,
        }
    }
}

/// Iterates sibling contours along the `Sibling` links that the final pass
/// left on each head's ring successor.
pub struct SiblingContourIter<'a> {
    table: &'a [TableItem],
    is_hole: bool,
    current_index: Option<usize>,
}

impl<'a> SiblingContourIter<'a> {
    pub closed spec fn table(&self) -> Seq<TableItem> {
        self.table@
    }

    pub closed spec fn spec_is_hole(&self) -> bool {
        self.is_hole
    }

    pub closed spec fn current(&self) -> Option<usize> {
        self.current_index
    }

    pub open spec fn wf(&self) -> bool {
        &&& wf_table(self.table())
        &&& match self.current() {
            Some(i) => i < self.table().len(),
            None => true,
        }
    }

    /// An iterator over no contours at all.
    pub fn empty(table: &'a [TableItem]) -> (r: Self)
        requires
            wf_table(table@),
        ensures
            r.wf(),
            r.table() == table@,
            r.current() == None::<usize>,
    {
        Self { table, is_hole: false, current_index: None }
    }

    /// An iterator over the sibling chain starting at `start_index`.
    pub fn new(table: &'a [TableItem], is_hole: bool, start_index: usize) -> (r: Self)
        requires
            wf_table(table@),
            start_index < table@.len(),
        ensures
            r.wf(),
            r.table() == table@,
            r.spec_is_hole() == is_hole,
            r.current() == Some(start_index),
    {
        Self { table, is_hole, current_index: Some(start_index) }
    }

    /// Returns a handle on the current contour and steps to the sibling
    /// named on the current head's ring successor.
    pub fn next(&mut self) -> (r: Option<Contour<'a>>)
        requires
            old(self).wf(),
        ensures
            final(self).wf(),
            final(self).table() == old(self).table(),
            final(self).spec_is_hole() == old(self).spec_is_hole(),
            match old(self).current() {
                Some(i) => {
                    let t = old(self).table();
                    let successor = t[t[i as int].next as int];
                    &&& match r {
                        Some(contour) => contour.wf()
                            && contour.spec_table() == t
                            && contour.spec_is_hole() == old(self).spec_is_hole()
                            && contour.start() == i as int,
                        None => false,
                    }
                    &&& final(self).current() == match successor.relation {
                        Relation::Sibling(sibling) => Some(sibling),
                        _ => None::<usize>,
                    }
                },
                None => r is None && final(self).current() == None::<usize>,
            },
    {
        match self.current_index {
            Some(index) => {
                let point = &self.table[index];
                let next_point = &self.table[point.next];
                self.current_index = if let Relation::Sibling(sibling) = next_point.relation {
                    Some(sibling)
                } else {
                    None
                };
                Some(Contour {
                    table: self.table,
                    is_hole: self.is_hole,
                    start_index: index,
                })
            },
            None => None,
        }
    }
}

} // verus!
