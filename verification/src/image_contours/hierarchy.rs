//! Tracking of the enclosing contour over a shared point array.
//!
//! This form of the tracker keeps no storage of its own: the head points
//! live in the caller's point array, and only the identifier of the contour
//! enclosing the scan position is held here.

use vstd::prelude::*;
use super::types::{Relation, ContourPoint};

verus! {

/// Well-formed contour points: non-empty, every alias pointing strictly
/// down, every relation target in bounds.
pub open spec fn wf_contour_points(t: Seq<ContourPoint>) -> bool {
    &&& 1 <= t.len()
    &&& forall|i: int| 0 <= i < t.len() ==> match (#[trigger] t[i].relation) {
        Relation::Nothing => true,
        Relation::Alias(j) => j < i,
        Relation::Parent(p) => p < t.len(),
        Relation::Child(c) => c < t.len(),
        Relation::Sibling(s) => s < t.len(),
    }
}

/// Follows alias links down to the surviving head.
pub open spec fn unalias_spec(t: Seq<ContourPoint>, id: int) -> int
    decreases id
{
    if 0 <= id < t.len() {
        match t[id].relation {
            Relation::Alias(j) => if j < id {
                unalias_spec(t, j as int)
            } else {
                id
            },
            _ => id,
        }
    } else {
        id
    }
}

/// Resolving an alias stays in bounds and lands on a non-alias point.
pub proof fn lemma_unalias_spec(t: Seq<ContourPoint>, id: int)
    requires
        wf_contour_points(t),
        0 <= id < t.len(),
    ensures
        0 <= unalias_spec(t, id) <= id,
        !(t[unalias_spec(t, id)].relation is Alias),
    decreases id
{
    if t[id].relation is Alias {
        lemma_unalias_spec(t, t[id].relation->Alias_0 as int);
    }
}

/// Where the scan is after crossing the boundary tagged `head`: inside the
/// resolved contour, or, when it already was there, back inside its parent.
pub open spec fn cross_spec(t: Seq<ContourPoint>, current: int, head: int) -> int {
    let index = unalias_spec(t, head);
    if current == index {
        match t[current].relation {
            Relation::Parent(p) => unalias_spec(t, p as int),
            _ => current,
        }
    } else {
        index
    }
}

/// The point array after combining the contours of two head tags.
pub open spec fn combine_spec(t: Seq<ContourPoint>, from_head: int, to_head: int)
    -> Seq<ContourPoint> {
    let f = unalias_spec(t, from_head);
    let g = unalias_spec(t, to_head);
    if f != g {
        let from = if f < g { g } else { f };
        let to = if f < g { f } else { g };
        t.update(from, ContourPoint {
            x: t[from].x,
            y: t[from].y,
            next: t[from].next,
            relation: Relation::Alias(to as usize),
        })
    } else {
        t
    }
}

/// The enclosing-contour identifier after combining.
pub open spec fn combine_current_spec(t: Seq<ContourPoint>, current: int, from_head: int,
    to_head: int) -> int {
    let f = unalias_spec(t, from_head);
    let g = unalias_spec(t, to_head);
    if f != g {
        let from = if f < g { g } else { f };
        let to = if f < g { f } else { g };
        if current == from {
            to
        } else {
            current
        }
    } else {
        current
    }
}

/// Holds which contour encloses the scan position.
pub struct Hierarchy {
    current_contour: usize,
}

impl Hierarchy {
    pub closed spec fn spec_current(&self) -> int {
        self.current_contour as int
    }

    /// The scan starts outside every contour, inside the root.
    pub fn new() -> (r: Self)
        ensures
            r.spec_current() == 0,
    {
        Hierarchy { current_contour: 0 }
    }

    /// Records the enclosing contour as the parent of a newborn head.
    pub fn add_contour(&self, contour_points: &mut Vec<ContourPoint>, head: usize)
        requires
            head < old(contour_points)@.len(),
        ensures
            final(contour_points)@ == old(contour_points)@.update(head as int, ContourPoint {
                x: old(contour_points)@[head as int].x,
                y: old(contour_points)@[head as int].y,
                next: old(contour_points)@[head as int].next,
                relation: Relation::Parent(self.spec_current() as usize),
            }),
    {
        let p = contour_points[head];
        contour_points.set(head, ContourPoint {
            x: p.x,
            y: p.y,
            next: p.next,
            relation: Relation::Parent(self.current_contour),
        });
    }

    /// The scan crosses the boundary tagged `head`.
    pub fn cross_contour(&mut self, contour_points: &Vec<ContourPoint>, head: usize)
        requires
            wf_contour_points(contour_points@),
            head < contour_points@.len(),
            0 <= old(self).spec_current() < contour_points@.len(),
        ensures
            final(self).spec_current()
                == cross_spec(contour_points@, old(self).spec_current(), head as int),
            0 <= final(self).spec_current() < contour_points@.len(),
    {
        proof {
            lemma_unalias_spec(contour_points@, head as int);
        }
        let index = unalias(contour_points, head);
        if self.current_contour == index {
            if let Relation::Parent(parent) = contour_points[self.current_contour].relation {
                proof {
                    lemma_unalias_spec(contour_points@, parent as int);
                }
                self.current_contour = unalias(contour_points, parent);
            }
        } else {
            self.current_contour = index;
        }
    }

    /// A foot joined the contours tagged `from_head` and `to_head`.
    pub fn combine_contours(&mut self, contour_points: &mut Vec<ContourPoint>,
        from_head: usize, to_head: usize)
        requires
            wf_contour_points(old(contour_points)@),
            from_head < old(contour_points)@.len(),
            to_head < old(contour_points)@.len(),
            0 <= old(self).spec_current() < old(contour_points)@.len(),
        ensures
            final(contour_points)@ == combine_spec(old(contour_points)@,
                from_head as int, to_head as int),
            final(self).spec_current() == combine_current_spec(old(contour_points)@,
                old(self).spec_current(), from_head as int, to_head as int),
            wf_contour_points(final(contour_points)@),
            0 <= final(self).spec_current() < final(contour_points)@.len(),
    {
        proof {
            lemma_unalias_spec(contour_points@, from_head as int);
            lemma_unalias_spec(contour_points@, to_head as int);
        }
        let mut from_index = unalias(contour_points, from_head);
        let mut to_index = unalias(contour_points, to_head);
        if from_index != to_index {
            if from_index < to_index {
                let swap = from_index;
                from_index = to_index;
                to_index = swap;
            }
            let p = contour_points[from_index];
            contour_points.set(from_index, ContourPoint {
                x: p.x,
                y: p.y,
                next: p.next,
                relation: Relation::Alias(to_index),
            });
            if self.current_contour == from_index {
                self.current_contour = to_index;
            }
        }
    }
}

/// Follows alias links among the contour points down to the surviving head.
pub fn unalias(contour_points: &Vec<ContourPoint>, point: usize) -> (r: usize)
    requires
        wf_contour_points(contour_points@),
        point < contour_points@.len(),
    ensures
        r == unalias_spec(contour_points@, point as int),
        r <= point,
        !(contour_points@[r as int].relation is Alias),
{
    proof {
        lemma_unalias_spec(contour_points@, point as int);
    }
    let mut index = point;
    loop
        invariant
            wf_contour_points(contour_points@),
            index < contour_points@.len(),
            index <= point,
            unalias_spec(contour_points@, index as int)
                == unalias_spec(contour_points@, point as int),
        ensures
            index == unalias_spec(contour_points@, point as int),
        decreases index,
    {
        if let Relation::Alias(head) = contour_points[index].relation {
            proof {
                lemma_unalias_spec(contour_points@, head as int);
            }
            index = head;
        } else {
            break;
        }
    }
    index
}

} // verus!
