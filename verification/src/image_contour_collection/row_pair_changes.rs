//! Changes of a pair of adjacent rows, merged into one ascending stream.
//!
//! Two change lists, each terminated by `END`, are merged by x position.
//! An x that occurs in only one list is emitted with that list's side;
//! an x that occurs in both is emitted once, as `Both`.  The sentinel is
//! never emitted.

use vstd::prelude::*;
use crate::image_contour_collection::row_changes::END;

verus! {

/// In which row of the pair a change has occurred.
#[derive(Debug, Clone, Copy, PartialEq, Eq, Structural)]
pub enum RowPairChangeKind {
    Top,
    Bottom,
    Both,
}

/// Kind and x coordinate of a row pair change.
#[derive(Debug, Clone, Copy, PartialEq, Eq, Structural)]
pub struct RowPairChange {
    pub kind: RowPairChangeKind,
    pub x: i32,
}

/// A well-formed change list: at least the sentinel, the sentinel last and
/// only last, all real changes bounded by `bound` and strictly ascending.
pub open spec fn wf_changes(s: Seq<u32>, bound: int) -> bool {
    &&& s.len() >= 1
    &&& s[s.len() - 1] == END
    &&& bound < END
    &&& forall|i: int| 0 <= i < s.len() - 1 ==> #[trigger] s[i] <= bound
    &&& forall|i: int, j: int| 0 <= i < j < s.len() - 1 ==> s[i] < s[j]
}

/// The merged change stream, starting from position `i` in the top list and
/// `j` in the bottom list.
pub open spec fn merged_changes_from(top: Seq<u32>, bottom: Seq<u32>, i: int, j: int)
    -> Seq<RowPairChange>
    decreases top.len() - i + bottom.len() - j
{
    if 0 <= i < top.len() && 0 <= j < bottom.len() {
        let t = top[i];
        let b = bottom[j];
        if t < b {
            seq![RowPairChange { kind: RowPairChangeKind::Top, x: t as i32 }]
                + merged_changes_from(top, bottom, i + 1, j)
        } else if t > b {
            seq![RowPairChange { kind: RowPairChangeKind::Bottom, x: b as i32 }]
                + merged_changes_from(top, bottom, i, j + 1)
        } else if t != END {
            seq![RowPairChange { kind: RowPairChangeKind::Both, x: t as i32 }]
                + merged_changes_from(top, bottom, i + 1, j + 1)
        } else {
            Seq::empty()
        }
    } else {
        Seq::empty()
    }
}

/// The full merged change stream of two change lists.
pub open spec fn merged_changes(top: Seq<u32>, bottom: Seq<u32>) -> Seq<RowPairChange> {
    merged_changes_from(top, bottom, 0, 0)
}

/// Iterates changes in either of the two adjacent image rows,
/// from left to right.
pub struct RowPairChangeIter<'a> {
    top_changes: &'a [u32],
    bottom_changes: &'a [u32],
    top_index: usize,
    bottom_index: usize,
}

impl<'a> RowPairChangeIter<'a> {
    /// Both lists well formed, both positions on an element not yet consumed.
    pub closed spec fn wf(&self) -> bool {
        &&& wf_changes(self.top_changes@, i32::MAX as int)
        &&& wf_changes(self.bottom_changes@, i32::MAX as int)
        &&& 0 <= self.top_index < self.top_changes@.len()
        &&& 0 <= self.bottom_index < self.bottom_changes@.len()
    }

    /// The change lists this iterator was built over.
    pub closed spec fn top(&self) -> Seq<u32> {
        self.top_changes@
    }

    pub closed spec fn bottom(&self) -> Seq<u32> {
        self.bottom_changes@
    }

    /// The merged changes not yet returned.
    pub closed spec fn remaining(&self) -> Seq<RowPairChange> {
        merged_changes_from(self.top_changes@, self.bottom_changes@,
            self.top_index as int, self.bottom_index as int)
    }

    /// How many top changes have been consumed.
    pub closed spec fn ti(&self) -> int {
        self.top_index as int
    }

    /// How many bottom changes have been consumed.
    pub closed spec fn bi(&self) -> int {
        self.bottom_index as int
    }

    /// Looks at the changes of two rows of the image
    /// and returns a row pair change iterator.
    pub fn new(top_changes: &'a [u32], bottom_changes: &'a [u32]) -> (r: Self)
        requires
            wf_changes(top_changes@, i32::MAX as int),
            wf_changes(bottom_changes@, i32::MAX as int),
        ensures
            r.wf(),
            r.top() == top_changes@,
            r.bottom() == bottom_changes@,
            r.remaining() == merged_changes(top_changes@, bottom_changes@),
            r.ti() == 0,
            r.bi() == 0,
    {
        Self { top_changes, bottom_changes, top_index: 0, bottom_index: 0 }
    }

    /// Returns the next merged change, or `None` at the double sentinel.
    pub fn next(&mut self) -> (r: Option<RowPairChange>)
        requires
            old(self).wf(),
        ensures
            final(self).wf(),
            final(self).top() == old(self).top(),
            final(self).bottom() == old(self).bottom(),
            match r {
                Some(change) => {
                    &&& old(self).remaining() == seq![change] + final(self).remaining()
                    &&& match change.kind {
                        RowPairChangeKind::Top => final(self).ti() == old(self).ti() + 1
                            && final(self).bi() == old(self).bi(),
                        RowPairChangeKind::Bottom => final(self).ti() == old(self).ti()
                            && final(self).bi() == old(self).bi() + 1,
                        RowPairChangeKind::Both => final(self).ti() == old(self).ti() + 1
                            && final(self).bi() == old(self).bi() + 1,
                    }
                    &&& (change.kind == RowPairChangeKind::Top
                            || change.kind == RowPairChangeKind::Both)
                        ==> old(self).ti() < old(self).top().len() - 1
                    &&& (change.kind == RowPairChangeKind::Bottom
                            || change.kind == RowPairChangeKind::Both)
                        ==> old(self).bi() < old(self).bottom().len() - 1
                },
                None => {
                    &&& old(self).remaining() == Seq::<RowPairChange>::empty()
                    &&& *final(self) == *old(self)
                    &&& old(self).ti() == old(self).top().len() - 1
                    &&& old(self).bi() == old(self).bottom().len() - 1
                },
            },
    {
        let top_x = self.top_changes[self.top_index];
        let bottom_x = self.bottom_changes[self.bottom_index];
        if top_x < bottom_x {
            self.top_index = self.top_index + 1;
            Some(RowPairChange { kind: RowPairChangeKind::Top, x: top_x as i32 })
        } else if top_x > bottom_x {
            self.bottom_index = self.bottom_index + 1;
            Some(RowPairChange { kind: RowPairChangeKind::Bottom, x: bottom_x as i32 })
        } else if top_x != END {
            self.top_index = self.top_index + 1;
            self.bottom_index = self.bottom_index + 1;
            Some(RowPairChange { kind: RowPairChangeKind::Both, x: top_x as i32 })
        } else {
            None
        }
    }
}

/// The merged stream strictly ascends by x, ties between the two rows having
/// been merged into single `Both` events.
pub proof fn lemma_merged_ascending(top: Seq<u32>, bottom: Seq<u32>, i: int, j: int)
    requires
        wf_changes(top, i32::MAX as int),
        wf_changes(bottom, i32::MAX as int),
        0 <= i < top.len(),
        0 <= j < bottom.len(),
    ensures
        forall|a: int, b: int|
            0 <= a < b < merged_changes_from(top, bottom, i, j).len()
                ==> merged_changes_from(top, bottom, i, j)[a].x
                    < merged_changes_from(top, bottom, i, j)[b].x,
        forall|a: int| 0 <= a < merged_changes_from(top, bottom, i, j).len()
            ==> (top[i] <= #[trigger] merged_changes_from(top, bottom, i, j)[a].x
                || bottom[j] <= merged_changes_from(top, bottom, i, j)[a].x),
    decreases top.len() - i + bottom.len() - j
{
    let s = merged_changes_from(top, bottom, i, j);
    let t = top[i];
    let b0 = bottom[j];
    if s.len() > 0 {
        let ni = if b0 < t { i } else { i + 1 };
        let nj = if t < b0 { j } else { j + 1 };
        let x0 = if t < b0 { t } else { b0 };
        let rest = merged_changes_from(top, bottom, ni, nj);
        lemma_merged_ascending(top, bottom, ni, nj);
        assert(ni < top.len()) by {
            if ni == i + 1 {
                assert(t != END);
            }
        }
        assert(nj < bottom.len()) by {
            if nj == j + 1 {
                assert(b0 != END);
            }
        }
        assert(x0 < top[ni]) by {
            if ni == i + 1 && i + 1 == top.len() - 1 {
                assert(top[ni] == END);
            }
        }
        assert(x0 < bottom[nj]) by {
            if nj == j + 1 && j + 1 == bottom.len() - 1 {
                assert(bottom[nj] == END);
            }
        }
        assert(s == seq![s[0]] + rest);
        assert(s[0].x == x0);
        assert forall|a: int, b: int| 0 <= a < b < s.len() implies s[a].x < s[b].x by {
            if a == 0 {
                assert(s[b] == rest[b - 1]);
                assert(top[ni] <= rest[b - 1].x || bottom[nj] <= rest[b - 1].x);
            } else {
                assert(s[a] == rest[a - 1]);
                assert(s[b] == rest[b - 1]);
            }
        }
        assert forall|a: int| 0 <= a < s.len()
            implies (top[i] <= #[trigger] s[a].x || bottom[j] <= s[a].x) by {
            if a > 0 {
                assert(s[a] == rest[a - 1]);
                assert(top[ni] <= rest[a - 1].x || bottom[nj] <= rest[a - 1].x);
            }
        }
    }
}

} // verus!
