//! Changes of two adjacent rows' runs, merged into one ascending stream.

use vstd::prelude::*;
use crate::image_contour_collection::row_changes::END;
use crate::image_contour_collection::row_pair_changes::wf_changes;

verus! {

/// In which row of the pair a run change has occurred.
#[derive(Debug, Clone, Copy, PartialEq, Eq, Structural)]
pub enum RunChangeKind {
    Top,
    Both,
    Bottom,
}

/// Kind and x coordinate of a run change.
#[derive(Debug, Clone, Copy, PartialEq, Eq, Structural)]
pub struct RunChange {
    pub kind: RunChangeKind,
    pub x: u32,
}

/// The merged run change stream, starting from position `i` in the top list
/// and `j` in the bottom list.
pub open spec fn merged_runs_from(top: Seq<u32>, bottom: Seq<u32>, i: int, j: int)
    -> Seq<RunChange>
    decreases top.len() - i + bottom.len() - j
{
    if 0 <= i < top.len() && 0 <= j < bottom.len() {
        let t = top[i];
        let b = bottom[j];
        if t < b {
            seq![RunChange { kind: RunChangeKind::Top, x: t }]
                + merged_runs_from(top, bottom, i + 1, j)
        } else if t > b {
            seq![RunChange { kind: RunChangeKind::Bottom, x: b }]
                + merged_runs_from(top, bottom, i, j + 1)
        } else if t != END {
            seq![RunChange { kind: RunChangeKind::Both, x: t }]
                + merged_runs_from(top, bottom, i + 1, j + 1)
        } else {
            Seq::empty()
        }
    } else {
        Seq::empty()
    }
}

/// The full merged run change stream of two change lists.
pub open spec fn merged_runs(top: Seq<u32>, bottom: Seq<u32>) -> Seq<RunChange> {
    merged_runs_from(top, bottom, 0, 0)
}

/// Iterates changes in either of the two adjacent rows, from left to right.
pub struct RunChangeIter<'a> {
    run_top: &'a [u32],
    run_bottom: &'a [u32],
    top_index: usize,
    bottom_index: usize,
}

impl<'a> RunChangeIter<'a> {
    pub closed spec fn wf(&self) -> bool {
        &&& wf_changes(self.run_top@, i32::MAX as int)
        &&& wf_changes(self.run_bottom@, i32::MAX as int)
        &&& 0 <= self.top_index < self.run_top@.len()
        &&& 0 <= self.bottom_index < self.run_bottom@.len()
    }

    /// The merged run changes not yet returned.
    pub closed spec fn remaining(&self) -> Seq<RunChange> {
        merged_runs_from(self.run_top@, self.run_bottom@,
            self.top_index as int, self.bottom_index as int)
    }

    /// Looks at the changes of two rows and returns a run change iterator.
    pub fn new(run_top: &'a [u32], run_bottom: &'a [u32]) -> (r: Self)
        requires
            wf_changes(run_top@, i32::MAX as int),
            wf_changes(run_bottom@, i32::MAX as int),
        ensures
            r.wf(),
            r.remaining() == merged_runs(run_top@, run_bottom@),
    {
        Self { run_top, run_bottom, top_index: 0, bottom_index: 0 }
    }

    /// Returns the next merged run change, or `None` at the double sentinel.
    pub fn next(&mut self) -> (r: Option<RunChange>)
        requires
            old(self).wf(),
        ensures
            final(self).wf(),
            match r {
                Some(change) => old(self).remaining()
                    == seq![change] + final(self).remaining(),
                None => {
                    &&& old(self).remaining() == Seq::<RunChange>::empty()
                    &&& *final(self) == *old(self)
                },
            },
    {
        let top_x = self.run_top[self.top_index];
        let bottom_x = self.run_bottom[self.bottom_index];
        if top_x < bottom_x {
            self.top_index = self.top_index + 1;
            Some(RunChange { kind: RunChangeKind::Top, x: top_x })
        } else if top_x > bottom_x {
            self.bottom_index = self.bottom_index + 1;
            Some(RunChange { kind: RunChangeKind::Bottom, x: bottom_x })
        } else if top_x != END {
            self.top_index = self.top_index + 1;
            self.bottom_index = self.bottom_index + 1;
            Some(RunChange { kind: RunChangeKind::Both, x: top_x })
        } else {
            None
        }
    }
}

} // verus!
