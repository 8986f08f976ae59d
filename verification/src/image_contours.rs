//! The run-based variant of the contour engine: an earlier form of the
//! scanner that stores contour points, ring links and the hierarchy
//! relations in one flat table.

pub mod types;
pub mod run_changes;
pub mod state_machine;
pub mod table_builder;
pub mod hierarchy;
pub mod contours;

use vstd::prelude::*;
use vstd::slice::slice_subrange;
use std::cmp::Ordering;
use std::collections::VecDeque;
use crate::image_contour_collection::{ContourError, dims_valid, changes_of_row};
use crate::image_contour_collection::row_changes::{fill_row_changes, fill_padding_changes,
    lemma_row_changes_wf, lemma_padding_changes_wf};
use crate::image_contour_collection::row_pair_changes::wf_changes;
use crate::image_contour_collection::feature_automaton::{FeatureKind, transition};
use self::types::{Relation, Feature};
use self::run_changes::{RunChange, RunChangeKind, RunChangeIter, merged_runs};
use self::state_machine::{StateMachine, kind_of_ordering};
use self::table_builder::{TableItem, TableBuilder, wf_table, cross_spec, combine_spec,
    combine_current_spec, lemma_cross_bound, lemma_combine_spec_wf, lemma_p2c_step_wf,
    parents_to_children_step, parents_to_children_from};

verus! {

/// The comparison the driver feeds the state machine for a run change: the
/// top row's change comes up alone exactly where its position is smaller.
pub open spec fn ordering_of_kind(kind: RunChangeKind) -> Ordering {
    match kind {
        RunChangeKind::Top => Ordering::Greater,
        RunChangeKind::Bottom => Ordering::Less,
        RunChangeKind::Both => Ordering::Equal,
    }
}

/// A new point linked forward to `next`, with the point at `previous`
/// relinked forward to the new point.
pub open spec fn grow_linked(t: Seq<TableItem>, xc: u32, y: u32, next: usize, previous: usize)
    -> Seq<TableItem> {
    t.push(TableItem { x: xc, y, next, relation: Relation::Nothing })
        .update(previous as int, TableItem {
            x: t[previous as int].x,
            y: t[previous as int].y,
            next: t.len() as usize,
            relation: t[previous as int].relation,
        })
}

/// Growing the ring keeps the table well formed.
pub proof fn lemma_grow_linked_wf(t: Seq<TableItem>, xc: u32, y: u32, next: usize,
    previous: usize)
    requires
        wf_table(t),
        next < t.len(),
        previous < t.len(),
    ensures
        wf_table(grow_linked(t, xc, y, next, previous)),
        grow_linked(t, xc, y, next, previous).len() == t.len() + 1,
{
}

/// The scan state of the run-based engine: the growing table, the contour
/// enclosing the scan position, the queue of open ring ends tagged with
/// their heads, and the state machine state with its latched x.
#[verifier::ext_equal]
pub struct TableModel {
    pub table: Seq<TableItem>,
    pub current: int,
    pub queue: Seq<(usize, usize)>,
    pub state: int,
    pub x: int,
}

/// The state a fresh scan starts in: the root item carries the dimensions.
pub open spec fn initial_table_model(width: u32, height: u32) -> TableModel {
    TableModel {
        table: seq![TableItem { x: width, y: height, next: 0, relation: Relation::Nothing }],
        current: 0,
        queue: Seq::empty(),
        state: 0,
        x: 0,
    }
}

/// Well-formedness of a scan state.
pub open spec fn wf_table_model(m: TableModel) -> bool {
    &&& wf_table(m.table)
    &&& 0 <= m.current < m.table.len()
    &&& 0 <= m.state < 6
    &&& 0 <= m.x <= u32::MAX
    &&& forall|k: int| 0 <= k < m.queue.len()
        ==> (#[trigger] m.queue[k]).0 < m.table.len() && m.queue[k].1 < m.table.len()
}

/// What one run change of the row pair at `y` does to the scan state.  A
/// feature that would need more open ends than the queue holds leaves the
/// table, queue and contour untouched; the scan of a real raster never
/// comes to that.
pub open spec fn run_step(m: TableModel, y: u32, change: RunChange) -> TableModel {
    let t = transition(m.state, kind_of_ordering(ordering_of_kind(change.kind)));
    let x = if t.1 { change.x as int } else { m.x };
    let stepped = TableModel { state: t.0, x, ..m };
    let xc = x as u32;
    match t.2 {
        FeatureKind::Nothing => stepped,
        FeatureKind::Head => {
            let new_index = m.table.len() as usize;
            TableModel {
                table: m.table.push(TableItem {
                    x: xc,
                    y,
                    next: 0,
                    relation: Relation::Parent(m.current as usize),
                }),
                queue: m.queue.push((new_index, new_index)).push((new_index, new_index)),
                ..stepped
            }
        },
        FeatureKind::Vertical => {
            if m.queue.len() >= 1 {
                let e = m.queue[0];
                TableModel {
                    current: cross_spec(m.table, m.current, e.1 as int),
                    queue: m.queue.subrange(1, m.queue.len() as int).push(e),
                    ..stepped
                }
            } else {
                stepped
            }
        },
        FeatureKind::LeftShelf => {
            if m.queue.len() >= 1 {
                let e = m.queue[0];
                let new_index = m.table.len() as usize;
                let grown = m.table.push(TableItem {
                    x: xc,
                    y,
                    next: e.0,
                    relation: Relation::Nothing,
                });
                TableModel {
                    table: grown,
                    current: cross_spec(grown, m.current, e.1 as int),
                    queue: m.queue.subrange(1, m.queue.len() as int).push((new_index, e.1)),
                    ..stepped
                }
            } else {
                stepped
            }
        },
        FeatureKind::RightShelf => {
            if m.queue.len() >= 1 {
                let e = m.queue[0];
                let new_index = m.table.len() as usize;
                let grown = grow_linked(m.table, xc, y, 0, e.0);
                TableModel {
                    table: grown,
                    current: cross_spec(grown, m.current, e.1 as int),
                    queue: m.queue.subrange(1, m.queue.len() as int).push((new_index, e.1)),
                    ..stepped
                }
            } else {
                stepped
            }
        },
        FeatureKind::InnerFoot => {
            if m.queue.len() >= 2 {
                let from = m.queue[0];
                let to = m.queue[1];
                let grown = grow_linked(m.table, xc, y, to.0, from.0);
                TableModel {
                    table: combine_spec(grown, to.1 as int, from.1 as int),
                    current: combine_current_spec(grown, m.current, to.1 as int,
                        from.1 as int),
                    queue: m.queue.subrange(2, m.queue.len() as int),
                    ..stepped
                }
            } else {
                stepped
            }
        },
        FeatureKind::OuterFoot => {
            if m.queue.len() >= 2 {
                let to = m.queue[0];
                let from = m.queue[1];
                let grown = grow_linked(m.table, xc, y, to.0, from.0);
                TableModel {
                    table: combine_spec(grown, from.1 as int, to.1 as int),
                    current: combine_current_spec(grown, m.current, from.1 as int,
                        to.1 as int),
                    queue: m.queue.subrange(2, m.queue.len() as int),
                    ..stepped
                }
            } else {
                stepped
            }
        },
    }
}

/// The scan state after a whole sequence of run changes at `y`.
pub open spec fn run_steps(m: TableModel, y: u32, changes: Seq<RunChange>) -> TableModel
    decreases changes.len()
{
    if changes.len() == 0 {
        m
    } else {
        run_steps(run_step(m, y, changes[0]), y, changes.subrange(1, changes.len() as int))
    }
}

/// Folding one more run change at the end of a sequence is one more step.
pub proof fn lemma_run_steps_push(m: TableModel, y: u32, changes: Seq<RunChange>,
    change: RunChange)
    ensures
        run_steps(m, y, changes.push(change))
            == run_step(run_steps(m, y, changes), y, change),
    decreases changes.len()
{
    let whole = changes.push(change);
    if changes.len() == 0 {
        assert(whole[0] == change);
        assert(whole.subrange(1, whole.len() as int) =~= Seq::<RunChange>::empty());
        assert(run_steps(m, y, whole)
            == run_steps(run_step(m, y, change), y, whole.subrange(1, whole.len() as int)));
    } else {
        assert(whole[0] == changes[0]);
        assert(whole.subrange(1, whole.len() as int)
            =~= changes.subrange(1, changes.len() as int).push(change));
        lemma_run_steps_push(run_step(m, y, changes[0]), y,
            changes.subrange(1, changes.len() as int), change);
        assert(run_steps(m, y, whole)
            == run_steps(run_step(m, y, changes[0]), y,
                whole.subrange(1, whole.len() as int)));
    }
}

/// One run step keeps the scan state well formed.
pub proof fn lemma_run_step_wf(m: TableModel, y: u32, change: RunChange)
    requires
        wf_table_model(m),
    ensures
        wf_table_model(run_step(m, y, change)),
{
    let t = transition(m.state, kind_of_ordering(ordering_of_kind(change.kind)));
    let x = if t.1 { change.x as int } else { m.x };
    let xc = x as u32;
    let m1 = run_step(m, y, change);
    match t.2 {
        FeatureKind::Nothing => {},
        FeatureKind::Head => {
            assert forall|k: int| 0 <= k < m1.queue.len()
                implies (#[trigger] m1.queue[k]).0 < m1.table.len()
                    && m1.queue[k].1 < m1.table.len() by {
                if k < m.queue.len() {
                    assert(m1.queue[k] == m.queue[k]);
                }
            }
        },
        FeatureKind::Vertical | FeatureKind::LeftShelf | FeatureKind::RightShelf => {
            if m.queue.len() >= 1 {
                assert(m.queue[0].0 < m.table.len());
                assert(m.queue[0].1 < m.table.len());
                lemma_cross_bound(m.table, m.current, m.queue[0].1 as int);
                let e = m.queue[0];
                let grown_left = m.table.push(TableItem {
                    x: xc,
                    y,
                    next: e.0,
                    relation: Relation::Nothing,
                });
                let grown_right = grow_linked(m.table, xc, y, 0, e.0);
                lemma_grow_linked_wf(m.table, xc, y, 0, e.0);
                assert(wf_table(grown_left));
                lemma_cross_bound(grown_left, m.current, e.1 as int);
                lemma_cross_bound(grown_right, m.current, e.1 as int);
                assert(wf_table(m1.table));
                assert(0 <= m1.current < m1.table.len());
                assert forall|k: int| 0 <= k < m1.queue.len()
                    implies (#[trigger] m1.queue[k]).0 < m1.table.len()
                        && m1.queue[k].1 < m1.table.len() by {
                    if k < m1.queue.len() - 1 {
                        assert(m1.queue[k] == m.queue[k + 1]);
                    }
                }
            }
        },
        FeatureKind::InnerFoot | FeatureKind::OuterFoot => {
            if m.queue.len() >= 2 {
                let a = m.queue[0];
                let b = m.queue[1];
                assert(a.0 < m.table.len() && a.1 < m.table.len());
                assert(b.0 < m.table.len() && b.1 < m.table.len());
                let grown_inner = grow_linked(m.table, xc, y, b.0, a.0);
                let grown_outer = grow_linked(m.table, xc, y, a.0, b.0);
                lemma_grow_linked_wf(m.table, xc, y, b.0, a.0);
                lemma_grow_linked_wf(m.table, xc, y, a.0, b.0);
                lemma_combine_spec_wf(grown_inner, b.1 as int, a.1 as int);
                lemma_combine_spec_wf(grown_outer, b.1 as int, a.1 as int);
                assert(wf_table(m1.table));
                assert(0 <= m1.current < m1.table.len());
                assert forall|k: int| 0 <= k < m1.queue.len()
                    implies (#[trigger] m1.queue[k]).0 < m1.table.len()
                        && m1.queue[k].1 < m1.table.len() by {
                    assert(m1.queue[k] == m.queue[k + 2]);
                }
            }
        },
    }
}

/// The final pass keeps the table well formed.
pub proof fn lemma_p2c_from_wf(t: Seq<TableItem>, i: int)
    requires
        wf_table(t),
    ensures
        wf_table(parents_to_children_from(t, i)),
    decreases t.len() - i
{
    if 1 <= i < t.len() {
        lemma_p2c_step_wf(t, i);
        lemma_p2c_from_wf(parents_to_children_step(t, i), i + 1);
    }
}

/// The scan state after the first `pairs` row pairs.  Row pair y merges the
/// run changes of rows y - 1 and y, the rows outside the image reading as
/// padding; foreground is any non-zero byte.
pub open spec fn scan_table(raster: Seq<u8>, width: u32, height: u32, pairs: int)
    -> TableModel
    decreases pairs
{
    if pairs <= 0 {
        initial_table_model(width, height)
    } else {
        run_steps(scan_table(raster, width, height, pairs - 1), (pairs - 1) as u32,
            merged_runs(
                changes_of_row(raster, width as int, height as int, false, pairs - 2),
                changes_of_row(raster, width as int, height as int, false, pairs - 1)))
    }
}

/// The assembled scan state of the driver's pieces, for loop reasoning.
pub open spec fn assemble(table: Seq<TableItem>, current: int, queue: Seq<(usize, usize)>,
    state: int, x: int) -> TableModel {
    TableModel { table, current, queue, state, x }
}

/// The contours of a binary image, stored as one flat table: point
/// coordinates, ring links and hierarchy relations together.
#[derive(Debug)]
pub struct ImageContours {
    pub table: Vec<TableItem>,
}

impl ImageContours {
    /// The finished table is well formed: every link and relation target in
    /// bounds.
    pub open spec fn wf(&self) -> bool {
        wf_table(self.table@)
    }

    /// Scans the raster of `width * height` bytes, top row first, and
    /// builds the contour table.  Every non-zero byte is foreground.
    pub fn new(raster: &[u8], width: u32, height: u32) -> (r: Result<Self, ContourError>)
        ensures
            r == Err::<Self, ContourError>(ContourError::InputOverflow)
                <==> !dims_valid(width, height),
            r == Err::<Self, ContourError>(ContourError::InputSizeMismatch)
                <==> dims_valid(width, height) && raster@.len() != width * height,
            r is Ok <==> dims_valid(width, height) && raster@.len() == width * height,
            r is Ok ==> (r->Ok_0).table@ == parents_to_children_from(
                scan_table(raster@, width, height, height + 1).table, 1),
            r is Ok ==> (r->Ok_0).wf(),
    {
        proof {
            assert((width as int) * (height as int) <= 0xFFFF_FFFFu64 * 0xFFFF_FFFFu64)
                by (nonlinear_arith)
                requires
                    width as int <= 0xFFFF_FFFFu64 && height as int <= 0xFFFF_FFFFu64;
        }
        if width > i32::MAX as u32 || height > i32::MAX as u32
            || (width as u64) * (height as u64) > i32::MAX as u64 {
            return Err(ContourError::InputOverflow);
        }
        if raster.len() != (width as usize) * (height as usize) {
            return Err(ContourError::InputSizeMismatch);
        }
        let ghost rst = raster@;
        let ghost w = width as int;
        let ghost h = height as int;

        let mut table_builder = TableBuilder::new(width, height);
        let mut queue: VecDeque<(usize, usize)> = VecDeque::new();
        let mut machine = StateMachine::new();

        let mut run_top: Vec<u32> = Vec::new();
        let mut run_bottom: Vec<u32> = Vec::new();
        fill_padding_changes(&mut run_bottom);
        proof {
            lemma_padding_changes_wf();
            assert(assemble(table_builder.spec_table(), table_builder.spec_current(),
                queue@, machine.spec_state(), machine.spec_x())
                =~= scan_table(rst, width, height, 0));
        }

        let mut row_index: u32 = 0;
        while row_index <= height
            invariant
                rst == raster@,
                w == width as int,
                h == height as int,
                rst.len() == w * h,
                dims_valid(width, height),
                0 <= row_index <= height + 1,
                table_builder.inv(),
                machine.inv(),
                wf_table_model(assemble(table_builder.spec_table(),
                    table_builder.spec_current(), queue@, machine.spec_state(),
                    machine.spec_x())),
                assemble(table_builder.spec_table(), table_builder.spec_current(),
                    queue@, machine.spec_state(), machine.spec_x())
                    == scan_table(rst, width, height, row_index as int),
                run_bottom@ == changes_of_row(rst, w, h, false, row_index - 1),
                wf_changes(run_bottom@, i32::MAX as int),
            decreases height + 1 - row_index,
        {
            std::mem::swap(&mut run_top, &mut run_bottom);
            if row_index < height {
                proof {
                    let ghost ri = row_index as int;
                    assert(ri * w + w <= h * w && w * h == h * w && 0 <= ri * w
                            && (ri + 1) * w == ri * w + w)
                        by (nonlinear_arith)
                        requires
                            0 <= ri && ri < h && 0 <= w;
                }
                let start = (row_index as usize) * (width as usize);
                let row = slice_subrange(raster, start, start + width as usize);
                fill_row_changes(row, false, &mut run_bottom);
                proof {
                    lemma_row_changes_wf(row@, false);
                    assert(row@ == rst.subrange(row_index * w, (row_index + 1) * w));
                    assert(run_bottom@ == changes_of_row(rst, w, h, false, row_index as int));
                }
            } else {
                fill_padding_changes(&mut run_bottom);
                proof {
                    lemma_padding_changes_wf();
                }
            }
            let ghost tseq = run_top@;
            let ghost bseq = run_bottom@;
            let ghost m_pair = assemble(table_builder.spec_table(),
                table_builder.spec_current(), queue@, machine.spec_state(),
                machine.spec_x());
            let y = row_index;

            let mut changes = RunChangeIter::new(run_top.as_slice(), run_bottom.as_slice());
            let ghost mut processed = Seq::<RunChange>::empty();
            loop
                invariant
                    changes.wf(),
                    table_builder.inv(),
                    machine.inv(),
                    wf_table_model(assemble(table_builder.spec_table(),
                        table_builder.spec_current(), queue@, machine.spec_state(),
                        machine.spec_x())),
                    merged_runs(tseq, bseq) == processed + changes.remaining(),
                    assemble(table_builder.spec_table(), table_builder.spec_current(),
                        queue@, machine.spec_state(), machine.spec_x())
                        == run_steps(m_pair, y, processed),
                ensures
                    assemble(table_builder.spec_table(), table_builder.spec_current(),
                        queue@, machine.spec_state(), machine.spec_x())
                        == run_steps(m_pair, y, merged_runs(tseq, bseq)),
                    table_builder.inv(),
                    machine.inv(),
                    wf_table_model(assemble(table_builder.spec_table(),
                        table_builder.spec_current(), queue@, machine.spec_state(),
                        machine.spec_x())),
                decreases changes.remaining().len(),
            {
                let ghost m0 = assemble(table_builder.spec_table(),
                    table_builder.spec_current(), queue@, machine.spec_state(),
                    machine.spec_x());
                match changes.next() {
                    Some(change) => {
                        proof {
                            lemma_run_step_wf(m0, y, change);
                            lemma_run_steps_push(m_pair, y, processed, change);
                        }
                        let ordering = ordering_of(change.kind);
                        let (x, feature) = machine.step(ordering, change.x);
                        match feature {
                            Feature::Head => {
                                let new_index = table_builder.add_with_contour(x, y);
                                queue.push_back((new_index, new_index));
                                queue.push_back((new_index, new_index));
                            },
                            Feature::Vertical => {
                                if let Some(entry) = queue.pop_front() {
                                    queue.push_back(entry);
                                    table_builder.cross_contour(entry.1);
                                }
                            },
                            Feature::LeftShelf => {
                                if let Some((to_index, head)) = queue.pop_front() {
                                    let new_index = table_builder.add_with_next(x, y,
                                        to_index);
                                    table_builder.cross_contour(head);
                                    queue.push_back((new_index, head));
                                }
                            },
                            Feature::RightShelf => {
                                if let Some((from_index, head)) = queue.pop_front() {
                                    let new_index = table_builder.add_with_previous(x, y,
                                        from_index);
                                    table_builder.cross_contour(head);
                                    queue.push_back((new_index, head));
                                }
                            },
                            Feature::InnerFoot => {
                                if queue.len() >= 2 {
                                    let (from_index, from_head) = queue.pop_front().unwrap();
                                    let (to_index, to_head) = queue.pop_front().unwrap();
                                    table_builder.add_with_next_and_previous(x, y,
                                        to_index, from_index);
                                    table_builder.combine_contours(to_head, from_head);
                                }
                            },
                            Feature::OuterFoot => {
                                if queue.len() >= 2 {
                                    let (to_index, to_head) = queue.pop_front().unwrap();
                                    let (from_index, from_head) = queue.pop_front().unwrap();
                                    table_builder.add_with_next_and_previous(x, y,
                                        to_index, from_index);
                                    table_builder.combine_contours(from_head, to_head);
                                }
                            },
                            Feature::Nothing => {},
                        }
                        proof {
                            processed = processed.push(change);
                            assert(assemble(table_builder.spec_table(),
                                table_builder.spec_current(), queue@,
                                machine.spec_state(), machine.spec_x())
                                =~= run_step(m0, y, change));
                            assert(merged_runs(tseq, bseq)
                                =~= processed + changes.remaining());
                        }
                    },
                    None => {
                        proof {
                            assert(processed =~= merged_runs(tseq, bseq));
                        }
                        break;
                    },
                }
            }
            proof {
                assert(scan_table(rst, width, height, row_index + 1)
                    == run_steps(scan_table(rst, width, height, row_index as int),
                        row_index as u32,
                        merged_runs(changes_of_row(rst, w, h, false, row_index - 1),
                            changes_of_row(rst, w, h, false, row_index as int))));
            }
            row_index = row_index + 1;
        }
        let ghost final_model = assemble(table_builder.spec_table(),
            table_builder.spec_current(), queue@, machine.spec_state(), machine.spec_x());
        let table = table_builder.into();
        proof {
            lemma_p2c_from_wf(final_model.table, 1);
        }
        Ok(ImageContours { table })
    }

    /// Gets width and height of the original image, held by the root item.
    pub fn dimensions(&self) -> (r: (u32, u32))
        requires
            self.wf(),
        ensures
            r == (self.table@[0].x, self.table@[0].y),
    {
        let root = &self.table[0];
        (root.x, root.y)
    }

    /// Iterates the top-level contours: the children of the root item.
    pub fn outermost_contours<'a>(&'a self) -> (r: SiblingContours<'a>)
        requires
            self.wf(),
        ensures
            r.wf(),
            r.table() == self.table@,
            r.current() == match self.table@[0].relation {
                Relation::Child(first_child) => Some(first_child),
                _ => None::<usize>,
            },
    {
        if let Relation::Child(first_child) = self.table[0].relation {
            SiblingContours { table: self.table.as_slice(), current_index: Some(first_child) }
        } else {
            SiblingContours { table: self.table.as_slice(), current_index: None }
        }
    }
}

/// The comparison fed to the state machine for each run change kind.
fn ordering_of(kind: RunChangeKind) -> (r: Ordering)
    ensures
        r == ordering_of_kind(kind),
{
    match kind {
        RunChangeKind::Top => Ordering::Greater,
        RunChangeKind::Bottom => Ordering::Less,
        RunChangeKind::Both => Ordering::Equal,
    }
}

/// Iterates contours that share one parent.
pub struct SiblingContours<'a> {
    table: &'a [TableItem],
    current_index: Option<usize>,
}

impl<'a> SiblingContours<'a> {
    pub closed spec fn table(&self) -> Seq<TableItem> {
        self.table@
    }

    pub closed spec fn current(&self) -> Option<usize> {
        self.current_index
    }

    pub open spec fn wf(&self) -> bool {
        &&& wf_table(self.table())
        &&& match self.current() {
            Some(i) => i < self.table().len(),
            None => true,
        }
    }

    /// Returns a handle on the current contour and steps to the sibling
    /// named on the current head's ring successor.
    pub fn next(&mut self) -> (r: Option<Contour<'a>>)
        requires
            old(self).wf(),
        ensures
            final(self).wf(),
            final(self).table() == old(self).table(),
            match old(self).current() {
                Some(i) => {
                    let t = old(self).table();
                    let successor = t[t[i as int].next as int];
                    &&& match r {
                        Some(contour) => contour.wf()
                            && contour.spec_table() == t
                            && contour.start() == i as int,
                        None => false,
                    }
                    &&& final(self).current() == match successor.relation {
                        Relation::Sibling(sibling) => Some(sibling),
                        _ => None::<usize>,
                    }
                },
                None => r is None && final(self).current() == None::<usize>,
            },
    {
        match self.current_index {
            Some(index) => {
                let point = &self.table[index];
                let next_point = &self.table[point.next];
                self.current_index = if let Relation::Sibling(sibling) = next_point.relation {
                    Some(sibling)
                } else {
                    None
                };
                Some(Contour { table: self.table, start_index: index })
            },
            None => None,
        }
    }
}

/// A contour of the finished table, named by its head point.
pub struct Contour<'a> {
    table: &'a [TableItem],
    start_index: usize,
}

impl<'a> Contour<'a> {
    pub closed spec fn spec_table(&self) -> Seq<TableItem> {
        self.table@
    }

    pub closed spec fn start(&self) -> int {
        self.start_index as int
    }

    pub open spec fn wf(&self) -> bool {
        &&& wf_table(self.spec_table())
        &&& 0 <= self.start() < self.spec_table().len()
    }

    /// Walks the contour's control points, the head point first.
    pub fn control_points(&self) -> (r: ControlPoints<'a>)
        requires
            self.wf(),
        ensures
            r.wf(),
            r.table() == self.spec_table(),
            r.start() == self.start(),
            r.current() == Some(self.start() as usize),
    {
        ControlPoints {
            table: self.table,
            start_index: self.start_index,
            current_index: Some(self.start_index),
        }
    }
}

/// Walks one contour ring along the `next` links.
pub struct ControlPoints<'a> {
    table: &'a [TableItem],
    start_index: usize,
    current_index: Option<usize>,
}

impl<'a> ControlPoints<'a> {
    pub closed spec fn table(&self) -> Seq<TableItem> {
        self.table@
    }

    pub closed spec fn start(&self) -> int {
        self.start_index as int
    }

    pub closed spec fn current(&self) -> Option<usize> {
        self.current_index
    }

    pub open spec fn wf(&self) -> bool {
        &&& wf_table(self.table())
        &&& 0 <= self.start() < self.table().len()
        &&& match self.current() {
            Some(i) => i < self.table().len(),
            None => true,
        }
    }

    /// Returns the current point's coordinates and steps along the ring,
    /// stopping when the walk has come back to its start.
    pub fn next(&mut self) -> (r: Option<(u32, u32)>)
        requires
            old(self).wf(),
        ensures
            final(self).wf(),
            final(self).table() == old(self).table(),
            final(self).start() == old(self).start(),
            match old(self).current() {
                Some(i) => {
                    let point = old(self).table()[i as int];
                    &&& r == Some((point.x, point.y))
                    &&& final(self).current()
                        == if point.next != old(self).start() as usize {
                            Some(point.next)
                        } else {
                            None::<usize>
                        }
                },
                None => r == None::<(u32, u32)> && final(self).current() == None::<usize>,
            },
    {
        match self.current_index {
            Some(index) => {
                let point = &self.table[index];
                self.current_index = if point.next != self.start_index {
                    Some(point.next)
                } else {
                    None
                };
                Some((point.x, point.y))
            },
            None => None,
        }
    }
}

} // verus!

