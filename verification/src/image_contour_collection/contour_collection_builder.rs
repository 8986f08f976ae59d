//! Builds the point list and contour hierarchy
//! from changes in image row pairs.

use vstd::prelude::*;
use std::collections::VecDeque;
use super::ImageContourCollection;
use super::row_pair_changes::RowPairChange;
use super::feature_automaton::{FeatureKind, Feature, FeatureAutomaton, transition, queue_pops};
use super::hierarchy_builder::{Head, HierarchyBuilder, wf_heads, merge_spec, rank, root_item,
    item_of_head, lemma_merge_wf, lemma_merge_points};
use super::point_list_builder::{PointListItem, PointListBuilder, NONE};

verus! {

/// The whole build state, as contracts see it: the points and head records
/// made so far, the identifier of the ring enclosing the scan position, the
/// queue of open ring ends, and the automaton state with its latched x.
///
/// Each queue entry pairs a point index in `points` with the identifier in
/// `heads` of the ring to the right of that open end.
#[verifier::ext_equal]
pub struct BuilderModel {
    pub points: Seq<PointListItem>,
    pub heads: Seq<Head>,
    pub left: int,
    pub queue: Seq<(usize, usize)>,
    pub state: int,
    pub feature_x: int,
}

/// The state a fresh builder starts in.
pub open spec fn initial_model() -> BuilderModel {
    BuilderModel {
        points: Seq::empty(),
        heads: seq![Head { point_index: 0, is_alias: false, parent: 0 }],
        left: 0,
        queue: Seq::empty(),
        state: 0,
        feature_x: 0,
    }
}

/// Well-formedness of a build state: head records form a sound union-find,
/// the enclosing ring exists, the automaton state and latched x are in
/// range, and every queue entry points at an existing point and ring.
pub open spec fn wf_model(m: BuilderModel) -> bool {
    &&& wf_heads(m.heads)
    &&& 0 <= m.left < m.heads.len()
    &&& 0 <= m.state < 6
    &&& i32::MIN <= m.feature_x <= i32::MAX
    &&& forall|k: int| 0 <= k < m.queue.len()
        ==> (#[trigger] m.queue[k]).1 < m.heads.len() && m.queue[k].0 < m.points.len()
    &&& forall|k: int| 0 <= k < m.points.len()
        ==> (#[trigger] m.points[k]).next == NONE || m.points[k].next < m.points.len()
    &&& forall|i: int| 1 <= i < m.heads.len()
        ==> (#[trigger] m.heads[i]).point_index < m.points.len()
}

/// What one row pair change does to the build state.
pub open spec fn builder_step(m: BuilderModel, y: i32, change: RowPairChange) -> BuilderModel {
    let t = transition(m.state, change.kind);
    let fx = if t.1 { change.x as int } else { m.feature_x };
    let x = fx as i32;
    let after_automaton = BuilderModel { state: t.0, feature_x: fx, ..m };
    match t.2 {
        FeatureKind::Nothing => after_automaton,
        FeatureKind::Head => {
            let new_index = m.points.len() as usize;
            let new_contour = m.heads.len() as usize;
            BuilderModel {
                points: m.points.push(PointListItem { x, y, next: NONE }),
                heads: m.heads.push(Head {
                    point_index: new_index,
                    is_alias: false,
                    parent: m.left as usize,
                }),
                queue: m.queue
                    .push((new_index, new_contour))
                    .push((new_index, m.left as usize)),
                ..after_automaton
            }
        },
        FeatureKind::Vertical => {
            let e = m.queue[0];
            BuilderModel {
                left: e.1 as int,
                queue: m.queue.subrange(1, m.queue.len() as int).push(e),
                ..after_automaton
            }
        },
        FeatureKind::LeftShelf => {
            let e = m.queue[0];
            let new_index = m.points.len() as usize;
            BuilderModel {
                points: m.points.push(PointListItem { x, y, next: e.0 }),
                left: e.1 as int,
                queue: m.queue.subrange(1, m.queue.len() as int).push((new_index, e.1)),
                ..after_automaton
            }
        },
        FeatureKind::RightShelf => {
            let e = m.queue[0];
            let new_index = m.points.len() as usize;
            BuilderModel {
                points: m.points
                    .push(PointListItem { x, y, next: NONE })
                    .update(e.0 as int, PointListItem {
                        x: m.points[e.0 as int].x,
                        y: m.points[e.0 as int].y,
                        next: new_index,
                    }),
                left: e.1 as int,
                queue: m.queue.subrange(1, m.queue.len() as int).push((new_index, e.1)),
                ..after_automaton
            }
        },
        FeatureKind::InnerFoot => {
            let from = m.queue[0];
            let to = m.queue[1];
            let new_index = m.points.len() as usize;
            BuilderModel {
                points: m.points
                    .push(PointListItem { x, y, next: to.0 })
                    .update(from.0 as int, PointListItem {
                        x: m.points[from.0 as int].x,
                        y: m.points[from.0 as int].y,
                        next: new_index,
                    }),
                heads: merge_spec(m.heads, m.left, to.1 as int),
                queue: m.queue.subrange(2, m.queue.len() as int),
                ..after_automaton
            }
        },
        FeatureKind::OuterFoot => {
            let to = m.queue[0];
            let from = m.queue[1];
            let new_index = m.points.len() as usize;
            BuilderModel {
                points: m.points
                    .push(PointListItem { x, y, next: to.0 })
                    .update(from.0 as int, PointListItem {
                        x: m.points[from.0 as int].x,
                        y: m.points[from.0 as int].y,
                        next: new_index,
                    }),
                heads: merge_spec(m.heads, m.left, from.1 as int),
                queue: m.queue.subrange(2, m.queue.len() as int),
                ..after_automaton
            }
        },
    }
}

/// The build state after a whole sequence of changes of the row pair at `y`.
pub open spec fn steps(m: BuilderModel, y: i32, changes: Seq<RowPairChange>) -> BuilderModel
    decreases changes.len()
{
    if changes.len() == 0 {
        m
    } else {
        steps(builder_step(m, y, changes[0]), y, changes.subrange(1, changes.len() as int))
    }
}

/// Folding one more change at the end of a sequence is one more step.
pub proof fn lemma_steps_push(m: BuilderModel, y: i32, changes: Seq<RowPairChange>,
    change: RowPairChange)
    ensures
        steps(m, y, changes.push(change)) == builder_step(steps(m, y, changes), y, change),
    decreases changes.len()
{
    let whole = changes.push(change);
    if changes.len() == 0 {
        assert(whole[0] == change);
        assert(whole.subrange(1, whole.len() as int) =~= Seq::<RowPairChange>::empty());
        assert(steps(m, y, whole)
            == steps(builder_step(m, y, change), y, whole.subrange(1, whole.len() as int)));
    } else {
        assert(whole[0] == changes[0]);
        assert(whole.subrange(1, whole.len() as int)
            =~= changes.subrange(1, changes.len() as int).push(change));
        lemma_steps_push(builder_step(m, y, changes[0]), y,
            changes.subrange(1, changes.len() as int), change);
        assert(steps(m, y, whole)
            == steps(builder_step(m, y, changes[0]), y, whole.subrange(1, whole.len() as int)));
    }
}

/// One step keeps the build state well formed, as long as the queue holds
/// the open ends the detected feature consumes.
pub proof fn lemma_step_wf(m: BuilderModel, y: i32, change: RowPairChange)
    requires
        wf_model(m),
        m.queue.len() >= queue_pops(transition(m.state, change.kind).2),
    ensures
        wf_model(builder_step(m, y, change)),
{
    let t = transition(m.state, change.kind);
    let m1 = builder_step(m, y, change);
    assert forall|k: int| 0 <= k < m1.points.len()
        implies (#[trigger] m1.points[k]).next == NONE
            || m1.points[k].next < m1.points.len() by {
        if k < m.points.len() {
            assert(m.points[k].next == NONE || m.points[k].next < m.points.len());
        }
    }
    match t.2 {
        FeatureKind::Nothing => {},
        FeatureKind::Head => {
            assert forall|k: int| 0 <= k < m1.queue.len()
                implies (#[trigger] m1.queue[k]).1 < m1.heads.len()
                    && m1.queue[k].0 < m1.points.len() by {
                if k < m.queue.len() {
                    assert(m1.queue[k] == m.queue[k]);
                }
            }
            assert forall|i: int| 1 <= i < m1.heads.len()
                implies (#[trigger] m1.heads[i]).point_index < m1.points.len() by {
                if i < m.heads.len() {
                    assert(m.heads[i].point_index < m.points.len());
                }
            }
        },
        FeatureKind::Vertical | FeatureKind::LeftShelf | FeatureKind::RightShelf => {
            assert(m.queue[0].1 < m.heads.len());
            assert forall|k: int| 0 <= k < m1.queue.len()
                implies (#[trigger] m1.queue[k]).1 < m1.heads.len()
                    && m1.queue[k].0 < m1.points.len() by {
                if k < m1.queue.len() - 1 {
                    assert(m1.queue[k] == m.queue[k + 1]);
                }
            }
        },
        FeatureKind::InnerFoot | FeatureKind::OuterFoot => {
            lemma_merge_wf(m.heads, m.left, m.queue[1].1 as int);
            assert(m.queue[0].0 < m.points.len());
            assert(m.queue[1].0 < m.points.len());
            lemma_merge_points(m.heads, m.left, m.queue[1].1 as int);
            assert forall|i: int| 1 <= i < m1.heads.len()
                implies (#[trigger] m1.heads[i]).point_index < m1.points.len() by {
                assert(m1.heads[i].point_index == m.heads[i].point_index);
                assert(m.heads[i].point_index < m.points.len());
            }
            assert forall|k: int| 0 <= k < m1.queue.len()
                implies (#[trigger] m1.queue[k]).1 < m1.heads.len()
                    && m1.queue[k].0 < m1.points.len() by {
                assert(m1.queue[k] == m.queue[k + 2]);
            }
        },
    }
}

/// Builds the point list and contour hierarchy
/// from changes in image row pairs.
pub struct ContourCollectionBuilder {
    // Original image dimensions
    width: i32,
    height: i32,

    // Helper builders
    point_list: PointListBuilder,
    hierarchy: HierarchyBuilder,
    feature_automaton: FeatureAutomaton,

    /// The queue stores open ends of the contours until they are closed.
    /// Each element is a tuple of the point index in the point list and the
    /// index in the hierarchy of the contour to the right of the point.
    queue: VecDeque<(usize, usize)>,
}

impl ContourCollectionBuilder {
    /// The build state, for contracts.
    pub closed spec fn model(&self) -> BuilderModel {
        BuilderModel {
            points: self.point_list.points(),
            heads: self.hierarchy.spec_heads(),
            left: self.hierarchy.spec_left(),
            queue: self.queue@,
            state: self.feature_automaton.spec_state(),
            feature_x: self.feature_automaton.spec_x(),
        }
    }

    pub closed spec fn spec_width(&self) -> i32 {
        self.width
    }

    pub closed spec fn spec_height(&self) -> i32 {
        self.height
    }

    pub open spec fn inv(&self) -> bool {
        wf_model(self.model())
    }

    pub fn new(width: i32, height: i32) -> (r: Self)
        ensures
            r.inv(),
            r.model() == initial_model(),
            r.spec_width() == width,
            r.spec_height() == height,
    {
        let r = Self {
            width,
            height,
            feature_automaton: FeatureAutomaton::new(),
            point_list: PointListBuilder::new(),
            hierarchy: HierarchyBuilder::new(),
            queue: VecDeque::new(),
        };
        proof {
            assert(r.model() =~= initial_model());
        }
        r
    }

    /// Consumes the builder and returns the finished collection.  All open
    /// ring ends must have been closed: the queue must be empty.
    pub fn into(self) -> (r: ImageContourCollection)
        requires
            self.inv(),
            self.model().queue.len() == 0,
        ensures
            self.model().heads.len() <= usize::MAX,
            r.width == self.spec_width(),
            r.height == self.spec_height(),
            r.point_list@ == self.model().points,
            r.point_list@.len() <= usize::MAX,
            r.hierarchy@.len() == rank(self.model().heads, self.model().heads.len() as int),
            r.hierarchy@[0] == root_item(self.model().heads),
            forall|h: int| 1 <= h < self.model().heads.len()
                && !self.model().heads[h].is_alias
                ==> r.hierarchy@[rank(self.model().heads, h)]
                    == item_of_head(self.model().heads, h),
    {
        ImageContourCollection {
            width: self.width,
            height: self.height,
            hierarchy: self.hierarchy.into(),
            point_list: self.point_list.into(),
        }
    }

    /// Feeds one merged change of the row pair at `y` through the feature
    /// automaton and dispatches the detected feature to the point list, the
    /// work queue and the hierarchy builder.
    pub fn add_row_pair_change(&mut self, y: i32, change: RowPairChange)
        requires
            old(self).inv(),
            old(self).model().queue.len()
                >= queue_pops(transition(old(self).model().state, change.kind).2),
        ensures
            final(self).inv(),
            final(self).model() == builder_step(old(self).model(), y, change),
            final(self).spec_width() == old(self).spec_width(),
            final(self).spec_height() == old(self).spec_height(),
    {
        let ghost m0 = self.model();
        proof {
            lemma_step_wf(m0, y, change);
        }
        // Detect next contour feature
        let Feature { kind, x } = self.feature_automaton.step(change);

        match kind {
            FeatureKind::Head => {
                // A `Head` starts a new contour.
                // Add its two open ends to the queue
                let new_index = self.point_list.add(x, y);
                let (new_contour, contour_to_the_right) = self.hierarchy.add_contour(new_index);
                self.queue.push_back((new_index, new_contour));
                self.queue.push_back((new_index, contour_to_the_right));
                proof {
                    assert(self.model() =~= builder_step(m0, y, change));
                }
            },
            FeatureKind::Vertical => {
                // A `Vertical` should not be added to the point list.
                // Take one open end and place back in the queue untouched.
                // We cross a contour boundary
                let (index, contour_to_the_right) = self.queue.pop_front().unwrap();
                self.hierarchy.cross_contour(contour_to_the_right);
                self.queue.push_back((index, contour_to_the_right));
                proof {
                    assert(self.model() =~= builder_step(m0, y, change));
                }
            },
            FeatureKind::LeftShelf => {
                // Connect a `Shelf` to the current open end.
                // Add its new open end to the queue.
                // We cross a contour boundary
                let (to_index, contour_to_the_right) = self.queue.pop_front().unwrap();
                let new_index = self.point_list.add_with_next(x, y, to_index);
                self.hierarchy.cross_contour(contour_to_the_right);
                self.queue.push_back((new_index, contour_to_the_right));
                proof {
                    assert(self.model() =~= builder_step(m0, y, change));
                }
            },
            FeatureKind::RightShelf => {
                // Same, but the connection order is reversed
                let (from_index, contour_to_the_right) = self.queue.pop_front().unwrap();
                let new_index = self.point_list.add_with_previous(x, y, from_index);
                self.hierarchy.cross_contour(contour_to_the_right);
                self.queue.push_back((new_index, contour_to_the_right));
                proof {
                    assert(self.model() =~= builder_step(m0, y, change));
                }
            },
            FeatureKind::InnerFoot => {
                // A `Foot` connects two open ends from the queue.
                // If they belonged to separate contours, they should be merged
                let (from_index, _) = self.queue.pop_front().unwrap();
                let (to_index, contour_to_the_right) = self.queue.pop_front().unwrap();
                self.point_list.add_with_next_and_previous(x, y, to_index, from_index);
                self.hierarchy.merge_contours(contour_to_the_right);
                proof {
                    assert(self.model() =~= builder_step(m0, y, change));
                }
            },
            FeatureKind::OuterFoot => {
                // Same, but the connection order is reversed
                let (to_index, _) = self.queue.pop_front().unwrap();
                let (from_index, contour_to_the_right) = self.queue.pop_front().unwrap();
                self.point_list.add_with_next_and_previous(x, y, to_index, from_index);
                self.hierarchy.merge_contours(contour_to_the_right);
                proof {
                    assert(self.model() =~= builder_step(m0, y, change));
                }
            },
            FeatureKind::Nothing => {
                proof {
                    assert(self.model() =~= builder_step(m0, y, change));
                }
            },
        }
    }
}

} // verus!
