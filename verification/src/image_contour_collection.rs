//! The raster-to-contours engine and its collection type.

pub mod row_changes;
pub mod row_pair_changes;
pub mod feature_automaton;
pub mod point_list_builder;
pub mod hierarchy_builder;
pub mod contour_collection_builder;
pub mod contours;

use vstd::prelude::*;
use vstd::slice::slice_subrange;
use self::hierarchy_builder::{HierarchyItem, rank, root_item, item_of_head};
use self::point_list_builder::PointListItem;
use self::row_changes::{row_changes_spec, padding_changes_spec, fill_row_changes,
    fill_padding_changes, lemma_row_changes_wf, lemma_padding_changes_wf};
use self::row_pair_changes::{RowPairChange, RowPairChangeIter, merged_changes, wf_changes};
use self::feature_automaton::{inside_top, inside_bottom, state_balance,
    lemma_pops_available, lemma_state_zero};
use self::contour_collection_builder::{ContourCollectionBuilder, BuilderModel, initial_model,
    steps, lemma_steps_push};
use self::contours::{ChildContourIter, DescendantContourIter, OuterContourIter,
    wf_view, depth, packed_from, lemma_packed_wf, lemma_rank_surjective};

verus! {

/// The errors a build can report: dimensions that do not fit the i32
/// coordinate space, or a raster whose byte count is not width times height.
#[derive(Debug, Clone, Copy, PartialEq, Eq, Structural)]
pub enum ContourError {
    InputOverflow,
    InputSizeMismatch,
}

/// Both dimensions and the pixel count fit the i32 coordinate space.
pub open spec fn dims_valid(width: u32, height: u32) -> bool {
    &&& width <= i32::MAX
    &&& height <= i32::MAX
    &&& width * height <= i32::MAX
}

/// The change list the scan uses for row `r`: the changes of the pixel row
/// for a real row index, the padding list above and below the image.
pub open spec fn changes_of_row(raster: Seq<u8>, width: int, height: int, inverted: bool,
    r: int) -> Seq<u32> {
    if 0 <= r < height {
        row_changes_spec(raster.subrange(r * width, (r + 1) * width), inverted)
    } else {
        padding_changes_spec()
    }
}

/// The build state after the first `pairs` row pairs of the scan.  Row pair
/// number y merges the change lists of rows y - 1 and y, the rows just
/// outside the image reading as padding.
pub open spec fn scan_rows(raster: Seq<u8>, width: int, height: int, inverted: bool,
    pairs: int) -> BuilderModel
    decreases pairs
{
    if pairs <= 0 {
        initial_model()
    } else {
        steps(scan_rows(raster, width, height, inverted, pairs - 1), (pairs - 1) as i32,
            merged_changes(changes_of_row(raster, width, height, inverted, pairs - 2),
                changes_of_row(raster, width, height, inverted, pairs - 1)))
    }
}

/// The collection is exactly what scanning the raster produces: its points
/// are the scan's point list, its hierarchy the packed form of the scan's
/// head records.
pub open spec fn built_from(c: ImageContourCollection, raster: Seq<u8>, width: u32, height: u32,
    inverted: bool) -> bool {
    let m = scan_rows(raster, width as int, height as int, inverted, height + 1);
    &&& c.width == width as i32
    &&& c.height == height as i32
    &&& c.point_list@ == m.points
    &&& c.hierarchy@.len() == rank(m.heads, m.heads.len() as int)
    &&& c.hierarchy@[0] == root_item(m.heads)
    &&& forall|h: int| 1 <= h < m.heads.len() && !m.heads[h].is_alias
        ==> c.hierarchy@[rank(m.heads, h)] == item_of_head(m.heads, h)
}

/// Running the build twice on the same input yields identical results: the
/// point lists and the hierarchies of two collections built from the same
/// raster, dimensions and polarity are equal.
pub proof fn lemma_build_deterministic(c1: ImageContourCollection, c2: ImageContourCollection,
    raster: Seq<u8>, width: u32, height: u32, inverted: bool)
    requires
        built_from(c1, raster, width, height, inverted),
        built_from(c2, raster, width, height, inverted),
    ensures
        c1.width == c2.width,
        c1.height == c2.height,
        c1.point_list@ == c2.point_list@,
        c1.hierarchy@ == c2.hierarchy@,
{
    let m = scan_rows(raster, width as int, height as int, inverted, height + 1);
    assert(c1.hierarchy@ =~= c2.hierarchy@) by {
        assert forall|c: int| 0 <= c < c1.hierarchy@.len()
            implies c1.hierarchy@[c] == c2.hierarchy@[c] by {
            if c > 0 {
                lemma_rank_surjective(m.heads, m.heads.len() as int, c);
                let hd = choose|hd: int| 0 <= hd < m.heads.len() && !m.heads[hd].is_alias
                    && rank(m.heads, hd) == c;
                assert(hd >= 1) by {
                    assert(rank(m.heads, 0) == 0);
                }
                assert(c1.hierarchy@[rank(m.heads, hd)] == item_of_head(m.heads, hd));
                assert(c2.hierarchy@[rank(m.heads, hd)] == item_of_head(m.heads, hd));
            }
        }
    }
}

/// The contours of a binary image.
///
/// Implements a modified version of Miyatake's run-type direction code
/// algorithm.  The contour points correspond to the pixel corners, not the
/// centers: the upper-left corner of the pixel at (x, y) has coordinates
/// (x, y) and its lower-right corner has coordinates (x + 1, y + 1).
///
/// The outer contours are 8-connected and clockwise.
/// The inner contours (holes) are 4-connected and anti-clockwise.
#[derive(Debug)]
pub struct ImageContourCollection {
    pub width: i32,
    pub height: i32,
    pub hierarchy: Vec<HierarchyItem>,
    pub point_list: Vec<PointListItem>,
}

impl ImageContourCollection {
    /// A collection whose hierarchy and point links a contour handle can
    /// safely navigate.  Every collection a build returns satisfies it.
    pub open spec fn wf(&self) -> bool {
        wf_view(self.hierarchy@, self.point_list@)
    }

    /// An alias for `new(raster, width, height, inverted: false)`.
    /// Assumes black background and white foreground.
    pub fn white_on_black(raster: &[u8], width: u32, height: u32)
        -> (r: Result<Self, ContourError>)
        ensures
            r is Err <==> !dims_valid(width, height) || raster@.len() != width * height,
            r == Err::<Self, ContourError>(ContourError::InputOverflow)
                <==> !dims_valid(width, height),
            r is Ok ==> built_from(r->Ok_0, raster@, width, height, false),
    {
        Self::new(raster, width, height, false)
    }

    /// An alias for `new(raster, width, height, inverted: true)`.
    /// Assumes white background and black foreground.
    pub fn black_on_white(raster: &[u8], width: u32, height: u32)
        -> (r: Result<Self, ContourError>)
        ensures
            r is Err <==> !dims_valid(width, height) || raster@.len() != width * height,
            r == Err::<Self, ContourError>(ContourError::InputOverflow)
                <==> !dims_valid(width, height),
            r is Ok ==> built_from(r->Ok_0, raster@, width, height, true),
    {
        Self::new(raster, width, height, true)
    }

    /// Finds the contours of the given raster of `width * height` bytes in
    /// row-major order, top row first.  Every non-zero byte is foreground;
    /// if `inverted` is true, zero bytes are the foreground instead.
    ///
    /// The scan visits the image row pair by row pair, top to bottom, with a
    /// padding row above and below, and feeds every merged change through
    /// the feature automaton into the point list and hierarchy builders.
    pub fn new(raster: &[u8], width: u32, height: u32, inverted: bool)
        -> (r: Result<Self, ContourError>)
        ensures
            r == Err::<Self, ContourError>(ContourError::InputOverflow)
                <==> !dims_valid(width, height),
            r == Err::<Self, ContourError>(ContourError::InputSizeMismatch)
                <==> dims_valid(width, height) && raster@.len() != width * height,
            r is Ok <==> dims_valid(width, height) && raster@.len() == width * height,
            r is Ok ==> built_from(r->Ok_0, raster@, width, height, inverted),
            r is Ok ==> (r->Ok_0).wf(),
    {
        proof {
            assert((width as int) * (height as int) <= 0xFFFF_FFFFu64 * 0xFFFF_FFFFu64)
                by (nonlinear_arith)
                requires
                    width as int <= 0xFFFF_FFFFu64 && height as int <= 0xFFFF_FFFFu64;
        }
        if width > i32::MAX as u32 || height > i32::MAX as u32
            || (width as u64) * (height as u64) > i32::MAX as u64 {
            return Err(ContourError::InputOverflow);
        }
        if raster.len() != (width as usize) * (height as usize) {
            return Err(ContourError::InputSizeMismatch);
        }
        let ghost rst = raster@;
        let ghost w = width as int;
        let ghost h = height as int;

        let mut builder = ContourCollectionBuilder::new(width as i32, height as i32);

        // Row changes are stored in two buffers reused across rows.
        let mut top_changes: Vec<u32> = Vec::new();
        let mut bottom_changes: Vec<u32> = Vec::new();

        // The padding row above the image
        fill_padding_changes(&mut bottom_changes);
        proof {
            lemma_padding_changes_wf();
        }

        // Scan the image row by row, top to bottom, closing with the
        // padding row below the image
        let mut row_index: u32 = 0;
        while row_index <= height
            invariant
                rst == raster@,
                w == width as int,
                h == height as int,
                rst.len() == w * h,
                dims_valid(width, height),
                0 <= row_index <= height + 1,
                builder.inv(),
                builder.spec_width() == width as i32,
                builder.spec_height() == height as i32,
                builder.model() == scan_rows(rst, w, h, inverted, row_index as int),
                bottom_changes@ == changes_of_row(rst, w, h, inverted, row_index - 1),
                wf_changes(bottom_changes@, i32::MAX as int),
                (bottom_changes@.len() - 1) % 2 == 0,
                builder.model().state == 0,
                builder.model().queue.len() == bottom_changes@.len() - 1,
            decreases height + 1 - row_index,
        {
            // Swap the buffers so the old bottom row becomes the new top row,
            // then fill the new bottom row with this row's changes
            std::mem::swap(&mut top_changes, &mut bottom_changes);
            if row_index < height {
                proof {
                    let ghost ri = row_index as int;
                    assert(ri * w + w <= h * w && w * h == h * w && 0 <= ri * w
                            && (ri + 1) * w == ri * w + w)
                        by (nonlinear_arith)
                        requires
                            0 <= ri && ri < h && 0 <= w;
                }
                let start = (row_index as usize) * (width as usize);
                let row = slice_subrange(raster, start, start + width as usize);
                fill_row_changes(row, inverted, &mut bottom_changes);
                proof {
                    lemma_row_changes_wf(row@, inverted);
                    assert(row@ == rst.subrange(row_index * w, (row_index + 1) * w));
                    assert(bottom_changes@
                        == changes_of_row(rst, w, h, inverted, row_index as int));
                }
            } else {
                fill_padding_changes(&mut bottom_changes);
                proof {
                    lemma_padding_changes_wf();
                }
            }
            let ghost tseq = top_changes@;
            let ghost bseq = bottom_changes@;
            let ghost m_pair = builder.model();
            let y = row_index as i32;

            // Look for changes in the two adjacent rows and feed each one
            // through the feature automaton
            let mut iter = RowPairChangeIter::new(top_changes.as_slice(),
                bottom_changes.as_slice());
            let ghost mut processed = Seq::<RowPairChange>::empty();
            loop
                invariant
                    dims_valid(width, height),
                    iter.wf(),
                    iter.top() == tseq,
                    iter.bottom() == bseq,
                    wf_changes(tseq, i32::MAX as int),
                    wf_changes(bseq, i32::MAX as int),
                    (tseq.len() - 1) % 2 == 0,
                    (bseq.len() - 1) % 2 == 0,
                    0 <= iter.ti() <= tseq.len() - 1,
                    0 <= iter.bi() <= bseq.len() - 1,
                    builder.inv(),
                    builder.spec_width() == width as i32,
                    builder.spec_height() == height as i32,
                    merged_changes(tseq, bseq) == processed + iter.remaining(),
                    builder.model() == steps(m_pair, y, processed),
                    inside_top(builder.model().state) <==> iter.ti() % 2 == 1,
                    inside_bottom(builder.model().state) <==> iter.bi() % 2 == 1,
                    builder.model().queue.len() == (tseq.len() - 1 - iter.ti()) + iter.bi()
                        + state_balance(builder.model().state),
                    builder.model().state == 2 || builder.model().state == 5
                        ==> iter.bi() >= 1,
                ensures
                    builder.inv(),
                    builder.spec_width() == width as i32,
                    builder.spec_height() == height as i32,
                    builder.model() == steps(m_pair, y, merged_changes(tseq, bseq)),
                    builder.model().state == 0,
                    builder.model().queue.len() == bseq.len() - 1,
                decreases iter.remaining().len(),
            {
                let ghost ti0 = iter.ti();
                let ghost bi0 = iter.bi();
                let ghost m0 = builder.model();
                match iter.next() {
                    Some(change) => {
                        proof {
                            lemma_pops_available(m0.state, change.kind,
                                tseq.len() - 1 - ti0, bi0, m0.queue.len() as int);
                        }
                        builder.add_row_pair_change(y, change);
                        proof {
                            lemma_steps_push(m_pair, y, processed, change);
                            processed = processed.push(change);
                            assert(merged_changes(tseq, bseq) =~= processed + iter.remaining());
                        }
                    },
                    None => {
                        proof {
                            assert(processed =~= merged_changes(tseq, bseq));
                            lemma_state_zero(builder.model().state);
                        }
                        break;
                    },
                }
            }
            proof {
                assert(scan_rows(rst, w, h, inverted, row_index + 1)
                    == steps(scan_rows(rst, w, h, inverted, row_index as int),
                        row_index as i32,
                        merged_changes(changes_of_row(rst, w, h, inverted, row_index - 1),
                            changes_of_row(rst, w, h, inverted, row_index as int))));
                assert(builder.model() == scan_rows(rst, w, h, inverted, row_index + 1));
            }
            row_index = row_index + 1;
        }
        proof {
            assert(bottom_changes@ == padding_changes_spec());
            assert(builder.model().queue.len() == 0);
        }
        let ghost m = builder.model();
        let collection = builder.into();
        proof {
            assert(packed_from(m.heads, collection.hierarchy@));
            lemma_packed_wf(m.heads, collection.hierarchy@);
            assert(collection.point_list@.len() <= usize::MAX);
            assert forall|k: int| 0 <= k < collection.point_list@.len()
                implies (#[trigger] collection.point_list@[k]).next
                    == crate::image_contour_collection::point_list_builder::NONE
                    || collection.point_list@[k].next < collection.point_list@.len() by {
                assert(m.points[k].next
                    == crate::image_contour_collection::point_list_builder::NONE
                    || m.points[k].next < m.points.len());
            }
            assert forall|c: int| 1 <= c < collection.hierarchy@.len()
                implies (#[trigger] collection.hierarchy@[c].head_point_index)
                    < collection.point_list@.len() by {
                lemma_rank_surjective(m.heads, m.heads.len() as int, c);
                let hd = choose|hd: int| 0 <= hd < m.heads.len() && !m.heads[hd].is_alias
                    && rank(m.heads, hd) == c;
                assert(hd >= 1) by {
                    assert(rank(m.heads, 0) == 0);
                }
                assert(collection.hierarchy@[rank(m.heads, hd)] == item_of_head(m.heads, hd));
                assert(m.heads[hd].point_index < m.points.len());
            }
        }
        Ok(collection)
    }

    /// Gets width and height of the original image.
    pub fn dimensions(&self) -> (r: (i32, i32))
        ensures
            r == (self.width, self.height),
    {
        (self.width, self.height)
    }

    /// Iterates only the top-level contours without any descendants.
    pub fn outermost_contours<'a>(&'a self) -> (r: ChildContourIter<'a>)
        requires
            self.wf(),
        ensures
            r.wf(),
            r.polarity_ok(),
            r.parent() == 0,
            r.remaining_child() == self.hierarchy@[0].first_child,
            r.hview() == self.hierarchy@,
            r.pview() == self.point_list@,
    {
        proof {
            assert(depth(self.hierarchy@, 0) == 0);
        }
        ChildContourIter::new(self.hierarchy.as_slice(), self.point_list.as_slice(), 0, false)
    }

    /// Iterates all outer contours without their inner children (holes),
    /// but with outer grandchildren, great-great-grandchildren, and so on.
    pub fn outer_contours<'a>(&'a self) -> (r: OuterContourIter<'a>)
        requires
            self.wf(),
        ensures
            r.wf(),
            r.pos() == 1,
            r.hview() == self.hierarchy@,
            r.pview() == self.point_list@,
    {
        proof {
            assert(depth(self.hierarchy@, 0) == 0);
        }
        OuterContourIter::new(DescendantContourIter::new(self.hierarchy.as_slice(),
            self.point_list.as_slice(), 0, false))
    }

    /// Iterates all the contours, outer or inner, depth-first.
    pub fn all_contours<'a>(&'a self) -> (r: DescendantContourIter<'a>)
        requires
            self.wf(),
        ensures
            r.wf(),
            r.root() == 0,
            r.pos() == 1,
            r.hview() == self.hierarchy@,
            r.pview() == self.point_list@,
    {
        proof {
            assert(depth(self.hierarchy@, 0) == 0);
        }
        DescendantContourIter::new(self.hierarchy.as_slice(), self.point_list.as_slice(),
            0, false)
    }
}

} // verus!
