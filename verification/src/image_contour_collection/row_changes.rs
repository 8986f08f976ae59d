//! Change positions within one pixel row.
//!
//! A _change_ occurs at coordinate x when the binarized value of the pixel at
//! x differs from the value of the pixel at x - 1.  The virtual neighbors
//! beyond both row edges carry the background value.  Coordinates correspond
//! to positions between pixels: coordinate 0 is to the left of the 0th pixel,
//! coordinate `width` is to the right of the last one.
//!
//! A produced change list is strictly ascending and is terminated by the
//! sentinel `END`, which is greater than any coordinate.

use vstd::prelude::*;

verus! {

/// Marks the end of a change list.  Is greater than any coordinate.
pub const END: u32 = u32::MAX;

/// Whether the pixel byte counts as foreground.  All non-zero bytes are the
/// same; `inverted` swaps the roles of zero and non-zero.
pub open spec fn is_foreground(pixel: u8, inverted: bool) -> bool {
    (pixel != 0) != inverted
}

/// Foreground value seen at pixel index `x` of the row, with the virtual
/// pixels beyond both edges reading as background.
pub open spec fn foreground_at(row: Seq<u8>, inverted: bool, x: int) -> bool {
    if 0 <= x < row.len() {
        is_foreground(row[x], inverted)
    } else {
        false
    }
}

/// Whether binarization flips between pixel x - 1 and pixel x.
pub open spec fn change_at(row: Seq<u8>, inverted: bool, x: int) -> bool {
    foreground_at(row, inverted, x) != foreground_at(row, inverted, x - 1)
}

/// The ascending list of change positions at or after coordinate `x`.
pub open spec fn changes_from(row: Seq<u8>, inverted: bool, x: int) -> Seq<u32>
    decreases row.len() + 1 - x
{
    if x > row.len() {
        Seq::empty()
    } else if change_at(row, inverted, x) {
        seq![x as u32] + changes_from(row, inverted, x + 1)
    } else {
        changes_from(row, inverted, x + 1)
    }
}

/// The full change list of a row: every change position, then the sentinel.
pub open spec fn row_changes_spec(row: Seq<u8>, inverted: bool) -> Seq<u32> {
    changes_from(row, inverted, 0).push(END)
}

/// The change list of a padding row: no changes, only the sentinel.
pub open spec fn padding_changes_spec() -> Seq<u32> {
    seq![END]
}

/// Clears `changes` and fills it with the change list of a padding row.
pub fn fill_padding_changes(changes: &mut Vec<u32>)
    ensures
        final(changes)@ == padding_changes_spec(),
{
    changes.clear();
    changes.push(END);
    assert(changes@ =~= padding_changes_spec());
}

/// Clears `changes` and fills it with the change list of the given pixel row.
pub fn fill_row_changes(row: &[u8], inverted: bool, changes: &mut Vec<u32>)
    requires
        row@.len() < END,
    ensures
        final(changes)@ == row_changes_spec(row@, inverted),
{
    changes.clear();
    let width = row.len();
    let mut previous = false;
    let mut x: usize = 0;
    while x < width
        invariant
            0 <= x <= width,
            width == row@.len() < END,
            previous == foreground_at(row@, inverted, x - 1),
            changes_from(row@, inverted, 0) == changes@ + changes_from(row@, inverted, x as int),
            forall|i: int| 0 <= i < changes@.len() ==> changes@[i] < x,
        decreases width - x,
    {
        let value = (row[x] != 0) != inverted;
        if value != previous {
            assert(change_at(row@, inverted, x as int));
            changes.push(x as u32);
            assert(changes_from(row@, inverted, x as int)
                == seq![x as u32] + changes_from(row@, inverted, x + 1));
        } else {
            assert(!change_at(row@, inverted, x as int));
        }
        previous = value;
        x = x + 1;
    }
    if previous {
        assert(change_at(row@, inverted, width as int));
        changes.push(width as u32);
        assert(changes_from(row@, inverted, width as int)
            == seq![width as u32] + changes_from(row@, inverted, width + 1));
    } else {
        assert(!change_at(row@, inverted, width as int));
    }
    assert(changes_from(row@, inverted, width + 1) =~= Seq::<u32>::empty());
    changes.push(END);
    assert(changes@ =~= row_changes_spec(row@, inverted));
}

/// A produced change list is well formed in the sense of the row pair
/// merger: sentinel-terminated, bounded by the row width, strictly
/// ascending, with an even number of real changes.
pub proof fn lemma_row_changes_wf(row: Seq<u8>, inverted: bool)
    requires
        row.len() <= i32::MAX,
    ensures
        crate::image_contour_collection::row_pair_changes::wf_changes(
            row_changes_spec(row, inverted), i32::MAX as int),
        (row_changes_spec(row, inverted).len() - 1) % 2 == 0,
{
    lemma_changes_from_bounds(row, inverted, 0);
    lemma_changes_from_ascending(row, inverted, 0);
    lemma_changes_from_even(row, inverted, 0);
    let s = row_changes_spec(row, inverted);
    let c = changes_from(row, inverted, 0);
    assert(s[s.len() - 1] == END);
    assert forall|i: int| 0 <= i < s.len() - 1 implies #[trigger] s[i] <= i32::MAX by {
        assert(s[i] == c[i]);
    }
    assert forall|i: int, j: int| 0 <= i < j < s.len() - 1 implies s[i] < s[j] by {
        assert(s[i] == c[i]);
        assert(s[j] == c[j]);
    }
}

/// The padding list is well formed and has no real changes.
pub proof fn lemma_padding_changes_wf()
    ensures
        crate::image_contour_collection::row_pair_changes::wf_changes(
            padding_changes_spec(), i32::MAX as int),
        padding_changes_spec().len() == 1,
{
}

/// Every change position lies in [x, row.len()], strictly below `END`.
pub proof fn lemma_changes_from_bounds(row: Seq<u8>, inverted: bool, x: int)
    requires
        0 <= x,
        row.len() < END,
    ensures
        forall|i: int| 0 <= i < changes_from(row, inverted, x).len()
            ==> x <= #[trigger] changes_from(row, inverted, x)[i] <= row.len(),
    decreases row.len() + 1 - x
{
    if x <= row.len() {
        lemma_changes_from_bounds(row, inverted, x + 1);
        let s = changes_from(row, inverted, x);
        let r = changes_from(row, inverted, x + 1);
        if change_at(row, inverted, x) {
            assert(s == seq![x as u32] + r);
            assert forall|i: int| 0 <= i < s.len() implies x <= #[trigger] s[i] <= row.len() by {
                if i == 0 {
                    assert(s[i] == x as u32);
                } else {
                    assert(s[i] == r[i - 1]);
                }
            }
        }
    }
}

/// Change positions strictly ascend.
pub proof fn lemma_changes_from_ascending(row: Seq<u8>, inverted: bool, x: int)
    requires
        0 <= x,
        row.len() < END,
    ensures
        forall|i: int, j: int| 0 <= i < j < changes_from(row, inverted, x).len()
            ==> changes_from(row, inverted, x)[i] < changes_from(row, inverted, x)[j],
    decreases row.len() + 1 - x
{
    if x <= row.len() {
        lemma_changes_from_ascending(row, inverted, x + 1);
        lemma_changes_from_bounds(row, inverted, x + 1);
        let s = changes_from(row, inverted, x);
        let r = changes_from(row, inverted, x + 1);
        if change_at(row, inverted, x) {
            assert(s == seq![x as u32] + r);
            assert forall|i: int, j: int| 0 <= i < j < s.len() implies #[trigger] s[i] < #[trigger] s[j] by {
                if i == 0 {
                    assert(s[i] == x as u32);
                    assert(s[j] == r[j - 1]);
                    assert(x + 1 <= r[j - 1]);
                } else {
                    assert(s[i] == r[i - 1]);
                    assert(s[j] == r[j - 1]);
                }
            }
        }
    }
}

/// A row has an even number of changes: every foreground run that is entered
/// is also left, the virtual edges being background on both sides.
pub proof fn lemma_changes_from_even(row: Seq<u8>, inverted: bool, x: int)
    requires
        0 <= x <= row.len() + 1,
    ensures
        changes_from(row, inverted, x).len() % 2
            == (if foreground_at(row, inverted, x - 1) { 1int } else { 0int }) % 2,
    decreases row.len() + 1 - x
{
    if x <= row.len() {
        lemma_changes_from_even(row, inverted, x + 1);
    }
}

} // verus!
