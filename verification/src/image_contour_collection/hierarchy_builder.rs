//! The contour hierarchy and its scan-order union-find builder.
//!
//! During the scan every `Head` feature opens a head record.  Two records can
//! turn out to describe the same ring once a `Foot` joins their open ends;
//! the record with the larger index then becomes an alias of the smaller one.
//! The smaller index always belongs to the outer of the two tops, so the
//! parent captured when the surviving record was born stays correct through
//! all later merges.  At the end the surviving records are packed into a
//! dense array of hierarchy items linked parent/child/sibling-wise.

use vstd::prelude::*;

verus! {

/// One node of the finished contour hierarchy.  Index 0 is the synthetic
/// root.  `next_sibling` and `first_child` are item indices; the root is
/// never a sibling or a child, so `None` marks the end of a chain.
#[derive(Debug, Clone, Copy, PartialEq, Eq)]
pub struct HierarchyItem {
    pub head_point_index: usize,
    pub parent: usize,
    pub next_sibling: Option<usize>,
    pub first_child: Option<usize>,
}

/// A build-time head record: the point index of the ring's head vertex, the
/// alias flag, and the enclosing contour observed when the head was born.
/// For an alias, `parent` points at the record it was merged into.
#[derive(Debug, Clone, Copy, PartialEq, Eq, Structural)]
pub struct Head {
    pub point_index: usize,
    pub is_alias: bool,
    pub parent: usize,
}

/// Well-formed head records: the root record is index 0 and is never an
/// alias, and every later record points to a strictly smaller parent, so
/// alias chains terminate.
pub open spec fn wf_heads(heads: Seq<Head>) -> bool {
    &&& heads.len() >= 1
    &&& !heads[0].is_alias
    &&& heads[0].parent == 0
    &&& forall|i: int| 1 <= i < heads.len() ==> (#[trigger] heads[i].parent) < i
}

/// Follows alias links down to the surviving record.
pub open spec fn unalias_spec(heads: Seq<Head>, id: int) -> int
    decreases id
{
    if 0 <= id < heads.len() && heads[id].is_alias && heads[id].parent < id {
        unalias_spec(heads, heads[id].parent as int)
    } else {
        id
    }
}

/// Whether `h` is a surviving (non-alias) record index.
pub open spec fn live(heads: Seq<Head>, h: int) -> bool {
    0 <= h < heads.len() && !heads[h].is_alias
}

/// The number of surviving records among the first `i`: for a surviving
/// record, its index in the finished hierarchy.
pub open spec fn rank(heads: Seq<Head>, i: int) -> int
    decreases i
{
    if i <= 0 {
        0
    } else {
        rank(heads, i - 1) + if heads[i - 1].is_alias { 0int } else { 1int }
    }
}

/// The surviving record a head's recorded parent resolves to.
pub open spec fn parent_head(heads: Seq<Head>, h: int) -> int {
    unalias_spec(heads, heads[h].parent as int)
}

/// The smallest surviving record index at or after `i` whose resolved parent
/// is `p`: the next child of `p` in scan order.
pub open spec fn child_after(heads: Seq<Head>, p: int, i: int) -> Option<int>
    decreases heads.len() - i
{
    if 1 <= i < heads.len() {
        if !heads[i].is_alias && parent_head(heads, i) == p {
            Some(i)
        } else {
            child_after(heads, p, i + 1)
        }
    } else {
        None
    }
}

/// Maps an optional surviving record index to its hierarchy index.
pub open spec fn opt_rank(heads: Seq<Head>, o: Option<int>) -> Option<usize> {
    match o {
        Some(h) => Some(rank(heads, h) as usize),
        None => None,
    }
}

/// The finished hierarchy item of the surviving record `h` (`h >= 1`).
pub open spec fn item_of_head(heads: Seq<Head>, h: int) -> HierarchyItem {
    HierarchyItem {
        head_point_index: heads[h].point_index,
        parent: rank(heads, parent_head(heads, h)) as usize,
        next_sibling: opt_rank(heads, child_after(heads, parent_head(heads, h), h + 1)),
        first_child: opt_rank(heads, child_after(heads, h, 1)),
    }
}

/// The finished root item.
pub open spec fn root_item(heads: Seq<Head>) -> HierarchyItem {
    HierarchyItem {
        head_point_index: heads[0].point_index,
        parent: 0,
        next_sibling: None,
        first_child: opt_rank(heads, child_after(heads, 0, 1)),
    }
}

/// What merging the regions `left` and `right` does to the records: nothing
/// when both resolve to the same survivor, otherwise the larger of the two
/// survivors becomes an alias of the smaller.
pub open spec fn merge_spec(heads: Seq<Head>, left: int, right: int) -> Seq<Head> {
    let l = unalias_spec(heads, left);
    let r = unalias_spec(heads, right);
    if l == r {
        heads
    } else {
        let from = if l < r { r } else { l };
        let to = if l < r { l } else { r };
        heads.update(from, Head {
            point_index: heads[from].point_index,
            is_alias: true,
            parent: to as usize,
        })
    }
}

/// Builds the contour hierarchy while the image is scanned.
#[derive(Debug)]
pub struct HierarchyBuilder {
    heads: Vec<Head>,
    contour_to_the_left: usize,
}

impl HierarchyBuilder {
    /// The head records, for contracts.
    pub closed spec fn spec_heads(&self) -> Seq<Head> {
        self.heads@
    }

    /// The identifier of the ring whose interior the scan position is
    /// currently inside, for contracts.
    pub closed spec fn spec_left(&self) -> int {
        self.contour_to_the_left as int
    }

    pub open spec fn inv(&self) -> bool {
        &&& wf_heads(self.spec_heads())
        &&& 0 <= self.spec_left() < self.spec_heads().len()
    }

    /// A builder holding only the root record, with the scan outside
    /// every ring.
    pub fn new() -> (r: Self)
        ensures
            r.inv(),
            r.spec_heads() == seq![Head { point_index: 0, is_alias: false, parent: 0 }],
            r.spec_left() == 0,
    {
        let root = Head { point_index: 0, is_alias: false, parent: 0 };
        let mut heads = Vec::new();
        heads.push(root);
        proof {
            assert(heads@ =~= seq![root]);
        }
        Self { heads, contour_to_the_left: 0 }
    }

    /// The head records added so far.
    pub fn heads(&self) -> (r: &Vec<Head>)
        ensures
            r@ == self.spec_heads(),
    {
        &self.heads
    }

    /// Opens a new head record whose parent is the ring currently to the
    /// left.  Returns the new identifier and the identifier of the ring to
    /// the right of the new head.
    pub fn add_contour(&mut self, point_index: usize) -> (r: (usize, usize))
        requires
            old(self).inv(),
        ensures
            final(self).inv(),
            r.0 == old(self).spec_heads().len(),
            r.1 == old(self).spec_left(),
            final(self).spec_heads() == old(self).spec_heads().push(Head {
                point_index,
                is_alias: false,
                parent: old(self).spec_left() as usize,
            }),
            final(self).spec_left() == old(self).spec_left(),
    {
        let parent_contour = self.contour_to_the_left;
        let new_contour = self.heads.len();
        self.heads.push(Head { point_index, is_alias: false, parent: parent_contour });
        (new_contour, parent_contour)
    }

    /// Records that the scan has crossed a ring boundary: the ring to the
    /// right of the crossed point now encloses the scan position.
    pub fn cross_contour(&mut self, contour_to_the_right: usize)
        requires
            old(self).inv(),
            contour_to_the_right < old(self).spec_heads().len(),
        ensures
            final(self).inv(),
            final(self).spec_heads() == old(self).spec_heads(),
            final(self).spec_left() == contour_to_the_right as int,
    {
        self.contour_to_the_left = contour_to_the_right;
    }

    /// Called at a foot: the regions seen to the left and to the right of
    /// the closing point are the same region, so their surviving records are
    /// merged, the smaller index surviving.
    pub fn merge_contours(&mut self, contour_to_the_right: usize)
        requires
            old(self).inv(),
            contour_to_the_right < old(self).spec_heads().len(),
        ensures
            final(self).inv(),
            final(self).spec_heads() == merge_spec(old(self).spec_heads(),
                old(self).spec_left(), contour_to_the_right as int),
            final(self).spec_left() == old(self).spec_left(),
    {
        proof {
            lemma_unalias_live(self.heads@, self.contour_to_the_left as int);
            lemma_unalias_live(self.heads@, contour_to_the_right as int);
        }
        let left = self.unalias(self.contour_to_the_left);
        let right = self.unalias(contour_to_the_right);

        if left != right {
            let (from, to) = if left < right { (right, left) } else { (left, right) };
            let old_head = self.heads[from];
            self.heads.set(from, Head {
                point_index: old_head.point_index,
                is_alias: true,
                parent: to,
            });
        }
    }

    /// Packs the surviving records into the dense hierarchy item array.
    ///
    /// Each surviving record keeps its scan order: item index = rank.  The
    /// parent link resolves the recorded parent through aliases; sibling
    /// chains list the children of one parent in ascending scan order, each
    /// parent's `first_child` being its earliest-seen child.
    pub fn into(self) -> (r: Vec<HierarchyItem>)
        requires
            self.inv(),
        ensures
            self.spec_heads().len() <= usize::MAX,
            r@.len() == rank(self.spec_heads(), self.spec_heads().len() as int),
            r@[0] == root_item(self.spec_heads()),
            forall|h: int| 1 <= h < self.spec_heads().len()
                && !self.spec_heads()[h].is_alias
                ==> r@[rank(self.spec_heads(), h)] == item_of_head(self.spec_heads(), h),
    {
        let ghost heads_seq = self.heads@;
        let heads = &self.heads;
        let len = heads.len();

        // First pass: assign each surviving record its dense hierarchy index
        // and create its item with the links still unset.
        let mut ranks: Vec<usize> = Vec::new();
        let mut hierarchy: Vec<HierarchyItem> = Vec::new();
        let mut i: usize = 0;
        while i < len
            invariant
                len == heads_seq.len(),
                heads@ == heads_seq,
                wf_heads(heads_seq),
                0 <= i <= len,
                ranks@.len() == i,
                forall|j: int| 0 <= j < i ==> ranks@[j] == rank(heads_seq, j),
                hierarchy@.len() == rank(heads_seq, i as int),
                forall|j: int| 0 <= j < i && !heads_seq[j].is_alias
                    ==> #[trigger] hierarchy@[rank(heads_seq, j)] == (HierarchyItem {
                        head_point_index: heads_seq[j].point_index,
                        parent: 0,
                        next_sibling: None,
                        first_child: None,
                    }),
            decreases len - i,
        {
            proof {
                lemma_rank_bounds(heads_seq, i as int);
                lemma_rank_all_strict(heads_seq, i as int);
                assert(rank(heads_seq, i + 1) == rank(heads_seq, i as int)
                    + if heads_seq[i as int].is_alias { 0int } else { 1int });
            }
            ranks.push(hierarchy.len());
            if !heads[i].is_alias {
                hierarchy.push(HierarchyItem {
                    head_point_index: heads[i].point_index,
                    parent: 0,
                    next_sibling: None,
                    first_child: None,
                });
            }
            i = i + 1;
        }
        let ghost n = rank(heads_seq, len as int);
        proof {
            assert(rank(heads_seq, 0) == 0);
            assert(rank(heads_seq, 1) == 1);
            lemma_rank_monotone(heads_seq, 1, len as int);
        }

        // Second pass, in reverse scan order: resolve each surviving
        // record's parent and push the record onto the front of that
        // parent's child list.  Reverse order leaves each child list in
        // ascending scan order.
        let mut index = len;
        while index > 1
            invariant
                len == heads_seq.len(),
                heads@ == heads_seq,
                wf_heads(heads_seq),
                1 <= index <= len,
                ranks@.len() == len,
                forall|j: int| 0 <= j < len ==> ranks@[j] == rank(heads_seq, j),
                hierarchy@.len() == n,
                n == rank(heads_seq, len as int),
                hierarchy@[0].head_point_index == heads_seq[0].point_index,
                hierarchy@[0].parent == 0,
                hierarchy@[0].next_sibling == None::<usize>,
                forall|h: int| 1 <= h < len && !heads_seq[h].is_alias
                    ==> (#[trigger] hierarchy@[rank(heads_seq, h)]).head_point_index
                        == heads_seq[h].point_index,
                forall|h: int| index <= h < len && !heads_seq[h].is_alias
                    ==> (#[trigger] hierarchy@[rank(heads_seq, h)]).parent
                            == rank(heads_seq, parent_head(heads_seq, h)) as usize
                        && hierarchy@[rank(heads_seq, h)].next_sibling
                            == opt_rank(heads_seq,
                                child_after(heads_seq, parent_head(heads_seq, h), h + 1)),
                forall|h: int| 1 <= h < index && !heads_seq[h].is_alias
                    ==> (#[trigger] hierarchy@[rank(heads_seq, h)]).parent == 0
                        && hierarchy@[rank(heads_seq, h)].next_sibling == None::<usize>,
                forall|p: int| 0 <= p < len && !heads_seq[p].is_alias
                    ==> (#[trigger] hierarchy@[rank(heads_seq, p)]).first_child
                        == opt_rank(heads_seq, child_after(heads_seq, p, index as int)),
            decreases index,
        {
            index = index - 1;
            if !heads[index].is_alias {
                proof {
                    lemma_rank_strict(heads_seq, index as int);
                    lemma_unalias_live(heads_seq, heads_seq[index as int].parent as int);
                    lemma_rank_strict(heads_seq, parent_head(heads_seq, index as int));
                    lemma_rank_injective(heads_seq);
                    lemma_rank_all_strict(heads_seq, len as int);
                    assert(rank(heads_seq, 0) == 0);
                    assert(rank(heads_seq, 1) == 1);
                    lemma_rank_monotone(heads_seq, 1, index as int);
                    assert(rank(heads_seq, index as int) >= 1);
                    assert(parent_head(heads_seq, index as int) < index as int);
                }
                let current = ranks[index];
                let parent_surviving = unalias_in(heads, heads[index].parent);
                let parent_item = ranks[parent_surviving];

                let cur_item = hierarchy[current];
                let par_item = hierarchy[parent_item];
                hierarchy.set(current, HierarchyItem {
                    head_point_index: cur_item.head_point_index,
                    parent: parent_item,
                    next_sibling: par_item.first_child,
                    first_child: cur_item.first_child,
                });
                let par_item = hierarchy[parent_item];
                hierarchy.set(parent_item, HierarchyItem {
                    head_point_index: par_item.head_point_index,
                    parent: par_item.parent,
                    next_sibling: par_item.next_sibling,
                    first_child: Some(current),
                });
                proof {
                    lemma_into_step(heads_seq, index as int);
                }
            } else {
                proof {
                    lemma_child_after_skip(heads_seq, index as int);
                }
            }
        }
        proof {
            assert(rank(heads_seq, 0) == 0);
            assert(hierarchy@[0] == root_item(heads_seq));
            assert forall|h: int| 1 <= h < len && !heads_seq[h].is_alias
                implies hierarchy@[rank(heads_seq, h)] == item_of_head(heads_seq, h) by {
                lemma_rank_strict(heads_seq, h);
            }
        }
        hierarchy
    }

    /// Returns the index of the surviving head record reached from a
    /// possibly aliased head index.
    fn unalias(&self, alias: usize) -> (r: usize)
        requires
            self.inv(),
            alias < self.spec_heads().len(),
        ensures
            r == unalias_spec(self.spec_heads(), alias as int),
    {
        unalias_in(&self.heads, alias)
    }
}

/// Follows alias links in `heads` down to the surviving record.
fn unalias_in(heads: &Vec<Head>, alias: usize) -> (r: usize)
    requires
        wf_heads(heads@),
        alias < heads@.len(),
    ensures
        r == unalias_spec(heads@, alias as int),
        r <= alias,
        !heads@[r as int].is_alias,
{
    proof {
        lemma_unalias_live(heads@, alias as int);
    }
    let mut index = alias;
    while heads[index].is_alias
        invariant
            wf_heads(heads@),
            index < heads@.len(),
            index <= alias,
            unalias_spec(heads@, index as int) == unalias_spec(heads@, alias as int),
        decreases index,
    {
        assert(index >= 1);
        index = heads[index].parent;
        proof {
            lemma_unalias_live(heads@, index as int);
        }
    }
    index
}

/// Merging keeps the records well formed and their number unchanged.
pub proof fn lemma_merge_wf(heads: Seq<Head>, left: int, right: int)
    requires
        wf_heads(heads),
        0 <= left < heads.len(),
        0 <= right < heads.len(),
    ensures
        wf_heads(merge_spec(heads, left, right)),
        merge_spec(heads, left, right).len() == heads.len(),
{
    lemma_unalias_live(heads, left);
    lemma_unalias_live(heads, right);
}

/// Merging never changes any record's head point.
pub proof fn lemma_merge_points(heads: Seq<Head>, left: int, right: int)
    requires
        wf_heads(heads),
        0 <= left < heads.len(),
        0 <= right < heads.len(),
    ensures
        forall|i: int| 0 <= i < heads.len()
            ==> (#[trigger] merge_spec(heads, left, right)[i]).point_index
                == heads[i].point_index,
{
    lemma_unalias_live(heads, left);
    lemma_unalias_live(heads, right);
}

/// Resolving an alias lands on a surviving record with an index no larger
/// than where it started.
pub proof fn lemma_unalias_live(heads: Seq<Head>, id: int)
    requires
        wf_heads(heads),
        0 <= id < heads.len(),
    ensures
        live(heads, unalias_spec(heads, id)),
        0 <= unalias_spec(heads, id) <= id,
    decreases id
{
    if heads[id].is_alias {
        assert(id >= 1);
        lemma_unalias_live(heads, heads[id].parent as int);
    }
}

/// `rank` never exceeds the number of records considered and never falls.
pub proof fn lemma_rank_bounds(heads: Seq<Head>, i: int)
    requires
        0 <= i,
    ensures
        0 <= rank(heads, i) <= i,
    decreases i
{
    if i > 0 {
        lemma_rank_bounds(heads, i - 1);
    }
}

/// `rank` is monotone in its index.
pub proof fn lemma_rank_monotone(heads: Seq<Head>, i: int, j: int)
    requires
        0 <= i <= j,
    ensures
        rank(heads, i) <= rank(heads, j),
    decreases j - i
{
    if i < j {
        lemma_rank_monotone(heads, i, j - 1);
    }
}

/// Every surviving record among the first `i` has a rank strictly below
/// `rank(heads, i)`.
pub proof fn lemma_rank_all_strict(heads: Seq<Head>, i: int)
    ensures
        forall|j: int| 0 <= j < i && !heads[j].is_alias
            ==> #[trigger] rank(heads, j) < rank(heads, i),
{
    assert forall|j: int| 0 <= j < i && !heads[j].is_alias
        implies #[trigger] rank(heads, j) < rank(heads, i) by {
        assert(rank(heads, j + 1) == rank(heads, j) + 1);
        lemma_rank_monotone(heads, j + 1, i);
    }
}

/// Distinct surviving records have distinct ranks.
pub proof fn lemma_rank_injective(heads: Seq<Head>)
    ensures
        forall|h1: int, h2: int| live(heads, h1) && live(heads, h2) && h1 != h2
            ==> #[trigger] rank(heads, h1) != #[trigger] rank(heads, h2),
{
    assert forall|h1: int, h2: int| live(heads, h1) && live(heads, h2) && h1 != h2
        implies #[trigger] rank(heads, h1) != #[trigger] rank(heads, h2) by {
        if h1 < h2 {
            lemma_rank_strict(heads, h1);
        } else {
            lemma_rank_strict(heads, h2);
        }
    }
}

/// A surviving record's rank is strictly below the rank of every later
/// index, in particular below the total count.
pub proof fn lemma_rank_strict(heads: Seq<Head>, h: int)
    requires
        0 <= h < heads.len(),
        !heads[h].is_alias,
    ensures
        forall|j: int| h < j <= heads.len()
            ==> rank(heads, h) < #[trigger] rank(heads, j),
{
    assert forall|j: int| h < j <= heads.len()
        implies rank(heads, h) < #[trigger] rank(heads, j) by {
        assert(rank(heads, h + 1) == rank(heads, h) + 1);
        lemma_rank_monotone(heads, h + 1, j);
    }
}

/// When the record at `index` is an alias, no child list mentions it.
proof fn lemma_child_after_skip(heads: Seq<Head>, index: int)
    requires
        1 <= index < heads.len(),
        heads[index].is_alias,
    ensures
        forall|p: int| child_after(heads, p, index)
            == #[trigger] child_after(heads, p, index + 1),
{
}

/// When the record at `index` survives, it becomes the next child of its
/// resolved parent and of no one else.
proof fn lemma_into_step(heads: Seq<Head>, index: int)
    requires
        1 <= index < heads.len(),
        !heads[index].is_alias,
    ensures
        child_after(heads, parent_head(heads, index), index) == Some(index),
        forall|p: int| p != parent_head(heads, index)
            ==> child_after(heads, p, index) == #[trigger] child_after(heads, p, index + 1),
{
}

} // verus!
