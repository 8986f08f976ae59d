//! Navigation over the finished contour hierarchy: contour handles, child
//! and depth-first descendant iteration, and the tree laws they rest on.

use vstd::prelude::*;
use super::hierarchy_builder::{Head, HierarchyItem, wf_heads, live, rank, parent_head,
    child_after, opt_rank, item_of_head, root_item, lemma_rank_bounds, lemma_rank_monotone,
    lemma_rank_strict, lemma_rank_injective, lemma_unalias_live};
use super::point_list_builder::{PointListItem, NONE};

verus! {

/// The smallest item index at or after `i` whose parent is `p`: the next
/// child of `p` in item order.
pub open spec fn item_child_after(v: Seq<HierarchyItem>, p: int, i: int) -> Option<usize>
    decreases v.len() - i
{
    if 1 <= i < v.len() {
        if v[i].parent == p {
            Some(i as usize)
        } else {
            item_child_after(v, p, i + 1)
        }
    } else {
        None
    }
}

/// A well-formed hierarchy: the root is item 0 and its own parent; every
/// other item points to a strictly smaller parent; `first_child` is the
/// smallest child, `next_sibling` the next child of the same parent, both
/// in item order.  The child lists exactly mirror the parent links.
pub open spec fn wf_hierarchy(v: Seq<HierarchyItem>) -> bool {
    &&& 1 <= v.len() <= usize::MAX
    &&& v[0].parent == 0
    &&& v[0].next_sibling == None::<usize>
    &&& forall|c: int| 1 <= c < v.len() ==> (#[trigger] v[c].parent) < c
    &&& forall|c: int| 0 <= c < v.len() ==> (#[trigger] v[c].first_child)
        == item_child_after(v, c, c + 1)
    &&& forall|c: int| 1 <= c < v.len() ==> (#[trigger] v[c].next_sibling)
        == item_child_after(v, v[c].parent as int, c + 1)
}

/// What the searcher returns: a child in range with no earlier child, or
/// nothing when no later child exists.
pub proof fn lemma_item_child_after(v: Seq<HierarchyItem>, p: int, i: int)
    requires
        1 <= i,
        v.len() <= usize::MAX,
    ensures
        match item_child_after(v, p, i) {
            Some(j) => {
                &&& i <= j as int
                &&& (j as int) < v.len()
                &&& 1 <= j as int
                &&& v[j as int].parent == p
                &&& forall|s: int| i <= s < j as int && s >= 1
                    ==> (#[trigger] v[s].parent) != p
            },
            None => forall|s: int| i <= s < v.len() && s >= 1
                ==> (#[trigger] v[s].parent) != p,
        },
    decreases v.len() - i
{
    if i >= v.len() {
        assert(item_child_after(v, p, i) == None::<usize>);
    } else if v[i].parent == p {
        assert(item_child_after(v, p, i) == Some(i as usize));
    } else {
        lemma_item_child_after(v, p, i + 1);
        assert(item_child_after(v, p, i) == item_child_after(v, p, i + 1));
        match item_child_after(v, p, i + 1) {
            Some(j) => {
                assert forall|s: int| i <= s < j && s >= 1
                    implies (#[trigger] v[s].parent) != p by {
                    if s > i {
                        assert(v[s].parent != p);
                    }
                }
            },
            None => {
                assert forall|s: int| i <= s < v.len() && s >= 1
                    implies (#[trigger] v[s].parent) != p by {
                    if s > i {
                        assert(v[s].parent != p);
                    }
                }
            },
        }
    }
}

/// The nesting level of an item: 0 at the root, one more at each child.
pub open spec fn depth(v: Seq<HierarchyItem>, c: int) -> nat
    decreases c
{
    if 1 <= c < v.len() && v[c].parent < c {
        1 + depth(v, v[c].parent as int)
    } else {
        0
    }
}

/// Whether `a` is `d` or one of the ancestors of `d`.
pub open spec fn anc(v: Seq<HierarchyItem>, d: int, a: int) -> bool
    decreases d
{
    if d == a {
        true
    } else if 1 <= d < v.len() && v[d].parent < d {
        anc(v, v[d].parent as int, a)
    } else {
        false
    }
}

/// An ancestor never has a larger index.
pub proof fn lemma_anc_le(v: Seq<HierarchyItem>, d: int, a: int)
    requires
        anc(v, d, a),
    ensures
        a <= d,
    decreases d
{
    if d != a {
        lemma_anc_le(v, v[d].parent as int, a);
    }
}

/// Every item descends from the root.
pub proof fn lemma_anc_root(v: Seq<HierarchyItem>, d: int)
    requires
        wf_hierarchy(v),
        0 <= d < v.len(),
    ensures
        anc(v, d, 0),
    decreases d
{
    if d > 0 {
        lemma_anc_root(v, v[d].parent as int);
    }
}

/// Climbing one step preserves ancestry.
pub proof fn lemma_anc_step(v: Seq<HierarchyItem>, d: int, s: int)
    requires
        1 <= s < v.len(),
        anc(v, d, s),
        v[s].parent < s,
    ensures
        anc(v, d, v[s].parent as int),
    decreases d
{
    let p = v[s].parent as int;
    if d == s {
        assert(anc(v, s, p)) by {
            assert(anc(v, p, p));
        }
    } else {
        lemma_anc_step(v, v[d].parent as int, s);
        if d != p {
            assert(anc(v, d, p));
        }
    }
}

/// A strict descendant of `c` descends from one of the children of `c`.
pub proof fn lemma_anc_split(v: Seq<HierarchyItem>, d: int, c: int)
    requires
        wf_hierarchy(v),
        0 <= d < v.len(),
        anc(v, d, c),
        d != c,
    ensures
        exists|s: int| 1 <= s < v.len() && (#[trigger] v[s].parent) == c && anc(v, d, s),
    decreases d
{
    let p = v[d].parent as int;
    if p == c {
        assert(1 <= d < v.len() && v[d as int].parent == c && anc(v, d, d));
    } else {
        lemma_anc_split(v, p, c);
        let s = choose|s: int| 1 <= s < v.len() && (#[trigger] v[s].parent) == c && anc(v, p, s);
        assert(anc(v, d, s));
    }
}

/// Two different children of one parent have no common descendant.
pub proof fn lemma_anc_disjoint(v: Seq<HierarchyItem>, d: int, c1: int, c2: int)
    requires
        wf_hierarchy(v),
        1 <= c1 < v.len(),
        1 <= c2 < v.len(),
        c1 != c2,
        v[c1].parent == v[c2].parent,
        anc(v, d, c1),
    ensures
        !anc(v, d, c2),
    decreases d
{
    if d == c1 {
        if anc(v, c1, c2) {
            lemma_anc_le(v, v[c1].parent as int, c2);
        }
    } else if d == c2 {
        lemma_anc_le(v, v[c2].parent as int, c1);
    } else {
        if 1 <= d < v.len() {
            lemma_anc_disjoint(v, v[d].parent as int, c1, c2);
        }
    }
}

/// The depth-first preorder listing of the subtree rooted at item `c`.
pub open spec fn flat_item(v: Seq<HierarchyItem>, c: int) -> Seq<int>
    decreases v.len() - c, 0int
        when wf_hierarchy(v) && 0 <= c < v.len()
        via flat_item_dec
{
    seq![c] + match v[c].first_child {
        Some(d) => flat_chain(v, d as int),
        None => Seq::empty(),
    }
}

/// The preorder listing of the subtrees of item `c` and all its later
/// siblings.
pub open spec fn flat_chain(v: Seq<HierarchyItem>, c: int) -> Seq<int>
    decreases v.len() - c, 1int
        when wf_hierarchy(v) && 1 <= c < v.len()
        via flat_chain_dec
{
    flat_item(v, c) + match v[c].next_sibling {
        Some(s) => flat_chain(v, s as int),
        None => Seq::empty(),
    }
}

#[via_fn]
proof fn flat_item_dec(v: Seq<HierarchyItem>, c: int) {
    lemma_item_child_after(v, c, c + 1);
}

#[via_fn]
proof fn flat_chain_dec(v: Seq<HierarchyItem>, c: int) {
    lemma_item_child_after(v, v[c].parent as int, c + 1);
}

/// The subtree listing of `c` holds exactly the items descending from `c`.
pub proof fn lemma_item_members(v: Seq<HierarchyItem>, c: int)
    requires
        wf_hierarchy(v),
        0 <= c < v.len(),
    ensures
        forall|d: int| #[trigger] flat_item(v, c).contains(d)
            <==> (0 <= d < v.len() && anc(v, d, c)),
    decreases v.len() - c, 0int
{
    lemma_item_child_after(v, c, c + 1);
    let s0 = flat_item(v, c);
    match v[c].first_child {
        None => {
            assert(s0 =~= seq![c]);
            assert forall|d: int| s0.contains(d)
                implies (0 <= d < v.len() && anc(v, d, c)) by {
                assert(d == c);
            }
            assert forall|d: int| 0 <= d < v.len() && anc(v, d, c)
                implies s0.contains(d) by {
                if d != c {
                    lemma_anc_split(v, d, c);
                    let s = choose|s: int| 1 <= s < v.len()
                        && (#[trigger] v[s].parent) == c && anc(v, d, s);
                    assert(false);
                } else {
                    assert(s0[0] == c);
                }
            }
        },
        Some(d0) => {
            let d0 = d0 as int;
            lemma_chain_members(v, d0);
            assert forall|d: int| s0.contains(d)
                implies (0 <= d < v.len() && anc(v, d, c)) by {
                let k = choose|k: int| 0 <= k < s0.len() && s0[k] == d;
                if k == 0 {
                    assert(d == c);
                } else {
                    assert(flat_chain(v, d0)[k - 1] == d);
                    assert(flat_chain(v, d0).contains(d));
                    let s = choose|s: int| (#[trigger] v[s].parent) == v[d0].parent
                        && d0 <= s && 1 <= s < v.len() && anc(v, d, s);
                    lemma_anc_step(v, d, s);
                }
            }
            assert forall|d: int| 0 <= d < v.len() && anc(v, d, c)
                implies s0.contains(d) by {
                if d == c {
                    assert(s0[0] == c);
                } else {
                    lemma_anc_split(v, d, c);
                    let s = choose|s: int| 1 <= s < v.len()
                        && (#[trigger] v[s].parent) == c && anc(v, d, s);
                    assert(s >= d0);
                    assert(flat_chain(v, d0).contains(d));
                    let k = choose|k: int| 0 <= k < flat_chain(v, d0).len()
                        && flat_chain(v, d0)[k] == d;
                    assert(s0[k + 1] == d);
                }
            }
        },
    }
}

/// The chain listing of `c` holds exactly the items descending from `c` or
/// from a later sibling of `c`.
pub proof fn lemma_chain_members(v: Seq<HierarchyItem>, c: int)
    requires
        wf_hierarchy(v),
        1 <= c < v.len(),
    ensures
        forall|d: int| #[trigger] flat_chain(v, c).contains(d)
            <==> (0 <= d < v.len() && exists|s: int| (#[trigger] v[s].parent) == v[c].parent
                && c <= s && 1 <= s < v.len() && anc(v, d, s)),
    decreases v.len() - c, 1int
{
    let s0 = flat_chain(v, c);
    let p = v[c].parent as int;
    lemma_item_members(v, c);
    lemma_item_child_after(v, p, c + 1);
    match v[c].next_sibling {
        None => {
            assert(s0 =~= flat_item(v, c));
            assert forall|d: int| s0.contains(d)
                implies (0 <= d < v.len() && exists|s: int| (#[trigger] v[s].parent)
                    == v[c].parent && c <= s && 1 <= s < v.len() && anc(v, d, s)) by {
                assert(anc(v, d, c));
                assert(v[c].parent == v[c].parent && c <= c && 1 <= c < v.len()
                    && anc(v, d, c));
            }
            assert forall|d: int| 0 <= d < v.len()
                && exists|s: int| (#[trigger] v[s].parent) == v[c].parent
                    && c <= s && 1 <= s < v.len() && anc(v, d, s)
                implies s0.contains(d) by {
                let s = choose|s: int| (#[trigger] v[s].parent) == v[c].parent
                    && c <= s && 1 <= s < v.len() && anc(v, d, s);
                assert(s == c);
            }
        },
        Some(sib) => {
            let sib = sib as int;
            lemma_chain_members(v, sib);
            assert(v[sib].parent == v[c].parent);
            assert forall|d: int| s0.contains(d)
                implies (0 <= d < v.len() && exists|s: int| (#[trigger] v[s].parent)
                    == v[c].parent && c <= s && 1 <= s < v.len() && anc(v, d, s)) by {
                let k = choose|k: int| 0 <= k < s0.len() && s0[k] == d;
                if k < flat_item(v, c).len() {
                    assert(flat_item(v, c).contains(d));
                    assert(v[c].parent == v[c].parent && c <= c && 1 <= c < v.len()
                        && anc(v, d, c));
                } else {
                    assert(flat_chain(v, sib)[k - flat_item(v, c).len()] == d);
                    assert(flat_chain(v, sib).contains(d));
                    let s = choose|s: int| (#[trigger] v[s].parent) == v[sib].parent
                        && sib <= s && 1 <= s < v.len() && anc(v, d, s);
                    assert(v[s].parent == v[c].parent && c <= s && anc(v, d, s));
                }
            }
            assert forall|d: int| 0 <= d < v.len()
                && exists|s: int| (#[trigger] v[s].parent) == v[c].parent
                    && c <= s && 1 <= s < v.len() && anc(v, d, s)
                implies s0.contains(d) by {
                let s = choose|s: int| (#[trigger] v[s].parent) == v[c].parent
                    && c <= s && 1 <= s < v.len() && anc(v, d, s);
                if s == c {
                    assert(flat_item(v, c).contains(d));
                    let k = choose|k: int| 0 <= k < flat_item(v, c).len()
                        && flat_item(v, c)[k] == d;
                    assert(s0[k] == d);
                } else {
                    assert(s >= sib);
                    assert(flat_chain(v, sib).contains(d));
                    let k = choose|k: int| 0 <= k < flat_chain(v, sib).len()
                        && flat_chain(v, sib)[k] == d;
                    assert(s0[k + flat_item(v, c).len()] == d);
                }
            }
        },
    }
}

/// The hierarchy `v` is the packed form of the head records `heads`, item
/// by item, exactly as the hierarchy builder emits it.
pub open spec fn packed_from(heads: Seq<Head>, v: Seq<HierarchyItem>) -> bool {
    &&& wf_heads(heads)
    &&& heads.len() <= usize::MAX
    &&& v.len() == rank(heads, heads.len() as int)
    &&& v[0] == root_item(heads)
    &&& forall|h: int| 1 <= h < heads.len() && !heads[h].is_alias
        ==> v[rank(heads, h)] == item_of_head(heads, h)
}

/// Every hierarchy index below the total count is the rank of a surviving
/// record.
pub proof fn lemma_rank_surjective(heads: Seq<Head>, i: int, c: int)
    requires
        0 <= c < rank(heads, i),
        0 <= i,
    ensures
        exists|h: int| 0 <= h < i && !heads[h].is_alias && rank(heads, h) == c,
    decreases i
{
    if i > 0 {
        if c < rank(heads, i - 1) {
            lemma_rank_surjective(heads, i - 1, c);
            let h = choose|h: int| 0 <= h < i - 1 && !heads[h].is_alias
                && rank(heads, h) == c;
            assert(0 <= h < i && !heads[h].is_alias && rank(heads, h) == c);
        } else {
            lemma_rank_bounds(heads, i - 1);
            assert(!heads[i - 1].is_alias && rank(heads, i - 1) == c);
        }
    }
}

/// The resolved parent of a surviving record is an earlier surviving
/// record.
pub proof fn lemma_parent_head_live(heads: Seq<Head>, h: int)
    requires
        wf_heads(heads),
        1 <= h < heads.len(),
    ensures
        live(heads, parent_head(heads, h)),
        0 <= parent_head(heads, h) < h,
{
    lemma_unalias_live(heads, heads[h].parent as int);
}

/// The head-record child search and the packed item child search agree,
/// position for position.
proof fn lemma_child_search_map(heads: Seq<Head>, v: Seq<HierarchyItem>, p: int, i: int)
    requires
        packed_from(heads, v),
        live(heads, p),
        1 <= i <= heads.len(),
    ensures
        item_child_after(v, rank(heads, p), rank(heads, i))
            == opt_rank(heads, child_after(heads, p, i)),
    decreases heads.len() - i
{
    let q = rank(heads, p);
    let j = rank(heads, i);
    assert(rank(heads, 0) == 0);
    assert(rank(heads, 1) == 1);
    lemma_rank_monotone(heads, 1, i);
    if i == heads.len() {
        assert(child_after(heads, p, i) == None::<int>);
        assert(item_child_after(v, q, j) == None::<usize>);
    } else {
        assert(rank(heads, i + 1) == rank(heads, i)
            + if heads[i].is_alias { 0int } else { 1int });
        if heads[i].is_alias {
            lemma_child_search_map(heads, v, p, i + 1);
        } else {
            lemma_rank_strict(heads, i);
            lemma_parent_head_live(heads, i);
            lemma_rank_injective(heads);
            lemma_rank_bounds(heads, parent_head(heads, i));
            lemma_rank_strict(heads, parent_head(heads, i));
            assert(v[rank(heads, i)] == item_of_head(heads, i));
            assert(v[j] == item_of_head(heads, i));
            assert(v[j].parent == rank(heads, parent_head(heads, i)));
            if parent_head(heads, i) == p {
                assert(v[j].parent == q);
                assert(child_after(heads, p, i) == Some(i));
                assert(item_child_after(v, q, j) == Some(j as usize));
            } else {
                assert(v[j].parent != q);
                lemma_child_search_map(heads, v, p, i + 1);
                assert(item_child_after(v, q, j) == item_child_after(v, q, j + 1));
            }
        }
    }
}

/// The packed hierarchy is well formed: parents precede their children and
/// the child lists mirror the parent links in item order.
pub proof fn lemma_packed_wf(heads: Seq<Head>, v: Seq<HierarchyItem>)
    requires
        packed_from(heads, v),
    ensures
        wf_hierarchy(v),
{
    let n = v.len() as int;
    assert(rank(heads, 0) == 0);
    assert(rank(heads, 1) == 1);
    lemma_rank_monotone(heads, 1, heads.len() as int);
    lemma_rank_bounds(heads, heads.len() as int);
    lemma_rank_injective(heads);

    assert forall|c: int| 1 <= c < n implies (#[trigger] v[c].parent) < c by {
        lemma_rank_surjective(heads, heads.len() as int, c);
        let h = choose|h: int| 0 <= h < heads.len() && !heads[h].is_alias
            && rank(heads, h) == c;
        assert(h >= 1);
        assert(v[rank(heads, h)] == item_of_head(heads, h));
        assert(v[c] == item_of_head(heads, h));
        lemma_parent_head_live(heads, h);
        lemma_rank_bounds(heads, parent_head(heads, h));
        lemma_rank_strict(heads, parent_head(heads, h));
    }
    assert forall|c: int| 0 <= c < n implies (#[trigger] v[c].first_child)
        == item_child_after(v, c, c + 1) by {
        lemma_rank_surjective(heads, heads.len() as int, c);
        let h = choose|h: int| 0 <= h < heads.len() && !heads[h].is_alias
            && rank(heads, h) == c;
        if h == 0 {
            assert(c == 0);
            assert(v[0].first_child == opt_rank(heads, child_after(heads, 0, 1)));
        } else {
            assert(v[rank(heads, h)] == item_of_head(heads, h));
            assert(v[c] == item_of_head(heads, h));
        }
        lemma_child_search_map(heads, v, h, 1);
        assert(item_child_after(v, c, 1) == opt_rank(heads, child_after(heads, h, 1)));
        lemma_item_child_after(v, c, 1);
        lemma_item_child_after(v, c, c + 1);
        assert(item_child_after(v, c, 1) == item_child_after(v, c, c + 1)) by {
            lemma_no_early_children(heads, v, h, c);
        }
    }
    assert forall|c: int| 1 <= c < n implies (#[trigger] v[c].next_sibling)
        == item_child_after(v, v[c].parent as int, c + 1) by {
        lemma_rank_surjective(heads, heads.len() as int, c);
        let h = choose|h: int| 0 <= h < heads.len() && !heads[h].is_alias
            && rank(heads, h) == c;
        assert(h >= 1);
        assert(v[rank(heads, h)] == item_of_head(heads, h));
        assert(v[c] == item_of_head(heads, h));
        lemma_parent_head_live(heads, h);
        lemma_rank_bounds(heads, parent_head(heads, h));
        lemma_rank_strict(heads, parent_head(heads, h));
        lemma_child_search_map(heads, v, parent_head(heads, h), h + 1);
        assert(rank(heads, h + 1) == c + 1);
    }
}

/// No item at or before `c` is a child of `c`: the packed parent of any
/// item is the rank of an earlier surviving record.
proof fn lemma_no_early_children(heads: Seq<Head>, v: Seq<HierarchyItem>, h: int, c: int)
    requires
        packed_from(heads, v),
        live(heads, h),
        rank(heads, h) == c,
    ensures
        forall|s: int| 1 <= s <= c && s < v.len() ==> (#[trigger] v[s].parent) != c,
        item_child_after(v, c, 1) == item_child_after(v, c, c + 1),
{
    lemma_rank_injective(heads);
    lemma_rank_bounds(heads, h);
    lemma_rank_strict(heads, h);
    assert forall|s: int| 1 <= s <= c && s < v.len()
        implies (#[trigger] v[s].parent) != c by {
        lemma_rank_surjective(heads, heads.len() as int, s);
        let hs = choose|hs: int| 0 <= hs < heads.len() && !heads[hs].is_alias
            && rank(heads, hs) == s;
        assert(hs >= 1);
        assert(v[rank(heads, hs)] == item_of_head(heads, hs));
        assert(v[s] == item_of_head(heads, hs));
        lemma_parent_head_live(heads, hs);
        lemma_rank_bounds(heads, parent_head(heads, hs));
        lemma_rank_strict(heads, parent_head(heads, hs));
        if v[s].parent == c {
            assert(rank(heads, parent_head(heads, hs)) == rank(heads, h));
            assert(parent_head(heads, hs) == h);
            assert(h < hs) by {
                lemma_unalias_live(heads, heads[hs].parent as int);
            }
            lemma_rank_strict(heads, h);
            assert(rank(heads, h) < rank(heads, hs));
        }
    }
    lemma_search_skip(v, c, 1);
}

/// When no index in [i, c] is a child of `c`, searching from `i` or from
/// past `c` finds the same child.
proof fn lemma_search_skip(v: Seq<HierarchyItem>, c: int, i: int)
    requires
        1 <= i,
        forall|s: int| 1 <= s <= c && s < v.len() ==> (#[trigger] v[s].parent) != c,
    ensures
        i <= c + 1 ==> item_child_after(v, c, i) == item_child_after(v, c, c + 1),
    decreases c + 1 - i
{
    if i <= c {
        lemma_search_skip(v, c, i + 1);
    }
}

/// Where the climb from item `c` leads: the next sibling of `c`, or of the
/// nearest ancestor strictly below `root` that has one; `None` when the
/// subtree of `root` is exhausted.
pub open spec fn climb(v: Seq<HierarchyItem>, root: int, c: int) -> Option<int>
    decreases c
{
    if c <= root || c < 1 || c >= v.len() {
        None
    } else {
        match v[c].next_sibling {
            Some(s) => Some(s as int),
            None => if v[c].parent < c {
                climb(v, root, v[c].parent as int)
            } else {
                None
            },
        }
    }
}

/// The item the depth-first descent visits after `c`: the first child of
/// `c` when there is one, else the climb.
pub open spec fn preorder_next(v: Seq<HierarchyItem>, root: int, c: int) -> Option<int> {
    if 0 <= c < v.len() {
        match v[c].first_child {
            Some(d) => Some(d as int),
            None => climb(v, root, c),
        }
    } else {
        None
    }
}

/// Both listings start with their own item.
proof fn lemma_flat_first(v: Seq<HierarchyItem>, c: int)
    requires
        wf_hierarchy(v),
        0 <= c < v.len(),
    ensures
        flat_item(v, c).len() >= 1,
        flat_item(v, c)[0] == c,
        1 <= c ==> flat_chain(v, c).len() >= 1,
        1 <= c ==> flat_chain(v, c)[0] == c,
{
}

/// Within the subtree listing of `c`, the descent steps from each item to
/// the next; from the last it exits by the climb from `c`.
proof fn lemma_item_succ(v: Seq<HierarchyItem>, root: int, c: int)
    requires
        wf_hierarchy(v),
        0 <= root < v.len(),
        0 <= c < v.len(),
        anc(v, c, root),
    ensures
        forall|j: int| 0 <= j < flat_item(v, c).len()
            ==> preorder_next(v, root, #[trigger] flat_item(v, c)[j])
                == if j + 1 < flat_item(v, c).len() {
                    Some(flat_item(v, c)[j + 1])
                } else {
                    climb(v, root, c)
                },
    decreases v.len() - c, 0int
{
    lemma_item_child_after(v, c, c + 1);
    lemma_anc_le(v, c, root);
    let f = flat_item(v, c);
    match v[c].first_child {
        None => {
            assert(f =~= seq![c]);
            assert(preorder_next(v, root, c) == climb(v, root, c));
        },
        Some(d0) => {
            let d0 = d0 as int;
            assert(anc(v, d0, root));
            lemma_chain_succ(v, root, d0);
            lemma_flat_first(v, d0);
            let rest = flat_chain(v, d0);
            assert forall|j: int| 0 <= j < f.len()
                implies preorder_next(v, root, #[trigger] f[j])
                    == if j + 1 < f.len() { Some(f[j + 1]) } else { climb(v, root, c) } by {
                if j == 0 {
                    assert(f[0] == c);
                    assert(preorder_next(v, root, c) == Some(d0));
                    assert(f[1] == rest[0]);
                } else {
                    assert(f[j] == rest[j - 1]);
                    if j + 1 < f.len() {
                        assert(f[j + 1] == rest[j]);
                    }
                }
            }
        },
    }
}

/// Within the chain listing of `c`, the descent steps from each item to the
/// next; from the last it exits by the climb from the parent of `c`.
proof fn lemma_chain_succ(v: Seq<HierarchyItem>, root: int, c: int)
    requires
        wf_hierarchy(v),
        0 <= root < v.len(),
        1 <= c < v.len(),
        anc(v, c, root),
        c != root,
    ensures
        forall|j: int| 0 <= j < flat_chain(v, c).len()
            ==> preorder_next(v, root, #[trigger] flat_chain(v, c)[j])
                == if j + 1 < flat_chain(v, c).len() {
                    Some(flat_chain(v, c)[j + 1])
                } else {
                    climb(v, root, v[c].parent as int)
                },
    decreases v.len() - c, 1int
{
    let f = flat_chain(v, c);
    let head = flat_item(v, c);
    let p = v[c].parent as int;
    lemma_item_succ(v, root, c);
    lemma_item_child_after(v, p, c + 1);
    lemma_anc_le(v, c, root);
    lemma_flat_first(v, c);
    match v[c].next_sibling {
        None => {
            assert(f =~= head);
            assert(climb(v, root, c) == climb(v, root, p));
        },
        Some(sib) => {
            let sib = sib as int;
            assert(v[sib].parent == v[c].parent);
            assert(anc(v, p, root));
            assert(root <= p) by {
                lemma_anc_le(v, p, root);
            }
            assert(anc(v, sib, root));
            lemma_chain_succ(v, root, sib);
            lemma_flat_first(v, sib);
            let rest = flat_chain(v, sib);
            assert(climb(v, root, c) == Some(sib));
            assert forall|j: int| 0 <= j < f.len()
                implies preorder_next(v, root, #[trigger] f[j])
                    == if j + 1 < f.len() { Some(f[j + 1]) } else { climb(v, root, p) } by {
                if j < head.len() {
                    assert(f[j] == head[j]);
                    if j + 1 < head.len() {
                        assert(f[j + 1] == head[j + 1]);
                    } else {
                        assert(preorder_next(v, root, f[j]) == climb(v, root, c));
                        assert(f[j + 1] == rest[0]);
                    }
                } else {
                    assert(f[j] == rest[j - head.len()]);
                    if j + 1 < f.len() {
                        assert(f[j + 1] == rest[j + 1 - head.len()]);
                    }
                }
            }
        },
    }
}

/// The descent from `root` visits exactly the listing of the subtree of
/// `root`, in order, and stops after its last item.
pub proof fn lemma_preorder_succ(v: Seq<HierarchyItem>, root: int)
    requires
        wf_hierarchy(v),
        0 <= root < v.len(),
    ensures
        forall|j: int| 0 <= j < flat_item(v, root).len()
            ==> preorder_next(v, root, #[trigger] flat_item(v, root)[j])
                == if j + 1 < flat_item(v, root).len() {
                    Some(flat_item(v, root)[j + 1])
                } else {
                    None::<int>
                },
{
    lemma_item_succ(v, root, root);
    assert(climb(v, root, root) == None::<int>);
}

/// A subtree listing never repeats an item.
pub proof fn lemma_item_nodup(v: Seq<HierarchyItem>, c: int)
    requires
        wf_hierarchy(v),
        0 <= c < v.len(),
    ensures
        flat_item(v, c).no_duplicates(),
    decreases v.len() - c, 0int
{
    lemma_item_child_after(v, c, c + 1);
    let s0 = flat_item(v, c);
    match v[c].first_child {
        None => {
            assert(s0 =~= seq![c]);
        },
        Some(d0) => {
            let d0 = d0 as int;
            lemma_chain_nodup(v, d0);
            lemma_chain_members(v, d0);
            let rest = flat_chain(v, d0);
            assert forall|i: int, j: int| 0 <= i < j < s0.len()
                implies s0[i] != s0[j] by {
                if i == 0 {
                    assert(s0[j] == rest[j - 1]);
                    if s0[j] == c {
                        assert(rest.contains(c));
                        let s = choose|s: int| (#[trigger] v[s].parent) == v[d0].parent
                            && d0 <= s && 1 <= s < v.len() && anc(v, c, s);
                        lemma_anc_le(v, c, s);
                    }
                } else {
                    assert(s0[i] == rest[i - 1]);
                    assert(s0[j] == rest[j - 1]);
                }
            }
        },
    }
}

/// A chain listing never repeats an item.
pub proof fn lemma_chain_nodup(v: Seq<HierarchyItem>, c: int)
    requires
        wf_hierarchy(v),
        1 <= c < v.len(),
    ensures
        flat_chain(v, c).no_duplicates(),
    decreases v.len() - c, 1int
{
    let s0 = flat_chain(v, c);
    let head = flat_item(v, c);
    let p = v[c].parent as int;
    lemma_item_nodup(v, c);
    lemma_item_members(v, c);
    lemma_item_child_after(v, p, c + 1);
    match v[c].next_sibling {
        None => {
            assert(s0 =~= head);
        },
        Some(sib) => {
            let sib = sib as int;
            lemma_chain_nodup(v, sib);
            lemma_chain_members(v, sib);
            let rest = flat_chain(v, sib);
            assert forall|i: int, j: int| 0 <= i < j < s0.len()
                implies s0[i] != s0[j] by {
                if j < head.len() {
                    assert(s0[i] == head[i]);
                    assert(s0[j] == head[j]);
                } else if i >= head.len() {
                    assert(s0[i] == rest[i - head.len()]);
                    assert(s0[j] == rest[j - head.len()]);
                } else {
                    let d = s0[i];
                    assert(s0[i] == head[i]);
                    assert(s0[j] == rest[j - head.len()]);
                    if s0[i] == s0[j] {
                        assert(head.contains(d));
                        assert(rest.contains(d));
                        assert(anc(v, d, c));
                        let s = choose|s: int| (#[trigger] v[s].parent) == v[sib].parent
                            && sib <= s && 1 <= s < v.len() && anc(v, d, s);
                        lemma_anc_disjoint(v, d, c, s);
                    }
                }
            }
        },
    }
}

/// The hierarchy is a tree: the depth-first descent from the root by
/// `first_child` and `next_sibling` reaches every item exactly once.
pub proof fn lemma_hierarchy_is_tree(v: Seq<HierarchyItem>)
    requires
        wf_hierarchy(v),
    ensures
        flat_item(v, 0).no_duplicates(),
        forall|d: int| flat_item(v, 0).contains(d) <==> 0 <= d < v.len(),
        flat_item(v, 0).len() == v.len(),
{
    lemma_item_nodup(v, 0);
    lemma_item_members(v, 0);
    assert forall|d: int| 0 <= d < v.len() implies flat_item(v, 0).contains(d) by {
        lemma_anc_root(v, d);
    }
    assert forall|d: int| flat_item(v, 0).contains(d) implies 0 <= d < v.len() by {
        assert(anc(v, d, 0));
    }
    lemma_flat_len(v);
}

/// A duplicate-free listing of exactly the items 0 to len - 1 has length
/// len.
proof fn lemma_flat_len(v: Seq<HierarchyItem>)
    requires
        wf_hierarchy(v),
        flat_item(v, 0).no_duplicates(),
        forall|d: int| flat_item(v, 0).contains(d) <==> 0 <= d < v.len(),
    ensures
        flat_item(v, 0).len() == v.len(),
{
    broadcast use vstd::seq_lib::group_seq_properties;

    let s = flat_item(v, 0);
    let all = Seq::<int>::new(v.len(), |i: int| i);
    assert(all.no_duplicates());
    s.unique_seq_to_set();
    all.unique_seq_to_set();
    assert(s.to_set() =~= all.to_set()) by {
        assert forall|d: int| all.to_set().contains(d) implies s.to_set().contains(d) by {
            assert(all.contains(d));
            let k = choose|k: int| 0 <= k < all.len() && all[k] == d;
            assert(s.contains(d));
        }
        assert forall|d: int| s.to_set().contains(d) implies all.to_set().contains(d) by {
            assert(s.contains(d));
            assert(all[d] == d);
            assert(all.contains(d));
        }
    }
}

/// A contour at odd nesting level below the synthetic root is outer; its
/// immediate interior is foreground.  Holes lie at even levels.
pub open spec fn outer_at(v: Seq<HierarchyItem>, c: int) -> bool {
    depth(v, c) % 2 == 1
}

/// Hierarchy and point list views a contour handle may rely on: the
/// hierarchy is well formed, every non-root item's head point exists, and
/// every point link is either `NONE` or in bounds.
pub open spec fn wf_view(v: Seq<HierarchyItem>, pl: Seq<PointListItem>) -> bool {
    &&& wf_hierarchy(v)
    &&& pl.len() <= usize::MAX
    &&& forall|c: int| 1 <= c < v.len() ==> (#[trigger] v[c].head_point_index) < pl.len()
    &&& forall|k: int| 0 <= k < pl.len()
        ==> (#[trigger] pl[k].next) == NONE || pl[k].next < pl.len()
}

/// A child sits one level below its parent.
pub proof fn lemma_depth_child(v: Seq<HierarchyItem>, d: int)
    requires
        wf_hierarchy(v),
        1 <= d < v.len(),
    ensures
        depth(v, d) == depth(v, v[d].parent as int) + 1,
{
}

/// Represents a contour in a contour collection.
///
/// Provides methods for iterating over the points
/// and navigating through the contour hierarchy.
#[derive(Debug, Clone, Copy)]
pub struct Contour<'a> {
    hierarchy: &'a [HierarchyItem],
    point_list: &'a [PointListItem],
    is_outer: bool,
    index: usize,
}

impl<'a> Contour<'a> {
    pub closed spec fn spec_hierarchy(&self) -> Seq<HierarchyItem> {
        self.hierarchy@
    }

    pub closed spec fn spec_points(&self) -> Seq<PointListItem> {
        self.point_list@
    }

    pub closed spec fn idx(&self) -> int {
        self.index as int
    }

    pub closed spec fn spec_is_outer(&self) -> bool {
        self.is_outer
    }

    /// A valid handle: views well formed, the index a real (non-root) item,
    /// the polarity that of the item's nesting level.
    pub open spec fn wf(&self) -> bool {
        &&& wf_view(self.spec_hierarchy(), self.spec_points())
        &&& 1 <= self.idx() < self.spec_hierarchy().len()
        &&& self.spec_is_outer() == outer_at(self.spec_hierarchy(), self.idx())
    }

    /// Returns `true` for outer contours
    /// and `false` for inner contours (holes).
    pub fn is_outer(&self) -> (r: bool)
        ensures
            r == self.spec_is_outer(),
    {
        self.is_outer
    }

    /// Iterates the contour's child contours.
    ///
    /// All children of an outer contour are inner contours and vice versa.
    pub fn children(&self) -> (r: ChildContourIter<'a>)
        requires
            self.wf(),
        ensures
            r.wf(),
            r.polarity_ok(),
            r.parent() == self.idx(),
            r.remaining_child() == self.spec_hierarchy()[self.idx()].first_child,
            r.hview() == self.spec_hierarchy(),
            r.pview() == self.spec_points(),
    {
        ChildContourIter::new(self.hierarchy, self.point_list, self.index, self.is_outer)
    }

    /// Iterates all the contour's descendant contours
    /// i.e. children, grandchildren, etc, depth-first.
    pub fn all_descendants(&self) -> (r: DescendantContourIter<'a>)
        requires
            self.wf(),
        ensures
            r.wf(),
            r.root() == self.idx(),
            r.pos() == 1,
            r.hview() == self.spec_hierarchy(),
            r.pview() == self.spec_points(),
    {
        DescendantContourIter::new(self.hierarchy, self.point_list, self.index, self.is_outer)
    }

    /// Returns the contour's parent contour
    /// or `None` for outermost contours.
    pub fn parent(&self) -> (r: Option<Contour<'a>>)
        requires
            self.wf(),
        ensures
            match r {
                Some(p) => {
                    &&& self.spec_hierarchy()[self.idx()].parent != 0
                    &&& p.wf()
                    &&& p.idx() == self.spec_hierarchy()[self.idx()].parent
                    &&& p.spec_is_outer() == !self.spec_is_outer()
                    &&& p.spec_hierarchy() == self.spec_hierarchy()
                    &&& p.spec_points() == self.spec_points()
                },
                None => self.spec_hierarchy()[self.idx()].parent == 0,
            },
    {
        let parent_index = self.hierarchy[self.index].parent;
        if parent_index == 0 {
            None
        } else {
            proof {
                lemma_depth_child(self.hierarchy@, self.index as int);
            }
            Some(Contour {
                hierarchy: self.hierarchy,
                point_list: self.point_list,
                is_outer: !self.is_outer,
                index: parent_index,
            })
        }
    }

    /// Walks the even vertices of the contour ring, the head vertex first.
    pub fn even_vertices(&self) -> (r: EvenVertexIter<'a>)
        requires
            self.wf(),
        ensures
            r.wf(),
            r.points() == self.spec_points(),
            r.start() == self.spec_hierarchy()[self.idx()].head_point_index,
            r.at_start(),
    {
        let start_index = self.hierarchy[self.index].head_point_index;
        EvenVertexIter {
            point_list: self.point_list,
            start_index,
            current_index: Some(start_index),
        }
    }
}

/// Walks a contour ring along the `next` links, starting at the ring's
/// head point.  On a finished collection the walk returns to its start and
/// stops; a `NONE` or out-of-range link also ends it.
pub struct EvenVertexIter<'a> {
    point_list: &'a [PointListItem],
    start_index: usize,
    current_index: Option<usize>,
}

impl<'a> EvenVertexIter<'a> {
    pub closed spec fn points(&self) -> Seq<PointListItem> {
        self.point_list@
    }

    pub closed spec fn start(&self) -> int {
        self.start_index as int
    }

    pub closed spec fn current(&self) -> Option<usize> {
        self.current_index
    }

    pub open spec fn at_start(&self) -> bool {
        self.current() == Some(self.start() as usize)
    }

    pub open spec fn wf(&self) -> bool {
        &&& 0 <= self.start() < self.points().len()
        &&& match self.current() {
            Some(i) => i < self.points().len(),
            None => true,
        }
    }

    /// Returns the coordinates of the current point and steps to its ring
    /// successor, stopping when the walk has come back to the start.
    pub fn next(&mut self) -> (r: Option<(i32, i32)>)
        requires
            old(self).wf(),
        ensures
            final(self).wf(),
            final(self).points() == old(self).points(),
            final(self).start() == old(self).start(),
            match old(self).current() {
                Some(i) => {
                    let point = old(self).points()[i as int];
                    &&& r == Some((point.x, point.y))
                    &&& final(self).current()
                        == if point.next != old(self).start() as usize
                            && point.next != NONE
                            && point.next < old(self).points().len() {
                            Some(point.next)
                        } else {
                            None::<usize>
                        }
                },
                None => r == None::<(i32, i32)> && final(self).current() == None::<usize>,
            },
    {
        match self.current_index {
            Some(index) => {
                let point = &self.point_list[index];
                let next = point.next;
                self.current_index = if next != self.start_index && next != NONE
                    && next < self.point_list.len() {
                    Some(next)
                } else {
                    None
                };
                Some((point.x, point.y))
            },
            None => None,
        }
    }
}

/// Iterates the children of one hierarchy item along the sibling chain.
pub struct ChildContourIter<'a> {
    hierarchy: &'a [HierarchyItem],
    point_list: &'a [PointListItem],
    is_outer: bool,
    current_index: Option<usize>,
    parent_index: Ghost<int>,
}

impl<'a> ChildContourIter<'a> {
    pub closed spec fn parent(&self) -> int {
        self.parent_index@
    }

    pub closed spec fn remaining_child(&self) -> Option<usize> {
        self.current_index
    }

    pub closed spec fn hview(&self) -> Seq<HierarchyItem> {
        self.hierarchy@
    }

    pub closed spec fn pview(&self) -> Seq<PointListItem> {
        self.point_list@
    }

    pub open spec fn wf(&self) -> bool {
        &&& wf_view(self.hview(), self.pview())
        &&& 0 <= self.parent() < self.hview().len()
        &&& match self.remaining_child() {
            Some(c) => 1 <= c < self.hview().len()
                && self.hview()[c as int].parent == self.parent(),
            None => true,
        }
    }

    /// Starts on the first child of `parent_index`.  The flag must carry
    /// the parent's polarity.
    pub fn new(hierarchy: &'a [HierarchyItem], point_list: &'a [PointListItem],
        parent_index: usize, is_parent_outer: bool) -> (r: Self)
        requires
            wf_view(hierarchy@, point_list@),
            parent_index < hierarchy@.len(),
            is_parent_outer == outer_at(hierarchy@, parent_index as int),
        ensures
            r.wf(),
            r.polarity_ok(),
            r.parent() == parent_index as int,
            r.remaining_child() == hierarchy@[parent_index as int].first_child,
            r.hview() == hierarchy@,
            r.pview() == point_list@,
    {
        let is_outer = !is_parent_outer;
        let current_index = hierarchy[parent_index].first_child;
        proof {
            lemma_item_child_after(hierarchy@, parent_index as int, parent_index + 1);
        }
        Self {
            hierarchy,
            point_list,
            is_outer,
            current_index,
            parent_index: Ghost(parent_index as int),
        }
    }

    /// Whether the polarity flag matches the children's nesting level, as
    /// it always does for iterators made from valid contour handles.
    pub closed spec fn polarity_ok(&self) -> bool {
        self.is_outer == !outer_at(self.hierarchy@, self.parent_index@)
    }

    /// Returns a handle on the current child and steps to the next sibling.
    pub fn next(&mut self) -> (r: Option<Contour<'a>>)
        requires
            old(self).wf(),
            old(self).polarity_ok(),
        ensures
            final(self).wf(),
            final(self).polarity_ok(),
            final(self).parent() == old(self).parent(),
            final(self).hview() == old(self).hview(),
            final(self).pview() == old(self).pview(),
            match old(self).remaining_child() {
                Some(c) => match r {
                    Some(contour) => {
                        &&& contour.idx() == c as int
                        &&& contour.wf()
                        &&& contour.spec_hierarchy() == old(self).hview()
                        &&& contour.spec_points() == old(self).pview()
                        &&& contour.spec_is_outer()
                            == outer_at(old(self).hview(), c as int)
                        &&& final(self).remaining_child()
                            == old(self).hview()[c as int].next_sibling
                    },
                    None => false,
                },
                None => r is None && final(self).remaining_child() == None::<usize>,
            },
    {
        match self.current_index {
            Some(index) => {
                let ghost v = self.hierarchy@;
                let current = &self.hierarchy[index];
                self.current_index = current.next_sibling;
                proof {
                    lemma_item_child_after(v, v[index as int].parent as int, index + 1);
                    lemma_depth_child(v, index as int);
                    if let Some(s) = v[index as int].next_sibling {
                        lemma_depth_child(v, s as int);
                    }
                }
                Some(Contour {
                    hierarchy: self.hierarchy,
                    point_list: self.point_list,
                    is_outer: self.is_outer,
                    index,
                })
            },
            None => None,
        }
    }
}

/// Iterates a whole subtree depth-first, in preorder, the subtree's root
/// itself excluded.
pub struct DescendantContourIter<'a> {
    hierarchy: &'a [HierarchyItem],
    point_list: &'a [PointListItem],
    root_index: usize,
    is_outer: bool,
    current_index: Option<usize>,
    pos: Ghost<int>,
}

impl<'a> DescendantContourIter<'a> {
    pub closed spec fn root(&self) -> int {
        self.root_index as int
    }

    /// The preorder listing this iterator walks, the root item first; the
    /// iterator yields it from position 1 on.
    pub closed spec fn listing(&self) -> Seq<int> {
        flat_item(self.hierarchy@, self.root_index as int)
    }

    /// The position within the listing of the next item to yield.
    pub closed spec fn pos(&self) -> int {
        self.pos@
    }

    pub closed spec fn hview(&self) -> Seq<HierarchyItem> {
        self.hierarchy@
    }

    pub closed spec fn pview(&self) -> Seq<PointListItem> {
        self.point_list@
    }

    pub closed spec fn wf(&self) -> bool {
        &&& wf_view(self.hierarchy@, self.point_list@)
        &&& 0 <= self.root() < self.hierarchy@.len()
        &&& 1 <= self.pos@ <= self.listing().len()
        &&& self.current_index == if self.pos@ < self.listing().len() {
            Some(self.listing()[self.pos@] as usize)
        } else {
            None::<usize>
        }
        &&& match self.current_index {
            Some(c) => 1 <= c < self.hierarchy@.len()
                && self.is_outer == outer_at(self.hierarchy@, c as int)
                && anc(self.hierarchy@, c as int, self.root()),
            None => true,
        }
    }

    /// Starts on the first child of `root_index`.  The flag must carry the
    /// root item's polarity.
    pub fn new(hierarchy: &'a [HierarchyItem], point_list: &'a [PointListItem],
        root_index: usize, is_root_outer: bool) -> (r: Self)
        requires
            wf_view(hierarchy@, point_list@),
            root_index < hierarchy@.len(),
            is_root_outer == outer_at(hierarchy@, root_index as int),
        ensures
            r.wf(),
            r.root() == root_index as int,
            r.pos() == 1,
            r.hview() == hierarchy@,
            r.pview() == point_list@,
    {
        let ghost v = hierarchy@;
        let ghost rt = root_index as int;
        let is_outer = !is_root_outer;
        let current_index = hierarchy[root_index].first_child;
        proof {
            lemma_item_child_after(v, rt, rt + 1);
            let f = flat_item(v, rt);
            match v[rt].first_child {
                Some(d) => {
                    lemma_flat_first(v, d as int);
                    assert(f[1] == flat_chain(v, d as int)[0]);
                    lemma_depth_child(v, d as int);
                    assert(anc(v, rt, rt));
                    assert(anc(v, d as int, rt));
                },
                None => {
                    assert(f =~= seq![rt]);
                },
            }
        }
        Self {
            hierarchy,
            point_list,
            root_index,
            is_outer,
            current_index,
            pos: Ghost(1),
        }
    }

    /// Returns a handle on the current item and advances the depth-first
    /// walk: down to the first child when there is one, otherwise across or
    /// up to the next unvisited sibling.
    pub fn next(&mut self) -> (r: Option<Contour<'a>>)
        requires
            old(self).wf(),
        ensures
            final(self).wf(),
            final(self).root() == old(self).root(),
            final(self).listing() == old(self).listing(),
            final(self).hview() == old(self).hview(),
            final(self).pview() == old(self).pview(),
            match r {
                Some(contour) => {
                    &&& old(self).pos() < old(self).listing().len()
                    &&& final(self).pos() == old(self).pos() + 1
                    &&& contour.idx() == old(self).listing()[old(self).pos()]
                    &&& contour.wf()
                    &&& contour.spec_hierarchy() == old(self).hview()
                    &&& contour.spec_points() == old(self).pview()
                    &&& contour.spec_is_outer()
                        == outer_at(old(self).hview(), contour.idx())
                },
                None => {
                    &&& old(self).pos() == old(self).listing().len()
                    &&& final(self).pos() == old(self).pos()
                },
            },
    {
        let ghost v = self.hierarchy@;
        let ghost rt = self.root_index as int;
        let ghost f = self.listing();
        match self.current_index {
            Some(index) => {
                let yielded_outer = self.is_outer;
                proof {
                    lemma_walk_facts(v, rt, self.pos@);
                    assert(f[self.pos@] == index as int);
                }
                let current = &self.hierarchy[index];
                let next_state: (Option<usize>, bool);
                if let Some(child) = current.first_child {
                    proof {
                        lemma_item_child_after(v, index as int, index + 1);
                        lemma_depth_child(v, child as int);
                    }
                    next_state = (Some(child), !self.is_outer);
                } else {
                    proof {
                        lemma_anc_le(v, index as int, rt);
                    }
                    next_state = climb_walk(self.hierarchy, self.root_index, index,
                        self.is_outer);
                }
                if let Some(c1) = next_state.0 {
                    self.current_index = Some(c1);
                    self.is_outer = next_state.1;
                } else {
                    self.current_index = None;
                }
                self.pos = Ghost(self.pos@ + 1);
                Some(Contour {
                    hierarchy: self.hierarchy,
                    point_list: self.point_list,
                    is_outer: yielded_outer,
                    index,
                })
            },
            None => None,
        }
    }
}

/// Facts about the item at position `pos` of the listing of `root`: it is a
/// real non-root item inside the subtree, and the depth-first step from it
/// lands on the next listing position.
proof fn lemma_walk_facts(v: Seq<HierarchyItem>, rt: int, pos: int)
    requires
        wf_hierarchy(v),
        0 <= rt < v.len(),
        1 <= pos < flat_item(v, rt).len(),
    ensures
        1 <= flat_item(v, rt)[pos] < v.len(),
        flat_item(v, rt)[pos] != rt,
        anc(v, flat_item(v, rt)[pos], rt),
        preorder_next(v, rt, flat_item(v, rt)[pos])
            == if pos + 1 < flat_item(v, rt).len() {
                Some(flat_item(v, rt)[pos + 1])
            } else {
                None::<int>
            },
        pos + 1 < flat_item(v, rt).len()
            ==> 1 <= flat_item(v, rt)[pos + 1] < v.len()
                && flat_item(v, rt)[pos + 1] != rt
                && anc(v, flat_item(v, rt)[pos + 1], rt),
{
    let f = flat_item(v, rt);
    lemma_preorder_succ(v, rt);
    lemma_item_nodup(v, rt);
    lemma_item_members(v, rt);
    lemma_flat_first(v, rt);
    assert(f.contains(f[pos]));
    assert(anc(v, f[pos], rt));
    lemma_anc_le(v, f[pos], rt);
    assert(f[pos] != rt) by {
        if f[pos] == rt {
            assert(f[0] == rt);
        }
    }
    if pos + 1 < f.len() {
        assert(f.contains(f[pos + 1]));
        assert(anc(v, f[pos + 1], rt));
        lemma_anc_le(v, f[pos + 1], rt);
        assert(f[pos + 1] != rt) by {
            if f[pos + 1] == rt {
                assert(f[0] == rt);
            }
        }
    }
}

/// Climbs from an item with no child: across to its next sibling, or up
/// and across from the nearest ancestor below the subtree root that still
/// has an unvisited sibling.  Returns the item found, if any, and its
/// polarity.
fn climb_walk(hierarchy: &[HierarchyItem], root_index: usize, start: usize, start_outer: bool)
    -> (r: (Option<usize>, bool))
    requires
        wf_hierarchy(hierarchy@),
        root_index < hierarchy@.len(),
        1 <= start < hierarchy@.len(),
        (root_index as int) < start as int,
        anc(hierarchy@, start as int, root_index as int),
        start_outer == outer_at(hierarchy@, start as int),
    ensures
        match climb(hierarchy@, root_index as int, start as int) {
            Some(s) => r.0 == Some(s as usize) && r.1 == outer_at(hierarchy@, s)
                && 1 <= s < hierarchy@.len(),
            None => r.0 == None::<usize>,
        },
{
    let ghost v = hierarchy@;
    let ghost rt = root_index as int;
    let mut walk = start;
    let mut walk_outer = start_outer;
    let mut found: Option<usize> = None;
    loop
        invariant_except_break
            found == None::<usize>,
        invariant
            wf_hierarchy(v),
            hierarchy@ == v,
            root_index as int == rt,
            0 <= rt < v.len(),
            1 <= walk < v.len(),
            rt < walk as int,
            anc(v, walk as int, rt),
            walk_outer == outer_at(v, walk as int),
            climb(v, rt, walk as int) == climb(v, rt, start as int),
        ensures
            match climb(v, rt, start as int) {
                Some(s) => found == Some(s as usize)
                    && walk_outer == outer_at(v, s)
                    && 1 <= s < v.len(),
                None => found == None::<usize>,
            },
        decreases walk,
    {
        proof {
            lemma_item_child_after(v, v[walk as int].parent as int, walk + 1);
        }
        let w = &hierarchy[walk];
        if let Some(sibling) = w.next_sibling {
            proof {
                lemma_depth_child(v, sibling as int);
                lemma_depth_child(v, walk as int);
            }
            found = Some(sibling);
            break;
        } else if w.parent != root_index {
            proof {
                lemma_depth_child(v, walk as int);
                assert(anc(v, v[walk as int].parent as int, rt)) by {
                    assert(anc(v, walk as int, rt));
                    assert(walk as int != rt);
                }
                lemma_anc_le(v, v[walk as int].parent as int, rt);
            }
            walk = w.parent;
            walk_outer = !walk_outer;
        } else {
            proof {
                assert(climb(v, rt, walk as int)
                    == climb(v, rt, v[walk as int].parent as int));
            }
            break;
        }
    }
    (found, walk_outer)
}

/// Iterates all outer contours of a subtree, depth-first: the holes are
/// passed over, their outer descendants are not.
pub struct OuterContourIter<'a> {
    inner: DescendantContourIter<'a>,
}

impl<'a> OuterContourIter<'a> {
    pub closed spec fn listing(&self) -> Seq<int> {
        self.inner.listing()
    }

    pub closed spec fn pos(&self) -> int {
        self.inner.pos()
    }

    pub closed spec fn hview(&self) -> Seq<HierarchyItem> {
        self.inner.hview()
    }

    pub closed spec fn pview(&self) -> Seq<PointListItem> {
        self.inner.pview()
    }

    pub closed spec fn wf(&self) -> bool {
        self.inner.wf()
    }

    /// Wraps a depth-first walk; only its outer contours will be yielded.
    pub fn new(inner: DescendantContourIter<'a>) -> (r: Self)
        ensures
            r.wf() == inner.wf(),
            r.listing() == inner.listing(),
            r.pos() == inner.pos(),
            r.hview() == inner.hview(),
            r.pview() == inner.pview(),
    {
        Self { inner }
    }

    /// Returns the next outer contour of the walk, passing over the items
    /// at even nesting levels.
    #[verifier::loop_isolation(false)]
    pub fn next(&mut self) -> (r: Option<Contour<'a>>)
        requires
            old(self).wf(),
        ensures
            final(self).wf(),
            final(self).listing() == old(self).listing(),
            final(self).hview() == old(self).hview(),
            final(self).pview() == old(self).pview(),
            old(self).pos() <= final(self).pos(),
            match r {
                Some(contour) => {
                    &&& final(self).pos() <= old(self).listing().len()
                    &&& old(self).pos() < final(self).pos()
                    &&& contour.idx() == old(self).listing()[final(self).pos() - 1]
                    &&& contour.wf()
                    &&& contour.spec_hierarchy() == old(self).hview()
                    &&& contour.spec_points() == old(self).pview()
                    &&& contour.spec_is_outer()
                    &&& forall|k: int| old(self).pos() <= k < final(self).pos() - 1
                        ==> !outer_at(old(self).hview(), #[trigger] old(self).listing()[k])
                },
                None => {
                    &&& final(self).pos() == old(self).listing().len()
                    &&& forall|k: int| old(self).pos() <= k < old(self).listing().len()
                        ==> !outer_at(old(self).hview(), #[trigger] old(self).listing()[k])
                },
            },
    {
        let ghost f = self.listing();
        let ghost pos0 = self.pos();
        let ghost v0 = self.hview();
        let ghost pl0 = self.pview();
        loop
            invariant
                self.inner.wf(),
                self.inner.listing() == f,
                self.inner.hview() == v0,
                self.inner.pview() == pl0,
                pos0 <= self.inner.pos() <= f.len(),
                forall|k: int| pos0 <= k < self.inner.pos()
                    ==> !outer_at(v0, #[trigger] f[k]),
            decreases f.len() - self.inner.pos(),
        {
            match self.inner.next() {
                Some(contour) => {
                    if contour.is_outer() {
                        return Some(contour);
                    }
                },
                None => {
                    return None;
                },
            }
        }
    }
}

/// Polarity by depth: a valid contour handle is outer exactly when its
/// nesting level below the synthetic root is odd — equivalently, when the
/// number of contours strictly enclosing it is even.
pub proof fn lemma_polarity_by_depth(c: Contour)
    requires
        c.wf(),
    ensures
        c.spec_is_outer() <==> depth(c.spec_hierarchy(), c.idx()) % 2 == 1,
{
}

} // verus!
