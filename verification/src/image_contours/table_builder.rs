//! The flat contour table and its builder.
//!
//! One table holds every contour point together with its ring link and its
//! structural relation.  During the scan a head point's relation names its
//! parent contour; heads absorbed into an earlier contour become aliases.
//! When the scan is done the parent links are turned into child and sibling
//! links in place.

use vstd::prelude::*;
use super::types::Relation;

verus! {

/// One row of the contour table.  The root item at index 0 carries the
/// image dimensions instead of coordinates.
#[derive(Debug, Clone, Copy, PartialEq, Eq, Structural)]
pub struct TableItem {
    pub x: u32,
    pub y: u32,
    pub next: usize,
    pub relation: Relation,
}

/// A well-formed table: non-empty, every ring link in bounds, every alias
/// pointing strictly down, every other relation target in bounds.
pub open spec fn wf_table(t: Seq<TableItem>) -> bool {
    &&& 1 <= t.len()
    &&& forall|i: int| 0 <= i < t.len() ==> (#[trigger] t[i].next) < t.len()
    &&& forall|i: int| 0 <= i < t.len() ==> match (#[trigger] t[i].relation) {
        Relation::Nothing => true,
        Relation::Alias(j) => j < i,
        Relation::Parent(p) => p < t.len(),
        Relation::Child(c) => c < t.len(),
        Relation::Sibling(s) => s < t.len(),
    }
}

/// Follows alias links down to the surviving head.
pub open spec fn t_unalias(t: Seq<TableItem>, id: int) -> int
    decreases id
{
    if 0 <= id < t.len() {
        match t[id].relation {
            Relation::Alias(j) => if j < id {
                t_unalias(t, j as int)
            } else {
                id
            },
            _ => id,
        }
    } else {
        id
    }
}

/// Resolving an alias stays in bounds and lands on a non-alias item.
pub proof fn lemma_t_unalias(t: Seq<TableItem>, id: int)
    requires
        wf_table(t),
        0 <= id < t.len(),
    ensures
        0 <= t_unalias(t, id) <= id,
        !(t[t_unalias(t, id)].relation is Alias),
    decreases id
{
    if t[id].relation is Alias {
        lemma_t_unalias(t, t[id].relation->Alias_0 as int);
    }
}

/// What crossing the boundary tagged `head` does to the identifier of the
/// contour enclosing the scan position: entering the resolved contour, or,
/// when the scan was already inside it, stepping out to its parent.
pub open spec fn cross_spec(t: Seq<TableItem>, current: int, head: int) -> int {
    let index = t_unalias(t, head);
    if current == index {
        match t[current].relation {
            Relation::Parent(p) => t_unalias(t, p as int),
            _ => current,
        }
    } else {
        index
    }
}

/// The table after combining the contours of two head tags: the larger of
/// the two surviving heads becomes an alias of the smaller.
pub open spec fn combine_spec(t: Seq<TableItem>, from_head: int, to_head: int)
    -> Seq<TableItem> {
    let f = t_unalias(t, from_head);
    let g = t_unalias(t, to_head);
    if f != g {
        let from = if f < g { g } else { f };
        let to = if f < g { f } else { g };
        t.update(from, TableItem {
            x: t[from].x,
            y: t[from].y,
            next: t[from].next,
            relation: Relation::Alias(to as usize),
        })
    } else {
        t
    }
}

/// The enclosing-contour identifier after combining: unchanged unless it
/// was the head that became an alias.
pub open spec fn combine_current_spec(t: Seq<TableItem>, current: int, from_head: int,
    to_head: int) -> int {
    let f = t_unalias(t, from_head);
    let g = t_unalias(t, to_head);
    if f != g {
        let from = if f < g { g } else { f };
        let to = if f < g { f } else { g };
        if current == from {
            to
        } else {
            current
        }
    } else {
        current
    }
}

/// The crossing target is always an existing item.
pub proof fn lemma_cross_bound(t: Seq<TableItem>, current: int, head: int)
    requires
        wf_table(t),
        0 <= current < t.len(),
        0 <= head < t.len(),
    ensures
        0 <= cross_spec(t, current, head) < t.len(),
{
    lemma_t_unalias(t, head);
    if current == t_unalias(t, head) {
        match t[current].relation {
            Relation::Parent(p) => {
                lemma_t_unalias(t, p as int);
            },
            _ => {},
        }
    }
}

/// Combining keeps the table well formed and its length, and the surviving
/// identifier in bounds.
pub proof fn lemma_combine_spec_wf(t: Seq<TableItem>, from_head: int, to_head: int)
    requires
        wf_table(t),
        0 <= from_head < t.len(),
        0 <= to_head < t.len(),
    ensures
        wf_table(combine_spec(t, from_head, to_head)),
        combine_spec(t, from_head, to_head).len() == t.len(),
        forall|c: int| 0 <= c < t.len()
            ==> 0 <= #[trigger] combine_current_spec(t, c, from_head, to_head) < t.len(),
{
    lemma_t_unalias(t, from_head);
    lemma_t_unalias(t, to_head);
}

/// One step of the final pass: where the point at `index` is a head still
/// carrying a parent link, it is pushed onto the front of its resolved
/// parent's child list, the sibling link living on the head's ring
/// successor.
pub open spec fn parents_to_children_step(t: Seq<TableItem>, index: int) -> Seq<TableItem> {
    match t[index].relation {
        Relation::Parent(p) => {
            let parent = t_unalias(t, p as int);
            let linked = match t[parent].relation {
                Relation::Child(child) => {
                    let next = t[index].next as int;
                    t.update(next, TableItem {
                        x: t[next].x,
                        y: t[next].y,
                        next: t[next].next,
                        relation: Relation::Sibling(child),
                    })
                },
                _ => t,
            };
            linked.update(parent, TableItem {
                x: linked[parent].x,
                y: linked[parent].y,
                next: linked[parent].next,
                relation: Relation::Child(index as usize),
            })
        },
        _ => t,
    }
}

/// The final pass over indices `i` and up.
pub open spec fn parents_to_children_from(t: Seq<TableItem>, i: int) -> Seq<TableItem>
    decreases t.len() - i
        when wf_table(t)
        via p2c_from_dec
{
    if 1 <= i < t.len() {
        parents_to_children_from(parents_to_children_step(t, i), i + 1)
    } else {
        t
    }
}

#[via_fn]
proof fn p2c_from_dec(t: Seq<TableItem>, i: int) {
    if 1 <= i < t.len() {
        lemma_p2c_step_wf(t, i);
    }
}

/// One step of the final pass keeps the table well formed and its length.
pub proof fn lemma_p2c_step_wf(t: Seq<TableItem>, index: int)
    requires
        wf_table(t),
        1 <= index < t.len(),
    ensures
        wf_table(parents_to_children_step(t, index)),
        parents_to_children_step(t, index).len() == t.len(),
{
    match t[index].relation {
        Relation::Parent(p) => {
            lemma_t_unalias(t, p as int);
        },
        _ => {},
    }
}

/// Builds the contour table while the image is scanned.
pub struct TableBuilder {
    table: Vec<TableItem>,
    current_contour: usize,
}

impl TableBuilder {
    /// The table so far, for contracts.
    pub closed spec fn spec_table(&self) -> Seq<TableItem> {
        self.table@
    }

    /// The identifier of the contour enclosing the scan position.
    pub closed spec fn spec_current(&self) -> int {
        self.current_contour as int
    }

    pub open spec fn inv(&self) -> bool {
        &&& wf_table(self.spec_table())
        &&& 0 <= self.spec_current() < self.spec_table().len()
    }

    /// A builder holding only the root item, which carries the image
    /// dimensions.
    pub fn new(width: u32, height: u32) -> (r: Self)
        ensures
            r.inv(),
            r.spec_table() == seq![TableItem {
                x: width,
                y: height,
                next: 0,
                relation: Relation::Nothing,
            }],
            r.spec_current() == 0,
    {
        let root = TableItem { x: width, y: height, next: 0, relation: Relation::Nothing };
        let mut table = Vec::new();
        table.push(root);
        proof {
            assert(table@ =~= seq![root]);
        }
        Self { table, current_contour: 0 }
    }

    /// Adds a head point: a new contour whose parent is the enclosing one.
    pub fn add_with_contour(&mut self, x: u32, y: u32) -> (index: usize)
        requires
            old(self).inv(),
        ensures
            final(self).inv(),
            index == old(self).spec_table().len(),
            final(self).spec_table() == old(self).spec_table().push(TableItem {
                x,
                y,
                next: 0,
                relation: Relation::Parent(old(self).spec_current() as usize),
            }),
            final(self).spec_current() == old(self).spec_current(),
    {
        let index = self.table.len();
        self.table.push(TableItem {
            x,
            y,
            next: 0,
            relation: Relation::Parent(self.current_contour),
        });
        index
    }

    /// Adds a point connected to an existing next point.
    pub fn add_with_next(&mut self, x: u32, y: u32, next: usize) -> (index: usize)
        requires
            old(self).inv(),
            next < old(self).spec_table().len(),
        ensures
            final(self).inv(),
            index == old(self).spec_table().len(),
            final(self).spec_table() == old(self).spec_table().push(TableItem {
                x,
                y,
                next,
                relation: Relation::Nothing,
            }),
            final(self).spec_current() == old(self).spec_current(),
    {
        let index = self.table.len();
        self.table.push(TableItem { x, y, next, relation: Relation::Nothing });
        index
    }

    /// Adds a point connected to an existing previous point.
    pub fn add_with_previous(&mut self, x: u32, y: u32, previous: usize) -> (index: usize)
        requires
            old(self).inv(),
            previous < old(self).spec_table().len(),
        ensures
            final(self).inv(),
            index == old(self).spec_table().len(),
            final(self).spec_table() == old(self).spec_table()
                .push(TableItem { x, y, next: 0, relation: Relation::Nothing })
                .update(previous as int, TableItem {
                    x: old(self).spec_table()[previous as int].x,
                    y: old(self).spec_table()[previous as int].y,
                    next: old(self).spec_table().len() as usize,
                    relation: old(self).spec_table()[previous as int].relation,
                }),
            final(self).spec_current() == old(self).spec_current(),
    {
        let index = self.table.len();
        self.table.push(TableItem { x, y, next: 0, relation: Relation::Nothing });
        let p = self.table[previous];
        self.table.set(previous, TableItem {
            x: p.x,
            y: p.y,
            next: index,
            relation: p.relation,
        });
        index
    }

    /// Adds a point connected to existing next and previous points.
    pub fn add_with_next_and_previous(&mut self, x: u32, y: u32, next: usize, previous: usize)
        requires
            old(self).inv(),
            next < old(self).spec_table().len(),
            previous < old(self).spec_table().len(),
        ensures
            final(self).inv(),
            final(self).spec_table() == old(self).spec_table()
                .push(TableItem { x, y, next, relation: Relation::Nothing })
                .update(previous as int, TableItem {
                    x: old(self).spec_table()[previous as int].x,
                    y: old(self).spec_table()[previous as int].y,
                    next: old(self).spec_table().len() as usize,
                    relation: old(self).spec_table()[previous as int].relation,
                }),
            final(self).spec_current() == old(self).spec_current(),
    {
        let index = self.table.len();
        self.table.push(TableItem { x, y, next, relation: Relation::Nothing });
        let p = self.table[previous];
        self.table.set(previous, TableItem {
            x: p.x,
            y: p.y,
            next: index,
            relation: p.relation,
        });
    }

    /// The scan crosses the boundary tagged `head`.
    pub fn cross_contour(&mut self, head: usize)
        requires
            old(self).inv(),
            head < old(self).spec_table().len(),
        ensures
            final(self).inv(),
            final(self).spec_table() == old(self).spec_table(),
            final(self).spec_current()
                == cross_spec(old(self).spec_table(), old(self).spec_current(), head as int),
    {
        proof {
            lemma_t_unalias(self.table@, head as int);
        }
        let index = self.unalias(head);
        if self.current_contour == index {
            if let Relation::Parent(parent) = self.table[self.current_contour].relation {
                proof {
                    lemma_t_unalias(self.table@, parent as int);
                }
                self.current_contour = self.unalias(parent);
            }
        } else {
            self.current_contour = index;
        }
    }

    /// A foot joined the contours tagged `from_head` and `to_head`: the
    /// younger surviving head becomes an alias of the older.
    pub fn combine_contours(&mut self, from_head: usize, to_head: usize)
        requires
            old(self).inv(),
            from_head < old(self).spec_table().len(),
            to_head < old(self).spec_table().len(),
        ensures
            final(self).inv(),
            final(self).spec_table() == combine_spec(old(self).spec_table(),
                from_head as int, to_head as int),
            final(self).spec_current() == combine_current_spec(old(self).spec_table(),
                old(self).spec_current(), from_head as int, to_head as int),
    {
        proof {
            lemma_t_unalias(self.table@, from_head as int);
            lemma_t_unalias(self.table@, to_head as int);
        }
        let mut from_index = self.unalias(from_head);
        let mut to_index = self.unalias(to_head);
        if from_index != to_index {
            if from_index < to_index {
                let swap = from_index;
                from_index = to_index;
                to_index = swap;
            }
            let item = self.table[from_index];
            self.table.set(from_index, TableItem {
                x: item.x,
                y: item.y,
                next: item.next,
                relation: Relation::Alias(to_index),
            });
            if self.current_contour == from_index {
                self.current_contour = to_index;
            }
        }
    }

    /// Finishes the table: every head's parent link becomes a child link of
    /// the resolved parent, sibling links chaining heads that share one.
    pub fn into(self) -> (r: Vec<TableItem>)
        requires
            self.inv(),
        ensures
            r@ == parents_to_children_from(self.spec_table(), 1),
    {
        let ghost orig = self.table@;
        let mut table = self.table;
        let len = table.len();
        let mut index: usize = 1;
        while index < len
            invariant
                len == table@.len(),
                wf_table(table@),
                1 <= index <= len,
                parents_to_children_from(orig, 1) == parents_to_children_from(
                    table@, index as int),
            decreases len - index,
        {
            let ghost t_old = table@;
            proof {
                lemma_p2c_step_wf(table@, index as int);
            }
            let relation = table[index].relation;
            if let Relation::Parent(p) = relation {
                proof {
                    lemma_t_unalias(table@, p as int);
                }
                let parent = unalias_table(&table, p);
                if let Relation::Child(child) = table[parent].relation {
                    let next = table[index].next;
                    let n = table[next];
                    table.set(next, TableItem {
                        x: n.x,
                        y: n.y,
                        next: n.next,
                        relation: Relation::Sibling(child),
                    });
                }
                let q = table[parent];
                table.set(parent, TableItem {
                    x: q.x,
                    y: q.y,
                    next: q.next,
                    relation: Relation::Child(index),
                });
            }
            proof {
                assert(table@ =~= parents_to_children_step(t_old, index as int));
            }
            index = index + 1;
        }
        table
    }

    /// Returns the surviving head reached from a possibly aliased head tag.
    fn unalias(&self, alias: usize) -> (r: usize)
        requires
            self.inv(),
            alias < self.spec_table().len(),
        ensures
            r == t_unalias(self.spec_table(), alias as int),
            r < self.spec_table().len(),
    {
        unalias_table(&self.table, alias)
    }
}

/// Follows alias links in the table down to the surviving head.
fn unalias_table(table: &Vec<TableItem>, alias: usize) -> (r: usize)
    requires
        wf_table(table@),
        alias < table@.len(),
    ensures
        r == t_unalias(table@, alias as int),
        r <= alias,
        !(table@[r as int].relation is Alias),
{
    proof {
        lemma_t_unalias(table@, alias as int);
    }
    let mut index = alias;
    loop
        invariant
            wf_table(table@),
            index < table@.len(),
            index <= alias,
            t_unalias(table@, index as int) == t_unalias(table@, alias as int),
        ensures
            index == t_unalias(table@, alias as int),
        decreases index,
    {
        if let Relation::Alias(head) = table[index].relation {
            proof {
                lemma_t_unalias(table@, head as int);
            }
            index = head;
        } else {
            break;
        }
    }
    index
}

} // verus!
