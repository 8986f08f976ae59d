//! Circular pairing of a list's items.

use vstd::prelude::*;

verus! {

/// Yields each item of a list paired with its cyclic successor: for items
/// a, b, c the pairs (a, b), (b, c), (c, a).  A single item pairs with
/// itself; an empty list yields nothing.
pub struct CircularPairIter<T> {
    items: Vec<T>,
    index: usize,
}

impl<T: Copy> CircularPairIter<T> {
    pub closed spec fn spec_items(&self) -> Seq<T> {
        self.items@
    }

    pub closed spec fn spec_index(&self) -> int {
        self.index as int
    }

    pub open spec fn wf(&self) -> bool {
        0 <= self.spec_index() <= self.spec_items().len()
    }

    /// Takes ownership of the list and pairs its items circularly.
    pub fn new(items: Vec<T>) -> (r: Self)
        ensures
            r.wf(),
            r.spec_items() == items@,
            r.spec_index() == 0,
    {
        Self { items, index: 0 }
    }

    /// Returns the pair at the current position and advances.
    pub fn next(&mut self) -> (r: Option<(T, T)>)
        requires
            old(self).wf(),
        ensures
            final(self).wf(),
            final(self).spec_items() == old(self).spec_items(),
            if old(self).spec_index() < old(self).spec_items().len() {
                let s = old(self).spec_items();
                let k = old(self).spec_index();
                &&& r == Some((s[k], if k + 1 == s.len() { s[0] } else { s[k + 1] }))
                &&& final(self).spec_index() == k + 1
            } else {
                r is None && final(self).spec_index() == old(self).spec_index()
            },
    {
        if self.index < self.items.len() {
            let first = self.items[self.index];
            let second = if self.index + 1 == self.items.len() {
                self.items[0]
            } else {
                self.items[self.index + 1]
            };
            self.index = self.index + 1;
            Some((first, second))
        } else {
            None
        }
    }
}

} // verus!
