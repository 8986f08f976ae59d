//! Building blocks for grouping equal glyphs across the pages of a book.
//!
//! The page and book assembly itself decodes images and hashes whole
//! glyphs; only the plain bookkeeping lives here.

use vstd::prelude::*;
use std::collections::HashSet;

verus! {

broadcast use vstd::std_specs::hash::group_hash_axioms;

/// How widely a glyph is shared: only one occurrence, repeated within one
/// page, or repeated across pages.
#[derive(Debug, Clone, Copy, PartialEq, Eq, Structural)]
pub enum GlyphKind {
    Unique,
    PageShared,
    BookShared,
}

/// Counts glyph occurrences in the book
/// and presence of the glyph on pages.
#[derive(Debug)]
pub struct GlypDistribution {
    pub count: usize,
    pub pages: HashSet<usize>,
}

impl GlypDistribution {
    /// A distribution of a glyph not seen yet.
    pub fn new() -> (r: Self)
        ensures
            r.count == 0,
            r.pages@ == Set::<usize>::empty(),
    {
        Self { count: 0, pages: HashSet::new() }
    }

    /// Records one more occurrence, on the given page.
    pub fn add(&mut self, page_index: usize)
        requires
            old(self).count < usize::MAX,
        ensures
            final(self).count == old(self).count + 1,
            final(self).pages@ == old(self).pages@.insert(page_index),
    {
        self.pages.insert(page_index);
        self.count = self.count + 1;
    }
}

} // verus!
