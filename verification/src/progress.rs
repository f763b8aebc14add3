//! Telling of the progress of a session.

use vstd::prelude::*;
use crate::unscanned::IndexedNoteEntry;

verus! {

/// An enum to indicate how to log sync progress depending on whether sync is
/// currently fetching or scanning blocks.
#[derive(Debug, Copy, Clone, PartialEq, Eq, Structural)]
pub enum ProgressType {
    Fetch,
    Scan,
}

/// The capability to tell of the progress of a session. A logger looks at
/// what passes through it and hands it on as it came: it has no say in what
/// is fetched or scanned.
pub trait ProgressLogger {
    /// Looks at the heights that are about to be fetched.
    fn fetch(&mut self, items: Vec<u64>) -> (r: Vec<u64>)
        ensures
            r@ == items@,
    ;

    /// Looks at the entries that are about to be scanned.
    fn scan(&mut self, items: Vec<IndexedNoteEntry>) -> (r: Vec<IndexedNoteEntry>)
        ensures
            r@ == items@,
    ;

    /// The number of heights that are yet to be fetched.
    fn left_to_fetch(&self) -> usize;
}

/// A logger that keeps count and tells nobody.
#[derive(Debug, Copy, Clone, PartialEq, Eq)]
pub struct DefaultLogger {
    /// The number of heights that were announced and are yet to be fetched.
    pub left_to_fetch: usize,
    /// The number of entries that were announced for scanning.
    pub seen: usize,
}

impl DefaultLogger {
    /// A logger that has seen nothing.
    pub fn new() -> (r: DefaultLogger)
        ensures
            r.left_to_fetch == 0,
            r.seen == 0,
    {
        DefaultLogger { left_to_fetch: 0, seen: 0 }
    }

    /// Notes that one of the announced heights was fetched.
    pub fn fetched_one(&mut self)
        ensures
            final(self).left_to_fetch == if old(self).left_to_fetch > 0 {
                (old(self).left_to_fetch - 1) as usize
            } else {
                0
            },
            final(self).seen == old(self).seen,
    {
        if self.left_to_fetch > 0 {
            self.left_to_fetch -= 1;
        }
    }
}

impl ProgressLogger for DefaultLogger {
    /// Takes the number of the heights as what is left to fetch.
    fn fetch(&mut self, items: Vec<u64>) -> (r: Vec<u64>)
        ensures
            final(self).left_to_fetch == items@.len(),
            final(self).seen == old(self).seen,
    {
        self.left_to_fetch = items.len();
        items
    }

    /// Adds the number of the entries to what was seen, as far as a `usize`
    /// counts.
    fn scan(&mut self, items: Vec<IndexedNoteEntry>) -> (r: Vec<IndexedNoteEntry>)
        ensures
            final(self).seen == if old(self).seen + items@.len() > usize::MAX {
                usize::MAX
            } else {
                (old(self).seen + items@.len()) as usize
            },
            final(self).left_to_fetch == old(self).left_to_fetch,
    {
        self.seen = self.seen.saturating_add(items.len());
        items
    }

    fn left_to_fetch(&self) -> (r: usize)
        ensures
            r == self.left_to_fetch,
    {
        self.left_to_fetch
    }
}

} // verus!
