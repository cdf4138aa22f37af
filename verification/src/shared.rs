//! The two scalars that the workers and the progress monitor share: the
//! processed counter and the found flag. Both are atomics, read and written
//! without locks and with relaxed ordering: the count is for reporting, and
//! the flag only has to be seen eventually.

use vstd::prelude::*;
use std::sync::atomic::AtomicBool;
use std::sync::atomic::AtomicU64;
use std::sync::atomic::Ordering;

verus! {

/// The state shared by all workers of one search and by its monitor.
pub struct SharedProgress {
    processed: AtomicU64,
    found: AtomicBool,
}

impl SharedProgress {
    /// Nothing processed yet, nothing found yet.
    pub fn new() -> (shared: Self) {
        SharedProgress { processed: AtomicU64::new(0), found: AtomicBool::new(false) }
    }

    /// The count of candidates that the workers have reported so far.
    pub fn processed(&self) -> (count: u64) {
        self.processed.load(Ordering::Relaxed)
    }

    /// Adds one batch of processed candidates to the count.
    pub fn add_processed(&self, batch: u64) {
        let _ = self.processed.fetch_add(batch, Ordering::Relaxed);
    }

    /// Whether some worker has found a match.
    pub fn is_found(&self) -> (found: bool) {
        self.found.load(Ordering::Relaxed)
    }

    /// Raises the found flag. Nothing in the library lowers it again.
    pub fn mark_found(&self) {
        self.found.store(true, Ordering::Relaxed);
    }
}

} // verus!
