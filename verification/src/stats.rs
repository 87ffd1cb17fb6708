//! Deletion statistics reported to the caller.

use vstd::prelude::*;

verus! {

/// Totals of one or more deletion invocations. Elapsed time is
/// carried as whole milliseconds.
#[derive(Debug, Clone)]
pub struct DeletionStats {
    pub dirs_deleted: usize,
    pub files_deleted: usize,
    pub total_bytes: u64,
    pub total_millis: u64,
}

impl Default for DeletionStats {
    /// All totals zero.
    fn default() -> (s: DeletionStats)
        ensures
            s.dirs_deleted == 0,
            s.files_deleted == 0,
            s.total_bytes == 0,
            s.total_millis == 0,
    {
        DeletionStats { dirs_deleted: 0, files_deleted: 0, total_bytes: 0, total_millis: 0 }
    }
}

impl DeletionStats {
    /// Adds another invocation's totals onto this one.
    pub fn merge(&mut self, other: &DeletionStats)
        requires
            old(self).dirs_deleted + other.dirs_deleted <= usize::MAX,
            old(self).files_deleted + other.files_deleted <= usize::MAX,
            old(self).total_bytes + other.total_bytes <= u64::MAX,
            old(self).total_millis + other.total_millis <= u64::MAX,
        ensures
            final(self).dirs_deleted == old(self).dirs_deleted + other.dirs_deleted,
            final(self).files_deleted == old(self).files_deleted + other.files_deleted,
            final(self).total_bytes == old(self).total_bytes + other.total_bytes,
            final(self).total_millis == old(self).total_millis + other.total_millis,
    {
        self.dirs_deleted = self.dirs_deleted + other.dirs_deleted;
        self.files_deleted = self.files_deleted + other.files_deleted;
        self.total_bytes = self.total_bytes + other.total_bytes;
        self.total_millis = self.total_millis + other.total_millis;
    }

    /// Directories and files together.
    pub fn total_items(&self) -> (r: usize)
        requires
            self.dirs_deleted + self.files_deleted <= usize::MAX,
        ensures
            r == self.dirs_deleted + self.files_deleted,
    {
        self.dirs_deleted + self.files_deleted
    }
}

} // verus!
