//! The single-slot, concurrency-safe holder of the latest reading.

use vstd::prelude::*;
use vstd::rwlock::{RwLock, RwLockPredicate};

use crate::values::AnalogValues;

verus! {

/// The contents of the shared cell: the latest reading, and whether any
/// poll has committed one yet.
#[derive(Clone, Copy, Debug, PartialEq, Eq, Structural)]
pub struct LatestReading {
    /// Whether a poll has committed a reading since the cell was made.
    pub committed: bool,
    /// The latest committed reading; the sentinel until the first commit.
    pub values: AnalogValues,
}

/// The cell's invariant: until a reading has been committed, the cell still
/// holds the sentinel, so no reader can observe half-written fields in
/// place of it.
pub struct LatestReadingInv {}

impl RwLockPredicate<LatestReading> for LatestReadingInv {
    open spec fn inv(self, v: LatestReading) -> bool {
        !v.committed ==> v.values == AnalogValues::spec_sentinel()
    }
}

/// A single-slot holder of the latest committed reading: one writer, many
/// readers. Built on vstd's verified reader-writer lock, so a commit
/// replaces the whole reading at once and a snapshot is always one whole
/// committed reading — never fields from two different commits.
pub struct SharedReadingsCell {
    lock: RwLock<LatestReading, LatestReadingInv>,
}

impl SharedReadingsCell {
    #[verifier::type_invariant]
    spec fn wf(self) -> bool {
        self.lock.pred() == (LatestReadingInv {  })
    }

    /// An empty cell: nothing committed, sentinel contents.
    pub fn new() -> (c: SharedReadingsCell) {
        SharedReadingsCell {
            lock: RwLock::new(
                LatestReading { committed: false, values: AnalogValues::sentinel() },
                Ghost(LatestReadingInv {  }),
            ),
        }
    }

    /// Commits a whole reading. Readers that snapshot afterwards see either
    /// this reading or a later commit, never a mixture of two.
    pub fn publish(&self, values: AnalogValues) {
        proof {
            use_type_invariant(self);
        }
        let (_stale, write_handle) = self.lock.acquire_write();
        write_handle.release_write(LatestReading { committed: true, values });
    }

    /// Snapshots the cell under a read lock: one whole value, holding the
    /// sentinel for as long as nothing has been committed.
    pub fn snapshot(&self) -> (r: LatestReading)
        ensures
            !r.committed ==> r.values == AnalogValues::spec_sentinel(),
    {
        proof {
            use_type_invariant(self);
        }
        let handle = self.lock.acquire_read();
        let r = *handle.borrow();
        handle.release_read();
        r
    }
}

} // verus!
