//! The lock of an address space, and its scoped use by the engine.

use vstd::prelude::*;

verus! {

/// The reader side of an address space's read/write lock.
#[derive(Clone, Copy, Debug, PartialEq, Eq, Structural)]
pub struct MmLock {
    /// How many read holds are outstanding.
    pub readers: u64,
    /// How many read holds were ever granted; the count stops at its maximum.
    pub acquisitions: u64,
}

impl MmLock {
    /// The lock after one more read hold was granted.
    pub open spec fn acquired(self) -> MmLock {
        MmLock {
            readers: (self.readers + 1) as u64,
            acquisitions: if self.acquisitions < u64::MAX {
                (self.acquisitions + 1) as u64
            } else {
                self.acquisitions
            },
        }
    }

    /// The lock after one read hold was given back.
    pub open spec fn released(self) -> MmLock {
        MmLock {
            readers: if self.readers > 0 {
                (self.readers - 1) as u64
            } else {
                0
            },
            acquisitions: self.acquisitions,
        }
    }

    /// The lock after a whole scoped use: the hold is given back, only the
    /// count of grants remembers it. Without `engage` nothing happens.
    pub open spec fn after_scope(self, engage: bool) -> MmLock {
        if engage {
            self.acquired().released()
        } else {
            self
        }
    }

    /// A lock that nobody holds and that was never taken.
    pub fn new() -> (lock: MmLock)
        ensures
            lock == (MmLock { readers: 0, acquisitions: 0 }),
    {
        MmLock { readers: 0, acquisitions: 0 }
    }

    /// Takes a read hold.
    pub fn down_read(&mut self)
        requires
            old(self).readers < u64::MAX,
        ensures
            *final(self) == old(self).acquired(),
    {
        self.readers = self.readers + 1;
        if self.acquisitions < u64::MAX {
            self.acquisitions = self.acquisitions + 1;
        }
    }

    /// Gives a read hold back. On a lock without holds nothing changes.
    pub fn up_read(&mut self)
        ensures
            *final(self) == old(self).released(),
    {
        if self.readers > 0 {
            self.readers = self.readers - 1;
        }
    }
}

/// A scoped use leaves the number of outstanding holds as it found it.
pub proof fn lemma_scope_releases(lock: MmLock, engage: bool)
    requires
        lock.readers < u64::MAX,
    ensures
        lock.after_scope(engage).readers == lock.readers,
        !engage ==> lock.after_scope(engage) == lock,
        engage && lock.acquisitions < u64::MAX ==> lock.after_scope(engage).acquisitions
            == lock.acquisitions + 1,
{
}

} // verus!
