//! The pool state store: a single owned record behind a load/commit
//! interface with an optimistic version check.
//!
//! `commit` is the only point of mutation. A transition loads a snapshot and
//! its version, computes against the snapshot, and commits the proposed pool
//! with the version it loaded; a mismatch means another transition committed
//! in between and fails the whole call with `ConcurrentModification`, leaving
//! the stored state untouched. Within one sequential call the loaded version
//! is necessarily current, so the dispatcher's own commits are proved to
//! succeed.

use vstd::prelude::*;

use crate::error::AmmError;
use crate::pool::Pool;

verus! {

/// The authoritative, versioned pool record. The fields are private: all
/// reads go through [`PoolStore::load`] and all writes through
/// [`PoolStore::commit`].
#[derive(Debug)]
pub struct PoolStore {
    pool: Pool,
    version: u64,
}

impl PoolStore {
    /// The committed pool record.
    pub closed spec fn spec_pool(self) -> Pool {
        self.pool
    }

    /// The commit counter, bumped by every successful commit.
    pub closed spec fn spec_version(self) -> u64 {
        self.version
    }

    /// The store only ever holds well-formed pools: committers are obliged
    /// to establish [`Pool::wf`] before writing.
    pub open spec fn wf(self) -> bool {
        self.spec_pool().wf()
    }

    /// A fresh store around an initial (well-formed) pool, at version zero.
    pub fn new(pool: Pool) -> (s: PoolStore)
        requires
            pool.wf(),
        ensures
            s.spec_pool() == pool,
            s.spec_version() == 0,
            s.wf(),
    {
        PoolStore { pool, version: 0 }
    }

    /// Read the committed state: the current pool and its version. Within a
    /// single transition the pair is consistent — there is no way to observe
    /// a half-updated pool.
    pub fn load(&self) -> (r: (Pool, u64))
        ensures
            r.0 == self.spec_pool(),
            r.1 == self.spec_version(),
    {
        (self.pool, self.version)
    }

    /// Atomically replace the stored pool, provided `expected_version` is
    /// still current; otherwise fail with `ConcurrentModification` and
    /// change nothing. The version bound is a machine limit on the commit
    /// counter; the well-formedness requirement is the committer's
    /// obligation (the store itself never validates business invariants).
    pub fn commit(&mut self, new_pool: Pool, expected_version: u64) -> (r: Result<(), AmmError>)
        requires
            new_pool.wf(),
            old(self).spec_version() < u64::MAX,
        ensures
            expected_version == old(self).spec_version() ==> {
                &&& r == Ok::<(), AmmError>(())
                &&& final(self).spec_pool() == new_pool
                &&& final(self).spec_version() == old(self).spec_version() + 1
                &&& final(self).wf()
            },
            expected_version != old(self).spec_version() ==> {
                &&& r == Err::<(), AmmError>(AmmError::ConcurrentModification)
                &&& *final(self) == *old(self)
            },
    {
        if expected_version != self.version {
            return Err(AmmError::ConcurrentModification);
        }
        self.pool = new_pool;
        self.version = self.version + 1;
        Ok(())
    }
}

} // verus!
