//! The capability split of the storage interface: a read handle exposes
//! only shared access to the store, a write handle owns it exclusively.
//! The split is enforced by the types before any operation is reached,
//! not by convention.

use vstd::prelude::*;
use crate::model::TpccDb;

verus! {

/// A connection used only for read operations: it can never hand out
/// exclusive access.
pub struct RdConnection<'a> {
    db: &'a TpccDb,
}

impl<'a> RdConnection<'a> {
    /// The store this handle reads.
    pub closed spec fn spec_db(&self) -> TpccDb {
        *self.db
    }

    /// Scope a read transaction over the store.
    pub fn new(db: &'a TpccDb) -> (r: RdConnection<'a>)
        ensures
            r.spec_db() == *db,
    {
        RdConnection { db }
    }

    /// The store, readable only.
    pub fn as_db(&self) -> (r: &TpccDb)
        ensures
            *r == self.spec_db(),
    {
        self.db
    }
}

/// A connection used for both read and write operations: it owns the
/// store, so exclusive access cannot alias a read handle.
pub struct WrConnection {
    db: TpccDb,
}

impl WrConnection {
    /// The store this handle owns.
    pub closed spec fn spec_db(&self) -> TpccDb {
        self.db
    }

    /// Take ownership of the store for read-write transactions.
    pub fn new(db: TpccDb) -> (r: WrConnection)
        ensures
            r.spec_db() == db,
    {
        WrConnection { db }
    }

    /// The store, exclusively.
    pub fn as_db(&mut self) -> (r: &mut TpccDb)
        ensures
            *final(r) == final(self).spec_db(),
            *r == old(self).spec_db(),
    {
        &mut self.db
    }

    /// Borrow the store for a read-only transaction.
    pub fn as_rd<'a>(&'a self) -> (r: RdConnection<'a>)
        ensures
            r.spec_db() == self.spec_db(),
    {
        RdConnection::new(&self.db)
    }

    /// Give the store back.
    pub fn into_inner(self) -> (r: TpccDb)
        ensures
            r == self.spec_db(),
    {
        self.db
    }
}

} // verus!
