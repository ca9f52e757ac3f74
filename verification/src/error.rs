//! The error union of the engine, and its mapping to caller-visible
//! outcomes. `NotFound` is the only kind reported to clients as a normal
//! condition; every other kind surfaces as a generic failure.

use vstd::prelude::*;

verus! {

/// Error kinds of the transaction engine.
#[derive(Clone, Copy, PartialEq, Eq, Structural, Debug)]
pub enum Error {
    /// A referenced entity is absent: customer, order, warehouse,
    /// district, item or stock.
    NotFound,
    /// Any other storage-side failure, such as a counter that would
    /// leave the representable range.
    StorageFailure,
    /// The connection pool is exhausted.
    ResourceExhausted,
    /// An internal execution unit crashed or was cancelled.
    WorkerFailure,
    /// Schema or bulk-load failure during preparation.
    SetupFailure,
}

impl Error {
    /// The HTTP status code that the engine reports for this kind:
    /// not-found is a client-facing condition, all else is internal.
    pub fn status_code(&self) -> (code: u16)
        ensures
            code == (if *self is NotFound { 404int } else { 500int }),
    {
        match self {
            Error::NotFound => 404,
            _ => 500,
        }
    }

    /// A setup failure during preparation.
    pub fn migration_error() -> (e: Error)
        ensures
            e is SetupFailure,
    {
        Error::SetupFailure
    }
}

} // verus!
