//! A TPC-C style transaction engine and workload generator core.
//!
//! The engine keeps the warehouse/district/customer/order schema in an
//! in-memory store and exposes the five standard business transactions
//! (New-Order, Payment, Order-Status, Delivery, Stock-Level) together with
//! bulk database preparation. The workload generator half provides the
//! randomized-input algorithms of the benchmark and the per-terminal
//! scheduling and statistics model.
//!
//! Layout: `model` holds the schema and its invariants, `txn` the
//! read-write transactions, `queries` the read-only ones, `prepare` the
//! bulk generation, `counts` the row counts, and `engine` the boundary
//! that speaks the `api` request and response types. `rng` is the random
//! distribution module, `driver` the generator's decisions, `perf` the
//! latency bookkeeping, `transaction` the read/write capability split,
//! and `laws` the proved properties that span several operations.
//! Monetary values are integer cents and rates are basis points
//! throughout; the transport shell converts at the boundary.

pub mod api;
pub mod clock;
pub mod counts;
pub mod driver;
pub mod engine;
pub mod error;
pub mod laws;
pub mod model;
pub mod perf;
pub mod prepare;
pub mod queries;
pub mod txn;
pub mod rng;
pub mod transaction;

use vstd::prelude::*;

verus! {

/// TPC-C stock replenishment rule: a New-Order line taking `qty` units from a
/// stock row holding `old_qty` units leaves `old_qty - qty` units, wrapping
/// around by 91 units whenever the remainder would drop to 10 or below.
pub open spec fn spec_replenish(old_qty: int, qty: int) -> int {
    if old_qty > qty + 10 {
        old_qty - qty
    } else {
        old_qty - qty + 91
    }
}

/// Quantity left on a stock row after allocating `qty` units.
pub fn replenished_quantity(old_qty: i32, qty: i32) -> (new_qty: i32)
    requires
        0 <= old_qty <= 1000,
        0 <= qty <= 1000,
    ensures
        new_qty == spec_replenish(old_qty as int, qty as int),
{
    if old_qty > qty + 10 {
        old_qty - qty
    } else {
        old_qty - qty + 91
    }
}

} // verus!
