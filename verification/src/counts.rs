//! Row counts over the whole store, as the status report needs them.

use vstd::prelude::*;
use crate::model::{Customer, District, History, Item, Order, Stock, TpccDb, Warehouse};

verus! {

/// Districts over all warehouses.
pub open spec fn spec_district_count(ws: Seq<Warehouse>) -> int
    decreases ws.len(),
{
    if ws.len() == 0 {
        0
    } else {
        spec_district_count(ws.drop_last()) + ws.last().districts@.len()
    }
}

/// Stock rows over all warehouses.
pub open spec fn spec_stock_count(ws: Seq<Warehouse>) -> int
    decreases ws.len(),
{
    if ws.len() == 0 {
        0
    } else {
        spec_stock_count(ws.drop_last()) + ws.last().stocks@.len()
    }
}

/// Customers over the districts of one warehouse.
pub open spec fn spec_wh_customer_count(ds: Seq<District>) -> int
    decreases ds.len(),
{
    if ds.len() == 0 {
        0
    } else {
        spec_wh_customer_count(ds.drop_last()) + ds.last().customers@.len()
    }
}

/// Customers over all warehouses.
pub open spec fn spec_customer_count(ws: Seq<Warehouse>) -> int
    decreases ws.len(),
{
    if ws.len() == 0 {
        0
    } else {
        spec_customer_count(ws.drop_last()) + spec_wh_customer_count(ws.last().districts@)
    }
}

/// Orders over the districts of one warehouse.
pub open spec fn spec_wh_order_count(ds: Seq<District>) -> int
    decreases ds.len(),
{
    if ds.len() == 0 {
        0
    } else {
        spec_wh_order_count(ds.drop_last()) + ds.last().orders@.len()
    }
}

/// Orders over all warehouses.
pub open spec fn spec_order_count(ws: Seq<Warehouse>) -> int
    decreases ws.len(),
{
    if ws.len() == 0 {
        0
    } else {
        spec_order_count(ws.drop_last()) + spec_wh_order_count(ws.last().districts@)
    }
}

impl Item {
    /// Count all catalog rows.
    pub fn count(db: &TpccDb) -> (r: i64)
        requires
            db.wf(),
        ensures
            r == db.items@.len(),
    {
        db.items.len() as i64
    }
}

impl Warehouse {
    /// Count all warehouse rows.
    pub fn count(db: &TpccDb) -> (r: i64)
        requires
            db.wf(),
        ensures
            r == db.warehouses@.len(),
    {
        db.warehouses.len() as i64
    }
}

impl History {
    /// Count all ledger rows, clamped to the 64-bit signed range.
    pub fn count(db: &TpccDb) -> (r: i64)
        ensures
            r == (if db.histories@.len() <= i64::MAX {
                db.histories@.len() as int
            } else {
                i64::MAX as int
            }),
    {
        let n = db.histories.len() as u64;
        if n <= i64::MAX as u64 {
            n as i64
        } else {
            i64::MAX
        }
    }
}

impl District {
    /// Count all district rows.
    #[verifier::loop_isolation(false)]
    pub fn count(db: &TpccDb) -> (r: i64)
        requires
            db.wf(),
        ensures
            r == spec_district_count(db.warehouses@),
    {
        let mut total: i64 = 0;
        let mut w: usize = 0;
        while w < db.warehouses.len()
            invariant
                w <= db.warehouses@.len(),
                total == spec_district_count(db.warehouses@.take(w as int)),
                0 <= total <= w * 10,
            decreases db.warehouses@.len() - w,
        {
            proof {
                assert(db.warehouses@.take(w as int + 1).drop_last() =~= db.warehouses@.take(
                    w as int));
                assert(db.warehouses@.take(w as int + 1).last() == db.warehouses@[w as int]);
            }
            total = total + db.warehouses[w].districts.len() as i64;
            w = w + 1;
        }
        proof {
            assert(db.warehouses@.take(db.warehouses@.len() as int) =~= db.warehouses@);
        }
        total
    }
}

impl Stock {
    /// Count all stock rows.
    #[verifier::loop_isolation(false)]
    pub fn count(db: &TpccDb) -> (r: i64)
        requires
            db.wf(),
        ensures
            r == spec_stock_count(db.warehouses@),
    {
        let mut total: i64 = 0;
        let mut w: usize = 0;
        while w < db.warehouses.len()
            invariant
                w <= db.warehouses@.len(),
                total == spec_stock_count(db.warehouses@.take(w as int)),
                0 <= total <= w * 1_000_000,
            decreases db.warehouses@.len() - w,
        {
            proof {
                assert(db.warehouses@.take(w as int + 1).drop_last() =~= db.warehouses@.take(
                    w as int));
                assert(db.warehouses@.take(w as int + 1).last() == db.warehouses@[w as int]);
            }
            total = total + db.warehouses[w].stocks.len() as i64;
            w = w + 1;
        }
        proof {
            assert(db.warehouses@.take(db.warehouses@.len() as int) =~= db.warehouses@);
        }
        total
    }
}

/// Customers of one warehouse.
#[verifier::loop_isolation(false)]
fn warehouse_customer_count(w: &Warehouse) -> (r: i64)
    requires
        w.inv(),
    ensures
        r == spec_wh_customer_count(w.districts@),
        0 <= r <= 10_000_000,
{
    let mut total: i64 = 0;
    let mut d: usize = 0;
    while d < w.districts.len()
        invariant
            d <= w.districts@.len(),
            total == spec_wh_customer_count(w.districts@.take(d as int)),
            0 <= total <= d * 1_000_000,
        decreases w.districts@.len() - d,
    {
        proof {
            assert(w.districts@.take(d as int + 1).drop_last() =~= w.districts@.take(d as int));
            assert(w.districts@.take(d as int + 1).last() == w.districts@[d as int]);
        }
        total = total + w.districts[d].customers.len() as i64;
        d = d + 1;
    }
    proof {
        assert(w.districts@.take(w.districts@.len() as int) =~= w.districts@);
    }
    total
}

/// Orders of one warehouse.
#[verifier::loop_isolation(false)]
fn warehouse_order_count(w: &Warehouse) -> (r: i64)
    requires
        w.inv(),
    ensures
        r == spec_wh_order_count(w.districts@),
        0 <= r <= 10 * 0x8000_0000i64,
{
    let mut total: i64 = 0;
    let mut d: usize = 0;
    while d < w.districts.len()
        invariant
            d <= w.districts@.len(),
            total == spec_wh_order_count(w.districts@.take(d as int)),
            0 <= total <= d * 0x8000_0000i64,
        decreases w.districts@.len() - d,
    {
        proof {
            assert(w.districts@.take(d as int + 1).drop_last() =~= w.districts@.take(d as int));
            assert(w.districts@.take(d as int + 1).last() == w.districts@[d as int]);
        }
        total = total + w.districts[d].orders.len() as i64;
        d = d + 1;
    }
    proof {
        assert(w.districts@.take(w.districts@.len() as int) =~= w.districts@);
    }
    total
}

impl Customer {
    /// Count all customer rows.
    #[verifier::loop_isolation(false)]
    pub fn count(db: &TpccDb) -> (r: i64)
        requires
            db.wf(),
        ensures
            r == spec_customer_count(db.warehouses@),
    {
        let mut total: i64 = 0;
        let mut w: usize = 0;
        while w < db.warehouses.len()
            invariant
                w <= db.warehouses@.len(),
                total == spec_customer_count(db.warehouses@.take(w as int)),
                0 <= total <= w * 10_000_000,
            decreases db.warehouses@.len() - w,
        {
            proof {
                assert(db.warehouses@.take(w as int + 1).drop_last() =~= db.warehouses@.take(
                    w as int));
                assert(db.warehouses@.take(w as int + 1).last() == db.warehouses@[w as int]);
            }
            let c = warehouse_customer_count(&db.warehouses[w]);
            total = total + c;
            w = w + 1;
        }
        proof {
            assert(db.warehouses@.take(db.warehouses@.len() as int) =~= db.warehouses@);
        }
        total
    }
}

impl Order {
    /// Count all order rows.
    #[verifier::loop_isolation(false)]
    pub fn count(db: &TpccDb) -> (r: i64)
        requires
            db.wf(),
        ensures
            r == spec_order_count(db.warehouses@),
    {
        let mut total: i64 = 0;
        let mut w: usize = 0;
        while w < db.warehouses.len()
            invariant
                w <= db.warehouses@.len(),
                total == spec_order_count(db.warehouses@.take(w as int)),
                0 <= total <= w * (10 * 0x8000_0000i64),
            decreases db.warehouses@.len() - w,
        {
            proof {
                assert(db.warehouses@.take(w as int + 1).drop_last() =~= db.warehouses@.take(
                    w as int));
                assert(db.warehouses@.take(w as int + 1).last() == db.warehouses@[w as int]);
            }
            let c = warehouse_order_count(&db.warehouses[w]);
            total = total + c;
            w = w + 1;
        }
        proof {
            assert(db.warehouses@.take(db.warehouses@.len() as int) =~= db.warehouses@);
        }
        total
    }
}

} // verus!
