//! Laws of the engine, stated and proved over the model: order-id density,
//! replenishment bounds, payment effects, delivery batching and exhaustion,
//! and the row counts of a freshly prepared store.

use vstd::prelude::*;
use crate::counts;
use crate::model::{District, TpccDb, Warehouse};
use crate::prepare::{spec_prepared, CUSTOMERS_PER_DISTRICT, DELIVERED_THRESHOLD,
    DISTRICTS_PER_WAREHOUSE, ITEM_COUNT, ORDERS_PER_DISTRICT, STOCKS_PER_WAREHOUSE};
use crate::spec_replenish;
use crate::txn;

verus! {

/// Order numbering: in every well-formed district the assigned order ids
/// are exactly `1 .. next_order_id - 1`, with no gaps and no repeats, and
/// `next_order_id` equals the initial counter value (one) plus the number
/// of inserted orders.
pub proof fn lemma_order_ids_dense(d: District)
    requires
        d.inv(),
    ensures
        d.d_next_o_id == 1 + d.orders@.len(),
        forall|i: int| 0 <= i < d.orders@.len() ==> (#[trigger] d.orders@[i]).o_id == i + 1,
        forall|i: int, j: int| 0 <= i < j < d.orders@.len()
            ==> (#[trigger] d.orders@[i]).o_id != (#[trigger] d.orders@[j]).o_id,
{
    assert forall|i: int| 0 <= i < d.orders@.len() implies (#[trigger] d.orders@[i]).o_id == i
        + 1 by {
        assert(d.orders@[i].wf(d.d_w_id as int, d.d_id as int, i, d.customers@.len() as int));
    }
}

/// The new-order queue tracks delivery state exactly: an order has a
/// queue entry if and only if its carrier is still unassigned.
pub proof fn lemma_queue_tracks_undelivered(d: District)
    requires
        d.inv(),
    ensures
        forall|oid: int| 1 <= oid <= d.orders@.len() ==> (d.new_orders@.contains(oid as i32)
            <==> (#[trigger] d.orders@[oid - 1]).o_carrier_id is None),
{
}

/// One committed New-Order advances the district's counter by exactly one
/// and assigns the pre-increment counter value as the order id; so `k`
/// committed New-Orders take the counter from its initial value to the
/// initial value plus `k`, assigning consecutive ids.
pub proof fn lemma_new_order_advances_counter(
    w_old: Warehouse,
    w_new: Warehouse,
    items: Seq<crate::model::Item>,
    district_id: int,
    customer_id: int,
    reqs: Seq<crate::api::NewOrderRequestItem>,
    entry_ms: i64,
    order_id: int,
    total: int,
)
    requires
        txn::spec_new_order_applied(
            w_old,
            w_new,
            items,
            district_id,
            customer_id,
            reqs,
            entry_ms,
            order_id,
            total,
        ),
    ensures
        order_id == w_old.districts@[district_id - 1].d_next_o_id,
        w_new.districts@[district_id - 1].d_next_o_id == w_old.districts@[district_id
            - 1].d_next_o_id + 1,
        w_new.districts@[district_id - 1].orders@.last().o_id == order_id,
        w_new.districts@[district_id - 1].orders@.len() == w_old.districts@[district_id
            - 1].orders@.len() + 1,
{
}

/// Stock replenishment keeps every quantity within `[1, 191]`: repeated
/// allocations never drive a stock row permanently negative.
pub proof fn lemma_replenish_keeps_quantity_bounded(old_qty: int, qty: int)
    requires
        1 <= old_qty <= 191,
        1 <= qty <= 10,
    ensures
        1 <= spec_replenish(old_qty, qty) <= 191,
{
}

/// Payment moves the balance by exactly the paid amount, appends exactly
/// one ledger row, and leaves a good-credit customer's data blob as it
/// was.
pub proof fn lemma_payment_effects(
    db_old: TpccDb,
    db_new: TpccDb,
    w: int,
    d: int,
    cw: int,
    cd: int,
    cid: int,
    amount: int,
    now_ms: i64,
)
    requires
        db_old.wf(),
        db_old.spec_payment_valid(w, d, cw, cd, cid),
        txn::spec_payment_applied(db_old, db_new, w, d, cw, cd, cid, amount, now_ms),
    ensures
        ({
            let b = db_old.warehouses@[cw - 1].districts@[cd - 1].customers@[cid - 1];
            let a = db_new.warehouses@[cw - 1].districts@[cd - 1].customers@[cid - 1];
            &&& a.c_balance == b.c_balance - amount
            &&& (b.c_credit is Good ==> a.c_data == b.c_data)
            &&& a.c_data@.len() == b.c_data@.len()
        }),
        db_new.histories@.len() == db_old.histories@.len() + 1,
{
    let b = db_old.warehouses@[cw - 1].districts@[cd - 1].customers@[cid - 1];
    let a = db_new.warehouses@[cw - 1].districts@[cd - 1].customers@[cid - 1];
    assert(txn::spec_paid_customer(a, b, w, w, amount));
}

/// Delivery takes at most ten orders per district per call, always the
/// lowest pending ids first: the batch is a prefix of the ascending queue,
/// so every delivered id is smaller than every id left behind.
pub proof fn lemma_delivery_takes_oldest(d: District)
    requires
        d.inv(),
    ensures
        d.spec_delivery_batch().len() <= 10,
        d.spec_delivery_batch().len() == (if d.new_orders@.len() <= 10 {
            d.new_orders@.len() as int
        } else {
            10int
        }),
        forall|i: int| 0 <= i < d.spec_delivery_batch().len()
            ==> #[trigger] d.spec_delivery_batch()[i] == d.new_orders@[i],
        forall|i: int, j: int|
            0 <= i < d.spec_delivery_batch().len() && d.spec_delivery_batch().len() <= j
                < d.new_orders@.len() ==> #[trigger] d.spec_delivery_batch()[i]
                < #[trigger] d.new_orders@[j],
{
    assert forall|i: int, j: int|
        0 <= i < d.spec_delivery_batch().len() && d.spec_delivery_batch().len() <= j
            < d.new_orders@.len() implies #[trigger] d.spec_delivery_batch()[i] < #[trigger] d
        .new_orders@[j] by {
        assert(d.new_orders@[i] < d.new_orders@[j]);
    }
}

/// Delivered orders never reappear: what one call delivers leaves the
/// queue, and a call on a district with an empty queue delivers zero and
/// changes nothing.
pub proof fn lemma_delivery_exhaustion(
    d_old: District,
    d_new: District,
    carrier_id: i32,
    now_ms: i64,
)
    requires
        d_old.inv(),
        txn::spec_delivery_applied(d_old, d_new, carrier_id, now_ms),
    ensures
        // Everything delivered is gone from the queue.
        forall|i: int| 0 <= i < d_old.spec_delivery_batch().len()
            ==> !d_new.new_orders@.contains(#[trigger] d_old.spec_delivery_batch()[i]),
        // An empty queue delivers zero and leaves every row untouched.
        d_old.new_orders@.len() == 0 ==> {
            &&& d_old.spec_delivery_batch().len() == 0
            &&& d_new.new_orders@ == d_old.new_orders@
            &&& d_new.orders@ == d_old.orders@
        },
{
    let batch = d_old.spec_delivery_batch();
    let n = batch.len() as int;
    assert forall|i: int| 0 <= i < n implies !d_new.new_orders@.contains(
        #[trigger] batch[i],
    ) by {
        if d_new.new_orders@.contains(batch[i]) {
            let j = choose|j: int| 0 <= j < d_new.new_orders@.len() && d_new.new_orders@[j]
                == batch[i];
            assert(d_old.new_orders@[n + j] == batch[i]);
            assert(d_old.new_orders@[i] < d_old.new_orders@[n + j]);
        }
    }
    if d_old.new_orders@.len() == 0 {
        assert(d_new.new_orders@ =~= d_old.new_orders@);
        assert forall|j: int| 0 <= j < d_old.orders@.len() implies #[trigger] d_new.orders@[j]
            == d_old.orders@[j] by {
            if batch.contains((j + 1) as i32) {
                let k = choose|k: int| 0 <= k < batch.len() && batch[k] == (j + 1) as i32;
            }
        }
        assert(d_new.orders@ =~= d_old.orders@);
    }
}

/// District count of a uniformly prepared prefix of warehouses.
proof fn lemma_prepared_counts_prefix(ws: Seq<Warehouse>, n: int)
    requires
        0 <= n <= ws.len(),
        forall|w: int| 0 <= w < ws.len() ==> {
            &&& (#[trigger] ws[w]).districts@.len() == DISTRICTS_PER_WAREHOUSE
            &&& forall|d: int| 0 <= d < ws[w].districts@.len() ==> {
                &&& (#[trigger] ws[w].districts@[d]).customers@.len() == CUSTOMERS_PER_DISTRICT
                &&& ws[w].districts@[d].orders@.len() == ORDERS_PER_DISTRICT
            }
        },
    ensures
        counts::spec_district_count(ws.take(n)) == n * DISTRICTS_PER_WAREHOUSE,
        counts::spec_customer_count(ws.take(n)) == n * DISTRICTS_PER_WAREHOUSE
            * CUSTOMERS_PER_DISTRICT,
        counts::spec_order_count(ws.take(n)) == n * DISTRICTS_PER_WAREHOUSE * ORDERS_PER_DISTRICT,
    decreases n,
{
    if n == 0 {
        assert(ws.take(0) =~= Seq::<Warehouse>::empty());
    } else {
        lemma_prepared_counts_prefix(ws, n - 1);
        assert(ws.take(n).drop_last() =~= ws.take(n - 1));
        assert(ws.take(n).last() == ws[n - 1]);
        lemma_uniform_district_counts(ws[n - 1].districts@, ws[n - 1].districts@.len() as int);
        assert(ws[n - 1].districts@.take(ws[n - 1].districts@.len() as int) =~= ws[n
            - 1].districts@);
    }
}

/// Customer and order counts of a uniformly filled district prefix.
proof fn lemma_uniform_district_counts(ds: Seq<District>, n: int)
    requires
        0 <= n <= ds.len(),
        forall|d: int| 0 <= d < ds.len() ==> {
            &&& (#[trigger] ds[d]).customers@.len() == CUSTOMERS_PER_DISTRICT
            &&& ds[d].orders@.len() == ORDERS_PER_DISTRICT
        },
    ensures
        counts::spec_wh_customer_count(ds.take(n)) == n * CUSTOMERS_PER_DISTRICT,
        counts::spec_wh_order_count(ds.take(n)) == n * ORDERS_PER_DISTRICT,
    decreases n,
{
    if n == 0 {
        assert(ds.take(0) =~= Seq::<District>::empty());
    } else {
        lemma_uniform_district_counts(ds, n - 1);
        assert(ds.take(n).drop_last() =~= ds.take(n - 1));
        assert(ds.take(n).last() == ds[n - 1]);
    }
}

/// The row counts of a freshly prepared store: the fixed item catalog,
/// `sf` warehouses, ten districts each, their fixed customer and order
/// complements, and per district a queue of exactly the orders above the
/// delivered threshold.
pub proof fn lemma_prepared_counts(db: TpccDb, sf: int)
    requires
        spec_prepared(db, sf),
        sf >= 0,
    ensures
        db.items@.len() == ITEM_COUNT,
        db.warehouses@.len() == sf,
        counts::spec_district_count(db.warehouses@) == sf * DISTRICTS_PER_WAREHOUSE,
        counts::spec_customer_count(db.warehouses@) == sf * DISTRICTS_PER_WAREHOUSE
            * CUSTOMERS_PER_DISTRICT,
        counts::spec_order_count(db.warehouses@) == sf * DISTRICTS_PER_WAREHOUSE
            * ORDERS_PER_DISTRICT,
        forall|w: int, d: int| 0 <= w < sf && 0 <= d < DISTRICTS_PER_WAREHOUSE
            ==> (#[trigger] db.warehouses@[w].districts@[d]).new_orders@.len()
                == ORDERS_PER_DISTRICT - DELIVERED_THRESHOLD,
        forall|w: int| 0 <= w < sf ==> (#[trigger] db.warehouses@[w]).stocks@.len()
            == STOCKS_PER_WAREHOUSE,
{
    lemma_prepared_counts_prefix(db.warehouses@, sf);
    assert(db.warehouses@.take(sf) =~= db.warehouses@);
}

} // verus!
