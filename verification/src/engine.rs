//! The engine boundary: the five business transactions plus customer
//! lookup, status and database preparation, each bracketed by the
//! performance log and speaking the request/response types.
//!
//! Read-only calls take the store by shared reference, read-write calls by
//! exclusive reference: the capability split is the borrow itself.

use vstd::prelude::*;
use vstd::string::StringExecFns;
use crate::api;
use crate::clock;
use crate::counts;
use crate::error::Error;
use crate::model::{Customer, District, Order, TpccDb, Warehouse};
use crate::perf::{PerformanceLog, Statistics};
use crate::prepare;
use crate::queries::lex_le;
use crate::rng::TpcRandom;
use crate::txn;

verus! {

/// The store reads back unchanged: every table as it was.
pub open spec fn spec_db_unchanged(a: TpccDb, b: TpccDb) -> bool {
    &&& a.items@ == b.items@
    &&& a.warehouses@ == b.warehouses@
    &&& a.histories@ == b.histories@
}

/// The reported order mirrors the stored order row and its lines.
pub open spec fn spec_api_order_matches(a: api::Order, o: Order) -> bool {
    &&& a.warehouse_id == o.o_w_id
    &&& a.district_id == o.o_d_id
    &&& a.order_id == o.o_id
    &&& a.entry_at == o.o_entry_d
    &&& a.carrier_id == o.o_carrier_id
    &&& a.lines@.len() == o.lines@.len()
    &&& forall|i: int| 0 <= i < o.lines@.len() ==> {
        let al = #[trigger] a.lines@[i];
        let ol = o.lines@[i];
        &&& al.item_id == ol.ol_i_id
        &&& al.supply_warehouse_id == ol.ol_supply_w_id
        &&& al.quantity == ol.ol_quantity
        &&& al.amount == ol.ol_amount
        &&& al.delivery_at == ol.ol_delivery_d
    }
}

/// The reported customer mirrors the stored customer row.
pub open spec fn spec_api_customer_matches(a: api::Customer, c: Customer) -> bool {
    &&& a.warehouse_id == c.c_w_id
    &&& a.district_id == c.c_d_id
    &&& a.customer_id == c.c_id
    &&& a.firstname@ == c.c_first@
    &&& a.lastname@ == c.c_last@
}

/// Everything a committed New-Order changes in the store: the order's home
/// warehouse as the transaction layer states it, nothing else.
pub open spec fn spec_new_order_committed(
    db_old: TpccDb,
    db_new: TpccDb,
    req: api::NewOrderRequest,
    contents: api::NewOrderContents,
) -> bool {
    let w = req.warehouse_id as int;
    &&& 1 <= w <= db_old.warehouses@.len()
    &&& db_old.warehouses@[w - 1].spec_new_order_valid(
        db_old.items@.len() as int,
        req.district_id as int,
        req.customer_id as int,
        req.items@,
    )
    &&& db_old.warehouses@[w - 1].spec_new_order_fits(req.district_id as int)
    &&& txn::spec_new_order_applied(
        db_old.warehouses@[w - 1],
        db_new.warehouses@[w - 1],
        db_old.items@,
        req.district_id as int,
        req.customer_id as int,
        req.items@,
        db_new.warehouses@[w - 1].districts@[req.district_id - 1].orders@.last().o_entry_d,
        contents.order_id as int,
        contents.total_amount as int,
    )
    &&& contents.warehouse_id == req.warehouse_id
    &&& contents.district_id == req.district_id
    &&& db_new.warehouses@.len() == db_old.warehouses@.len()
    &&& forall|j: int| 0 <= j < db_old.warehouses@.len() && j != w - 1
        ==> db_new.warehouses@[j] == db_old.warehouses@[j]
    &&& db_new.items@ == db_old.items@
    &&& db_new.histories@ == db_old.histories@
}

/// New-Order: look up the warehouse, insert the order with its lines and
/// queue entry, allocate stock, and report the order identity and total.
/// With the rollback flag set, nothing is persisted and the response
/// carries no contents: the mandated abort path.
pub fn new_order(db: &mut TpccDb, req: &api::NewOrderRequest) -> (r: Result<
    api::NewOrderResponse,
    Error,
>)
    requires
        old(db).wf(),
    ensures
        final(db).wf(),
        match r {
            Ok(resp) => {
                &&& if req.inject_rollback {
                    *final(db) == *old(db) && resp.contents is None
                } else {
                    &&& resp.contents is Some
                    &&& spec_new_order_committed(*old(db), *final(db), *req, resp.contents->0)
                }
            },
            Err(e) => {
                &&& spec_db_unchanged(*final(db), *old(db))
                &&& !req.inject_rollback
                &&& if 1 <= req.warehouse_id <= old(db).warehouses@.len()
                    && old(db).warehouses@[req.warehouse_id - 1].spec_new_order_valid(
                    old(db).items@.len() as int,
                    req.district_id as int,
                    req.customer_id as int,
                    req.items@,
                ) {
                    e == Error::StorageFailure && !old(db).warehouses@[req.warehouse_id
                        - 1].spec_new_order_fits(req.district_id as int)
                } else {
                    e == Error::NotFound
                }
            },
        },
{
    let mut plog = PerformanceLog::new();
    plog.begin();
    if req.inject_rollback {
        // The deliberate abort: report success semantics for a no-op.
        plog.finish();
        plog.commit();
        return Ok(api::NewOrderResponse { contents: None, perf: plog.to_performance_metric() });
    }
    if !(1 <= req.warehouse_id && req.warehouse_id as usize <= db.warehouses.len()) {
        return Err(Error::NotFound);
    }
    let wi = (req.warehouse_id - 1) as usize;
    let now_ms = clock::now_millis();
    let w = vstd::std_specs::vec::vec_index_mut(&mut db.warehouses, wi);
    let outcome = w.insert_order(&db.items, req.district_id, req.customer_id, &req.items, now_ms);
    match outcome {
        Ok((order_id, total_amount)) => {
            plog.finish();
            plog.commit();
            proof {
                assert(txn::spec_new_order_applied(
                    old(db).warehouses@[req.warehouse_id - 1],
                    db.warehouses@[req.warehouse_id - 1],
                    old(db).items@,
                    req.district_id as int,
                    req.customer_id as int,
                    req.items@,
                    now_ms,
                    order_id as int,
                    total_amount as int,
                ));
                assert forall|j: int| 0 <= j < db.warehouses@.len() implies (
                #[trigger] db.warehouses@[j]).wf(j) by {
                    if j != wi as int {
                        assert(db.warehouses@[j] == old(db).warehouses@[j]);
                    }
                }
            }
            Ok(api::NewOrderResponse {
                contents: Some(api::NewOrderContents {
                    warehouse_id: req.warehouse_id,
                    district_id: req.district_id,
                    order_id,
                    total_amount,
                }),
                perf: plog.to_performance_metric(),
            })
        },
        Err(e) => {
            proof {
                assert(db.warehouses@ =~= old(db).warehouses@);
            }
            Err(e)
        },
    }
}

/// Payment: debit the customer, credit the warehouse's and district's
/// year-to-date revenue, append the ledger row, and report the amount and
/// the payment instant.
pub fn payment(db: &mut TpccDb, req: &api::PaymentRequest) -> (r: Result<
    api::PaymentResponse,
    Error,
>)
    requires
        old(db).wf(),
        req.amount >= 0,
    ensures
        final(db).wf(),
        match r {
            Ok(resp) => {
                &&& resp.contents.amount == req.amount
                &&& txn::spec_payment_applied(
                    *old(db),
                    *final(db),
                    req.warehouse_id as int,
                    req.district_id as int,
                    req.customer_warehouse_id as int,
                    req.customer_district_id as int,
                    req.customer_id as int,
                    req.amount as int,
                    resp.contents.paied_at,
                )
                &&& old(db).spec_payment_valid(
                    req.warehouse_id as int,
                    req.district_id as int,
                    req.customer_warehouse_id as int,
                    req.customer_district_id as int,
                    req.customer_id as int,
                )
                &&& old(db).spec_payment_fits(
                    req.customer_warehouse_id as int,
                    req.customer_district_id as int,
                    req.customer_id as int,
                    req.amount as int,
                )
            },
            Err(e) => {
                &&& *final(db) == *old(db)
                &&& if old(db).spec_payment_valid(
                    req.warehouse_id as int,
                    req.district_id as int,
                    req.customer_warehouse_id as int,
                    req.customer_district_id as int,
                    req.customer_id as int,
                ) {
                    e == Error::StorageFailure && !old(db).spec_payment_fits(
                        req.customer_warehouse_id as int,
                        req.customer_district_id as int,
                        req.customer_id as int,
                        req.amount as int,
                    )
                } else {
                    e == Error::NotFound
                }
            },
        },
{
    let mut plog = PerformanceLog::new();
    plog.begin();
    let now_ms = clock::now_millis();
    let outcome = db.pay(
        req.warehouse_id,
        req.district_id,
        req.customer_warehouse_id,
        req.customer_district_id,
        req.customer_id,
        req.amount,
        now_ms,
    );
    match outcome {
        Ok(_) => {
            plog.finish();
            plog.commit();
            Ok(api::PaymentResponse {
                contents: api::PaymentContents { amount: req.amount, paied_at: now_ms },
                perf: plog.to_performance_metric(),
            })
        },
        Err(e) => Err(e),
    }
}

/// Order-Status: find the customer, then their most recent order with all
/// its lines. A missing customer is an error; a customer without orders
/// gets an empty order list.
pub fn order_status(
    db: &TpccDb,
    warehouse_id: i32,
    district_id: i32,
    customer_id: i32,
) -> (r: Result<api::OrderStatusResponse, Error>)
    requires
        db.wf(),
    ensures
        match r {
            Ok(resp) => {
                &&& 1 <= warehouse_id <= db.warehouses@.len()
                &&& 1 <= district_id <= db.warehouses@[warehouse_id - 1].districts@.len()
                &&& 1 <= customer_id <= db.warehouses@[warehouse_id - 1].districts@[district_id
                    - 1].customers@.len()
                &&& ({
                    let orders = db.warehouses@[warehouse_id - 1].districts@[district_id
                        - 1].orders@;
                    if exists|i: int| 0 <= i < orders.len() && (#[trigger] orders[i]).o_c_id
                        == customer_id {
                        &&& resp.contents.orders@.len() == 1
                        &&& exists|idx: int|
                            {
                                &&& 0 <= idx < orders.len()
                                &&& (#[trigger] orders[idx]).o_c_id == customer_id
                                &&& spec_api_order_matches(resp.contents.orders@[0], orders[idx])
                                &&& forall|i: int| idx < i < orders.len()
                                    ==> (#[trigger] orders[i]).o_c_id != customer_id
                            }
                    } else {
                        resp.contents.orders@.len() == 0
                    }
                })
            },
            Err(e) => {
                &&& e == Error::NotFound
                &&& !(1 <= warehouse_id <= db.warehouses@.len() && 1 <= district_id
                    <= db.warehouses@[warehouse_id - 1].districts@.len() && 1 <= customer_id
                    <= db.warehouses@[warehouse_id - 1].districts@[district_id
                    - 1].customers@.len())
            },
        },
{
    let mut plog = PerformanceLog::new();
    plog.begin();
    let customer = Customer::find(warehouse_id, district_id, customer_id, db)?;
    let district = &db.warehouses[(warehouse_id - 1) as usize].districts[(district_id
        - 1) as usize];
    let mut orders: Vec<api::Order> = Vec::new();
    match customer.last_order(district) {
        Ok(order) => {
            let mut lines: Vec<api::OrderLine> = Vec::new();
            let mut li: usize = 0;
            while li < order.lines.len()
                invariant
                    li <= order.lines@.len(),
                    lines@.len() == li,
                    forall|i: int| 0 <= i < li ==> {
                        let al = #[trigger] lines@[i];
                        let ol = order.lines@[i];
                        &&& al.item_id == ol.ol_i_id
                        &&& al.supply_warehouse_id == ol.ol_supply_w_id
                        &&& al.quantity == ol.ol_quantity
                        &&& al.amount == ol.ol_amount
                        &&& al.delivery_at == ol.ol_delivery_d
                    },
                decreases order.lines@.len() - li,
            {
                let ol = &order.lines[li];
                lines.push(api::OrderLine {
                    item_id: ol.ol_i_id,
                    supply_warehouse_id: ol.ol_supply_w_id,
                    quantity: ol.ol_quantity,
                    amount: ol.ol_amount,
                    delivery_at: ol.ol_delivery_d,
                });
                li = li + 1;
            }
            orders.push(api::Order {
                warehouse_id: order.o_w_id,
                district_id: order.o_d_id,
                order_id: order.o_id,
                entry_at: order.o_entry_d,
                carrier_id: order.o_carrier_id,
                lines,
            });
        },
        Err(_) => {},
    }
    plog.finish();
    plog.commit();
    Ok(api::OrderStatusResponse {
        contents: api::OrderStatusContents { orders },
        perf: plog.to_performance_metric(),
    })
}

/// Customer lookup by id, reported in the customer list shape.
pub fn customer_by_id(
    db: &TpccDb,
    warehouse_id: i32,
    district_id: i32,
    customer_id: i32,
) -> (r: Result<api::CustomersResponse, Error>)
    requires
        db.wf(),
    ensures
        match r {
            Ok(resp) => {
                &&& 1 <= warehouse_id <= db.warehouses@.len()
                &&& 1 <= district_id <= db.warehouses@[warehouse_id - 1].districts@.len()
                &&& 1 <= customer_id <= db.warehouses@[warehouse_id - 1].districts@[district_id
                    - 1].customers@.len()
                &&& resp.contents.customers@.len() == 1
                &&& spec_api_customer_matches(
                    resp.contents.customers@[0],
                    db.warehouses@[warehouse_id - 1].districts@[district_id - 1].customers@[
                        customer_id - 1],
                )
            },
            Err(e) => {
                &&& e == Error::NotFound
                &&& !(1 <= warehouse_id <= db.warehouses@.len() && 1 <= district_id
                    <= db.warehouses@[warehouse_id - 1].districts@.len() && 1 <= customer_id
                    <= db.warehouses@[warehouse_id - 1].districts@[district_id
                    - 1].customers@.len())
            },
        },
{
    let mut plog = PerformanceLog::new();
    plog.begin();
    let customer = Customer::find(warehouse_id, district_id, customer_id, db)?;
    let api_customer = api::Customer {
        warehouse_id: customer.c_w_id,
        district_id: customer.c_d_id,
        customer_id: customer.c_id,
        firstname: String::from_str(customer.firstname()),
        lastname: String::from_str(customer.lastname()),
    };
    plog.finish();
    plog.commit();
    let mut one: Vec<api::Customer> = Vec::new();
    one.push(api_customer);
    Ok(api::CustomersResponse {
        contents: api::CustomersContents { customers: one },
        perf: plog.to_performance_metric(),
    })
}

/// Customer lookup by surname: all customers of the district sharing the
/// surname, ordered by first name. An unknown warehouse or district
/// matches nobody.
#[verifier::loop_isolation(false)]
pub fn customer_by_lastname(db: &TpccDb, params: &api::CustomersByLastnameParams) -> (r:
    api::CustomersResponse)
    requires
        db.wf(),
    ensures
        ({
            let valid = 1 <= params.warehouse_id <= db.warehouses@.len() && 1 <= params.district_id
                <= db.warehouses@[params.warehouse_id - 1].districts@.len();
            if valid {
                let customers = db.warehouses@[params.warehouse_id - 1].districts@[
                    params.district_id - 1].customers@;
                &&& forall|i: int| 0 <= i < r.contents.customers@.len() ==> {
                    let a = #[trigger] r.contents.customers@[i];
                    &&& 1 <= a.customer_id <= customers.len()
                    &&& spec_api_customer_matches(a, customers[a.customer_id - 1])
                    &&& a.lastname@ == params.lastname@
                }
                &&& forall|cid: int| 1 <= cid <= customers.len() && (
                    #[trigger] customers[cid - 1].c_last)@ == params.lastname@ ==> exists|i: int|
                    0 <= i < r.contents.customers@.len() && (
                    #[trigger] r.contents.customers@[i]).customer_id == cid
                &&& forall|i: int, j: int| 0 <= i < j < r.contents.customers@.len()
                    ==> (#[trigger] r.contents.customers@[i]).customer_id != (
                    #[trigger] r.contents.customers@[j]).customer_id
                &&& forall|i: int, j: int| 0 <= i < j < r.contents.customers@.len() ==> lex_le(
                    (#[trigger] r.contents.customers@[i]).firstname@,
                    (#[trigger] r.contents.customers@[j]).firstname@,
                )
            } else {
                r.contents.customers@.len() == 0
            }
        }),
{
    let mut plog = PerformanceLog::new();
    plog.begin();
    let ids = Customer::find_by_name(params.warehouse_id, params.district_id, &params.lastname, db);
    let mut result: Vec<api::Customer> = Vec::new();
    let valid = 1 <= params.warehouse_id && params.warehouse_id as usize <= db.warehouses.len()
        && 1 <= params.district_id && params.district_id as usize <= db.warehouses[(
    params.warehouse_id - 1) as usize].districts.len();
    if valid {
        let district = &db.warehouses[(params.warehouse_id - 1) as usize].districts[(
        params.district_id - 1) as usize];
        let ghost customers = district.customers@;
        let mut k: usize = 0;
        while k < ids.len()
            invariant
                valid,
                k <= ids@.len(),
                result@.len() == k,
                forall|i: int| 0 <= i < ids@.len() ==> 1 <= #[trigger] ids@[i] <= customers.len()
                    && customers[ids@[i] - 1].c_last@ == params.lastname@,
                forall|i: int| 0 <= i < k ==> {
                    let a = #[trigger] result@[i];
                    &&& a.customer_id == ids@[i]
                    &&& 1 <= a.customer_id <= customers.len()
                    &&& spec_api_customer_matches(a, customers[a.customer_id - 1])
                    &&& a.lastname@ == params.lastname@
                },
            decreases ids@.len() - k,
        {
            let cid = ids[k];
            let c = &district.customers[(cid - 1) as usize];
            proof {
                assert(c.wf(params.warehouse_id as int, params.district_id as int, cid - 1));
            }
            result.push(api::Customer {
                warehouse_id: c.c_w_id,
                district_id: c.c_d_id,
                customer_id: c.c_id,
                firstname: String::from_str(c.firstname()),
                lastname: String::from_str(c.lastname()),
            });
            k = k + 1;
        }
        proof {
            assert forall|cid: int| 1 <= cid <= customers.len() && (
            #[trigger] customers[cid - 1].c_last)@ == params.lastname@ implies exists|i: int|
                0 <= i < result@.len() && (#[trigger] result@[i]).customer_id == cid by {
                assert(ids@.contains(cid as i32));
                let i = choose|i: int| 0 <= i < ids@.len() && ids@[i] == cid as i32;
                assert(result@[i].customer_id == cid);
            }
            assert forall|i: int, j: int| 0 <= i < j < result@.len() implies lex_le(
                (#[trigger] result@[i]).firstname@,
                (#[trigger] result@[j]).firstname@,
            ) by {
                assert(lex_le(
                    customers[ids@[i] - 1].c_first@,
                    customers[ids@[j] - 1].c_first@,
                ));
                assert(result@[i].firstname@ == customers[ids@[i] - 1].c_first@);
                assert(result@[j].firstname@ == customers[ids@[j] - 1].c_first@);
            }
        }
    }
    plog.finish();
    plog.commit();
    api::CustomersResponse {
        contents: api::CustomersContents { customers: result },
        perf: plog.to_performance_metric(),
    }
}

/// Orders one Delivery call takes off the queues of the first `k`
/// districts: at most ten per district, the oldest first.
pub open spec fn spec_delivery_total(ds: Seq<District>, k: int) -> int
    decreases k,
{
    if k <= 0 {
        0
    } else {
        spec_delivery_total(ds, k - 1) + ds[k - 1].spec_delivery_batch().len()
    }
}

/// Delivery: for every district of the warehouse, deliver up to the ten
/// oldest pending orders, all stamped with the caller's shared instant;
/// report how many orders were delivered in all.
#[verifier::loop_isolation(false)]
pub fn delivery(db: &mut TpccDb, req: &api::DeliveryRequest, now_ms: i64) -> (r: Result<
    api::DeliveryResponse,
    Error,
>)
    requires
        old(db).wf(),
    ensures
        final(db).wf(),
        match r {
            Ok(resp) => {
                let w = req.warehouse_id as int;
                &&& 1 <= w <= old(db).warehouses@.len()
                &&& forall|dk: int| 0 <= dk < old(db).warehouses@[w - 1].districts@.len()
                    ==> (#[trigger] old(db).warehouses@[w - 1].districts@[dk]).spec_delivery_fits()
                &&& resp.contents.deliverd_orders == spec_delivery_total(
                    old(db).warehouses@[w - 1].districts@,
                    old(db).warehouses@[w - 1].districts@.len() as int,
                )
                &&& forall|dk: int| 0 <= dk < old(db).warehouses@[w - 1].districts@.len()
                    ==> txn::spec_delivery_applied(
                        #[trigger] old(db).warehouses@[w - 1].districts@[dk],
                        final(db).warehouses@[w - 1].districts@[dk],
                        req.carrier_id,
                        now_ms,
                    )
                &&& final(db).warehouses@.len() == old(db).warehouses@.len()
                &&& final(db).warehouses@[w - 1].districts@.len() == old(db).warehouses@[w
                    - 1].districts@.len()
                &&& txn::warehouse_statics_except_ytd_eq(
                    final(db).warehouses@[w - 1],
                    old(db).warehouses@[w - 1],
                )
                &&& final(db).warehouses@[w - 1].w_ytd == old(db).warehouses@[w - 1].w_ytd
                &&& final(db).warehouses@[w - 1].stocks@ == old(db).warehouses@[w - 1].stocks@
                &&& forall|j: int| 0 <= j < old(db).warehouses@.len() && j != w - 1
                    ==> final(db).warehouses@[j] == old(db).warehouses@[j]
                &&& final(db).items@ == old(db).items@
                &&& final(db).histories@ == old(db).histories@
            },
            Err(e) => {
                &&& spec_db_unchanged(*final(db), *old(db))
                &&& if 1 <= req.warehouse_id <= old(db).warehouses@.len() {
                    e == Error::StorageFailure && exists|dk: int|
                        0 <= dk < old(db).warehouses@[req.warehouse_id - 1].districts@.len() && !(
                        #[trigger] old(db).warehouses@[req.warehouse_id - 1].districts@[
                            dk]).spec_delivery_fits()
                } else {
                    e == Error::NotFound
                }
            },
        },
{
    let mut plog = PerformanceLog::new();
    plog.begin();
    if !(1 <= req.warehouse_id && req.warehouse_id as usize <= db.warehouses.len()) {
        return Err(Error::NotFound);
    }
    let wi = (req.warehouse_id - 1) as usize;

    // Pre-check every district so the whole call is all-or-nothing.
    let mut k: usize = 0;
    while k < db.warehouses[wi].districts.len()
        invariant
            wi < db.warehouses@.len(),
            *db == *old(db),
            k <= db.warehouses@[wi as int].districts@.len(),
            forall|j: int| 0 <= j < k ==> (#[trigger] db.warehouses@[wi as int].districts@[
                j]).spec_delivery_fits(),
        decreases db.warehouses@[wi as int].districts@.len() - k,
    {
        if !db.warehouses[wi].districts[k].delivery_fits() {
            return Err(Error::StorageFailure);
        }
        k = k + 1;
    }

    let ghost w0 = db.warehouses@[wi as int];
    let w = vstd::std_specs::vec::vec_index_mut(&mut db.warehouses, wi);
    let mut total: i32 = 0;
    let mut k: usize = 0;
    while k < w.districts.len()
        invariant
            w.districts@.len() == w0.districts@.len(),
            k <= w.districts@.len(),
            txn::warehouse_statics_except_ytd_eq(*w, w0),
            w.w_ytd == w0.w_ytd,
            w.stocks@ == w0.stocks@,
            forall|j: int| 0 <= j < w0.districts@.len()
                ==> (#[trigger] w0.districts@[j]).spec_delivery_fits(),
            forall|j: int| 0 <= j < w0.districts@.len() ==> (#[trigger] w0.districts@[j]).wf(
                w0.w_id as int,
                j,
            ),
            forall|j: int| k <= j < w.districts@.len() ==> #[trigger] w.districts@[j]
                == w0.districts@[j],
            forall|j: int| 0 <= j < k ==> txn::spec_delivery_applied(
                #[trigger] w0.districts@[j],
                w.districts@[j],
                req.carrier_id,
                now_ms,
            ),
            forall|j: int| 0 <= j < w.districts@.len() ==> (#[trigger] w.districts@[j]).wf(
                w0.w_id as int,
                j,
            ),
            total == spec_delivery_total(w0.districts@, k as int),
            0 <= total <= k * 10,
        decreases w.districts@.len() - k,
    {
        let d = vstd::std_specs::vec::vec_index_mut(&mut w.districts, k);
        let delivered = match d.delivery(req.carrier_id, now_ms) {
            Ok(n) => n,
            Err(_) => {
                // Unreachable: the pre-check showed every district fits.
                proof {
                    assert(false);
                }
                return Err(Error::WorkerFailure);
            },
        };
        total = total + delivered as i32;
        k = k + 1;
    }
    plog.finish();
    plog.commit();
    proof {
        assert(forall|dk: int| 0 <= dk < old(db).warehouses@[wi as int].districts@.len()
            ==> txn::spec_delivery_applied(
                #[trigger] old(db).warehouses@[wi as int].districts@[dk],
                db.warehouses@[wi as int].districts@[dk],
                req.carrier_id,
                now_ms,
            ));
        assert forall|j: int| 0 <= j < db.warehouses@.len() implies (
        #[trigger] db.warehouses@[j]).wf(j) by {
            if j != wi as int {
                assert(db.warehouses@[j] == old(db).warehouses@[j]);
            }
        }
    }
    Ok(api::DeliveryResponse {
        contents: api::DeliveryContents { deliverd_orders: total },
        perf: plog.to_performance_metric(),
    })
}

/// Stock-Level: count the distinct recently ordered items whose stock in
/// this warehouse sits below the threshold.
pub fn check_stocks(
    db: &TpccDb,
    warehouse_id: i32,
    district_id: i32,
    params: &api::StockLevelParams,
) -> (r: Result<api::StockLevelResponse, Error>)
    requires
        db.wf(),
    ensures
        match r {
            Ok(resp) => {
                &&& 1 <= warehouse_id <= db.warehouses@.len()
                &&& 1 <= district_id <= db.warehouses@[warehouse_id - 1].districts@.len()
                &&& resp.contents.low_stocks == db.warehouses@[warehouse_id - 1].districts@[
                    district_id - 1].spec_low_stock_count(
                    db.warehouses@[warehouse_id - 1].stocks@,
                    params.stock_level as int,
                    db.warehouses@[warehouse_id - 1].stocks@.len() as int,
                )
            },
            Err(e) => {
                &&& e == Error::NotFound
                &&& !(1 <= warehouse_id <= db.warehouses@.len() && 1 <= district_id
                    <= db.warehouses@[warehouse_id - 1].districts@.len())
            },
        },
{
    let mut plog = PerformanceLog::new();
    plog.begin();
    let warehouse = Warehouse::find(warehouse_id, db)?;
    let district = warehouse.find_district(district_id)?;
    let low_stocks = district.check_stock_level(&warehouse.stocks, params.stock_level);
    plog.finish();
    plog.commit();
    Ok(api::StockLevelResponse {
        contents: api::StockLevelContents { low_stocks: low_stocks as i32 },
        perf: plog.to_performance_metric(),
    })
}

/// Status: row counts, storage size and the running statistics snapshot.
/// The in-memory store reports no storage size, as a backend without that
/// measure would.
pub fn status(db: &TpccDb, stats: &Statistics) -> (r: api::DbStatusResponse)
    requires
        db.wf(),
    ensures
        r.warehouse_count == db.warehouses@.len(),
        r.district_count == counts::spec_district_count(db.warehouses@),
        r.customer_count == counts::spec_customer_count(db.warehouses@),
        r.order_count == counts::spec_order_count(db.warehouses@),
        r.database_bytes == 0,
        r.statistics == stats.to_iftype_spec(),
{
    api::DbStatusResponse {
        warehouse_count: Warehouse::count(db),
        district_count: District::count(db),
        customer_count: Customer::count(db),
        order_count: Order::count(db),
        database_bytes: 0,
        statistics: stats.to_iftype(),
    }
}

/// Prepare: reset the store and run the bulk generation for the requested
/// scale factor, then report the row counts.
pub fn prepare_db(db: &mut TpccDb, req: &api::PrepareDbRequest, stats: &Statistics) -> (r: Result<
    api::DbStatusResponse,
    Error,
>)
    requires
        old(db).wf(),
    ensures
        final(db).wf(),
        match r {
            Ok(resp) => {
                &&& 0 <= req.scale_factor <= prepare::MAX_SCALE_FACTOR
                &&& prepare::spec_prepared(*final(db), req.scale_factor as int)
                &&& resp.warehouse_count == req.scale_factor
                &&& resp.district_count == counts::spec_district_count(final(db).warehouses@)
                &&& resp.customer_count == counts::spec_customer_count(final(db).warehouses@)
                &&& resp.order_count == counts::spec_order_count(final(db).warehouses@)
            },
            Err(e) => {
                &&& *final(db) == *old(db)
                &&& e == Error::SetupFailure
                &&& !(0 <= req.scale_factor <= prepare::MAX_SCALE_FACTOR)
            },
        },
{
    if !(0 <= req.scale_factor && req.scale_factor <= prepare::MAX_SCALE_FACTOR) {
        return Err(Error::SetupFailure);
    }
    let mut rand = TpcRandom::new();
    let now_ms = clock::now_millis();
    crate::model::cleanup(db);
    prepare::prepare(req.scale_factor, &mut rand, now_ms, db);
    Ok(status(db, stats))
}

} // verus!
