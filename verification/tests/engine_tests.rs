//! Tests of the transaction engine over a small hand-built store.

use tpcc_core::api;
use tpcc_core::engine;
use tpcc_core::error::Error;
use tpcc_core::model::{Credit, Customer, District, Item, Stock, TpccDb, Warehouse};
use tpcc_core::perf::{PerfSummary, PerformanceLog, StatKind, Statistics};
use tpcc_core::replenished_quantity;
use tpcc_core::transaction::{RdConnection, WrConnection};

fn mk_item(id: i32, price_cents: i64) -> Item {
    Item {
        i_id: id,
        i_im_id: 1,
        i_name: format!("item{id}"),
        i_price: price_cents,
        i_data: "somedata".to_string(),
    }
}

fn mk_stock(item_id: i32, warehouse_id: i32, quantity: i32) -> Stock {
    Stock {
        s_i_id: item_id,
        s_w_id: warehouse_id,
        s_quantity: quantity,
        s_dists: (0..10).map(|d| format!("distinfo{d:016}")).collect(),
        s_ytd: 0,
        s_order_cnt: 0,
        s_remote_cnt: 0,
        s_data: "stockdata".to_string(),
    }
}

fn mk_customer(w: i32, d: i32, id: i32, first: &str, last: &str, credit: Credit) -> Customer {
    Customer {
        c_id: id,
        c_d_id: d,
        c_w_id: w,
        c_first: first.to_string(),
        c_middle: "OE".to_string(),
        c_last: last.to_string(),
        c_street_1: "street1".to_string(),
        c_street_2: "street2".to_string(),
        c_city: "city".to_string(),
        c_state: "st".to_string(),
        c_zip: "123411111".to_string(),
        c_phone: "0123456789012345".to_string(),
        c_since: 0,
        c_credit: credit,
        c_credit_lim: 5_000_000,
        c_discount: 1000,
        c_balance: -1000,
        c_ytd_payment: 1000,
        c_payment_cnt: 1,
        c_delivery_cnt: 0,
        c_data: "abcdefghijklmnopqrstuvwxyz0123456789".to_string(),
    }
}

fn mk_district(w: i32, id: i32) -> District {
    District {
        d_id: id,
        d_w_id: w,
        d_name: format!("dist{id}"),
        d_street_1: "dstreet1".to_string(),
        d_street_2: "dstreet2".to_string(),
        d_city: "dcity".to_string(),
        d_state: "ds".to_string(),
        d_zip: "432111111".to_string(),
        d_tax: 200,
        d_ytd: 0,
        d_next_o_id: 1,
        customers: vec![
            mk_customer(w, id, 1, "ALICE", "BARBARBAR", Credit::Good),
            mk_customer(w, id, 2, "CAROL", "BARBARBAR", Credit::Bad),
            mk_customer(w, id, 3, "BOB", "OUGHTPRIESE", Credit::Good),
        ],
        orders: vec![],
        new_orders: vec![],
    }
}

fn small_db() -> TpccDb {
    let warehouse = Warehouse {
        w_id: 1,
        w_name: "mainwh".to_string(),
        w_street_1: "wstreet1".to_string(),
        w_street_2: "wstreet2".to_string(),
        w_city: "wcity".to_string(),
        w_state: "ws".to_string(),
        w_zip: "987611111".to_string(),
        w_tax: 100,
        w_ytd: 0,
        stocks: vec![
            mk_stock(1, 1, 15),
            mk_stock(2, 1, 50),
            mk_stock(3, 1, 8),
            mk_stock(4, 1, 91),
        ],
        districts: vec![mk_district(1, 1), mk_district(1, 2)],
    };
    TpccDb {
        items: vec![
            mk_item(1, 1000),
            mk_item(2, 500),
            mk_item(3, 9999),
            mk_item(4, 100),
        ],
        warehouses: vec![warehouse],
        histories: vec![],
    }
}

fn order_request(items: Vec<(i32, i32)>, rollback: bool) -> api::NewOrderRequest {
    api::NewOrderRequest {
        terminal_id: 1,
        warehouse_id: 1,
        district_id: 1,
        customer_id: 1,
        items: items
            .into_iter()
            .map(|(item_id, quantity)| api::NewOrderRequestItem { item_id, quantity })
            .collect(),
        inject_rollback: rollback,
    }
}

#[test]
fn stock_replenishment_formula() {
    // Low remainder wraps around by 91; a high one just decrements.
    assert_eq!(replenished_quantity(15, 10), 96);
    assert_eq!(replenished_quantity(50, 10), 40);
}

#[test]
fn new_order_assigns_sequential_ids_and_total() {
    let mut db = small_db();
    let resp = engine::new_order(&mut db, &order_request(vec![(1, 2), (2, 1)], false))
        .expect("new order");
    let contents = resp.contents.expect("committed");
    assert_eq!(contents.order_id, 1);
    assert_eq!(contents.warehouse_id, 1);
    assert_eq!(contents.district_id, 1);
    // 2*1000 + 1*500 = 2500 cents, 10% discount, 1% + 2% tax:
    // 2500 * 0.90 * 1.03 = 2317.5, rounded down to the cent.
    assert_eq!(contents.total_amount, 2317);

    // The district counter moved and the order is queued.
    let d = &db.warehouses[0].districts[0];
    assert_eq!(d.d_next_o_id, 2);
    assert_eq!(d.orders.len(), 1);
    assert_eq!(d.orders[0].o_id, 1);
    assert_eq!(d.orders[0].o_c_id, 1);
    assert!(d.orders[0].o_carrier_id.is_none());
    assert!(d.orders[0].o_all_local);
    assert_eq!(d.new_orders, vec![1]);
    assert_eq!(d.orders[0].lines.len(), 2);
    assert_eq!(d.orders[0].lines[0].ol_amount, 2000);
    assert_eq!(d.orders[0].lines[1].ol_amount, 500);

    // Stock was allocated: 15 - 2 = 13 (no wrap), counters moved.
    let s = &db.warehouses[0].stocks[0];
    assert_eq!(s.s_quantity, 13);
    assert_eq!(s.s_ytd, 2);
    assert_eq!(s.s_order_cnt, 1);
    assert_eq!(s.s_remote_cnt, 0);
}

#[test]
fn new_order_ids_have_no_gaps_or_repeats() {
    let mut db = small_db();
    for _ in 0..3 {
        engine::new_order(&mut db, &order_request(vec![(1, 1)], false)).expect("new order");
    }
    let d = &db.warehouses[0].districts[0];
    assert_eq!(d.d_next_o_id, 4);
    let ids: Vec<i32> = d.orders.iter().map(|o| o.o_id).collect();
    assert_eq!(ids, vec![1, 2, 3]);
    assert_eq!(d.new_orders, vec![1, 2, 3]);
}

#[test]
fn new_order_wraps_low_stock() {
    let mut db = small_db();
    // Item 3 holds 8 units; ordering 5 leaves 8 - 5 + 91 = 94.
    engine::new_order(&mut db, &order_request(vec![(3, 5)], false)).expect("new order");
    assert_eq!(db.warehouses[0].stocks[2].s_quantity, 94);
}

#[test]
fn new_order_rollback_persists_nothing() {
    let mut db = small_db();
    let before_orders = db.warehouses[0].districts[0].orders.len();
    let before_queue = db.warehouses[0].districts[0].new_orders.len();
    let before_qty = db.warehouses[0].stocks[0].s_quantity;
    let before_next = db.warehouses[0].districts[0].d_next_o_id;

    let resp = engine::new_order(&mut db, &order_request(vec![(1, 2)], true)).expect("rollback");
    assert!(resp.contents.is_none());

    let d = &db.warehouses[0].districts[0];
    assert_eq!(d.orders.len(), before_orders);
    assert_eq!(d.new_orders.len(), before_queue);
    assert_eq!(d.d_next_o_id, before_next);
    assert_eq!(db.warehouses[0].stocks[0].s_quantity, before_qty);
}

#[test]
fn new_order_unknown_rows_are_not_found() {
    let mut db = small_db();
    let mut bad_customer = order_request(vec![(1, 1)], false);
    bad_customer.customer_id = 99;
    assert_eq!(
        engine::new_order(&mut db, &bad_customer).unwrap_err(),
        Error::NotFound
    );
    let mut bad_item = order_request(vec![(77, 1)], false);
    bad_item.customer_id = 1;
    assert_eq!(
        engine::new_order(&mut db, &bad_item).unwrap_err(),
        Error::NotFound
    );
    let mut bad_warehouse = order_request(vec![(1, 1)], false);
    bad_warehouse.warehouse_id = 9;
    assert_eq!(
        engine::new_order(&mut db, &bad_warehouse).unwrap_err(),
        Error::NotFound
    );
}

fn payment_request(customer_id: i32, amount: i64) -> api::PaymentRequest {
    api::PaymentRequest {
        terminal_id: 1,
        warehouse_id: 1,
        district_id: 1,
        customer_warehouse_id: 1,
        customer_district_id: 1,
        customer_id,
        amount,
    }
}

#[test]
fn payment_good_credit_moves_balance_only() {
    let mut db = small_db();
    let before = &db.warehouses[0].districts[0].customers[0];
    let (balance0, data0) = (before.c_balance, before.c_data.clone());
    let histories0 = db.histories.len();

    let resp = engine::payment(&mut db, &payment_request(1, 2500)).expect("payment");
    assert_eq!(resp.contents.amount, 2500);

    let after = &db.warehouses[0].districts[0].customers[0];
    assert_eq!(after.c_balance, balance0 - 2500);
    assert_eq!(after.c_data, data0);
    assert_eq!(after.c_ytd_payment, 1000 + 2500);
    assert_eq!(after.c_payment_cnt, 2);
    assert_eq!(db.histories.len(), histories0 + 1);
    let h = db.histories.last().unwrap();
    assert_eq!(h.h_amount, 2500);
    assert_eq!(h.h_c_id, 1);
    assert_eq!(h.h_data, "mainwh    dist1");
    assert_eq!(db.warehouses[0].w_ytd, 2500);
    assert_eq!(db.warehouses[0].districts[0].d_ytd, 2500);
}

#[test]
fn payment_bad_credit_rewrites_data_same_length() {
    let mut db = small_db();
    let before = db.warehouses[0].districts[0].customers[1].c_data.clone();

    engine::payment(&mut db, &payment_request(2, 12345)).expect("payment");

    let after = &db.warehouses[0].districts[0].customers[1].c_data;
    assert_eq!(after.len(), before.len());
    assert_ne!(*after, before);
    // The audit prefix spells the customer key, the paying district and
    // warehouse, and the amount.
    assert!(after.starts_with("00020001000100010001123.45"));
}

#[test]
fn payment_unknown_customer_is_not_found() {
    let mut db = small_db();
    let err = engine::payment(&mut db, &payment_request(42, 100)).unwrap_err();
    assert_eq!(err, Error::NotFound);
    assert_eq!(err.status_code(), 404);
}

#[test]
fn payment_overflowing_balance_is_a_storage_failure() {
    let mut db = small_db();
    db.warehouses[0].districts[0].customers[0].c_balance = i64::MIN + 10;
    let err = engine::payment(&mut db, &payment_request(1, 100)).unwrap_err();
    assert_eq!(err, Error::StorageFailure);
    assert_eq!(err.status_code(), 500);
    // Nothing was persisted.
    assert_eq!(db.histories.len(), 0);
    assert_eq!(db.warehouses[0].w_ytd, 0);
}

/// Queue twelve pending orders in district 1, each with one line of a
/// known amount, all owned by customer 1.
fn db_with_pending_orders() -> TpccDb {
    let mut db = small_db();
    for k in 0..12 {
        let mut req = order_request(vec![(2, 1)], false);
        req.customer_id = 1;
        req.district_id = 1;
        let _ = engine::new_order(&mut db, &req).expect("new order");
        let _ = k;
    }
    db
}

#[test]
fn delivery_takes_ten_oldest_then_the_rest() {
    let mut db = db_with_pending_orders();
    let balance0 = db.warehouses[0].districts[0].customers[0].c_balance;
    let req = api::DeliveryRequest { warehouse_id: 1, carrier_id: 7 };

    let resp = engine::delivery(&mut db, &req, 777).expect("delivery");
    assert_eq!(resp.contents.deliverd_orders, 10);
    {
        let d = &db.warehouses[0].districts[0];
        assert_eq!(d.new_orders, vec![11, 12]);
        for oid in 1..=10 {
            let o = &d.orders[oid - 1];
            assert_eq!(o.o_carrier_id, Some(7));
            assert!(o.lines.iter().all(|l| l.ol_delivery_d == Some(777)));
        }
        assert!(d.orders[10].o_carrier_id.is_none());
        // Ten delivered orders, each one line of 500 cents, all customer 1.
        assert_eq!(d.customers[0].c_balance, balance0 + 10 * 500);
        assert_eq!(d.customers[0].c_delivery_cnt, 10);
    }

    // The second call drains the remaining two...
    let resp = engine::delivery(&mut db, &req, 778).expect("delivery");
    assert_eq!(resp.contents.deliverd_orders, 2);
    assert!(db.warehouses[0].districts[0].new_orders.is_empty());

    // ...and a third call on empty queues delivers zero: idempotent
    // exhaustion, not an error.
    let resp = engine::delivery(&mut db, &req, 779).expect("delivery");
    assert_eq!(resp.contents.deliverd_orders, 0);
}

#[test]
fn delivery_unknown_warehouse_is_not_found() {
    let mut db = small_db();
    let req = api::DeliveryRequest { warehouse_id: 3, carrier_id: 1 };
    assert_eq!(engine::delivery(&mut db, &req, 0).unwrap_err(), Error::NotFound);
}

#[test]
fn order_status_returns_latest_order_or_empty() {
    let mut db = small_db();
    // No orders yet: an empty list, not an error.
    let resp = engine::order_status(&db, 1, 1, 1).expect("status");
    assert!(resp.contents.orders.is_empty());

    engine::new_order(&mut db, &order_request(vec![(1, 1)], false)).expect("new order");
    engine::new_order(&mut db, &order_request(vec![(2, 3)], false)).expect("new order");

    let resp = engine::order_status(&db, 1, 1, 1).expect("status");
    assert_eq!(resp.contents.orders.len(), 1);
    let o = &resp.contents.orders[0];
    assert_eq!(o.order_id, 2);
    assert_eq!(o.carrier_id, None);
    assert_eq!(o.lines.len(), 1);
    assert_eq!(o.lines[0].item_id, 2);
    assert_eq!(o.lines[0].quantity, 3);
    assert_eq!(o.lines[0].amount, 1500);

    // An unknown customer is an error.
    assert!(engine::order_status(&db, 1, 1, 42).is_err());
}

#[test]
fn customers_by_lastname_sorted_by_first_name() {
    let db = small_db();
    let params = api::CustomersByLastnameParams {
        warehouse_id: 1,
        district_id: 1,
        lastname: "BARBARBAR".to_string(),
    };
    let resp = engine::customer_by_lastname(&db, &params);
    let names: Vec<&str> = resp
        .contents
        .customers
        .iter()
        .map(|c| c.firstname.as_str())
        .collect();
    assert_eq!(names, vec!["ALICE", "CAROL"]);
    assert_eq!(resp.contents.customers[0].customer_id, 1);
    assert_eq!(resp.contents.customers[1].customer_id, 2);

    let params = api::CustomersByLastnameParams {
        warehouse_id: 1,
        district_id: 1,
        lastname: "NOSUCHNAME".to_string(),
    };
    assert!(engine::customer_by_lastname(&db, &params).contents.customers.is_empty());
}

#[test]
fn customer_by_id_reports_the_row() {
    let db = small_db();
    let resp = engine::customer_by_id(&db, 1, 1, 3).expect("lookup");
    assert_eq!(resp.contents.customers.len(), 1);
    assert_eq!(resp.contents.customers[0].firstname, "BOB");
    assert_eq!(resp.contents.customers[0].lastname, "OUGHTPRIESE");
    assert_eq!(engine::customer_by_id(&db, 1, 1, 9).unwrap_err(), Error::NotFound);
}

#[test]
fn stock_level_counts_distinct_recent_low_items() {
    let mut db = small_db();
    // Two orders referencing items 1 and 3 (item 1 twice), one order with
    // item 2. Quantities keep stock above the wrap threshold.
    engine::new_order(&mut db, &order_request(vec![(1, 1), (3, 1)], false)).expect("new order");
    engine::new_order(&mut db, &order_request(vec![(1, 1)], false)).expect("new order");
    engine::new_order(&mut db, &order_request(vec![(2, 1)], false)).expect("new order");

    // Stock now: item 1: 13, item 2: 49, item 3: 98 (wrapped), item 4: 91.
    let params = api::StockLevelParams { stock_level: 20 };
    let resp = engine::check_stocks(&db, 1, 1, &params).expect("stock level");
    // Only item 1 is both recently referenced and below 20; it counts once.
    assert_eq!(resp.contents.low_stocks, 1);

    let params = api::StockLevelParams { stock_level: 99 };
    let resp = engine::check_stocks(&db, 1, 1, &params).expect("stock level");
    // Items 1, 2 and 3 are recent and below 99; item 4 was never ordered.
    assert_eq!(resp.contents.low_stocks, 3);

    assert_eq!(
        engine::check_stocks(&db, 1, 5, &params).unwrap_err(),
        Error::NotFound
    );
}

#[test]
fn status_reports_row_counts() {
    let mut db = small_db();
    engine::new_order(&mut db, &order_request(vec![(1, 1)], false)).expect("new order");
    let stats = Statistics::new();
    let resp = engine::status(&db, &stats);
    assert_eq!(resp.warehouse_count, 1);
    assert_eq!(resp.district_count, 2);
    assert_eq!(resp.customer_count, 6);
    assert_eq!(resp.order_count, 1);
    assert_eq!(resp.database_bytes, 0);
    assert_eq!(resp.statistics.new_order_count, 0);
}

#[test]
fn prepare_db_rejects_bad_scale_factor() {
    let mut db = small_db();
    let stats = Statistics::new();
    let err = engine::prepare_db(
        &mut db,
        &api::PrepareDbRequest { scale_factor: -1 },
        &stats,
    )
    .unwrap_err();
    assert_eq!(err, Error::SetupFailure);
    // The store is untouched.
    assert_eq!(db.warehouses.len(), 1);
}

#[test]
fn error_kinds_map_to_status_codes() {
    assert_eq!(Error::NotFound.status_code(), 404);
    assert_eq!(Error::StorageFailure.status_code(), 500);
    assert_eq!(Error::ResourceExhausted.status_code(), 500);
    assert_eq!(Error::WorkerFailure.status_code(), 500);
    assert_eq!(Error::SetupFailure.status_code(), 500);
    assert_eq!(Error::migration_error(), Error::SetupFailure);
}

#[test]
fn stocked_item_pairs_catalog_and_stock() {
    let db = small_db();
    let si = tpcc_core::model::StockedItem::find(1, 2, &db).expect("stocked item");
    assert_eq!(si.item.i_price, 500);
    assert_eq!(si.stock.s_quantity, 50);
    assert!(tpcc_core::model::StockedItem::find(1, 99, &db).is_err());
    assert!(tpcc_core::model::StockedItem::find(5, 1, &db).is_err());
}

#[test]
fn connection_handles_split_read_and_write_access() {
    let mut wr = WrConnection::new(small_db());
    {
        let rd = wr.as_rd();
        assert_eq!(rd.as_db().items.len(), 4);
    }
    {
        let outer = wr.as_rd();
        let rd = RdConnection::new(outer.as_db());
        assert_eq!(rd.as_db().warehouses.len(), 1);
    }
    engine::new_order(wr.as_db(), &order_request(vec![(1, 1)], false)).expect("new order");
    let db = wr.into_inner();
    assert_eq!(db.warehouses[0].districts[0].orders.len(), 1);
}

#[test]
fn performance_log_and_summaries_accumulate() {
    // A live log is safe to take; exact arithmetic is checked on fixed
    // readings so a stepping wall clock cannot perturb the test.
    let mut live = PerformanceLog::new();
    live.begin();
    live.finish();
    live.commit();
    let _ = live.to_performance_metric();

    let log = PerformanceLog { t_start: 100, t_begun: 250, t_finished: 1_250, t_committed: 1_300 };
    let m = log.to_performance_metric();
    assert_eq!((m.begin_us, m.query_us, m.commit_us), (150, 1_000, 50));
    assert_eq!(log.total_us(), 1_200);

    let mut summary = PerfSummary::new();
    summary.add(&m, 120);
    summary.add(&m, 80);
    assert_eq!(summary.counts(), 2);
    assert_eq!(summary.avg_e2e_us(), 100);

    let mut stats = Statistics::new();
    stats.record(StatKind::NewOrder, 42);
    stats.record(StatKind::Payment, 7);
    let snapshot = stats.to_iftype();
    assert_eq!(snapshot.new_order_count, 1);
    assert_eq!(snapshot.new_order_us, 42);
    assert_eq!(snapshot.payment_count, 1);
    assert_eq!(snapshot.payment_us, 7);
    assert_eq!(snapshot.delivery_count, 0);
}
