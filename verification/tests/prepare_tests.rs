//! End-to-end test of database preparation at scale factor one.

use tpcc_core::api;
use tpcc_core::engine;
use tpcc_core::model::TpccDb;
use tpcc_core::perf::Statistics;

#[test]
fn prepare_scale_factor_one_yields_the_spec_counts() {
    let mut db = TpccDb::new();
    let stats = Statistics::new();
    let resp = engine::prepare_db(&mut db, &api::PrepareDbRequest { scale_factor: 1 }, &stats)
        .expect("prepare");

    assert_eq!(resp.warehouse_count, 1);
    assert_eq!(resp.district_count, 10);
    assert_eq!(resp.customer_count, 30_000);
    assert_eq!(resp.order_count, 30_000);
    assert_eq!(db.items.len(), 100_000);
    assert_eq!(db.warehouses[0].stocks.len(), 100_000);

    // Orders above id 2100 are pending: 900 per district, 9000 in all.
    let mut pending = 0usize;
    for d in &db.warehouses[0].districts {
        assert_eq!(d.customers.len(), 3_000);
        assert_eq!(d.orders.len(), 3_000);
        assert_eq!(d.d_next_o_id, 3_001);
        assert_eq!(d.new_orders.len(), 900);
        assert_eq!(*d.new_orders.first().unwrap(), 2_101);
        assert_eq!(*d.new_orders.last().unwrap(), 3_000);
        for o in &d.orders {
            assert_eq!(o.o_carrier_id.is_none(), o.o_id > 2_100);
            assert!((5..=15).contains(&o.lines.len()));
            for l in &o.lines {
                assert_eq!(l.ol_quantity, 5);
                assert_eq!(l.ol_supply_w_id, 1);
                if o.o_id <= 2_100 {
                    assert_eq!(l.ol_amount, 0);
                    assert!(l.ol_delivery_d.is_some());
                } else {
                    assert!(l.ol_delivery_d.is_none());
                    assert!(l.ol_amount > 0);
                }
            }
            if let Some(carrier) = o.o_carrier_id {
                assert!((1..=10).contains(&carrier));
            }
        }
        pending += d.new_orders.len();
    }
    assert!(pending > 0);
    assert_eq!(pending, 9_000);

    // The first 999 customers of a district carry the deterministic
    // surnames in index order.
    let d = &db.warehouses[0].districts[0];
    assert_eq!(d.customers[0].c_last, "BARBAROUGHT");
    assert_eq!(d.customers[1].c_last, "BARBARABLE");
    assert_eq!(d.customers[998].c_last, "EINGEINGEING");

    // The initial customer fields and the opening ledger rows.
    for c in &d.customers {
        assert_eq!(c.c_balance, -1000);
        assert_eq!(c.c_ytd_payment, 1000);
        assert_eq!(c.c_payment_cnt, 1);
        assert_eq!(c.c_delivery_cnt, 0);
        assert_eq!(c.c_middle, "OE");
    }
    // Roughly one customer in ten starts with good credit.
    let good = d
        .customers
        .iter()
        .filter(|c| matches!(c.c_credit, tpcc_core::model::Credit::Good))
        .count();
    assert!((150..=450).contains(&good), "good-credit count {good}");
    assert_eq!(db.histories.len(), 30_000);
    let h = &db.histories[0];
    assert_eq!(h.h_amount, 1000);
    assert_eq!((h.h_c_id, h.h_c_d_id, h.h_c_w_id), (1, 1, 1));

    // Fresh stock rows: quantity in range, counters at zero.
    for s in db.warehouses[0].stocks.iter().take(100) {
        assert!((10..=100).contains(&s.s_quantity));
        assert_eq!((s.s_ytd, s.s_order_cnt, s.s_remote_cnt), (0, 0, 0));
    }
    assert_eq!(db.warehouses[0].w_ytd, 30_000_000);
    assert_eq!(d.d_ytd, 3_000_000);
}
