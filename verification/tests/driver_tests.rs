//! Tests of the workload generator decisions: schedule mix, measurement
//! window, input synthesis and the surname tie-break.

use tpcc_core::api;
use tpcc_core::driver::{
    customer_selector, delivery_input, in_measurement, middle_customer, new_order_input,
    payment_input, schedule_slot, stock_level_input, CustomerSelector, TxKind,
};
use tpcc_core::rng::TpcRandom;

#[test]
fn schedule_has_the_mandated_mix() {
    let mut new_order = 0;
    let mut payment = 0;
    let mut order_status = 0;
    let mut delivery = 0;
    let mut stock_level = 0;
    let mut idle = 0;
    for slot in 0..25u32 {
        match schedule_slot(slot) {
            Some(TxKind::NewOrder) => new_order += 1,
            Some(TxKind::Payment) => payment += 1,
            Some(TxKind::OrderStatus) => order_status += 1,
            Some(TxKind::Delivery) => delivery += 1,
            Some(TxKind::StockLevel) => stock_level += 1,
            None => idle += 1,
        }
    }
    assert_eq!(
        (new_order, payment, order_status, delivery, stock_level, idle),
        (11, 11, 1, 1, 1, 0)
    );
    // The schedule repeats by position, not by sampling.
    assert_eq!(schedule_slot(0), schedule_slot(25));
    assert_eq!(schedule_slot(17), Some(TxKind::Delivery));
}

#[test]
fn measurement_window_is_half_open() {
    assert!(!in_measurement(99, 100, 200));
    assert!(in_measurement(100, 100, 200));
    assert!(in_measurement(199, 100, 200));
    assert!(!in_measurement(200, 100, 200));
}

#[test]
fn new_order_inputs_follow_the_spec_ranges() {
    let mut rand = TpcRandom::new();
    let mut rollbacks = 0;
    let n = 2000;
    for _ in 0..n {
        let req = new_order_input(1, &mut rand);
        assert_eq!(req.warehouse_id, 1);
        assert!((1..=10).contains(&req.district_id));
        assert!((1..=3000).contains(&req.customer_id));
        assert!((5..=15).contains(&req.items.len()));
        for item in &req.items {
            assert!((1..=100_000).contains(&item.item_id));
            assert!((1..=10).contains(&item.quantity));
        }
        if req.inject_rollback {
            rollbacks += 1;
        }
    }
    // Roughly one call in a hundred asks for the rollback.
    assert!(rollbacks > 0 && rollbacks < n / 20, "rollbacks {rollbacks}");
}

#[test]
fn payment_inputs_follow_the_spec_ranges() {
    let mut rand = TpcRandom::new();
    for _ in 0..1000 {
        let req = payment_input(3, 4, 55, &mut rand);
        assert_eq!(req.warehouse_id, 3);
        assert_eq!(req.district_id, 4);
        assert_eq!(req.customer_warehouse_id, 3);
        assert_eq!(req.customer_id, 55);
        assert!((1..=10).contains(&req.customer_district_id));
        assert!((100..=500_000).contains(&req.amount));
    }
}

#[test]
fn customer_selector_mixes_name_and_id() {
    let mut rand = TpcRandom::new();
    let mut by_name = 0;
    let n = 2000;
    for _ in 0..n {
        match customer_selector(&mut rand) {
            CustomerSelector::ByName(name) => {
                by_name += 1;
                assert!(name.len() >= 9 && name.len() <= 15);
                assert!(name.chars().all(|c| c.is_ascii_uppercase()));
            }
            CustomerSelector::ById(cid) => {
                assert!((1..=3000).contains(&cid));
            }
        }
    }
    // Around sixty percent of selections go by surname.
    let share = by_name as f64 / n as f64;
    assert!(share > 0.5 && share < 0.7, "by-name share {share}");
}

#[test]
fn small_input_draws_follow_the_spec_ranges() {
    let mut rand = TpcRandom::new();
    for _ in 0..200 {
        let d = delivery_input(2, &mut rand);
        assert_eq!(d.warehouse_id, 2);
        assert!((1..=10).contains(&d.carrier_id));
        let s = stock_level_input(&mut rand);
        assert!((10..=20).contains(&s.stock_level));
    }
}

fn api_customer(id: i32, first: &str) -> api::Customer {
    api::Customer {
        warehouse_id: 1,
        district_id: 1,
        customer_id: id,
        firstname: first.to_string(),
        lastname: "BARBARBAR".to_string(),
    }
}

#[test]
fn surname_tie_break_takes_the_middle_of_the_sorted_list() {
    let customers = vec![
        api_customer(4, "ANNA"),
        api_customer(2, "BETH"),
        api_customer(9, "CARA"),
    ];
    // Three matches: the middle index is 1.
    assert_eq!(middle_customer(&customers), Some(2));
    let four = vec![
        api_customer(4, "ANNA"),
        api_customer(2, "BETH"),
        api_customer(9, "CARA"),
        api_customer(7, "DORA"),
    ];
    // Four matches: the middle index is 2.
    assert_eq!(middle_customer(&four), Some(9));
    assert_eq!(middle_customer(&Vec::new()), None);
}
