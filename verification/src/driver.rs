//! Workload generator decisions: the per-terminal transaction schedule,
//! input synthesis with the mandated distributions, the measurement-window
//! rule, and the surname-lookup tie-break.
//!
//! The terminal loop itself performs network calls and lives outside; it
//! feeds clock readings and responses in and gets inputs and decisions out.

use vstd::prelude::*;
use crate::api;
use crate::rng::TpcRandom;

verus! {

/// The transaction kinds a terminal can issue.
#[derive(Clone, Copy, PartialEq, Eq, Structural, Debug)]
pub enum TxKind {
    NewOrder,
    Payment,
    OrderStatus,
    Delivery,
    StockLevel,
}

/// The fixed 25-slot weighted schedule: eleven New-Order and eleven
/// Payment slots, one slot each for Order-Status, Delivery and
/// Stock-Level.
pub open spec fn spec_schedule_slot(slot: int) -> Option<TxKind> {
    if slot == 0 || slot == 2 || slot == 4 || slot == 6 || slot == 9 || slot == 11 || slot == 13
        || slot == 15 || slot == 18 || slot == 20 || slot == 22 {
        Some(TxKind::NewOrder)
    } else if slot == 1 || slot == 3 || slot == 5 || slot == 7 || slot == 10 || slot == 12
        || slot == 14 || slot == 16 || slot == 19 || slot == 21 || slot == 23 {
        Some(TxKind::Payment)
    } else if slot == 8 {
        Some(TxKind::OrderStatus)
    } else if slot == 17 {
        Some(TxKind::Delivery)
    } else if slot == 24 {
        Some(TxKind::StockLevel)
    } else {
        None
    }
}

/// The transaction kind for one cycle: the cycle counter's position in the
/// fixed schedule, not a fresh sample.
pub fn schedule_slot(counts: u32) -> (r: Option<TxKind>)
    ensures
        r == spec_schedule_slot(counts as int % 25),
{
    let slot = counts % 25;
    match slot {
        0 | 2 | 4 | 6 | 9 | 11 | 13 | 15 | 18 | 20 | 22 => Some(TxKind::NewOrder),
        1 | 3 | 5 | 7 | 10 | 12 | 14 | 16 | 19 | 21 | 23 => Some(TxKind::Payment),
        8 => Some(TxKind::OrderStatus),
        17 => Some(TxKind::Delivery),
        24 => Some(TxKind::StockLevel),
        _ => None,
    }
}

/// How many of the first `n` schedule slots carry the given kind.
pub open spec fn spec_schedule_count(kind: TxKind, n: int) -> int
    decreases n,
{
    if n <= 0 {
        0
    } else {
        spec_schedule_count(kind, n - 1) + (if spec_schedule_slot(n - 1) == Some(kind) {
            1int
        } else {
            0int
        })
    }
}

/// The transaction mix of one whole schedule round: New-Order and Payment
/// take eleven of twenty-five slots each, Order-Status, Delivery and
/// Stock-Level one slot each.
pub proof fn lemma_schedule_mix()
    ensures
        spec_schedule_count(TxKind::NewOrder, 25) == 11,
        spec_schedule_count(TxKind::Payment, 25) == 11,
        spec_schedule_count(TxKind::OrderStatus, 25) == 1,
        spec_schedule_count(TxKind::Delivery, 25) == 1,
        spec_schedule_count(TxKind::StockLevel, 25) == 1,
{
    reveal_with_fuel(spec_schedule_count, 26);
}

/// Only New-Order completions inside the measurement window count toward
/// the reported throughput: at or after the start, strictly before the end.
pub open spec fn spec_in_measurement(now: i64, start: i64, end: i64) -> bool {
    start <= now < end
}

/// Whether a completion instant falls inside the measurement window.
pub fn in_measurement(now: i64, start: i64, end: i64) -> (r: bool)
    ensures
        r == spec_in_measurement(now, start, end),
{
    start <= now && now < end
}

/// New-Order inputs: five to fifteen lines, item ids non-uniform over the
/// catalog with mask 8191, quantities uniform one to ten, the customer
/// non-uniform with mask 1023, and the rollback flag set on one call in a
/// hundred.
pub fn new_order_input(warehouse_id: i32, rand: &mut TpcRandom) -> (req: api::NewOrderRequest)
    ensures
        req.warehouse_id == warehouse_id,
        req.terminal_id == warehouse_id,
        1 <= req.district_id <= 10,
        1 <= req.customer_id <= 3000,
        5 <= req.items@.len() <= 15,
        forall|i: int| 0 <= i < req.items@.len() ==> {
            &&& 1 <= (#[trigger] req.items@[i]).item_id <= 100_000
            &&& 1 <= req.items@[i].quantity <= 10
        },
{
    let item_count = rand.i32_range(5, 15);
    let mut items: Vec<api::NewOrderRequestItem> = Vec::new();
    let mut k: i32 = 0;
    while k < item_count
        invariant
            0 <= k <= item_count,
            item_count <= 15,
            items@.len() == k,
            forall|i: int| 0 <= i < items@.len() ==> {
                &&& 1 <= (#[trigger] items@[i]).item_id <= 100_000
                &&& 1 <= items@[i].quantity <= 10
            },
        decreases item_count - k,
    {
        let item_id = rand.non_uniform_i32(8191, 1, 100_000);
        let quantity = rand.i32_range(1, 10);
        items.push(api::NewOrderRequestItem { item_id, quantity });
        k = k + 1;
    }
    api::NewOrderRequest {
        terminal_id: warehouse_id,
        warehouse_id,
        district_id: rand.i32_range(1, 10),
        customer_id: rand.non_uniform_i32(1023, 1, 3000),
        items,
        inject_rollback: rand.i32_range(0, 99) == 0,
    }
}

/// How Payment and Order-Status pick their customer: sixty percent by a
/// non-uniformly sampled surname, forty percent by non-uniform id.
pub enum CustomerSelector {
    ByName(String),
    ById(i32),
}

/// Draw the customer selector with the mandated mix and distributions.
pub fn customer_selector(rand: &mut TpcRandom) -> (r: CustomerSelector)
    ensures
        match r {
            CustomerSelector::ByName(name) => exists|idx: int|
                0 <= idx <= 999 && name@ == #[trigger] crate::rng::spec_last_name(idx),
            CustomerSelector::ById(cid) => 1 <= cid <= 3000,
        },
{
    if rand.i32_range(1, 100) <= 60 {
        let name_idx = rand.non_uniform_i32(255, 0, 999);
        let name = TpcRandom::last_name(name_idx);
        proof {
            assert(name@ == crate::rng::spec_last_name(name_idx as int));
        }
        CustomerSelector::ByName(name)
    } else {
        CustomerSelector::ById(rand.non_uniform_i32(1023, 1, 3000))
    }
}

/// Payment inputs: home district, customer by the mandated selector mix
/// (already resolved to an id), amount uniform over the fixed monetary
/// range in cents.
pub fn payment_input(
    warehouse_id: i32,
    district_id: i32,
    customer_id: i32,
    rand: &mut TpcRandom,
) -> (req: api::PaymentRequest)
    requires
        1 <= district_id <= 10,
    ensures
        req.warehouse_id == warehouse_id,
        req.terminal_id == warehouse_id,
        req.district_id == district_id,
        req.customer_warehouse_id == warehouse_id,
        req.customer_id == customer_id,
        1 <= req.customer_district_id <= 10,
        100 <= req.amount <= 500_000,
{
    // Eighty-five percent home district, the rest a district drawn anew;
    // the warehouse stays home, a known simplification of remote payment.
    let customer_district_id = if rand.i32_range(1, 100) <= 85 {
        district_id
    } else {
        rand.i32_range(1, 10)
    };
    api::PaymentRequest {
        terminal_id: warehouse_id,
        warehouse_id,
        district_id,
        customer_warehouse_id: warehouse_id,
        customer_district_id,
        customer_id,
        amount: rand.i32_range(100, 500_000) as i64,
    }
}

/// Delivery inputs: carrier uniform over one to ten.
pub fn delivery_input(warehouse_id: i32, rand: &mut TpcRandom) -> (req: api::DeliveryRequest)
    ensures
        req.warehouse_id == warehouse_id,
        1 <= req.carrier_id <= 10,
{
    api::DeliveryRequest { warehouse_id, carrier_id: rand.i32_range(1, 10) }
}

/// Stock-Level threshold: uniform over ten to twenty.
pub fn stock_level_input(rand: &mut TpcRandom) -> (params: api::StockLevelParams)
    ensures
        10 <= params.stock_level <= 20,
{
    api::StockLevelParams { stock_level: rand.i32_range(10, 20) }
}

/// The surname lookup's mandated tie-break: of the customers sharing the
/// surname, ordered by first name, take the one at the middle index.
pub fn middle_customer(customers: &Vec<api::Customer>) -> (r: Option<i32>)
    ensures
        match r {
            Some(cid) => customers@.len() > 0 && cid == customers@[customers@.len() as int
                / 2].customer_id,
            None => customers@.len() == 0,
        },
{
    if customers.len() == 0 {
        None
    } else {
        Some(customers[customers.len() / 2].customer_id)
    }
}

} // verus!
