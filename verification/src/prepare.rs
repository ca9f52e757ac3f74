//! Bulk synthetic data generation: the deterministic initial state of the
//! benchmark, built with the random distribution module.
//!
//! A scale factor of `n` yields the fixed item catalog and `n` warehouses,
//! each with one stock row per item and ten districts; every district gets
//! its fixed complement of customers and orders, with orders above the
//! delivered threshold left pending on the new-order queue.

use vstd::prelude::*;
use crate::model::{Credit, Customer, District, History, Item, Order, OrderLine, Stock, TpccDb,
    Warehouse};
use vstd::string::StringExecFns;
use crate::rng::{spec_last_name, TpcRandom};

verus! {

/// Orders with ids at or below this are created already delivered.
pub const DELIVERED_THRESHOLD: i32 = 2100;

/// Items in the catalog.
pub const ITEM_COUNT: i32 = 100_000;

/// Stock rows per warehouse.
pub const STOCKS_PER_WAREHOUSE: i32 = 100_000;

/// Districts per warehouse.
pub const DISTRICTS_PER_WAREHOUSE: i32 = 10;

/// Customers per district.
pub const CUSTOMERS_PER_DISTRICT: i32 = 3_000;

/// Orders per district.
pub const ORDERS_PER_DISTRICT: i32 = 3_000;

/// The largest scale factor one preparation accepts: a resource bound of
/// the in-memory store, far below the model's structural limits.
pub const MAX_SCALE_FACTOR: i32 = 1000;

impl Item {
    /// Build the item catalog: `num` rows with dense ids.
    pub fn prepare(num: i32, rand: &mut TpcRandom) -> (items: Vec<Item>)
        requires
            0 <= num <= 10_000_000,
        ensures
            items@.len() == num,
            forall|i: int| 0 <= i < items@.len() ==> (#[trigger] items@[i]).wf(i),
            forall|i: int| 0 <= i < items@.len() ==> {
                let it = #[trigger] items@[i];
                &&& 1 <= it.i_im_id <= 10_000
                &&& 14 <= it.i_name@.len() <= 24
                &&& 26 <= it.i_data@.len() <= 50
            },
    {
        let mut items: Vec<Item> = Vec::new();
        let mut i: i32 = 0;
        while i < num
            invariant
                0 <= i <= num,
                items@.len() == i,
                forall|j: int| 0 <= j < items@.len() ==> (#[trigger] items@[j]).wf(j),
                forall|j: int| 0 <= j < items@.len() ==> {
                    let it = #[trigger] items@[j];
                    &&& 1 <= it.i_im_id <= 10_000
                    &&& 14 <= it.i_name@.len() <= 24
                    &&& 26 <= it.i_data@.len() <= 50
                },
            decreases num - i,
        {
            let item = Item {
                i_id: i + 1,
                i_im_id: rand.i32_range(1, 10_000),
                i_name: rand.alnum_string(14, 24),
                i_price: rand.i32_range(100, 10_000) as i64,
                i_data: rand.item_data(),
            };
            items.push(item);
            i = i + 1;
        }
        items
    }
}

/// A stock row as the load creates it: quantity drawn from the initial
/// range, counters at zero, ten 24-character district info strings.
pub open spec fn spec_fresh_stock(st: Stock) -> bool {
    &&& 10 <= st.s_quantity <= 100
    &&& st.s_ytd == 0
    &&& st.s_order_cnt == 0
    &&& st.s_remote_cnt == 0
    &&& forall|d: int| 0 <= d < st.s_dists@.len() ==> (#[trigger] st.s_dists@[d])@.len() == 24
}

impl Stock {
    /// Build `num` stock rows for one warehouse, one per item.
    fn prepare(warehouse_id: i32, num: i32, rand: &mut TpcRandom) -> (stocks: Vec<Stock>)
        requires
            0 <= num <= 1_000_000,
        ensures
            stocks@.len() == num,
            forall|i: int| 0 <= i < stocks@.len()
                ==> (#[trigger] stocks@[i]).wf(warehouse_id as int, i),
            forall|i: int| 0 <= i < stocks@.len() ==> spec_fresh_stock(#[trigger] stocks@[i]),
    {
        let mut stocks: Vec<Stock> = Vec::new();
        let mut i: i32 = 0;
        while i < num
            invariant
                0 <= i <= num,
                stocks@.len() == i,
                forall|j: int| 0 <= j < stocks@.len()
                    ==> (#[trigger] stocks@[j]).wf(warehouse_id as int, j),
                forall|j: int| 0 <= j < stocks@.len() ==> spec_fresh_stock(#[trigger] stocks@[j]),
            decreases num - i,
        {
            let mut dists: Vec<String> = Vec::new();
            let mut k: usize = 0;
            while k < 10
                invariant
                    k <= 10,
                    dists@.len() == k,
                    forall|j: int| 0 <= j < dists@.len() ==> (#[trigger] dists@[j])@.len() == 24,
                decreases 10 - k,
            {
                let d = rand.alnum_string(24, 24);
                dists.push(d);
                k = k + 1;
            }
            let stock = Stock {
                s_i_id: i + 1,
                s_w_id: warehouse_id,
                s_quantity: rand.i32_range(10, 100),
                s_dists: dists,
                s_ytd: 0,
                s_order_cnt: 0,
                s_remote_cnt: 0,
                s_data: rand.item_data(),
            };
            stocks.push(stock);
            i = i + 1;
        }
        stocks
    }
}

/// An order as the load creates it for 0-based index `idx`: five to
/// fifteen lines of quantity five supplied by the home warehouse, item
/// ids drawn over the catalog; below the delivered threshold the order
/// carries a carrier in one to ten and zero-amount lines stamped with the
/// shared preparation instant, above it the lines are unstamped with a
/// drawn amount.
pub open spec fn spec_fresh_order(o: Order, idx: int, now_ms: i64) -> bool {
    &&& 5 <= o.lines@.len() <= 15
    &&& (idx < DELIVERED_THRESHOLD ==> o.o_carrier_id is Some && 1 <= o.o_carrier_id->0 <= 10)
    &&& o.o_entry_d == now_ms
    &&& forall|li: int| 0 <= li < o.lines@.len() ==> {
        let l = #[trigger] o.lines@[li];
        &&& l.ol_quantity == 5
        &&& l.ol_supply_w_id == o.o_w_id
        &&& 1 <= l.ol_i_id <= 100_000
        &&& if idx < DELIVERED_THRESHOLD {
            l.ol_amount == 0 && l.ol_delivery_d == Some(now_ms)
        } else {
            l.ol_delivery_d is None && 1 <= l.ol_amount <= 999_999
        }
    }
}

/// A customer row as the load creates it: the initial balance of minus
/// ten dollars, ten dollars year-to-date, one payment, no deliveries, the
/// fixed middle name and the standard credit limit.
pub open spec fn spec_fresh_customer(c: Customer, now_ms: i64) -> bool {
    &&& c.c_balance == -1000
    &&& c.c_ytd_payment == 1000
    &&& c.c_payment_cnt == 1
    &&& c.c_delivery_cnt == 0
    &&& c.c_middle@ == "OE"@
    &&& c.c_credit_lim == 5_000_000
    &&& c.c_since == now_ms
}

/// A ledger row as the load creates it for customer `c_id` of the
/// district: the ten-dollar opening payment under the customer's own key.
pub open spec fn spec_fresh_history(h: History, w_id: i32, d_id: i32, c_id: int, now_ms: i64) -> bool {
    &&& h.h_c_id == c_id
    &&& h.h_c_d_id == d_id
    &&& h.h_c_w_id == w_id
    &&& h.h_d_id == d_id
    &&& h.h_w_id == w_id
    &&& h.h_date == now_ms
    &&& h.h_amount == 1000
}

impl District {
    /// Build one empty district row.
    fn prepare(warehouse_id: i32, district_id: i32, rand: &mut TpcRandom) -> (d: District)
        requires
            district_id >= 1,
        ensures
            d.wf(warehouse_id as int, district_id - 1),
            d.customers@.len() == 0,
            d.orders@.len() == 0,
            d.new_orders@.len() == 0,
            d.d_id == district_id,
            d.d_w_id == warehouse_id,
            d.d_ytd == 3_000_000,
    {
        District {
            d_id: district_id,
            d_w_id: warehouse_id,
            d_name: rand.alnum_string(6, 10),
            d_street_1: rand.alnum_string(10, 20),
            d_street_2: rand.alnum_string(10, 20),
            d_city: rand.alnum_string(10, 20),
            d_state: rand.alnum_string(2, 2),
            d_zip: rand.zip_code(),
            d_tax: rand.i32_range(0, 2000) as i64,
            d_ytd: 3_000_000,
            d_next_o_id: 1,
            customers: Vec::new(),
            orders: Vec::new(),
            new_orders: Vec::new(),
        }
    }

    /// Fill the district with `num` customers and their initial ledger
    /// rows. The first 999 customers get the deterministic surnames in
    /// index order; later ones get non-uniformly sampled surnames.
    #[verifier::loop_isolation(false)]
    pub fn prepare_customers(
        &mut self,
        num: i32,
        rand: &mut TpcRandom,
        now_ms: i64,
        histories: &mut Vec<History>,
    ) -> (n: i32)
        requires
            old(self).inv(),
            old(self).customers@.len() == 0,
            0 <= num <= 1_000_000,
        ensures
            n == num,
            final(self).inv(),
            final(self).customers@.len() == num,
            forall|i: int| 0 <= i < 999 && i < num
                ==> (#[trigger] final(self).customers@[i]).c_last@ == spec_last_name(i + 1),
            forall|i: int| 0 <= i < num ==> spec_fresh_customer(
                #[trigger] final(self).customers@[i],
                now_ms,
            ),
            final(self).orders@ == old(self).orders@,
            final(self).new_orders@ == old(self).new_orders@,
            final(self).d_next_o_id == old(self).d_next_o_id,
            final(self).d_id == old(self).d_id,
            final(self).d_w_id == old(self).d_w_id,
            final(histories)@.len() == old(histories)@.len() + num,
            forall|j: int| 0 <= j < old(histories)@.len() ==> #[trigger] final(histories)@[j]
                == old(histories)@[j],
            forall|k: int| 0 <= k < num ==> spec_fresh_history(
                #[trigger] final(histories)@[old(histories)@.len() + k],
                old(self).d_w_id,
                old(self).d_id,
                k + 1,
                now_ms,
            ),
    {
        let warehouse_id = self.d_w_id;
        let district_id = self.d_id;
        let mut i: i32 = 0;
        while i < num
            invariant
                0 <= i <= num,
                self.customers@.len() == i,
                forall|j: int| 0 <= j < self.customers@.len() ==> (
                #[trigger] self.customers@[j]).wf(
                    warehouse_id as int,
                    district_id as int,
                    j,
                ),
                forall|j: int| 0 <= j < 999 && j < i
                    ==> (#[trigger] self.customers@[j]).c_last@ == spec_last_name(j + 1),
                forall|j: int| 0 <= j < i ==> spec_fresh_customer(
                    #[trigger] self.customers@[j],
                    now_ms,
                ),
                self.orders@ == old(self).orders@,
                self.new_orders@ == old(self).new_orders@,
                self.d_next_o_id == old(self).d_next_o_id,
                self.d_id == old(self).d_id,
                self.d_w_id == old(self).d_w_id,
                self.d_name == old(self).d_name,
                self.d_street_1 == old(self).d_street_1,
                self.d_street_2 == old(self).d_street_2,
                self.d_city == old(self).d_city,
                self.d_state == old(self).d_state,
                self.d_zip == old(self).d_zip,
                self.d_tax == old(self).d_tax,
                self.d_ytd == old(self).d_ytd,
                histories@.len() == old(histories)@.len() + i,
                forall|j: int| 0 <= j < old(histories)@.len() ==> #[trigger] histories@[j]
                    == old(histories)@[j],
                forall|k: int| 0 <= k < i ==> spec_fresh_history(
                    #[trigger] histories@[old(histories)@.len() + k],
                    warehouse_id,
                    district_id,
                    k + 1,
                    now_ms,
                ),
            decreases num - i,
        {
            let credit = if rand.i32_range(0, 9) == 0 {
                Credit::Good
            } else {
                Credit::Bad
            };
            let c_last = if i < 999 {
                TpcRandom::last_name(i + 1)
            } else {
                TpcRandom::last_name(rand.non_uniform_i32(255, 0, 999))
            };
            let customer = Customer {
                c_id: i + 1,
                c_d_id: district_id,
                c_w_id: warehouse_id,
                c_first: rand.alnum_string(8, 16),
                c_middle: String::from_str("OE"),
                c_last,
                c_street_1: rand.alnum_string(10, 20),
                c_street_2: rand.alnum_string(10, 20),
                c_city: rand.alnum_string(10, 20),
                c_state: rand.alnum_string(2, 2),
                c_zip: rand.zip_code(),
                c_phone: rand.num_string(16),
                c_since: now_ms,
                c_credit: credit,
                c_credit_lim: 5_000_000,
                c_discount: rand.i32_range(0, 5000) as i64,
                c_balance: -1000,
                c_ytd_payment: 1000,
                c_payment_cnt: 1,
                c_delivery_cnt: 0,
                c_data: rand.alnum_string(300, 500),
            };
            self.customers.push(customer);
            histories.push(History {
                h_c_id: i + 1,
                h_c_d_id: district_id,
                h_c_w_id: warehouse_id,
                h_d_id: district_id,
                h_w_id: warehouse_id,
                h_date: now_ms,
                h_amount: 1000,
                h_data: rand.alnum_string(12, 24),
            });
            i = i + 1;
        }
        num
    }

    /// Fill the district with `num` orders. Orders up to the delivered
    /// threshold are created delivered, with a carrier and zero-amount
    /// stamped lines; the rest stay pending on the new-order queue.
    #[verifier::loop_isolation(false)]
    pub fn prepare_orders(&mut self, num: i32, rand: &mut TpcRandom, now_ms: i64) -> (n: i32)
        requires
            old(self).inv(),
            old(self).orders@.len() == 0,
            old(self).new_orders@.len() == 0,
            0 <= num,
            num as int + 1 <= i32::MAX,
            num > 0 ==> old(self).customers@.len() >= 1,
        ensures
            n == num,
            final(self).inv(),
            final(self).orders@.len() == num,
            final(self).d_next_o_id == num + 1,
            final(self).customers@ == old(self).customers@,
            final(self).d_id == old(self).d_id,
            final(self).d_w_id == old(self).d_w_id,
            final(self).new_orders@.len() == (if num > DELIVERED_THRESHOLD {
                num - DELIVERED_THRESHOLD
            } else {
                0int
            }),
            forall|k: int| 0 <= k < final(self).new_orders@.len()
                ==> final(self).new_orders@[k] == DELIVERED_THRESHOLD + 1 + k,
            forall|i: int| 0 <= i < num
                ==> ((#[trigger] final(self).orders@[i]).o_carrier_id is None <==> i
                    >= DELIVERED_THRESHOLD),
            forall|i: int| 0 <= i < num ==> spec_fresh_order(
                #[trigger] final(self).orders@[i],
                i,
                now_ms,
            ),
    {
        let warehouse_id = self.d_w_id;
        let district_id = self.d_id;
        let n_customers = self.customers.len() as i32;
        let mut i: i32 = 0;
        while i < num
            invariant
                0 <= i <= num,
                self.orders@.len() == i,
                self.d_next_o_id == i + 1,
                self.customers@ == old(self).customers@,
                self.d_id == old(self).d_id,
                self.d_w_id == old(self).d_w_id,
                self.d_name == old(self).d_name,
                self.d_street_1 == old(self).d_street_1,
                self.d_street_2 == old(self).d_street_2,
                self.d_city == old(self).d_city,
                self.d_state == old(self).d_state,
                self.d_zip == old(self).d_zip,
                self.d_tax == old(self).d_tax,
                self.d_ytd == old(self).d_ytd,
                forall|j: int| 0 <= j < self.orders@.len() ==> (#[trigger] self.orders@[j]).wf(
                    warehouse_id as int,
                    district_id as int,
                    j,
                    self.customers@.len() as int,
                ),
                forall|j: int| 0 <= j < self.orders@.len()
                    ==> ((#[trigger] self.orders@[j]).o_carrier_id is None <==> j
                        >= DELIVERED_THRESHOLD),
                forall|j: int| 0 <= j < self.orders@.len() ==> spec_fresh_order(
                    #[trigger] self.orders@[j],
                    j,
                    now_ms,
                ),
                self.new_orders@.len() == (if i > DELIVERED_THRESHOLD {
                    i - DELIVERED_THRESHOLD
                } else {
                    0int
                }),
                forall|k: int| 0 <= k < self.new_orders@.len()
                    ==> #[trigger] self.new_orders@[k] == DELIVERED_THRESHOLD + 1 + k,
            decreases num - i,
        {
            let o_id = i + 1;
            let delivered = o_id <= DELIVERED_THRESHOLD;
            let carrier = if delivered {
                Some(rand.i32_range(1, 10))
            } else {
                None
            };
            let line_count = rand.i32_range(5, 15);
            let mut lines: Vec<OrderLine> = Vec::new();
            let mut li: i32 = 0;
            while li < line_count
                invariant
                    0 <= li <= line_count,
                    lines@.len() == li,
                    forall|j: int| 0 <= j < lines@.len() ==> (#[trigger] lines@[j]).wf(),
                    forall|j: int| 0 <= j < lines@.len() ==> {
                        let l = #[trigger] lines@[j];
                        &&& l.ol_supply_w_id == warehouse_id
                        &&& l.ol_quantity == 5
                        &&& 1 <= l.ol_i_id <= 100_000
                        &&& if delivered {
                            l.ol_amount == 0 && l.ol_delivery_d == Some(now_ms)
                        } else {
                            l.ol_delivery_d is None && 1 <= l.ol_amount <= 999_999
                        }
                    },
                decreases line_count - li,
            {
                let amount: i64 = if delivered {
                    0
                } else {
                    rand.i32_range(1, 999_999) as i64
                };
                let line = OrderLine {
                    ol_number: li,
                    ol_i_id: rand.i32_range(1, 100_000),
                    ol_supply_w_id: warehouse_id,
                    ol_delivery_d: if delivered {
                        Some(now_ms)
                    } else {
                        None
                    },
                    ol_quantity: 5,
                    ol_amount: amount,
                    ol_dist_info: rand.alnum_string(24, 24),
                };
                lines.push(line);
                li = li + 1;
            }
            let order = Order {
                o_id,
                o_d_id: district_id,
                o_w_id: warehouse_id,
                o_c_id: rand.i32_range(1, n_customers),
                o_entry_d: now_ms,
                o_carrier_id: carrier,
                o_all_local: true,
                lines,
            };
            self.orders.push(order);
            self.d_next_o_id = o_id + 1;
            if !delivered {
                self.new_orders.push(o_id);
            }
            i = i + 1;
        }
        proof {
            lemma_prepared_orders_wf(*self, warehouse_id as int, district_id as int);
        }
        num
    }
}

/// A freshly prepared district meets the queue invariant: exactly the
/// undelivered orders are queued, in ascending order.
proof fn lemma_prepared_orders_wf(d: District, w_id: int, d_id: int)
    requires
        d.d_w_id == w_id,
        d.d_id == d_id,
        0 <= d.d_tax <= 2000,
        d.d_ytd >= 0,
        d.customers@.len() <= 1_000_000,
        forall|i: int| 0 <= i < d.customers@.len() ==> (#[trigger] d.customers@[i]).wf(
            w_id,
            d_id,
            i,
        ),
        d.d_next_o_id == d.orders@.len() + 1,
        d.orders@.len() + 1 <= i32::MAX,
        forall|i: int| 0 <= i < d.orders@.len() ==> (#[trigger] d.orders@[i]).wf(
            w_id,
            d_id,
            i,
            d.customers@.len() as int,
        ),
        forall|j: int| 0 <= j < d.orders@.len() ==> ((#[trigger] d.orders@[j]).o_carrier_id is None
            <==> j >= DELIVERED_THRESHOLD),
        d.new_orders@.len() == (if d.orders@.len() > DELIVERED_THRESHOLD {
            d.orders@.len() - DELIVERED_THRESHOLD
        } else {
            0int
        }),
        forall|k: int| 0 <= k < d.new_orders@.len() ==> #[trigger] d.new_orders@[k]
            == DELIVERED_THRESHOLD + 1 + k,
    ensures
        d.wf(w_id, d_id - 1),
{
    assert forall|oid: int| 1 <= oid <= d.orders@.len() implies (d.new_orders@.contains(oid as i32)
        <==> (#[trigger] d.orders@[oid - 1]).o_carrier_id is None) by {
        if oid > DELIVERED_THRESHOLD {
            let k = oid - DELIVERED_THRESHOLD - 1;
            assert(d.new_orders@[k] == oid as i32);
        } else {
            if d.new_orders@.contains(oid as i32) {
                let k = choose|k: int| 0 <= k < d.new_orders@.len() && d.new_orders@[k]
                    == oid as i32;
                assert(d.new_orders@[k] == DELIVERED_THRESHOLD + 1 + k);
            }
        }
    }
}

impl Warehouse {
    /// Build one empty warehouse row.
    pub fn prepare(w_id: i32, rand: &mut TpcRandom) -> (w: Warehouse)
        requires
            w_id >= 1,
        ensures
            w.inv(),
            w.w_id == w_id,
            w.stocks@.len() == 0,
            w.districts@.len() == 0,
            w.w_ytd == 30_000_000,
    {
        Warehouse {
            w_id,
            w_name: rand.alnum_string(6, 10),
            w_street_1: rand.alnum_string(10, 20),
            w_street_2: rand.alnum_string(10, 20),
            w_city: rand.alnum_string(10, 20),
            w_state: rand.alnum_string(2, 2),
            w_zip: rand.zip_code(),
            w_tax: rand.i32_range(0, 2000) as i64,
            w_ytd: 30_000_000,
            stocks: Vec::new(),
            districts: Vec::new(),
        }
    }

    /// Fill the warehouse with `num` stock rows, one per item.
    pub fn prepare_stocks(&mut self, num: i32, rand: &mut TpcRandom) -> (n: i32)
        requires
            old(self).inv(),
            old(self).stocks@.len() == 0,
            0 <= num <= 1_000_000,
        ensures
            n == num,
            final(self).inv(),
            final(self).stocks@.len() == num,
            forall|i: int| 0 <= i < final(self).stocks@.len() ==> spec_fresh_stock(
                #[trigger] final(self).stocks@[i],
            ),
            final(self).districts@ == old(self).districts@,
            final(self).w_id == old(self).w_id,
    {
        let stocks = Stock::prepare(self.w_id, num, rand);
        self.stocks = stocks;
        num
    }

    /// Fill the warehouse with `num` empty districts.
    #[verifier::loop_isolation(false)]
    pub fn prepare_districts(&mut self, num: i32, rand: &mut TpcRandom) -> (n: i32)
        requires
            old(self).inv(),
            old(self).districts@.len() == 0,
            0 <= num <= 10,
        ensures
            n == num,
            final(self).inv(),
            final(self).districts@.len() == num,
            final(self).stocks@ == old(self).stocks@,
            final(self).w_id == old(self).w_id,
            forall|i: int| 0 <= i < num ==> {
                &&& (#[trigger] final(self).districts@[i]).customers@.len() == 0
                &&& final(self).districts@[i].orders@.len() == 0
                &&& final(self).districts@[i].new_orders@.len() == 0
                &&& final(self).districts@[i].d_ytd == 3_000_000
            },
    {
        let mut i: i32 = 0;
        while i < num
            invariant
                0 <= i <= num,
                self.districts@.len() == i,
                self.stocks@ == old(self).stocks@,
                self.w_id == old(self).w_id,
                self.w_name == old(self).w_name,
                self.w_street_1 == old(self).w_street_1,
                self.w_street_2 == old(self).w_street_2,
                self.w_city == old(self).w_city,
                self.w_state == old(self).w_state,
                self.w_zip == old(self).w_zip,
                self.w_tax == old(self).w_tax,
                self.w_ytd == old(self).w_ytd,
                forall|j: int| 0 <= j < self.districts@.len() ==> {
                    &&& (#[trigger] self.districts@[j]).wf(self.w_id as int, j)
                    &&& self.districts@[j].customers@.len() == 0
                    &&& self.districts@[j].orders@.len() == 0
                    &&& self.districts@[j].new_orders@.len() == 0
                    &&& self.districts@[j].d_ytd == 3_000_000
                },
            decreases num - i,
        {
            let d = District::prepare(self.w_id, i + 1, rand);
            self.districts.push(d);
            i = i + 1;
        }
        num
    }
}

} // verus!

verus! {

/// The initial state that preparation with a given scale factor yields:
/// the fixed item catalog; per warehouse a full stock and ten districts;
/// per district its customers (the first 999 with the deterministic
/// surnames) and its orders, those above the threshold pending.
pub open spec fn spec_prepared(db: TpccDb, sf: int) -> bool {
    &&& db.items@.len() == ITEM_COUNT
    &&& db.warehouses@.len() == sf
    &&& db.histories@.len() == sf * DISTRICTS_PER_WAREHOUSE * CUSTOMERS_PER_DISTRICT
    &&& forall|w: int| 0 <= w < sf ==> {
        let wh = #[trigger] db.warehouses@[w];
        &&& wh.stocks@.len() == STOCKS_PER_WAREHOUSE
        &&& wh.districts@.len() == DISTRICTS_PER_WAREHOUSE
        &&& forall|d: int| 0 <= d < wh.districts@.len() ==> {
            let dd = #[trigger] wh.districts@[d];
            &&& dd.customers@.len() == CUSTOMERS_PER_DISTRICT
            &&& dd.orders@.len() == ORDERS_PER_DISTRICT
            &&& dd.d_next_o_id == ORDERS_PER_DISTRICT + 1
            &&& dd.new_orders@.len() == ORDERS_PER_DISTRICT - DELIVERED_THRESHOLD
            &&& forall|k: int| 0 <= k < dd.new_orders@.len() ==> #[trigger] dd.new_orders@[k]
                == DELIVERED_THRESHOLD + 1 + k
            &&& forall|i: int| 0 <= i < 999 ==> (#[trigger] dd.customers@[i]).c_last@
                == spec_last_name(i + 1)
        }
    }
}

/// Prepare the initial records on an empty store: the item catalog, then
/// per warehouse its stock rows and districts, and per district its
/// customers and orders.
#[verifier::loop_isolation(false)]
pub fn prepare(scale_factor: i32, rand: &mut TpcRandom, now_ms: i64, db: &mut TpccDb)
    requires
        old(db).items@.len() == 0,
        old(db).warehouses@.len() == 0,
        old(db).histories@.len() == 0,
        0 <= scale_factor <= MAX_SCALE_FACTOR,
    ensures
        final(db).wf(),
        spec_prepared(*final(db), scale_factor as int),
{
    let items = Item::prepare(ITEM_COUNT, rand);
    db.items = items;

    let mut w: i32 = 0;
    while w < scale_factor
        invariant
            0 <= w <= scale_factor,
            db.items@.len() == ITEM_COUNT,
            forall|i: int| 0 <= i < db.items@.len() ==> (#[trigger] db.items@[i]).wf(i),
            db.warehouses@.len() == w,
            db.histories@.len() == w * DISTRICTS_PER_WAREHOUSE * CUSTOMERS_PER_DISTRICT,
            forall|j: int| 0 <= j < db.warehouses@.len() ==> (#[trigger] db.warehouses@[j]).wf(j),
            forall|j: int| 0 <= j < w ==> {
                let wh = #[trigger] db.warehouses@[j];
                &&& wh.stocks@.len() == STOCKS_PER_WAREHOUSE
                &&& wh.districts@.len() == DISTRICTS_PER_WAREHOUSE
                &&& forall|d: int| 0 <= d < wh.districts@.len() ==> {
                    let dd = #[trigger] wh.districts@[d];
                    &&& dd.customers@.len() == CUSTOMERS_PER_DISTRICT
                    &&& dd.orders@.len() == ORDERS_PER_DISTRICT
                    &&& dd.d_next_o_id == ORDERS_PER_DISTRICT + 1
                    &&& dd.new_orders@.len() == ORDERS_PER_DISTRICT - DELIVERED_THRESHOLD
                    &&& forall|k: int| 0 <= k < dd.new_orders@.len()
                        ==> #[trigger] dd.new_orders@[k] == DELIVERED_THRESHOLD + 1 + k
                    &&& forall|i: int| 0 <= i < 999 ==> (#[trigger] dd.customers@[i]).c_last@
                        == spec_last_name(i + 1)
                }
            },
        decreases scale_factor - w,
    {
        let mut warehouse = Warehouse::prepare(w + 1, rand);
        warehouse.prepare_stocks(STOCKS_PER_WAREHOUSE, rand);
        warehouse.prepare_districts(DISTRICTS_PER_WAREHOUSE, rand);
        let ghost warehouses0 = db.warehouses@;
        let mut d: usize = 0;
        while d < warehouse.districts.len()
            invariant
                db.items@.len() == ITEM_COUNT,
                forall|i: int| 0 <= i < db.items@.len() ==> (#[trigger] db.items@[i]).wf(i),
                db.warehouses@ == warehouses0,
                warehouse.inv(),
                warehouse.w_id == w + 1,
                warehouse.stocks@.len() == STOCKS_PER_WAREHOUSE,
                warehouse.districts@.len() == DISTRICTS_PER_WAREHOUSE,
                d <= warehouse.districts@.len(),
                db.histories@.len() == w * DISTRICTS_PER_WAREHOUSE * CUSTOMERS_PER_DISTRICT + d
                    * CUSTOMERS_PER_DISTRICT,
                forall|j: int| d <= j < warehouse.districts@.len() ==> {
                    &&& (#[trigger] warehouse.districts@[j]).customers@.len() == 0
                    &&& warehouse.districts@[j].orders@.len() == 0
                    &&& warehouse.districts@[j].new_orders@.len() == 0
                },
                forall|j: int| 0 <= j < d ==> {
                    let dd = #[trigger] warehouse.districts@[j];
                    &&& dd.customers@.len() == CUSTOMERS_PER_DISTRICT
                    &&& dd.orders@.len() == ORDERS_PER_DISTRICT
                    &&& dd.d_next_o_id == ORDERS_PER_DISTRICT + 1
                    &&& dd.new_orders@.len() == ORDERS_PER_DISTRICT - DELIVERED_THRESHOLD
                    &&& forall|k: int| 0 <= k < dd.new_orders@.len()
                        ==> #[trigger] dd.new_orders@[k] == DELIVERED_THRESHOLD + 1 + k
                    &&& forall|i: int| 0 <= i < 999 ==> (#[trigger] dd.customers@[i]).c_last@
                        == spec_last_name(i + 1)
                },
            decreases warehouse.districts@.len() - d,
        {
            let district = vstd::std_specs::vec::vec_index_mut(&mut warehouse.districts, d);
            district.prepare_customers(CUSTOMERS_PER_DISTRICT, rand, now_ms, &mut db.histories);
            district.prepare_orders(ORDERS_PER_DISTRICT, rand, now_ms);
            d = d + 1;
        }
        db.warehouses.push(warehouse);
        w = w + 1;
    }
}

} // verus!
