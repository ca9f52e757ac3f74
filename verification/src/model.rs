//! The relational schema of the benchmark, held as an in-memory store.
//!
//! Identifiers are dense: item, warehouse, district, customer, stock and
//! order rows with id `k` sit at index `k - 1` of their vector, which makes
//! the district's `next_order_id` counter exactly `orders.len() + 1`.
//! Monetary values are integer cents; rates are basis points (1/100 of a
//! percent); timestamps are milliseconds.

use vstd::prelude::*;
use vstd::utf8::is_ascii_chars;
use crate::error::Error;

verus! {

/// Sales item of the global catalog, immutable after load.
pub struct Item {
    pub i_id: i32,
    pub i_im_id: i32,
    pub i_name: String,
    /// Price in cents.
    pub i_price: i64,
    pub i_data: String,
}

impl Item {
    /// Catalog prices lie between 1.00 and 100.00.
    pub open spec fn wf(&self, idx: int) -> bool {
        &&& self.i_id == idx + 1
        &&& 100 <= self.i_price <= 10000
    }
}

/// Stock of one item in one warehouse.
pub struct Stock {
    pub s_i_id: i32,
    pub s_w_id: i32,
    pub s_quantity: i32,
    /// One info string per district of the warehouse.
    pub s_dists: Vec<String>,
    /// Year-to-date quantity sold, clamped at the 64-bit top.
    pub s_ytd: i64,
    /// Number of orders that allocated from this row, clamped.
    pub s_order_cnt: i64,
    /// Number of remote-warehouse orders among them, clamped.
    pub s_remote_cnt: i64,
    pub s_data: String,
}

impl Stock {
    /// The replenishment rule keeps the quantity within `[1, 191]`.
    pub open spec fn wf(&self, w_id: int, idx: int) -> bool {
        &&& self.s_i_id == idx + 1
        &&& self.s_w_id == w_id
        &&& 1 <= self.s_quantity <= 191
        &&& self.s_dists@.len() == 10
        &&& self.s_ytd >= 0
        &&& self.s_order_cnt >= 0
        &&& self.s_remote_cnt >= 0
    }
}

/// Credit standing of a customer.
#[derive(Clone, Copy, PartialEq, Eq, Structural, Debug)]
pub enum Credit {
    Good,
    Bad,
}

/// Customer of one district.
pub struct Customer {
    pub c_id: i32,
    pub c_d_id: i32,
    pub c_w_id: i32,
    pub c_first: String,
    pub c_middle: String,
    pub c_last: String,
    pub c_street_1: String,
    pub c_street_2: String,
    pub c_city: String,
    pub c_state: String,
    pub c_zip: String,
    pub c_phone: String,
    pub c_since: i64,
    pub c_credit: Credit,
    pub c_credit_lim: i64,
    /// Discount rate in basis points.
    pub c_discount: i64,
    /// Balance in cents; decreased by Payment, increased by Delivery.
    pub c_balance: i64,
    /// Year-to-date payment in cents, clamped at the 64-bit top.
    pub c_ytd_payment: i64,
    pub c_payment_cnt: i64,
    pub c_delivery_cnt: i64,
    /// Free-form data blob; rewritten by Payment on bad credit.
    pub c_data: String,
}

impl Customer {
    pub open spec fn wf(&self, w_id: int, d_id: int, idx: int) -> bool {
        &&& self.c_id == idx + 1
        &&& self.c_d_id == d_id
        &&& self.c_w_id == w_id
        &&& 0 <= self.c_discount <= 5000
        &&& is_ascii_chars(self.c_first@)
        &&& is_ascii_chars(self.c_data@)
        &&& self.c_payment_cnt >= 0
        &&& self.c_delivery_cnt >= 0
    }
}

/// One line of an order.
pub struct OrderLine {
    pub ol_number: i32,
    pub ol_i_id: i32,
    pub ol_supply_w_id: i32,
    /// Delivery timestamp; `None` until the order is delivered.
    pub ol_delivery_d: Option<i64>,
    pub ol_quantity: i32,
    /// Line amount in cents.
    pub ol_amount: i64,
    pub ol_dist_info: String,
}

impl OrderLine {
    pub open spec fn wf(&self) -> bool {
        &&& 0 <= self.ol_amount <= 1_000_000
        &&& 1 <= self.ol_quantity <= 10
    }
}

/// Order of one district.
pub struct Order {
    pub o_id: i32,
    pub o_d_id: i32,
    pub o_w_id: i32,
    pub o_c_id: i32,
    pub o_entry_d: i64,
    /// `None` exactly while the order waits in the new-order queue.
    pub o_carrier_id: Option<i32>,
    /// True iff every line is supplied from the order's home warehouse.
    pub o_all_local: bool,
    pub lines: Vec<OrderLine>,
}

impl Order {
    pub open spec fn wf(&self, w_id: int, d_id: int, idx: int, n_customers: int) -> bool {
        &&& self.o_id == idx + 1
        &&& self.o_d_id == d_id
        &&& self.o_w_id == w_id
        &&& 1 <= self.o_c_id <= n_customers
        &&& self.lines@.len() <= 15
        &&& forall|i: int| 0 <= i < self.lines@.len() ==> (#[trigger] self.lines@[i]).wf()
        &&& (self.o_all_local <==> forall|i: int|
            0 <= i < self.lines@.len() ==> (#[trigger] self.lines@[i]).ol_supply_w_id == w_id)
    }

    /// Sum of the line amounts, in cents.
    pub open spec fn spec_lines_total(&self) -> int {
        spec_sum_amounts(self.lines@)
    }
}

/// Sum of the amounts of a sequence of order lines.
pub open spec fn spec_sum_amounts(lines: Seq<OrderLine>) -> int
    decreases lines.len(),
{
    if lines.len() == 0 {
        0
    } else {
        spec_sum_amounts(lines.drop_last()) + lines.last().ol_amount
    }
}

/// Append-only payment ledger row.
pub struct History {
    pub h_c_id: i32,
    pub h_c_d_id: i32,
    pub h_c_w_id: i32,
    pub h_d_id: i32,
    pub h_w_id: i32,
    pub h_date: i64,
    pub h_amount: i64,
    pub h_data: String,
}

impl History {
    /// Timestamp of the payment, milliseconds.
    pub fn timestamp(&self) -> (r: i64)
        ensures
            r == self.h_date,
    {
        self.h_date
    }
}

/// District of a warehouse: owns its customers, orders and the queue of
/// undelivered order ids.
pub struct District {
    pub d_id: i32,
    pub d_w_id: i32,
    pub d_name: String,
    pub d_street_1: String,
    pub d_street_2: String,
    pub d_city: String,
    pub d_state: String,
    pub d_zip: String,
    /// Tax rate in basis points.
    pub d_tax: i64,
    /// Year-to-date revenue in cents, clamped at the 64-bit top.
    pub d_ytd: i64,
    /// The next order id to assign; the sole serialization point for order
    /// numbering within the district.
    pub d_next_o_id: i32,
    pub customers: Vec<Customer>,
    pub orders: Vec<Order>,
    /// Ids of undelivered orders, strictly ascending.
    pub new_orders: Vec<i32>,
}

impl District {
    pub open spec fn wf(&self, w_id: int, idx: int) -> bool {
        &&& self.d_id == idx + 1
        &&& self.d_w_id == w_id
        &&& 0 <= self.d_tax <= 2000
        &&& self.d_ytd >= 0
        &&& self.customers@.len() <= 1_000_000
        &&& forall|i: int| 0 <= i < self.customers@.len()
            ==> (#[trigger] self.customers@[i]).wf(w_id, idx + 1, i)
        &&& self.d_next_o_id == self.orders@.len() + 1
        &&& self.orders@.len() + 1 <= i32::MAX
        &&& forall|i: int| 0 <= i < self.orders@.len()
            ==> (#[trigger] self.orders@[i]).wf(w_id, idx + 1, i, self.customers@.len() as int)
        &&& forall|i: int| 0 <= i < self.new_orders@.len()
            ==> 1 <= #[trigger] self.new_orders@[i] <= self.orders@.len()
        &&& forall|i: int, j: int| 0 <= i < j < self.new_orders@.len()
            ==> #[trigger] self.new_orders@[i] < #[trigger] self.new_orders@[j]
        &&& forall|oid: int| 1 <= oid <= self.orders@.len()
            ==> (self.new_orders@.contains(oid as i32)
                <==> (#[trigger] self.orders@[oid - 1]).o_carrier_id is None)
    }

    /// Tax rate of the district, basis points.
    pub fn tax(&self) -> (r: i64)
        ensures
            r == self.d_tax,
    {
        self.d_tax
    }

    /// Find a customer of this district by id.
    pub fn find_customer(&self, customer_id: i32) -> (r: Result<&Customer, Error>)
        ensures
            match r {
                Ok(c) => 1 <= customer_id <= self.customers@.len()
                    && *c == self.customers@[customer_id - 1],
                Err(e) => !(1 <= customer_id <= self.customers@.len()) && e == Error::NotFound,
            },
    {
        if 1 <= customer_id && customer_id as usize <= self.customers.len() {
            Ok(&self.customers[(customer_id - 1) as usize])
        } else {
            Err(Error::NotFound)
        }
    }
}

/// Warehouse: owns its stock rows and districts.
pub struct Warehouse {
    pub w_id: i32,
    pub w_name: String,
    pub w_street_1: String,
    pub w_street_2: String,
    pub w_city: String,
    pub w_state: String,
    pub w_zip: String,
    /// Tax rate in basis points.
    pub w_tax: i64,
    /// Year-to-date revenue in cents, clamped at the 64-bit top.
    pub w_ytd: i64,
    pub stocks: Vec<Stock>,
    pub districts: Vec<District>,
}

impl Warehouse {
    pub open spec fn wf(&self, idx: int) -> bool {
        &&& self.w_id == idx + 1
        &&& 0 <= self.w_tax <= 2000
        &&& self.w_ytd >= 0
        &&& self.stocks@.len() <= 1_000_000
        &&& self.districts@.len() <= 10
        &&& forall|i: int| 0 <= i < self.stocks@.len()
            ==> (#[trigger] self.stocks@[i]).wf(idx + 1, i)
        &&& forall|i: int| 0 <= i < self.districts@.len()
            ==> (#[trigger] self.districts@[i]).wf(idx + 1, i)
    }

    /// Tax rate of the warehouse, basis points.
    pub fn tax(&self) -> (r: i64)
        ensures
            r == self.w_tax,
    {
        self.w_tax
    }

    /// Find a district of this warehouse by id.
    pub fn find_district(&self, district_id: i32) -> (r: Result<&District, Error>)
        ensures
            match r {
                Ok(d) => 1 <= district_id <= self.districts@.len()
                    && *d == self.districts@[district_id - 1],
                Err(e) => !(1 <= district_id <= self.districts@.len()) && e == Error::NotFound,
            },
    {
        if 1 <= district_id && district_id as usize <= self.districts.len() {
            Ok(&self.districts[(district_id - 1) as usize])
        } else {
            Err(Error::NotFound)
        }
    }

    /// All districts of this warehouse.
    pub fn all_districts(&self) -> (r: &Vec<District>)
        ensures
            r == &self.districts,
    {
        &self.districts
    }
}

/// The whole store: item catalog, warehouses, payment ledger.
pub struct TpccDb {
    pub items: Vec<Item>,
    pub warehouses: Vec<Warehouse>,
    pub histories: Vec<History>,
}

impl TpccDb {
    pub open spec fn wf(&self) -> bool {
        &&& self.items@.len() <= 10_000_000
        &&& self.warehouses@.len() <= 100_000
        &&& forall|i: int| 0 <= i < self.items@.len() ==> (#[trigger] self.items@[i]).wf(i)
        &&& forall|i: int| 0 <= i < self.warehouses@.len()
            ==> (#[trigger] self.warehouses@[i]).wf(i)
    }

    /// An empty store, as after cleanup.
    pub fn new() -> (db: TpccDb)
        ensures
            db.wf(),
            db.items@.len() == 0,
            db.warehouses@.len() == 0,
            db.histories@.len() == 0,
    {
        TpccDb { items: Vec::new(), warehouses: Vec::new(), histories: Vec::new() }
    }
}

/// Remove all data, as the bulk cleanup preceding re-preparation does.
pub fn cleanup(db: &mut TpccDb)
    ensures
        final(db).wf(),
        final(db).items@.len() == 0,
        final(db).warehouses@.len() == 0,
        final(db).histories@.len() == 0,
{
    db.items.clear();
    db.warehouses.clear();
    db.histories.clear();
}

impl Warehouse {
    /// Find a warehouse of the store by id.
    pub fn find(id: i32, db: &TpccDb) -> (r: Result<&Warehouse, Error>)
        ensures
            match r {
                Ok(w) => 1 <= id <= db.warehouses@.len() && *w == db.warehouses@[id - 1],
                Err(e) => !(1 <= id <= db.warehouses@.len()) && e == Error::NotFound,
            },
    {
        if 1 <= id && id as usize <= db.warehouses.len() {
            Ok(&db.warehouses[(id - 1) as usize])
        } else {
            Err(Error::NotFound)
        }
    }
}

impl Customer {
    /// Find a customer anywhere in the store by warehouse, district and id.
    pub fn find(
        warehouse_id: i32,
        district_id: i32,
        customer_id: i32,
        db: &TpccDb,
    ) -> (r: Result<&Customer, Error>)
        ensures
            match r {
                Ok(c) => {
                    &&& 1 <= warehouse_id <= db.warehouses@.len()
                    &&& 1 <= district_id <= db.warehouses@[warehouse_id - 1].districts@.len()
                    &&& 1 <= customer_id <= db.warehouses@[warehouse_id - 1].districts@[
                        district_id - 1].customers@.len()
                    &&& *c == db.warehouses@[warehouse_id - 1].districts@[district_id - 1]
                        .customers@[customer_id - 1]
                },
                Err(e) => {
                    &&& e == Error::NotFound
                    &&& !(1 <= warehouse_id <= db.warehouses@.len() && 1 <= district_id
                        <= db.warehouses@[warehouse_id - 1].districts@.len() && 1 <= customer_id
                        <= db.warehouses@[warehouse_id - 1].districts@[district_id
                        - 1].customers@.len())
                },
            },
    {
        let warehouse = Warehouse::find(warehouse_id, db)?;
        let district = warehouse.find_district(district_id)?;
        district.find_customer(customer_id)
    }

    /// Primary key: warehouse, district, customer id.
    pub fn id(&self) -> (r: (i32, i32, i32))
        ensures
            r == (self.c_w_id, self.c_d_id, self.c_id),
    {
        (self.c_w_id, self.c_d_id, self.c_id)
    }

    /// First name.
    pub fn firstname(&self) -> (r: &str)
        ensures
            r@ == self.c_first@,
    {
        self.c_first.as_str()
    }

    /// Last name.
    pub fn lastname(&self) -> (r: &str)
        ensures
            r@ == self.c_last@,
    {
        self.c_last.as_str()
    }

    /// Discount rate for this customer, basis points.
    pub fn discount_rate(&self) -> (r: i64)
        ensures
            r == self.c_discount,
    {
        self.c_discount
    }
}

impl Order {
    /// Primary key: warehouse, district, order id.
    pub fn id(&self) -> (r: (i32, i32, i32))
        ensures
            r == (self.o_w_id, self.o_d_id, self.o_id),
    {
        (self.o_w_id, self.o_d_id, self.o_id)
    }

    /// Entry timestamp, milliseconds.
    pub fn entry_at(&self) -> (r: i64)
        ensures
            r == self.o_entry_d,
    {
        self.o_entry_d
    }

    /// Carrier id; `None` while the order is undelivered.
    pub fn carrier_id(&self) -> (r: Option<i32>)
        ensures
            r == self.o_carrier_id,
    {
        self.o_carrier_id
    }

    /// The lines of this order, in line-number order.
    pub fn order_lines(&self) -> (r: &Vec<OrderLine>)
        ensures
            r == &self.lines,
    {
        &self.lines
    }
}

impl OrderLine {
    /// Item id of the line.
    pub fn item_id(&self) -> (r: i32)
        ensures
            r == self.ol_i_id,
    {
        self.ol_i_id
    }

    /// Warehouse supplying the line.
    pub fn supply_warehouse_id(&self) -> (r: i32)
        ensures
            r == self.ol_supply_w_id,
    {
        self.ol_supply_w_id
    }

    /// Quantity ordered.
    pub fn quantity(&self) -> (r: i32)
        ensures
            r == self.ol_quantity,
    {
        self.ol_quantity
    }

    /// Line amount in cents.
    pub fn amount(&self) -> (r: i64)
        ensures
            r == self.ol_amount,
    {
        self.ol_amount
    }

    /// Delivery timestamp; `None` until delivered.
    pub fn delivery_at(&self) -> (r: Option<i64>)
        ensures
            r == self.ol_delivery_d,
    {
        self.ol_delivery_d
    }
}

/// A catalog item together with its stock row in one warehouse.
pub struct StockedItem<'a> {
    pub item: &'a Item,
    pub stock: &'a Stock,
}

impl<'a> StockedItem<'a> {
    /// Find the catalog row and the warehouse's stock row of an item.
    pub fn find(warehouse_id: i32, item_id: i32, db: &'a TpccDb) -> (r: Result<
        StockedItem<'a>,
        Error,
    >)
        ensures
            match r {
                Ok(si) => {
                    &&& 1 <= item_id <= db.items@.len()
                    &&& 1 <= warehouse_id <= db.warehouses@.len()
                    &&& item_id <= db.warehouses@[warehouse_id - 1].stocks@.len()
                    &&& *si.item == db.items@[item_id - 1]
                    &&& *si.stock == db.warehouses@[warehouse_id - 1].stocks@[item_id - 1]
                },
                Err(e) => {
                    &&& e == Error::NotFound
                    &&& !(1 <= item_id <= db.items@.len() && 1 <= warehouse_id
                        <= db.warehouses@.len() && item_id <= db.warehouses@[warehouse_id
                        - 1].stocks@.len())
                },
            },
    {
        if !(1 <= item_id && item_id as usize <= db.items.len()) {
            return Err(Error::NotFound);
        }
        let warehouse = Warehouse::find(warehouse_id, db)?;
        if !(item_id as usize <= warehouse.stocks.len()) {
            return Err(Error::NotFound);
        }
        Ok(StockedItem {
            item: &db.items[(item_id - 1) as usize],
            stock: &warehouse.stocks[(item_id - 1) as usize],
        })
    }
}

} // verus!
