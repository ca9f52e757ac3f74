//! The five business transactions over the in-memory store.
//!
//! Each transaction validates first and mutates only afterwards, so an
//! error means the store is exactly as it was: the atomicity the benchmark
//! demands.

use vstd::prelude::*;
use vstd::string::StringSliceAdditionalSpecFns;
use vstd::utf8::is_ascii_chars;
use crate::api::NewOrderRequestItem;
use crate::error::Error;
use crate::model::{spec_sum_amounts, Credit, Customer, District, History, Item, Order,
    OrderLine, Stock, TpccDb, Warehouse};
use crate::rng::string_from_ascii;
use crate::spec_replenish;

verus! {

/// The ASCII characters that a byte sequence spells.
pub open spec fn bytes_as_chars(b: Seq<u8>) -> Seq<char> {
    Seq::new(b.len(), |i: int| b[i] as char)
}

/// Decimal digit bytes of a non-negative number, most significant first.
pub open spec fn spec_dec_bytes(n: int) -> Seq<u8>
    recommends
        n >= 0,
    decreases n,
{
    if n < 10 {
        seq![(48 + n) as u8]
    } else {
        spec_dec_bytes(n / 10).push((48 + n % 10) as u8)
    }
}

/// Decimal digits zero-padded on the left to at least four places.
pub open spec fn spec_dec4_bytes(n: int) -> Seq<u8> {
    if n < 10 {
        seq![48u8, 48u8, 48u8] + spec_dec_bytes(n)
    } else if n < 100 {
        seq![48u8, 48u8] + spec_dec_bytes(n)
    } else if n < 1000 {
        seq![48u8] + spec_dec_bytes(n)
    } else {
        spec_dec_bytes(n)
    }
}

/// A monetary amount in cents as `dollars.cc`.
pub open spec fn spec_amount_bytes(cents: int) -> Seq<u8> {
    spec_dec_bytes(cents / 100) + seq![46u8, (48 + cents % 100 / 10) as u8, (48 + cents % 10) as u8]
}

/// The audit prefix that Payment writes into a bad-credit customer's data
/// blob: the customer key, the paying district and warehouse, the amount.
pub open spec fn spec_audit_bytes(
    c_id: int,
    c_d_id: int,
    c_w_id: int,
    d_w_id: int,
    w_id: int,
    amount: int,
) -> Seq<u8> {
    spec_dec4_bytes(c_id) + spec_dec4_bytes(c_d_id) + spec_dec4_bytes(c_w_id) + spec_dec4_bytes(
        d_w_id,
    ) + spec_dec4_bytes(w_id) + spec_amount_bytes(amount)
}

/// Every byte of a decimal rendering is an ASCII digit or the dot.
proof fn lemma_dec_bytes_ascii(n: int)
    requires
        n >= 0,
    ensures
        forall|i: int| 0 <= i < spec_dec_bytes(n).len() ==> #[trigger] spec_dec_bytes(n)[i] < 128,
    decreases n,
{
    if n >= 10 {
        lemma_dec_bytes_ascii(n / 10);
        assert forall|i: int| 0 <= i < spec_dec_bytes(n).len() implies #[trigger] spec_dec_bytes(
            n,
        )[i] < 128 by {
            if i < spec_dec_bytes(n / 10).len() {
                assert(spec_dec_bytes(n)[i] == spec_dec_bytes(n / 10)[i]);
            } else {
                assert(spec_dec_bytes(n)[i] == (48 + n % 10) as u8);
            }
        }
    }
}

/// Append the decimal digits of `n`.
fn push_dec(v: &mut Vec<u8>, n: u64)
    ensures
        final(v)@ == old(v)@ + spec_dec_bytes(n as int),
    decreases n,
{
    if n < 10 {
        v.push(48 + n as u8);
        assert(v@ =~= old(v)@ + spec_dec_bytes(n as int));
    } else {
        push_dec(v, n / 10);
        v.push(48 + (n % 10) as u8);
        assert(v@ =~= old(v)@ + spec_dec_bytes(n as int));
    }
}

/// Append the decimal digits of `n`, zero-padded to at least four places.
fn push_dec4(v: &mut Vec<u8>, n: u64)
    ensures
        final(v)@ == old(v)@ + spec_dec4_bytes(n as int),
{
    if n < 10 {
        v.push(48);
        v.push(48);
        v.push(48);
    } else if n < 100 {
        v.push(48);
        v.push(48);
    } else if n < 1000 {
        v.push(48);
    }
    push_dec(v, n);
    assert(v@ =~= old(v)@ + spec_dec4_bytes(n as int));
}

/// The new data blob of a bad-credit customer: the audit prefix, then the
/// old blob, cut to the old blob's length.
pub open spec fn spec_pay_data(
    old_data: Seq<char>,
    c_id: int,
    c_d_id: int,
    c_w_id: int,
    d_w_id: int,
    w_id: int,
    amount: int,
) -> Seq<char> {
    (bytes_as_chars(spec_audit_bytes(c_id, c_d_id, c_w_id, d_w_id, w_id, amount))
        + old_data).take(old_data.len() as int)
}

/// Build the rewritten data blob.
#[verifier::rlimit(50)]
fn audit_rewrite(
    c_id: i32,
    c_d_id: i32,
    c_w_id: i32,
    d_w_id: i32,
    w_id: i32,
    amount: i64,
    data: &String,
) -> (r: String)
    requires
        c_id >= 0,
        c_d_id >= 0,
        c_w_id >= 0,
        d_w_id >= 0,
        w_id >= 0,
        amount >= 0,
        is_ascii_chars(data@),
    ensures
        r@ == spec_pay_data(
            data@,
            c_id as int,
            c_d_id as int,
            c_w_id as int,
            d_w_id as int,
            w_id as int,
            amount as int,
        ),
        is_ascii_chars(r@),
        r@.len() == data@.len(),
{
    broadcast use vstd::string::is_ascii_spec_bytes;

    let mut audit: Vec<u8> = Vec::new();
    push_dec4(&mut audit, c_id as u64);
    push_dec4(&mut audit, c_d_id as u64);
    push_dec4(&mut audit, c_w_id as u64);
    push_dec4(&mut audit, d_w_id as u64);
    push_dec4(&mut audit, w_id as u64);
    push_dec(&mut audit, (amount / 100) as u64);
    audit.push(46);
    audit.push(48 + ((amount % 100) / 10) as u8);
    audit.push(48 + (amount % 10) as u8);
    proof {
        assert(audit@ =~= spec_audit_bytes(
            c_id as int,
            c_d_id as int,
            c_w_id as int,
            d_w_id as int,
            w_id as int,
            amount as int,
        ));
        lemma_dec_bytes_ascii(c_id as int);
        lemma_dec_bytes_ascii(c_d_id as int);
        lemma_dec_bytes_ascii(c_w_id as int);
        lemma_dec_bytes_ascii(d_w_id as int);
        lemma_dec_bytes_ascii(w_id as int);
        lemma_dec_bytes_ascii(amount as int / 100);
    }
    assert(forall|i: int| 0 <= i < audit@.len() ==> #[trigger] audit@[i] < 128);

    let data_str = data.as_str();
    assert(data_str.is_ascii());
    let data_bytes: &[u8] = data_str.as_bytes();
    let n = data_bytes.len();
    proof {
        assert(data_str.spec_bytes() =~= Seq::new(data@.len(), |i: int| data@[i] as u8));
    }

    let mut out: Vec<u8> = Vec::new();
    let mut i: usize = 0;
    while i < n
        invariant
            i <= n,
            n == data@.len(),
            out@.len() == i,
            data_bytes@ == Seq::new(data@.len(), |j: int| data@[j] as u8),
            forall|j: int| 0 <= j < audit@.len() ==> #[trigger] audit@[j] < 128,
            is_ascii_chars(data@),
            forall|j: int| 0 <= j < i ==> #[trigger] out@[j] == (if j < audit@.len() {
                audit@[j]
            } else if j - audit@.len() < data@.len() {
                data@[j - audit@.len()] as u8
            } else {
                0u8
            }),
        decreases n - i,
    {
        if i < audit.len() {
            let b = audit[i];
            out.push(b);
        } else {
            let b = data_bytes[i - audit.len()];
            out.push(b);
        }
        i = i + 1;
    }
    assert forall|j: int| 0 <= j < out@.len() implies out@[j] < 128 by {
        if j >= audit@.len() {
            assert(data@[j - audit@.len()] <= '\u{7f}');
        }
    }
    let s = string_from_ascii(out);
    proof {
        let want = spec_pay_data(
            data@,
            c_id as int,
            c_d_id as int,
            c_w_id as int,
            d_w_id as int,
            w_id as int,
            amount as int,
        );
        assert forall|j: int| 0 <= j < want.len() implies s@[j] == want[j] by {
            if j < audit@.len() {
                assert(want[j] == audit@[j] as char);
            } else {
                assert(want[j] == data@[j - audit@.len()]);
                assert(s@[j] == (data@[j - audit@.len()] as u8) as char);
                assert(data@[j - audit@.len()] <= '\u{7f}');
            }
        }
        assert(s@ =~= want);
    }
    s
}

/// Sum clamped to the top of the signed 64-bit range.
pub open spec fn spec_sat_add_i64(a: int, b: int) -> int {
    if a + b <= i64::MAX {
        a + b
    } else {
        i64::MAX as int
    }
}

/// Clamped addition of a non-negative delta.
pub fn sat_add_i64(a: i64, b: i64) -> (r: i64)
    requires
        b >= 0,
    ensures
        r == spec_sat_add_i64(a as int, b as int),
{
    if a <= i64::MAX - b {
        a + b
    } else {
        i64::MAX
    }
}

/// Membership in a pushed sequence: the old members and the new element.
pub proof fn lemma_push_contains<A>(s: Seq<A>, x: A, y: A)
    ensures
        s.push(x).contains(y) <==> (s.contains(y) || y == x),
{
    if s.push(x).contains(y) {
        let i = choose|i: int| 0 <= i < s.push(x).len() && s.push(x)[i] == y;
        if i < s.len() {
            assert(s[i] == y);
        }
    }
    if s.contains(y) {
        let i = choose|i: int| 0 <= i < s.len() && s[i] == y;
        assert(s.push(x)[i] == y);
    }
    if y == x {
        assert(s.push(x)[s.len() as int] == y);
    }
}

impl Stock {
    /// The row after one allocation: quantity replenished, year-to-date and
    /// order count grown (clamped), remote count grown on a remote order.
    pub open spec fn spec_allocate(self, quantity: int, remote: bool) -> Stock {
        Stock {
            s_quantity: spec_replenish(self.s_quantity as int, quantity) as i32,
            s_ytd: spec_sat_add_i64(self.s_ytd as int, quantity) as i64,
            s_order_cnt: spec_sat_add_i64(self.s_order_cnt as int, 1) as i64,
            s_remote_cnt: if remote {
                spec_sat_add_i64(self.s_remote_cnt as int, 1) as i64
            } else {
                self.s_remote_cnt
            },
            ..self
        }
    }

    /// Allocate stock for one order line.
    pub fn allocate(&mut self, quantity: i32, order_by_warehouse_id: i32)
        requires
            1 <= quantity <= 10,
            1 <= old(self).s_quantity <= 191,
            old(self).s_ytd >= 0,
            old(self).s_order_cnt >= 0,
            old(self).s_remote_cnt >= 0,
        ensures
            *final(self) == old(self).spec_allocate(
                quantity as int,
                old(self).s_w_id != order_by_warehouse_id,
            ),
            1 <= final(self).s_quantity <= 191,
    {
        let new_qty = crate::replenished_quantity(self.s_quantity, quantity);
        self.s_quantity = new_qty;
        self.s_ytd = sat_add_i64(self.s_ytd, quantity as i64);
        self.s_order_cnt = sat_add_i64(self.s_order_cnt, 1);
        if self.s_w_id != order_by_warehouse_id {
            self.s_remote_cnt = sat_add_i64(self.s_remote_cnt, 1);
        }
    }
}

impl District {
    /// This district is well-formed under its own ids.
    pub open spec fn inv(&self) -> bool {
        self.wf(self.d_w_id as int, self.d_id - 1)
    }

    /// Issue the next order id: the pre-increment counter value.
    fn issue_order_id(&mut self) -> (r: Result<i32, Error>)
        ensures
            match r {
                Ok(id) => {
                    &&& old(self).d_next_o_id < i32::MAX
                    &&& id == old(self).d_next_o_id
                    &&& *final(self) == District {
                        d_next_o_id: (old(self).d_next_o_id + 1) as i32,
                        ..*old(self)
                    }
                },
                Err(e) => {
                    &&& *final(self) == *old(self)
                    &&& e == Error::StorageFailure
                    &&& old(self).d_next_o_id == i32::MAX
                },
            },
    {
        if self.d_next_o_id == i32::MAX {
            return Err(Error::StorageFailure);
        }
        let id = self.d_next_o_id;
        self.d_next_o_id = id + 1;
        Ok(id)
    }
}

impl Warehouse {
    /// This warehouse is well-formed under its own id.
    pub open spec fn inv(&self) -> bool {
        self.wf(self.w_id - 1)
    }
}

/// Sum of `quantity * price` over the requested lines, in cents.
pub open spec fn spec_reqs_total(items: Seq<Item>, reqs: Seq<NewOrderRequestItem>) -> int
    decreases reqs.len(),
{
    if reqs.len() == 0 {
        0
    } else {
        spec_reqs_total(items, reqs.drop_last()) + reqs.last().quantity * items[
            reqs.last().item_id - 1].i_price
    }
}

/// Total amount of an order: line total with the customer's discount
/// subtracted and the warehouse and district taxes added, all in basis
/// points, rounded down to the cent.
pub open spec fn spec_total_amount(
    lines_total: int,
    discount_bp: int,
    w_tax_bp: int,
    d_tax_bp: int,
) -> int {
    lines_total * (10000 - discount_bp) * (10000 + w_tax_bp + d_tax_bp) / 100_000_000
}

/// The order line that New-Order builds for request line `line_no`: the
/// item's price times the quantity, supplied by the home warehouse, not yet
/// delivered, with the stock's info string for the order's district.
pub open spec fn spec_is_line_for(
    ol: OrderLine,
    items: Seq<Item>,
    stocks: Seq<Stock>,
    w_id: int,
    d_id: int,
    line_no: int,
    req: NewOrderRequestItem,
) -> bool {
    &&& ol.ol_number == line_no
    &&& ol.ol_i_id == req.item_id
    &&& ol.ol_supply_w_id == w_id
    &&& ol.ol_delivery_d is None
    &&& ol.ol_quantity == req.quantity
    &&& ol.ol_amount == req.quantity * items[req.item_id - 1].i_price
    &&& ol.ol_dist_info@ == stocks[req.item_id - 1].s_dists@[d_id - 1]@
}

/// All lines of a new order match their requests.
pub open spec fn spec_are_lines_for(
    lines: Seq<OrderLine>,
    items: Seq<Item>,
    stocks: Seq<Stock>,
    w_id: int,
    d_id: int,
    reqs: Seq<NewOrderRequestItem>,
) -> bool {
    &&& lines.len() == reqs.len()
    &&& forall|j: int| 0 <= j < reqs.len()
        ==> spec_is_line_for(#[trigger] lines[j], items, stocks, w_id, d_id, j, reqs[j])
}

/// The stock rows after allocating the first `k` requested lines in order.
pub open spec fn spec_alloc_upto(
    stocks: Seq<Stock>,
    reqs: Seq<NewOrderRequestItem>,
    k: int,
) -> Seq<Stock>
    decreases k,
{
    if k <= 0 {
        stocks
    } else {
        let prev = spec_alloc_upto(stocks, reqs, k - 1);
        let idx = reqs[k - 1].item_id - 1;
        prev.update(idx, prev[idx].spec_allocate(reqs[k - 1].quantity as int, false))
    }
}

/// District fields that New-Order leaves untouched.
pub open spec fn district_statics_eq(a: District, b: District) -> bool {
    &&& a.d_id == b.d_id
    &&& a.d_w_id == b.d_w_id
    &&& a.d_name == b.d_name
    &&& a.d_street_1 == b.d_street_1
    &&& a.d_street_2 == b.d_street_2
    &&& a.d_city == b.d_city
    &&& a.d_state == b.d_state
    &&& a.d_zip == b.d_zip
    &&& a.d_tax == b.d_tax
    &&& a.d_ytd == b.d_ytd
}

/// Warehouse fields that New-Order leaves untouched.
pub open spec fn warehouse_statics_eq(a: Warehouse, b: Warehouse) -> bool {
    &&& a.w_id == b.w_id
    &&& a.w_name == b.w_name
    &&& a.w_street_1 == b.w_street_1
    &&& a.w_street_2 == b.w_street_2
    &&& a.w_city == b.w_city
    &&& a.w_state == b.w_state
    &&& a.w_zip == b.w_zip
    &&& a.w_tax == b.w_tax
    &&& a.w_ytd == b.w_ytd
}

impl Warehouse {
    /// The request references only existing rows and lawful quantities.
    pub open spec fn spec_new_order_valid(
        &self,
        n_items: int,
        district_id: int,
        customer_id: int,
        reqs: Seq<NewOrderRequestItem>,
    ) -> bool {
        &&& 1 <= district_id <= self.districts@.len()
        &&& 1 <= customer_id <= self.districts@[district_id - 1].customers@.len()
        &&& 1 <= reqs.len() <= 15
        &&& forall|i: int| 0 <= i < reqs.len() ==> {
            &&& 1 <= (#[trigger] reqs[i]).item_id <= n_items
            &&& reqs[i].item_id <= self.stocks@.len()
            &&& 1 <= reqs[i].quantity <= 10
        }
    }

    /// The district can still issue an order id.
    pub open spec fn spec_new_order_fits(&self, district_id: int) -> bool {
        self.districts@[district_id - 1].d_next_o_id < i32::MAX
    }
}

/// Everything New-Order commits, relating the warehouse before and after:
/// one order with its lines and queue entry in the district, the counter
/// moved by one, stock allocated line by line, nothing else touched.
pub open spec fn spec_new_order_applied(
    w_old: Warehouse,
    w_new: Warehouse,
    items: Seq<Item>,
    district_id: int,
    customer_id: int,
    reqs: Seq<NewOrderRequestItem>,
    entry_ms: i64,
    order_id: int,
    total: int,
) -> bool {
    let d_old = w_old.districts@[district_id - 1];
    let d_new = w_new.districts@[district_id - 1];
    let ord = d_new.orders@.last();
    &&& order_id == d_old.d_next_o_id
    &&& d_new.orders@.len() == d_old.orders@.len() + 1
    &&& d_new.orders@.drop_last() == d_old.orders@
    &&& ord.o_id == order_id
    &&& ord.o_d_id == district_id
    &&& ord.o_w_id == w_old.w_id
    &&& ord.o_c_id == customer_id
    &&& ord.o_entry_d == entry_ms
    &&& ord.o_carrier_id is None
    &&& ord.o_all_local == true
    &&& spec_are_lines_for(ord.lines@, items, w_old.stocks@, w_old.w_id as int, district_id, reqs)
    &&& d_new.d_next_o_id == d_old.d_next_o_id + 1
    &&& d_new.new_orders@ == d_old.new_orders@.push(order_id as i32)
    &&& d_new.customers@ == d_old.customers@
    &&& district_statics_eq(d_new, d_old)
    &&& w_new.stocks@ == spec_alloc_upto(w_old.stocks@, reqs, reqs.len() as int)
    &&& w_new.districts@.len() == w_old.districts@.len()
    &&& forall|j: int| 0 <= j < w_old.districts@.len() && j != district_id - 1
        ==> w_new.districts@[j] == w_old.districts@[j]
    &&& warehouse_statics_eq(w_new, w_old)
    &&& total == spec_total_amount(
        spec_reqs_total(items, reqs),
        d_old.customers@[customer_id - 1].c_discount as int,
        w_old.w_tax as int,
        d_old.d_tax as int,
    )
}

impl Warehouse {
    /// New-Order: assign the next order id of the district, insert the
    /// order, its lines and its queue entry, allocate stock per line, and
    /// return the order id and the discounted, taxed total.
    pub fn insert_order(
        &mut self,
        items: &Vec<Item>,
        district_id: i32,
        customer_id: i32,
        reqs: &Vec<NewOrderRequestItem>,
        entry_ms: i64,
    ) -> (r: Result<(i32, i64), Error>)
        requires
            old(self).inv(),
            forall|i: int| 0 <= i < items@.len() ==> (#[trigger] items@[i]).wf(i),
        ensures
            final(self).inv(),
            final(self).w_id == old(self).w_id,
            match r {
                Ok((order_id, total)) => {
                    &&& old(self).spec_new_order_valid(
                        items@.len() as int,
                        district_id as int,
                        customer_id as int,
                        reqs@,
                    )
                    &&& old(self).spec_new_order_fits(district_id as int)
                    &&& spec_new_order_applied(
                        *old(self),
                        *final(self),
                        items@,
                        district_id as int,
                        customer_id as int,
                        reqs@,
                        entry_ms,
                        order_id as int,
                        total as int,
                    )
                },
                Err(e) => {
                    &&& *final(self) == *old(self)
                    &&& if old(self).spec_new_order_valid(
                        items@.len() as int,
                        district_id as int,
                        customer_id as int,
                        reqs@,
                    ) {
                        e == Error::StorageFailure && !old(self).spec_new_order_fits(
                            district_id as int,
                        )
                    } else {
                        e == Error::NotFound
                    }
                },
            },
    {
        let w_id_local = self.w_id;
        // Validation pass: reject before any mutation.
        if !(1 <= district_id && district_id as usize <= self.districts.len()) {
            return Err(Error::NotFound);
        }
        let di = (district_id - 1) as usize;
        if !(1 <= customer_id && customer_id as usize <= self.districts[di].customers.len()) {
            return Err(Error::NotFound);
        }
        if !(1 <= reqs.len() && reqs.len() <= 15) {
            return Err(Error::NotFound);
        }
        let mut k: usize = 0;
        while k < reqs.len()
            invariant
                self == old(self),
                self.inv(),
                k <= reqs@.len(),
                forall|i: int| 0 <= i < k ==> {
                    &&& 1 <= (#[trigger] reqs@[i]).item_id <= items@.len()
                    &&& reqs@[i].item_id <= self.stocks@.len()
                    &&& 1 <= reqs@[i].quantity <= 10
                },
            decreases reqs@.len() - k,
        {
            let it = &reqs[k];
            if !(1 <= it.item_id && it.item_id as usize <= items.len()
                && it.item_id as usize <= self.stocks.len() && 1 <= it.quantity
                && it.quantity <= 10) {
                return Err(Error::NotFound);
            }
            k = k + 1;
        }
        assert(self.spec_new_order_valid(
            items@.len() as int,
            district_id as int,
            customer_id as int,
            reqs@,
        ));
        if self.districts[di].d_next_o_id == i32::MAX {
            return Err(Error::StorageFailure);
        }

        // Build the order lines and their running total.
        let mut lines: Vec<OrderLine> = Vec::new();
        let mut total_cents: i64 = 0;
        let mut k: usize = 0;
        while k < reqs.len()
            invariant
                k <= reqs@.len(),
                self == old(self),
                w_id_local == self.w_id,
                1 <= district_id && district_id as usize <= self.districts@.len(),
                self.inv(),
                forall|i: int| 0 <= i < items@.len() ==> (#[trigger] items@[i]).wf(i),
                self.spec_new_order_valid(
                    items@.len() as int,
                    district_id as int,
                    customer_id as int,
                    reqs@,
                ),
                lines@.len() == k,
                forall|j: int| 0 <= j < k ==> spec_is_line_for(
                    #[trigger] lines@[j],
                    items@,
                    self.stocks@,
                    self.w_id as int,
                    district_id as int,
                    j,
                    reqs@[j],
                ),
                total_cents == spec_reqs_total(items@, reqs@.take(k as int)),
                0 <= total_cents <= k * 100_000,
            decreases reqs@.len() - k,
        {
            let item_id = reqs[k].item_id;
            let quantity = reqs[k].quantity;
            let idx = (item_id - 1) as usize;
            let price = items[idx].i_price;
            assert(quantity * price <= 100_000 && quantity * price >= 100) by (nonlinear_arith)
                requires
                    1 <= quantity <= 10,
                    100 <= price <= 10_000,
            ;
            let amount: i64 = quantity as i64 * price;
            let dist_info = self.stocks[idx].s_dists[(district_id - 1) as usize].clone();
            lines.push(OrderLine {
                ol_number: k as i32,
                ol_i_id: item_id,
                ol_supply_w_id: w_id_local,
                ol_delivery_d: None,
                ol_quantity: quantity,
                ol_amount: amount,
                ol_dist_info: dist_info,
            });
            total_cents = total_cents + amount;
            proof {
                assert(reqs@.take(k as int + 1).drop_last() =~= reqs@.take(k as int));
                assert(reqs@.take(k as int + 1).last() == reqs@[k as int]);
                let j = k as int;
                assert(lines@[j].ol_number == j);
                assert(lines@[j].ol_i_id == reqs@[j].item_id);
                assert(lines@[j].ol_supply_w_id == self.w_id as int);
                assert(lines@[j].ol_delivery_d is None);
                assert(lines@[j].ol_quantity == reqs@[j].quantity);
                assert(lines@[j].ol_amount == reqs@[j].quantity * items@[reqs@[j].item_id
                    - 1].i_price);
                assert(lines@[j].ol_dist_info@ == self.stocks@[reqs@[j].item_id - 1].s_dists@[
                    district_id - 1]@);
                assert(spec_is_line_for(
                    lines@[j],
                    items@,
                    self.stocks@,
                    self.w_id as int,
                    district_id as int,
                    j,
                    reqs@[j],
                ));
            }
            k = k + 1;
        }
        proof {
            assert(reqs@.take(reqs@.len() as int) =~= reqs@);
        }

        // Commit: issue the order id, insert order and queue entry.
        let ghost w0 = *self;
        let ghost lines_v = lines@;
        let d = vstd::std_specs::vec::vec_index_mut(&mut self.districts, di);
        let order_id = match d.issue_order_id() {
            Ok(id) => id,
            Err(e) => {
                // Unreachable: the counter was checked before committing.
                proof {
                    assert(false);
                }
                return Err(e);
            },
        };
        d.orders.push(Order {
            o_id: order_id,
            o_d_id: district_id,
            o_w_id: w_id_local,
            o_c_id: customer_id,
            o_entry_d: entry_ms,
            o_carrier_id: None,
            o_all_local: true,
            lines,
        });
        d.new_orders.push(order_id);

        // Allocate stock, line by line.
        let ghost stocks0 = self.stocks@;
        let ghost d_committed = self.districts@[di as int];
        let mut k: usize = 0;
        while k < reqs.len()
            invariant
                k <= reqs@.len(),
                forall|i: int| 0 <= i < reqs@.len() ==> {
                    &&& 1 <= (#[trigger] reqs@[i]).item_id <= stocks0.len()
                    &&& 1 <= reqs@[i].quantity <= 10
                },
                self.stocks@.len() == stocks0.len(),
                self.stocks@ == spec_alloc_upto(stocks0, reqs@, k as int),
                forall|j: int| 0 <= j < self.stocks@.len()
                    ==> (#[trigger] self.stocks@[j]).wf(self.w_id as int, j),
                self.w_id == w0.w_id,
                w_id_local == w0.w_id,
                di < w0.districts@.len(),
                self.districts@ == w0.districts@.update(di as int, d_committed),
                warehouse_statics_eq(*self, w0),
            decreases reqs@.len() - k,
        {
            let item_id = reqs[k].item_id;
            let quantity = reqs[k].quantity;
            let idx = (item_id - 1) as usize;
            let ghost stocks_before = self.stocks@;
            let s = vstd::std_specs::vec::vec_index_mut(&mut self.stocks, idx);
            proof {
                assert(stocks_before[idx as int].wf(w0.w_id as int, idx as int));
            }
            s.allocate(quantity, w_id_local);
            proof {
                assert(self.stocks@ == stocks_before.update(
                    idx as int,
                    stocks_before[idx as int].spec_allocate(quantity as int, false),
                ));
                assert(spec_alloc_upto(stocks0, reqs@, k as int + 1) == spec_alloc_upto(
                    stocks0,
                    reqs@,
                    k as int,
                ).update(
                    idx as int,
                    spec_alloc_upto(stocks0, reqs@, k as int)[idx as int].spec_allocate(
                        quantity as int,
                        false,
                    ),
                ));
                assert forall|j: int| 0 <= j < self.stocks@.len() implies (
                #[trigger] self.stocks@[j]).wf(self.w_id as int, j) by {
                    if j != idx as int {
                        assert(self.stocks@[j] == stocks_before[j]);
                    }
                }
            }
            k = k + 1;
        }

        // Total amount with discount and taxes, rounded down to the cent.
        let discount = self.districts[di].customers[(customer_id - 1) as usize].c_discount;
        let w_tax = self.w_tax;
        let d_tax = self.districts[di].d_tax;
        assert(0 <= total_cents * (10000 - discount) <= 15_000_000_000i64) by (nonlinear_arith)
            requires
                0 <= total_cents <= 1_500_000,
                0 <= discount <= 5000,
        ;
        let m1: i64 = total_cents * (10000 - discount);
        assert(0 <= m1 * (10000 + w_tax + d_tax) <= 0x7fff_ffff_ffff_ffffi64) by (nonlinear_arith)
            requires
                0 <= m1 <= 15_000_000_000i64,
                0 <= w_tax <= 2000,
                0 <= d_tax <= 2000,
        ;
        let m2: i64 = m1 * (10000 + w_tax + d_tax);
        let total: i64 = m2 / 100_000_000;

        proof {
            assert(self.districts@[di as int].orders@.drop_last() =~= w0.districts@[
                di as int].orders@);
            lemma_insert_order_wf(w0, *self, items@, district_id as int, customer_id as int, reqs@, entry_ms, order_id as int, lines_v);
        }
        Ok((order_id, total))
    }
}

/// The committed New-Order state is well-formed again.
proof fn lemma_insert_order_wf(
    w_old: Warehouse,
    w_new: Warehouse,
    items: Seq<Item>,
    district_id: int,
    customer_id: int,
    reqs: Seq<NewOrderRequestItem>,
    entry_ms: i64,
    order_id: int,
    lines_v: Seq<OrderLine>,
)
    requires
        w_old.inv(),
        w_old.spec_new_order_valid(items.len() as int, district_id, customer_id, reqs),
        w_old.spec_new_order_fits(district_id),
        forall|i: int| 0 <= i < items.len() ==> (#[trigger] items[i]).wf(i),
        w_new.w_id == w_old.w_id,
        w_new.stocks@.len() == w_old.stocks@.len(),
        forall|j: int| 0 <= j < w_new.stocks@.len()
            ==> (#[trigger] w_new.stocks@[j]).wf(w_new.w_id as int, j),
        warehouse_statics_eq(w_new, w_old),
        w_new.districts@ == w_old.districts@.update(
            district_id - 1,
            w_new.districts@[district_id - 1],
        ),
        ({
            let d_old = w_old.districts@[district_id - 1];
            let d_new = w_new.districts@[district_id - 1];
            &&& order_id == d_old.d_next_o_id
            &&& d_new.orders@ == d_old.orders@.push(Order {
                o_id: order_id as i32,
                o_d_id: district_id as i32,
                o_w_id: w_old.w_id,
                o_c_id: customer_id as i32,
                o_entry_d: entry_ms,
                o_carrier_id: None,
                o_all_local: true,
                lines: d_new.orders@.last().lines,
            })
            &&& spec_are_lines_for(
                d_new.orders@.last().lines@,
                items,
                w_old.stocks@,
                w_old.w_id as int,
                district_id,
                reqs,
            )
            &&& d_new.d_next_o_id == d_old.d_next_o_id + 1
            &&& d_new.new_orders@ == d_old.new_orders@.push(order_id as i32)
            &&& d_new.customers@ == d_old.customers@
            &&& district_statics_eq(d_new, d_old)
        }),
    ensures
        w_new.inv(),
{
    let d_old = w_old.districts@[district_id - 1];
    let d_new = w_new.districts@[district_id - 1];
    let w_id = w_old.w_id as int;
    assert(d_old.wf(w_id, district_id - 1));
    let n = d_old.orders@.len() as int;
    let ord = d_new.orders@[n];

    // The new order row is well-formed.
    assert(ord.wf(w_id, district_id, n, d_new.customers@.len() as int)) by {
        assert(forall|i: int| 0 <= i < ord.lines@.len() ==> spec_is_line_for(
            #[trigger] ord.lines@[i],
            items,
            w_old.stocks@,
            w_id,
            district_id,
            i,
            reqs[i],
        ));
        assert forall|i: int| 0 <= i < ord.lines@.len() implies (#[trigger] ord.lines@[i]).wf() by {
            assert(spec_is_line_for(ord.lines@[i], items, w_old.stocks@, w_id, district_id, i, reqs[i]));
            let req = reqs[i];
            assert(items[req.item_id - 1].wf(req.item_id - 1));
            assert(100 <= req.quantity * items[req.item_id - 1].i_price <= 100_000)
                by (nonlinear_arith)
                requires
                    1 <= req.quantity <= 10,
                    100 <= items[req.item_id - 1].i_price <= 10_000,
            ;
        }
    }

    // Orders stay dense and well-formed.
    assert forall|i: int| 0 <= i < d_new.orders@.len() implies (#[trigger] d_new.orders@[i]).wf(
        w_id,
        district_id,
        i,
        d_new.customers@.len() as int,
    ) by {
        if i < n {
            assert(d_new.orders@[i] == d_old.orders@[i]);
            assert(d_old.orders@[i].wf(w_id, district_id, i, d_old.customers@.len() as int));
        }
    }

    // The queue stays sorted: the new id tops every queued id.
    assert forall|i: int, j: int| 0 <= i < j < d_new.new_orders@.len()
        implies #[trigger] d_new.new_orders@[i] < #[trigger] d_new.new_orders@[j] by {
        if j < d_old.new_orders@.len() {
            assert(d_old.new_orders@[i] < d_old.new_orders@[j]);
        } else {
            assert(d_new.new_orders@[j] == order_id);
            assert(d_old.new_orders@[i] <= d_old.orders@.len());
        }
    }

    // The queue still holds exactly the undelivered orders.
    assert forall|oid: int| 1 <= oid <= d_new.orders@.len()
        implies (d_new.new_orders@.contains(oid as i32)
            <==> (#[trigger] d_new.orders@[oid - 1]).o_carrier_id is None) by {
        lemma_push_contains(d_old.new_orders@, order_id as i32, oid as i32);
        if oid <= n {
            assert(d_new.orders@[oid - 1] == d_old.orders@[oid - 1]);
            assert(d_old.new_orders@.contains(oid as i32)
                <==> d_old.orders@[oid - 1].o_carrier_id is None);
            if d_new.new_orders@.contains(oid as i32) {
                assert(oid != order_id);
            }
        } else {
            assert(oid == order_id);
            assert(d_new.new_orders@.contains(oid as i32));
        }
    }

    assert(d_new.wf(w_id, district_id - 1));
    assert forall|i: int| 0 <= i < w_new.districts@.len() implies (#[trigger] w_new.districts@[
        i]).wf(w_id, i) by {
        if i != district_id - 1 {
            assert(w_new.districts@[i] == w_old.districts@[i]);
        }
    }
}

} // verus!


verus! {

/// Customer fields that Payment leaves untouched.
pub open spec fn customer_statics_eq(a: Customer, b: Customer) -> bool {
    &&& a.c_id == b.c_id
    &&& a.c_d_id == b.c_d_id
    &&& a.c_w_id == b.c_w_id
    &&& a.c_first == b.c_first
    &&& a.c_middle == b.c_middle
    &&& a.c_last == b.c_last
    &&& a.c_street_1 == b.c_street_1
    &&& a.c_street_2 == b.c_street_2
    &&& a.c_city == b.c_city
    &&& a.c_state == b.c_state
    &&& a.c_zip == b.c_zip
    &&& a.c_phone == b.c_phone
    &&& a.c_since == b.c_since
    &&& a.c_credit == b.c_credit
    &&& a.c_credit_lim == b.c_credit_lim
    &&& a.c_discount == b.c_discount
}

/// The customer row after paying `amount`: balance down by exactly the
/// amount, year-to-date payment and payment count up (clamped), and on bad
/// credit the data blob rewritten with the audit prefix.
pub open spec fn spec_paid_customer(
    a: Customer,
    b: Customer,
    d_w_id: int,
    w_id: int,
    amount: int,
) -> bool {
    &&& customer_statics_eq(a, b)
    &&& a.c_delivery_cnt == b.c_delivery_cnt
    &&& a.c_balance == b.c_balance - amount
    &&& a.c_ytd_payment == spec_sat_add_i64(b.c_ytd_payment as int, amount)
    &&& a.c_payment_cnt == spec_sat_add_i64(b.c_payment_cnt as int, 1)
    &&& if b.c_credit is Bad {
        a.c_data@ == spec_pay_data(
            b.c_data@,
            b.c_id as int,
            b.c_d_id as int,
            b.c_w_id as int,
            d_w_id,
            w_id,
            amount,
        )
    } else {
        a.c_data == b.c_data
    }
}

impl TpccDb {
    /// The request names an existing warehouse, district and customer.
    pub open spec fn spec_payment_valid(
        &self,
        w: int,
        d: int,
        cw: int,
        cd: int,
        cid: int,
    ) -> bool {
        &&& 1 <= w <= self.warehouses@.len()
        &&& 1 <= d <= self.warehouses@[w - 1].districts@.len()
        &&& 1 <= cw <= self.warehouses@.len()
        &&& 1 <= cd <= self.warehouses@[cw - 1].districts@.len()
        &&& 1 <= cid <= self.warehouses@[cw - 1].districts@[cd - 1].customers@.len()
    }

    /// The customer's balance can still take the debit.
    pub open spec fn spec_payment_fits(&self, cw: int, cd: int, cid: int, amount: int) -> bool {
        self.warehouses@[cw - 1].districts@[cd - 1].customers@[cid - 1].c_balance - amount
            >= i64::MIN
    }
}

/// Everything Payment commits: warehouse and district year-to-date grown by
/// the amount, the customer debited, one ledger row appended, nothing else
/// touched. Warehouse `w`/district `d` take the revenue; the customer lives
/// at `cw`/`cd`/`cid`, possibly the same district.
pub open spec fn spec_payment_applied(
    db_old: TpccDb,
    db_new: TpccDb,
    w: int,
    d: int,
    cw: int,
    cd: int,
    cid: int,
    amount: int,
    now_ms: i64,
) -> bool {
    &&& db_new.items@ == db_old.items@
    &&& db_new.warehouses@.len() == db_old.warehouses@.len()
    &&& forall|wj: int| 0 <= wj < db_old.warehouses@.len() ==> {
        let a = #[trigger] db_new.warehouses@[wj];
        let b = db_old.warehouses@[wj];
        &&& warehouse_statics_except_ytd_eq(a, b)
        &&& a.stocks@ == b.stocks@
        &&& a.w_ytd == (if wj == w - 1 {
            spec_sat_add_i64(b.w_ytd as int, amount)
        } else {
            b.w_ytd as int
        })
        &&& a.districts@.len() == b.districts@.len()
        &&& forall|dk: int| 0 <= dk < b.districts@.len() ==> {
            let da = #[trigger] a.districts@[dk];
            let dd = b.districts@[dk];
            &&& district_statics_except_ytd_eq(da, dd)
            &&& da.orders@ == dd.orders@
            &&& da.new_orders@ == dd.new_orders@
            &&& da.d_next_o_id == dd.d_next_o_id
            &&& da.d_ytd == (if wj == w - 1 && dk == d - 1 {
                spec_sat_add_i64(dd.d_ytd as int, amount)
            } else {
                dd.d_ytd as int
            })
            &&& da.customers@.len() == dd.customers@.len()
            &&& forall|ci: int| 0 <= ci < dd.customers@.len() ==> {
                if wj == cw - 1 && dk == cd - 1 && ci == cid - 1 {
                    spec_paid_customer(
                        #[trigger] da.customers@[ci],
                        dd.customers@[ci],
                        w,
                        w,
                        amount,
                    )
                } else {
                    #[trigger] da.customers@[ci] == dd.customers@[ci]
                }
            }
        }
    }
    &&& db_new.histories@.len() == db_old.histories@.len() + 1
    &&& db_new.histories@.drop_last() == db_old.histories@
    &&& ({
        let h = db_new.histories@.last();
        &&& h.h_c_id == cid
        &&& h.h_c_d_id == cd
        &&& h.h_c_w_id == cw
        &&& h.h_d_id == d
        &&& h.h_w_id == w
        &&& h.h_date == now_ms
        &&& h.h_amount == amount
        &&& h.h_data@ == db_old.warehouses@[w - 1].w_name@ + "    "@ + db_old.warehouses@[w
            - 1].districts@[d - 1].d_name@
    })
}

/// Warehouse fields that Payment leaves untouched.
pub open spec fn warehouse_statics_except_ytd_eq(a: Warehouse, b: Warehouse) -> bool {
    &&& a.w_id == b.w_id
    &&& a.w_name == b.w_name
    &&& a.w_street_1 == b.w_street_1
    &&& a.w_street_2 == b.w_street_2
    &&& a.w_city == b.w_city
    &&& a.w_state == b.w_state
    &&& a.w_zip == b.w_zip
    &&& a.w_tax == b.w_tax
}

/// District fields that Payment leaves untouched.
pub open spec fn district_statics_except_ytd_eq(a: District, b: District) -> bool {
    &&& a.d_id == b.d_id
    &&& a.d_w_id == b.d_w_id
    &&& a.d_name == b.d_name
    &&& a.d_street_1 == b.d_street_1
    &&& a.d_street_2 == b.d_street_2
    &&& a.d_city == b.d_city
    &&& a.d_state == b.d_state
    &&& a.d_zip == b.d_zip
    &&& a.d_tax == b.d_tax
}

impl TpccDb {
    /// Payment: credit the revenue to the warehouse and district, debit the
    /// customer's balance by exactly the amount, rewrite a bad-credit
    /// customer's data blob, and append the ledger row.
    pub fn pay(
        &mut self,
        warehouse_id: i32,
        district_id: i32,
        customer_warehouse_id: i32,
        customer_district_id: i32,
        customer_id: i32,
        amount: i64,
        now_ms: i64,
    ) -> (r: Result<(), Error>)
        requires
            old(self).wf(),
            0 <= amount,
        ensures
            final(self).wf(),
            match r {
                Ok(_) => {
                    &&& old(self).spec_payment_valid(
                        warehouse_id as int,
                        district_id as int,
                        customer_warehouse_id as int,
                        customer_district_id as int,
                        customer_id as int,
                    )
                    &&& old(self).spec_payment_fits(
                        customer_warehouse_id as int,
                        customer_district_id as int,
                        customer_id as int,
                        amount as int,
                    )
                    &&& spec_payment_applied(
                        *old(self),
                        *final(self),
                        warehouse_id as int,
                        district_id as int,
                        customer_warehouse_id as int,
                        customer_district_id as int,
                        customer_id as int,
                        amount as int,
                        now_ms,
                    )
                },
                Err(e) => {
                    &&& *final(self) == *old(self)
                    &&& if old(self).spec_payment_valid(
                        warehouse_id as int,
                        district_id as int,
                        customer_warehouse_id as int,
                        customer_district_id as int,
                        customer_id as int,
                    ) {
                        e == Error::StorageFailure && !old(self).spec_payment_fits(
                            customer_warehouse_id as int,
                            customer_district_id as int,
                            customer_id as int,
                            amount as int,
                        )
                    } else {
                        e == Error::NotFound
                    }
                },
            },
    {
        // Validation pass: reject before any mutation.
        if !(1 <= warehouse_id && warehouse_id as usize <= self.warehouses.len()) {
            return Err(Error::NotFound);
        }
        let wi = (warehouse_id - 1) as usize;
        if !(1 <= district_id && district_id as usize <= self.warehouses[wi].districts.len()) {
            return Err(Error::NotFound);
        }
        let di = (district_id - 1) as usize;
        if !(1 <= customer_warehouse_id
            && customer_warehouse_id as usize <= self.warehouses.len()) {
            return Err(Error::NotFound);
        }
        let cwi = (customer_warehouse_id - 1) as usize;
        if !(1 <= customer_district_id
            && customer_district_id as usize <= self.warehouses[cwi].districts.len()) {
            return Err(Error::NotFound);
        }
        let cdi = (customer_district_id - 1) as usize;
        if !(1 <= customer_id
            && customer_id as usize <= self.warehouses[cwi].districts[cdi].customers.len()) {
            return Err(Error::NotFound);
        }
        let ci = (customer_id - 1) as usize;
        let balance = self.warehouses[cwi].districts[cdi].customers[ci].c_balance;
        if balance < i64::MIN + amount {
            return Err(Error::StorageFailure);
        }

        let w_name = self.warehouses[wi].w_name.clone();
        let d_name = self.warehouses[wi].districts[di].d_name.clone();

        // Credit the warehouse's and the district's year-to-date revenue.
        let w = vstd::std_specs::vec::vec_index_mut(&mut self.warehouses, wi);
        w.w_ytd = sat_add_i64(w.w_ytd, amount);
        let dd = vstd::std_specs::vec::vec_index_mut(&mut w.districts, di);
        dd.d_ytd = sat_add_i64(dd.d_ytd, amount);

        // Debit the customer.
        let w2 = vstd::std_specs::vec::vec_index_mut(&mut self.warehouses, cwi);
        let dd2 = vstd::std_specs::vec::vec_index_mut(&mut w2.districts, cdi);
        let c = vstd::std_specs::vec::vec_index_mut(&mut dd2.customers, ci);
        c.c_balance = c.c_balance - amount;
        c.c_ytd_payment = sat_add_i64(c.c_ytd_payment, amount);
        c.c_payment_cnt = sat_add_i64(c.c_payment_cnt, 1);
        let bad = match c.c_credit {
            Credit::Bad => true,
            Credit::Good => false,
        };
        if bad {
            let rewritten = audit_rewrite(
                c.c_id,
                c.c_d_id,
                c.c_w_id,
                warehouse_id,
                warehouse_id,
                amount,
                &c.c_data,
            );
            c.c_data = rewritten;
        }

        // Append the ledger row.
        let mut h_data = w_name;
        h_data.append("    ");
        h_data.append(d_name.as_str());
        self.histories.push(History {
            h_c_id: customer_id,
            h_c_d_id: customer_district_id,
            h_c_w_id: customer_warehouse_id,
            h_d_id: district_id,
            h_w_id: warehouse_id,
            h_date: now_ms,
            h_amount: amount,
            h_data,
        });

        proof {
            assert(self.histories@.drop_last() =~= old(self).histories@);
            lemma_payment_wf(*old(self), *self, warehouse_id as int, district_id as int,
                customer_warehouse_id as int, customer_district_id as int, customer_id as int,
                amount as int, now_ms);
        }
        Ok(())
    }
}

/// Every byte of the audit prefix is ASCII.
#[verifier::rlimit(50)]
proof fn lemma_audit_bytes_ascii(
    c_id: int,
    c_d_id: int,
    c_w_id: int,
    d_w_id: int,
    w_id: int,
    amount: int,
)
    requires
        c_id >= 0,
        c_d_id >= 0,
        c_w_id >= 0,
        d_w_id >= 0,
        w_id >= 0,
        amount >= 0,
    ensures
        forall|i: int| 0 <= i < spec_audit_bytes(c_id, c_d_id, c_w_id, d_w_id, w_id, amount).len()
            ==> #[trigger] spec_audit_bytes(c_id, c_d_id, c_w_id, d_w_id, w_id, amount)[i] < 128,
{
    lemma_dec_bytes_ascii(c_id);
    lemma_dec_bytes_ascii(c_d_id);
    lemma_dec_bytes_ascii(c_w_id);
    lemma_dec_bytes_ascii(d_w_id);
    lemma_dec_bytes_ascii(w_id);
    lemma_dec_bytes_ascii(amount / 100);
}

/// The rewritten data blob is ASCII again.
proof fn lemma_pay_data_ascii(
    old_data: Seq<char>,
    c_id: int,
    c_d_id: int,
    c_w_id: int,
    d_w_id: int,
    w_id: int,
    amount: int,
)
    requires
        c_id >= 0,
        c_d_id >= 0,
        c_w_id >= 0,
        d_w_id >= 0,
        w_id >= 0,
        amount >= 0,
        is_ascii_chars(old_data),
    ensures
        is_ascii_chars(spec_pay_data(old_data, c_id, c_d_id, c_w_id, d_w_id, w_id, amount)),
{
    lemma_audit_bytes_ascii(c_id, c_d_id, c_w_id, d_w_id, w_id, amount);
    let audit = spec_audit_bytes(c_id, c_d_id, c_w_id, d_w_id, w_id, amount);
    let r = spec_pay_data(old_data, c_id, c_d_id, c_w_id, d_w_id, w_id, amount);
    assert forall|i: int| 0 <= i < r.len() implies '\0' <= #[trigger] r[i] <= '\u{7f}' by {
        if i < audit.len() {
            assert(r[i] == audit[i] as char);
        } else {
            assert(r[i] == old_data[i - audit.len()]);
        }
    }
}

/// The store is well-formed again after a payment.
proof fn lemma_payment_wf(
    db_old: TpccDb,
    db_new: TpccDb,
    w: int,
    d: int,
    cw: int,
    cd: int,
    cid: int,
    amount: int,
    now_ms: i64,
)
    requires
        db_old.wf(),
        0 <= amount,
        db_old.spec_payment_valid(w, d, cw, cd, cid),
        spec_payment_applied(db_old, db_new, w, d, cw, cd, cid, amount, now_ms),
    ensures
        db_new.wf(),
{
    assert forall|wj: int| 0 <= wj < db_new.warehouses@.len() implies (
    #[trigger] db_new.warehouses@[wj]).wf(wj) by {
        let a = db_new.warehouses@[wj];
        let b = db_old.warehouses@[wj];
        assert(b.wf(wj));
        assert forall|dk: int| 0 <= dk < a.districts@.len() implies (
        #[trigger] a.districts@[dk]).wf(wj + 1, dk) by {
            let da = a.districts@[dk];
            let dd = b.districts@[dk];
            assert(dd.wf(wj + 1, dk));
            assert forall|cj: int| 0 <= cj < da.customers@.len() implies (
            #[trigger] da.customers@[cj]).wf(wj + 1, dk + 1, cj) by {
                assert(dd.customers@[cj].wf(wj + 1, dk + 1, cj));
                if wj == cw - 1 && dk == cd - 1 && cj == cid - 1 {
                    assert(spec_paid_customer(da.customers@[cj], dd.customers@[cj], w, w, amount));
                    let b_ = dd.customers@[cj];
                    if b_.c_credit is Bad {
                        lemma_pay_data_ascii(
                            b_.c_data@,
                            b_.c_id as int,
                            b_.c_d_id as int,
                            b_.c_w_id as int,
                            w,
                            w,
                            amount,
                        );
                    }
                } else {
                    assert(da.customers@[cj] == dd.customers@[cj]);
                }
            }
        }
    }
}

} // verus!

verus! {

/// An order row after delivery: carrier set, every line stamped with the
/// shared delivery instant, all else untouched.
pub open spec fn spec_delivered_order(a: Order, b: Order, carrier_id: i32, now_ms: i64) -> bool {
    &&& a.o_id == b.o_id
    &&& a.o_d_id == b.o_d_id
    &&& a.o_w_id == b.o_w_id
    &&& a.o_c_id == b.o_c_id
    &&& a.o_entry_d == b.o_entry_d
    &&& a.o_all_local == b.o_all_local
    &&& a.o_carrier_id == Some(carrier_id)
    &&& a.lines@.len() == b.lines@.len()
    &&& forall|i: int| 0 <= i < b.lines@.len() ==> #[trigger] a.lines@[i] == OrderLine {
        ol_delivery_d: Some(now_ms),
        ..b.lines@[i]
    }
}

/// Total line amount of the orders in `batch` that customer `c_id` owns.
pub open spec fn spec_credit(orders: Seq<Order>, batch: Seq<i32>, c_id: int) -> int
    decreases batch.len(),
{
    if batch.len() == 0 {
        0
    } else {
        spec_credit(orders, batch.drop_last(), c_id) + (if orders[batch.last() - 1].o_c_id == c_id {
            spec_sum_amounts(orders[batch.last() - 1].lines@)
        } else {
            0
        })
    }
}

/// Number of orders in `batch` that customer `c_id` owns.
pub open spec fn spec_shipments(orders: Seq<Order>, batch: Seq<i32>, c_id: int) -> int
    decreases batch.len(),
{
    if batch.len() == 0 {
        0
    } else {
        spec_shipments(orders, batch.drop_last(), c_id) + (if orders[batch.last() - 1].o_c_id
            == c_id {
            1int
        } else {
            0int
        })
    }
}

impl District {
    /// The oldest pending order ids, at most ten: what one Delivery call
    /// takes off the queue.
    pub open spec fn spec_delivery_batch(&self) -> Seq<i32> {
        if self.new_orders@.len() <= 10 {
            self.new_orders@
        } else {
            self.new_orders@.take(10)
        }
    }

    /// Balances and delivery counts can take a whole batch.
    pub open spec fn spec_delivery_fits(&self) -> bool {
        forall|ci: int| 0 <= ci < self.customers@.len() ==> {
            &&& (#[trigger] self.customers@[ci]).c_balance <= i64::MAX - 200_000_000
            &&& self.customers@[ci].c_delivery_cnt <= i64::MAX - 10
        }
    }
}

/// Everything one district's Delivery commits: the batch leaves the queue,
/// its orders get the carrier and the shared timestamp, each owning
/// customer's balance grows by the total of the delivered lines.
pub open spec fn spec_delivery_applied(
    d_old: District,
    d_new: District,
    carrier_id: i32,
    now_ms: i64,
) -> bool {
    let batch = d_old.spec_delivery_batch();
    &&& d_new.new_orders@ == d_old.new_orders@.skip(batch.len() as int)
    &&& d_new.orders@.len() == d_old.orders@.len()
    &&& forall|j: int| 0 <= j < d_old.orders@.len() ==> (if batch.contains((j + 1) as i32) {
        spec_delivered_order(
            #[trigger] d_new.orders@[j],
            d_old.orders@[j],
            carrier_id,
            now_ms,
        )
    } else {
        d_new.orders@[j] == d_old.orders@[j]
    })
    &&& d_new.customers@.len() == d_old.customers@.len()
    &&& forall|ci: int| 0 <= ci < d_old.customers@.len() ==> {
        let a = #[trigger] d_new.customers@[ci];
        let b = d_old.customers@[ci];
        &&& customer_statics_eq(a, b)
        &&& a.c_ytd_payment == b.c_ytd_payment
        &&& a.c_payment_cnt == b.c_payment_cnt
        &&& a.c_data == b.c_data
        &&& a.c_balance == b.c_balance + spec_credit(d_old.orders@, batch, ci + 1)
        &&& a.c_delivery_cnt == b.c_delivery_cnt + spec_shipments(d_old.orders@, batch, ci + 1)
    }
    &&& district_statics_eq(d_new, d_old)
    &&& d_new.d_next_o_id == d_old.d_next_o_id
}

/// Sums of line amounts agree when the amounts agree pointwise.
proof fn lemma_sum_amounts_pointwise(a: Seq<OrderLine>, b: Seq<OrderLine>)
    requires
        a.len() == b.len(),
        forall|i: int| 0 <= i < a.len() ==> #[trigger] a[i].ol_amount == b[i].ol_amount,
    ensures
        spec_sum_amounts(a) == spec_sum_amounts(b),
    decreases a.len(),
{
    if a.len() > 0 {
        lemma_sum_amounts_pointwise(a.drop_last(), b.drop_last());
    }
}

/// A sum of well-formed line amounts is small.
proof fn lemma_sum_amounts_bound(lines: Seq<OrderLine>)
    requires
        forall|i: int| 0 <= i < lines.len() ==> (#[trigger] lines[i]).wf(),
    ensures
        0 <= spec_sum_amounts(lines) <= lines.len() * 1_000_000,
    decreases lines.len(),
{
    if lines.len() > 0 {
        lemma_sum_amounts_bound(lines.drop_last());
    }
}

/// A batch's credit to one customer is bounded by the batch size.
proof fn lemma_credit_bound(orders: Seq<Order>, batch: Seq<i32>, c_id: int, line_cap: int)
    requires
        forall|k: int| 0 <= k < batch.len() ==> 1 <= #[trigger] batch[k] <= orders.len(),
        forall|j: int| 0 <= j < orders.len() ==> (#[trigger] orders[j]).lines@.len() <= 15,
        forall|j: int, i: int| 0 <= j < orders.len() && 0 <= i < orders[j].lines@.len()
            ==> (#[trigger] orders[j].lines@[i]).wf(),
    ensures
        0 <= spec_credit(orders, batch, c_id) <= batch.len() * 15_000_000,
        0 <= spec_shipments(orders, batch, c_id) <= batch.len(),
    decreases batch.len(),
{
    if batch.len() > 0 {
        lemma_credit_bound(orders, batch.drop_last(), c_id, line_cap);
        let o = orders[batch.last() - 1];
        lemma_sum_amounts_bound(o.lines@);
    }
}

impl District {
    /// Whether a whole delivery batch fits this district's counters.
    #[verifier::loop_isolation(false)]
    pub fn delivery_fits(&self) -> (r: bool)
        ensures
            r == self.spec_delivery_fits(),
    {
        let mut ci: usize = 0;
        while ci < self.customers.len()
            invariant
                ci <= self.customers@.len(),
                forall|j: int| 0 <= j < ci ==> {
                    &&& (#[trigger] self.customers@[j]).c_balance <= i64::MAX - 200_000_000
                    &&& self.customers@[j].c_delivery_cnt <= i64::MAX - 10
                },
            decreases self.customers@.len() - ci,
        {
            let c = &self.customers[ci];
            if c.c_balance > i64::MAX - 200_000_000 || c.c_delivery_cnt > i64::MAX - 10 {
                return false;
            }
            ci = ci + 1;
        }
        true
    }

    /// Delivery for one district: take up to the ten oldest pending orders
    /// off the queue (lowest ids first), set their carrier, stamp all their
    /// lines with one shared instant, and credit each order's total to its
    /// customer. An empty queue delivers zero and is not an error.
    #[verifier::loop_isolation(false)]
    pub fn delivery(&mut self, carrier_id: i32, now_ms: i64) -> (r: Result<usize, Error>)
        requires
            old(self).inv(),
        ensures
            final(self).inv(),
            final(self).d_id == old(self).d_id,
            final(self).d_w_id == old(self).d_w_id,
            match r {
                Ok(n) => {
                    &&& old(self).spec_delivery_fits()
                    &&& n == old(self).spec_delivery_batch().len()
                    &&& spec_delivery_applied(*old(self), *final(self), carrier_id, now_ms)
                },
                Err(e) => {
                    &&& *final(self) == *old(self)
                    &&& e == Error::StorageFailure
                    &&& !old(self).spec_delivery_fits()
                },
            },
    {
        let ghost w_id = self.d_w_id as int;
        let ghost d_idx = self.d_id - 1 as int;

        // Pre-check: every balance and count can take a whole batch.
        let mut ci: usize = 0;
        while ci < self.customers.len()
            invariant
                self == old(self),
                ci <= self.customers@.len(),
                forall|j: int| 0 <= j < ci ==> {
                    &&& (#[trigger] self.customers@[j]).c_balance <= i64::MAX - 200_000_000
                    &&& self.customers@[j].c_delivery_cnt <= i64::MAX - 10
                },
            decreases self.customers@.len() - ci,
        {
            let c = &self.customers[ci];
            if c.c_balance > i64::MAX - 200_000_000 || c.c_delivery_cnt > i64::MAX - 10 {
                return Err(Error::StorageFailure);
            }
            ci = ci + 1;
        }

        let count = if self.new_orders.len() > 10 {
            10
        } else {
            self.new_orders.len()
        };
        let ghost batch = old(self).spec_delivery_batch();
        proof {
            assert(batch =~= self.new_orders@.take(count as int));
        }

        let ghost d0 = *self;
        let mut k: usize = 0;
        while k < count
            invariant
                old(self).inv(),
                d0 == *old(self),
                old(self).spec_delivery_fits(),
                count == batch.len(),
                count <= 10,
                count <= d0.new_orders@.len(),
                batch == d0.new_orders@.take(count as int),
                k <= count,
                self.new_orders@ == d0.new_orders@,
                self.orders@.len() == d0.orders@.len(),
                self.customers@.len() == d0.customers@.len(),
                district_statics_eq(*self, d0),
                self.d_next_o_id == d0.d_next_o_id,
                forall|j: int| 0 <= j < d0.orders@.len() ==> (if batch.take(k as int).contains(
                    (j + 1) as i32,
                ) {
                    spec_delivered_order(
                        #[trigger] self.orders@[j],
                        d0.orders@[j],
                        carrier_id,
                        now_ms,
                    )
                } else {
                    self.orders@[j] == d0.orders@[j]
                }),
                forall|cj: int| 0 <= cj < d0.customers@.len() ==> {
                    let a = #[trigger] self.customers@[cj];
                    let b = d0.customers@[cj];
                    &&& customer_statics_eq(a, b)
                    &&& a.c_ytd_payment == b.c_ytd_payment
                    &&& a.c_payment_cnt == b.c_payment_cnt
                    &&& a.c_data == b.c_data
                    &&& a.c_balance == b.c_balance + spec_credit(
                        d0.orders@,
                        batch.take(k as int),
                        cj + 1,
                    )
                    &&& a.c_delivery_cnt == b.c_delivery_cnt + spec_shipments(
                        d0.orders@,
                        batch.take(k as int),
                        cj + 1,
                    )
                },
            decreases count - k,
        {
            proof {
                assert(batch[k as int] == d0.new_orders@[k as int]);
                assert(1 <= batch[k as int] <= d0.orders@.len());
                // The batch ids are distinct, so this order is still as it
                // was: a queued id occurs in the processed prefix only once.
                assert(!batch.take(k as int).contains(batch[k as int])) by {
                    if batch.take(k as int).contains(batch[k as int]) {
                        let j = choose|j: int| 0 <= j < k && batch.take(k as int)[j] == batch[
                            k as int];
                        assert(d0.new_orders@[j] == d0.new_orders@[k as int]);
                    }
                }
            }
            let oid = self.new_orders[k];
            let oi = (oid - 1) as usize;
            let ghost orders_before = self.orders@;

            let o = vstd::std_specs::vec::vec_index_mut(&mut self.orders, oi);
            proof {
                assert(*o == d0.orders@[oi as int]);
                assert(d0.orders@[oi as int].wf(w_id, d_idx + 1, oi as int,
                    d0.customers@.len() as int));
            }
            o.o_carrier_id = Some(carrier_id);
            let customer_ref = o.o_c_id;
            let mut total: i64 = 0;
            let mut li: usize = 0;
            let ghost lines0 = o.lines@;
            while li < o.lines.len()
                invariant
                    o.o_id == d0.orders@[oi as int].o_id,
                    o.o_d_id == d0.orders@[oi as int].o_d_id,
                    o.o_w_id == d0.orders@[oi as int].o_w_id,
                    o.o_c_id == d0.orders@[oi as int].o_c_id,
                    o.o_entry_d == d0.orders@[oi as int].o_entry_d,
                    o.o_all_local == d0.orders@[oi as int].o_all_local,
                    o.o_carrier_id == Some(carrier_id),
                    li <= o.lines@.len(),
                    o.lines@.len() == lines0.len(),
                    lines0.len() <= 15,
                    forall|i: int| 0 <= i < lines0.len() ==> (#[trigger] lines0[i]).wf(),
                    forall|i: int| 0 <= i < li ==> #[trigger] o.lines@[i] == (OrderLine {
                        ol_delivery_d: Some(now_ms),
                        ..lines0[i]
                    }),
                    forall|i: int| li <= i < lines0.len() ==> #[trigger] o.lines@[i] == lines0[i],
                    total == spec_sum_amounts(lines0.take(li as int)),
                    0 <= total <= li * 1_000_000,
                decreases o.lines@.len() - li,
            {
                let l = vstd::std_specs::vec::vec_index_mut(&mut o.lines, li);
                l.ol_delivery_d = Some(now_ms);
                let amt = l.ol_amount;
                proof {
                    assert(lines0.take(li as int + 1).drop_last() =~= lines0.take(li as int));
                    assert(lines0.take(li as int + 1).last() == lines0[li as int]);
                }
                total = total + amt;
                li = li + 1;
            }
            proof {
                assert(lines0.take(lines0.len() as int) =~= lines0);
                assert(total == spec_sum_amounts(lines0));
            }
            let cidx = (customer_ref - 1) as usize;
            let c = vstd::std_specs::vec::vec_index_mut(&mut self.customers, cidx);
            proof {
                lemma_credit_bound(d0.orders@, batch.take(k as int), cidx as int + 1, 15);
            }
            c.c_balance = c.c_balance + total;
            c.c_delivery_cnt = c.c_delivery_cnt + 1;

            proof {
                assert(batch.take(k as int + 1).drop_last() =~= batch.take(k as int));
                assert(batch.take(k as int + 1).last() == batch[k as int]);
                lemma_push_contains_take(batch, k as int);
                assert forall|cj: int| 0 <= cj < d0.customers@.len() implies {
                    let a = #[trigger] self.customers@[cj];
                    let b = d0.customers@[cj];
                    &&& a.c_balance == b.c_balance + spec_credit(
                        d0.orders@,
                        batch.take(k as int + 1),
                        cj + 1,
                    )
                    &&& a.c_delivery_cnt == b.c_delivery_cnt + spec_shipments(
                        d0.orders@,
                        batch.take(k as int + 1),
                        cj + 1,
                    )
                } by {
                    lemma_credit_bound(d0.orders@, batch.take(k as int), cj + 1, 15);
                }
            }
            k = k + 1;
        }

        proof {
            assert(batch.take(count as int) =~= batch);
        }
        let tail = self.new_orders.split_off(count);
        self.new_orders = tail;

        proof {
            assert forall|cj: int| 0 <= cj < d0.customers@.len() implies (
            #[trigger] self.customers@[cj]).c_delivery_cnt >= d0.customers@[cj].c_delivery_cnt by {
                lemma_credit_bound(d0.orders@, batch, cj + 1, 15);
            }
            lemma_delivery_wf(d0, *self, carrier_id, now_ms, batch);
        }
        Ok(count)
    }
}

/// Membership in a one-longer prefix of a sequence.
proof fn lemma_push_contains_take(s: Seq<i32>, k: int)
    requires
        0 <= k < s.len(),
    ensures
        forall|x: i32| s.take(k + 1).contains(x) <==> (s.take(k).contains(x) || x == s[k]),
{
    assert forall|x: i32| s.take(k + 1).contains(x) implies (s.take(k).contains(x) || x == s[k]) by {
        let i = choose|i: int| 0 <= i < k + 1 && #[trigger] s.take(k + 1)[i] == x;
        if i < k {
            assert(s.take(k)[i] == x);
        }
    }
    assert forall|x: i32| (s.take(k).contains(x) || x == s[k]) implies s.take(k + 1).contains(
        x,
    ) by {
        if s.take(k).contains(x) {
            let i = choose|i: int| 0 <= i < k && #[trigger] s.take(k)[i] == x;
            assert(s.take(k + 1)[i] == x);
        } else {
            assert(s.take(k + 1)[k] == x);
        }
    }
}

/// The district is well-formed again after a delivery.
proof fn lemma_delivery_wf(
    d_old: District,
    d_new: District,
    carrier_id: i32,
    now_ms: i64,
    batch: Seq<i32>,
)
    requires
        d_old.inv(),
        batch == d_old.spec_delivery_batch(),
        d_new.new_orders@ == d_old.new_orders@.skip(batch.len() as int),
        d_new.orders@.len() == d_old.orders@.len(),
        d_new.customers@.len() == d_old.customers@.len(),
        district_statics_eq(d_new, d_old),
        d_new.d_next_o_id == d_old.d_next_o_id,
        forall|j: int| 0 <= j < d_old.orders@.len() ==> (if batch.contains((j + 1) as i32) {
            spec_delivered_order(#[trigger] d_new.orders@[j], d_old.orders@[j], carrier_id, now_ms)
        } else {
            d_new.orders@[j] == d_old.orders@[j]
        }),
        forall|ci: int| 0 <= ci < d_old.customers@.len() ==> customer_statics_eq(
            #[trigger] d_new.customers@[ci],
            d_old.customers@[ci],
        ) && d_new.customers@[ci].c_data == d_old.customers@[ci].c_data
            && d_new.customers@[ci].c_payment_cnt == d_old.customers@[ci].c_payment_cnt
            && d_new.customers@[ci].c_delivery_cnt >= d_old.customers@[ci].c_delivery_cnt,
    ensures
        d_new.wf(d_old.d_w_id as int, d_old.d_id - 1),
{
    let w_id = d_old.d_w_id as int;
    let d_idx = d_old.d_id - 1;
    assert(d_old.wf(w_id, d_idx));
    let n = batch.len() as int;

    // Customers stay well-formed.
    assert forall|ci: int| 0 <= ci < d_new.customers@.len() implies (
    #[trigger] d_new.customers@[ci]).wf(w_id, d_idx + 1, ci) by {
        assert(d_old.customers@[ci].wf(w_id, d_idx + 1, ci));
    }

    // Orders stay well-formed.
    assert forall|j: int| 0 <= j < d_new.orders@.len() implies (#[trigger] d_new.orders@[j]).wf(
        w_id,
        d_idx + 1,
        j,
        d_new.customers@.len() as int,
    ) by {
        let a = d_new.orders@[j];
        let b = d_old.orders@[j];
        assert(b.wf(w_id, d_idx + 1, j, d_old.customers@.len() as int));
        if batch.contains((j + 1) as i32) {
            assert(spec_delivered_order(a, b, carrier_id, now_ms));
            assert(forall|i: int| 0 <= i < a.lines@.len()
                ==> (#[trigger] a.lines@[i]).ol_amount == b.lines@[i].ol_amount
                    && a.lines@[i].ol_quantity == b.lines@[i].ol_quantity
                    && a.lines@[i].ol_supply_w_id == b.lines@[i].ol_supply_w_id);
            assert forall|i: int| 0 <= i < a.lines@.len() implies (#[trigger] a.lines@[i]).wf() by {
                assert(b.lines@[i].wf());
            }
            if a.o_all_local {
                assert forall|i: int| 0 <= i < a.lines@.len() implies (
                #[trigger] a.lines@[i]).ol_supply_w_id == w_id by {
                    assert(b.lines@[i].ol_supply_w_id == w_id);
                }
            }
            if forall|i: int| 0 <= i < a.lines@.len()
                ==> (#[trigger] a.lines@[i]).ol_supply_w_id == w_id {
                assert forall|i: int| 0 <= i < b.lines@.len() implies (
                #[trigger] b.lines@[i]).ol_supply_w_id == w_id by {
                    assert(a.lines@[i].ol_supply_w_id == w_id);
                }
                assert(b.o_all_local);
            }
        }
    }

    // The queue suffix stays sorted and within range.
    assert forall|i: int| 0 <= i < d_new.new_orders@.len() implies 1 <= #[trigger] d_new
        .new_orders@[i] <= d_new.orders@.len() by {
        assert(d_new.new_orders@[i] == d_old.new_orders@[n + i]);
    }
    assert forall|i: int, j: int| 0 <= i < j < d_new.new_orders@.len()
        implies #[trigger] d_new.new_orders@[i] < #[trigger] d_new.new_orders@[j] by {
        assert(d_new.new_orders@[i] == d_old.new_orders@[n + i]);
        assert(d_new.new_orders@[j] == d_old.new_orders@[n + j]);
    }

    // The queue still holds exactly the undelivered orders.
    assert forall|oid: int| 1 <= oid <= d_new.orders@.len() implies (d_new.new_orders@.contains(
        oid as i32,
    ) <==> (#[trigger] d_new.orders@[oid - 1]).o_carrier_id is None) by {
        let inb = batch.contains(oid as i32);
        if d_new.new_orders@.contains(oid as i32) {
            // A queued id sits past the batch, so it was not delivered.
            let i = choose|i: int| 0 <= i < d_new.new_orders@.len() && d_new.new_orders@[i]
                == oid as i32;
            assert(d_old.new_orders@[n + i] == oid as i32);
            assert(!inb) by {
                if inb {
                    let bj = choose|bj: int| 0 <= bj < batch.len() && batch[bj] == oid as i32;
                    assert(d_old.new_orders@[bj] == oid as i32);
                    assert(d_old.new_orders@[bj] < d_old.new_orders@[n + i]);
                }
            }
            assert(d_old.new_orders@.contains(oid as i32));
            assert(d_old.orders@[oid - 1].o_carrier_id is None);
            assert(d_new.orders@[oid - 1] == d_old.orders@[oid - 1]);
        } else {
            if d_new.orders@[oid - 1].o_carrier_id is None {
                // An undelivered order was queued before and not in the
                // batch, so it is still queued: contradiction.
                assert(!inb) by {
                    if inb {
                        assert(spec_delivered_order(d_new.orders@[oid - 1], d_old.orders@[oid - 1],
                            carrier_id, now_ms));
                    }
                }
                assert(d_new.orders@[oid - 1] == d_old.orders@[oid - 1]);
                assert(d_old.new_orders@.contains(oid as i32));
                let i = choose|i: int| 0 <= i < d_old.new_orders@.len() && d_old.new_orders@[i]
                    == oid as i32;
                assert(i >= n) by {
                    if i < n {
                        assert(batch[i] == oid as i32);
                    }
                }
                assert(d_new.new_orders@[i - n] == oid as i32);
                assert(d_new.new_orders@.contains(oid as i32));
            }
        }
    }
}

} // verus!
