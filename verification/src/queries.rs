//! Read-only queries: a customer's most recent order and the low-stock
//! count over the district's recent orders.

use vstd::prelude::*;
use vstd::string::StringSliceAdditionalSpecFns;
use vstd::utf8::is_ascii_chars;
use crate::error::Error;
use crate::model::{Customer, District, Order, Stock, TpccDb};

verus! {

/// Lexicographic order on character sequences, by code point: the empty
/// sequence first, then by the first differing character.
pub open spec fn lex_le(a: Seq<char>, b: Seq<char>) -> bool
    decreases a.len(),
{
    if a.len() == 0 {
        true
    } else if b.len() == 0 {
        false
    } else if (a[0] as u32) < (b[0] as u32) {
        true
    } else if (a[0] as u32) > (b[0] as u32) {
        false
    } else {
        lex_le(a.skip(1), b.skip(1))
    }
}

/// The lexicographic order is total.
pub proof fn lemma_lex_le_total(a: Seq<char>, b: Seq<char>)
    ensures
        lex_le(a, b) || lex_le(b, a),
    decreases a.len(),
{
    if a.len() > 0 && b.len() > 0 && (a[0] as u32) == (b[0] as u32) {
        lemma_lex_le_total(a.skip(1), b.skip(1));
    }
}

/// The lexicographic order is transitive.
pub proof fn lemma_lex_le_trans(a: Seq<char>, b: Seq<char>, c: Seq<char>)
    requires
        lex_le(a, b),
        lex_le(b, c),
    ensures
        lex_le(a, c),
    decreases a.len(),
{
    if a.len() > 0 && b.len() > 0 && c.len() > 0 {
        if (a[0] as u32) == (b[0] as u32) && (b[0] as u32) == (c[0] as u32) {
            lemma_lex_le_trans(a.skip(1), b.skip(1), c.skip(1));
        }
    }
}

/// Compare two ASCII strings in lexicographic order.
#[verifier::loop_isolation(false)]
fn str_le(a: &str, b: &str) -> (r: bool)
    requires
        is_ascii_chars(a@),
        is_ascii_chars(b@),
    ensures
        r == lex_le(a@, b@),
{
    broadcast use vstd::string::is_ascii_spec_bytes;

    let ab = a.as_bytes();
    let bb = b.as_bytes();
    proof {
        assert(a.is_ascii());
        assert(b.is_ascii());
        assert(ab@ =~= Seq::new(a@.len(), |i: int| a@[i] as u8));
        assert(bb@ =~= Seq::new(b@.len(), |i: int| b@[i] as u8));
        assert(a@.skip(0) =~= a@);
        assert(b@.skip(0) =~= b@);
    }
    let mut i: usize = 0;
    while i < ab.len() && i < bb.len()
        invariant
            i <= a@.len(),
            i <= b@.len(),
            forall|j: int| 0 <= j < i ==> (#[trigger] a@[j]) == b@[j],
            lex_le(a@, b@) == lex_le(a@.skip(i as int), b@.skip(i as int)),
            lex_le(b@, a@) == lex_le(b@.skip(i as int), a@.skip(i as int)),
        decreases a@.len() - i,
    {
        let ca = ab[i];
        let cb = bb[i];
        proof {
            assert(a@.skip(i as int)[0] == a@[i as int]);
            assert(b@.skip(i as int)[0] == b@[i as int]);
            assert(a@.skip(i as int).skip(1) =~= a@.skip(i as int + 1));
            assert(b@.skip(i as int).skip(1) =~= b@.skip(i as int + 1));
        }
        if ca < cb {
            return true;
        }
        if ca > cb {
            return false;
        }
        i = i + 1;
    }
    proof {
        if i >= a@.len() {
            assert(a@.skip(i as int).len() == 0);
        } else {
            assert(b@.skip(i as int).len() == 0);
            assert(a@.skip(i as int).len() > 0);
        }
    }
    ab.len() <= bb.len()
}

impl Customer {
    /// The customer's most recent order in their district: the order with
    /// the highest id among theirs. A customer with no orders is an error
    /// for this lookup; the engine turns that into an empty order list.
    pub fn last_order<'a>(&self, district: &'a District) -> (r: Result<&'a Order, Error>)
        ensures
            match r {
                Ok(o) => exists|idx: int|
                    {
                        &&& 0 <= idx < district.orders@.len()
                        &&& *o == district.orders@[idx]
                        &&& (#[trigger] district.orders@[idx]).o_c_id == self.c_id
                        &&& forall|i: int| idx < i < district.orders@.len()
                            ==> (#[trigger] district.orders@[i]).o_c_id != self.c_id
                    },
                Err(e) => {
                    &&& e == Error::NotFound
                    &&& forall|i: int| 0 <= i < district.orders@.len()
                        ==> (#[trigger] district.orders@[i]).o_c_id != self.c_id
                },
            },
    {
        let mut j: usize = district.orders.len();
        while j > 0
            invariant
                j <= district.orders@.len(),
                forall|i: int| j <= i < district.orders@.len()
                    ==> (#[trigger] district.orders@[i]).o_c_id != self.c_id,
            decreases j,
        {
            j = j - 1;
            if district.orders[j].o_c_id == self.c_id {
                return Ok(&district.orders[j]);
            }
        }
        Err(Error::NotFound)
    }
}

impl District {
    /// Item `iid` was referenced by a line of one of the district's recent
    /// orders (ids within twenty of the next order id) and its stock in the
    /// given warehouse sits below the threshold.
    pub open spec fn spec_is_recent_low_item(
        &self,
        stocks: Seq<Stock>,
        threshold: int,
        iid: int,
    ) -> bool {
        &&& 1 <= iid <= stocks.len()
        &&& stocks[iid - 1].s_quantity < threshold
        &&& exists|oi: int, li: int|
            {
                &&& 0 <= oi < self.orders@.len()
                &&& self.orders@[oi].o_id >= self.d_next_o_id - 20
                &&& 0 <= li < self.orders@[oi].lines@.len()
                &&& (#[trigger] self.orders@[oi].lines@[li]).ol_i_id == iid
            }
    }

    /// How many items with id at most `upto` are recent and low on stock.
    pub open spec fn spec_low_stock_count(
        &self,
        stocks: Seq<Stock>,
        threshold: int,
        upto: int,
    ) -> int
        decreases upto,
    {
        if upto <= 0 {
            0
        } else {
            self.spec_low_stock_count(stocks, threshold, upto - 1) + (
            if self.spec_is_recent_low_item(stocks, threshold, upto) {
                1int
            } else {
                0int
            })
        }
    }

    /// Some recent order's line references the item.
    #[verifier::loop_isolation(false)]
    fn references_item_recently(&self, item_id: i32) -> (found: bool)
        requires
            self.inv(),
        ensures
            found == exists|oi: int, li: int|
                {
                    &&& 0 <= oi < self.orders@.len()
                    &&& self.orders@[oi].o_id >= self.d_next_o_id - 20
                    &&& 0 <= li < self.orders@[oi].lines@.len()
                    &&& (#[trigger] self.orders@[oi].lines@[li]).ol_i_id == item_id
                },
    {
        let lo = if self.orders.len() > 20 {
            self.orders.len() - 20
        } else {
            0
        };
        // Orders are dense, so ids at least `next - 20` sit at the tail.
        assert(forall|oi: int| 0 <= oi < lo
            ==> (#[trigger] self.orders@[oi]).o_id < self.d_next_o_id - 20);
        let mut oi: usize = lo;
        while oi < self.orders.len()
            invariant
                self.inv(),
                lo <= oi <= self.orders@.len(),
                forall|i: int| 0 <= i < lo
                    ==> (#[trigger] self.orders@[i]).o_id < self.d_next_o_id - 20,
                forall|i: int, li: int| lo <= i < oi && 0 <= li < self.orders@[i].lines@.len()
                    ==> (#[trigger] self.orders@[i].lines@[li]).ol_i_id != item_id,
            decreases self.orders@.len() - oi,
        {
            let order = &self.orders[oi];
            let mut li: usize = 0;
            while li < order.lines.len()
                invariant
                    li <= order.lines@.len(),
                    order == &self.orders@[oi as int],
                    oi < self.orders@.len(),
                    forall|i: int| 0 <= i < li
                        ==> (#[trigger] order.lines@[i]).ol_i_id != item_id,
                decreases order.lines@.len() - li,
            {
                if order.lines[li].ol_i_id == item_id {
                    proof {
                        assert(self.orders@[oi as int].o_id == oi + 1);
                        assert(self.orders@[oi as int].lines@[li as int].ol_i_id == item_id);
                    }
                    return true;
                }
                li = li + 1;
            }
            oi = oi + 1;
        }
        false
    }

    /// Stock-Level: among the distinct items referenced by the lines of the
    /// district's most recent orders, count those whose stock quantity in
    /// this warehouse lies below the threshold.
    #[verifier::loop_isolation(false)]
    pub fn check_stock_level(&self, stocks: &Vec<Stock>, threshold: i32) -> (count: usize)
        requires
            self.inv(),
            stocks@.len() <= 1_000_000,
        ensures
            count == self.spec_low_stock_count(stocks@, threshold as int, stocks@.len() as int),
            count <= stocks@.len(),
    {
        let mut count: usize = 0;
        let mut iid: usize = 0;
        while iid < stocks.len()
            invariant
                self.inv(),
                iid <= stocks@.len(),
                count <= iid,
                count == self.spec_low_stock_count(stocks@, threshold as int, iid as int),
            decreases stocks@.len() - iid,
        {
            let is_low = stocks[iid].s_quantity < threshold;
            if is_low {
                if self.references_item_recently((iid + 1) as i32) {
                    count = count + 1;
                }
            }
            iid = iid + 1;
        }
        count
    }
}

/// The first position in `ids` whose customer's first name tops `key`:
/// where a stable insertion keeps the list sorted by first name.
#[verifier::loop_isolation(false)]
fn insert_position(ids: &Vec<i32>, district: &District, key: &String) -> (p: usize)
    requires
        district.inv(),
        is_ascii_chars(key@),
        forall|i: int| 0 <= i < ids@.len() ==> 1 <= #[trigger] ids@[i]
            <= district.customers@.len(),
    ensures
        p <= ids@.len(),
        forall|i: int| 0 <= i < p ==> lex_le(
            district.customers@[#[trigger] ids@[i] - 1].c_first@,
            key@,
        ),
        p < ids@.len() ==> !lex_le(district.customers@[ids@[p as int] - 1].c_first@, key@),
{
    let mut p: usize = 0;
    while p < ids.len()
        invariant
            p <= ids@.len(),
            forall|i: int| 0 <= i < p ==> lex_le(
                district.customers@[#[trigger] ids@[i] - 1].c_first@,
                key@,
            ),
        decreases ids@.len() - p,
    {
        let there = (ids[p] - 1) as usize;
        proof {
            assert(district.customers@[there as int].wf(
                district.d_w_id as int,
                district.d_id as int,
                there as int,
            ));
        }
        if !str_le(district.customers[there].c_first.as_str(), key.as_str()) {
            return p;
        }
        p = p + 1;
    }
    p
}

impl Customer {
    /// Customers of the district with the given surname: exactly the
    /// matching customer ids, sorted by first name. An unknown warehouse or
    /// district matches nobody.
    #[verifier::loop_isolation(false)]
    pub fn find_by_name(
        warehouse_id: i32,
        district_id: i32,
        lastname: &String,
        db: &TpccDb,
    ) -> (r: Vec<i32>)
        requires
            db.wf(),
        ensures
            ({
                let valid = 1 <= warehouse_id <= db.warehouses@.len() && 1 <= district_id
                    <= db.warehouses@[warehouse_id - 1].districts@.len();
                if valid {
                    let customers = db.warehouses@[warehouse_id - 1].districts@[district_id
                        - 1].customers@;
                    &&& forall|i: int| 0 <= i < r@.len() ==> {
                        &&& 1 <= #[trigger] r@[i] <= customers.len()
                        &&& customers[r@[i] - 1].c_last@ == lastname@
                    }
                    &&& forall|cid: int| 1 <= cid <= customers.len() && (
                        #[trigger] customers[cid - 1].c_last)@ == lastname@ ==> r@.contains(
                        cid as i32)
                    &&& forall|i: int, j: int| 0 <= i < j < r@.len() ==> #[trigger] r@[i]
                        != #[trigger] r@[j]
                    &&& forall|i: int, j: int| 0 <= i < j < r@.len() ==> lex_le(
                        customers[#[trigger] r@[i] - 1].c_first@,
                        customers[#[trigger] r@[j] - 1].c_first@,
                    )
                } else {
                    r@.len() == 0
                }
            }),
    {
        let mut result: Vec<i32> = Vec::new();
        if !(1 <= warehouse_id && warehouse_id as usize <= db.warehouses.len()) {
            return result;
        }
        let wi = (warehouse_id - 1) as usize;
        if !(1 <= district_id && district_id as usize <= db.warehouses[wi].districts.len()) {
            return result;
        }
        let di = (district_id - 1) as usize;
        let district = &db.warehouses[wi].districts[di];
        let ghost customers = district.customers@;

        let mut ci: usize = 0;
        while ci < district.customers.len()
            invariant
                ci <= customers.len(),
                forall|i: int| 0 <= i < result@.len() ==> {
                    &&& 1 <= #[trigger] result@[i] <= ci
                    &&& customers[result@[i] - 1].c_last@ == lastname@
                },
                forall|cid: int| 1 <= cid <= ci && (#[trigger] customers[cid - 1].c_last)@
                    == lastname@ ==> result@.contains(cid as i32),
                forall|i: int, j: int| 0 <= i < j < result@.len() ==> #[trigger] result@[i]
                    != #[trigger] result@[j],
                forall|i: int, j: int| 0 <= i < j < result@.len() ==> lex_le(
                    customers[#[trigger] result@[i] - 1].c_first@,
                    customers[#[trigger] result@[j] - 1].c_first@,
                ),
            decreases customers.len() - ci,
        {
            let c = &district.customers[ci];
            if c.c_last.eq(lastname) {
                proof {
                    assert(c.wf(warehouse_id as int, district_id as int, ci as int));
                }
                // Find the first position whose first name tops this one.
                let key_id = (ci + 1) as i32;
                let p = insert_position(&result, district, &c.c_first);
                proof {
                    if p < result@.len() {
                        lemma_lex_le_total(
                            customers[result@[p as int] - 1].c_first@,
                            customers[ci as int].c_first@,
                        );
                    }
                }
                let ghost before = result@;
                result.insert(p, key_id);
                proof {
                    assert forall|i: int, j: int| 0 <= i < j < result@.len() implies lex_le(
                        customers[#[trigger] result@[i] - 1].c_first@,
                        customers[#[trigger] result@[j] - 1].c_first@,
                    ) by {
                        let key = customers[ci as int].c_first@;
                        if i < p && j == p {
                        } else if i == p && j > p {
                            if j - 1 > p {
                                lemma_lex_le_trans(
                                    key,
                                    customers[before[p as int] - 1].c_first@,
                                    customers[before[j - 1] - 1].c_first@,
                                );
                            }
                        }
                    }
                    assert forall|cid: int| 1 <= cid <= ci + 1 && (
                    #[trigger] customers[cid - 1].c_last)@ == lastname@ implies result@.contains(
                        cid as i32) by {
                        if cid == ci + 1 {
                            assert(result@[p as int] == cid as i32);
                        } else {
                            let k = choose|k: int| 0 <= k < before.len() && before[k]
                                == cid as i32;
                            if k < p {
                                assert(result@[k] == cid as i32);
                            } else {
                                assert(result@[k + 1] == cid as i32);
                            }
                        }
                    }
                }
            }
            ci = ci + 1;
        }
        result
    }
}

} // verus!
