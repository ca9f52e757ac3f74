//! Latency measurement and running statistics.
//!
//! A `PerformanceLog` brackets one transaction with four clock readings;
//! `Statistics` and `PerfSummary` keep running sums of call counts and
//! microsecond totals per transaction kind, so averages are one division.

use vstd::prelude::*;
use crate::api;
use crate::clock;

verus! {

/// A call count clamped into the signed 64-bit range for reporting.
pub open spec fn spec_count_i64(n: u64) -> int {
    if n <= i64::MAX {
        n as int
    } else {
        i64::MAX as int
    }
}

fn count_i64(n: u64) -> (r: i64)
    ensures
        r == spec_count_i64(n),
{
    if n <= i64::MAX as u64 {
        n as i64
    } else {
        i64::MAX
    }
}

/// Non-negative difference of two clock readings, in microseconds.
pub open spec fn spec_elapsed_us(from: i64, to: i64) -> int {
    if to >= from {
        to - from
    } else {
        0
    }
}

/// Sum clamped to the top of the 64-bit range.
pub open spec fn spec_sat_add(a: u64, b: u64) -> int {
    if a + b <= u64::MAX {
        a + b
    } else {
        u64::MAX as int
    }
}

fn elapsed_us(from: i64, to: i64) -> (r: u64)
    ensures
        r == spec_elapsed_us(from, to),
{
    if to >= from {
        (to as i128 - from as i128) as u64
    } else {
        0
    }
}

fn sat_add(a: u64, b: u64) -> (r: u64)
    ensures
        r == spec_sat_add(a, b),
{
    if a <= u64::MAX - b {
        a + b
    } else {
        u64::MAX
    }
}

/// Server-side phase timings of one transaction, in microseconds:
/// time to begin, time to run the queries, time to commit.
#[derive(Debug)]
pub struct PerformanceMetrics {
    pub begin_us: u64,
    pub query_us: u64,
    pub commit_us: u64,
}

/// Four clock readings around one transaction, in microseconds:
/// taken before begin, after begin, before commit and after commit.
pub struct PerformanceLog {
    pub t_start: i64,
    pub t_begun: i64,
    pub t_finished: i64,
    pub t_committed: i64,
}

impl PerformanceLog {
    /// Call before the transaction begins; all four readings start equal.
    pub fn new() -> (log: PerformanceLog)
        ensures
            log.t_begun == log.t_start,
            log.t_finished == log.t_start,
            log.t_committed == log.t_start,
    {
        let now = clock::now_micros();
        PerformanceLog { t_start: now, t_begun: now, t_finished: now, t_committed: now }
    }

    /// Call right after the transaction has begun.
    pub fn begin(&mut self)
        ensures
            final(self).t_start == old(self).t_start,
            final(self).t_finished == old(self).t_finished,
            final(self).t_committed == old(self).t_committed,
    {
        self.t_begun = clock::now_micros();
    }

    /// Call when the queries are done, right before commit.
    pub fn finish(&mut self)
        ensures
            final(self).t_start == old(self).t_start,
            final(self).t_begun == old(self).t_begun,
            final(self).t_committed == old(self).t_committed,
    {
        self.t_finished = clock::now_micros();
    }

    /// Call right after commit.
    pub fn commit(&mut self)
        ensures
            final(self).t_start == old(self).t_start,
            final(self).t_begun == old(self).t_begun,
            final(self).t_finished == old(self).t_finished,
    {
        self.t_committed = clock::now_micros();
    }

    /// Whole duration from before begin to after commit, in microseconds.
    pub fn total_us(&self) -> (r: u64)
        ensures
            r == spec_elapsed_us(self.t_start, self.t_committed),
    {
        elapsed_us(self.t_start, self.t_committed)
    }

    /// The three phase durations between the four readings.
    pub fn to_performance_metric(&self) -> (m: PerformanceMetrics)
        ensures
            m.begin_us == spec_elapsed_us(self.t_start, self.t_begun),
            m.query_us == spec_elapsed_us(self.t_begun, self.t_finished),
            m.commit_us == spec_elapsed_us(self.t_finished, self.t_committed),
    {
        PerformanceMetrics {
            begin_us: elapsed_us(self.t_start, self.t_begun),
            query_us: elapsed_us(self.t_begun, self.t_finished),
            commit_us: elapsed_us(self.t_finished, self.t_committed),
        }
    }
}

/// The kinds of engine call that the statistics distinguish.
pub enum StatKind {
    NewOrder,
    Payment,
    OrderStatus,
    Delivery,
    StockLevel,
    CustomerById,
    CustomerByName,
}

/// Running call counts and microsecond totals per call kind.
pub struct Statistics {
    pub new_order_count: u64,
    pub new_order_us: u64,
    pub payment_count: u64,
    pub payment_us: u64,
    pub order_status_count: u64,
    pub order_status_us: u64,
    pub delivery_count: u64,
    pub delivery_us: u64,
    pub stock_level_count: u64,
    pub stock_level_us: u64,
    pub customer_by_id_count: u64,
    pub customer_by_id_us: u64,
    pub customer_by_name_count: u64,
    pub customer_by_name_us: u64,
}

impl Statistics {
    /// All counters at zero.
    pub fn new() -> (s: Statistics)
        ensures
            s.new_order_count == 0 && s.new_order_us == 0,
            s.payment_count == 0 && s.payment_us == 0,
            s.order_status_count == 0 && s.order_status_us == 0,
            s.delivery_count == 0 && s.delivery_us == 0,
            s.stock_level_count == 0 && s.stock_level_us == 0,
            s.customer_by_id_count == 0 && s.customer_by_id_us == 0,
            s.customer_by_name_count == 0 && s.customer_by_name_us == 0,
    {
        Statistics {
            new_order_count: 0,
            new_order_us: 0,
            payment_count: 0,
            payment_us: 0,
            order_status_count: 0,
            order_status_us: 0,
            delivery_count: 0,
            delivery_us: 0,
            stock_level_count: 0,
            stock_level_us: 0,
            customer_by_id_count: 0,
            customer_by_id_us: 0,
            customer_by_name_count: 0,
            customer_by_name_us: 0,
        }
    }

    /// Record one finished call of the given kind: its count grows by one
    /// and its microsecond total by the call's duration, both clamped.
    pub fn record(&mut self, kind: StatKind, us: u64)
        ensures
            final(self).new_order_count == (if kind is NewOrder { spec_sat_add(old(self).new_order_count, 1) } else { old(self).new_order_count as int }),
            final(self).new_order_us == (if kind is NewOrder { spec_sat_add(old(self).new_order_us, us) } else { old(self).new_order_us as int }),
            final(self).payment_count == (if kind is Payment { spec_sat_add(old(self).payment_count, 1) } else { old(self).payment_count as int }),
            final(self).payment_us == (if kind is Payment { spec_sat_add(old(self).payment_us, us) } else { old(self).payment_us as int }),
            final(self).order_status_count == (if kind is OrderStatus { spec_sat_add(old(self).order_status_count, 1) } else { old(self).order_status_count as int }),
            final(self).order_status_us == (if kind is OrderStatus { spec_sat_add(old(self).order_status_us, us) } else { old(self).order_status_us as int }),
            final(self).delivery_count == (if kind is Delivery { spec_sat_add(old(self).delivery_count, 1) } else { old(self).delivery_count as int }),
            final(self).delivery_us == (if kind is Delivery { spec_sat_add(old(self).delivery_us, us) } else { old(self).delivery_us as int }),
            final(self).stock_level_count == (if kind is StockLevel { spec_sat_add(old(self).stock_level_count, 1) } else { old(self).stock_level_count as int }),
            final(self).stock_level_us == (if kind is StockLevel { spec_sat_add(old(self).stock_level_us, us) } else { old(self).stock_level_us as int }),
            final(self).customer_by_id_count == (if kind is CustomerById { spec_sat_add(old(self).customer_by_id_count, 1) } else { old(self).customer_by_id_count as int }),
            final(self).customer_by_id_us == (if kind is CustomerById { spec_sat_add(old(self).customer_by_id_us, us) } else { old(self).customer_by_id_us as int }),
            final(self).customer_by_name_count == (if kind is CustomerByName { spec_sat_add(old(self).customer_by_name_count, 1) } else { old(self).customer_by_name_count as int }),
            final(self).customer_by_name_us == (if kind is CustomerByName { spec_sat_add(old(self).customer_by_name_us, us) } else { old(self).customer_by_name_us as int }),
    {
        match kind {
            StatKind::NewOrder => {
                self.new_order_count = sat_add(self.new_order_count, 1);
                self.new_order_us = sat_add(self.new_order_us, us);
            },
            StatKind::Payment => {
                self.payment_count = sat_add(self.payment_count, 1);
                self.payment_us = sat_add(self.payment_us, us);
            },
            StatKind::OrderStatus => {
                self.order_status_count = sat_add(self.order_status_count, 1);
                self.order_status_us = sat_add(self.order_status_us, us);
            },
            StatKind::Delivery => {
                self.delivery_count = sat_add(self.delivery_count, 1);
                self.delivery_us = sat_add(self.delivery_us, us);
            },
            StatKind::StockLevel => {
                self.stock_level_count = sat_add(self.stock_level_count, 1);
                self.stock_level_us = sat_add(self.stock_level_us, us);
            },
            StatKind::CustomerById => {
                self.customer_by_id_count = sat_add(self.customer_by_id_count, 1);
                self.customer_by_id_us = sat_add(self.customer_by_id_us, us);
            },
            StatKind::CustomerByName => {
                self.customer_by_name_count = sat_add(self.customer_by_name_count, 1);
                self.customer_by_name_us = sat_add(self.customer_by_name_us, us);
            },
        }
    }
}

impl Statistics {
    /// The reported snapshot of these statistics: counts clamped into the
    /// signed range, microsecond totals as they stand.
    pub open spec fn to_iftype_spec(&self) -> api::Statistics {
        api::Statistics {
            new_order_count: spec_count_i64(self.new_order_count) as i64,
            new_order_us: self.new_order_us,
            payment_count: spec_count_i64(self.payment_count) as i64,
            payment_us: self.payment_us,
            order_status_count: spec_count_i64(self.order_status_count) as i64,
            order_status_us: self.order_status_us,
            delivery_count: spec_count_i64(self.delivery_count) as i64,
            delivery_us: self.delivery_us,
            stock_level_count: spec_count_i64(self.stock_level_count) as i64,
            stock_level_us: self.stock_level_us,
            customer_by_id_count: spec_count_i64(self.customer_by_id_count) as i64,
            customer_by_id_us: self.customer_by_id_us,
            customer_by_name_count: spec_count_i64(self.customer_by_name_count) as i64,
            customer_by_name_us: self.customer_by_name_us,
        }
    }

    /// Snapshot these statistics in the reporting shape.
    pub fn to_iftype(&self) -> (r: api::Statistics)
        ensures
            r == self.to_iftype_spec(),
    {
        api::Statistics {
            new_order_count: count_i64(self.new_order_count),
            new_order_us: self.new_order_us,
            payment_count: count_i64(self.payment_count),
            payment_us: self.payment_us,
            order_status_count: count_i64(self.order_status_count),
            order_status_us: self.order_status_us,
            delivery_count: count_i64(self.delivery_count),
            delivery_us: self.delivery_us,
            stock_level_count: count_i64(self.stock_level_count),
            stock_level_us: self.stock_level_us,
            customer_by_id_count: count_i64(self.customer_by_id_count),
            customer_by_id_us: self.customer_by_id_us,
            customer_by_name_count: count_i64(self.customer_by_name_count),
            customer_by_name_us: self.customer_by_name_us,
        }
    }
}

/// Per-transaction-kind aggregation on the generator side: call count,
/// per-phase microsecond totals and end-to-end microsecond total.
pub struct PerfSummary {
    pub count: u64,
    pub begin_us: u64,
    pub query_us: u64,
    pub commit_us: u64,
    pub e2e_total_us: u64,
}

impl PerfSummary {
    /// An empty summary.
    pub fn new() -> (s: PerfSummary)
        ensures
            s.count == 0 && s.begin_us == 0 && s.query_us == 0 && s.commit_us == 0
                && s.e2e_total_us == 0,
    {
        PerfSummary { count: 0, begin_us: 0, query_us: 0, commit_us: 0, e2e_total_us: 0 }
    }

    /// Fold one call's server-side phase timings and end-to-end duration
    /// into the running sums, each clamped.
    pub fn add(&mut self, perf: &PerformanceMetrics, e2e_us: u64)
        ensures
            final(self).count == spec_sat_add(old(self).count, 1),
            final(self).begin_us == spec_sat_add(old(self).begin_us, perf.begin_us),
            final(self).query_us == spec_sat_add(old(self).query_us, perf.query_us),
            final(self).commit_us == spec_sat_add(old(self).commit_us, perf.commit_us),
            final(self).e2e_total_us == spec_sat_add(old(self).e2e_total_us, e2e_us),
    {
        self.count = sat_add(self.count, 1);
        self.begin_us = sat_add(self.begin_us, perf.begin_us);
        self.query_us = sat_add(self.query_us, perf.query_us);
        self.commit_us = sat_add(self.commit_us, perf.commit_us);
        self.e2e_total_us = sat_add(self.e2e_total_us, e2e_us);
    }

    /// Number of calls folded in so far.
    pub fn counts(&self) -> (r: u64)
        ensures
            r == self.count,
    {
        self.count
    }

    /// Average time to begin, microseconds per call; zero before any call.
    pub fn avg_begin_us(&self) -> (r: u64)
        ensures
            r == (if self.count == 0 { 0int } else { self.begin_us as int / self.count as int }),
    {
        if self.count == 0 {
            0
        } else {
            self.begin_us / self.count
        }
    }

    /// Average query time, microseconds per call; zero before any call.
    pub fn avg_query_us(&self) -> (r: u64)
        ensures
            r == (if self.count == 0 { 0int } else { self.query_us as int / self.count as int }),
    {
        if self.count == 0 {
            0
        } else {
            self.query_us / self.count
        }
    }

    /// Average commit time, microseconds per call; zero before any call.
    pub fn avg_commit_us(&self) -> (r: u64)
        ensures
            r == (if self.count == 0 { 0int } else { self.commit_us as int / self.count as int }),
    {
        if self.count == 0 {
            0
        } else {
            self.commit_us / self.count
        }
    }

    /// Average end-to-end time, microseconds per call; zero before any call.
    pub fn avg_e2e_us(&self) -> (r: u64)
        ensures
            r == (if self.count == 0 { 0int } else { self.e2e_total_us as int / self.count as int }),
    {
        if self.count == 0 {
            0
        } else {
            self.e2e_total_us / self.count
        }
    }
}

} // verus!
