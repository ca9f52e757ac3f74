//! Request and response types of the engine boundary.
//!
//! Monetary amounts are integer cents, timestamps are milliseconds and
//! durations are microseconds; the transport layer converts to whatever
//! wire representation it serves.

use vstd::prelude::*;

verus! {

/// New-Order transaction input.
#[derive(Debug)]
pub struct NewOrderRequest {
    /// Benchmark runner id.
    pub terminal_id: i32,
    pub warehouse_id: i32,
    pub district_id: i32,
    pub customer_id: i32,
    pub items: Vec<NewOrderRequestItem>,
    /// When set, the transaction must abort leaving no trace.
    pub inject_rollback: bool,
}

/// One requested order line.
#[derive(Debug)]
pub struct NewOrderRequestItem {
    pub item_id: i32,
    pub quantity: i32,
}

/// New-Order transaction output; `contents` is `None` when the requested
/// rollback was performed and nothing was persisted.
#[derive(Debug)]
pub struct NewOrderResponse {
    pub contents: Option<NewOrderContents>,
    pub perf: crate::perf::PerformanceMetrics,
}

/// Identity and total of a committed order.
#[derive(Debug)]
pub struct NewOrderContents {
    pub warehouse_id: i32,
    pub district_id: i32,
    pub order_id: i32,
    /// Total in cents, discount and taxes applied.
    pub total_amount: i64,
}

/// Payment transaction input; the customer may live in another district.
#[derive(Debug)]
pub struct PaymentRequest {
    /// Benchmark runner id.
    pub terminal_id: i32,
    pub warehouse_id: i32,
    pub district_id: i32,
    pub customer_warehouse_id: i32,
    pub customer_district_id: i32,
    pub customer_id: i32,
    /// Amount in cents.
    pub amount: i64,
}

/// Payment transaction output.
#[derive(Debug)]
pub struct PaymentResponse {
    pub contents: PaymentContents,
    pub perf: crate::perf::PerformanceMetrics,
}

/// Amount and timestamp of a committed payment.
#[derive(Debug)]
pub struct PaymentContents {
    pub amount: i64,
    pub paied_at: i64,
}

/// Order-Status transaction output.
#[derive(Debug)]
pub struct OrderStatusResponse {
    pub contents: OrderStatusContents,
    pub perf: crate::perf::PerformanceMetrics,
}

/// Zero or one most-recent order of the customer.
#[derive(Debug)]
pub struct OrderStatusContents {
    pub orders: Vec<Order>,
}

/// An order as reported to clients.
#[derive(Debug)]
pub struct Order {
    pub warehouse_id: i32,
    pub district_id: i32,
    pub order_id: i32,
    pub entry_at: i64,
    pub carrier_id: Option<i32>,
    pub lines: Vec<OrderLine>,
}

/// An order line as reported to clients.
#[derive(Debug)]
pub struct OrderLine {
    pub item_id: i32,
    pub supply_warehouse_id: i32,
    pub quantity: i32,
    pub amount: i64,
    pub delivery_at: Option<i64>,
}

/// Query parameters of the customers-by-surname lookup.
#[derive(Debug)]
pub struct CustomersByLastnameParams {
    pub warehouse_id: i32,
    pub district_id: i32,
    pub lastname: String,
}

/// Customer lookup output.
#[derive(Debug)]
pub struct CustomersResponse {
    pub contents: CustomersContents,
    pub perf: crate::perf::PerformanceMetrics,
}

/// Matching customers, ordered by first name.
#[derive(Debug)]
pub struct CustomersContents {
    pub customers: Vec<Customer>,
}

/// A customer as reported to clients.
#[derive(Debug)]
pub struct Customer {
    pub warehouse_id: i32,
    pub district_id: i32,
    pub customer_id: i32,
    pub firstname: String,
    pub lastname: String,
}

/// Delivery transaction input.
#[derive(Debug)]
pub struct DeliveryRequest {
    pub warehouse_id: i32,
    pub carrier_id: i32,
}

/// Delivery transaction output.
#[derive(Debug)]
pub struct DeliveryResponse {
    pub contents: DeliveryContents,
    pub perf: crate::perf::PerformanceMetrics,
}

/// Count of orders delivered across all districts of the warehouse.
#[derive(Debug)]
pub struct DeliveryContents {
    pub deliverd_orders: i32,
}

/// Stock-Level transaction input.
#[derive(Debug)]
pub struct StockLevelParams {
    pub stock_level: i32,
}

/// Stock-Level transaction output.
#[derive(Debug)]
pub struct StockLevelResponse {
    pub contents: StockLevelContents,
    pub perf: crate::perf::PerformanceMetrics,
}

/// Count of recently ordered distinct items below the threshold.
#[derive(Debug)]
pub struct StockLevelContents {
    pub low_stocks: i32,
}

/// Database preparation input: the scale factor is the warehouse count.
#[derive(Debug)]
pub struct PrepareDbRequest {
    pub scale_factor: i32,
}

/// Row counts, storage size and statistics snapshot.
#[derive(Debug)]
pub struct DbStatusResponse {
    pub warehouse_count: i64,
    pub district_count: i64,
    pub customer_count: i64,
    pub order_count: i64,
    pub database_bytes: i64,
    pub statistics: Statistics,
}

/// Running statistics snapshot: call counts and microsecond totals.
#[derive(Debug)]
pub struct Statistics {
    pub new_order_count: i64,
    pub new_order_us: u64,
    pub payment_count: i64,
    pub payment_us: u64,
    pub order_status_count: i64,
    pub order_status_us: u64,
    pub delivery_count: i64,
    pub delivery_us: u64,
    pub stock_level_count: i64,
    pub stock_level_us: u64,
    pub customer_by_id_count: i64,
    pub customer_by_id_us: u64,
    pub customer_by_name_count: i64,
    pub customer_by_name_us: u64,
}

} // verus!
