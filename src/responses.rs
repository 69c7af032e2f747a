use vstd::prelude::*;

verus! {

/// An order that rests on the book.
#[derive(Clone, Debug)]
pub struct RestingOrder {
    pub oid: u64,
}

/// An order that was filled.
#[derive(Clone, Debug)]
pub struct FilledOrder {
    pub total_sz: String,
    pub avg_px: String,
    pub oid: u64,
}

/// The outcome of one order or cancellation.
#[derive(Clone, Debug)]
pub enum OrderStatus {
    Resting(RestingOrder),
    Error(String),
    Filled(FilledOrder),
    Success,
}

/// The outcomes of the orders of one request, in request order.
#[derive(Clone, Debug)]
pub struct OrderStatusResponse {
    pub statuses: Vec<OrderStatus>,
}

/// The answer to a global administrative action.
#[derive(Clone, Debug)]
pub struct SetGlobalResponse {
    pub data: Vec<String>,
}

/// The body of the venue's answer to a signed request.
#[derive(Clone, Debug)]
pub enum ExchangeOrderResponse {
    Order(OrderStatusResponse),
    Default,
    Cancel(OrderStatusResponse),
    SetGlobal(SetGlobalResponse),
}

} // verus!
