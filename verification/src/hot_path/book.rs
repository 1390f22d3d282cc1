//! The outside order book (`orderbook_rs`) as the library uses it: one book per symbol,
//! resting limit orders identified by small sequential ids.

use orderbook_rs::{DefaultOrderBook, OrderBook, OrderBookError};
use pricelevel::{Id, OrderUpdate, Price, Quantity, Side, TimeInForce};
use vstd::prelude::*;

verus! {

#[verifier::external_type_specification]
#[verifier::external_body]
#[verifier::reject_recursive_types(T)]
pub struct ExOrderBook<T>(OrderBook<T>);

#[verifier::external_type_specification]
#[verifier::external_body]
pub struct ExOrderBookError(OrderBookError);

/// Side of a resting order.
#[derive(Clone, Copy, Debug, PartialEq, Eq, Structural)]
pub enum BookSide {
    Buy,
    Sell,
}

/// A change to a resting order.
#[derive(Clone, Copy, Debug, PartialEq, Eq, Structural)]
pub enum BookUpdate {
    PriceAndQuantity { price: u128, quantity: u64 },
    Quantity { quantity: u64 },
}

/// A limit order to rest in a book.
#[derive(Clone, Copy, Debug, PartialEq, Eq, Structural)]
pub struct LimitReq {
    pub id: u64,
    pub price: u128,
    pub quantity: u64,
    pub side: BookSide,
}

/// A change to the resting order `order_id`.
#[derive(Clone, Copy, Debug, PartialEq, Eq, Structural)]
pub struct UpdateReq {
    pub order_id: u64,
    pub update: BookUpdate,
}

/// The symbol an order book was made for: `OrderBook::new` stores it, `OrderBook::symbol`
/// reads it back, and nothing changes it afterwards.
pub uninterp spec fn book_symbol(b: DefaultOrderBook) -> Seq<char>;

/// Whether an order book error is the `OrderBookError::InvalidOperation` variant.
pub uninterp spec fn invalid_operation_error(e: OrderBookError) -> bool;

/// `OrderBook::new(symbol)`: an empty book whose symbol is `symbol`. Nothing else is stated of
/// the new book.
#[verifier::external_body]
pub(crate) fn book_new(symbol: &str) -> (r: DefaultOrderBook)
    ensures
        book_symbol(r) == symbol@,
{
    DefaultOrderBook::new(symbol)
}

/// `OrderBook::add_limit_order` for `req`: order id `Id::sequential(req.id)`, good-till-cancelled,
/// no extra fields. The book is shared and may be changed concurrently, so whether the order is
/// accepted (or what error comes back) is left open.
#[verifier::external_body]
pub(crate) fn book_add_limit(book: &DefaultOrderBook, req: LimitReq) -> Result<(), OrderBookError> {
    let side = match req.side {
        BookSide::Buy => Side::Buy,
        BookSide::Sell => Side::Sell,
    };
    book.add_limit_order(Id::sequential(req.id), req.price, req.quantity, side, TimeInForce::Gtc, None).map(|_| ())
}

/// `OrderBook::update_order` for `req` on the order with id `Id::sequential(req.order_id)`.
/// Whether the update is accepted is left open.
#[verifier::external_body]
pub(crate) fn book_update(book: &DefaultOrderBook, req: UpdateReq) -> Result<(), OrderBookError> {
    let order_id = Id::sequential(req.order_id);
    let update = match req.update {
        BookUpdate::PriceAndQuantity { price, quantity } => OrderUpdate::UpdatePriceAndQuantity {
            order_id,
            new_price: Price::new(price),
            new_quantity: Quantity::new(quantity),
        },
        BookUpdate::Quantity { quantity } => OrderUpdate::UpdateQuantity {
            order_id,
            new_quantity: Quantity::new(quantity),
        },
    };
    book.update_order(update).map(|_| ())
}

/// Whether an order book error is `OrderBookError::InvalidOperation`, as named by
/// [`invalid_operation_error`].
#[verifier::external_body]
pub(crate) fn is_invalid_operation(e: &OrderBookError) -> (r: bool)
    ensures
        r == invalid_operation_error(*e),
{
    matches!(e, OrderBookError::InvalidOperation { .. })
}

} // verus!
