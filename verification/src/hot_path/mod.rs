//! Consumer side: compact quote events, the bounded quote ring and the order-book applier.

pub mod applier;
pub mod book;
pub mod quote_event;
pub mod ring;

pub use quote_event::QuoteEvent;
pub use ring::{new_quote_ring, QuoteRing, RingPushOutcome};
