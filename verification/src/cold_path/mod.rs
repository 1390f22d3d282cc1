//! Ingestion side: symbol registry, decimal → tick conversion, stream normalization and the
//! fan-out of quotes.

pub mod alpaca_feed;
pub mod config;
pub mod feed_msg;
pub mod lexorder;
pub mod sink;
pub mod symbols;
pub mod ticks;

pub use alpaca_feed::{AlpacaFeedConfig, AlpacaFeedSource};
pub use feed_msg::FeedMsg;
pub use sink::AlpacaQuoteSink;
