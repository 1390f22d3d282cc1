//! Market-data core for an Alpaca quote/trade stream: symbol registry, decimal → tick
//! conversion, trade classification, quote fan-out, aggregated NBBO rows and per-symbol
//! dashboard series.
//!
//! Quotes and trades come straight from the stream; NBBO is not rebuilt from a local book.

pub mod cold_path;
pub mod hot_path;
pub mod orderbook_store;
pub mod viz;

pub use cold_path::symbols::SymbolRegistry;
pub use cold_path::ticks;
pub use cold_path::{AlpacaFeedConfig, AlpacaFeedSource, AlpacaQuoteSink};
pub use hot_path::quote_event::QuoteEvent;
pub use hot_path::{new_quote_ring, QuoteRing};
pub use orderbook_store::BookRegistry;
