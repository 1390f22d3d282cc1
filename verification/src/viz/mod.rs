//! Dashboard state: trade classification, aggregated NBBO rows, per-symbol plot series and
//! color rules.

pub mod classify;
pub mod palette;
pub mod pipeline;
pub mod store;

pub use classify::lee_ready_signed_volume;
pub use store::{QuoteSample, SymbolSnapshot, VizStore, SERIES_CAP};
