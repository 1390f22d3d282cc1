//! Fixed-size market event handed from ingestion to the consumers.

use vstd::prelude::*;

verus! {

/// Compact quote update after normalization.
///
/// All prices are **integer ticks** at scale [`crate::cold_path::ticks::PRICE_TICK_SCALE`].
/// Sizes are whole-share counts.
#[derive(Clone, Copy, Debug, PartialEq, Eq, Structural)]
pub struct QuoteEvent {
    pub symbol_id: u16,
    pub bid_px_ticks: u64,
    pub ask_px_ticks: u64,
    pub bid_sz: u64,
    pub ask_sz: u64,
    /// Quote timestamp as nanoseconds since the UNIX epoch (exchange-sourced field).
    pub ts_ns: u64,
    /// Local wall-clock nanoseconds since the UNIX epoch when this quote was received.
    ///
    /// Used with [`Self::ts_ns`] for `local - exchange` latency. Host clock skew against the
    /// exchange time base can make the difference negative; it is taken saturating.
    pub local_rx_ns: u64,
    /// Monotonic nanoseconds since process start at ingestion, for pipeline timing.
    pub ingest_mono_ns: u64,
}

} // verus!
