//! Handoff messages from ingestion to the aggregator.

use crate::hot_path::quote_event::QuoteEvent;
use vstd::prelude::*;

verus! {

#[derive(Clone, Copy, Debug, PartialEq, Eq, Structural)]
pub enum FeedMsg {
    Quote(QuoteEvent),
    Trade { symbol_id: u16, px_ticks: u64, sz: u64, ts_ns: u64 },
}

} // verus!
