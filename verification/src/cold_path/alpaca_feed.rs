//! Normalization of stream messages into [`QuoteEvent`]s and trade handoffs.
//!
//! Decoding the stream is I/O and happens outside the library; what reaches it is a
//! [`StreamQuote`] / [`StreamTrade`] whose prices are still the stream's decimal numbers and
//! whose timestamp is split into seconds and sub-second nanoseconds.

use crate::hot_path::quote_event::QuoteEvent;
use crate::cold_path::feed_msg::FeedMsg;
use crate::cold_path::sink::{feed_sent, quote_fanned, ring_unchanged, same_handles, AlpacaQuoteSink};
use crate::cold_path::symbols::{spec_symbol_id, SymbolRegistry};
use crate::cold_path::ticks::{num_to_tick_u64, spec_num_ticks};
use num_decimal::Num;
use vstd::prelude::*;

verus! {

#[derive(Clone, Copy, Debug, PartialEq, Eq, Structural)]
pub enum AlpacaFeedSource {
    Iex,
    Sip,
}

#[derive(Clone, Debug)]
pub struct AlpacaFeedConfig {
    pub source: AlpacaFeedSource,
    pub symbols: Vec<String>,
    /// When `true`, also subscribe to aggregate bars for `symbols`.
    pub subscribe_bars: bool,
}

/// Nanoseconds in a second.
pub const NANOS_PER_SEC: u64 = 1_000_000_000;

/// `a * b`, or `u64::MAX` when that does not fit.
pub open spec fn sat_mul_u64(a: u64, b: u64) -> u64 {
    if a * b > u64::MAX {
        u64::MAX
    } else {
        (a * b) as u64
    }
}

/// `a + b`, or `u64::MAX` when that does not fit.
pub open spec fn sat_add_u64(a: u64, b: u64) -> u64 {
    if a + b > u64::MAX {
        u64::MAX
    } else {
        (a + b) as u64
    }
}

/// Timestamp in nanoseconds since the UNIX epoch: times before the epoch count as 0 seconds,
/// and the result saturates at `u64::MAX`.
pub open spec fn spec_ts_ns(secs: i64, subsec_nanos: u32) -> u64 {
    let s: u64 = if secs < 0 {
        0
    } else {
        secs as u64
    };
    sat_add_u64(sat_mul_u64(s, NANOS_PER_SEC), subsec_nanos as u64)
}

/// The timestamp is the whole seconds times 10^9 plus all of the sub-second nanoseconds, as
/// long as that fits in `u64`; times before the epoch keep only their sub-second part; larger
/// times give `u64::MAX`. So two timestamps in the same second differ by exactly the difference
/// of their sub-second nanoseconds.
pub proof fn law_ts_ns_exact(secs: i64, subsec_nanos: u32)
    ensures
        secs >= 0 && secs * 1_000_000_000 + subsec_nanos <= u64::MAX ==> spec_ts_ns(secs, subsec_nanos) as int
            == secs * 1_000_000_000 + subsec_nanos,
        secs < 0 ==> spec_ts_ns(secs, subsec_nanos) as int == subsec_nanos as int,
        secs >= 0 && secs * 1_000_000_000 + subsec_nanos > u64::MAX ==> spec_ts_ns(secs, subsec_nanos) == u64::MAX,
{
}

/// Nanoseconds since the UNIX epoch of a timestamp given as whole seconds and sub-second
/// nanoseconds.
pub fn quote_ts_ns(secs: i64, subsec_nanos: u32) -> (r: u64)
    ensures
        r == spec_ts_ns(secs, subsec_nanos),
{
    let s: u64 = if secs < 0 { 0 } else { secs as u64 };
    let scaled: u64 = if s > u64::MAX / NANOS_PER_SEC {
        u64::MAX
    } else {
        s * NANOS_PER_SEC
    };
    scaled.saturating_add(subsec_nanos as u64)
}

/// A stream quote as the library sees it.
pub struct StreamQuote {
    pub symbol: String,
    pub bid_price: Num,
    pub ask_price: Num,
    /// Bid size in whole shares.
    pub bid_sz: u64,
    /// Ask size in whole shares.
    pub ask_sz: u64,
    /// Quote time: whole seconds since the UNIX epoch.
    pub ts_secs: i64,
    /// Quote time: nanoseconds within the second.
    pub ts_subsec_nanos: u32,
}

/// A stream trade as the library sees it.
pub struct StreamTrade {
    pub symbol: String,
    pub trade_price: Num,
    /// Trade size in whole shares.
    pub trade_sz: u64,
    pub ts_secs: i64,
    pub ts_subsec_nanos: u32,
}

/// A decoded stream message.
pub enum StreamPayload {
    Quote(StreamQuote),
    Trade(StreamTrade),
    /// Anything else (bars, control frames): not normalized here.
    Other,
}

/// The quote event built from a registered quote's parsed prices; a missing bid price is
/// reported before a missing ask price.
pub open spec fn spec_quote_event(
    symbol_id: u16,
    bid_px: Option<u64>,
    ask_px: Option<u64>,
    q: StreamQuote,
    local_rx_ns: u64,
    ingest_mono_ns: u64,
) -> Result<QuoteEvent, &'static str> {
    match bid_px {
        None => Err("bid price parse"),
        Some(bid) => match ask_px {
            None => Err("ask price parse"),
            Some(ask) => Ok(
                QuoteEvent {
                    symbol_id,
                    bid_px_ticks: bid,
                    ask_px_ticks: ask,
                    bid_sz: q.bid_sz,
                    ask_sz: q.ask_sz,
                    ts_ns: spec_ts_ns(q.ts_secs, q.ts_subsec_nanos),
                    local_rx_ns,
                    ingest_mono_ns,
                },
            ),
        },
    }
}

/// Build the quote event from a registered quote's parsed prices.
pub fn quote_event_from(
    symbol_id: u16,
    bid_px: Option<u64>,
    ask_px: Option<u64>,
    q: &StreamQuote,
    local_rx_ns: u64,
    ingest_mono_ns: u64,
) -> (r: Result<QuoteEvent, &'static str>)
    ensures
        r == spec_quote_event(symbol_id, bid_px, ask_px, *q, local_rx_ns, ingest_mono_ns),
{
    let bid = match bid_px {
        None => {
            return Err("bid price parse");
        },
        Some(b) => b,
    };
    let ask = match ask_px {
        None => {
            return Err("ask price parse");
        },
        Some(a) => a,
    };
    Ok(
        QuoteEvent {
            symbol_id,
            bid_px_ticks: bid,
            ask_px_ticks: ask,
            bid_sz: q.bid_sz,
            ask_sz: q.ask_sz,
            ts_ns: quote_ts_ns(q.ts_secs, q.ts_subsec_nanos),
            local_rx_ns,
            ingest_mono_ns,
        },
    )
}

/// The event a quote normalizes to: `None` for an unregistered symbol, otherwise the event built
/// from the ticks of its bid and ask prices (or the error of the first price that does not
/// convert, the bid before the ask).
pub open spec fn spec_normalized_quote(
    registry: Seq<Seq<char>>,
    q: StreamQuote,
    local_rx_ns: u64,
    ingest_mono_ns: u64,
) -> Option<Result<QuoteEvent, &'static str>> {
    match spec_symbol_id(registry, q.symbol@) {
        None => None,
        Some(id) => Some(
            spec_quote_event(
                id,
                spec_num_ticks(q.bid_price),
                spec_num_ticks(q.ask_price),
                q,
                local_rx_ns,
                ingest_mono_ns,
            ),
        ),
    }
}

/// What handling quote `q` does: an unregistered symbol is ignored (`Ok`) and a price that does
/// not convert gives its error, both without touching the sink; otherwise the event is fanned
/// out ([`AlpacaQuoteSink::on_quote`]) and the result is `Ok`.
pub open spec fn quote_handled(
    registry: Seq<Seq<char>>,
    q: StreamQuote,
    before: AlpacaQuoteSink,
    after: AlpacaQuoteSink,
    r: Result<(), &'static str>,
    local_rx_ns: u64,
    ingest_mono_ns: u64,
) -> bool {
    match spec_normalized_quote(registry, q, local_rx_ns, ingest_mono_ns) {
        None => r is Ok && after == before,
        Some(Err(e)) => r == Err::<(), &'static str>(e) && after == before,
        Some(Ok(ev)) => r is Ok && quote_fanned(before, after, ev),
    }
}

/// What handling trade `t` returns: `Ok` for an unregistered symbol; for a registered one,
/// `Err("trade price parse")` exactly when its price does not convert to ticks.
pub open spec fn spec_trade_result(registry: Seq<Seq<char>>, t: StreamTrade) -> Result<(), &'static str> {
    if spec_symbol_id(registry, t.symbol@) is Some && spec_num_ticks(t.trade_price) is None {
        Err("trade price parse")
    } else {
        Ok(())
    }
}

/// The message a trade is forwarded as: for a registered symbol whose price converts, its id,
/// price ticks, size and timestamp; nothing otherwise.
pub open spec fn spec_trade_forward(registry: Seq<Seq<char>>, t: StreamTrade) -> Option<FeedMsg> {
    match spec_symbol_id(registry, t.symbol@) {
        None => None,
        Some(id) => match spec_num_ticks(t.trade_price) {
            None => None,
            Some(px) => Some(
                FeedMsg::Trade { symbol_id: id, px_ticks: px, sz: t.trade_sz, ts_ns: spec_ts_ns(t.ts_secs, t.ts_subsec_nanos) },
            ),
        },
    }
}

/// What handling trade `t` does to the sink: its message (if any) goes to the aggregator queue,
/// and nothing else changes.
pub open spec fn trade_handled(
    registry: Seq<Seq<char>>,
    t: StreamTrade,
    before: AlpacaQuoteSink,
    after: AlpacaQuoteSink,
) -> bool {
    match spec_trade_forward(registry, t) {
        None => after == before,
        Some(msg) => {
            &&& same_handles(after, before)
            &&& after.last_nbbo == before.last_nbbo
            &&& ring_unchanged(before, after)
            &&& feed_sent(before, after, msg)
        },
    }
}

/// Normalize a quote and fan it out. Quotes for unregistered symbols are ignored; a price that
/// does not convert to ticks is an error and nothing is fanned out. `local_rx_ns` is the wall
/// clock at receipt, `ingest_mono_ns` the monotonic time since start at ingestion.
pub fn handle_quote(
    registry: &SymbolRegistry,
    sink: &mut AlpacaQuoteSink,
    q: &StreamQuote,
    local_rx_ns: u64,
    ingest_mono_ns: u64,
) -> (r: Result<(), &'static str>)
    ensures
        quote_handled(registry@, *q, *old(sink), *final(sink), r, local_rx_ns, ingest_mono_ns),
{
    let symbol_id = match registry.id(q.symbol.as_str()) {
        None => {
            return Ok(());
        },
        Some(id) => id,
    };
    let bid_px = num_to_tick_u64(&q.bid_price);
    let ask_px = if bid_px.is_some() { num_to_tick_u64(&q.ask_price) } else { None };
    match quote_event_from(symbol_id, bid_px, ask_px, q, local_rx_ns, ingest_mono_ns) {
        Err(e) => Err(e),
        Ok(ev) => {
            sink.on_quote(ev);
            Ok(())
        },
    }
}

/// Normalize a trade and hand it to the aggregator queue. Trades for unregistered symbols are
/// ignored; a price that does not convert to ticks is an error.
pub fn handle_trade(registry: &SymbolRegistry, sink: &mut AlpacaQuoteSink, t: &StreamTrade) -> (r: Result<(), &'static str>)
    ensures
        r == spec_trade_result(registry@, *t),
        trade_handled(registry@, *t, *old(sink), *final(sink)),
{
    let symbol_id = match registry.id(t.symbol.as_str()) {
        None => {
            return Ok(());
        },
        Some(id) => id,
    };
    let px = match num_to_tick_u64(&t.trade_price) {
        None => {
            return Err("trade price parse");
        },
        Some(p) => p,
    };
    let ts_ns = quote_ts_ns(t.ts_secs, t.ts_subsec_nanos);
    sink.on_trade_msg(symbol_id, px, t.trade_sz, ts_ns);
    Ok(())
}

/// Dispatch a decoded message to the quote or trade path; other messages are ignored here.
pub fn handle_payload(
    registry: &SymbolRegistry,
    sink: &mut AlpacaQuoteSink,
    payload: &StreamPayload,
    local_rx_ns: u64,
    ingest_mono_ns: u64,
) -> (r: Result<(), &'static str>)
    ensures
        payload is Other ==> r is Ok && *final(sink) == *old(sink),
        payload matches StreamPayload::Quote(q) ==> quote_handled(
            registry@,
            *q,
            *old(sink),
            *final(sink),
            r,
            local_rx_ns,
            ingest_mono_ns,
        ),
        payload matches StreamPayload::Trade(t) ==> r == spec_trade_result(registry@, *t)
            && trade_handled(registry@, *t, *old(sink), *final(sink)),
{
    match payload {
        StreamPayload::Quote(q) => handle_quote(registry, sink, q, local_rx_ns, ingest_mono_ns),
        StreamPayload::Trade(t) => handle_trade(registry, sink, t),
        StreamPayload::Other => Ok(()),
    }
}

/// What the stream produced next.
#[derive(Clone, Copy, Debug, PartialEq, Eq, Structural)]
pub enum FeedFrame {
    /// The stream has ended.
    Ended,
    /// A decoded market-data message.
    Payload,
    /// A frame whose JSON did not decode.
    DecodeError,
    /// The websocket failed.
    TransportError,
}

/// What the feed loop does with a frame.
#[derive(Clone, Copy, Debug, PartialEq, Eq, Structural)]
pub enum FeedStep {
    /// Leave the loop normally.
    Stop,
    /// Hand the message to [`handle_payload`] and go on.
    Handle,
    /// Log it and go on.
    Skip,
    /// Leave the loop with the websocket error.
    Fail,
}

/// The feed loop's decision per frame: an ended stream stops the run, a decoded message is
/// handled, an undecodable frame is skipped, a websocket error ends the run with that error.
pub open spec fn spec_feed_step(frame: FeedFrame) -> FeedStep {
    match frame {
        FeedFrame::Ended => FeedStep::Stop,
        FeedFrame::Payload => FeedStep::Handle,
        FeedFrame::DecodeError => FeedStep::Skip,
        FeedFrame::TransportError => FeedStep::Fail,
    }
}

/// Decide what the feed loop does with `frame`.
pub fn feed_step(frame: FeedFrame) -> (r: FeedStep)
    ensures
        r == spec_feed_step(frame),
{
    match frame {
        FeedFrame::Ended => FeedStep::Stop,
        FeedFrame::Payload => FeedStep::Handle,
        FeedFrame::DecodeError => FeedStep::Skip,
        FeedFrame::TransportError => FeedStep::Fail,
    }
}

/// The feed source named by `name`, compared case-insensitively: `sip` selects SIP, anything
/// else IEX.
pub open spec fn spec_feed_source(name: Seq<char>) -> AlpacaFeedSource {
    if name.len() == 3 && ascii_lower(name[0]) == 's' && ascii_lower(name[1]) == 'i' && ascii_lower(name[2]) == 'p' {
        AlpacaFeedSource::Sip
    } else {
        AlpacaFeedSource::Iex
    }
}

/// The feed source is chosen case-insensitively: a name selects SIP exactly when it is three
/// letters, `s`, `i` and `p`, each in either case (`sip`, `SIP`, `sIp`, ...); every other name
/// selects IEX.
pub proof fn law_feed_source_case_insensitive(name: Seq<char>)
    ensures
        (spec_feed_source(name) == AlpacaFeedSource::Sip) <==> (name.len() == 3 && (name[0] == 's' || name[0] == 'S')
            && (name[1] == 'i' || name[1] == 'I') && (name[2] == 'p' || name[2] == 'P')),
        spec_feed_source(name) == AlpacaFeedSource::Sip || spec_feed_source(name) == AlpacaFeedSource::Iex,
{
}

/// ASCII lower-casing of one character.
pub open spec fn ascii_lower(c: char) -> char {
    if 'A' as int <= c as int <= 'Z' as int {
        (c as int + 32) as char
    } else {
        c
    }
}

/// Pick the feed source from its configured name (`sip` in any letter case selects SIP).
///
/// Unicode lower-casing maps no non-ASCII character to `s`, `i` or `p`, so an ASCII
/// case-insensitive comparison decides the same as comparing the lower-cased name.
pub fn feed_source_from_name(name: &str) -> (r: AlpacaFeedSource)
    ensures
        r == spec_feed_source(name@),
{
    if name.unicode_len() != 3 {
        return AlpacaFeedSource::Iex;
    }
    let a = lower_ascii_char(name.get_char(0));
    let b = lower_ascii_char(name.get_char(1));
    let c = lower_ascii_char(name.get_char(2));
    if a == 's' && b == 'i' && c == 'p' {
        AlpacaFeedSource::Sip
    } else {
        AlpacaFeedSource::Iex
    }
}

fn lower_ascii_char(c: char) -> (r: char)
    ensures
        r == ascii_lower(c),
{
    if 'A' <= c && c <= 'Z' {
        ((c as u8) + 32) as char
    } else {
        c
    }
}

} // verus!
