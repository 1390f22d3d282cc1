use crossbeam_queue::ArrayQueue;
use easy_rs::hot_path::applier::{apply_event, drain_batch, fallback_update, new_synths, SymbolSynth, UpdateOutcome};
use easy_rs::hot_path::book::{BookSide, BookUpdate, LimitReq, UpdateReq};
use easy_rs::orderbook_store::BookRegistry;
use easy_rs::cold_path::alpaca_feed::{
    feed_source_from_name, feed_step, handle_payload, FeedFrame, FeedStep, handle_quote, handle_trade, quote_ts_ns, AlpacaFeedSource,
    StreamPayload, StreamQuote, StreamTrade,
};
use easy_rs::cold_path::feed_msg::FeedMsg;
use easy_rs::hot_path::quote_event::QuoteEvent;
use easy_rs::hot_path::ring::{new_quote_ring, push_outcome, try_push_drop_newest, RingPushOutcome};
use easy_rs::cold_path::sink::AlpacaQuoteSink;
use easy_rs::cold_path::symbols::SymbolRegistry;
use num_decimal::Num;
use std::str::FromStr;
use std::sync::atomic::{AtomicU64, Ordering};
use std::sync::Arc;

fn ev(symbol_id: u16, bid: u64, ask: u64) -> QuoteEvent {
    QuoteEvent {
        symbol_id,
        bid_px_ticks: bid,
        ask_px_ticks: ask,
        bid_sz: 1,
        ask_sz: 2,
        ts_ns: 3,
        local_rx_ns: 4,
        ingest_mono_ns: 5,
    }
}

fn quote(symbol: &str, bid: &str, ask: &str) -> StreamQuote {
    StreamQuote {
        symbol: symbol.to_string(),
        bid_price: Num::from_str(bid).unwrap(),
        ask_price: Num::from_str(ask).unwrap(),
        bid_sz: 10,
        ask_sz: 20,
        ts_secs: 2,
        ts_subsec_nanos: 500,
    }
}

#[test]
fn ring_drops_newest_when_full() {
    let ring = new_quote_ring(1);
    assert_eq!(ring.capacity(), 1);
    assert_eq!(try_push_drop_newest(&ring, ev(0, 1, 2)), RingPushOutcome::Enqueued);
    assert_eq!(try_push_drop_newest(&ring, ev(0, 3, 4)), RingPushOutcome::DroppedNewest);
    assert_eq!(ring.pop(), Some(ev(0, 1, 2)));
    assert_eq!(push_outcome::<u8>(Err(1)), RingPushOutcome::DroppedNewest);
    assert_eq!(push_outcome::<u8>(Ok(())), RingPushOutcome::Enqueued);
}

#[test]
fn headless_sink_keeps_last_quote_per_symbol() {
    let mut sink = AlpacaQuoteSink::headless_last_nbbo(2);
    assert_eq!(sink.last_nbbo, Some(vec![None, None]));
    sink.on_quote(ev(1, 10, 11));
    sink.on_quote(ev(1, 12, 13));
    sink.on_quote(ev(7, 1, 1));
    assert_eq!(sink.last_nbbo, Some(vec![None, Some(ev(1, 12, 13))]));
}

#[test]
fn ring_sink_counts_drops() {
    let ring = new_quote_ring(1);
    let dropped = Arc::new(AtomicU64::new(0));
    let mut sink = AlpacaQuoteSink::with_ring(Arc::clone(&ring), Arc::clone(&dropped));
    sink.on_quote(ev(0, 1, 2));
    sink.on_quote(ev(0, 3, 4));
    sink.on_quote(ev(0, 5, 6));
    assert_eq!(dropped.load(Ordering::Relaxed), 2);
    assert_eq!(ring.len(), 1);
}

#[test]
fn dashboard_sink_forwards_quotes_and_trades() {
    let q = Arc::new(ArrayQueue::new(2));
    let dropped = Arc::new(AtomicU64::new(0));
    let mut sink = AlpacaQuoteSink::dashboard(Arc::clone(&q), Arc::clone(&dropped));
    sink.on_quote(ev(0, 1, 2));
    sink.on_trade_msg(0, 7, 8, 9);
    sink.on_trade_msg(0, 7, 8, 10);
    assert_eq!(dropped.load(Ordering::Relaxed), 1);
    assert_eq!(q.pop(), Some(FeedMsg::Quote(ev(0, 1, 2))));
    assert_eq!(q.pop(), Some(FeedMsg::Trade { symbol_id: 0, px_ticks: 7, sz: 8, ts_ns: 9 }));
}

#[test]
fn timestamps_to_nanos() {
    assert_eq!(quote_ts_ns(2, 500), 2_000_000_500);
    assert_eq!(quote_ts_ns(-5, 7), 7);
    assert_eq!(quote_ts_ns(i64::MAX, 1), u64::MAX);
}

#[test]
fn handle_quote_normalizes_registered_symbols() {
    let registry = SymbolRegistry::new(vec!["SPY".into(), "AAPL".into()]);
    let mut sink = AlpacaQuoteSink::headless_last_nbbo(registry.len());
    assert_eq!(handle_quote(&registry, &mut sink, &quote("SPY", "400.5", "400.51"), 77, 88), Ok(()));
    assert_eq!(handle_quote(&registry, &mut sink, &quote("MSFT", "1", "2"), 77, 88), Ok(()));
    let expected = QuoteEvent {
        symbol_id: 1,
        bid_px_ticks: 40_050_000_000,
        ask_px_ticks: 40_051_000_000,
        bid_sz: 10,
        ask_sz: 20,
        ts_ns: 2_000_000_500,
        local_rx_ns: 77,
        ingest_mono_ns: 88,
    };
    assert_eq!(sink.last_nbbo, Some(vec![None, Some(expected)]));
}

#[test]
fn handle_quote_reports_unconvertible_prices() {
    let registry = SymbolRegistry::new(vec!["SPY".into()]);
    let mut sink = AlpacaQuoteSink::headless_last_nbbo(1);
    assert_eq!(handle_quote(&registry, &mut sink, &quote("SPY", "-1", "2"), 0, 0), Err("bid price parse"));
    assert_eq!(handle_quote(&registry, &mut sink, &quote("SPY", "1", "-2"), 0, 0), Err("ask price parse"));
    assert_eq!(sink.last_nbbo, Some(vec![None]));
}

#[test]
fn handle_trade_and_payload() {
    let registry = SymbolRegistry::new(vec!["SPY".into()]);
    let q = Arc::new(ArrayQueue::new(4));
    let mut sink = AlpacaQuoteSink::dashboard(Arc::clone(&q), Arc::new(AtomicU64::new(0)));
    let t = StreamTrade {
        symbol: "SPY".into(),
        trade_price: Num::from_str("1.5").unwrap(),
        trade_sz: 3,
        ts_secs: 1,
        ts_subsec_nanos: 0,
    };
    assert_eq!(handle_trade(&registry, &mut sink, &t), Ok(()));
    assert_eq!(q.pop(), Some(FeedMsg::Trade { symbol_id: 0, px_ticks: 150_000_000, sz: 3, ts_ns: 1_000_000_000 }));
    let bad = StreamTrade { trade_price: Num::from(-1), ..t };
    assert_eq!(handle_trade(&registry, &mut sink, &bad), Err("trade price parse"));
    assert_eq!(handle_payload(&registry, &mut sink, &StreamPayload::Other, 0, 0), Ok(()));
    assert!(q.pop().is_none());
}

#[test]
fn feed_source_names() {
    assert_eq!(feed_source_from_name("sip"), AlpacaFeedSource::Sip);
    assert_eq!(feed_source_from_name("SiP"), AlpacaFeedSource::Sip);
    assert_eq!(feed_source_from_name("iex"), AlpacaFeedSource::Iex);
    assert_eq!(feed_source_from_name("sips"), AlpacaFeedSource::Iex);
    assert_eq!(feed_source_from_name(""), AlpacaFeedSource::Iex);
}

#[test]
fn applier_places_then_reprices() {
    let registry = BookRegistry::from_sorted_symbols(&["SPY".to_string()]);
    let books = registry.books().to_vec();
    assert!(registry.book_by_id(0).is_some());
    assert!(registry.book_by_id(1).is_none());
    let mut synth = new_synths(1);
    assert!(!synth[0].placed);
    assert!(apply_event(&books, &mut synth, ev(0, 100, 110)).is_ok());
    assert!(synth[0].placed);
    assert_eq!(books[0].best_bid(), Some(100));
    assert_eq!(books[0].best_ask(), Some(110));
    assert!(apply_event(&books, &mut synth, ev(0, 101, 109)).is_ok());
    assert_eq!(books[0].best_bid(), Some(101));
    assert_eq!(books[0].best_ask(), Some(109));
    assert!(apply_event(&books, &mut synth, ev(4, 1, 2)).is_ok());
    let fresh = SymbolSynth::new();
    assert_ne!(fresh.bid_id, fresh.ask_id);
}

#[test]
fn default_sink_has_no_outputs() {
    let mut sink = AlpacaQuoteSink::default();
    sink.on_quote(ev(0, 1, 2));
    sink.on_trade_msg(0, 1, 1, 1);
    assert!(sink.ring.is_none() && sink.dropped.is_none() && sink.last_nbbo.is_none());
    assert!(sink.feed_queue.is_none() && sink.feed_dropped.is_none());
}

#[test]
fn synth_requests_follow_the_quote() {
    let synth = SymbolSynth::new();
    let (bid, ask) = synth.synth_orders(ev(0, 100, 110));
    assert_eq!(bid, LimitReq { id: 1, price: 100, quantity: 1, side: BookSide::Buy });
    assert_eq!(ask, LimitReq { id: 2, price: 110, quantity: 2, side: BookSide::Sell });
    let (ub, ua) = synth.synth_updates(ev(0, 101, 109));
    assert_eq!(ub, UpdateReq { order_id: 1, update: BookUpdate::PriceAndQuantity { price: 101, quantity: 1 } });
    assert_eq!(ua, UpdateReq { order_id: 2, update: BookUpdate::PriceAndQuantity { price: 109, quantity: 2 } });
}

#[test]
fn invalid_update_falls_back_to_quantity_only() {
    let first = UpdateReq { order_id: 2, update: BookUpdate::PriceAndQuantity { price: 109, quantity: 7 } };
    assert_eq!(
        fallback_update(first, UpdateOutcome::InvalidOperation),
        Some(UpdateReq { order_id: 2, update: BookUpdate::Quantity { quantity: 7 } })
    );
    assert_eq!(fallback_update(first, UpdateOutcome::Applied), None);
    assert_eq!(fallback_update(first, UpdateOutcome::Rejected), None);
}

#[test]
fn handle_quote_checks_bid_before_ask() {
    let registry = SymbolRegistry::new(vec!["SPY".into()]);
    let mut sink = AlpacaQuoteSink::headless_last_nbbo(1);
    assert_eq!(handle_quote(&registry, &mut sink, &quote("SPY", "-1", "-2"), 0, 0), Err("bid price parse"));
    assert_eq!(handle_quote(&registry, &mut sink, &quote("QQQ", "-1", "-2"), 0, 0), Ok(()));
    assert_eq!(sink.last_nbbo, Some(vec![None]));
}

#[test]
fn handle_trade_ignores_unknown_symbols() {
    let registry = SymbolRegistry::new(vec!["SPY".into()]);
    let q = Arc::new(ArrayQueue::new(4));
    let mut sink = AlpacaQuoteSink::dashboard(Arc::clone(&q), Arc::new(AtomicU64::new(0)));
    let t = StreamTrade {
        symbol: "QQQ".into(),
        trade_price: Num::from(-1),
        trade_sz: 3,
        ts_secs: 1,
        ts_subsec_nanos: 0,
    };
    assert_eq!(handle_trade(&registry, &mut sink, &t), Ok(()));
    assert!(q.pop().is_none());
}

#[test]
fn feed_loop_steps() {
    assert_eq!(feed_step(FeedFrame::Ended), FeedStep::Stop);
    assert_eq!(feed_step(FeedFrame::Payload), FeedStep::Handle);
    assert_eq!(feed_step(FeedFrame::DecodeError), FeedStep::Skip);
    assert_eq!(feed_step(FeedFrame::TransportError), FeedStep::Fail);
}

#[test]
fn drain_batch_mirrors_popped_quotes() {
    let registry = BookRegistry::from_sorted_symbols(&["SPY".to_string()]);
    let books = registry.books().to_vec();
    let mut synth = new_synths(1);
    let ring = new_quote_ring(4);
    assert!(!drain_batch(&ring, &books, &mut synth, 4));
    assert!(!synth[0].placed);
    try_push_drop_newest(&ring, ev(0, 100, 110));
    try_push_drop_newest(&ring, ev(0, 101, 109));
    try_push_drop_newest(&ring, ev(0, 102, 108));
    assert!(drain_batch(&ring, &books, &mut synth, 2));
    assert!(synth[0].placed);
    assert_eq!(books[0].best_bid(), Some(101));
    assert_eq!(books[0].best_ask(), Some(109));
    assert_eq!(ring.len(), 1);
    assert!(drain_batch(&ring, &books, &mut synth, 4));
    assert_eq!(books[0].best_bid(), Some(102));
    assert_eq!(ring.len(), 0);
    assert!(!drain_batch(&ring, &books, &mut synth, 0));
}

#[test]
fn book_registry_names_each_book() {
    let symbols = vec!["AAPL".to_string(), "SPY".to_string()];
    let registry = BookRegistry::from_sorted_symbols(&symbols);
    let books = registry.books();
    assert_eq!(books.len(), 2);
    assert_eq!(books[0].symbol(), "AAPL");
    assert_eq!(books[1].symbol(), "SPY");
}
