use crossbeam_queue::ArrayQueue;
use easy_rs::cold_path::feed_msg::FeedMsg;
use easy_rs::viz::pipeline::{
    aggregate_batch, apply_feed_msg, initial_states, merge_quote, merge_trade, NbboState, AGG_BATCH,
};
use easy_rs::hot_path::quote_event::QuoteEvent;
use easy_rs::cold_path::ticks::PRICE_TICK_SCALE;

fn sample_quote(bid_ticks: u64, ask_ticks: u64) -> QuoteEvent {
    let exch = 1_000_000_000u64;
    let local = exch + 2_000_000;
    QuoteEvent {
        symbol_id: 0,
        bid_px_ticks: bid_ticks,
        ask_px_ticks: ask_ticks,
        bid_sz: 100,
        ask_sz: 200,
        ts_ns: exch,
        local_rx_ns: local,
        ingest_mono_ns: 0,
    }
}

fn dollars(ticks: u64) -> f64 {
    ticks as f64 / PRICE_TICK_SCALE as f64
}

#[test]
fn quote_sets_spread_and_pct() {
    let mut states = vec![NbboState::empty()];
    let scale = PRICE_TICK_SCALE as f64;
    merge_quote(&mut states, sample_quote((10.0 * scale) as u64, (10.02 * scale) as u64));
    let r = &states[0];
    let bid = dollars(r.bid_px_ticks);
    let ask = dollars(r.ask_px_ticks);
    let spread_abs = ask - bid;
    let mid = (bid + ask) / 2.0;
    let spread_pct = 100.0 * spread_abs / mid;
    let lat_ms = (r.lat_ns as f64 / 1_000_000.0) as f32;
    assert!(r.valid);
    assert!((bid - 10.0).abs() < 1e-6);
    assert!((ask - 10.02).abs() < 1e-6);
    assert!((spread_abs - 0.02).abs() < 1e-6);
    assert!((spread_pct - 100.0 * 0.02 / 10.01).abs() < 1e-4);
    assert!((f64::from(lat_ms) - 2.0).abs() < 0.01);
    assert_eq!(r.bid_sz, 100);
    assert_eq!(r.ask_sz, 200);
}

#[test]
fn trade_then_quote_preserves_each() {
    let mut states = vec![NbboState::empty()];
    let scale = PRICE_TICK_SCALE as f64;
    merge_trade(&mut states, 0, (10.05 * scale) as u64, 42);
    assert!(!states[0].valid);
    assert_eq!(states[0].last_sz, 42);
    merge_quote(&mut states, sample_quote((10.0 * scale) as u64, (10.02 * scale) as u64));
    assert!(states[0].valid);
    assert_eq!(states[0].last_sz, 42);
    assert!((dollars(states[0].last_px_ticks) - 10.05).abs() < 1e-6);
}

#[test]
fn quote_then_trade_keeps_nbbo() {
    let mut states = vec![NbboState::empty()];
    let scale = PRICE_TICK_SCALE as f64;
    merge_quote(&mut states, sample_quote((10.0 * scale) as u64, (10.02 * scale) as u64));
    merge_trade(&mut states, 0, (10.01 * scale) as u64, 7);
    assert!(states[0].valid);
    assert_eq!(states[0].last_sz, 7);
    assert!((dollars(states[0].bid_px_ticks) - 10.0).abs() < 1e-6);
}

#[test]
fn quote_and_trade_commute() {
    let q = FeedMsg::Quote(sample_quote(1_000, 1_010));
    let t = FeedMsg::Trade { symbol_id: 0, px_ticks: 1_005, sz: 3, ts_ns: 9 };
    let mut a = initial_states(2);
    apply_feed_msg(&mut a, q);
    apply_feed_msg(&mut a, t);
    let mut b = initial_states(2);
    apply_feed_msg(&mut b, t);
    apply_feed_msg(&mut b, q);
    assert_eq!(a, b);
    assert_eq!(a[1], NbboState::empty());
}

#[test]
fn unknown_symbol_ignored() {
    let mut states = initial_states(1);
    let mut ev = sample_quote(1, 2);
    ev.symbol_id = 5;
    merge_quote(&mut states, ev);
    merge_trade(&mut states, 9, 1, 1);
    assert_eq!(states, vec![NbboState::empty()]);
}

#[test]
fn latency_saturates_at_zero() {
    let mut states = initial_states(1);
    let mut ev = sample_quote(1, 2);
    ev.local_rx_ns = ev.ts_ns - 5;
    merge_quote(&mut states, ev);
    assert_eq!(states[0].lat_ns, 0);
}

#[test]
fn batch_applies_queued_messages_in_order() {
    let q = ArrayQueue::new(4);
    q.push(FeedMsg::Trade { symbol_id: 0, px_ticks: 10, sz: 1, ts_ns: 0 }).unwrap();
    q.push(FeedMsg::Trade { symbol_id: 0, px_ticks: 11, sz: 2, ts_ns: 0 }).unwrap();
    let mut states = initial_states(1);
    let did = aggregate_batch(&mut states, &q);
    assert_eq!(did, 2);
    assert_eq!(states[0].last_px_ticks, 11);
    assert_eq!(states[0].last_sz, 2);
    assert_eq!(aggregate_batch(&mut states, &q), 0);
}

#[test]
fn batch_stops_at_batch_size() {
    let q = ArrayQueue::new(AGG_BATCH + 10);
    for i in 0..(AGG_BATCH + 10) {
        q.push(FeedMsg::Trade { symbol_id: 0, px_ticks: i as u64, sz: 1, ts_ns: 0 }).unwrap();
    }
    let mut states = initial_states(1);
    assert_eq!(aggregate_batch(&mut states, &q), AGG_BATCH);
    assert_eq!(states[0].last_px_ticks, (AGG_BATCH - 1) as u64);
    assert_eq!(q.len(), 10);
}
