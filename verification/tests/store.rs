use easy_rs::viz::store::{VizStore, SERIES_CAP};

#[test]
fn quote_latency_ms_positive_small() {
    let mut s = VizStore::new(1);
    let exch = 1_000_000_000u64;
    let local = exch + 1_500_000; // +1.5 ms
    s.on_quote(0, 100, 200, exch, local);
    let snap = s.snapshot_symbol(0);
    assert_eq!(snap.samples.len(), 1);
    let latency_ms = (snap.samples[0].lat_ns as f64 / 1_000_000.0) as f32;
    assert!(latency_ms >= 1.0 && latency_ms <= 3.0);
}

#[test]
fn trade_updates_delta_series() {
    let mut s = VizStore::new(1);
    s.on_quote(0, 100, 200, 1_000_000_000, 1_000_000_100);
    s.on_trade(0, 180, 5, 1_000_000_200);
    let snap = s.snapshot_symbol(0);
    assert!(!snap.delta_series.is_empty());
}

#[test]
fn trade_before_any_quote_is_ignored() {
    let mut s = VizStore::new(1);
    s.on_trade(0, 180, 5, 1);
    let snap = s.snapshot_symbol(0);
    assert!(snap.delta_series.is_empty());
    assert_eq!(snap.cum_delta, 0);
}

#[test]
fn cumulative_delta_and_samples_carry_it() {
    let mut s = VizStore::new(2);
    s.on_quote(1, 100, 200, 10, 20);
    s.on_trade(1, 190, 5, 30); // buy +5
    s.on_trade(1, 110, 2, 40); // sell -2
    s.on_trade(1, 150, 9, 50); // at mid, tick up from 110: +9
    s.on_quote(1, 100, 200, 60, 60);
    let snap = s.snapshot_symbol(1);
    assert_eq!(snap.cum_delta, 12);
    assert_eq!(snap.delta_series, vec![(30, 5), (40, 3), (50, 12)]);
    assert_eq!(snap.samples.len(), 2);
    assert_eq!(snap.samples[0].cum_trade_delta, 0);
    assert_eq!(snap.samples[1].cum_trade_delta, 12);
    assert_eq!(snap.samples[0].lat_ns, 10);
    assert_eq!(s.snapshot_symbol(0).samples.len(), 0);
}

#[test]
fn unknown_symbol_gives_empty_snapshot() {
    let mut s = VizStore::new(1);
    s.on_quote(3, 1, 2, 3, 4);
    assert_eq!(s.symbol_count(), 1);
    let snap = s.snapshot_symbol(3);
    assert!(snap.samples.is_empty() && snap.delta_series.is_empty());
    assert!(s.snapshot_symbol(0).samples.is_empty());
}

#[test]
fn sample_series_is_capped() {
    let mut s = VizStore::new(1);
    for i in 0..(SERIES_CAP as u64 + 5) {
        s.on_quote(0, 100, 200, i, i);
    }
    let snap = s.snapshot_symbol(0);
    assert_eq!(snap.samples.len(), SERIES_CAP);
    assert_eq!(snap.samples[0].exch_ts_ns, 5);
    assert_eq!(snap.samples[SERIES_CAP - 1].exch_ts_ns, SERIES_CAP as u64 + 4);
}

#[test]
fn delta_series_is_capped() {
    let mut s = VizStore::new(1);
    s.on_quote(0, 100, 200, 0, 0);
    for i in 0..(SERIES_CAP as u64 + 3) {
        s.on_trade(0, 190, 1, i);
    }
    let snap = s.snapshot_symbol(0);
    assert_eq!(snap.delta_series.len(), SERIES_CAP);
    assert_eq!(snap.delta_series[0], (3, 4));
    assert_eq!(*snap.delta_series.last().unwrap(), (SERIES_CAP as u64 + 2, snap.cum_delta));
}
