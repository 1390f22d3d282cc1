//! Per-symbol series for dashboard plots: recent quote samples and the cumulative
//! Lee–Ready signed volume, each kept to the most recent [`SERIES_CAP`] entries.

use crate::viz::classify::{lee_ready_signed_volume, spec_lee_ready};
use crate::viz::pipeline::sat_sub;
use vstd::prelude::*;

verus! {

/// Most recent entries kept per series.
pub const SERIES_CAP: usize = 4096;

/// One quote as plotted: exchange time, NBBO, latency and the signed volume so far.
#[derive(Clone, Copy, Debug, PartialEq, Eq, Structural)]
pub struct QuoteSample {
    pub exch_ts_ns: u64,
    pub bid_px_ticks: u64,
    pub ask_px_ticks: u64,
    /// `local_rx_ns - exch_ts_ns`, saturating at 0.
    pub lat_ns: u64,
    pub cum_trade_delta: i64,
}

struct SymbolState {
    samples: Vec<QuoteSample>,
    /// How many samples were dropped from the front to respect the cap (saturating).
    samples_overflow: usize,
    /// `(exchange_time_ns, cumulative signed volume)` at each classified trade.
    delta_series: Vec<(u64, i64)>,
    last_bid_ticks: u64,
    last_ask_ticks: u64,
    have_nbbo: bool,
    last_trade_px: Option<u64>,
    cum_delta: i64,
}

/// Abstract state of one symbol.
pub struct SymbolView {
    pub samples: Seq<QuoteSample>,
    pub samples_overflow: usize,
    pub delta_series: Seq<(u64, i64)>,
    pub last_bid_ticks: u64,
    pub last_ask_ticks: u64,
    pub have_nbbo: bool,
    pub last_trade_px: Option<u64>,
    pub cum_delta: i64,
}

/// Shared visualization state, one entry per symbol id.
pub struct VizStore {
    symbols: Vec<SymbolState>,
}

/// Copy of one symbol's series for drawing.
pub struct SymbolSnapshot {
    pub samples: Vec<QuoteSample>,
    pub delta_series: Vec<(u64, i64)>,
    pub cum_delta: i64,
}

impl SymbolState {
    spec fn view(&self) -> SymbolView {
        SymbolView {
            samples: self.samples@,
            samples_overflow: self.samples_overflow,
            delta_series: self.delta_series@,
            last_bid_ticks: self.last_bid_ticks,
            last_ask_ticks: self.last_ask_ticks,
            have_nbbo: self.have_nbbo,
            last_trade_px: self.last_trade_px,
            cum_delta: self.cum_delta,
        }
    }
}

impl View for VizStore {
    type V = Seq<SymbolView>;

    closed spec fn view(&self) -> Seq<SymbolView> {
        Seq::new(self.symbols@.len(), |i: int| self.symbols@[i].view())
    }
}

/// A symbol that has seen nothing yet.
pub open spec fn empty_symbol() -> SymbolView {
    SymbolView {
        samples: Seq::empty(),
        samples_overflow: 0,
        delta_series: Seq::empty(),
        last_bid_ticks: 0,
        last_ask_ticks: 0,
        have_nbbo: false,
        last_trade_px: None,
        cum_delta: 0,
    }
}

/// `a + b` clamped to the `i64` range.
pub open spec fn sat_add_i64(a: i64, b: int) -> i64 {
    if a + b > i64::MAX {
        i64::MAX
    } else if a + b < i64::MIN {
        i64::MIN
    } else {
        (a + b) as i64
    }
}

/// `a + b` clamped to `usize::MAX`.
pub open spec fn sat_add_usize(a: usize, b: int) -> usize {
    if a + b > usize::MAX {
        usize::MAX
    } else {
        (a + b) as usize
    }
}

/// The last `n` elements of `s` (all of them when there are fewer).
pub open spec fn keep_last<T>(s: Seq<T>, n: nat) -> Seq<T> {
    if s.len() > n {
        s.skip(s.len() - n)
    } else {
        s
    }
}

/// A symbol's state after a quote: the NBBO is recorded and a sample is appended; when the
/// series is full, the oldest samples are dropped first (and counted) so that it holds at most
/// [`SERIES_CAP`] samples afterwards.
pub open spec fn after_quote(
    st: SymbolView,
    bid_px_ticks: u64,
    ask_px_ticks: u64,
    exch_ts_ns: u64,
    local_rx_ns: u64,
) -> SymbolView {
    let sample = QuoteSample {
        exch_ts_ns,
        bid_px_ticks,
        ask_px_ticks,
        lat_ns: sat_sub(local_rx_ns, exch_ts_ns),
        cum_trade_delta: st.cum_delta,
    };
    let n = st.samples.len();
    let drop = if n >= SERIES_CAP {
        n - SERIES_CAP + 1
    } else {
        0
    };
    SymbolView {
        samples: st.samples.skip(drop).push(sample),
        samples_overflow: if drop > 0 {
            sat_add_usize(st.samples_overflow, drop)
        } else {
            st.samples_overflow
        },
        last_bid_ticks: bid_px_ticks,
        last_ask_ticks: ask_px_ticks,
        have_nbbo: true,
        ..st
    }
}

/// A symbol's state after a trade: without an NBBO nothing changes; otherwise the trade is
/// classified against the last NBBO, the signed volume is added (saturating) to the running
/// total, and a classified trade appends `(exchange time, running total)` to the delta series,
/// which keeps its most recent [`SERIES_CAP`] points.
pub open spec fn after_trade(st: SymbolView, trade_px_ticks: u64, trade_sz: u64, exch_ts_ns: u64) -> SymbolView {
    if !st.have_nbbo {
        st
    } else {
        let (signed, last) = spec_lee_ready(
            trade_px_ticks,
            trade_sz,
            st.last_bid_ticks,
            st.last_ask_ticks,
            st.last_trade_px,
        );
        let cum = sat_add_i64(st.cum_delta, signed);
        SymbolView {
            last_trade_px: if last is Some {
                last
            } else {
                st.last_trade_px
            },
            cum_delta: cum,
            delta_series: if signed != 0 {
                keep_last(st.delta_series.push((exch_ts_ns, cum)), SERIES_CAP as nat)
            } else {
                st.delta_series
            },
            ..st
        }
    }
}

/// Drop the first `k` elements of `v`.
fn drop_front<T>(v: &mut Vec<T>, k: usize)
    requires
        k <= old(v)@.len(),
    ensures
        final(v)@ == old(v)@.skip(k as int),
{
    let tail = v.split_off(k);
    *v = tail;
}

impl SymbolState {
    fn new() -> (r: Self)
        ensures
            r.view() == empty_symbol(),
    {
        let r = SymbolState {
            samples: Vec::new(),
            samples_overflow: 0,
            delta_series: Vec::new(),
            last_bid_ticks: 0,
            last_ask_ticks: 0,
            have_nbbo: false,
            last_trade_px: None,
            cum_delta: 0,
        };
        assert(r.view().samples =~= Seq::empty());
        assert(r.view().delta_series =~= Seq::empty());
        r
    }

    fn push_sample(&mut self, s: QuoteSample)
        ensures
            ({
                let n = old(self).samples@.len();
                let drop = if n >= SERIES_CAP { n - SERIES_CAP + 1 } else { 0 };
                &&& final(self).samples@ == old(self).samples@.skip(drop).push(s)
                &&& final(self).samples_overflow == if drop > 0 {
                    sat_add_usize(old(self).samples_overflow, drop)
                } else {
                    old(self).samples_overflow
                }
            }),
            final(self).delta_series == old(self).delta_series,
            final(self).last_bid_ticks == old(self).last_bid_ticks,
            final(self).last_ask_ticks == old(self).last_ask_ticks,
            final(self).have_nbbo == old(self).have_nbbo,
            final(self).last_trade_px == old(self).last_trade_px,
            final(self).cum_delta == old(self).cum_delta,
    {
        if self.samples.len() >= SERIES_CAP {
            let drop = self.samples.len() - SERIES_CAP + 1;
            drop_front(&mut self.samples, drop);
            self.samples_overflow = self.samples_overflow.saturating_add(drop);
        } else {
            assert(self.samples@.skip(0) =~= self.samples@);
        }
        self.samples.push(s);
    }
}

fn saturating_add_i64(a: i64, b: i64) -> (r: i64)
    ensures
        r == sat_add_i64(a, b as int),
{
    match a.checked_add(b) {
        Some(v) => v,
        None => if b > 0 {
            i64::MAX
        } else {
            i64::MIN
        },
    }
}

impl VizStore {
    /// One empty entry per symbol.
    pub fn new(symbol_count: usize) -> (r: Self)
        ensures
            r@ == Seq::new(symbol_count as nat, |i: int| empty_symbol()),
    {
        let mut symbols: Vec<SymbolState> = Vec::new();
        for i in 0..symbol_count
            invariant
                symbols@.len() == i,
                forall|j: int| 0 <= j < i ==> #[trigger] symbols@[j].view() == empty_symbol(),
        {
            symbols.push(SymbolState::new());
        }
        let r = VizStore { symbols };
        assert(r@ =~= Seq::new(symbol_count as nat, |i: int| empty_symbol()));
        r
    }

    pub fn symbol_count(&self) -> (r: usize)
        ensures
            r == self@.len(),
    {
        self.symbols.len()
    }

    /// Record a quote. `exch_ts_ns` is the quote's exchange time; `local_rx_ns` the local wall
    /// clock at receipt (for latency). Unknown symbol ids are ignored.
    pub fn on_quote(
        &mut self,
        symbol_id: u16,
        bid_px_ticks: u64,
        ask_px_ticks: u64,
        exch_ts_ns: u64,
        local_rx_ns: u64,
    )
        ensures
            final(self)@ == if (symbol_id as int) < old(self)@.len() {
                old(self)@.update(
                    symbol_id as int,
                    after_quote(old(self)@[symbol_id as int], bid_px_ticks, ask_px_ticks, exch_ts_ns, local_rx_ns),
                )
            } else {
                old(self)@
            },
    {
        let idx = symbol_id as usize;
        if idx >= self.symbols.len() {
            return;
        }
        let ghost old_view = self@;
        let mut g = SymbolState::new();
        std::mem::swap(&mut g, &mut self.symbols[idx]);
        g.last_bid_ticks = bid_px_ticks;
        g.last_ask_ticks = ask_px_ticks;
        g.have_nbbo = true;
        let lat_ns = local_rx_ns.saturating_sub(exch_ts_ns);
        let cum_trade_delta = g.cum_delta;
        g.push_sample(QuoteSample { exch_ts_ns, bid_px_ticks, ask_px_ticks, lat_ns, cum_trade_delta });
        self.symbols.set(idx, g);
        assert(self@ =~= old_view.update(
            idx as int,
            after_quote(old_view[idx as int], bid_px_ticks, ask_px_ticks, exch_ts_ns, local_rx_ns),
        ));
    }

    /// Classify a trade against the symbol's last NBBO and update its cumulative signed volume.
    /// Unknown symbol ids, and symbols without a quote yet, are ignored.
    pub fn on_trade(&mut self, symbol_id: u16, trade_px_ticks: u64, trade_sz: u64, exch_ts_ns: u64)
        ensures
            final(self)@ == if (symbol_id as int) < old(self)@.len() {
                old(self)@.update(
                    symbol_id as int,
                    after_trade(old(self)@[symbol_id as int], trade_px_ticks, trade_sz, exch_ts_ns),
                )
            } else {
                old(self)@
            },
    {
        let idx = symbol_id as usize;
        if idx >= self.symbols.len() {
            return;
        }
        let ghost old_view = self@;
        if !self.symbols[idx].have_nbbo {
            assert(self@ =~= old_view.update(idx as int, old_view[idx as int]));
            return;
        }
        let mut g = SymbolState::new();
        std::mem::swap(&mut g, &mut self.symbols[idx]);
        let (signed, last_px) = lee_ready_signed_volume(
            trade_px_ticks,
            trade_sz,
            g.last_bid_ticks,
            g.last_ask_ticks,
            g.last_trade_px,
        );
        if let Some(p) = last_px {
            g.last_trade_px = Some(p);
        }
        g.cum_delta = saturating_add_i64(g.cum_delta, signed);
        if signed != 0 {
            let cum = g.cum_delta;
            g.delta_series.push((exch_ts_ns, cum));
            if g.delta_series.len() > SERIES_CAP {
                let drop = g.delta_series.len() - SERIES_CAP;
                drop_front(&mut g.delta_series, drop);
            }
        }
        self.symbols.set(idx, g);
        assert(self@ =~= old_view.update(
            idx as int,
            after_trade(old_view[idx as int], trade_px_ticks, trade_sz, exch_ts_ns),
        ));
    }

    /// Copy of one symbol's series; an empty snapshot for unknown ids.
    pub fn snapshot_symbol(&self, symbol_id: u16) -> (r: SymbolSnapshot)
        ensures
            (symbol_id as int) < self@.len() ==> {
                &&& r.samples@ == self@[symbol_id as int].samples
                &&& r.delta_series@ == self@[symbol_id as int].delta_series
                &&& r.cum_delta == self@[symbol_id as int].cum_delta
            },
            (symbol_id as int) >= self@.len() ==> r.samples@.len() == 0 && r.delta_series@.len() == 0
                && r.cum_delta == 0,
    {
        let idx = symbol_id as usize;
        if idx >= self.symbols.len() {
            return SymbolSnapshot { samples: Vec::new(), delta_series: Vec::new(), cum_delta: 0 };
        }
        let g = &self.symbols[idx];
        let mut samples: Vec<QuoteSample> = Vec::new();
        for i in 0..g.samples.len()
            invariant
                samples@ == g.samples@.take(i as int),
        {
            samples.push(g.samples[i]);
            assert(samples@ =~= g.samples@.take(i + 1));
        }
        let mut delta_series: Vec<(u64, i64)> = Vec::new();
        for i in 0..g.delta_series.len()
            invariant
                delta_series@ == g.delta_series@.take(i as int),
        {
            delta_series.push(g.delta_series[i]);
            assert(delta_series@ =~= g.delta_series@.take(i + 1));
        }
        assert(samples@ =~= g.samples@);
        assert(delta_series@ =~= g.delta_series@);
        SymbolSnapshot { samples, delta_series, cum_delta: g.cum_delta }
    }
}

/// The state a symbol keeps between updates: both series within [`SERIES_CAP`], and the
/// newest point of the delta series is the current cumulative signed volume.
pub open spec fn symbol_consistent(st: SymbolView) -> bool {
    &&& st.samples.len() <= SERIES_CAP
    &&& st.delta_series.len() <= SERIES_CAP
    &&& st.delta_series.len() > 0 ==> st.delta_series.last().1 == st.cum_delta
}

/// Every quote and every trade keeps a symbol consistent, starting from the empty symbol:
/// the series never exceed their cap and the delta series ends at the running total.
pub proof fn law_updates_keep_symbol_consistent(
    st: SymbolView,
    bid_px_ticks: u64,
    ask_px_ticks: u64,
    exch_ts_ns: u64,
    local_rx_ns: u64,
    trade_px_ticks: u64,
    trade_sz: u64,
)
    requires
        symbol_consistent(st),
    ensures
        symbol_consistent(empty_symbol()),
        symbol_consistent(after_quote(st, bid_px_ticks, ask_px_ticks, exch_ts_ns, local_rx_ns)),
        symbol_consistent(after_trade(st, trade_px_ticks, trade_sz, exch_ts_ns)),
{
    let t = after_trade(st, trade_px_ticks, trade_sz, exch_ts_ns);
    if st.have_nbbo {
        let (signed, last) = spec_lee_ready(
            trade_px_ticks,
            trade_sz,
            st.last_bid_ticks,
            st.last_ask_ticks,
            st.last_trade_px,
        );
        if signed != 0 {
            let d = st.delta_series.push((exch_ts_ns, t.cum_delta));
            assert(t.delta_series.last() == d.last());
        }
    }
}

/// A quote appends exactly one sample, describing that quote and the running signed volume,
/// at the end of the series.
pub proof fn law_quote_appends_sample(
    st: SymbolView,
    bid_px_ticks: u64,
    ask_px_ticks: u64,
    exch_ts_ns: u64,
    local_rx_ns: u64,
)
    ensures
        ({
            let after = after_quote(st, bid_px_ticks, ask_px_ticks, exch_ts_ns, local_rx_ns);
            &&& after.samples.len() > 0
            &&& after.samples.last() == QuoteSample {
                exch_ts_ns,
                bid_px_ticks,
                ask_px_ticks,
                lat_ns: sat_sub(local_rx_ns, exch_ts_ns),
                cum_trade_delta: st.cum_delta,
            }
            &&& after.cum_delta == st.cum_delta
            &&& after.delta_series == st.delta_series
        }),
{
}

/// A trade on a symbol with a usable quote (an NBBO, bid below ask) and a positive size always
/// becomes the symbol's last trade price, also when it came out neutral (signed volume 0), so
/// the next trade at the midpoint is tick-tested against it. A trade that is skipped (no NBBO,
/// size 0, or a crossed or locked quote) leaves the last trade price as it was.
pub proof fn law_trade_sets_last_price(st: SymbolView, px: u64, sz: u64, ts: u64)
    ensures
        st.have_nbbo && sz > 0 && st.last_bid_ticks < st.last_ask_ticks ==> after_trade(st, px, sz, ts).last_trade_px
            == Some(px),
        !(st.have_nbbo && sz > 0 && st.last_bid_ticks < st.last_ask_ticks) ==> after_trade(st, px, sz, ts).last_trade_px
            == st.last_trade_px,
{
}

} // verus!
