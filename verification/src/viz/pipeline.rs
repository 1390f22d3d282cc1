//! Aggregator state: per symbol, the latest merged NBBO quote and the last trade print, in
//! integer ticks. Quotes and trades update disjoint parts of a symbol's row.

use crate::cold_path::feed_msg::FeedMsg;
use crate::hot_path::quote_event::QuoteEvent;
use crate::hot_path::ring::queue_pop;
use crossbeam_queue::ArrayQueue;
use vstd::prelude::*;

verus! {

/// Messages applied per aggregator batch before a snapshot is published.
pub const AGG_BATCH: usize = 256;

/// Latest merged quote and last trade for one symbol.
#[derive(Clone, Copy, Debug, PartialEq, Eq, Structural)]
pub struct NbboState {
    /// At least one NBBO quote has been merged.
    pub valid: bool,
    pub bid_px_ticks: u64,
    pub ask_px_ticks: u64,
    pub bid_sz: u64,
    pub ask_sz: u64,
    /// `local_rx_ns - ts_ns` of the last quote, saturating at 0.
    pub lat_ns: u64,
    /// Last trade price; preserved across quote updates.
    pub last_px_ticks: u64,
    pub last_sz: u64,
}

/// The empty row: no quote merged yet, no trade seen.
pub open spec fn empty_row() -> NbboState {
    NbboState {
        valid: false,
        bid_px_ticks: 0,
        ask_px_ticks: 0,
        bid_sz: 0,
        ask_sz: 0,
        lat_ns: 0,
        last_px_ticks: 0,
        last_sz: 0,
    }
}

/// `a - b`, or 0 when `b > a`.
pub open spec fn sat_sub(a: u64, b: u64) -> u64 {
    if a >= b {
        (a - b) as u64
    } else {
        0
    }
}

/// A row after merging quote `ev`: the quote fields and latency come from `ev`, the last trade
/// is kept.
pub open spec fn merged_quote(prev: NbboState, ev: QuoteEvent) -> NbboState {
    NbboState {
        valid: true,
        bid_px_ticks: ev.bid_px_ticks,
        ask_px_ticks: ev.ask_px_ticks,
        bid_sz: ev.bid_sz,
        ask_sz: ev.ask_sz,
        lat_ns: sat_sub(ev.local_rx_ns, ev.ts_ns),
        last_px_ticks: prev.last_px_ticks,
        last_sz: prev.last_sz,
    }
}

/// A row after merging a trade: only the last trade changes.
pub open spec fn merged_trade(prev: NbboState, px_ticks: u64, sz: u64) -> NbboState {
    NbboState { last_px_ticks: px_ticks, last_sz: sz, ..prev }
}

/// The symbol a message is about.
pub open spec fn msg_symbol(msg: FeedMsg) -> u16 {
    match msg {
        FeedMsg::Quote(ev) => ev.symbol_id,
        FeedMsg::Trade { symbol_id, .. } => symbol_id,
    }
}

/// All rows after applying one message; ids beyond the table are ignored.
pub open spec fn applied(states: Seq<NbboState>, msg: FeedMsg) -> Seq<NbboState> {
    let id = msg_symbol(msg) as int;
    if id < states.len() {
        states.update(
            id,
            match msg {
                FeedMsg::Quote(ev) => merged_quote(states[id], ev),
                FeedMsg::Trade { px_ticks, sz, .. } => merged_trade(states[id], px_ticks, sz),
            },
        )
    } else {
        states
    }
}

/// All rows after applying a sequence of messages in order.
pub open spec fn applied_all(states: Seq<NbboState>, msgs: Seq<FeedMsg>) -> Seq<NbboState>
    decreases msgs.len(),
{
    if msgs.len() == 0 {
        states
    } else {
        applied(applied_all(states, msgs.drop_last()), msgs.last())
    }
}

impl NbboState {
    /// The empty row.
    pub fn empty() -> (r: Self)
        ensures
            r == empty_row(),
    {
        NbboState {
            valid: false,
            bid_px_ticks: 0,
            ask_px_ticks: 0,
            bid_sz: 0,
            ask_sz: 0,
            lat_ns: 0,
            last_px_ticks: 0,
            last_sz: 0,
        }
    }
}

/// One empty row per symbol.
pub fn initial_states(symbol_count: usize) -> (r: Vec<NbboState>)
    ensures
        r@ == Seq::new(symbol_count as nat, |i: int| empty_row()),
{
    let mut v: Vec<NbboState> = Vec::new();
    for i in 0..symbol_count
        invariant
            v@ == Seq::new(i as nat, |j: int| empty_row()),
    {
        v.push(NbboState::empty());
        assert(v@ =~= Seq::new((i + 1) as nat, |j: int| empty_row()));
    }
    v
}

/// Merge an NBBO quote into its symbol's row, keeping that row's last trade.
pub fn merge_quote(states: &mut Vec<NbboState>, ev: QuoteEvent)
    ensures
        final(states)@ == applied(old(states)@, FeedMsg::Quote(ev)),
{
    let id = ev.symbol_id as usize;
    if id >= states.len() {
        return;
    }
    let prev = states[id];
    let lat_ns = ev.local_rx_ns.saturating_sub(ev.ts_ns);
    states.set(
        id,
        NbboState {
            valid: true,
            bid_px_ticks: ev.bid_px_ticks,
            ask_px_ticks: ev.ask_px_ticks,
            bid_sz: ev.bid_sz,
            ask_sz: ev.ask_sz,
            lat_ns,
            last_px_ticks: prev.last_px_ticks,
            last_sz: prev.last_sz,
        },
    );
}

/// Merge a trade print into its symbol's row, keeping that row's quote.
pub fn merge_trade(states: &mut Vec<NbboState>, symbol_id: u16, px_ticks: u64, sz: u64)
    ensures
        final(states)@ == applied(
            old(states)@,
            FeedMsg::Trade { symbol_id, px_ticks, sz, ts_ns: 0 },
        ),
{
    let id = symbol_id as usize;
    if id >= states.len() {
        return;
    }
    let prev = states[id];
    states.set(id, NbboState { last_px_ticks: px_ticks, last_sz: sz, ..prev });
}

/// Apply one feed message to the rows.
pub fn apply_feed_msg(states: &mut Vec<NbboState>, msg: FeedMsg)
    ensures
        final(states)@ == applied(old(states)@, msg),
{
    match msg {
        FeedMsg::Quote(ev) => merge_quote(states, ev),
        FeedMsg::Trade { symbol_id, px_ticks, sz, .. } => merge_trade(states, symbol_id, px_ticks, sz),
    }
}

/// Pop and apply up to [`AGG_BATCH`] messages from the queue, stopping early when it is empty.
/// Returns how many were applied; the rows are the old rows with those messages applied in
/// the order they were popped.
pub fn aggregate_batch(states: &mut Vec<NbboState>, queue: &ArrayQueue<FeedMsg>) -> (did: usize)
    ensures
        did <= AGG_BATCH,
        exists|msgs: Seq<FeedMsg>|
            msgs.len() == did && final(states)@ == #[trigger] applied_all(old(states)@, msgs),
{
    let ghost init = states@;
    let ghost mut msgs: Seq<FeedMsg> = Seq::empty();
    let mut did: usize = 0;
    while did < AGG_BATCH
        invariant
            did <= AGG_BATCH,
            msgs.len() == did,
            states@ == applied_all(init, msgs),
        decreases AGG_BATCH - did,
    {
        match queue_pop(queue) {
            Some(msg) => {
                apply_feed_msg(states, msg);
                proof {
                    assert(msgs.push(msg).drop_last() =~= msgs);
                    msgs = msgs.push(msg);
                }
                did = did + 1;
            },
            None => {
                break;
            },
        }
    }
    did
}

/// A trade never changes a row's quote, and a quote never changes a row's last trade: a
/// quote and a trade for the same symbol commute, and so do any two messages for different
/// symbols.
pub proof fn law_quote_trade_commute(states: Seq<NbboState>, a: FeedMsg, b: FeedMsg)
    requires
        msg_symbol(a) != msg_symbol(b) || (a is Quote && b is Trade),
    ensures
        applied(applied(states, a), b) == applied(applied(states, b), a),
{
    let sa = applied(applied(states, a), b);
    let sb = applied(applied(states, b), a);
    assert(sa =~= sb);
}

/// After a quote then a trade (or a trade then a quote) for the same symbol, the row holds
/// both: the quote's NBBO and the trade's last print.
pub proof fn law_row_keeps_quote_and_trade(
    states: Seq<NbboState>,
    ev: QuoteEvent,
    px_ticks: u64,
    sz: u64,
    ts_ns: u64,
)
    requires
        (ev.symbol_id as int) < states.len(),
    ensures
        ({
            let t = FeedMsg::Trade { symbol_id: ev.symbol_id, px_ticks, sz, ts_ns };
            let q = FeedMsg::Quote(ev);
            let row = applied(applied(states, q), t)[ev.symbol_id as int];
            &&& row == applied(applied(states, t), q)[ev.symbol_id as int]
            &&& row.valid
            &&& row.bid_px_ticks == ev.bid_px_ticks && row.ask_px_ticks == ev.ask_px_ticks
            &&& row.bid_sz == ev.bid_sz && row.ask_sz == ev.ask_sz
            &&& row.last_px_ticks == px_ticks && row.last_sz == sz
        }),
{
}

/// Messages about symbols outside the table change nothing.
pub proof fn law_unknown_symbol_ignored(states: Seq<NbboState>, msg: FeedMsg)
    requires
        msg_symbol(msg) as int >= states.len(),
    ensures
        applied(states, msg) == states,
{
}

} // verus!
