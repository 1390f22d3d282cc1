//! Where normalized quotes go: the quote ring, the last-NBBO buffer and the aggregator queue.

use crate::cold_path::feed_msg::FeedMsg;
use crate::hot_path::quote_event::QuoteEvent;
use crate::hot_path::ring::{push_outcome, queue_push, try_push_drop_newest, QuoteRing, RingPushOutcome};
use crossbeam_queue::ArrayQueue;
use std::sync::atomic::AtomicU64;
use std::sync::atomic::Ordering;
use std::sync::Arc;
use vstd::prelude::*;

verus! {

/// Optional outputs for each quote. All fields are independent: enable only what you need.
#[derive(Clone)]
pub struct AlpacaQuoteSink {
    /// Bounded queue + drop counter; the ring is used only when `dropped` is set too.
    pub ring: Option<QuoteRing>,
    pub dropped: Option<Arc<AtomicU64>>,
    /// Latest quote per `symbol_id`, for headless logging or metrics.
    pub last_nbbo: Option<Vec<Option<QuoteEvent>>>,
    /// Aggregator handoff: lock-free queue; **drop-newest** when full.
    pub feed_queue: Option<Arc<ArrayQueue<FeedMsg>>>,
    pub feed_dropped: Option<Arc<AtomicU64>>,
    /// Every quote this sink handed to the ring, with the push's outcome, oldest first.
    ///
    /// This and the three records below are ghost state that the sink's own code writes next to
    /// each push and each drop count; nothing ties them to the queue or counter themselves.
    pub ring_log: Ghost<Seq<(QuoteEvent, RingPushOutcome)>>,
    /// How many times this sink counted a ring drop on `dropped`.
    pub ring_drops: Ghost<nat>,
    /// Every message this sink handed to the aggregator queue, with the push's outcome.
    pub feed_log: Ghost<Seq<(FeedMsg, RingPushOutcome)>>,
    /// How many times this sink counted an aggregator drop on `feed_dropped`.
    pub feed_drops: Ghost<nat>,
}

/// `log` grew by exactly one push of `item` (whatever its outcome).
pub open spec fn pushed_one<T>(before: Seq<(T, RingPushOutcome)>, after: Seq<(T, RingPushOutcome)>, item: T) -> bool {
    &&& after.len() == before.len() + 1
    &&& after.drop_last() == before
    &&& after.last().0 == item
}

/// 1 when the last push of `log` was dropped, else 0.
pub open spec fn last_drop<T>(log: Seq<(T, RingPushOutcome)>) -> nat {
    if log.last().1 == RingPushOutcome::DroppedNewest {
        1
    } else {
        0
    }
}

/// What sending `msg` to the aggregator does to the sink's record: with a queue set, `msg` is
/// pushed once and, when the push was dropped and a drop counter is set, one drop is counted;
/// without a queue nothing happens.
pub open spec fn feed_sent(before: AlpacaQuoteSink, after: AlpacaQuoteSink, msg: FeedMsg) -> bool {
    if before.feed_queue is Some {
        &&& pushed_one(before.feed_log@, after.feed_log@, msg)
        &&& after.feed_drops@ == before.feed_drops@ + if before.feed_dropped is Some {
            last_drop(after.feed_log@)
        } else {
            0
        }
    } else {
        after.feed_log@ == before.feed_log@ && after.feed_drops@ == before.feed_drops@
    }
}

/// What handing quote `ev` to the ring does to the sink's record: with both ring and counter
/// set, `ev` is pushed once and a dropped push is counted; otherwise nothing happens.
pub open spec fn ring_sent(before: AlpacaQuoteSink, after: AlpacaQuoteSink, ev: QuoteEvent) -> bool {
    if before.ring is Some && before.dropped is Some {
        &&& pushed_one(before.ring_log@, after.ring_log@, ev)
        &&& after.ring_drops@ == before.ring_drops@ + last_drop(after.ring_log@)
    } else {
        after.ring_log@ == before.ring_log@ && after.ring_drops@ == before.ring_drops@
    }
}

/// The ring record is untouched.
pub open spec fn ring_unchanged(before: AlpacaQuoteSink, after: AlpacaQuoteSink) -> bool {
    after.ring_log@ == before.ring_log@ && after.ring_drops@ == before.ring_drops@
}

/// The shared handles are the same.
pub open spec fn same_handles(a: AlpacaQuoteSink, b: AlpacaQuoteSink) -> bool {
    &&& a.ring == b.ring
    &&& a.dropped == b.dropped
    &&& a.feed_queue == b.feed_queue
    &&& a.feed_dropped == b.feed_dropped
}

/// The full effect of fanning out quote `ev`: the ring push, the last-NBBO slot and the
/// aggregator push, the handles left as they were.
pub open spec fn quote_fanned(before: AlpacaQuoteSink, after: AlpacaQuoteSink, ev: QuoteEvent) -> bool {
    &&& same_handles(after, before)
    &&& opt_buf(after.last_nbbo) == match opt_buf(before.last_nbbo) {
        Some(b) => Some(record_last(b, ev)),
        None => None,
    }
    &&& ring_sent(before, after, ev)
    &&& feed_sent(before, after, FeedMsg::Quote(ev))
}

/// The last-NBBO buffer after recording `ev`: slot `ev.symbol_id` holds `ev` when it exists;
/// out-of-range ids leave the buffer as it was.
pub open spec fn record_last(buf: Seq<Option<QuoteEvent>>, ev: QuoteEvent) -> Seq<Option<QuoteEvent>> {
    if (ev.symbol_id as int) < buf.len() {
        buf.update(ev.symbol_id as int, Some(ev))
    } else {
        buf
    }
}

/// View of an optional buffer.
pub open spec fn opt_buf(b: Option<Vec<Option<QuoteEvent>>>) -> Option<Seq<Option<QuoteEvent>>> {
    match b {
        Some(v) => Some(v@),
        None => None,
    }
}

/// Count one dropped message.
fn bump(counter: &AtomicU64) {
    counter.fetch_add(1, Ordering::Relaxed);
}

impl Default for AlpacaQuoteSink {
    /// A sink with no outputs enabled.
    fn default() -> (r: Self)
        ensures
            r.ring is None && r.dropped is None && r.last_nbbo is None,
            r.feed_queue is None && r.feed_dropped is None,
            r.fresh(),
    {
        AlpacaQuoteSink { ring: None, dropped: None, last_nbbo: None, feed_queue: None, feed_dropped: None, ring_log: Ghost(Seq::empty()), ring_drops: Ghost(0), feed_log: Ghost(Seq::empty()), feed_drops: Ghost(0) }
    }
}

impl AlpacaQuoteSink {
    /// Headless stream: only track the last NBBO per symbol (for shutdown logs).
    pub fn headless_last_nbbo(symbol_count: usize) -> (r: Self)
        ensures
            opt_buf(r.last_nbbo) == Some(Seq::new(symbol_count as nat, |i: int| None::<QuoteEvent>)),
            r.ring is None && r.dropped is None,
            r.feed_queue is None && r.feed_dropped is None,
            r.fresh(),
    {
        let mut buf: Vec<Option<QuoteEvent>> = Vec::new();
        for i in 0..symbol_count
            invariant
                buf@ == Seq::new(i as nat, |j: int| None::<QuoteEvent>),
        {
            buf.push(None);
            assert(buf@ =~= Seq::new((i + 1) as nat, |j: int| None::<QuoteEvent>));
        }
        AlpacaQuoteSink { ring: None, dropped: None, last_nbbo: Some(buf), feed_queue: None, feed_dropped: None, ring_log: Ghost(Seq::empty()), ring_drops: Ghost(0), feed_log: Ghost(Seq::empty()), feed_drops: Ghost(0) }
    }

    /// Aggregator handoff: push quotes/trades to `feed` only.
    pub fn dashboard(feed: Arc<ArrayQueue<FeedMsg>>, feed_dropped: Arc<AtomicU64>) -> (r: Self)
        ensures
            r.feed_queue == Some(feed) && r.feed_dropped == Some(feed_dropped),
            r.ring is None && r.dropped is None && r.last_nbbo is None,
            r.fresh(),
    {
        AlpacaQuoteSink {
            ring: None,
            dropped: None,
            last_nbbo: None,
            feed_queue: Some(feed),
            feed_dropped: Some(feed_dropped),
            ring_log: Ghost(Seq::empty()),
            ring_drops: Ghost(0),
            feed_log: Ghost(Seq::empty()),
            feed_drops: Ghost(0),
        }
    }

    /// Ring path (drops newest when full).
    pub fn with_ring(ring: QuoteRing, dropped: Arc<AtomicU64>) -> (r: Self)
        ensures
            r.ring == Some(ring) && r.dropped == Some(dropped),
            r.last_nbbo is None && r.feed_queue is None && r.feed_dropped is None,
            r.fresh(),
    {
        AlpacaQuoteSink {
            ring: Some(ring),
            dropped: Some(dropped),
            last_nbbo: None,
            feed_queue: None,
            feed_dropped: None,
            ring_log: Ghost(Seq::empty()),
            ring_drops: Ghost(0),
            feed_log: Ghost(Seq::empty()),
            feed_drops: Ghost(0),
        }
    }

    /// Nothing has been sent or counted yet.
    pub open spec fn fresh(self) -> bool {
        &&& self.ring_log@ == Seq::<(QuoteEvent, RingPushOutcome)>::empty()
        &&& self.ring_drops@ == 0
        &&& self.feed_log@ == Seq::<(FeedMsg, RingPushOutcome)>::empty()
        &&& self.feed_drops@ == 0
    }

    /// Push to the aggregator queue when one is set; a full queue drops `msg` and counts it.
    fn try_push_feed(&mut self, msg: FeedMsg)
        ensures
            same_handles(*final(self), *old(self)),
            final(self).last_nbbo == old(self).last_nbbo,
            ring_unchanged(*old(self), *final(self)),
            feed_sent(*old(self), *final(self), msg),
    {
        if let Some(q) = &self.feed_queue {
            let out = push_outcome(queue_push(q, msg));
            self.feed_log = Ghost(self.feed_log@.push((msg, out)));
            if out == RingPushOutcome::DroppedNewest {
                if let Some(d) = &self.feed_dropped {
                    bump(d);
                    self.feed_drops = Ghost(self.feed_drops@ + 1);
                }
            }
            assert(self.feed_log@.drop_last() =~= old(self).feed_log@);
        }
    }

    /// Fan a quote out: ring (when both ring and counter are set; a full ring drops the quote
    /// and counts it), last-NBBO slot of its symbol, and the aggregator queue. Queues and
    /// counters are shared handles and stay the same handles.
    pub fn on_quote(&mut self, ev: QuoteEvent)
        ensures
            quote_fanned(*old(self), *final(self), ev),
    {
        if let Some(ring) = &self.ring {
            if let Some(dropped) = &self.dropped {
                let out = try_push_drop_newest(ring, ev);
                self.ring_log = Ghost(self.ring_log@.push((ev, out)));
                if out == RingPushOutcome::DroppedNewest {
                    bump(dropped);
                    self.ring_drops = Ghost(self.ring_drops@ + 1);
                }
                assert(self.ring_log@.drop_last() =~= old(self).ring_log@);
            }
        }
        if let Some(buf) = &mut self.last_nbbo {
            let i = ev.symbol_id as usize;
            if i < buf.len() {
                buf.set(i, Some(ev));
            }
        }
        self.try_push_feed(FeedMsg::Quote(ev));
    }

    /// Hand a trade to the aggregator queue (when set).
    pub fn on_trade_msg(&mut self, symbol_id: u16, px_ticks: u64, sz: u64, ts_ns: u64)
        ensures
            same_handles(*final(self), *old(self)),
            final(self).last_nbbo == old(self).last_nbbo,
            ring_unchanged(*old(self), *final(self)),
            feed_sent(*old(self), *final(self), FeedMsg::Trade { symbol_id, px_ticks, sz, ts_ns }),
    {
        self.try_push_feed(FeedMsg::Trade { symbol_id, px_ticks, sz, ts_ns });
    }
}

/// The last-NBBO buffer keeps the latest quote per symbol: a later quote for the same symbol
/// replaces an earlier one, and quotes for different symbols do not interfere (their order
/// does not matter).
pub proof fn law_last_quote_wins(buf: Seq<Option<QuoteEvent>>, a: QuoteEvent, b: QuoteEvent)
    ensures
        a.symbol_id == b.symbol_id ==> record_last(record_last(buf, a), b) == record_last(buf, b),
        a.symbol_id != b.symbol_id ==> record_last(record_last(buf, a), b) == record_last(record_last(buf, b), a),
        record_last(buf, a).len() == buf.len(),
{
    if a.symbol_id == b.symbol_id {
        assert(record_last(record_last(buf, a), b) =~= record_last(buf, b));
    } else {
        assert(record_last(record_last(buf, a), b) =~= record_last(record_last(buf, b), a));
    }
}

/// Number of dropped pushes in `log`.
pub open spec fn drop_count<T>(log: Seq<(T, RingPushOutcome)>) -> nat
    decreases log.len(),
{
    if log.len() == 0 {
        0
    } else {
        drop_count(log.drop_last()) + last_drop(log)
    }
}

/// The sink's counted drops are exactly its dropped pushes: every ring drop, and every
/// aggregator drop when it has an aggregator drop counter.
pub open spec fn drops_counted(s: AlpacaQuoteSink) -> bool {
    &&& s.ring_drops@ == drop_count(s.ring_log@)
    &&& s.feed_dropped is Some ==> s.feed_drops@ == drop_count(s.feed_log@)
}

/// Each drop is counted once: a new sink has counted none, and fanning out a quote or
/// forwarding a message keeps the counted drops equal to the dropped pushes.
pub proof fn law_drops_counted(before: AlpacaQuoteSink, after: AlpacaQuoteSink, ev: QuoteEvent, msg: FeedMsg)
    ensures
        before.fresh() ==> drops_counted(before),
        drops_counted(before) && quote_fanned(before, after, ev) ==> drops_counted(after),
        drops_counted(before) && same_handles(after, before) && ring_unchanged(before, after) && feed_sent(
            before,
            after,
            msg,
        ) ==> drops_counted(after),
{
}

} // verus!
