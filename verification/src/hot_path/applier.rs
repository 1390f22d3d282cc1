//! Single-writer NBBO applier: mirrors each symbol's quote into its order book as one resting
//! bid and one resting ask with stable order ids.

use crate::hot_path::book::{book_add_limit, book_update, invalid_operation_error, is_invalid_operation, BookSide, BookUpdate, LimitReq, UpdateReq};
use crate::hot_path::quote_event::QuoteEvent;
use crate::hot_path::ring::queue_pop;
use crossbeam_queue::ArrayQueue;
use orderbook_rs::{DefaultOrderBook, OrderBookError};
use std::sync::Arc;
use vstd::prelude::*;

verus! {

/// Order id of the synthetic resting bid in each symbol's book.
pub const SYNTH_BID_ID: u64 = 1;

/// Order id of the synthetic resting ask in each symbol's book.
pub const SYNTH_ASK_ID: u64 = 2;

/// Per-symbol synthetic orders: placed once, then repriced on every quote.
pub struct SymbolSynth {
    pub bid_id: u64,
    pub ask_id: u64,
    pub placed: bool,
    /// Every request this state handed to its book, with the book's answer, oldest first.
    /// Ghost state written by [`Self::apply`] next to each call; nothing ties it to the book
    /// itself.
    pub sent: Ghost<Seq<BookCall>>,
}

/// A request handed to a book.
#[derive(Clone, Copy, Debug, PartialEq, Eq, Structural)]
pub enum BookReq {
    Add(LimitReq),
    Update(UpdateReq),
}

/// One request handed to a book and how the book answered it.
#[derive(Clone, Copy, Debug, PartialEq, Eq, Structural)]
pub struct BookCall {
    pub req: BookReq,
    pub outcome: UpdateOutcome,
}

/// How the book answered an update.
#[derive(Clone, Copy, Debug, PartialEq, Eq, Structural)]
pub enum UpdateOutcome {
    Applied,
    /// Refused as an invalid operation (`OrderBookError::InvalidOperation`).
    InvalidOperation,
    /// Refused for any other reason.
    Rejected,
}

/// The two orders that first mirror quote `ev`: a buy at the bid and a sell at the ask, with
/// the quoted sizes.
pub open spec fn spec_place_orders(bid_id: u64, ask_id: u64, ev: QuoteEvent) -> (LimitReq, LimitReq) {
    (
        LimitReq { id: bid_id, price: ev.bid_px_ticks as u128, quantity: ev.bid_sz, side: BookSide::Buy },
        LimitReq { id: ask_id, price: ev.ask_px_ticks as u128, quantity: ev.ask_sz, side: BookSide::Sell },
    )
}

/// The two updates that move the resting orders to quote `ev`: the bid to the bid price and
/// size, the ask to the ask price and size.
pub open spec fn spec_reprice_orders(bid_id: u64, ask_id: u64, ev: QuoteEvent) -> (UpdateReq, UpdateReq) {
    (
        UpdateReq {
            order_id: bid_id,
            update: BookUpdate::PriceAndQuantity { price: ev.bid_px_ticks as u128, quantity: ev.bid_sz },
        },
        UpdateReq {
            order_id: ask_id,
            update: BookUpdate::PriceAndQuantity { price: ev.ask_px_ticks as u128, quantity: ev.ask_sz },
        },
    )
}

/// The quantity an update sets.
pub open spec fn update_quantity(u: BookUpdate) -> u64 {
    match u {
        BookUpdate::PriceAndQuantity { quantity, .. } => quantity,
        BookUpdate::Quantity { quantity } => quantity,
    }
}

/// What follows an update: when the book refused it as an invalid operation, a quantity-only
/// update of the same order to the same quantity; otherwise nothing.
pub open spec fn spec_fallback(first: UpdateReq, outcome: UpdateOutcome) -> Option<UpdateReq> {
    match outcome {
        UpdateOutcome::InvalidOperation => Some(
            UpdateReq { order_id: first.order_id, update: BookUpdate::Quantity { quantity: update_quantity(first.update) } },
        ),
        _ => None,
    }
}

/// `calls` is one update run for `req`: `req` itself, then its fallback when the book asked
/// for one.
pub open spec fn update_run(calls: Seq<BookCall>, req: UpdateReq) -> bool {
    &&& calls.len() >= 1
    &&& calls[0].req == BookReq::Update(req)
    &&& match spec_fallback(req, calls[0].outcome) {
        Some(next) => calls.len() == 2 && calls[1].req == BookReq::Update(next),
        None => calls.len() == 1,
    }
}

/// Length of the update run that starts with `first`.
pub open spec fn run_len(first: BookCall) -> int {
    if first.outcome == UpdateOutcome::InvalidOperation {
        2
    } else {
        1
    }
}

/// A run of calls succeeded when its last call was applied.
pub open spec fn run_ok(calls: Seq<BookCall>) -> bool {
    calls.len() > 0 && calls.last().outcome == UpdateOutcome::Applied
}

/// The calls that mirror quote `ev` into the book, given the state before: the first time, the
/// bid order, then the ask order only if the bid was applied; afterwards the bid's update run,
/// then the ask's update run only if the bid's succeeded.
pub open spec fn mirror_run(st: SymbolSynth, ev: QuoteEvent, calls: Seq<BookCall>) -> bool {
    if !st.placed {
        let (bid, ask) = spec_place_orders(st.bid_id, st.ask_id, ev);
        &&& calls.len() >= 1
        &&& calls[0].req == BookReq::Add(bid)
        &&& if calls[0].outcome == UpdateOutcome::Applied {
            calls.len() == 2 && calls[1].req == BookReq::Add(ask)
        } else {
            calls.len() == 1
        }
    } else {
        let (ub, ua) = spec_reprice_orders(st.bid_id, st.ask_id, ev);
        &&& calls.len() >= 1
        &&& run_len(calls[0]) <= calls.len()
        &&& update_run(calls.subrange(0, run_len(calls[0])), ub)
        &&& if run_ok(calls.subrange(0, run_len(calls[0]))) {
            update_run(calls.subrange(run_len(calls[0]), calls.len() as int), ua)
        } else {
            calls.len() == run_len(calls[0])
        }
    }
}

/// What mirroring quote `ev` does to a symbol's state `before`: the calls handed to the book are
/// appended to its record and form [`mirror_run`]; the result is `Ok` exactly when the last of
/// them was applied; the orders count as placed once that happened.
pub open spec fn mirrored(before: SymbolSynth, after: SymbolSynth, ev: QuoteEvent, ok: bool) -> bool {
    &&& after.bid_id == before.bid_id
    &&& after.ask_id == before.ask_id
    &&& after.sent@.len() > before.sent@.len()
    &&& after.sent@.subrange(0, before.sent@.len() as int) == before.sent@
    &&& mirror_run(before, ev, after.sent@.subrange(before.sent@.len() as int, after.sent@.len() as int))
    &&& ok == run_ok(after.sent@.subrange(before.sent@.len() as int, after.sent@.len() as int))
    &&& after.placed == (before.placed || ok)
}

/// How the book answered a request: applied, refused as an invalid operation, or refused
/// otherwise.
fn answer_of(r: &Result<(), OrderBookError>) -> (o: UpdateOutcome)
    ensures
        (o == UpdateOutcome::Applied) == (r is Ok),
        (o == UpdateOutcome::InvalidOperation) == (r is Err && invalid_operation_error(r->Err_0)),
{
    match r {
        Ok(()) => UpdateOutcome::Applied,
        Err(e) => if is_invalid_operation(e) {
            UpdateOutcome::InvalidOperation
        } else {
            UpdateOutcome::Rejected
        },
    }
}

/// The update to try after `first` got `outcome`.
pub fn fallback_update(first: UpdateReq, outcome: UpdateOutcome) -> (r: Option<UpdateReq>)
    ensures
        r == spec_fallback(first, outcome),
{
    match outcome {
        UpdateOutcome::InvalidOperation => {
            let quantity = match first.update {
                BookUpdate::PriceAndQuantity { quantity, .. } => quantity,
                BookUpdate::Quantity { quantity } => quantity,
            };
            Some(UpdateReq { order_id: first.order_id, update: BookUpdate::Quantity { quantity } })
        },
        _ => None,
    }
}

impl SymbolSynth {
    pub fn new() -> (r: Self)
        ensures
            r.bid_id == SYNTH_BID_ID && r.ask_id == SYNTH_ASK_ID && !r.placed && r.sent@ == Seq::<BookCall>::empty(),
    {
        SymbolSynth { bid_id: SYNTH_BID_ID, ask_id: SYNTH_ASK_ID, placed: false, sent: Ghost(Seq::empty()) }
    }

    /// The orders that first mirror `ev` into the book.
    pub fn synth_orders(&self, ev: QuoteEvent) -> (r: (LimitReq, LimitReq))
        ensures
            r == spec_place_orders(self.bid_id, self.ask_id, ev),
    {
        (
            LimitReq { id: self.bid_id, price: ev.bid_px_ticks as u128, quantity: ev.bid_sz, side: BookSide::Buy },
            LimitReq { id: self.ask_id, price: ev.ask_px_ticks as u128, quantity: ev.ask_sz, side: BookSide::Sell },
        )
    }

    /// The updates that reprice the resting orders to `ev`.
    pub fn synth_updates(&self, ev: QuoteEvent) -> (r: (UpdateReq, UpdateReq))
        ensures
            r == spec_reprice_orders(self.bid_id, self.ask_id, ev),
    {
        (
            UpdateReq {
                order_id: self.bid_id,
                update: BookUpdate::PriceAndQuantity { price: ev.bid_px_ticks as u128, quantity: ev.bid_sz },
            },
            UpdateReq {
                order_id: self.ask_id,
                update: BookUpdate::PriceAndQuantity { price: ev.ask_px_ticks as u128, quantity: ev.ask_sz },
            },
        )
    }

    /// Mirror `ev` into `book`: the first time, add the orders of [`Self::synth_orders`]; afterwards
    /// apply the updates of [`Self::synth_updates`]. The orders count as placed once both adds
    /// succeeded. Whether the shared book accepts each request is up to the book.
    pub fn apply(&mut self, book: &DefaultOrderBook, ev: QuoteEvent) -> (r: Result<(), OrderBookError>)
        ensures
            mirrored(*old(self), *final(self), ev, r is Ok),
    {
        let ghost start = self.sent@;
        if !self.placed {
            let (bid, ask) = self.synth_orders(ev);
            let r1 = book_add_limit(book, bid);
            let o1 = answer_of(&r1);
            self.sent = Ghost(self.sent@.push(BookCall { req: BookReq::Add(bid), outcome: o1 }));
            if r1.is_err() {
                assert(self.sent@.subrange(0, start.len() as int) =~= start);
                assert(self.sent@.subrange(start.len() as int, self.sent@.len() as int) =~= seq![
                    BookCall { req: BookReq::Add(bid), outcome: o1 },
                ]);
                return r1;
            }
            let r2 = book_add_limit(book, ask);
            let o2 = answer_of(&r2);
            self.sent = Ghost(self.sent@.push(BookCall { req: BookReq::Add(ask), outcome: o2 }));
            assert(self.sent@.subrange(0, start.len() as int) =~= start);
            assert(self.sent@.subrange(start.len() as int, self.sent@.len() as int) =~= seq![
                BookCall { req: BookReq::Add(bid), outcome: o1 },
                BookCall { req: BookReq::Add(ask), outcome: o2 },
            ]);
            if r2.is_err() {
                return r2;
            }
            self.placed = true;
            return Ok(());
        }
        let (bid, ask) = self.synth_updates(ev);
        let ghost mid0 = self.sent@;
        let r1 = Self::update_price_qty(&mut self.sent, book, bid);
        let ghost mid = self.sent@;
        if r1.is_err() {
            assert(self.sent@.subrange(0, start.len() as int) =~= start);
            assert(self.sent@.subrange(start.len() as int, self.sent@.len() as int) =~= mid.subrange(
                start.len() as int,
                mid.len() as int,
            ));
            return r1;
        }
        let r2 = Self::update_price_qty(&mut self.sent, book, ask);
        let ghost calls = self.sent@.subrange(start.len() as int, self.sent@.len() as int);
        assert(self.sent@.subrange(0, start.len() as int) =~= start);
        assert(calls.subrange(0, run_len(calls[0])) =~= mid.subrange(start.len() as int, mid.len() as int));
        assert(calls.subrange(run_len(calls[0]), calls.len() as int) =~= self.sent@.subrange(
            mid.len() as int,
            self.sent@.len() as int,
        ));
        r2
    }

    /// Apply `req`; when the book refuses it as an invalid operation, apply the fallback of
    /// [`fallback_update`] instead. Each request is recorded in `sent` with the book's answer.
    fn update_price_qty(sent: &mut Ghost<Seq<BookCall>>, book: &DefaultOrderBook, req: UpdateReq) -> (r: Result<
        (),
        OrderBookError,
    >)
        ensures
            final(sent)@.len() > old(sent)@.len(),
            final(sent)@.subrange(0, old(sent)@.len() as int) == old(sent)@,
            update_run(final(sent)@.subrange(old(sent)@.len() as int, final(sent)@.len() as int), req),
            (r is Ok) == run_ok(final(sent)@.subrange(old(sent)@.len() as int, final(sent)@.len() as int)),
    {
        let ghost start = sent@;
        let first = book_update(book, req);
        let outcome = answer_of(&first);
        *sent = Ghost(sent@.push(BookCall { req: BookReq::Update(req), outcome }));
        match fallback_update(req, outcome) {
            Some(next) => {
                let second = book_update(book, next);
                let o2 = answer_of(&second);
                *sent = Ghost(sent@.push(BookCall { req: BookReq::Update(next), outcome: o2 }));
                assert(sent@.subrange(0, start.len() as int) =~= start);
                assert(sent@.subrange(start.len() as int, sent@.len() as int) =~= seq![
                    BookCall { req: BookReq::Update(req), outcome },
                    BookCall { req: BookReq::Update(next), outcome: o2 },
                ]);
                second
            },
            None => {
                assert(sent@.subrange(0, start.len() as int) =~= start);
                assert(sent@.subrange(start.len() as int, sent@.len() as int) =~= seq![
                    BookCall { req: BookReq::Update(req), outcome },
                ]);
                first
            },
        }
    }
}

/// Fresh synthetic order state for `n` symbols.
pub fn new_synths(n: usize) -> (r: Vec<SymbolSynth>)
    ensures
        r@.len() == n,
        forall|i: int| 0 <= i < n ==> !(#[trigger] r@[i]).placed && r@[i].bid_id == SYNTH_BID_ID
            && r@[i].ask_id == SYNTH_ASK_ID,
{
    let mut v: Vec<SymbolSynth> = Vec::new();
    for i in 0..n
        invariant
            v@.len() == i,
            forall|j: int| 0 <= j < i ==> !(#[trigger] v@[j]).placed && v@[j].bid_id == SYNTH_BID_ID
                && v@[j].ask_id == SYNTH_ASK_ID,
    {
        v.push(SymbolSynth::new());
    }
    v
}

/// Apply one quote to its symbol's book. Events for symbols without a book are skipped
/// (`Ok`); only that symbol's synthetic state can change.
pub fn apply_event(
    books: &[Arc<DefaultOrderBook>],
    synth: &mut Vec<SymbolSynth>,
    ev: QuoteEvent,
) -> (r: Result<(), OrderBookError>)
    ensures
        final(synth)@.len() == old(synth)@.len(),
        forall|i: int| 0 <= i < old(synth)@.len() && i != ev.symbol_id as int ==> #[trigger] final(synth)@[i] == old(synth)@[i],
        (ev.symbol_id as int) < books@.len() && (ev.symbol_id as int) < old(synth)@.len() ==> mirrored(
            old(synth)@[ev.symbol_id as int],
            final(synth)@[ev.symbol_id as int],
            ev,
            r is Ok,
        ),
        !((ev.symbol_id as int) < books@.len() && (ev.symbol_id as int) < old(synth)@.len()) ==> r is Ok
            && final(synth)@ == old(synth)@,
{
    let idx = ev.symbol_id as usize;
    if idx >= books.len() || idx >= synth.len() {
        return Ok(());
    }
    let mut st = SymbolSynth::new();
    std::mem::swap(&mut st, &mut synth[idx]);
    let r = st.apply(&books[idx], ev);
    synth.set(idx, st);
    r
}

/// Symbol state `after` comes from `before` by mirroring zero or more quotes: same order ids,
/// the record of book calls only extended, and placed orders stay placed.
pub open spec fn grew(before: SymbolSynth, after: SymbolSynth) -> bool {
    &&& after.bid_id == before.bid_id
    &&& after.ask_id == before.ask_id
    &&& after.sent@.len() >= before.sent@.len()
    &&& after.sent@.subrange(0, before.sent@.len() as int) == before.sent@
    &&& before.placed ==> after.placed
}

/// One quote mirrored into the symbol states: when its symbol has a book and a state, that
/// state moves by one mirror run ([`mirrored`]) and every other state stays; otherwise nothing
/// changes.
pub open spec fn event_step(before: Seq<SymbolSynth>, after: Seq<SymbolSynth>, ev: QuoteEvent, nbooks: int) -> bool {
    let id = ev.symbol_id as int;
    if id < nbooks && id < before.len() {
        &&& after.len() == before.len()
        &&& forall|i: int| 0 <= i < before.len() && i != id ==> #[trigger] after[i] == before[i]
        &&& mirrored(
            before[id],
            after[id],
            ev,
            run_ok(after[id].sent@.subrange(before[id].sent@.len() as int, after[id].sent@.len() as int)),
        )
    } else {
        after == before
    }
}

/// `trace` runs from `before` to `after` by mirroring the quotes of `popped` one after the other,
/// in order.
pub open spec fn drain_trace(
    before: Seq<SymbolSynth>,
    after: Seq<SymbolSynth>,
    popped: Seq<QuoteEvent>,
    trace: Seq<Seq<SymbolSynth>>,
    nbooks: int,
) -> bool {
    &&& trace.len() == popped.len() + 1
    &&& trace[0] == before
    &&& trace.last() == after
    &&& forall|k: int| 0 <= k < popped.len() ==> event_step(#[trigger] trace[k], trace[k + 1], popped[k], nbooks)
}

/// Pop up to `limit` quotes from `queue` and mirror each into its symbol's book
/// ([`apply_event`]), in the order they were popped; a book error affects only that quote.
/// Returns whether any quote was popped; when none was, nothing changed. Which quotes come out
/// is up to the queue, which the producer fills concurrently.
pub fn drain_batch(
    queue: &ArrayQueue<QuoteEvent>,
    books: &[Arc<DefaultOrderBook>],
    synth: &mut Vec<SymbolSynth>,
    limit: usize,
) -> (any: bool)
    ensures
        final(synth)@.len() == old(synth)@.len(),
        forall|i: int| 0 <= i < old(synth)@.len() ==> grew(old(synth)@[i], #[trigger] final(synth)@[i]),
        !any ==> final(synth)@ == old(synth)@,
        any ==> limit > 0,
        exists|popped: Seq<QuoteEvent>, trace: Seq<Seq<SymbolSynth>>|
            popped.len() <= limit && any == (popped.len() > 0) && #[trigger] drain_trace(
                old(synth)@,
                final(synth)@,
                popped,
                trace,
                books@.len() as int,
            ),
{
    let mut any = false;
    let mut n: usize = 0;
    let ghost mut popped: Seq<QuoteEvent> = Seq::empty();
    let ghost mut trace: Seq<Seq<SymbolSynth>> = seq![synth@];
    assert forall|i: int| 0 <= i < old(synth)@.len() implies grew(old(synth)@[i], #[trigger] synth@[i]) by {
        assert(synth@[i].sent@.subrange(0, synth@[i].sent@.len() as int) =~= synth@[i].sent@);
    }
    while n < limit
        invariant
            synth@.len() == old(synth)@.len(),
            forall|i: int| 0 <= i < old(synth)@.len() ==> grew(old(synth)@[i], #[trigger] synth@[i]),
            !any ==> synth@ == old(synth)@,
            any ==> limit > 0,
            popped.len() == n,
            n <= limit,
            any == (n > 0),
            drain_trace(old(synth)@, synth@, popped, trace, books@.len() as int),
        decreases limit - n,
    {
        let ev = match queue_pop(queue) {
            None => {
                break;
            },
            Some(ev) => ev,
        };
        any = true;
        let ghost prev = synth@;
        let _ = apply_event(books, synth, ev);
        assert forall|i: int| 0 <= i < old(synth)@.len() implies grew(old(synth)@[i], #[trigger] synth@[i]) by {
            let (a, b, c) = (old(synth)@[i], prev[i], synth@[i]);
            assert(grew(a, b));
            if i == ev.symbol_id as int && (i as int) < books@.len() {
                assert(c.sent@.subrange(0, b.sent@.len() as int) == b.sent@);
                assert(c.sent@.subrange(0, a.sent@.len() as int) =~= b.sent@.subrange(0, a.sent@.len() as int));
            }
        }
        proof {
            assert(event_step(prev, synth@, ev, books@.len() as int));
            let old_popped = popped;
            let old_trace = trace;
            popped = popped.push(ev);
            trace = trace.push(synth@);
            assert forall|k: int| 0 <= k < popped.len() implies event_step(
                #[trigger] trace[k],
                trace[k + 1],
                popped[k],
                books@.len() as int,
            ) by {
                if k < old_popped.len() {
                    assert(trace[k] == old_trace[k]);
                    assert(trace[k + 1] == old_trace[k + 1]);
                    assert(popped[k] == old_popped[k]);
                } else {
                    assert(trace[k] == old_trace.last());
                }
            }
        }
        n = n + 1;
    }
    any
}

/// How many of `popped` are quotes for symbol `i`.
pub open spec fn quotes_for(popped: Seq<QuoteEvent>, i: int) -> nat
    decreases popped.len(),
{
    if popped.len() == 0 {
        0
    } else {
        quotes_for(popped.drop_last(), i) + if popped.last().symbol_id as int == i {
            1nat
        } else {
            0nat
        }
    }
}

proof fn lemma_trace_prefix(
    before: Seq<SymbolSynth>,
    after: Seq<SymbolSynth>,
    popped: Seq<QuoteEvent>,
    trace: Seq<Seq<SymbolSynth>>,
    nbooks: int,
    i: int,
    m: int,
)
    requires
        drain_trace(before, after, popped, trace, nbooks),
        0 <= i < before.len(),
        i < nbooks,
        0 <= m <= popped.len(),
    ensures
        trace[m].len() == before.len(),
        trace[m][i].sent@.len() >= before[i].sent@.len() + quotes_for(popped.take(m), i),
    decreases m,
{
    if m == 0 {
        assert(popped.take(0) =~= Seq::<QuoteEvent>::empty());
    } else {
        lemma_trace_prefix(before, after, popped, trace, nbooks, i, m - 1);
        assert(event_step(trace[m - 1], trace[m], popped[m - 1], nbooks));
        assert(popped.take(m).drop_last() =~= popped.take(m - 1));
        assert(popped.take(m).last() == popped[m - 1]);
    }
}

/// Every quote a drain pops for a symbol with a book is mirrored into it: that symbol's record
/// of book calls grows by at least one call per such quote (a mirror run is never empty).
pub proof fn law_drain_mirrors_every_quote(
    before: Seq<SymbolSynth>,
    after: Seq<SymbolSynth>,
    popped: Seq<QuoteEvent>,
    trace: Seq<Seq<SymbolSynth>>,
    nbooks: int,
    i: int,
)
    requires
        drain_trace(before, after, popped, trace, nbooks),
        0 <= i < before.len(),
        i < nbooks,
    ensures
        after[i].sent@.len() >= before[i].sent@.len() + quotes_for(popped, i),
{
    lemma_trace_prefix(before, after, popped, trace, nbooks, i, popped.len() as int);
    assert(popped.take(popped.len() as int) =~= popped);
}

} // verus!
