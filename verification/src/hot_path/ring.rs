//! Bounded lock-free handoff queues (`crossbeam_queue::ArrayQueue`).
//!
//! The queues are shared between threads, so what a push or pop finds depends on what the
//! other side did meanwhile; the contracts here state only what holds of every outcome.

use crate::hot_path::quote_event::QuoteEvent;
use crossbeam_queue::ArrayQueue;
use std::sync::Arc;
use vstd::prelude::*;

verus! {

#[verifier::external_type_specification]
#[verifier::external_body]
#[verifier::reject_recursive_types(T)]
pub struct ExArrayQueue<T>(ArrayQueue<T>);

/// The capacity a quote queue was made with.
pub uninterp spec fn quote_queue_capacity(q: ArrayQueue<QuoteEvent>) -> nat;

/// `ArrayQueue::new` for quotes: a bounded queue holding at most `cap` items, whose
/// `capacity()` is `cap`. crossbeam asserts `cap > 0` and sizes its internal lap counter from
/// `(cap + 1).next_power_of_two()`, so the capacity is kept to at most half the address space.
#[verifier::external_body]
fn quote_queue_new(cap: usize) -> (q: ArrayQueue<QuoteEvent>)
    requires
        0 < cap <= usize::MAX / 2,
    ensures
        quote_queue_capacity(q) == cap,
{
    ArrayQueue::new(cap)
}

/// `ArrayQueue::push`: enqueue unless full; a full queue hands the value back unchanged as
/// the error. Whether it was full depends on the other threads, so the outcome is left open.
#[verifier::external_body]
pub(crate) fn queue_push<T>(q: &ArrayQueue<T>, value: T) -> (r: Result<(), T>)
    ensures
        r matches Err(v) ==> v == value,
{
    q.push(value)
}

/// `ArrayQueue::pop`: dequeue the oldest item, `None` when empty at that moment. Which item
/// comes out depends on the other threads, so the result is left open.
#[verifier::external_body]
pub(crate) fn queue_pop<T>(q: &ArrayQueue<T>) -> Option<T> {
    q.pop()
}

/// Bounded queue between the producer and the consumer of quotes.
pub type QuoteRing = Arc<ArrayQueue<QuoteEvent>>;

#[derive(Clone, Copy, Debug, PartialEq, Eq, Structural)]
pub enum RingPushOutcome {
    Enqueued,
    DroppedNewest,
}

/// A quote ring of the given capacity.
pub fn new_quote_ring(capacity: usize) -> (r: QuoteRing)
    requires
        0 < capacity <= usize::MAX / 2,
    ensures
        quote_queue_capacity(*r) == capacity,
{
    Arc::new(quote_queue_new(capacity))
}

/// The outcome a push result stands for: `Enqueued` exactly when the push succeeded.
pub fn push_outcome<T>(r: Result<(), T>) -> (out: RingPushOutcome)
    ensures
        (out == RingPushOutcome::Enqueued) == (r is Ok),
{
    match r {
        Ok(()) => RingPushOutcome::Enqueued,
        Err(_) => RingPushOutcome::DroppedNewest,
    }
}

/// Try to push; if full, **drop the new event** (keeps queue latency bounded).
///
/// The outcome is [`push_outcome`] of the push. The ring is shared with its consumer thread,
/// so whether it was full, and what it holds afterwards, is left unsaid.
pub fn try_push_drop_newest(ring: &ArrayQueue<QuoteEvent>, event: QuoteEvent) -> RingPushOutcome {
    push_outcome(queue_push(ring, event))
}

} // verus!
