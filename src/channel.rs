//! The event channel: a bounded first-in first-out queue between the hook
//! call sites and the one consumer. A send into a full channel is refused
//! and must be retried once the consumer has taken an event: events are
//! never dropped and never buffered beyond the capacity.
use vstd::prelude::*;
use std::collections::VecDeque;
use crate::events::Event;

verus! {

/// The number of outstanding events the runtime's channel holds.
pub const CHANNEL_CAPACITY: usize = 1024;

/// A bounded queue of events.
pub struct EventChannel {
    queue: VecDeque<Event>,
    capacity: usize,
}

/// The queue after sending `e` into the queue `q` of capacity `cap`, and
/// whether the send succeeded.
pub open spec fn sent(q: Seq<Event>, cap: nat, e: Event) -> (Seq<Event>, bool) {
    if q.len() < cap {
        (q.push(e), true)
    } else {
        (q, false)
    }
}

/// The queue after sending `es` one after another, and which sends succeeded.
pub open spec fn sent_all(q: Seq<Event>, cap: nat, es: Seq<Event>) -> (Seq<Event>, Seq<bool>)
    decreases es.len(),
{
    if es.len() == 0 {
        (q, Seq::empty())
    } else {
        let prev = sent_all(q, cap, es.drop_last());
        let next = sent(prev.0, cap, es.last());
        (next.0, prev.1.push(next.1))
    }
}

impl EventChannel {
    /// The events waiting, oldest first.
    pub closed spec fn queued(&self) -> Seq<Event> {
        self.queue@
    }

    pub closed spec fn cap(&self) -> nat {
        self.capacity as nat
    }

    pub closed spec fn wf(&self) -> bool {
        self.queue@.len() <= self.capacity
    }

    /// An empty channel that holds up to `capacity` events.
    pub fn new(capacity: usize) -> (r: Self)
        requires
            capacity > 0,
        ensures
            r.wf(),
            r.queued() == Seq::<Event>::empty(),
            r.cap() == capacity,
    {
        EventChannel { queue: VecDeque::new(), capacity }
    }

    pub fn capacity(&self) -> (r: usize)
        ensures
            r == self.cap(),
    {
        self.capacity
    }

    pub fn len(&self) -> (r: usize)
        ensures
            r == self.queued().len(),
    {
        self.queue.len()
    }

    pub fn is_full(&self) -> (r: bool)
        requires
            self.wf(),
        ensures
            r == (self.queued().len() == self.cap()),
    {
        self.queue.len() >= self.capacity
    }

    /// Sends `e` if there is room; otherwise hands it back, and the channel
    /// is unchanged (the sender waits for the consumer and tries again).
    pub fn try_send(&mut self, e: Event) -> (r: Result<(), Event>)
        requires
            old(self).wf(),
        ensures
            final(self).wf(),
            final(self).cap() == old(self).cap(),
            (final(self).queued(), r is Ok) == sent(old(self).queued(), old(self).cap(), e),
            r matches Err(back) ==> back == e,
    {
        if self.queue.len() < self.capacity {
            self.queue.push_back(e);
            Ok(())
        } else {
            Err(e)
        }
    }

    /// Takes the oldest event, if any.
    pub fn recv(&mut self) -> (r: Option<Event>)
        requires
            old(self).wf(),
        ensures
            final(self).wf(),
            final(self).cap() == old(self).cap(),
            old(self).queued().len() == 0 ==> r is None && final(self).queued() == old(self).queued(),
            old(self).queued().len() > 0 ==> r == Some(old(self).queued()[0])
                && final(self).queued() == old(self).queued().drop_first(),
    {
        let r = self.queue.pop_front();
        proof {
            if old(self).queued().len() > 0 {
                assert(self.queue@ =~= old(self).queued().drop_first());
            }
        }
        r
    }
}

/// With capacity `cap` and no consumer, sending `cap + 1` events into an
/// empty channel: the first `cap` succeed and are queued in order, the last
/// is refused (its sender waits).
pub proof fn lemma_backpressure(cap: nat, es: Seq<Event>)
    requires
        cap > 0,
        es.len() == cap + 1,
    ensures
        sent_all(Seq::empty(), cap, es).0 == es.drop_last(),
        forall|i: int| 0 <= i < cap ==> #[trigger] sent_all(Seq::empty(), cap, es).1[i],
        !sent_all(Seq::empty(), cap, es).1[cap as int],
{
    lemma_sends_within_capacity(cap, es.drop_last());
    assert(es.drop_last().len() == cap);
}

/// Sending at most `cap` events into an empty channel of capacity `cap`
/// succeeds every time and queues them in order.
pub proof fn lemma_sends_within_capacity(cap: nat, es: Seq<Event>)
    requires
        es.len() <= cap,
    ensures
        sent_all(Seq::empty(), cap, es).0 == es,
        sent_all(Seq::empty(), cap, es).1.len() == es.len(),
        forall|i: int| 0 <= i < es.len() ==> #[trigger] sent_all(Seq::empty(), cap, es).1[i],
    decreases es.len(),
{
    if es.len() > 0 {
        lemma_sends_within_capacity(cap, es.drop_last());
        assert(es.drop_last().push(es.last()) =~= es);
    }
}

/// Once the consumer takes an event from a full channel, the next send
/// succeeds.
pub proof fn lemma_slot_freed(q: Seq<Event>, cap: nat, e: Event)
    requires
        cap > 0,
        q.len() == cap,
    ensures
        !sent(q, cap, e).1,
        sent(q.drop_first(), cap, e).1,
        sent(q.drop_first(), cap, e).0 == q.drop_first().push(e),
{
}

} // verus!
