//! Model of the event bus's bounded channel: a FIFO queue with a fixed
//! capacity, the single hand-off point between the producers and the
//! router. A send appends at the back and is refused — never dropped —
//! when the channel is full (backpressure); a receive takes the front.

use vstd::prelude::*;
use crate::events::{DomainEvent, DomainEventView};

verus! {

/// Bounded FIFO channel of domain events.
pub struct EventChannel {
    buf: Vec<DomainEvent>,
    cap: usize,
}

impl EventChannel {
    /// The events now in the channel, oldest first.
    pub closed spec fn contents(&self) -> Seq<DomainEventView> {
        self.buf@.map(|i: int, e: DomainEvent| e@)
    }

    pub closed spec fn capacity_spec(&self) -> int {
        self.cap as int
    }

    /// The channel never holds more than its capacity, which is positive.
    pub closed spec fn wf(&self) -> bool {
        self.buf@.len() <= self.cap && self.cap >= 1
    }

    /// An empty channel with the given capacity.
    pub fn new(cap: usize) -> (c: Self)
        requires
            cap >= 1,
        ensures
            c.wf(),
            c.capacity_spec() == cap,
            c.contents() == Seq::<DomainEventView>::empty(),
    {
        let c = EventChannel { buf: Vec::new(), cap };
        proof {
            assert(c.contents() =~= Seq::<DomainEventView>::empty());
        }
        c
    }

    /// How many events wait in the channel.
    pub fn len(&self) -> (n: usize)
        ensures
            n == self.contents().len(),
    {
        self.buf.len()
    }

    pub fn capacity(&self) -> (n: usize)
        ensures
            n == self.capacity_spec(),
    {
        self.cap
    }

    /// Offer one event. Accepted — appended at the back — exactly when a
    /// slot is free; a full channel refuses the event and keeps its
    /// contents unchanged, so the producer must wait and offer it again
    /// (backpressure), and no event is ever dropped.
    pub fn try_send(&mut self, e: DomainEvent) -> (ok: bool)
        requires
            old(self).wf(),
        ensures
            final(self).wf(),
            final(self).capacity_spec() == old(self).capacity_spec(),
            ok <==> old(self).contents().len() < old(self).capacity_spec(),
            ok ==> final(self).contents() == old(self).contents().push(e@),
            !ok ==> final(self).contents() == old(self).contents(),
    {
        if self.buf.len() < self.cap {
            let ghost before = self.contents();
            let ghost ev = e@;
            self.buf.push(e);
            proof {
                assert(self.contents() =~= before.push(ev));
            }
            true
        } else {
            false
        }
    }

    /// Take the oldest event, or nothing from an empty channel. Repeated
    /// receives hand the events out in exactly the order they were
    /// accepted.
    pub fn recv(&mut self) -> (r: Option<DomainEvent>)
        requires
            old(self).wf(),
        ensures
            final(self).wf(),
            final(self).capacity_spec() == old(self).capacity_spec(),
            old(self).contents().len() == 0 ==> r is None
                && final(self).contents() == old(self).contents(),
            old(self).contents().len() > 0 ==> (r matches Some(e)
                && e@ == old(self).contents()[0]
                && final(self).contents() == old(self).contents().skip(1)),
    {
        if self.buf.len() == 0 {
            None
        } else {
            let ghost before = self.contents();
            let e = self.buf.remove(0);
            proof {
                assert(self.contents() =~= before.skip(1));
            }
            Some(e)
        }
    }
}

/// FIFO law of the channel: however many events other producers put
/// between them, an event sent earlier stands closer to the front than one
/// sent later, so the router receives — and therefore dispatches — the
/// earlier one strictly first. Receives take index order: after k events
/// have been received, the next one is the contents' k-th.
pub proof fn lemma_fifo_order(
    pre: Seq<DomainEventView>,
    e1: DomainEventView,
    between: Seq<DomainEventView>,
    e2: DomainEventView,
)
    ensures
        ({
            let q = pre + seq![e1] + between + seq![e2];
            let p1 = pre.len() as int;
            let p2 = pre.len() + 1 + between.len();
            &&& q[p1] == e1
            &&& q[p2 as int] == e2
            &&& p1 < p2
            &&& (forall|k: int| 0 <= k < q.len() ==> #[trigger] q.skip(k)[0] == q[k])
        }),
{
    let q = pre + seq![e1] + between + seq![e2];
    assert forall|k: int| 0 <= k < q.len() implies #[trigger] q.skip(k)[0] == q[k] by {
        assert(q.skip(k)[0] == q[k]);
    }
}

} // verus!
