use vstd::prelude::*;

verus! {

/// What a send does to a bounded queue: the item is appended when there
/// is room, and the queue is left untouched when there is none — an
/// event is never silently dropped.
pub open spec fn send_result<T>(q: Seq<T>, cap: nat, x: T) -> Seq<T> {
    if q.len() < cap {
        q.push(x)
    } else {
        q
    }
}

pub open spec fn send_accepted<T>(q: Seq<T>, cap: nat) -> bool {
    q.len() < cap
}

/// The queue after a producer has offered every item of `xs`, in order.
pub open spec fn enqueue_all<T>(q: Seq<T>, cap: nat, xs: Seq<T>) -> Seq<T>
    decreases xs.len(),
{
    if xs.len() == 0 {
        q
    } else {
        enqueue_all(send_result(q, cap, xs[0]), cap, xs.skip(1))
    }
}

/// Everything a consumer that drains the queue receives, in order.
pub open spec fn drain_all<T>(q: Seq<T>) -> Seq<T>
    decreases q.len(),
{
    if q.len() == 0 {
        Seq::empty()
    } else {
        seq![q[0]] + drain_all(q.skip(1))
    }
}

/// Law: under backpressure no event is lost — as long as the bound is
/// not exceeded, every offered item is queued, in offer order.
pub proof fn lemma_backpressure_no_loss<T>(q: Seq<T>, cap: nat, xs: Seq<T>)
    requires
        q.len() + xs.len() <= cap,
    ensures
        enqueue_all(q, cap, xs) == q + xs,
    decreases xs.len(),
{
    if xs.len() == 0 {
        assert(q + xs =~= q);
    } else {
        lemma_backpressure_no_loss(q.push(xs[0]), cap, xs.skip(1));
        assert(q.push(xs[0]) + xs.skip(1) =~= q + xs);
    }
}

/// Law: a consumer that drains the queue receives exactly the queued
/// events — none dropped, none duplicated, none reordered.
pub proof fn lemma_drain_delivers_in_order<T>(q: Seq<T>)
    ensures
        drain_all(q) == q,
    decreases q.len(),
{
    if q.len() > 0 {
        lemma_drain_delivers_in_order(q.skip(1));
        assert(seq![q[0]] + q.skip(1) =~= q);
    }
}

/// A bounded in-order queue between one producer task and the control
/// loop. A full queue refuses the item — backpressure — rather than
/// dropping it; the producer holds the item and offers it again.
#[derive(Debug)]
pub struct EventChannel<T> {
    queue: Vec<T>,
    capacity: usize,
}

impl<T> EventChannel<T> {
    /// The queued events, oldest first.
    pub closed spec fn inflight(&self) -> Seq<T> {
        self.queue@
    }

    /// The fixed bound on how many events may be queued at once.
    pub closed spec fn cap(&self) -> nat {
        self.capacity as nat
    }

    pub fn new() -> (c: Self)
        ensures
            c.inflight() == Seq::<T>::empty(),
            c.cap() == 32,
    {
        EventChannel { queue: Vec::new(), capacity: 32 }
    }

    pub fn len(&self) -> (n: usize)
        ensures
            n == self.inflight().len(),
    {
        self.queue.len()
    }

    /// Offers one event. Reports whether it was taken; a refused event
    /// leaves the queue exactly as it was.
    pub fn send(&mut self, item: T) -> (accepted: bool)
        ensures
            accepted == send_accepted(old(self).inflight(), old(self).cap()),
            final(self).inflight() == send_result(old(self).inflight(), old(self).cap(), item),
            final(self).cap() == old(self).cap(),
    {
        if self.queue.len() < self.capacity {
            self.queue.push(item);
            true
        } else {
            false
        }
    }

    /// Takes the oldest queued event, if any.
    pub fn recv(&mut self) -> (r: Option<T>)
        ensures
            final(self).cap() == old(self).cap(),
            match r {
                None => old(self).inflight().len() == 0
                    && final(self).inflight() == old(self).inflight(),
                Some(x) => old(self).inflight().len() > 0
                    && x == old(self).inflight()[0]
                    && final(self).inflight() == old(self).inflight().skip(1),
            },
    {
        if self.queue.len() == 0 {
            None
        } else {
            let x = self.queue.remove(0);
            proof {
                assert(old(self).inflight().remove(0) =~= old(self).inflight().skip(1));
            }
            Some(x)
        }
    }
}

} // verus!
