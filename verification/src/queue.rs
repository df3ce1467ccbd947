//! The bounded delivery queue between ingestion and one sink.
//!
//! The queue keeps the envelopes in the order in which they were accepted and
//! never holds more than [`QUEUE_CAPACITY`] of them. A full queue refuses the
//! next envelope and hands it back: the producer waits and offers it again.

use vstd::prelude::*;
use std::collections::VecDeque;
use crate::envelope::{Envelope, EnvelopeView};

verus! {

/// The largest number of envelopes that a queue holds.
pub const QUEUE_CAPACITY: usize = 128;

/// A first-in, first-out queue of at most [`QUEUE_CAPACITY`] envelopes.
pub struct DeliveryQueue {
    items: VecDeque<Envelope>,
}

/// The queue after `e` was offered to `q`: `e` stands at the end where there
/// was room, and nothing changed where there was none.
pub open spec fn spec_offer(q: Seq<EnvelopeView>, e: EnvelopeView) -> Seq<EnvelopeView> {
    if q.len() < QUEUE_CAPACITY {
        q.push(e)
    } else {
        q
    }
}

/// The queue after the envelopes of `es` were offered to `q`, one after the
/// other, each once.
pub open spec fn spec_offer_all(q: Seq<EnvelopeView>, es: Seq<EnvelopeView>) -> Seq<EnvelopeView>
    decreases es.len(),
{
    if es.len() == 0 {
        q
    } else {
        spec_offer(spec_offer_all(q, es.drop_last()), es.last())
    }
}

impl View for DeliveryQueue {
    type V = Seq<EnvelopeView>;

    closed spec fn view(&self) -> Seq<EnvelopeView> {
        self.items@.map_values(|e: Envelope| e@)
    }
}

impl DeliveryQueue {
    #[verifier::type_invariant]
    spec fn bounded(&self) -> bool {
        self.items@.len() <= QUEUE_CAPACITY
    }

    /// An empty queue.
    pub fn new() -> (q: Self)
        ensures
            q@ == Seq::<EnvelopeView>::empty(),
    {
        let q = DeliveryQueue { items: VecDeque::new() };
        assert(q@ =~= Seq::<EnvelopeView>::empty());
        q
    }

    /// The number of envelopes that wait in the queue. It never passes the
    /// capacity.
    pub fn len(&self) -> (n: usize)
        ensures
            n == self@.len(),
            n <= QUEUE_CAPACITY,
    {
        proof {
            use_type_invariant(self);
        }
        self.items.len()
    }

    /// Whether no envelope waits in the queue.
    pub fn is_empty(&self) -> (b: bool)
        ensures
            b == (self@.len() == 0),
    {
        self.items.len() == 0
    }

    /// Whether the queue would refuse an envelope.
    pub fn is_full(&self) -> (b: bool)
        ensures
            b == (self@.len() >= QUEUE_CAPACITY),
    {
        self.items.len() >= QUEUE_CAPACITY
    }

    /// Offers `e` to the queue. Where there is room, `e` goes to the end of
    /// the queue; where the queue is full, it stays as it is and `e` comes
    /// back.
    pub fn try_push(&mut self, e: Envelope) -> (r: Result<(), Envelope>)
        ensures
            final(self)@ == spec_offer(old(self)@, e@),
            final(self)@.len() <= QUEUE_CAPACITY,
            r is Ok <==> old(self)@.len() < QUEUE_CAPACITY,
            r matches Err(back) ==> back@ == e@,
    {
        proof {
            use_type_invariant(&*self);
        }
        if self.items.len() >= QUEUE_CAPACITY {
            Err(e)
        } else {
            let ghost before = self.items@;
            let mut items: VecDeque<Envelope> = VecDeque::new();
            core::mem::swap(&mut self.items, &mut items);
            items.push_back(e);
            core::mem::swap(&mut self.items, &mut items);
            assert(self.items@.map_values(|x: Envelope| x@) =~= before.map_values(
                |x: Envelope| x@,
            ).push(e@));
            Ok(())
        }
    }

    /// Takes the envelope that has waited longest, where there is one.
    pub fn pop(&mut self) -> (r: Option<Envelope>)
        ensures
            old(self)@.len() == 0 ==> r is None && final(self)@ == old(self)@,
            old(self)@.len() > 0 ==> r is Some && r->0@ == old(self)@[0] && final(self)@ == old(
                self,
            )@.skip(1),
            final(self)@.len() <= QUEUE_CAPACITY,
    {
        proof {
            use_type_invariant(&*self);
        }
        let ghost before = self.items@;
        let mut items: VecDeque<Envelope> = VecDeque::new();
        core::mem::swap(&mut self.items, &mut items);
        let r = items.pop_front();
        core::mem::swap(&mut self.items, &mut items);
        proof {
            if before.len() > 0 {
                assert(self.items@.map_values(|x: Envelope| x@) =~= before.map_values(
                    |x: Envelope| x@,
                ).skip(1));
            }
        }
        r
    }

    /// Discards every envelope that waits and says how many there were.
    pub fn drain(&mut self) -> (n: usize)
        ensures
            final(self)@ == Seq::<EnvelopeView>::empty(),
            n == old(self)@.len(),
            n <= QUEUE_CAPACITY,
    {
        proof {
            use_type_invariant(&*self);
        }
        let n = self.items.len();
        self.items = VecDeque::new();
        assert(self.items@.map_values(|x: Envelope| x@) =~= Seq::<EnvelopeView>::empty());
        n
    }
}

/// However many envelopes are offered to a queue within its capacity, it
/// stays within its capacity.
pub proof fn lemma_offers_stay_bounded(q: Seq<EnvelopeView>, es: Seq<EnvelopeView>)
    requires
        q.len() <= QUEUE_CAPACITY,
    ensures
        spec_offer_all(q, es).len() <= QUEUE_CAPACITY,
        q.len() <= spec_offer_all(q, es).len(),
    decreases es.len(),
{
    if es.len() > 0 {
        lemma_offers_stay_bounded(q, es.drop_last());
    }
}

/// A queue takes envelopes in and gives them out in one order: where `es` fit
/// into the room that `q` has, the queue then holds what it held, followed by
/// `es` as they were offered.
pub proof fn lemma_offers_keep_order(q: Seq<EnvelopeView>, es: Seq<EnvelopeView>)
    requires
        q.len() + es.len() <= QUEUE_CAPACITY,
    ensures
        spec_offer_all(q, es) == q + es,
    decreases es.len(),
{
    if es.len() == 0 {
        assert(q + es =~= q);
    } else {
        lemma_offers_keep_order(q, es.drop_last());
        assert((q + es.drop_last()).push(es.last()) =~= q + es);
    }
}

} // verus!
