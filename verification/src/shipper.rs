//! Trace shipper: an in-memory append-only buffer of trace payloads with
//! three flush triggers — the buffer reaching 50 000 records, a periodic
//! tick with a non-empty buffer, and the drain signal — and the guarantee
//! that every enqueued record leaves in exactly one batch, in order.

use vstd::prelude::*;

use crate::extractor::views;

verus! {

/// The largest number of records one push may carry.
pub open spec fn spec_batch_limit() -> int {
    50000
}

/// The ghost history of a shipper: every record it has accepted and every
/// batch it has handed out for dispatch, in order.
pub ghost struct ShipperHistory {
    /// Every record accepted, in arrival order.
    pub received: Seq<Seq<u8>>,
    /// Every batch handed out, in dispatch order.
    pub flushed: Seq<Seq<Seq<u8>>>,
}

/// The trace shipper's buffer, with the ghost history of its run.
pub struct TraceShipper {
    /// Records accepted and not yet handed out, in arrival order.
    pub buffer: Vec<Vec<u8>>,
    /// The history of this shipper.
    pub history: Ghost<ShipperHistory>,
}

impl TraceShipper {
    /// The shipper's invariant: the batches handed out so far, in order,
    /// followed by the pending buffer, are exactly the records accepted, in
    /// order; no batch was empty or over the limit; the buffer is below the
    /// limit.
    pub open spec fn wf(self) -> bool {
        &&& self.history@.flushed.flatten() + views(self.buffer@) == self.history@.received
        &&& forall|i: int| 0 <= i < self.history@.flushed.len()
            ==> 0 < (#[trigger] self.history@.flushed[i]).len() <= spec_batch_limit()
        &&& self.buffer@.len() < spec_batch_limit()
    }

    /// A fresh shipper: nothing accepted, nothing handed out.
    pub fn new() -> (s: Self)
        ensures
            s.wf(),
            s.history@.received == Seq::<Seq<u8>>::empty(),
            s.history@.flushed == Seq::<Seq<Seq<u8>>>::empty(),
            s.buffer@.len() == 0,
    {
        let s = TraceShipper {
            buffer: Vec::new(),
            history: Ghost(
                ShipperHistory {
                    received: Seq::empty(),
                    flushed: Seq::empty(),
                },
            ),
        };
        proof {
            broadcast use vstd::prelude::Seq::lemma_flatten_push;

            assert(s.history@.flushed.flatten() =~= Seq::<Seq<u8>>::empty());
            assert(views(s.buffer@) =~= Seq::<Seq<u8>>::empty());
            assert(s.history@.flushed.flatten() + views(s.buffer@) =~= s.history@.received);
        }
        s
    }

    /// Accepts one record. When the buffer reaches the batch limit, the
    /// whole buffer leaves as one batch of exactly the limit.
    pub fn on_trace(&mut self, t: Vec<u8>) -> (flush: Option<Vec<Vec<u8>>>)
        requires
            old(self).wf(),
        ensures
            final(self).wf(),
            final(self).history@.received == old(self).history@.received.push(t@),
            match flush {
                Some(b) => {
                    &&& views(b@) == views(old(self).buffer@).push(t@)
                    &&& b@.len() == spec_batch_limit()
                    &&& final(self).buffer@.len() == 0
                    &&& final(self).history@.flushed == old(self).history@.flushed.push(views(b@))
                },
                None => {
                    &&& final(self).buffer@ == old(self).buffer@.push(t)
                    &&& final(self).history@.flushed == old(self).history@.flushed
                },
            },
            flush.is_some() <==> old(self).buffer@.len() + 1 == spec_batch_limit(),
    {
        let ghost t_view = t@;
        self.buffer.push(t);
        self.history = Ghost(
            ShipperHistory {
                received: self.history@.received.push(t_view),
                flushed: self.history@.flushed,
            },
        );
        if self.buffer.len() >= 50000 {
            let b = self.buffer.split_off(0);
            self.history = Ghost(
                ShipperHistory {
                    received: self.history@.received,
                    flushed: self.history@.flushed.push(views(b@)),
                },
            );
            proof {
                broadcast use vstd::prelude::Seq::lemma_flatten_push;

                assert(b@ =~= old(self).buffer@.push(t));
                assert(views(b@) =~= views(old(self).buffer@).push(t_view));
                assert(self.buffer@ =~= Seq::<Vec<u8>>::empty());
                assert(views(self.buffer@) =~= Seq::<Seq<u8>>::empty());
                assert(self.history@.flushed.flatten() + views(self.buffer@)
                    =~= self.history@.received);
            }
            Some(b)
        } else {
            proof {
                assert(views(self.buffer@) =~= views(old(self).buffer@).push(t_view));
                assert(self.history@.flushed.flatten() + views(self.buffer@)
                    =~= self.history@.received);
            }
            None
        }
    }

    /// The periodic tick: a non-empty buffer leaves as one batch; an empty
    /// buffer stays put.
    pub fn on_tick(&mut self) -> (flush: Option<Vec<Vec<u8>>>)
        requires
            old(self).wf(),
        ensures
            final(self).wf(),
            final(self).history@.received == old(self).history@.received,
            match flush {
                Some(b) => {
                    &&& views(b@) == views(old(self).buffer@)
                    &&& 0 < b@.len() <= spec_batch_limit()
                    &&& final(self).buffer@.len() == 0
                    &&& final(self).history@.flushed == old(self).history@.flushed.push(views(b@))
                },
                None => {
                    &&& *final(self) == *old(self)
                },
            },
            flush.is_some() <==> old(self).buffer@.len() > 0,
    {
        if self.buffer.len() == 0 {
            return None;
        }
        let b = self.buffer.split_off(0);
        self.history = Ghost(
            ShipperHistory {
                received: self.history@.received,
                flushed: self.history@.flushed.push(views(b@)),
            },
        );
        proof {
            broadcast use vstd::prelude::Seq::lemma_flatten_push;

            assert(b@ =~= old(self).buffer@);
            assert(views(self.buffer@) =~= Seq::<Seq<u8>>::empty());
            assert(self.history@.flushed.flatten() + views(self.buffer@)
                =~= self.history@.received);
        }
        Some(b)
    }

    /// The drain signal: everything still pending leaves, as one batch here
    /// because the buffer never holds the limit. After the drain the
    /// batches handed out are exactly the records accepted.
    pub fn drain(&mut self) -> (flush: Option<Vec<Vec<u8>>>)
        requires
            old(self).wf(),
        ensures
            final(self).wf(),
            final(self).history@.received == old(self).history@.received,
            final(self).buffer@.len() == 0,
            match flush {
                Some(b) => {
                    &&& views(b@) == views(old(self).buffer@)
                    &&& 0 < b@.len() <= spec_batch_limit()
                    &&& final(self).history@.flushed == old(self).history@.flushed.push(views(b@))
                },
                None => {
                    &&& *final(self) == *old(self)
                    &&& old(self).buffer@.len() == 0
                },
            },
            final(self).history@.flushed.flatten() == final(self).history@.received,
    {
        let r = self.on_tick();
        proof {
            assert(views(self.buffer@) =~= Seq::<Seq<u8>>::empty());
            assert(self.history@.flushed.flatten() + views(self.buffer@)
                =~= self.history@.flushed.flatten());
        }
        r
    }
}

/// Trace preservation over a whole run: when a drained shipper accepted
/// exactly the well-formed payloads that the extractor took from the
/// child's stdout lines, the batches it handed out concatenate to exactly
/// those payloads — every well-formed envelope reaches exactly one push
/// body, in order, and none is pushed twice.
pub proof fn lemma_run_trace_preservation(s: TraceShipper, lines: Seq<Seq<u8>>)
    requires
        s.wf(),
        s.buffer@.len() == 0,
        s.history@.received == crate::jsonio::spec_keep_valid(
            crate::extractor::spec_all_payloads(lines),
        ),
    ensures
        s.history@.flushed.flatten() == crate::jsonio::spec_keep_valid(
            crate::extractor::spec_all_payloads(lines),
        ),
{
    lemma_trace_preservation(s);
}

/// Trace preservation: once a shipper has drained, the concatenation of the
/// batches it handed out is exactly the sequence of records it accepted —
/// each record in exactly one batch, in arrival order — and no batch
/// exceeded the push limit.
pub proof fn lemma_trace_preservation(s: TraceShipper)
    requires
        s.wf(),
        s.buffer@.len() == 0,
    ensures
        s.history@.flushed.flatten() == s.history@.received,
        forall|i: int| 0 <= i < s.history@.flushed.len()
            ==> 0 < (#[trigger] s.history@.flushed[i]).len() <= spec_batch_limit(),
{
    assert(views(s.buffer@) =~= Seq::<Seq<u8>>::empty());
    assert(s.history@.flushed.flatten() + views(s.buffer@) =~= s.history@.flushed.flatten());
}

} // verus!
