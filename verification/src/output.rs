//! Output shipper: raw stdout/stderr lines flow through a bounded internal
//! queue towards a persistent WebSocket. The queue decouples ingestion from
//! the socket, preserves arrival order, and keeps draining after the input
//! closes; a send failure is answered by one reconnect attempt, and a
//! failed reconnect aborts the shipper.

use vstd::prelude::*;

verus! {

/// Which stream of the child a line came from.
#[derive(Clone, Copy, Debug, PartialEq, Eq, Structural)]
pub enum OutputSource {
    /// The child's standard output.
    Stdout,
    /// The child's standard error.
    Stderr,
}

/// One raw line captured from the child, tagged with its stream.
pub struct OutputLine {
    /// The text of the line.
    pub line: Vec<u8>,
    /// The stream the line came from.
    pub source: OutputSource,
}

impl OutputLine {
    /// The mathematical value of this line.
    pub open spec fn view(self) -> (Seq<u8>, OutputSource) {
        (self.line@, self.source)
    }
}

/// The views of a sequence of output lines.
pub open spec fn line_views(ls: Seq<OutputLine>) -> Seq<(Seq<u8>, OutputSource)> {
    ls.map_values(|l: OutputLine| l.view())
}

/// The capacity of the internal queue.
pub open spec fn spec_queue_capacity() -> int {
    10000
}

/// The ghost history of an output shipper: every line accepted from the
/// readers and every line handed to the socket, in order.
pub ghost struct OutputHistory {
    /// Lines accepted, in arrival order.
    pub accepted: Seq<(Seq<u8>, OutputSource)>,
    /// Lines handed to the socket, in dispatch order.
    pub dispatched: Seq<(Seq<u8>, OutputSource)>,
}

/// The internal queue of the output shipper, with its ghost history.
pub struct OutputQueue {
    /// Lines accepted and not yet handed to the socket, in arrival order.
    pub queue: Vec<OutputLine>,
    /// The history of this shipper.
    pub history: Ghost<OutputHistory>,
}

impl OutputQueue {
    /// The queue's invariant: what was dispatched, followed by what is
    /// pending, is exactly what was accepted, in order; the queue never
    /// exceeds its capacity.
    pub open spec fn wf(self) -> bool {
        &&& self.history@.dispatched + line_views(self.queue@) == self.history@.accepted
        &&& self.queue@.len() <= spec_queue_capacity()
    }

    /// A fresh queue: nothing accepted, nothing dispatched.
    pub fn new() -> (q: Self)
        ensures
            q.wf(),
            q.history@.accepted == Seq::<(Seq<u8>, OutputSource)>::empty(),
            q.history@.dispatched == Seq::<(Seq<u8>, OutputSource)>::empty(),
            q.queue@.len() == 0,
    {
        let q = OutputQueue {
            queue: Vec::new(),
            history: Ghost(OutputHistory { accepted: Seq::empty(), dispatched: Seq::empty() }),
        };
        proof {
            assert(line_views(q.queue@) =~= Seq::<(Seq<u8>, OutputSource)>::empty());
            assert(q.history@.dispatched + line_views(q.queue@) =~= q.history@.accepted);
        }
        q
    }

    /// Offers one line to the queue. The line is accepted exactly when the
    /// queue is below capacity; a full queue leaves the caller to wait, as
    /// the forwarder task does on a full channel.
    pub fn enqueue(&mut self, l: OutputLine) -> (accepted: bool)
        requires
            old(self).wf(),
        ensures
            final(self).wf(),
            accepted == (old(self).queue@.len() < spec_queue_capacity()),
            accepted ==> {
                &&& final(self).queue@ == old(self).queue@.push(l)
                &&& final(self).history@.accepted == old(self).history@.accepted.push(l.view())
                &&& final(self).history@.dispatched == old(self).history@.dispatched
            },
            !accepted ==> *final(self) == *old(self),
    {
        if self.queue.len() >= 10000 {
            return false;
        }
        let ghost l_view = l.view();
        self.queue.push(l);
        self.history = Ghost(
            OutputHistory {
                accepted: self.history@.accepted.push(l_view),
                dispatched: self.history@.dispatched,
            },
        );
        proof {
            assert(line_views(self.queue@) =~= line_views(old(self).queue@).push(l_view));
            assert(self.history@.dispatched + line_views(self.queue@)
                =~= self.history@.accepted);
        }
        true
    }

    /// Takes the next line for the socket: the oldest pending line, so
    /// dispatch preserves arrival order.
    pub fn next(&mut self) -> (r: Option<OutputLine>)
        requires
            old(self).wf(),
        ensures
            final(self).wf(),
            final(self).history@.accepted == old(self).history@.accepted,
            match r {
                Some(l) => {
                    &&& old(self).queue@.len() > 0
                    &&& l == old(self).queue@[0]
                    &&& final(self).queue@ == old(self).queue@.drop_first()
                    &&& final(self).history@.dispatched
                        == old(self).history@.dispatched.push(l.view())
                },
                None => {
                    &&& old(self).queue@.len() == 0
                    &&& *final(self) == *old(self)
                },
            },
    {
        if self.queue.len() == 0 {
            return None;
        }
        let l = self.queue.remove(0);
        let ghost l_view = l.view();
        self.history = Ghost(
            OutputHistory {
                accepted: self.history@.accepted,
                dispatched: self.history@.dispatched.push(l_view),
            },
        );
        proof {
            assert(self.queue@ =~= old(self).queue@.drop_first());
            assert(line_views(old(self).queue@)
                =~= seq![l_view] + line_views(self.queue@));
            assert(self.history@.dispatched + line_views(self.queue@)
                =~= self.history@.accepted);
        }
        Some(l)
    }
}

/// What the sender does after a failed socket send: with the reconnect
/// successful the in-flight message is sent once more; with the reconnect
/// failed the shipper aborts and the rest is dropped.
#[derive(Clone, Copy, Debug, PartialEq, Eq, Structural)]
pub enum WsRecovery {
    /// Re-send the in-flight message on the fresh connection.
    Resend,
    /// Abort the shipper.
    Abort,
}

/// Decides the recovery step after a failed send.
pub fn ws_failure_recovery(reconnected: bool) -> (r: WsRecovery)
    ensures
        r == (if reconnected {
            WsRecovery::Resend
        } else {
            WsRecovery::Abort
        }),
{
    if reconnected {
        WsRecovery::Resend
    } else {
        WsRecovery::Abort
    }
}

/// Dispatch order: every line handed to the socket left in arrival order —
/// the dispatched lines are exactly the first accepted ones, so per-stream
/// order is preserved as well.
pub proof fn lemma_output_order(q: OutputQueue)
    requires
        q.wf(),
    ensures
        q.history@.dispatched
            == q.history@.accepted.take(q.history@.dispatched.len() as int),
{
    assert(q.history@.dispatched
        =~= (q.history@.dispatched + line_views(q.queue@)).take(q.history@.dispatched.len() as int));
}

} // verus!
