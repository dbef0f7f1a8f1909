//! A multi-producer, single-consumer FIFO channel.
//!
//! A [`Channel`] holds the queue together with the number of live producer
//! handles and whether the consumer is still there. Messages leave in the
//! order they arrived. Once no producer is left and the queue is empty, a
//! receive reports the channel closed instead of waiting.
use std::collections::VecDeque;
use vstd::prelude::*;

verus! {

/// A send that found the consumer gone; it hands the message back.
pub struct SendError<T>(pub T);

/// Why a receive returned no message.
#[derive(PartialEq, Eq, Structural, Clone, Copy, Debug)]
pub enum TryRecvError {
    /// Nothing is queued, but a producer may still send.
    Empty,
    /// Nothing is queued and no producer is left.
    Closed,
}

/// A channel as a mathematical value.
pub struct ChannelModel<T> {
    /// Messages sent and not yet received, oldest first.
    pub queue: Seq<T>,
    /// Live producer handles.
    pub senders: nat,
    /// Whether the consumer is still there.
    pub receiver_open: bool,
}

/// One operation on an open channel.
pub enum ChanOp<T> {
    /// Some producer sends this message.
    Send(T),
    /// The consumer tries to take a message.
    Recv,
}

/// What has happened on an open channel so far.
pub struct Trace<T> {
    /// Every message sent, in arrival order.
    pub sent: Seq<T>,
    /// Every message received, in the order received.
    pub received: Seq<T>,
    /// Messages waiting.
    pub queue: Seq<T>,
}

/// `t` after `op`: a send queues its message at the back; a receive takes the
/// front message, if any.
pub open spec fn chan_step<T>(t: Trace<T>, op: ChanOp<T>) -> Trace<T> {
    match op {
        ChanOp::Send(v) => Trace { sent: t.sent.push(v), queue: t.queue.push(v), ..t },
        ChanOp::Recv => if t.queue.len() > 0 {
            Trace { received: t.received.push(t.queue[0]), queue: t.queue.drop_first(), ..t }
        } else {
            t
        },
    }
}

/// The trace of `ops`, in order, from a new channel.
pub open spec fn run_chan<T>(ops: Seq<ChanOp<T>>) -> Trace<T>
    decreases ops.len(),
{
    if ops.len() == 0 {
        Trace { sent: Seq::empty(), received: Seq::empty(), queue: Seq::empty() }
    } else {
        chan_step(run_chan(ops.drop_last()), ops.last())
    }
}

/// Under any mix of sends and receives, what was received followed by what is
/// still queued is exactly what was sent: no message is lost, duplicated or
/// reordered.
pub proof fn lemma_fifo<T>(ops: Seq<ChanOp<T>>)
    ensures
        run_chan(ops).received + run_chan(ops).queue == run_chan(ops).sent,
    decreases ops.len(),
{
    if ops.len() > 0 {
        lemma_fifo(ops.drop_last());
        let t = run_chan(ops.drop_last());
        match ops.last() {
            ChanOp::Send(v) => {
                assert(t.received + t.queue.push(v) =~= (t.received + t.queue).push(v));
            },
            ChanOp::Recv => {
                if t.queue.len() > 0 {
                    assert(t.received.push(t.queue[0]) + t.queue.drop_first() =~= t.received
                        + t.queue);
                }
            },
        }
    }
}

/// With many producers, each producer's own messages (those that `from`
/// picks out) are received in the order that producer sent them, and those
/// received and those still waiting together are all it sent.
pub proof fn lemma_per_sender_order<T>(ops: Seq<ChanOp<T>>, from: spec_fn(T) -> bool)
    ensures
        run_chan(ops).received.filter(from) + run_chan(ops).queue.filter(from) == run_chan(
            ops,
        ).sent.filter(from),
        run_chan(ops).received.len() + run_chan(ops).queue.len() == run_chan(ops).sent.len(),
{
    lemma_fifo(ops);
    let t = run_chan(ops);
    Seq::filter_distributes_over_add(t.received, t.queue, from);
}

/// The queue and the counts of its two ends.
pub struct Channel<T> {
    queue: VecDeque<T>,
    senders: usize,
    receiver_open: bool,
}

impl<T> View for Channel<T> {
    type V = ChannelModel<T>;

    closed spec fn view(&self) -> ChannelModel<T> {
        ChannelModel { queue: self.queue@, senders: self.senders as nat, receiver_open: self.receiver_open }
    }
}

impl<T> Channel<T> {
    /// An open channel with one producer, one consumer and nothing queued.
    pub fn new() -> (c: Channel<T>)
        ensures
            c@.queue == Seq::<T>::empty(),
            c@.senders == 1,
            c@.receiver_open,
    {
        Channel { queue: VecDeque::new(), senders: 1, receiver_open: true }
    }

    /// Counts one more producer handle.
    pub fn clone_sender(&mut self)
        requires
            old(self)@.senders > 0,
            old(self)@.senders < usize::MAX,
        ensures
            final(self)@ == (ChannelModel { senders: old(self)@.senders + 1, ..old(self)@ }),
    {
        self.senders = self.senders + 1;
    }

    /// Counts one producer handle fewer; the last one closes the channel.
    pub fn drop_sender(&mut self)
        requires
            old(self)@.senders > 0,
        ensures
            final(self)@ == (ChannelModel {
                senders: (old(self)@.senders - 1) as nat,
                ..old(self)@
            }),
    {
        self.senders = self.senders - 1;
    }

    /// Removes the consumer; what was queued is dropped with it.
    pub fn drop_receiver(&mut self)
        ensures
            final(self)@ == (ChannelModel {
                queue: Seq::<T>::empty(),
                receiver_open: false,
                ..old(self)@
            }),
    {
        self.queue.clear();
        self.receiver_open = false;
    }

    /// Whether a producer handle is left.
    pub fn has_senders(&self) -> (r: bool)
        ensures
            r == (self@.senders > 0),
    {
        self.senders > 0
    }

    /// The number of live producer handles.
    pub fn sender_count(&self) -> (n: usize)
        ensures
            n == self@.senders,
    {
        self.senders
    }

    /// The number of messages waiting.
    pub fn len(&self) -> (n: usize)
        ensures
            n == self@.queue.len(),
    {
        self.queue.len()
    }

    /// Queues `v` behind every earlier message; fails, handing `v` back, once
    /// the consumer is gone.
    pub fn send(&mut self, v: T) -> (r: Result<(), SendError<T>>)
        requires
            old(self)@.senders > 0,
        ensures
            old(self)@.receiver_open ==> r is Ok && final(self)@ == (ChannelModel {
                queue: old(self)@.queue.push(v),
                ..old(self)@
            }),
            !old(self)@.receiver_open ==> r is Err && r->Err_0.0 == v && final(self)@ == old(
                self,
            )@,
    {
        if self.receiver_open {
            self.queue.push_back(v);
            Ok(())
        } else {
            Err(SendError(v))
        }
    }

    /// Takes the oldest message. With nothing queued it reports `Empty` while
    /// a producer is left and `Closed` after the last one is gone.
    pub fn try_recv(&mut self) -> (r: Result<T, TryRecvError>)
        requires
            old(self)@.receiver_open,
        ensures
            old(self)@.queue.len() > 0 ==> r == Ok::<T, TryRecvError>(old(self)@.queue[0])
                && final(self)@ == (ChannelModel { queue: old(self)@.queue.drop_first(), ..old(self)@ }),
            old(self)@.queue.len() == 0 ==> final(self)@ == old(self)@ && r == Err::<T, TryRecvError>(
                if old(self)@.senders == 0 {
                    TryRecvError::Closed
                } else {
                    TryRecvError::Empty
                },
            ),
    {
        match self.queue.pop_front() {
            Some(v) => Ok(v),
            None => {
                if self.senders == 0 {
                    Err(TryRecvError::Closed)
                } else {
                    Err(TryRecvError::Empty)
                }
            },
        }
    }
}

} // verus!
