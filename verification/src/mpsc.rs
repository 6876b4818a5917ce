//! A multi-producer, single-consumer channel: an `mpmc` channel whose one
//! receiver is active from the start and cannot be duplicated.
use crate::mpmc::{self, RecvFuture, Shared};
use vstd::prelude::*;

verus! {

/// The one receiver of the channel.
pub struct Receiver<T> {
    inner: mpmc::Receiver<T>,
}

impl<T> Receiver<T> {
    /// The `mpmc` receiver underneath.
    pub closed spec fn handle(&self) -> mpmc::Receiver<T> {
        self.inner
    }

    /// A receive of the next value; see `mpmc::RecvFuture::poll`.
    pub fn recv(&self) -> (fut: RecvFuture<'_, T>)
        ensures
            fut.receiver() == self.handle(),
    {
        self.inner.recv()
    }

    /// Takes the value at the front of the queue, if there is one.
    pub fn try_recv<W>(&self, chan: &mut Shared<T, W>) -> (value: Option<T>)
        ensures
            value == old(chan)@.front(),
            final(chan)@ == old(chan)@.after_take(),
    {
        self.inner.try_recv(chan)
    }

    /// Drops the receiver.
    pub fn release<W>(self, chan: &mut Shared<T, W>)
        requires
            old(chan)@.receivers > 0,
        ensures
            final(chan)@ == old(chan)@.without_receiver(),
    {
        self.inner.release(chan)
    }
}

/// The shared state of a new channel: one sender, the one receiver active,
/// nothing queued.
pub open spec fn initial_state<T, W>() -> mpmc::ChannelState<T, W> {
    mpmc::ChannelState {
        queue: Seq::empty(),
        wakers: Seq::empty(),
        senders: 1,
        receivers: 1,
        inactive: 0,
    }
}

/// Creates a channel: its shared state, one sender and the receiver, which
/// is active at once.
pub fn channel<T, W>() -> (r: (Shared<T, W>, mpmc::Sender<T>, Receiver<T>))
    ensures
        r.0@ == initial_state::<T, W>(),
{
    let (mut chan, tx, rx) = mpmc::channel();
    let rx = rx.activate(&mut chan);
    (chan, tx, Receiver { inner: rx })
}

/// On a new channel the receiver takes every value sent, in the order sent,
/// and then finds the queue empty.
pub proof fn lemma_receive_in_send_order<T, W>(values: Seq<T>)
    ensures
        initial_state::<T, W>().after_sends(values).taken(values.len()) == values,
        initial_state::<T, W>().after_sends(values).after_takes(values.len()).queue.len() == 0,
{
    mpmc::lemma_receive_in_send_order(initial_state::<T, W>(), values);
}

/// A new channel has one sender and its receiver active: neither side sees
/// it closed, and the first value sent is queued for the receiver, which
/// takes it with its first receive.
pub proof fn lemma_new_channel_delivers<T, W>(value: T, waker: W)
    ensures
        ({
            let s = initial_state::<T, W>();
            &&& s.senders == 1
            &&& s.receivers == 1
            &&& s.inactive == 0
            &&& s.queue.len() == 0
            &&& s.wakers.len() == 0
            &&& !s.sender_sees_closed()
            &&& s.send_result() == Some(0usize)
            &&& s.after_send(value).poll_result() == crate::task::Poll::<
                Result<T, crate::error::RecvError>,
            >::Ready(Ok(value))
            &&& s.after_send(value).after_poll(waker).queue.len() == 0
        }),
{
    let s = initial_state::<T, W>();
    assert(s.after_send(value).queue =~= seq![value]);
}

} // verus!
