//! A multi-producer, multi-consumer channel: every value sent while a
//! receiver is active is queued and taken by exactly one receiver, in the
//! order in which it was sent.
use crate::error::{RecvError, SendError};
use crate::task::Poll;
use std::collections::VecDeque;
use std::marker::PhantomData;
use vstd::prelude::*;

verus! {

/// What the handles of one channel share, seen as mathematical values.
pub struct ChannelState<T, W> {
    /// Values sent and not yet taken, oldest first.
    pub queue: Seq<T>,
    /// Wakers of receives that wait for a value.
    pub wakers: Seq<W>,
    /// Live `Sender` handles.
    pub senders: nat,
    /// Live active `Receiver` handles.
    pub receivers: nat,
    /// Live `InactiveReceiver` handles.
    pub inactive: nat,
}

impl<T, W> ChannelState<T, W> {
    /// Every handle that keeps the shared state alive.
    pub open spec fn handles(self) -> nat {
        self.senders + self.receivers + self.inactive
    }

    /// What a sender reports as closed: no receiver is active, and some
    /// handle other than the senders and active receivers (an inactive
    /// receiver) still holds the channel.
    pub open spec fn sender_sees_closed(self) -> bool {
        self.receivers == 0 && self.handles() != self.receivers + self.senders
    }

    /// What `send` reports: nothing when no receiver is active, else the
    /// number of waiting receives that it wakes.
    pub open spec fn send_result(self) -> Option<usize> {
        if self.receivers == 0 {
            None
        } else {
            Some(self.wakers.len() as usize)
        }
    }

    /// The state after `send` of `value`: the value is dropped when no
    /// receiver is active, else queued at the back, and every waiting
    /// receive is released.
    pub open spec fn after_send(self, value: T) -> ChannelState<T, W> {
        if self.receivers == 0 {
            self
        } else {
            ChannelState { queue: self.queue.push(value), wakers: Seq::empty(), ..self }
        }
    }

    /// The wakers that `send` hands back to be woken.
    pub open spec fn woken_by_send(self) -> Seq<W> {
        if self.receivers == 0 {
            Seq::empty()
        } else {
            self.wakers
        }
    }

    /// The value at the front of the queue, if any.
    pub open spec fn front(self) -> Option<T> {
        if self.queue.len() > 0 {
            Some(self.queue[0])
        } else {
            None
        }
    }

    /// The state after the front value, if any, has been taken.
    pub open spec fn after_take(self) -> ChannelState<T, W> {
        if self.queue.len() > 0 {
            ChannelState { queue: self.queue.drop_first(), ..self }
        } else {
            self
        }
    }

    /// What a poll of a receive gives: the front value; an error once the
    /// queue is empty and no sender is left; else a wait.
    pub open spec fn poll_result(self) -> Poll<Result<T, RecvError>> {
        if self.queue.len() > 0 {
            Poll::Ready(Ok(self.queue[0]))
        } else if self.senders == 0 {
            Poll::Ready(Err(RecvError))
        } else {
            Poll::Pending
        }
    }

    /// The state after a poll that registers `waker` when it has to wait.
    pub open spec fn after_poll(self, waker: W) -> ChannelState<T, W> {
        if self.queue.len() > 0 {
            self.after_take()
        } else if self.senders == 0 {
            self
        } else {
            ChannelState { wakers: self.wakers.push(waker), ..self }
        }
    }

    /// The state after `send` of each of `values` in turn.
    pub open spec fn after_sends(self, values: Seq<T>) -> ChannelState<T, W>
        decreases values.len(),
    {
        if values.len() == 0 {
            self
        } else {
            self.after_sends(values.drop_last()).after_send(values.last())
        }
    }

    /// The values that `n` takes in turn deliver.
    pub open spec fn taken(self, n: nat) -> Seq<T>
        decreases n,
    {
        if n == 0 || self.queue.len() == 0 {
            Seq::empty()
        } else {
            seq![self.queue[0]] + self.after_take().taken((n - 1) as nat)
        }
    }

    /// The state after `n` takes in turn.
    pub open spec fn after_takes(self, n: nat) -> ChannelState<T, W>
        decreases n,
    {
        if n == 0 {
            self
        } else {
            self.after_take().after_takes((n - 1) as nat)
        }
    }

    /// The state after one more sender handle was made.
    pub open spec fn with_sender(self) -> ChannelState<T, W> {
        ChannelState { senders: self.senders + 1, ..self }
    }

    /// The state after a sender handle was dropped; the last one releases
    /// every waiting receive.
    pub open spec fn without_sender(self) -> ChannelState<T, W> {
        if self.senders == 1 {
            ChannelState { senders: 0, wakers: Seq::empty(), ..self }
        } else {
            ChannelState { senders: (self.senders - 1) as nat, ..self }
        }
    }

    /// The wakers that dropping a sender hands back to be woken.
    pub open spec fn woken_by_sender_drop(self) -> Seq<W> {
        if self.senders == 1 {
            self.wakers
        } else {
            Seq::empty()
        }
    }

    /// The state after one more active receiver handle was made.
    pub open spec fn with_receiver(self) -> ChannelState<T, W> {
        ChannelState { receivers: self.receivers + 1, ..self }
    }

    /// The state after an active receiver handle was dropped.
    pub open spec fn without_receiver(self) -> ChannelState<T, W> {
        ChannelState { receivers: (self.receivers - 1) as nat, ..self }
    }

    /// The state after one more inactive receiver handle was made.
    pub open spec fn with_inactive(self) -> ChannelState<T, W> {
        ChannelState { inactive: self.inactive + 1, ..self }
    }

    /// The state after an inactive receiver handle was dropped.
    pub open spec fn without_inactive(self) -> ChannelState<T, W> {
        ChannelState { inactive: (self.inactive - 1) as nat, ..self }
    }
}

/// The state that all handles of one channel share.
pub struct Shared<T, W> {
    queue: VecDeque<T>,
    wakers: Vec<W>,
    sender: usize,
    receiver: usize,
    inactive: usize,
}

impl<T, W> View for Shared<T, W> {
    type V = ChannelState<T, W>;

    closed spec fn view(&self) -> ChannelState<T, W> {
        ChannelState {
            queue: self.queue@,
            wakers: self.wakers@,
            senders: self.sender as nat,
            receivers: self.receiver as nat,
            inactive: self.inactive as nat,
        }
    }
}

impl<T, W> Shared<T, W> {
    /// Every counter of the shared state, and the number of waiting
    /// receives and of queued values, fits in a word.
    pub proof fn lemma_fits_in_word(&self)
        ensures
            self@.senders <= usize::MAX,
            self@.receivers <= usize::MAX,
            self@.inactive <= usize::MAX,
            self@.wakers.len() <= usize::MAX,
            self@.queue.len() <= usize::MAX,
    {
        assert(self.wakers@.len() == self.wakers.len());
        assert(self.queue@.len() == self.queue.len());
    }

    /// The number of values waiting in the queue.
    pub fn len(&self) -> (n: usize)
        ensures
            n == self@.queue.len(),
    {
        self.queue.len()
    }

    /// The number of live sender handles.
    pub fn senders(&self) -> (n: usize)
        ensures
            n == self@.senders,
    {
        self.sender
    }

    /// The number of live active receiver handles.
    pub fn receivers(&self) -> (n: usize)
        ensures
            n == self@.receivers,
    {
        self.receiver
    }

    /// The number of live inactive receiver handles.
    pub fn inactive_receivers(&self) -> (n: usize)
        ensures
            n == self@.inactive,
    {
        self.inactive
    }
}

/// A handle that sends values into the channel.
pub struct Sender<T> {
    marker: PhantomData<T>,
}

impl<T> Sender<T> {
    /// Whether a send would find the channel closed: see
    /// `ChannelState::sender_sees_closed`.
    pub fn is_closed<W>(&self, chan: &Shared<T, W>) -> (closed: bool)
        ensures
            closed == chan@.sender_sees_closed(),
    {
        chan.receiver == 0 && chan.inactive != 0
    }

    /// Sends `value`. Returns `Ok(None)` when no receiver is active (the
    /// value is dropped), else `Ok(Some(n))` where `n` is the number of
    /// waiting receives, whose wakers come back in the second component.
    pub fn send<W>(&self, chan: &mut Shared<T, W>, value: T) -> (r: (
        Result<Option<usize>, SendError<T>>,
        Vec<W>,
    ))
        ensures
            r.0 == Ok::<Option<usize>, SendError<T>>(old(chan)@.send_result()),
            r.1@ == old(chan)@.woken_by_send(),
            final(chan)@ == old(chan)@.after_send(value),
    {
        let is_closed = self.is_closed(chan);
        if chan.receiver == 0 {
            return (Ok(None), Vec::new());
        }
        if is_closed {
            return (Err(SendError(value)), Vec::new());
        }
        chan.queue.push_back(value);
        let woken = chan.wakers.len();
        let mut wakers = Vec::new();
        std::mem::swap(&mut wakers, &mut chan.wakers);
        (Ok(Some(woken)), wakers)
    }

    /// Makes another sender of the same channel.
    pub fn duplicate<W>(&self, chan: &mut Shared<T, W>) -> (tx: Sender<T>)
        requires
            old(chan)@.senders < usize::MAX,
        ensures
            final(chan)@ == old(chan)@.with_sender(),
    {
        chan.sender = chan.sender + 1;
        Sender { marker: PhantomData }
    }

    /// Drops this sender. When it was the last one, every waiting receive
    /// is released and its waker handed back.
    pub fn release<W>(self, chan: &mut Shared<T, W>) -> (woken: Vec<W>)
        requires
            old(chan)@.senders > 0,
        ensures
            woken@ == old(chan)@.woken_by_sender_drop(),
            final(chan)@ == old(chan)@.without_sender(),
    {
        chan.sender = chan.sender - 1;
        let mut wakers = Vec::new();
        if chan.sender == 0 {
            std::mem::swap(&mut wakers, &mut chan.wakers);
        }
        wakers
    }
}

/// An active handle that receives values.
pub struct Receiver<T> {
    marker: PhantomData<T>,
}

impl<T> Receiver<T> {
    fn new<W>(chan: &mut Shared<T, W>) -> (rx: Receiver<T>)
        requires
            old(chan)@.receivers < usize::MAX,
        ensures
            final(chan)@ == old(chan)@.with_receiver(),
    {
        chan.receiver = chan.receiver + 1;
        Receiver { marker: PhantomData }
    }

    /// Whether every sender is gone.
    pub fn is_closed<W>(&self, chan: &Shared<T, W>) -> (closed: bool)
        ensures
            closed == (chan@.senders == 0),
    {
        chan.sender == 0
    }

    /// A receive of the next value; see `RecvFuture::poll`.
    pub fn recv(&self) -> (fut: RecvFuture<'_, T>)
        ensures
            fut.receiver() == *self,
    {
        RecvFuture { rx: self }
    }

    /// Takes the value at the front of the queue, if there is one.
    pub fn try_recv<W>(&self, chan: &mut Shared<T, W>) -> (value: Option<T>)
        ensures
            value == old(chan)@.front(),
            final(chan)@ == old(chan)@.after_take(),
    {
        chan.queue.pop_front()
    }

    /// Turns this receiver into an inactive one: values sent from then on
    /// are not kept for it.
    pub fn deactivate<W>(self, chan: &mut Shared<T, W>) -> (rx: InactiveReceiver<T>)
        requires
            old(chan)@.receivers > 0,
            old(chan)@.inactive < usize::MAX,
        ensures
            final(chan)@ == old(chan)@.with_inactive().without_receiver(),
    {
        let rx = InactiveReceiver { marker: PhantomData };
        chan.inactive = chan.inactive + 1;
        self.release(chan);
        rx
    }

    /// Makes another active receiver of the same channel.
    pub fn duplicate<W>(&self, chan: &mut Shared<T, W>) -> (rx: Receiver<T>)
        requires
            old(chan)@.receivers < usize::MAX,
        ensures
            final(chan)@ == old(chan)@.with_receiver(),
    {
        Self::new(chan)
    }

    /// Drops this receiver.
    pub fn release<W>(self, chan: &mut Shared<T, W>)
        requires
            old(chan)@.receivers > 0,
        ensures
            final(chan)@ == old(chan)@.without_receiver(),
    {
        chan.receiver = chan.receiver - 1;
    }
}

/// A pending receive on a `Receiver`.
pub struct RecvFuture<'a, T> {
    rx: &'a Receiver<T>,
}

impl<'a, T> RecvFuture<'a, T> {
    /// The receiver that this receive reads through.
    pub closed spec fn receiver(&self) -> Receiver<T> {
        *self.rx
    }

    /// Polls the receive once: takes the front value if there is one;
    /// reports `RecvError` once the queue is empty and no sender is left;
    /// else registers `waker` and waits.
    pub fn poll<W>(&self, chan: &mut Shared<T, W>, waker: W) -> (r: Poll<Result<T, RecvError>>)
        ensures
            r == old(chan)@.poll_result(),
            final(chan)@ == old(chan)@.after_poll(waker),
    {
        if let Some(value) = chan.queue.pop_front() {
            Poll::Ready(Ok(value))
        } else {
            if chan.sender == 0 {
                Poll::Ready(Err(RecvError))
            } else {
                chan.wakers.push(waker);
                Poll::Pending
            }
        }
    }
}

/// A receiver handle that keeps the channel without taking values.
pub struct InactiveReceiver<T> {
    marker: PhantomData<T>,
}

impl<T> InactiveReceiver<T> {
    /// Makes another inactive receiver of the same channel.
    pub fn duplicate<W>(&self, chan: &mut Shared<T, W>) -> (rx: InactiveReceiver<T>)
        requires
            old(chan)@.inactive < usize::MAX,
        ensures
            final(chan)@ == old(chan)@.with_inactive(),
    {
        chan.inactive = chan.inactive + 1;
        InactiveReceiver { marker: PhantomData }
    }

    /// Drops this inactive receiver.
    pub fn release<W>(self, chan: &mut Shared<T, W>)
        requires
            old(chan)@.inactive > 0,
        ensures
            final(chan)@ == old(chan)@.without_inactive(),
    {
        chan.inactive = chan.inactive - 1;
    }

    /// Turns this handle into an active receiver, which takes values sent
    /// from then on.
    pub fn activate<W>(self, chan: &mut Shared<T, W>) -> (rx: Receiver<T>)
        requires
            old(chan)@.inactive > 0,
            old(chan)@.receivers < usize::MAX,
        ensures
            final(chan)@ == old(chan)@.without_inactive().with_receiver(),
    {
        chan.inactive = chan.inactive - 1;
        Receiver::new(chan)
    }
}

/// Creates a channel: its shared state, one sender and one inactive receiver.
pub fn channel<T, W>() -> (r: (Shared<T, W>, Sender<T>, InactiveReceiver<T>))
    ensures
        r.0@ == (ChannelState::<T, W> {
            queue: Seq::empty(),
            wakers: Seq::empty(),
            senders: 1,
            receivers: 0,
            inactive: 1,
        }),
{
    let chan = Shared { queue: VecDeque::new(), wakers: Vec::new(), sender: 1, receiver: 0, inactive: 1 };
    (chan, Sender { marker: PhantomData }, InactiveReceiver { marker: PhantomData })
}

/// Sends while a receiver is active append to the queue in order; the
/// counters and the other fields are untouched, and no receive is left
/// waiting.
pub proof fn lemma_sends_append<T, W>(s: ChannelState<T, W>, values: Seq<T>)
    requires
        s.receivers > 0,
    ensures
        s.after_sends(values).queue == s.queue + values,
        s.after_sends(values).senders == s.senders,
        s.after_sends(values).receivers == s.receivers,
        s.after_sends(values).inactive == s.inactive,
        values.len() > 0 ==> s.after_sends(values).wakers == Seq::<W>::empty(),
    decreases values.len(),
{
    if values.len() > 0 {
        lemma_sends_append(s, values.drop_last());
        assert(s.queue + values.drop_last() + seq![values.last()] =~= s.queue + values);
    }
}

/// Takes deliver the front of the queue in order and remove exactly what
/// they deliver.
pub proof fn lemma_takes_deliver_front<T, W>(s: ChannelState<T, W>, n: nat)
    requires
        n <= s.queue.len(),
    ensures
        s.taken(n) == s.queue.take(n as int),
        s.after_takes(n).queue == s.queue.skip(n as int),
        s.after_takes(n).senders == s.senders,
        s.after_takes(n).receivers == s.receivers,
    decreases n,
{
    if n > 0 {
        let t = s.after_take();
        lemma_takes_deliver_front(t, (n - 1) as nat);
        assert(seq![s.queue[0]] + t.queue.take(n - 1) =~= s.queue.take(n as int));
        assert(t.queue.skip(n - 1) =~= s.queue.skip(n as int));
    } else {
        assert(s.queue.take(0) =~= Seq::<T>::empty());
        assert(s.queue.skip(0) =~= s.queue);
    }
}

/// What a receiver takes is what was sent, in the order it was sent: on an
/// empty queue with an active receiver, sending `values` and then taking
/// as many gives back `values` and leaves the queue empty again.
pub proof fn lemma_receive_in_send_order<T, W>(s: ChannelState<T, W>, values: Seq<T>)
    requires
        s.receivers > 0,
        s.queue.len() == 0,
    ensures
        s.after_sends(values).taken(values.len()) == values,
        s.after_sends(values).after_takes(values.len()).queue.len() == 0,
{
    lemma_sends_append(s, values);
    assert(s.queue + values =~= values);
    lemma_takes_deliver_front(s.after_sends(values), values.len());
    assert(values.take(values.len() as int) =~= values);
}

/// A send while no receiver is active changes nothing and wakes nobody.
pub proof fn lemma_send_without_receiver_is_dropped<T, W>(s: ChannelState<T, W>, value: T)
    requires
        s.receivers == 0,
    ensures
        s.after_send(value) == s,
        s.send_result() is None,
        s.woken_by_send().len() == 0,
{
}

/// A receive ends in `RecvError` exactly when the queue is empty and every
/// sender is gone.
pub proof fn lemma_recv_error_iff_drained_and_closed<T, W>(s: ChannelState<T, W>)
    ensures
        s.poll_result() == Poll::<Result<T, RecvError>>::Ready(Err(RecvError)) <==> (s.queue.len()
            == 0 && s.senders == 0),
{
}

/// A receive that has to wait is woken by the next send that reaches an
/// active receiver.
pub proof fn lemma_waiting_receive_woken_by_send<T, W>(s: ChannelState<T, W>, waker: W, value: T)
    requires
        s.queue.len() == 0,
        s.senders > 0,
        s.receivers > 0,
    ensures
        s.poll_result() is Pending,
        s.after_poll(waker).woken_by_send().contains(waker),
        s.after_poll(waker).after_send(value).poll_result() == Poll::<Result<T, RecvError>>::Ready(
            Ok(value),
        ),
{
    let t = s.after_poll(waker);
    assert(t.wakers[t.wakers.len() - 1] == waker);
}

/// A receive that has to wait is woken when the last sender is dropped,
/// and then ends in `RecvError`.
pub proof fn lemma_waiting_receive_woken_by_last_sender<T, W>(s: ChannelState<T, W>, waker: W)
    requires
        s.queue.len() == 0,
        s.senders == 1,
    ensures
        s.after_poll(waker).woken_by_sender_drop().contains(waker),
        s.after_poll(waker).without_sender().poll_result() == Poll::<Result<T, RecvError>>::Ready(
            Err(RecvError),
        ),
{
    let t = s.after_poll(waker);
    assert(t.wakers[t.wakers.len() - 1] == waker);
}

/// Deactivating a receiver and activating it again restores the state.
pub proof fn lemma_deactivate_activate<T, W>(s: ChannelState<T, W>)
    requires
        s.receivers > 0,
    ensures
        s.with_inactive().without_receiver().without_inactive().with_receiver() == s,
{
}

/// Making a handle and dropping it again restores the state and wakes
/// nobody.
pub proof fn lemma_duplicate_release<T, W>(s: ChannelState<T, W>)
    requires
        s.senders > 0,
    ensures
        s.with_sender().without_sender() == s,
        s.with_sender().woken_by_sender_drop().len() == 0,
        s.with_receiver().without_receiver() == s,
        s.with_inactive().without_inactive() == s,
{
}

/// Once a receive has ended in `RecvError`, polling again changes nothing
/// and ends in `RecvError` again.
pub proof fn lemma_closed_stays_closed<T, W>(s: ChannelState<T, W>, waker: W)
    requires
        s.poll_result() == Poll::<Result<T, RecvError>>::Ready(Err(RecvError)),
    ensures
        s.after_poll(waker) == s,
{
}

/// While a sender and a clone of it are alive, dropping one of them keeps
/// the channel open: receivers do not see it closed, and a receive on an
/// empty queue waits instead of failing.
pub proof fn lemma_cloned_sender_keeps_channel_open<T, W>(s: ChannelState<T, W>, waker: W)
    requires
        s.senders > 0,
        s.queue.len() == 0,
    ensures
        s.with_sender().without_sender().senders > 0,
        s.with_sender().without_sender().poll_result() is Pending,
        s.with_sender().without_sender().after_poll(waker).wakers == s.wakers.push(waker),
{
}

/// What a send does, stated over the state before it: with no active
/// receiver it drops the value, reports nothing and wakes nobody; otherwise
/// it appends the value at the back of the queue, reports the number of
/// waiting receives and hands back exactly their wakers, leaving none
/// registered. A sender sees the channel closed exactly when no receiver is
/// active and an inactive one is left.
pub proof fn lemma_send_meaning<T, W>(s: ChannelState<T, W>, value: T)
    ensures
        s.receivers == 0 ==> {
            &&& s.send_result() is None
            &&& s.woken_by_send().len() == 0
            &&& s.after_send(value) == s
        },
        s.receivers > 0 ==> {
            &&& s.send_result() == Some(s.wakers.len() as usize)
            &&& s.woken_by_send() == s.wakers
            &&& s.woken_by_send().len() == s.wakers.len()
            &&& s.after_send(value).queue.len() == s.queue.len() + 1
            &&& s.after_send(value).queue.last() == value
            &&& s.after_send(value).queue.drop_last() == s.queue
            &&& s.after_send(value).wakers.len() == 0
            &&& s.after_send(value).senders == s.senders
            &&& s.after_send(value).receivers == s.receivers
            &&& s.after_send(value).inactive == s.inactive
        },
        s.sender_sees_closed() <==> (s.receivers == 0 && s.inactive > 0),
{
    if s.receivers > 0 {
        assert(s.after_send(value).queue.drop_last() =~= s.queue);
    }
}

/// What a receive does, stated over the state before it: with values
/// queued it delivers the oldest one (the front) and removes exactly it,
/// whatever the number of senders; with none queued it fails when every
/// sender is gone and changes nothing, else it registers its waker at the
/// end and waits. `try_recv` takes the front in the same way and never
/// drops a value without returning it.
pub proof fn lemma_receive_meaning<T, W>(s: ChannelState<T, W>, waker: W)
    ensures
        s.queue.len() > 0 ==> {
            &&& s.poll_result() == Poll::<Result<T, RecvError>>::Ready(Ok(s.queue[0]))
            &&& s.after_poll(waker).queue == s.queue.drop_first()
            &&& s.after_poll(waker).wakers == s.wakers
            &&& s.front() == Some(s.queue[0])
            &&& s.after_take().queue == s.queue.drop_first()
            &&& s.after_take().wakers == s.wakers
        },
        s.queue.len() == 0 ==> {
            &&& s.front() is None
            &&& s.after_take() == s
        },
        s.queue.len() == 0 && s.senders == 0 ==> {
            &&& s.poll_result() == Poll::<Result<T, RecvError>>::Ready(Err(RecvError))
            &&& s.after_poll(waker) == s
        },
        s.queue.len() == 0 && s.senders > 0 ==> {
            &&& s.poll_result() is Pending
            &&& s.after_poll(waker).queue == s.queue
            &&& s.after_poll(waker).wakers == s.wakers.push(waker)
        },
        s.after_poll(waker).senders == s.senders,
        s.after_poll(waker).receivers == s.receivers,
        s.after_poll(waker).inactive == s.inactive,
        s.after_take().senders == s.senders,
        s.after_take().receivers == s.receivers,
        s.after_take().inactive == s.inactive,
{
}

/// Receives after sends on an empty queue, one poll per value, deliver the
/// values in the order they were sent.
pub proof fn lemma_polls_deliver_in_send_order<T, W>(
    s: ChannelState<T, W>,
    values: Seq<T>,
    waker: W,
    j: int,
)
    requires
        s.receivers > 0,
        s.queue.len() == 0,
        0 <= j < values.len(),
    ensures
        s.after_sends(values).after_takes(j as nat).poll_result() == Poll::<
            Result<T, RecvError>,
        >::Ready(Ok(values[j])),
{
    lemma_sends_append(s, values);
    assert(s.queue + values =~= values);
    lemma_takes_deliver_front(s.after_sends(values), j as nat);
    let t = s.after_sends(values).after_takes(j as nat);
    assert(t.queue[0] == values[j]);
}

/// What the handle operations do, stated over the state before them: each
/// adds or removes one handle of its kind and leaves everything else;
/// dropping the last sender also hands back every registered waker and
/// leaves none, while dropping another sender hands back none.
pub proof fn lemma_handles_meaning<T, W>(s: ChannelState<T, W>)
    ensures
        s.with_sender().senders == s.senders + 1,
        s.with_sender().queue == s.queue && s.with_sender().wakers == s.wakers,
        s.with_sender().receivers == s.receivers && s.with_sender().inactive == s.inactive,
        s.senders > 0 ==> s.without_sender().senders == s.senders - 1,
        s.without_sender().queue == s.queue,
        s.without_sender().receivers == s.receivers && s.without_sender().inactive == s.inactive,
        s.senders == 1 ==> s.woken_by_sender_drop() == s.wakers && s.without_sender().wakers.len()
            == 0,
        s.senders > 1 ==> s.woken_by_sender_drop().len() == 0 && s.without_sender().wakers
            == s.wakers,
        s.with_receiver().receivers == s.receivers + 1,
        s.with_receiver().queue == s.queue && s.with_receiver().wakers == s.wakers,
        s.with_receiver().senders == s.senders && s.with_receiver().inactive == s.inactive,
        s.receivers > 0 ==> s.without_receiver().receivers == s.receivers - 1,
        s.without_receiver().queue == s.queue && s.without_receiver().wakers == s.wakers,
        s.without_receiver().senders == s.senders && s.without_receiver().inactive == s.inactive,
        s.with_inactive().inactive == s.inactive + 1,
        s.with_inactive().queue == s.queue && s.with_inactive().wakers == s.wakers,
        s.with_inactive().senders == s.senders && s.with_inactive().receivers == s.receivers,
        s.inactive > 0 ==> s.without_inactive().inactive == s.inactive - 1,
        s.without_inactive().queue == s.queue && s.without_inactive().wakers == s.wakers,
        s.without_inactive().senders == s.senders && s.without_inactive().receivers
            == s.receivers,
        s.handles() == s.senders + s.receivers + s.inactive,
{
}

} // verus!
