//! A broadcast channel: every active receiver reads each value sent while it
//! is active exactly once, in the order sent. A newly activated receiver
//! also reads the values still queued. The shared queue keeps one read
//! position per receiver and is emptied once every receiver has read all of
//! it.
use crate::error::{RecvError, SendError};
use crate::task::Poll;
use std::marker::PhantomData;
use vstd::prelude::*;

verus! {

/// What the handles of one channel share, seen as mathematical values.
pub struct ChannelState<T, W> {
    /// Values sent since the queue was last emptied, oldest first.
    pub queue: Seq<T>,
    /// One entry per receiver slot: the position in the queue of the next
    /// value that receiver reads, or `None` once the receiver is gone.
    pub cursors: Seq<Option<usize>>,
    /// Wakers of receives that wait for a value.
    pub wakers: Seq<W>,
    /// Live `Sender` handles.
    pub senders: nat,
    /// Live active `Receiver` handles.
    pub receivers: nat,
    /// Live `InactiveReceiver` handles.
    pub inactive: nat,
}

/// How a poll ends for a receiver.
pub enum PollStep<T> {
    /// The receiver's next unread value is delivered.
    Deliver(T),
    /// Every sender is gone and nothing is left for the receiver to read.
    Closed,
    /// The receive waits for a send.
    Wait,
}

/// The cursors after the queue was emptied: every live receiver is at the
/// start.
pub open spec fn rewound(cursors: Seq<Option<usize>>) -> Seq<Option<usize>> {
    cursors.map_values(|c: Option<usize>| if c is Some { Some(0usize) } else { None })
}

impl<T, W> ChannelState<T, W> {
    /// Every handle that keeps the shared state alive.
    pub open spec fn handles(self) -> nat {
        self.senders + self.receivers + self.inactive
    }

    /// Whether `slot` belongs to a live receiver.
    pub open spec fn live(self, slot: nat) -> bool {
        slot < self.cursors.len() && self.cursors[slot as int] is Some
    }

    /// The position of the receiver in `slot`.
    pub open spec fn position(self, slot: nat) -> nat {
        self.cursors[slot as int]->0 as nat
    }

    /// The values the receiver in `slot` has still to read, oldest first.
    pub open spec fn unread(self, slot: nat) -> Seq<T> {
        self.queue.subrange(self.position(slot) as int, self.queue.len() as int)
    }

    /// The queue fits in memory, and every live receiver's position lies
    /// inside the queue or at its end.
    pub open spec fn wf(self) -> bool {
        &&& self.queue.len() <= usize::MAX
        &&& forall|i: int|
            0 <= i < self.cursors.len() && #[trigger] self.cursors[i] is Some
                ==> self.cursors[i]->0 <= self.queue.len()
    }

    /// Whether every live receiver has read the whole queue.
    pub open spec fn all_caught_up(self) -> bool {
        forall|i: int|
            0 <= i < self.cursors.len() && #[trigger] self.cursors[i] is Some
                ==> self.cursors[i]->0 == self.queue.len()
    }

    /// The state after the queue was emptied, which happens once every live
    /// receiver has read all of it.
    pub open spec fn settled(self) -> ChannelState<T, W> {
        if self.all_caught_up() {
            ChannelState { queue: Seq::empty(), cursors: rewound(self.cursors), ..self }
        } else {
            self
        }
    }

    /// What a sender reports as closed: no receiver is active, and an
    /// inactive receiver still holds the channel.
    pub open spec fn sender_sees_closed(self) -> bool {
        self.receivers == 0 && self.handles() != self.receivers + self.senders
    }

    /// What `send` reports: nothing when no receiver is active, else the
    /// number of waiting receives that it wakes.
    pub open spec fn send_result(self) -> Option<usize> {
        if self.receivers == 0 {
            None
        } else {
            Some(self.wakers.len() as usize)
        }
    }

    /// The state after `send` of `value`: dropped when no receiver is
    /// active, else appended, and every waiting receive is released.
    pub open spec fn after_send(self, value: T) -> ChannelState<T, W> {
        if self.receivers == 0 {
            self
        } else {
            ChannelState { queue: self.queue.push(value), wakers: Seq::empty(), ..self }
        }
    }

    /// The wakers that `send` hands back to be woken.
    pub open spec fn woken_by_send(self) -> Seq<W> {
        if self.receivers == 0 {
            Seq::empty()
        } else {
            self.wakers
        }
    }

    /// The state after `send` of each of `values` in turn.
    pub open spec fn after_sends(self, values: Seq<T>) -> ChannelState<T, W>
        decreases values.len(),
    {
        if values.len() == 0 {
            self
        } else {
            self.after_sends(values.drop_last()).after_send(values.last())
        }
    }

    /// How a receive by the receiver in `slot` ends.
    pub open spec fn poll_step(self, slot: nat) -> PollStep<T> {
        if self.position(slot) < self.queue.len() {
            PollStep::Deliver(self.queue[self.position(slot) as int])
        } else if self.senders == 0 {
            PollStep::Closed
        } else {
            PollStep::Wait
        }
    }

    /// The state after the receiver in `slot` read one value: its position
    /// moves on, and the queue is emptied once every receiver has read it.
    pub open spec fn advanced(self, slot: nat) -> ChannelState<T, W> {
        ChannelState {
            cursors: self.cursors.update(slot as int, Some((self.position(slot) + 1) as usize)),
            ..self
        }.settled()
    }

    /// The state after a receive by the receiver in `slot` that registers
    /// `waker` when it waits.
    pub open spec fn after_poll(self, slot: nat, waker: W) -> ChannelState<T, W> {
        match self.poll_step(slot) {
            PollStep::Deliver(_) => self.advanced(slot),
            PollStep::Closed => self,
            PollStep::Wait => ChannelState { wakers: self.wakers.push(waker), ..self },
        }
    }

    /// The state after `try_recv` by the receiver in `slot`.
    pub open spec fn after_try_recv(self, slot: nat) -> ChannelState<T, W> {
        if self.position(slot) < self.queue.len() {
            self.advanced(slot)
        } else {
            self
        }
    }

    /// The values that `n` successive reads by the receiver in `slot`
    /// deliver.
    pub open spec fn reads(self, slot: nat, n: nat) -> Seq<T>
        decreases n,
    {
        if n == 0 || self.position(slot) >= self.queue.len() {
            Seq::empty()
        } else {
            seq![self.queue[self.position(slot) as int]] + self.advanced(slot).reads(
                slot,
                (n - 1) as nat,
            )
        }
    }

    /// The state after `n` successive reads by the receiver in `slot`.
    pub open spec fn after_reads(self, slot: nat, n: nat) -> ChannelState<T, W>
        decreases n,
    {
        if n == 0 {
            self
        } else {
            self.after_try_recv(slot).after_reads(slot, (n - 1) as nat)
        }
    }

    /// The state after one more sender handle was made.
    pub open spec fn with_sender(self) -> ChannelState<T, W> {
        ChannelState { senders: self.senders + 1, ..self }
    }

    /// The state after a sender handle was dropped; the last one releases
    /// every waiting receive.
    pub open spec fn without_sender(self) -> ChannelState<T, W> {
        if self.senders == 1 {
            ChannelState { senders: 0, wakers: Seq::empty(), ..self }
        } else {
            ChannelState { senders: (self.senders - 1) as nat, ..self }
        }
    }

    /// The wakers that dropping a sender hands back to be woken.
    pub open spec fn woken_by_sender_drop(self) -> Seq<W> {
        if self.senders == 1 {
            self.wakers
        } else {
            Seq::empty()
        }
    }

    /// The state after one more active receiver was made, in a new slot at
    /// the end, reading from `position`.
    pub open spec fn with_receiver_at(self, position: usize) -> ChannelState<T, W> {
        ChannelState {
            cursors: self.cursors.push(Some(position)),
            receivers: self.receivers + 1,
            ..self
        }
    }

    /// The state after the active receiver in `slot` was dropped.
    pub open spec fn without_receiver(self, slot: nat) -> ChannelState<T, W> {
        ChannelState {
            cursors: self.cursors.update(slot as int, None),
            receivers: (self.receivers - 1) as nat,
            ..self
        }
    }

    /// The state after one more inactive receiver handle was made.
    pub open spec fn with_inactive(self) -> ChannelState<T, W> {
        ChannelState { inactive: self.inactive + 1, ..self }
    }

    /// The state after an inactive receiver handle was dropped.
    pub open spec fn without_inactive(self) -> ChannelState<T, W> {
        ChannelState { inactive: (self.inactive - 1) as nat, ..self }
    }
}

/// The state that all handles of one channel share.
pub struct Shared<T, W> {
    queue: Vec<T>,
    cursors: Vec<Option<usize>>,
    wakers: Vec<W>,
    sender: usize,
    receiver: usize,
    inactive: usize,
}

impl<T, W> View for Shared<T, W> {
    type V = ChannelState<T, W>;

    closed spec fn view(&self) -> ChannelState<T, W> {
        ChannelState {
            queue: self.queue@,
            cursors: self.cursors@,
            wakers: self.wakers@,
            senders: self.sender as nat,
            receivers: self.receiver as nat,
            inactive: self.inactive as nat,
        }
    }
}

impl<T, W> Shared<T, W> {
    /// Every counter of the shared state, and the number of waiting
    /// receives, of queued values and of receiver slots, fits in a word.
    pub proof fn lemma_fits_in_word(&self)
        ensures
            self@.senders <= usize::MAX,
            self@.receivers <= usize::MAX,
            self@.inactive <= usize::MAX,
            self@.wakers.len() <= usize::MAX,
            self@.queue.len() <= usize::MAX,
            self@.cursors.len() <= usize::MAX,
    {
        assert(self.wakers@.len() == self.wakers.len());
        assert(self.queue@.len() == self.queue.len());
        assert(self.cursors@.len() == self.cursors.len());
    }

    /// The number of values in the queue.
    pub fn len(&self) -> (n: usize)
        ensures
            n == self@.queue.len(),
    {
        self.queue.len()
    }

    /// The number of live sender handles.
    pub fn senders(&self) -> (n: usize)
        ensures
            n == self@.senders,
    {
        self.sender
    }

    /// The number of live active receiver handles.
    pub fn receivers(&self) -> (n: usize)
        ensures
            n == self@.receivers,
    {
        self.receiver
    }

    /// The number of live inactive receiver handles.
    pub fn inactive_receivers(&self) -> (n: usize)
        ensures
            n == self@.inactive,
    {
        self.inactive
    }

    /// Whether the state is well formed: see `ChannelState::wf`.
    pub fn is_well_formed(&self) -> (r: bool)
        ensures
            r == self@.wf(),
    {
        proof {
            assert(self.queue@.len() == self.queue.len());
        }
        let len = self.queue.len();
        let n = self.cursors.len();
        let mut i: usize = 0;
        while i < n
            invariant
                n == self.cursors@.len(),
                len == self.queue@.len(),
                i <= n,
                forall|j: int|
                    0 <= j < i && #[trigger] self.cursors@[j] is Some ==> self.cursors@[j]->0
                        <= len,
            decreases n - i,
        {
            if let Some(c) = self.cursors[i] {
                if c > len {
                    return false;
                }
            }
            i = i + 1;
        }
        true
    }

    /// Whether `rx` is a live receiver of this state.
    pub fn holds(&self, rx: &Receiver<T>) -> (held: bool)
        ensures
            held == self@.live(rx.slot()),
    {
        rx.slot < self.cursors.len() && self.cursors[rx.slot].is_some()
    }

    /// Empties the queue once every live receiver has read all of it.
    fn settle(&mut self)
        requires
            old(self)@.wf(),
        ensures
            final(self)@.wf(),
            final(self)@ == old(self)@.settled(),
    {
        let len = self.queue.len();
        let n = self.cursors.len();
        let mut all = true;
        let mut i: usize = 0;
        while i < n
            invariant
                n == self.cursors@.len(),
                len == self.queue@.len(),
                i <= n,
                all <==> (forall|j: int|
                    0 <= j < i && #[trigger] self.cursors@[j] is Some ==> self.cursors@[j]->0
                        == len),
            decreases n - i,
        {
            if let Some(c) = self.cursors[i] {
                if c != len {
                    all = false;
                }
            }
            i = i + 1;
        }
        if all {
            let mut fresh: Vec<Option<usize>> = Vec::new();
            let mut k: usize = 0;
            while k < n
                invariant
                    n == self.cursors@.len(),
                    k <= n,
                    fresh@.len() == k,
                    forall|j: int| 0 <= j < k ==> fresh@[j] == rewound(self.cursors@)[j],
                decreases n - k,
            {
                if self.cursors[k].is_some() {
                    fresh.push(Some(0));
                } else {
                    fresh.push(None);
                }
                k = k + 1;
            }
            assert(fresh@ =~= rewound(self.cursors@));
            self.cursors = fresh;
            self.queue.clear();
        }
    }
}

/// A handle that sends values to every active receiver.
pub struct Sender<T> {
    marker: PhantomData<T>,
}

impl<T> Sender<T> {
    /// Whether a send would find the channel closed: see
    /// `ChannelState::sender_sees_closed`.
    pub fn is_closed<W>(&self, chan: &Shared<T, W>) -> (closed: bool)
        ensures
            closed == chan@.sender_sees_closed(),
    {
        chan.receiver == 0 && chan.inactive != 0
    }

    /// Sends `value`. Returns `Ok(None)` when no receiver is active (the
    /// value is dropped), else `Ok(Some(n))` where `n` is the number of
    /// waiting receives, whose wakers come back in the second component.
    pub fn send<W>(&self, chan: &mut Shared<T, W>, value: T) -> (r: (
        Result<Option<usize>, SendError<T>>,
        Vec<W>,
    ))
        requires
            old(chan)@.wf(),
        ensures
            r.0 == Ok::<Option<usize>, SendError<T>>(old(chan)@.send_result()),
            r.1@ == old(chan)@.woken_by_send(),
            final(chan)@ == old(chan)@.after_send(value),
            final(chan)@.wf(),
    {
        let is_closed = self.is_closed(chan);
        if chan.receiver == 0 {
            return (Ok(None), Vec::new());
        }
        if is_closed {
            return (Err(SendError(value)), Vec::new());
        }
        chan.queue.push(value);
        assert(chan.queue@.len() == chan.queue.len());
        let woken = chan.wakers.len();
        let mut wakers = Vec::new();
        std::mem::swap(&mut wakers, &mut chan.wakers);
        (Ok(Some(woken)), wakers)
    }

    /// Makes another sender of the same channel.
    pub fn duplicate<W>(&self, chan: &mut Shared<T, W>) -> (tx: Sender<T>)
        requires
            old(chan)@.senders < usize::MAX,
        ensures
            final(chan)@ == old(chan)@.with_sender(),
    {
        chan.sender = chan.sender + 1;
        Sender { marker: PhantomData }
    }

    /// Drops this sender. When it was the last one, every waiting receive
    /// is released and its waker handed back.
    pub fn release<W>(self, chan: &mut Shared<T, W>) -> (woken: Vec<W>)
        requires
            old(chan)@.senders > 0,
        ensures
            woken@ == old(chan)@.woken_by_sender_drop(),
            final(chan)@ == old(chan)@.without_sender(),
    {
        chan.sender = chan.sender - 1;
        let mut wakers = Vec::new();
        if chan.sender == 0 {
            std::mem::swap(&mut wakers, &mut chan.wakers);
        }
        wakers
    }
}

/// An active handle; its read position is kept in the shared state, in the
/// receiver's slot.
pub struct Receiver<T> {
    slot: usize,
    marker: PhantomData<T>,
}

impl<T> Receiver<T> {
    /// The slot of this receiver in the shared state.
    pub closed spec fn slot(&self) -> nat {
        self.slot as nat
    }

    fn new<W>(chan: &mut Shared<T, W>, position: usize) -> (rx: Receiver<T>)
        requires
            old(chan)@.wf(),
            old(chan)@.receivers < usize::MAX,
            position <= old(chan)@.queue.len(),
        ensures
            final(chan)@ == old(chan)@.with_receiver_at(position),
            rx.slot() == old(chan)@.cursors.len(),
            final(chan)@.wf(),
    {
        let slot = chan.cursors.len();
        chan.cursors.push(Some(position));
        chan.receiver = chan.receiver + 1;
        Receiver { slot, marker: PhantomData }
    }

    /// The position in the queue of the next value this receiver reads.
    pub fn index<W>(&self, chan: &Shared<T, W>) -> (i: usize)
        requires
            chan@.live(self.slot()),
        ensures
            i == chan@.position(self.slot()),
    {
        chan.cursors[self.slot].unwrap()
    }

    /// Whether every sender is gone.
    pub fn is_closed<W>(&self, chan: &Shared<T, W>) -> (closed: bool)
        ensures
            closed == (chan@.senders == 0),
    {
        chan.sender == 0
    }

    /// A receive of the next value; see `RecvFuture::poll`. Making it
    /// changes nothing: the receiver's position lives in the shared state.
    pub fn recv(&self) -> (fut: RecvFuture<'_, T>)
        ensures
            fut.receiver() == *self,
    {
        RecvFuture { rx: self }
    }

    /// Turns this receiver into an inactive one.
    pub fn deactivate<W>(self, chan: &mut Shared<T, W>) -> (rx: InactiveReceiver<T>)
        requires
            old(chan)@.wf(),
            old(chan)@.live(self.slot()),
            old(chan)@.receivers > 0,
            old(chan)@.inactive < usize::MAX,
        ensures
            final(chan)@ == old(chan)@.with_inactive().without_receiver(self.slot()),
            final(chan)@.wf(),
    {
        let rx = InactiveReceiver { marker: PhantomData };
        chan.inactive = chan.inactive + 1;
        self.release(chan);
        rx
    }

    /// Makes another active receiver, in a new slot, at the same position.
    pub fn duplicate<W>(&self, chan: &mut Shared<T, W>) -> (rx: Receiver<T>)
        requires
            old(chan)@.wf(),
            old(chan)@.live(self.slot()),
            old(chan)@.receivers < usize::MAX,
        ensures
            final(chan)@ == old(chan)@.with_receiver_at(old(chan)@.cursors[self.slot() as int]->0),
            rx.slot() == old(chan)@.cursors.len(),
            final(chan)@.wf(),
    {
        let position = chan.cursors[self.slot].unwrap();
        Self::new(chan, position)
    }

    /// Drops this receiver; its slot is given up.
    pub fn release<W>(self, chan: &mut Shared<T, W>)
        requires
            old(chan)@.wf(),
            old(chan)@.live(self.slot()),
            old(chan)@.receivers > 0,
        ensures
            final(chan)@ == old(chan)@.without_receiver(self.slot()),
            final(chan)@.wf(),
    {
        chan.cursors.set(self.slot, None);
        chan.receiver = chan.receiver - 1;
    }
}

impl<T: Clone> Receiver<T> {
    /// Reads a copy of this receiver's next unread value, if there is one,
    /// and moves its position on; the queue is emptied once every receiver
    /// has read all of it.
    pub fn try_recv<W>(&self, chan: &mut Shared<T, W>) -> (value: Option<T>)
        requires
            old(chan)@.wf(),
            old(chan)@.live(self.slot()),
        ensures
            ({
                let s = old(chan)@;
                let p = s.position(self.slot());
                &&& final(chan)@ == s.after_try_recv(self.slot())
                &&& final(chan)@.wf()
                &&& p < s.queue.len() ==> value is Some && cloned(s.queue[p as int], value->0)
                &&& p >= s.queue.len() ==> value is None
            }),
    {
        let p = chan.cursors[self.slot].unwrap();
        if p < chan.queue.len() {
            let value = chan.queue[p].clone();
            chan.cursors.set(self.slot, Some(p + 1));
            chan.settle();
            Some(value)
        } else {
            None
        }
    }
}

/// A pending receive on a `Receiver`.
pub struct RecvFuture<'a, T> {
    rx: &'a Receiver<T>,
}

impl<'a, T> RecvFuture<'a, T> {
    /// The receiver that this receive reads for.
    pub closed spec fn receiver(&self) -> Receiver<T> {
        *self.rx
    }
}

impl<'a, T: Clone> RecvFuture<'a, T> {
    /// Polls the receive once. When the receiver has an unread value it
    /// delivers a copy of the oldest one and moves the receiver on; the
    /// queue is emptied once every receiver has read all of it. With
    /// nothing unread it reports `RecvError` when no sender is left, else
    /// registers `waker` and waits.
    pub fn poll<W>(&self, chan: &mut Shared<T, W>, waker: W) -> (r: Poll<Result<T, RecvError>>)
        requires
            old(chan)@.wf(),
            old(chan)@.live(self.receiver().slot()),
        ensures
            ({
                let s = old(chan)@;
                let slot = self.receiver().slot();
                &&& final(chan)@ == s.after_poll(slot, waker)
                &&& final(chan)@.wf()
                &&& match s.poll_step(slot) {
                    PollStep::Deliver(v) => r matches Poll::Ready(Ok(x)) && cloned(v, x),
                    PollStep::Closed => r == Poll::<Result<T, RecvError>>::Ready(Err(RecvError)),
                    PollStep::Wait => r is Pending,
                }
            }),
    {
        let slot = self.rx.slot;
        let p = chan.cursors[slot].unwrap();
        if p == chan.queue.len() {
            if chan.sender == 0 {
                Poll::Ready(Err(RecvError))
            } else {
                chan.wakers.push(waker);
                Poll::Pending
            }
        } else {
            let value = chan.queue[p].clone();
            chan.cursors.set(slot, Some(p + 1));
            chan.settle();
            Poll::Ready(Ok(value))
        }
    }
}

/// A receiver handle that keeps the channel without reading values.
pub struct InactiveReceiver<T> {
    marker: PhantomData<T>,
}

impl<T> InactiveReceiver<T> {
    /// Makes another inactive receiver of the same channel.
    pub fn duplicate<W>(&self, chan: &mut Shared<T, W>) -> (rx: InactiveReceiver<T>)
        requires
            old(chan)@.inactive < usize::MAX,
        ensures
            final(chan)@ == old(chan)@.with_inactive(),
    {
        chan.inactive = chan.inactive + 1;
        InactiveReceiver { marker: PhantomData }
    }

    /// Drops this inactive receiver.
    pub fn release<W>(self, chan: &mut Shared<T, W>)
        requires
            old(chan)@.inactive > 0,
        ensures
            final(chan)@ == old(chan)@.without_inactive(),
    {
        chan.inactive = chan.inactive - 1;
    }

    /// Turns this handle into an active receiver, in a new slot, reading
    /// from the start of the queue.
    pub fn activate<W>(self, chan: &mut Shared<T, W>) -> (rx: Receiver<T>)
        requires
            old(chan)@.wf(),
            old(chan)@.inactive > 0,
            old(chan)@.receivers < usize::MAX,
        ensures
            final(chan)@ == old(chan)@.without_inactive().with_receiver_at(0),
            rx.slot() == old(chan)@.cursors.len(),
            final(chan)@.wf(),
    {
        chan.inactive = chan.inactive - 1;
        Receiver::new(chan, 0)
    }
}

/// Creates a channel: its shared state, one sender and one inactive receiver.
pub fn channel<T, W>() -> (r: (Shared<T, W>, Sender<T>, InactiveReceiver<T>))
    ensures
        r.0@ == (ChannelState::<T, W> {
            queue: Seq::empty(),
            cursors: Seq::empty(),
            wakers: Seq::empty(),
            senders: 1,
            receivers: 0,
            inactive: 1,
        }),
        r.0@.wf(),
{
    let chan = Shared {
        queue: Vec::new(),
        cursors: Vec::new(),
        wakers: Vec::new(),
        sender: 1,
        receiver: 0,
        inactive: 1,
    };
    (chan, Sender { marker: PhantomData }, InactiveReceiver { marker: PhantomData })
}

/// Emptying the queue once every receiver has read it keeps the state well
/// formed, keeps every slot live or given up as it was, and leaves every
/// live receiver with the same unread values (none).
pub proof fn lemma_settled_keeps_unread<T, W>(s: ChannelState<T, W>, slot: nat)
    requires
        s.wf(),
    ensures
        s.settled().wf(),
        s.settled().cursors.len() == s.cursors.len(),
        s.settled().live(slot) == s.live(slot),
        s.live(slot) ==> s.settled().unread(slot) == s.unread(slot),
        s.settled().senders == s.senders,
        s.settled().receivers == s.receivers,
        s.settled().inactive == s.inactive,
        s.settled().wakers == s.wakers,
{
    if s.all_caught_up() {
        let t = s.settled();
        assert forall|i: int| 0 <= i < t.cursors.len() && #[trigger] t.cursors[i] is Some implies t.cursors[i]->0
            <= t.queue.len() by {
            assert(t.cursors[i] == (if s.cursors[i] is Some { Some(0usize) } else { None }));
        }
        if s.live(slot) {
            assert(s.cursors[slot as int] is Some);
            assert(s.cursors[slot as int]->0 == s.queue.len());
            assert(t.cursors[slot as int] == Some(0usize));
            assert(s.unread(slot) =~= Seq::<T>::empty());
            assert(t.unread(slot) =~= Seq::<T>::empty());
        }
    }
}

/// A send while a receiver is active adds the value to the end of every
/// live receiver's unread values.
pub proof fn lemma_send_adds_to_every_unread<T, W>(s: ChannelState<T, W>, value: T, slot: nat)
    requires
        s.wf(),
        s.queue.len() < usize::MAX,
        s.receivers > 0,
        s.live(slot),
    ensures
        s.after_send(value).wf(),
        s.after_send(value).live(slot),
        s.after_send(value).unread(slot) == s.unread(slot).push(value),
{
    let t = s.after_send(value);
    assert(t.unread(slot) =~= s.unread(slot).push(value));
}

/// A receive gives the receiver in `slot` its oldest unread value and
/// removes just that value from what it has still to read; with nothing
/// unread it fails exactly when every sender is gone, else it waits.
pub proof fn lemma_receive_takes_oldest_unread<T, W>(s: ChannelState<T, W>, slot: nat, waker: W)
    requires
        s.wf(),
        s.live(slot),
    ensures
        s.unread(slot).len() > 0 ==> s.poll_step(slot) == PollStep::Deliver(s.unread(slot)[0]),
        s.unread(slot).len() > 0 ==> s.after_poll(slot, waker).unread(slot) == s.unread(
            slot,
        ).drop_first(),
        s.unread(slot).len() == 0 ==> (s.poll_step(slot) is Closed <==> s.senders == 0),
        s.unread(slot).len() == 0 ==> s.after_poll(slot, waker).unread(slot) == s.unread(slot),
        s.after_poll(slot, waker).wf(),
        s.after_poll(slot, waker).live(slot),
        s.after_try_recv(slot) == (if s.unread(slot).len() > 0 {
            s.after_poll(slot, waker)
        } else {
            s
        }),
{
    if s.position(slot) < s.queue.len() {
        let u = ChannelState {
            cursors: s.cursors.update(slot as int, Some((s.position(slot) + 1) as usize)),
            ..s
        };
        assert(u.wf());
        lemma_settled_keeps_unread(u, slot);
        assert(u.unread(slot) =~= s.unread(slot).drop_first());
    } else {
        assert(s.unread(slot) =~= Seq::<T>::empty());
    }
}

/// A receive by one receiver leaves every other live receiver's unread
/// values as they were.
pub proof fn lemma_receive_keeps_others<T, W>(
    s: ChannelState<T, W>,
    slot: nat,
    other: nat,
    waker: W,
)
    requires
        s.wf(),
        s.live(slot),
        s.live(other),
        other != slot,
    ensures
        s.after_poll(slot, waker).live(other),
        s.after_poll(slot, waker).unread(other) == s.unread(other),
{
    if s.position(slot) < s.queue.len() {
        let u = ChannelState {
            cursors: s.cursors.update(slot as int, Some((s.position(slot) + 1) as usize)),
            ..s
        };
        assert(u.wf());
        lemma_settled_keeps_unread(u, other);
        assert(u.unread(other) =~= s.unread(other));
    }
}

/// Successive reads by one receiver deliver its unread values in order,
/// each once, and leave it with the rest.
pub proof fn lemma_reads_in_order<T, W>(s: ChannelState<T, W>, slot: nat, n: nat)
    requires
        s.wf(),
        s.live(slot),
        n <= s.unread(slot).len(),
    ensures
        s.reads(slot, n) == s.unread(slot).take(n as int),
        s.after_reads(slot, n).wf(),
        s.after_reads(slot, n).live(slot),
        s.after_reads(slot, n).unread(slot) == s.unread(slot).skip(n as int),
        s.after_reads(slot, n).senders == s.senders,
    decreases n,
{
    if n == 0 {
        assert(s.unread(slot).take(0) =~= Seq::<T>::empty());
        assert(s.unread(slot).skip(0) =~= s.unread(slot));
    } else {
        let w = arbitrary::<W>();
        lemma_receive_takes_oldest_unread(s, slot, w);
        let t = s.after_try_recv(slot);
        assert(t == s.after_poll(slot, w));
        let u = ChannelState {
            cursors: s.cursors.update(slot as int, Some((s.position(slot) + 1) as usize)),
            ..s
        };
        lemma_settled_keeps_unread(u, slot);
        assert(t == s.advanced(slot));
        lemma_reads_in_order(t, slot, (n - 1) as nat);
        assert(s.unread(slot)[0] == s.queue[s.position(slot) as int]);
        assert(seq![s.unread(slot)[0]] + s.unread(slot).drop_first().take(n - 1) =~= s.unread(
            slot,
        ).take(n as int));
        assert(s.unread(slot).drop_first().skip(n - 1) =~= s.unread(slot).skip(n as int));
    }
}

/// Every active receiver reads every value sent while it is active exactly
/// once, in the order sent: a receiver that has read everything, after
/// `values` are sent and the last sender is dropped, reads `values` through
/// successive receives and then gets `RecvError`.
pub proof fn lemma_receiver_reads_every_value_once<T, W>(
    s: ChannelState<T, W>,
    slot: nat,
    values: Seq<T>,
)
    requires
        s.wf(),
        s.live(slot),
        s.receivers > 0,
        s.senders == 1,
        s.unread(slot).len() == 0,
        s.queue.len() + values.len() <= usize::MAX,
    ensures
        ({
            let t = s.after_sends(values).without_sender();
            &&& t.unread(slot) == values
            &&& t.reads(slot, values.len()) == values
            &&& t.after_reads(slot, values.len()).poll_step(slot) is Closed
        }),
{
    lemma_sends_extend_unread(s, slot, values);
    let t = s.after_sends(values).without_sender();
    assert(t.unread(slot) == s.after_sends(values).unread(slot));
    assert(t.wf());
    lemma_reads_in_order(t, slot, values.len());
    assert(values.take(values.len() as int) =~= values);
    assert(values.skip(values.len() as int) =~= Seq::<T>::empty());
    let r = t.after_reads(slot, values.len());
    assert(r.unread(slot).len() == 0);
    assert(r.position(slot) >= r.queue.len());
}

/// Sends while a receiver is active extend every live receiver's unread
/// values by the values sent, in order, and keep the counters.
pub proof fn lemma_sends_extend_unread<T, W>(s: ChannelState<T, W>, slot: nat, values: Seq<T>)
    requires
        s.wf(),
        s.queue.len() + values.len() <= usize::MAX,
        s.live(slot),
        s.receivers > 0,
    ensures
        s.after_sends(values).wf(),
        s.after_sends(values).live(slot),
        s.after_sends(values).queue == s.queue + values,
        s.after_sends(values).unread(slot) == s.unread(slot) + values,
        s.after_sends(values).senders == s.senders,
        s.after_sends(values).receivers == s.receivers,
    decreases values.len(),
{
    if values.len() == 0 {
        assert(s.unread(slot) + values =~= s.unread(slot));
        assert(s.queue + values =~= s.queue);
    } else {
        lemma_sends_extend_unread(s, slot, values.drop_last());
        lemma_send_adds_to_every_unread(s.after_sends(values.drop_last()), values.last(), slot);
        assert(s.unread(slot) + values.drop_last() + seq![values.last()] =~= s.unread(slot)
            + values);
        assert(s.queue + values.drop_last() + seq![values.last()] =~= s.queue + values);
    }
}

/// A newly activated receiver has the whole queue still to read; making it
/// leaves every other live receiver's unread values as they were.
pub proof fn lemma_activation_reads_queue<T, W>(s: ChannelState<T, W>, other: nat)
    requires
        s.wf(),
    ensures
        ({
            let t = s.without_inactive().with_receiver_at(0);
            let slot = s.cursors.len();
            &&& t.wf()
            &&& t.live(slot)
            &&& t.unread(slot) == s.queue
            &&& s.live(other) ==> t.live(other) && t.unread(other) == s.unread(other)
        }),
{
    let t = s.without_inactive().with_receiver_at(0);
    assert(t.cursors[s.cursors.len() as int] == Some(0usize));
    assert(t.unread(s.cursors.len()) =~= s.queue);
    if s.live(other) {
        assert(t.cursors[other as int] == s.cursors[other as int]);
    }
}

/// Dropping a receiver gives up its slot and leaves every other live
/// receiver's unread values as they were.
pub proof fn lemma_release_keeps_others<T, W>(s: ChannelState<T, W>, slot: nat, other: nat)
    requires
        s.wf(),
        s.live(slot),
        s.live(other),
        other != slot,
    ensures
        s.without_receiver(slot).wf(),
        !s.without_receiver(slot).live(slot),
        s.without_receiver(slot).live(other),
        s.without_receiver(slot).unread(other) == s.unread(other),
{
}

/// A send while no receiver is active changes nothing and wakes nobody.
pub proof fn lemma_send_without_receiver_is_dropped<T, W>(s: ChannelState<T, W>, value: T)
    requires
        s.receivers == 0,
    ensures
        s.after_send(value) == s,
        s.send_result() is None,
        s.woken_by_send().len() == 0,
{
}

/// A receive that has to wait is woken by the next send that reaches an
/// active receiver, and then reads that value.
pub proof fn lemma_waiting_receive_woken_by_send<T, W>(
    s: ChannelState<T, W>,
    slot: nat,
    waker: W,
    value: T,
)
    requires
        s.wf(),
        s.live(slot),
        s.senders > 0,
        s.receivers > 0,
        s.unread(slot).len() == 0,
        s.queue.len() < usize::MAX,
    ensures
        s.poll_step(slot) is Wait,
        s.after_poll(slot, waker).woken_by_send().contains(waker),
        s.after_poll(slot, waker).after_send(value).poll_step(slot) == PollStep::Deliver(value),
{
    let t = s.after_poll(slot, waker);
    assert(t.wakers[t.wakers.len() - 1] == waker);
    assert(s.position(slot) == s.queue.len());
}

/// Once a receive has ended in `RecvError`, polling again changes nothing
/// and ends in `RecvError` again.
pub proof fn lemma_closed_stays_closed<T, W>(s: ChannelState<T, W>, slot: nat, waker: W)
    requires
        s.poll_step(slot) is Closed,
    ensures
        s.after_poll(slot, waker) == s,
{
}

/// Making a handle and dropping it again restores the counters and wakes
/// nobody.
pub proof fn lemma_duplicate_release<T, W>(s: ChannelState<T, W>, position: usize)
    requires
        s.senders > 0,
    ensures
        s.with_sender().without_sender() == s,
        s.with_sender().woken_by_sender_drop().len() == 0,
        s.with_receiver_at(position).without_receiver(s.cursors.len()).receivers == s.receivers,
        s.with_inactive().without_inactive() == s,
{
}

/// What a send does, stated over the state before it: with no active
/// receiver it drops the value, reports nothing and wakes nobody; otherwise
/// it appends the value at the back of the queue, keeps every receiver's
/// position, reports the number of waiting receives and hands back exactly
/// their wakers, leaving none registered. A sender sees the channel closed
/// exactly when no receiver is active and an inactive one is left.
pub proof fn lemma_send_meaning<T, W>(s: ChannelState<T, W>, value: T)
    ensures
        s.receivers == 0 ==> {
            &&& s.send_result() is None
            &&& s.woken_by_send().len() == 0
            &&& s.after_send(value) == s
        },
        s.receivers > 0 ==> {
            &&& s.send_result() == Some(s.wakers.len() as usize)
            &&& s.woken_by_send() == s.wakers
            &&& s.woken_by_send().len() == s.wakers.len()
            &&& s.after_send(value).queue.len() == s.queue.len() + 1
            &&& s.after_send(value).queue.last() == value
            &&& s.after_send(value).queue.drop_last() == s.queue
            &&& s.after_send(value).cursors == s.cursors
            &&& s.after_send(value).wakers.len() == 0
            &&& s.after_send(value).senders == s.senders
            &&& s.after_send(value).receivers == s.receivers
            &&& s.after_send(value).inactive == s.inactive
        },
        s.sender_sees_closed() <==> (s.receivers == 0 && s.inactive > 0),
{
    if s.receivers > 0 {
        assert(s.after_send(value).queue.drop_last() =~= s.queue);
    }
}

/// What a receive does when the receiver has nothing unread, stated over
/// the state before it: it fails and changes nothing when every sender is
/// gone, else it registers its waker at the end and waits, keeping the
/// queue and every position. When it has something unread it delivers the
/// value at its position and keeps the wakers and counters; `try_recv`
/// then does what the receive does, and with nothing unread it changes
/// nothing.
pub proof fn lemma_receive_meaning<T, W>(s: ChannelState<T, W>, slot: nat, waker: W)
    requires
        s.wf(),
        s.live(slot),
    ensures
        s.position(slot) < s.queue.len() ==> {
            &&& s.poll_step(slot) == PollStep::Deliver(s.queue[s.position(slot) as int])
            &&& s.after_poll(slot, waker).wakers == s.wakers
            &&& s.after_poll(slot, waker).senders == s.senders
            &&& s.after_poll(slot, waker).receivers == s.receivers
            &&& s.after_poll(slot, waker).inactive == s.inactive
            &&& s.after_try_recv(slot) == s.after_poll(slot, waker)
        },
        s.position(slot) == s.queue.len() ==> s.after_try_recv(slot) == s,
        s.position(slot) == s.queue.len() && s.senders == 0 ==> {
            &&& s.poll_step(slot) is Closed
            &&& s.after_poll(slot, waker) == s
        },
        s.position(slot) == s.queue.len() && s.senders > 0 ==> {
            &&& s.poll_step(slot) is Wait
            &&& s.after_poll(slot, waker).wakers == s.wakers.push(waker)
            &&& s.after_poll(slot, waker).queue == s.queue
            &&& s.after_poll(slot, waker).cursors == s.cursors
            &&& s.after_poll(slot, waker).senders == s.senders
            &&& s.after_poll(slot, waker).receivers == s.receivers
        },
{
    if s.position(slot) < s.queue.len() {
        let u = ChannelState {
            cursors: s.cursors.update(slot as int, Some((s.position(slot) + 1) as usize)),
            ..s
        };
        assert(u.wf());
        lemma_settled_keeps_unread(u, slot);
    }
}

/// What the handle operations do, stated over the state before them: each
/// adds or removes one handle of its kind; a new receiver takes a new slot
/// at the end, at the given position; a dropped receiver gives up just its
/// slot; dropping the last sender hands back every registered waker and
/// leaves none, while dropping another sender hands back none.
pub proof fn lemma_handles_meaning<T, W>(s: ChannelState<T, W>, slot: nat, position: usize)
    ensures
        s.with_sender().senders == s.senders + 1,
        s.with_sender().queue == s.queue && s.with_sender().wakers == s.wakers,
        s.with_sender().cursors == s.cursors,
        s.with_sender().receivers == s.receivers && s.with_sender().inactive == s.inactive,
        s.senders > 0 ==> s.without_sender().senders == s.senders - 1,
        s.without_sender().queue == s.queue && s.without_sender().cursors == s.cursors,
        s.without_sender().receivers == s.receivers && s.without_sender().inactive == s.inactive,
        s.senders == 1 ==> s.woken_by_sender_drop() == s.wakers && s.without_sender().wakers.len()
            == 0,
        s.senders > 1 ==> s.woken_by_sender_drop().len() == 0 && s.without_sender().wakers
            == s.wakers,
        s.with_receiver_at(position).receivers == s.receivers + 1,
        s.with_receiver_at(position).cursors.len() == s.cursors.len() + 1,
        s.with_receiver_at(position).cursors.last() == Some(position),
        s.with_receiver_at(position).cursors.drop_last() == s.cursors,
        s.with_receiver_at(position).queue == s.queue,
        s.with_receiver_at(position).wakers == s.wakers,
        s.with_receiver_at(position).senders == s.senders,
        s.live(slot) ==> {
            &&& !s.without_receiver(slot).live(slot)
            &&& s.without_receiver(slot).cursors.len() == s.cursors.len()
            &&& forall|i: int|
                0 <= i < s.cursors.len() && i != slot ==> #[trigger] s.without_receiver(
                    slot,
                ).cursors[i] == s.cursors[i]
        },
        s.receivers > 0 ==> s.without_receiver(slot).receivers == s.receivers - 1,
        s.without_receiver(slot).queue == s.queue && s.without_receiver(slot).wakers == s.wakers,
        s.without_receiver(slot).senders == s.senders,
        s.with_inactive().inactive == s.inactive + 1,
        s.with_inactive().receivers == s.receivers && s.with_inactive().cursors == s.cursors,
        s.inactive > 0 ==> s.without_inactive().inactive == s.inactive - 1,
        s.without_inactive().receivers == s.receivers && s.without_inactive().cursors
            == s.cursors,
{
    assert(s.with_receiver_at(position).cursors.drop_last() =~= s.cursors);
}

/// A receive that waits is woken when the last sender is dropped, and then
/// ends in `RecvError`.
pub proof fn lemma_waiting_receive_woken_by_last_sender<T, W>(
    s: ChannelState<T, W>,
    slot: nat,
    waker: W,
)
    requires
        s.wf(),
        s.live(slot),
        s.senders == 1,
        s.position(slot) == s.queue.len(),
    ensures
        s.after_poll(slot, waker).woken_by_sender_drop().contains(waker),
        s.after_poll(slot, waker).without_sender().poll_step(slot) is Closed,
{
    let t = s.after_poll(slot, waker);
    assert(t.wakers[t.wakers.len() - 1] == waker);
}

} // verus!
