//! A watch channel: receivers see the latest value sent, each version at
//! most once. The shared state keeps, for every receiver, the version it
//! has seen last.
use crate::error::{RecvError, SendError};
use crate::task::Poll;
use std::marker::PhantomData;
use vstd::prelude::*;

verus! {

/// What the handles of one channel share, seen as mathematical values.
pub struct ChannelState<T, W> {
    /// The latest value sent to an active receiver.
    pub value: Option<T>,
    /// One entry per receiver slot: the version that receiver has seen
    /// last, or `None` once the receiver is gone.
    pub seen: Seq<Option<usize>>,
    /// Wakers of receives that wait for a new version.
    pub wakers: Seq<W>,
    /// Live `Sender` handles.
    pub senders: nat,
    /// Live active `Receiver` handles.
    pub receivers: nat,
    /// Live `InactiveReceiver` handles.
    pub inactive: nat,
    /// The version of the value, counted up by each delivered send.
    pub version: nat,
}

/// How a poll ends for a receiver.
pub enum PollStep<T> {
    /// A version the receiver has not seen is delivered.
    Deliver(T),
    /// Every sender is gone and nothing new is left to read.
    Closed,
    /// The receive waits for a send.
    Wait,
}

/// The version that follows `version`, wrapping round at the word size.
pub open spec fn next_version(version: nat) -> nat {
    if version == usize::MAX {
        0
    } else {
        version + 1
    }
}

impl<T, W> ChannelState<T, W> {
    /// Every handle that keeps the shared state alive.
    pub open spec fn handles(self) -> nat {
        self.senders + self.receivers + self.inactive
    }

    /// The version fits in a word.
    pub open spec fn wf(self) -> bool {
        self.version <= usize::MAX
    }

    /// Whether `slot` belongs to a live receiver.
    pub open spec fn live(self, slot: nat) -> bool {
        slot < self.seen.len() && self.seen[slot as int] is Some
    }

    /// The version the receiver in `slot` has seen last.
    pub open spec fn seen_by(self, slot: nat) -> nat {
        self.seen[slot as int]->0 as nat
    }

    /// What a sender reports as closed: no receiver is active, and an
    /// inactive receiver still holds the channel.
    pub open spec fn sender_sees_closed(self) -> bool {
        self.receivers == 0 && self.handles() != self.receivers + self.senders
    }

    /// What `send` reports: nothing when no receiver is active, else the
    /// number of waiting receives that it wakes.
    pub open spec fn send_result(self) -> Option<usize> {
        if self.receivers == 0 {
            None
        } else {
            Some(self.wakers.len() as usize)
        }
    }

    /// The state after `send` of `value`: dropped when no receiver is
    /// active, else stored as a new version, and every waiting receive is
    /// released.
    pub open spec fn after_send(self, value: T) -> ChannelState<T, W> {
        if self.receivers == 0 {
            self
        } else {
            ChannelState {
                value: Some(value),
                version: next_version(self.version),
                wakers: Seq::empty(),
                ..self
            }
        }
    }

    /// The wakers that `send` hands back to be woken.
    pub open spec fn woken_by_send(self) -> Seq<W> {
        if self.receivers == 0 {
            Seq::empty()
        } else {
            self.wakers
        }
    }

    /// How a receive by the receiver in `slot` ends.
    pub open spec fn poll_step(self, slot: nat) -> PollStep<T> {
        if self.value is Some && self.seen_by(slot) != self.version {
            PollStep::Deliver(self.value->0)
        } else if self.senders == 0 {
            PollStep::Closed
        } else {
            PollStep::Wait
        }
    }

    /// The state after a receive by the receiver in `slot`: a delivery
    /// marks the current version seen by it; a wait registers `waker`.
    pub open spec fn after_poll(self, slot: nat, waker: W) -> ChannelState<T, W> {
        match self.poll_step(slot) {
            PollStep::Deliver(_) => ChannelState {
                seen: self.seen.update(slot as int, Some(self.version as usize)),
                ..self
            },
            PollStep::Closed => self,
            PollStep::Wait => ChannelState { wakers: self.wakers.push(waker), ..self },
        }
    }

    /// The state after `send` of each of `values` in turn.
    pub open spec fn after_sends(self, values: Seq<T>) -> ChannelState<T, W>
        decreases values.len(),
    {
        if values.len() == 0 {
            self
        } else {
            self.after_sends(values.drop_last()).after_send(values.last())
        }
    }

    /// The state after one more sender handle was made.
    pub open spec fn with_sender(self) -> ChannelState<T, W> {
        ChannelState { senders: self.senders + 1, ..self }
    }

    /// The state after a sender handle was dropped; the last one releases
    /// every waiting receive.
    pub open spec fn without_sender(self) -> ChannelState<T, W> {
        if self.senders == 1 {
            ChannelState { senders: 0, wakers: Seq::empty(), ..self }
        } else {
            ChannelState { senders: (self.senders - 1) as nat, ..self }
        }
    }

    /// The wakers that dropping a sender hands back to be woken.
    pub open spec fn woken_by_sender_drop(self) -> Seq<W> {
        if self.senders == 1 {
            self.wakers
        } else {
            Seq::empty()
        }
    }

    /// The state after one more active receiver was made, in a new slot at
    /// the end, having seen the current version.
    pub open spec fn with_receiver(self) -> ChannelState<T, W> {
        ChannelState {
            seen: self.seen.push(Some(self.version as usize)),
            receivers: self.receivers + 1,
            ..self
        }
    }

    /// The state after the active receiver in `slot` was dropped.
    pub open spec fn without_receiver(self, slot: nat) -> ChannelState<T, W> {
        ChannelState {
            seen: self.seen.update(slot as int, None),
            receivers: (self.receivers - 1) as nat,
            ..self
        }
    }

    /// The state after one more inactive receiver handle was made.
    pub open spec fn with_inactive(self) -> ChannelState<T, W> {
        ChannelState { inactive: self.inactive + 1, ..self }
    }

    /// The state after an inactive receiver handle was dropped.
    pub open spec fn without_inactive(self) -> ChannelState<T, W> {
        ChannelState { inactive: (self.inactive - 1) as nat, ..self }
    }
}

/// The state that all handles of one channel share.
pub struct Shared<T, W> {
    value: Option<T>,
    seen: Vec<Option<usize>>,
    wakers: Vec<W>,
    sender: usize,
    receiver: usize,
    inactive: usize,
    id: usize,
}

impl<T, W> View for Shared<T, W> {
    type V = ChannelState<T, W>;

    closed spec fn view(&self) -> ChannelState<T, W> {
        ChannelState {
            value: self.value,
            seen: self.seen@,
            wakers: self.wakers@,
            senders: self.sender as nat,
            receivers: self.receiver as nat,
            inactive: self.inactive as nat,
            version: self.id as nat,
        }
    }
}

impl<T, W> Shared<T, W> {
    /// Every counter of the shared state, the number of waiting receives
    /// and of receiver slots, and the version fit in a word.
    pub proof fn lemma_fits_in_word(&self)
        ensures
            self@.senders <= usize::MAX,
            self@.receivers <= usize::MAX,
            self@.inactive <= usize::MAX,
            self@.wakers.len() <= usize::MAX,
            self@.seen.len() <= usize::MAX,
            self@.version <= usize::MAX,
            self@.wf(),
    {
        assert(self.wakers@.len() == self.wakers.len());
        assert(self.seen@.len() == self.seen.len());
    }

    /// The number of live sender handles.
    pub fn senders(&self) -> (n: usize)
        ensures
            n == self@.senders,
    {
        self.sender
    }

    /// The number of live active receiver handles.
    pub fn receivers(&self) -> (n: usize)
        ensures
            n == self@.receivers,
    {
        self.receiver
    }

    /// The number of live inactive receiver handles.
    pub fn inactive_receivers(&self) -> (n: usize)
        ensures
            n == self@.inactive,
    {
        self.inactive
    }

    /// Whether `rx` is a live receiver of this state.
    pub fn holds(&self, rx: &Receiver<T>) -> (held: bool)
        ensures
            held == self@.live(rx.slot()),
    {
        rx.slot < self.seen.len() && self.seen[rx.slot].is_some()
    }
}

/// A handle that publishes new values.
pub struct Sender<T> {
    marker: PhantomData<T>,
}

impl<T> Sender<T> {
    /// Whether a send would find the channel closed: see
    /// `ChannelState::sender_sees_closed`.
    pub fn is_closed<W>(&self, chan: &Shared<T, W>) -> (closed: bool)
        ensures
            closed == chan@.sender_sees_closed(),
    {
        chan.receiver == 0 && chan.inactive != 0
    }

    /// Sends `value`. Returns `Ok(None)` when no receiver is active (the
    /// value is dropped), else `Ok(Some(n))` where `n` is the number of
    /// waiting receives, whose wakers come back in the second component.
    pub fn send<W>(&self, chan: &mut Shared<T, W>, value: T) -> (r: (
        Result<Option<usize>, SendError<T>>,
        Vec<W>,
    ))
        ensures
            r.0 == Ok::<Option<usize>, SendError<T>>(old(chan)@.send_result()),
            r.1@ == old(chan)@.woken_by_send(),
            final(chan)@ == old(chan)@.after_send(value),
    {
        let is_closed = self.is_closed(chan);
        if chan.receiver == 0 {
            return (Ok(None), Vec::new());
        }
        if is_closed {
            return (Err(SendError(value)), Vec::new());
        }
        chan.value = Some(value);
        chan.id = chan.id.wrapping_add(1);
        let woken = chan.wakers.len();
        let mut wakers = Vec::new();
        std::mem::swap(&mut wakers, &mut chan.wakers);
        (Ok(Some(woken)), wakers)
    }

    /// Makes another sender of the same channel.
    pub fn duplicate<W>(&self, chan: &mut Shared<T, W>) -> (tx: Sender<T>)
        requires
            old(chan)@.senders < usize::MAX,
        ensures
            final(chan)@ == old(chan)@.with_sender(),
    {
        chan.sender = chan.sender + 1;
        Sender { marker: PhantomData }
    }

    /// Drops this sender. When it was the last one, every waiting receive
    /// is released and its waker handed back.
    pub fn release<W>(self, chan: &mut Shared<T, W>) -> (woken: Vec<W>)
        requires
            old(chan)@.senders > 0,
        ensures
            woken@ == old(chan)@.woken_by_sender_drop(),
            final(chan)@ == old(chan)@.without_sender(),
    {
        chan.sender = chan.sender - 1;
        let mut wakers = Vec::new();
        if chan.sender == 0 {
            std::mem::swap(&mut wakers, &mut chan.wakers);
        }
        wakers
    }
}

/// An active handle that follows the latest value; the version it has seen
/// is kept in the shared state, in the receiver's slot.
pub struct Receiver<T> {
    slot: usize,
    marker: PhantomData<T>,
}

impl<T> Receiver<T> {
    /// The slot of this receiver in the shared state.
    pub closed spec fn slot(&self) -> nat {
        self.slot as nat
    }

    fn new<W>(chan: &mut Shared<T, W>) -> (rx: Receiver<T>)
        requires
            old(chan)@.receivers < usize::MAX,
        ensures
            final(chan)@ == old(chan)@.with_receiver(),
            rx.slot() == old(chan)@.seen.len(),
    {
        let slot = chan.seen.len();
        chan.seen.push(Some(chan.id));
        chan.receiver = chan.receiver + 1;
        Receiver { slot, marker: PhantomData }
    }

    /// The version this receiver has seen last.
    pub fn seen<W>(&self, chan: &Shared<T, W>) -> (v: usize)
        requires
            chan@.live(self.slot()),
        ensures
            v == chan@.seen_by(self.slot()),
    {
        chan.seen[self.slot].unwrap()
    }

    /// Whether every sender is gone.
    pub fn is_closed<W>(&self, chan: &Shared<T, W>) -> (closed: bool)
        ensures
            closed == (chan@.senders == 0),
    {
        chan.sender == 0
    }

    /// A receive of the next version; see `RecvFuture::poll`. Making it
    /// changes nothing: the version the receiver has seen lives in the
    /// shared state.
    pub fn recv(&self) -> (fut: RecvFuture<'_, T>)
        ensures
            fut.receiver() == *self,
    {
        RecvFuture { rx: self }
    }

    /// Turns this receiver into an inactive one.
    pub fn deactivate<W>(self, chan: &mut Shared<T, W>) -> (rx: InactiveReceiver<T>)
        requires
            old(chan)@.live(self.slot()),
            old(chan)@.receivers > 0,
            old(chan)@.inactive < usize::MAX,
        ensures
            final(chan)@ == old(chan)@.with_inactive().without_receiver(self.slot()),
    {
        let rx = InactiveReceiver { marker: PhantomData };
        chan.inactive = chan.inactive + 1;
        self.release(chan);
        rx
    }

    /// Makes another active receiver, in a new slot, which has seen the
    /// current version.
    pub fn duplicate<W>(&self, chan: &mut Shared<T, W>) -> (rx: Receiver<T>)
        requires
            old(chan)@.receivers < usize::MAX,
        ensures
            final(chan)@ == old(chan)@.with_receiver(),
            rx.slot() == old(chan)@.seen.len(),
    {
        Self::new(chan)
    }

    /// Drops this receiver; its slot is given up.
    pub fn release<W>(self, chan: &mut Shared<T, W>)
        requires
            old(chan)@.live(self.slot()),
            old(chan)@.receivers > 0,
        ensures
            final(chan)@ == old(chan)@.without_receiver(self.slot()),
    {
        chan.seen.set(self.slot, None);
        chan.receiver = chan.receiver - 1;
    }
}

impl<T: Clone> Receiver<T> {
    /// A copy of the latest value, whether seen or not; the version the
    /// receiver has seen does not change.
    pub fn try_recv<W>(&self, chan: &Shared<T, W>) -> (value: Option<T>)
        ensures
            chan@.value is None ==> value is None,
            chan@.value is Some ==> value is Some && cloned(chan@.value->0, value->0),
    {
        chan.value.clone()
    }
}

/// A pending receive on a `Receiver`.
pub struct RecvFuture<'a, T> {
    rx: &'a Receiver<T>,
}

impl<'a, T> RecvFuture<'a, T> {
    /// The receiver that this receive reads for.
    pub closed spec fn receiver(&self) -> Receiver<T> {
        *self.rx
    }
}

impl<'a, T: Clone> RecvFuture<'a, T> {
    /// Polls the receive once: delivers a copy of the value when its
    /// version differs from the one the receiver has seen, and marks it
    /// seen; else reports `RecvError` when no sender is left; else
    /// registers `waker` and waits.
    pub fn poll<W>(&self, chan: &mut Shared<T, W>, waker: W) -> (r: Poll<Result<T, RecvError>>)
        requires
            old(chan)@.live(self.receiver().slot()),
        ensures
            ({
                let s = old(chan)@;
                let slot = self.receiver().slot();
                &&& final(chan)@ == s.after_poll(slot, waker)
                &&& match s.poll_step(slot) {
                    PollStep::Deliver(v) => r matches Poll::Ready(Ok(x)) && cloned(v, x),
                    PollStep::Closed => r == Poll::<Result<T, RecvError>>::Ready(Err(RecvError)),
                    PollStep::Wait => r is Pending,
                }
            }),
    {
        let slot = self.rx.slot;
        if let Some(value) = chan.value.clone() {
            if chan.seen[slot].unwrap() != chan.id {
                let id = chan.id;
                chan.seen.set(slot, Some(id));
                return Poll::Ready(Ok(value));
            }
        }
        if chan.sender == 0 {
            Poll::Ready(Err(RecvError))
        } else {
            chan.wakers.push(waker);
            Poll::Pending
        }
    }
}

/// A receiver handle that keeps the channel without following it.
pub struct InactiveReceiver<T> {
    marker: PhantomData<T>,
}

impl<T> InactiveReceiver<T> {
    /// Makes another inactive receiver of the same channel.
    pub fn duplicate<W>(&self, chan: &mut Shared<T, W>) -> (rx: InactiveReceiver<T>)
        requires
            old(chan)@.inactive < usize::MAX,
        ensures
            final(chan)@ == old(chan)@.with_inactive(),
    {
        chan.inactive = chan.inactive + 1;
        InactiveReceiver { marker: PhantomData }
    }

    /// Drops this inactive receiver.
    pub fn release<W>(self, chan: &mut Shared<T, W>)
        requires
            old(chan)@.inactive > 0,
        ensures
            final(chan)@ == old(chan)@.without_inactive(),
    {
        chan.inactive = chan.inactive - 1;
    }

    /// Turns this handle into an active receiver, in a new slot, which has
    /// seen the current version and so waits for the next one.
    pub fn activate<W>(self, chan: &mut Shared<T, W>) -> (rx: Receiver<T>)
        requires
            old(chan)@.inactive > 0,
            old(chan)@.receivers < usize::MAX,
        ensures
            final(chan)@ == old(chan)@.without_inactive().with_receiver(),
            rx.slot() == old(chan)@.seen.len(),
    {
        chan.inactive = chan.inactive - 1;
        Receiver::new(chan)
    }
}

/// Creates a channel: its shared state, one sender and one inactive receiver.
pub fn channel<T, W>() -> (r: (Shared<T, W>, Sender<T>, InactiveReceiver<T>))
    ensures
        r.0@ == (ChannelState::<T, W> {
            value: None,
            seen: Seq::empty(),
            wakers: Seq::empty(),
            senders: 1,
            receivers: 0,
            inactive: 1,
            version: 0,
        }),
{
    let chan = Shared {
        value: None,
        seen: Vec::new(),
        wakers: Vec::new(),
        sender: 1,
        receiver: 0,
        inactive: 1,
        id: 0,
    };
    (chan, Sender { marker: PhantomData }, InactiveReceiver { marker: PhantomData })
}

/// Sends while a receiver is active keep only the last value; receivers'
/// seen versions and the counters stay.
pub proof fn lemma_keeps_last_value<T, W>(s: ChannelState<T, W>, values: Seq<T>)
    requires
        s.receivers > 0,
        values.len() > 0,
    ensures
        s.after_sends(values).value == Some(values.last()),
        s.after_sends(values).seen == s.seen,
        s.after_sends(values).senders == s.senders,
        s.after_sends(values).receivers == s.receivers,
        s.after_sends(values).inactive == s.inactive,
    decreases values.len(),
{
    if values.len() > 1 {
        lemma_keeps_last_value(s, values.drop_last());
    } else {
        assert(values.drop_last().len() == 0);
        assert(s.after_sends(values.drop_last()) == s);
    }
}

/// A receiver that has seen the current version receives the next value
/// sent while it is active.
pub proof fn lemma_caught_up_receiver_gets_next_value<T, W>(
    s: ChannelState<T, W>,
    slot: nat,
    value: T,
)
    requires
        s.receivers > 0,
        s.seen_by(slot) == s.version,
    ensures
        s.after_send(value).poll_step(slot) == PollStep::Deliver(value),
{
}

/// After several sends, a receiver gets the last value sent, unless the
/// version counter has wrapped round to exactly the version it has seen.
pub proof fn lemma_receiver_gets_last_value<T, W>(
    s: ChannelState<T, W>,
    slot: nat,
    values: Seq<T>,
)
    requires
        s.receivers > 0,
        values.len() > 0,
        s.after_sends(values).version != s.seen_by(slot),
    ensures
        s.after_sends(values).poll_step(slot) == PollStep::Deliver(values.last()),
{
    lemma_keeps_last_value(s, values);
}

/// Each version is delivered to a receiver at most once: a delivery marks
/// it seen, and the receiver's next receive, without a send in between,
/// delivers nothing.
pub proof fn lemma_version_delivered_once<T, W>(s: ChannelState<T, W>, slot: nat, waker: W)
    requires
        s.wf(),
        s.live(slot),
        s.poll_step(slot) is Deliver,
    ensures
        s.after_poll(slot, waker).live(slot),
        s.after_poll(slot, waker).seen_by(slot) == s.version,
        !(s.after_poll(slot, waker).poll_step(slot) is Deliver),
{
}

/// A receive waits for a change: after a receiver has been given a value,
/// its next receive waits while a sender is left, and the next send
/// delivers the new value to it.
pub proof fn lemma_wait_for_change<T, W>(
    s: ChannelState<T, W>,
    slot: nat,
    waker: W,
    value: T,
)
    requires
        s.wf(),
        s.live(slot),
        s.receivers > 0,
        s.senders > 0,
        s.poll_step(slot) is Deliver,
    ensures
        ({
            let t = s.after_poll(slot, waker);
            &&& t.poll_step(slot) is Wait
            &&& t.after_poll(slot, waker).woken_by_send().contains(waker)
            &&& t.after_poll(slot, waker).after_send(value).poll_step(slot) == PollStep::Deliver(
                value,
            )
        }),
{
    let t = s.after_poll(slot, waker).after_poll(slot, waker);
    assert(t.wakers[t.wakers.len() - 1] == waker);
}

/// A receive by one receiver leaves every other receiver's seen version as
/// it was.
pub proof fn lemma_receive_keeps_others<T, W>(
    s: ChannelState<T, W>,
    slot: nat,
    other: nat,
    waker: W,
)
    requires
        s.live(slot),
        s.live(other),
        other != slot,
    ensures
        s.after_poll(slot, waker).live(other),
        s.after_poll(slot, waker).seen_by(other) == s.seen_by(other),
{
    let t = s.after_poll(slot, waker);
    assert(t.seen[other as int] == s.seen[other as int]);
}

/// A send while no receiver is active changes nothing and wakes nobody.
pub proof fn lemma_send_without_receiver_is_dropped<T, W>(s: ChannelState<T, W>, value: T)
    requires
        s.receivers == 0,
    ensures
        s.after_send(value) == s,
        s.send_result() is None,
        s.woken_by_send().len() == 0,
{
}

/// A receive ends in `RecvError` exactly when there is no unseen version
/// and every sender is gone.
pub proof fn lemma_recv_error_iff_nothing_new_and_closed<T, W>(s: ChannelState<T, W>, slot: nat)
    ensures
        s.poll_step(slot) is Closed <==> (!(s.value is Some && s.seen_by(slot) != s.version)
            && s.senders == 0),
{
}

/// Once a receive has ended in `RecvError`, polling again changes nothing
/// and ends in `RecvError` again.
pub proof fn lemma_closed_stays_closed<T, W>(s: ChannelState<T, W>, slot: nat, waker: W)
    requires
        s.poll_step(slot) is Closed,
    ensures
        s.after_poll(slot, waker) == s,
{
}

/// A newly activated or duplicated receiver has seen the current version:
/// it waits for the next send rather than receiving the current value.
pub proof fn lemma_new_receiver_waits_for_next<T, W>(s: ChannelState<T, W>)
    requires
        s.wf(),
        s.senders > 0,
    ensures
        s.with_receiver().live(s.seen.len()),
        s.with_receiver().poll_step(s.seen.len()) is Wait,
{
}

/// Making a handle and dropping it again restores the counters and wakes
/// nobody.
pub proof fn lemma_duplicate_release<T, W>(s: ChannelState<T, W>)
    requires
        s.senders > 0,
    ensures
        s.with_sender().without_sender() == s,
        s.with_sender().woken_by_sender_drop().len() == 0,
        s.with_receiver().without_receiver(s.seen.len()).receivers == s.receivers,
        s.with_inactive().without_inactive() == s,
{
}

/// What a send does, stated over the state before it: with no active
/// receiver it drops the value, reports nothing and wakes nobody; otherwise
/// it stores the value as a new version (different from the old one),
/// keeps what every receiver has seen, reports the number of waiting
/// receives and hands back exactly their wakers, leaving none registered.
/// A sender sees the channel closed exactly when no receiver is active and
/// an inactive one is left.
pub proof fn lemma_send_meaning<T, W>(s: ChannelState<T, W>, value: T)
    requires
        s.wf(),
    ensures
        s.receivers == 0 ==> {
            &&& s.send_result() is None
            &&& s.woken_by_send().len() == 0
            &&& s.after_send(value) == s
        },
        s.receivers > 0 ==> {
            &&& s.send_result() == Some(s.wakers.len() as usize)
            &&& s.woken_by_send() == s.wakers
            &&& s.woken_by_send().len() == s.wakers.len()
            &&& s.after_send(value).value == Some(value)
            &&& s.after_send(value).version != s.version
            &&& s.after_send(value).version == (if s.version < usize::MAX {
                s.version + 1
            } else {
                0
            })
            &&& s.after_send(value).seen == s.seen
            &&& s.after_send(value).wakers.len() == 0
            &&& s.after_send(value).senders == s.senders
            &&& s.after_send(value).receivers == s.receivers
            &&& s.after_send(value).inactive == s.inactive
        },
        s.sender_sees_closed() <==> (s.receivers == 0 && s.inactive > 0),
{
}

/// What a receive does, stated over the state before it: when a value is
/// stored whose version the receiver has not seen, it delivers that value
/// and marks the current version seen by this receiver only; otherwise it
/// fails and changes nothing when every sender is gone, else it registers
/// its waker at the end and waits. The value and version never change.
pub proof fn lemma_receive_meaning<T, W>(s: ChannelState<T, W>, slot: nat, waker: W)
    requires
        s.wf(),
        s.live(slot),
    ensures
        s.value is Some && s.seen_by(slot) != s.version ==> {
            &&& s.poll_step(slot) == PollStep::Deliver(s.value->0)
            &&& s.after_poll(slot, waker).seen_by(slot) == s.version
            &&& s.after_poll(slot, waker).live(slot)
            &&& s.after_poll(slot, waker).seen.len() == s.seen.len()
            &&& forall|i: int|
                0 <= i < s.seen.len() && i != slot ==> #[trigger] s.after_poll(
                    slot,
                    waker,
                ).seen[i] == s.seen[i]
            &&& s.after_poll(slot, waker).wakers == s.wakers
        },
        !(s.value is Some && s.seen_by(slot) != s.version) && s.senders == 0 ==> {
            &&& s.poll_step(slot) is Closed
            &&& s.after_poll(slot, waker) == s
        },
        !(s.value is Some && s.seen_by(slot) != s.version) && s.senders > 0 ==> {
            &&& s.poll_step(slot) is Wait
            &&& s.after_poll(slot, waker).wakers == s.wakers.push(waker)
            &&& s.after_poll(slot, waker).seen == s.seen
        },
        s.after_poll(slot, waker).value == s.value,
        s.after_poll(slot, waker).version == s.version,
        s.after_poll(slot, waker).senders == s.senders,
        s.after_poll(slot, waker).receivers == s.receivers,
        s.after_poll(slot, waker).inactive == s.inactive,
{
}

/// What the handle operations do, stated over the state before them: each
/// adds or removes one handle of its kind; a new receiver takes a new slot
/// at the end, having seen the current version; a dropped receiver gives
/// up just its slot; dropping the last sender hands back every registered
/// waker and leaves none, while dropping another sender hands back none.
pub proof fn lemma_handles_meaning<T, W>(s: ChannelState<T, W>, slot: nat)
    requires
        s.wf(),
    ensures
        s.with_sender().senders == s.senders + 1,
        s.with_sender().value == s.value && s.with_sender().version == s.version,
        s.with_sender().seen == s.seen && s.with_sender().wakers == s.wakers,
        s.with_sender().receivers == s.receivers && s.with_sender().inactive == s.inactive,
        s.senders > 0 ==> s.without_sender().senders == s.senders - 1,
        s.without_sender().value == s.value && s.without_sender().seen == s.seen,
        s.without_sender().receivers == s.receivers && s.without_sender().inactive == s.inactive,
        s.senders == 1 ==> s.woken_by_sender_drop() == s.wakers && s.without_sender().wakers.len()
            == 0,
        s.senders > 1 ==> s.woken_by_sender_drop().len() == 0 && s.without_sender().wakers
            == s.wakers,
        s.with_receiver().receivers == s.receivers + 1,
        s.with_receiver().seen.len() == s.seen.len() + 1,
        s.with_receiver().live(s.seen.len()),
        s.with_receiver().seen_by(s.seen.len()) == s.version,
        s.with_receiver().seen.drop_last() == s.seen,
        s.with_receiver().value == s.value && s.with_receiver().version == s.version,
        s.with_receiver().wakers == s.wakers && s.with_receiver().senders == s.senders,
        s.live(slot) ==> {
            &&& !s.without_receiver(slot).live(slot)
            &&& s.without_receiver(slot).seen.len() == s.seen.len()
            &&& forall|i: int|
                0 <= i < s.seen.len() && i != slot ==> #[trigger] s.without_receiver(slot).seen[i]
                    == s.seen[i]
        },
        s.receivers > 0 ==> s.without_receiver(slot).receivers == s.receivers - 1,
        s.without_receiver(slot).value == s.value && s.without_receiver(slot).wakers == s.wakers,
        s.without_receiver(slot).senders == s.senders,
        s.with_inactive().inactive == s.inactive + 1,
        s.with_inactive().receivers == s.receivers && s.with_inactive().seen == s.seen,
        s.inactive > 0 ==> s.without_inactive().inactive == s.inactive - 1,
        s.without_inactive().receivers == s.receivers && s.without_inactive().seen == s.seen,
{
    assert(s.with_receiver().seen.drop_last() =~= s.seen);
}

/// A receive that waits is woken when the last sender is dropped, and then
/// ends in `RecvError`.
pub proof fn lemma_waiting_receive_woken_by_last_sender<T, W>(
    s: ChannelState<T, W>,
    slot: nat,
    waker: W,
)
    requires
        s.senders == 1,
        s.poll_step(slot) is Wait,
    ensures
        s.after_poll(slot, waker).woken_by_sender_drop().contains(waker),
        s.after_poll(slot, waker).without_sender().poll_step(slot) is Closed,
{
    let t = s.after_poll(slot, waker);
    assert(t.wakers[t.wakers.len() - 1] == waker);
}

} // verus!
