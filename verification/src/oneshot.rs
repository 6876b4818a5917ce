//! A oneshot channel: one sender delivers at most one value to one receiver.
use crate::error::{RecvError, SendError};
use crate::task::Poll;
use std::marker::PhantomData;
use vstd::prelude::*;

verus! {

/// What the two handles of one channel share, seen as mathematical values.
pub struct ChannelState<T, W> {
    /// The value sent and not yet taken.
    pub value: Option<T>,
    /// The waker of a receive that waits for the value.
    pub waker: Option<W>,
    /// Whether the receiver has ever been activated.
    pub activated: bool,
    /// The handles that keep the state alive: the sender and the receiving
    /// side (active or inactive).
    pub handles: nat,
}

impl<T, W> ChannelState<T, W> {
    /// Whether only one handle is left, the one asking.
    pub open spec fn is_closed(self) -> bool {
        self.handles == 1
    }

    /// What `send` of `value` reports: nothing when the receiver was never
    /// activated; the value back when the receiving side is gone; else
    /// whether a waiting receive is woken (`1`) or not (`0`).
    pub open spec fn send_result(self, value: T) -> Result<Option<usize>, SendError<T>> {
        if !self.activated {
            Ok(None)
        } else if self.is_closed() {
            Err(SendError(value))
        } else if self.waker is Some {
            Ok(Some(1))
        } else {
            Ok(Some(0))
        }
    }

    /// The state after `send`, which also drops the sender: the value is
    /// stored only when it was delivered, any waiting receive is released,
    /// and one handle fewer is left.
    pub open spec fn after_send(self, value: T) -> ChannelState<T, W> {
        ChannelState {
            value: if self.activated && !self.is_closed() {
                Some(value)
            } else {
                self.value
            },
            waker: None,
            handles: (self.handles - 1) as nat,
            ..self
        }
    }

    /// The state after the receiving side dropped its handle.
    pub open spec fn without_handle(self) -> ChannelState<T, W> {
        ChannelState { handles: (self.handles - 1) as nat, ..self }
    }

    /// The state after the sender was dropped without sending: a waiting
    /// receive is released.
    pub open spec fn after_sender_drop(self) -> ChannelState<T, W> {
        ChannelState { waker: None, handles: (self.handles - 1) as nat, ..self }
    }

    /// The state after the value, if any, has been taken.
    pub open spec fn after_take(self) -> ChannelState<T, W> {
        ChannelState { value: None, ..self }
    }

    /// What a poll of the receive gives: the value; an error once the
    /// sender is gone without a value; else a wait.
    pub open spec fn poll_result(self) -> Poll<Result<T, RecvError>> {
        match self.value {
            Some(v) => Poll::Ready(Ok(v)),
            None => if self.is_closed() {
                Poll::Ready(Err(RecvError))
            } else {
                Poll::Pending
            },
        }
    }

    /// The state after a poll that registers `waker` when it has to wait.
    pub open spec fn after_poll(self, waker: W) -> ChannelState<T, W> {
        if self.value is Some {
            self.after_take()
        } else if self.is_closed() {
            self
        } else {
            ChannelState { waker: Some(waker), ..self }
        }
    }
}

/// The state that the two handles of one channel share.
pub struct Shared<T, W> {
    value: Option<T>,
    waker: Option<W>,
    receiver: bool,
    handles: usize,
}

impl<T, W> View for Shared<T, W> {
    type V = ChannelState<T, W>;

    closed spec fn view(&self) -> ChannelState<T, W> {
        ChannelState {
            value: self.value,
            waker: self.waker,
            activated: self.receiver,
            handles: self.handles as nat,
        }
    }
}

impl<T, W> Shared<T, W> {
    /// No value is kept before the receiver is activated.
    #[verifier::type_invariant]
    closed spec fn empty_until_activated(&self) -> bool {
        !self.receiver ==> self.value is None
    }

    /// The handle count fits in a word.
    pub proof fn lemma_fits_in_word(&self)
        ensures
            self@.handles <= usize::MAX,
    {
    }

    /// The number of live handles.
    pub fn handles(&self) -> (n: usize)
        ensures
            n == self@.handles,
            !self@.activated ==> self@.value is None,
    {
        proof {
            use_type_invariant(self);
        }
        self.handles
    }
}

/// The handle that sends the value.
pub struct Sender<T> {
    marker: PhantomData<T>,
}

impl<T> Sender<T> {
    /// Whether the receiving side is gone.
    pub fn is_closed<W>(&self, chan: &Shared<T, W>) -> (closed: bool)
        ensures
            closed == chan@.is_closed(),
    {
        chan.handles == 1
    }

    /// Sends `value`, which uses up the sender. The waker of a waiting
    /// receive, if any, comes back in the second component.
    pub fn send<W>(self, chan: &mut Shared<T, W>, value: T) -> (r: (
        Result<Option<usize>, SendError<T>>,
        Option<W>,
    ))
        requires
            old(chan)@.handles > 0,
        ensures
            r.0 == old(chan)@.send_result(value),
            r.1 == old(chan)@.waker,
            final(chan)@ == old(chan)@.after_send(value),
            !old(chan)@.activated ==> final(chan)@.value is None,
    {
        proof {
            use_type_invariant(&*chan);
        }
        let is_closed = self.is_closed(chan);
        let result = if !chan.receiver {
            Ok(None)
        } else if is_closed {
            Err(SendError(value))
        } else {
            chan.value = Some(value);
            if chan.waker.is_some() {
                Ok(Some(1))
            } else {
                Ok(Some(0))
            }
        };
        let woken = self.release(chan);
        (result, woken)
    }

    /// Drops the sender without sending; the waker of a waiting receive,
    /// if any, comes back.
    pub fn release<W>(self, chan: &mut Shared<T, W>) -> (woken: Option<W>)
        requires
            old(chan)@.handles > 0,
        ensures
            woken == old(chan)@.waker,
            final(chan)@ == old(chan)@.after_sender_drop(),
    {
        proof {
            use_type_invariant(&*chan);
        }
        chan.handles = chan.handles - 1;
        let mut woken = None;
        std::mem::swap(&mut woken, &mut chan.waker);
        woken
    }
}

/// The active receiving handle.
pub struct Receiver<T> {
    marker: PhantomData<T>,
}

impl<T> Receiver<T> {
    /// Whether the sender is gone.
    pub fn is_closed<W>(&self, chan: &Shared<T, W>) -> (closed: bool)
        ensures
            closed == chan@.is_closed(),
    {
        chan.handles == 1
    }

    /// A receive of the value; see `RecvFuture::poll`.
    pub fn recv(&self) -> (fut: RecvFuture<'_, T>)
        ensures
            fut.receiver() == *self,
    {
        RecvFuture { rx: self }
    }

    /// Takes the value, if it has been sent and not yet taken.
    pub fn try_recv<W>(&self, chan: &mut Shared<T, W>) -> (value: Option<T>)
        ensures
            value == old(chan)@.value,
            final(chan)@ == old(chan)@.after_take(),
    {
        proof {
            use_type_invariant(&*chan);
        }
        let mut value = None;
        std::mem::swap(&mut value, &mut chan.value);
        value
    }

    /// Turns this receiver back into an inactive handle. The channel keeps
    /// counting the receiver as activated.
    pub fn deactivate(self) -> (rx: InactiveReceiver<T>) {
        InactiveReceiver { marker: PhantomData }
    }

    /// Drops this receiver.
    pub fn release<W>(self, chan: &mut Shared<T, W>)
        requires
            old(chan)@.handles > 0,
        ensures
            final(chan)@ == old(chan)@.without_handle(),
    {
        proof {
            use_type_invariant(&*chan);
        }
        chan.handles = chan.handles - 1;
    }
}

/// A pending receive on a `Receiver`.
pub struct RecvFuture<'a, T> {
    rx: &'a Receiver<T>,
}

impl<'a, T> RecvFuture<'a, T> {
    /// The receiver that this receive reads through.
    pub closed spec fn receiver(&self) -> Receiver<T> {
        *self.rx
    }

    /// Polls the receive once: takes the value if it is there; reports
    /// `RecvError` when the sender is gone; else registers `waker` in place
    /// of any earlier one and waits.
    pub fn poll<W>(&self, chan: &mut Shared<T, W>, waker: W) -> (r: Poll<Result<T, RecvError>>)
        ensures
            r == old(chan)@.poll_result(),
            final(chan)@ == old(chan)@.after_poll(waker),
    {
        proof {
            use_type_invariant(&*chan);
        }
        let mut taken = None;
        std::mem::swap(&mut taken, &mut chan.value);
        if let Some(value) = taken {
            Poll::Ready(Ok(value))
        } else {
            if chan.handles == 1 {
                Poll::Ready(Err(RecvError))
            } else {
                chan.waker = Some(waker);
                Poll::Pending
            }
        }
    }
}

/// The receiving handle before activation: a value sent to it is dropped.
pub struct InactiveReceiver<T> {
    marker: PhantomData<T>,
}

impl<T> InactiveReceiver<T> {
    /// Activates the receiving side, so that a value sent from then on is
    /// kept for it.
    pub fn activate<W>(self, chan: &mut Shared<T, W>) -> (rx: Receiver<T>)
        ensures
            final(chan)@ == (ChannelState { activated: true, ..old(chan)@ }),
    {
        chan.receiver = true;
        Receiver { marker: PhantomData }
    }

    /// Drops this inactive handle.
    pub fn release<W>(self, chan: &mut Shared<T, W>)
        requires
            old(chan)@.handles > 0,
        ensures
            final(chan)@ == old(chan)@.without_handle(),
    {
        proof {
            use_type_invariant(&*chan);
        }
        chan.handles = chan.handles - 1;
    }
}

/// Creates a channel: its shared state, the sender and the inactive receiver.
pub fn channel<T, W>() -> (r: (Shared<T, W>, Sender<T>, InactiveReceiver<T>))
    ensures
        r.0@ == (ChannelState::<T, W> { value: None, waker: None, activated: false, handles: 2 }),
{
    let chan = Shared { value: None, waker: None, receiver: false, handles: 2 };
    (chan, Sender { marker: PhantomData }, InactiveReceiver { marker: PhantomData })
}

/// A value sent to an activated receiver that is still there is what the
/// receiver then receives.
pub proof fn lemma_send_then_receive<T, W>(s: ChannelState<T, W>, value: T)
    requires
        s.activated,
        s.handles == 2,
        s.value is None,
    ensures
        s.send_result(value) matches Ok(Some(n)) && n <= 1,
        s.after_send(value).poll_result() == Poll::<Result<T, RecvError>>::Ready(Ok(value)),
{
}

/// A receive that waits is woken by the send, which reports one woken
/// receive, and then receives the value.
pub proof fn lemma_waiting_receive_woken_by_send<T, W>(s: ChannelState<T, W>, waker: W, value: T)
    requires
        s.activated,
        s.handles == 2,
        s.value is None,
    ensures
        s.poll_result() is Pending,
        s.after_poll(waker).waker == Some(waker),
        s.after_poll(waker).send_result(value) == Ok::<Option<usize>, SendError<T>>(Some(1)),
        s.after_poll(waker).after_send(value).poll_result() == Poll::<Result<T, RecvError>>::Ready(
            Ok(value),
        ),
{
}

/// When the sender is dropped without sending, the receiver's waiting
/// receive is woken and ends in `RecvError`.
pub proof fn lemma_sender_dropped_unsent<T, W>(s: ChannelState<T, W>)
    requires
        s.handles == 2,
        s.value is None,
    ensures
        s.after_sender_drop().poll_result() == Poll::<Result<T, RecvError>>::Ready(Err(RecvError)),
{
}

/// A value sent before the receiver was ever activated is dropped.
pub proof fn lemma_send_before_activation_is_dropped<T, W>(s: ChannelState<T, W>, value: T)
    requires
        !s.activated,
    ensures
        s.send_result(value) == Ok::<Option<usize>, SendError<T>>(None),
        s.after_send(value).value == s.value,
        s.value is None ==> s.after_send(value).value is None,
{
}

/// A value sent after the receiving side is gone comes back in the error.
pub proof fn lemma_send_after_receiver_gone<T, W>(s: ChannelState<T, W>, value: T)
    requires
        s.activated,
        s.handles == 1,
    ensures
        s.send_result(value) == Err::<Option<usize>, SendError<T>>(SendError(value)),
        s.after_send(value).value == s.value,
{
}

/// Once a receive has ended in `RecvError`, polling again changes nothing
/// and ends in `RecvError` again.
pub proof fn lemma_closed_stays_closed<T, W>(s: ChannelState<T, W>, waker: W)
    requires
        s.poll_result() == Poll::<Result<T, RecvError>>::Ready(Err(RecvError)),
    ensures
        s.after_poll(waker) == s,
{
}

/// What a send does, stated over the state before it. It always uses up
/// the sender: one handle fewer is left and any waiting receive is
/// released. The value is stored only when the receiver has been activated
/// and the receiving side is still there; then the send reports whether a
/// waiting receive was woken (`1`) or not (`0`). Before activation it
/// reports nothing; after the receiving side is gone it gives the value
/// back; in both cases the stored value stays as it was.
pub proof fn lemma_send_meaning<T, W>(s: ChannelState<T, W>, value: T)
    requires
        s.handles > 0,
    ensures
        s.after_send(value).handles == s.handles - 1,
        s.after_send(value).waker is None,
        s.after_send(value).activated == s.activated,
        !s.activated ==> {
            &&& s.send_result(value) == Ok::<Option<usize>, SendError<T>>(None)
            &&& s.after_send(value).value == s.value
        },
        s.activated && s.handles == 1 ==> {
            &&& s.send_result(value) == Err::<Option<usize>, SendError<T>>(SendError(value))
            &&& s.after_send(value).value == s.value
        },
        s.activated && s.handles != 1 ==> {
            &&& s.after_send(value).value == Some(value)
            &&& s.waker is Some ==> s.send_result(value) == Ok::<Option<usize>, SendError<T>>(
                Some(1),
            )
            &&& s.waker is None ==> s.send_result(value) == Ok::<Option<usize>, SendError<T>>(
                Some(0),
            )
        },
{
}

/// A delivered send leaves the receiver alone on the channel: it takes the
/// value, then sees the channel closed and its next receive ends in
/// `RecvError`.
pub proof fn lemma_delivered_send_closes<T, W>(s: ChannelState<T, W>, value: T, waker: W)
    requires
        s.activated,
        s.handles == 2,
        s.value is None,
    ensures
        ({
            let t = s.after_send(value);
            &&& t.handles == 1
            &&& t.poll_result() == Poll::<Result<T, RecvError>>::Ready(Ok(value))
            &&& t.after_poll(waker).is_closed()
            &&& t.after_poll(waker).poll_result() == Poll::<Result<T, RecvError>>::Ready(
                Err(RecvError),
            )
        }),
{
}

/// What a receive does, stated over the state before it: with a value
/// stored it delivers it and leaves the slot empty; with none it fails and
/// changes nothing when only one handle is left, else it registers its
/// waker in place of any earlier one and waits. `try_recv` takes the value
/// in the same way.
pub proof fn lemma_receive_meaning<T, W>(s: ChannelState<T, W>, waker: W)
    ensures
        s.value is Some ==> {
            &&& s.poll_result() == Poll::<Result<T, RecvError>>::Ready(Ok(s.value->0))
            &&& s.after_poll(waker).value is None
            &&& s.after_poll(waker).waker == s.waker
        },
        s.value is None && s.handles == 1 ==> {
            &&& s.poll_result() == Poll::<Result<T, RecvError>>::Ready(Err(RecvError))
            &&& s.after_poll(waker) == s
        },
        s.value is None && s.handles != 1 ==> {
            &&& s.poll_result() is Pending
            &&& s.after_poll(waker).waker == Some(waker)
            &&& s.after_poll(waker).value is None
        },
        s.after_poll(waker).handles == s.handles,
        s.after_poll(waker).activated == s.activated,
        s.after_take().value is None,
        s.after_take().waker == s.waker,
        s.after_take().handles == s.handles,
        s.after_take().activated == s.activated,
        s.is_closed() <==> s.handles == 1,
{
}

/// What dropping a handle does, stated over the state before it: one
/// handle fewer is left; dropping the sender also releases a waiting
/// receive; the value and the activation stay.
pub proof fn lemma_handles_meaning<T, W>(s: ChannelState<T, W>)
    requires
        s.handles > 0,
    ensures
        s.after_sender_drop().handles == s.handles - 1,
        s.after_sender_drop().waker is None,
        s.after_sender_drop().value == s.value,
        s.after_sender_drop().activated == s.activated,
        s.without_handle().handles == s.handles - 1,
        s.without_handle().waker == s.waker,
        s.without_handle().value == s.value,
        s.without_handle().activated == s.activated,
{
}

} // verus!
