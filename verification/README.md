# async_local_channel

Channels for single-threaded async runtimes (oneshot, mpsc, mpmc,
broadcast, watch), written as verified state machines.

- `src/` is the verified library. For each channel kind, `Shared` holds the
  state that all handles of one channel share, with a mathematical view
  (`ChannelState`); `Sender`, `Receiver`, `InactiveReceiver` and
  `RecvFuture` act on it through methods whose contracts are stated over
  that view. Per-receiver read state (a broadcast receiver's position, a
  watch receiver's seen version) lives in the shared state, in the
  receiver's slot, so that successive receives chain. Operations that wake
  tasks hand the registered wakers back to the caller. Each module ends with the proved properties of the channel
  (delivery order, what a refused send does, when a receive fails, which
  waits a send releases).
- `app/` wraps the state machines in the usual async API: handles that
  share the state through `Rc<RefCell<..>>`, implement `Clone`, `Drop` and
  `Future`, and wake what the library hands back.
- `tests/` runs the channels step by step, polling receives by hand.
