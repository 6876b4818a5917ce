//! Channels for single-threaded async runtimes, as verified state machines.
//!
//! Each channel kind keeps the state that all of its handles share in a
//! `Shared` value; the handles (`Sender`, `Receiver`, `InactiveReceiver`)
//! act on it through methods that take the shared state as an argument.
//! Waking a task is left to the caller: every operation that would wake
//! tasks hands the registered wakers back instead.
pub mod broadcast;
mod error;
pub mod mpmc;
pub mod mpsc;
pub mod oneshot;
pub mod task;
pub mod watch;

pub use error::{RecvError, SendError};
pub use task::Poll;
