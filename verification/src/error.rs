use vstd::prelude::*;

verus! {

/// The error of a send that could not be delivered; it hands the value back.
#[derive(Debug)]
pub struct SendError<T>(pub T);

impl<T> SendError<T> {
    /// The text shown for this error.
    pub fn message(&self) -> (m: &'static str)
        ensures
            m@ == "channel closed"@,
    {
        "channel closed"
    }

    /// Gives back the value that could not be sent.
    pub fn into_inner(self) -> (value: T)
        ensures
            value == self.0,
    {
        self.0
    }
}

/// The error of a receive on a channel that no sender can write to any more.
#[derive(Debug, PartialEq, Eq, Structural)]
pub struct RecvError;

impl RecvError {
    /// The text shown for this error.
    pub fn message(&self) -> (m: &'static str)
        ensures
            m@ == "channel closed"@,
    {
        "channel closed"
    }
}

} // verus!
