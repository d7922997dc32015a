//! The readiness of an operation that the caller performs on behalf of the channel.

use vstd::prelude::*;

verus! {

/// What one non-blocking attempt at an operation gave.
#[derive(Clone, Copy, Debug, PartialEq, Eq)]
pub enum Poll<T> {
    /// The operation finished with this value.
    Ready(T),
    /// The operation cannot make progress now; the caller has arranged to be woken.
    Pending,
}

impl<T> Poll<T> {
    pub fn is_ready(&self) -> (ready: bool)
        ensures
            ready == (self is Ready),
    {
        match self {
            Poll::Ready(_) => true,
            Poll::Pending => false,
        }
    }

    pub fn is_pending(&self) -> (pending: bool)
        ensures
            pending == (self is Pending),
    {
        match self {
            Poll::Ready(_) => false,
            Poll::Pending => true,
        }
    }
}

} // verus!
