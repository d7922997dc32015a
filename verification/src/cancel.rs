//! Cancellation handles and task wakers, as the executor's libraries provide them.

use futures::future::AbortHandle;
use futures::future::AbortRegistration;
use std::task::Waker;
use vstd::prelude::*;

verus! {

#[verifier::external_type_specification]
#[verifier::external_body]
pub struct ExAbortHandle(AbortHandle);

#[verifier::external_type_specification]
#[verifier::external_body]
pub struct ExAbortRegistration(AbortRegistration);

#[verifier::external_type_specification]
#[verifier::external_body]
pub struct ExWaker(Waker);

/// Calls `AbortHandle::new_pair`: a fresh handle and the registration that
/// observes it. Nothing is claimed of either.
#[verifier::external_body]
pub(crate) fn new_abort_pair() -> (pair: (AbortHandle, AbortRegistration)) {
    AbortHandle::new_pair()
}

/// Calls `AbortHandle::abort`, which marks the registration as aborted and
/// wakes the task that observes it. The effect is outside what a contract
/// can say. The call is taken not to unwind: it stores a flag and wakes a
/// task, and waking a task hands it to its executor without running it.
#[verifier::external_body]
pub(crate) fn abort(handle: &AbortHandle)
    opens_invariants none
    no_unwind
{
    handle.abort()
}

/// Calls `Waker::wake`, which schedules the task that the waker belongs to.
/// The effect is outside what a contract can say.
#[verifier::external_body]
pub(crate) fn wake(waker: Waker) {
    waker.wake()
}

/// Calls `Waker::clone`. Nothing is claimed of the copy.
#[verifier::external_body]
pub(crate) fn clone_waker(waker: &Waker) -> (copy: Waker) {
    waker.clone()
}

/// The registry's side of the cancellation of one handler. It cancels the
/// handler when it is told to, and when it goes away without having been
/// released.
pub(crate) struct CancelHandle {
    handle: AbortHandle,
    armed: bool,
}

impl CancelHandle {
    /// The handle cancels the handler when it goes away.
    pub(crate) closed spec fn is_armed(&self) -> bool {
        self.armed
    }

    /// A fresh handle, armed, and the registration under which the handler runs.
    pub(crate) fn new_pair() -> (pair: (CancelHandle, AbortRegistration))
        ensures
            pair.0.is_armed(),
    {
        let (handle, registration) = new_abort_pair();
        (CancelHandle { handle, armed: true }, registration)
    }

    /// Cancels the handler.
    pub(crate) fn cancel(self) {
        let mut this = self;
        abort(&this.handle);
        this.armed = false;
    }

    /// Lets the handler be: it has completed.
    pub(crate) fn release(self) {
        let mut this = self;
        this.armed = false;
    }
}

impl Drop for CancelHandle {
    fn drop(&mut self)
        opens_invariants none
        no_unwind
    {
        if self.armed {
            abort(&self.handle);
        }
    }
}

} // verus!
