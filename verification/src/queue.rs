//! The bounded queue through which request handlers hand their responses to
//! the task that writes them to the transport.

use tokio::sync::mpsc::Receiver;
use tokio::sync::mpsc::Sender;
use vstd::prelude::*;

verus! {

#[verifier::external_type_specification]
#[verifier::external_body]
#[verifier::reject_recursive_types(T)]
pub struct ExSender<T>(Sender<T>);

#[verifier::external_type_specification]
#[verifier::external_body]
#[verifier::reject_recursive_types(T)]
pub struct ExReceiver<T>(Receiver<T>);

/// The largest capacity that a queue can be made with.
pub open spec fn max_capacity() -> usize {
    usize::MAX / 8
}

/// Calls `tokio::sync::mpsc::channel`, which panics on a capacity of zero and
/// on one above the number of permits that a semaphore can hold; `requires`
/// leaves both out. Nothing is claimed of the two ends.
#[verifier::external_body]
pub(crate) fn bounded<T>(capacity: usize) -> (ends: (Sender<T>, Receiver<T>))
    requires
        0 < capacity <= max_capacity(),
{
    tokio::sync::mpsc::channel(capacity)
}

/// Calls `Sender::clone`: one more sending end of the same queue. Nothing is
/// claimed of it.
#[verifier::external_body]
pub(crate) fn clone_sender<T>(sender: &Sender<T>) -> (copy: Sender<T>) {
    sender.clone()
}

} // verus!
