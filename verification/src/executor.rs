//! What a task does with what it polled from the stream that it drives.

use crate::poll::Poll;
use vstd::prelude::*;

verus! {

/// What the driver of a stream does next.
#[derive(Debug, PartialEq, Eq)]
pub enum Drive<T, E> {
    /// Spawn a task for this item and poll the stream again.
    Spawn(T),
    /// Nothing to do until the stream wakes the task.
    Wait,
    /// The stream has ended, or failed with this error: the task is done.
    Finish(Option<E>),
}

/// What the task that drives a server does with what it polled from the
/// stream of incoming channels.
pub open spec fn server_drive<C>(polled: Poll<Option<C>>) -> Drive<C, ()> {
    match polled {
        Poll::Ready(Some(channel)) => Drive::Spawn(channel),
        Poll::Ready(None) => Drive::Finish(None),
        Poll::Pending => Drive::Wait,
    }
}

/// What the task that drives a channel does with what it polled from the
/// stream of its requests.
pub open spec fn channel_drive<H, E>(polled: Poll<Option<Result<H, E>>>) -> Drive<H, E> {
    match polled {
        Poll::Ready(Some(Ok(handler))) => Drive::Spawn(handler),
        Poll::Ready(Some(Err(e))) => Drive::Finish(Some(e)),
        Poll::Ready(None) => Drive::Finish(None),
        Poll::Pending => Drive::Wait,
    }
}

/// Decides what the task that drives a server does next: every channel that
/// comes in is served by a task of its own, until no more come.
pub fn drive_server<C>(polled: Poll<Option<C>>) -> (next: Drive<C, ()>)
    ensures
        next == server_drive(polled),
{
    match polled {
        Poll::Ready(Some(channel)) => Drive::Spawn(channel),
        Poll::Ready(None) => Drive::Finish(None),
        Poll::Pending => Drive::Wait,
    }
}

/// Decides what the task that drives a channel does next: every request is
/// handled by a task of its own, until the channel ends. An error of the
/// channel ends its task, and no other.
pub fn drive_channel<H, E>(polled: Poll<Option<Result<H, E>>>) -> (next: Drive<H, E>)
    ensures
        next == channel_drive(polled),
{
    match polled {
        Poll::Ready(Some(Ok(handler))) => Drive::Spawn(handler),
        Poll::Ready(Some(Err(e))) => Drive::Finish(Some(e)),
        Poll::Ready(None) => Drive::Finish(None),
        Poll::Pending => Drive::Wait,
    }
}

} // verus!
