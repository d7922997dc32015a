//! A cap on the number of requests that are in flight on one channel.

use crate::cancel::clone_waker;
use crate::cancel::wake;
use crate::channel::Channel;
use crate::channel::Config;
use crate::in_flight_requests::AlreadyExistsError;
use crate::message::Response;
use crate::poll::Poll;
use crate::queue::max_capacity;
use crate::requests::Requests;
use futures::future::AbortRegistration;
use std::task::Waker;
use vstd::prelude::*;

verus! {

/// A channel that yields no new request while as many requests are in flight
/// as its limit allows. It starts to yield again when a response departs.
pub struct Throttler<C> {
    max_in_flight_requests: usize,
    inner: C,
    waker: Option<Waker>,
}

impl<C: Channel> Throttler<C> {
    /// The channel that is throttled.
    pub closed spec fn inner(&self) -> C {
        self.inner
    }

    /// The number of requests that may be in flight at once.
    pub closed spec fn limit(&self) -> usize {
        self.max_in_flight_requests
    }

    /// A task waits for a response to depart.
    pub closed spec fn has_waker(&self) -> bool {
        self.waker is Some
    }

    /// Whether as many requests are in flight as the limit allows.
    pub open spec fn is_full(&self) -> bool {
        self.inner().in_flight().len() >= self.limit()
    }

    /// Returns a channel that yields requests of `inner` while fewer than
    /// `max_in_flight_requests` are in flight.
    pub fn new(inner: C, max_in_flight_requests: usize) -> (throttler: Self)
        ensures
            throttler.inner() == inner,
            throttler.limit() == max_in_flight_requests,
            !throttler.has_waker(),
    {
        Throttler { max_in_flight_requests, inner, waker: None }
    }

    /// Returns the inner channel.
    pub fn get_ref(&self) -> (inner: &C)
        ensures
            *inner == self.inner(),
    {
        &self.inner
    }

    /// Returns the inner channel.
    pub fn get_mut(&mut self) -> (inner: &mut C)
        ensures
            *inner == old(self).inner(),
            final(self).inner() == *final(inner),
            final(self).limit() == old(self).limit(),
            final(self).has_waker() == old(self).has_waker(),
    {
        &mut self.inner
    }

    /// Decides whether the inner channel may be polled for a request. At the
    /// limit it may not: `waker` is recorded, to be woken when a response
    /// departs, and the poll is pending.
    pub fn poll_next(&mut self, waker: &Waker) -> (admitted: Poll<()>)
        requires
            old(self).wf(),
        ensures
            final(self).wf(),
            final(self).inner() == old(self).inner(),
            final(self).limit() == old(self).limit(),
            admitted == (if old(self).is_full() {
                Poll::<()>::Pending
            } else {
                Poll::Ready(())
            }),
            final(self).has_waker() == (old(self).has_waker() || old(self).is_full()),
    {
        if self.inner.in_flight_requests() >= self.max_in_flight_requests {
            self.waker = Some(clone_waker(waker));
            Poll::Pending
        } else {
            Poll::Ready(())
        }
    }
}

impl<C: Channel> Channel for Throttler<C> {
    type Req = C::Req;

    type Resp = C::Resp;

    open spec fn wf(&self) -> bool {
        self.inner().wf()
    }

    open spec fn in_flight(&self) -> Map<u64, u64> {
        self.inner().in_flight()
    }

    open spec fn configuration(&self) -> Config {
        self.inner().configuration()
    }

    fn config(&self) -> (config: &Config) {
        self.inner.config()
    }

    fn in_flight_requests(&self) -> (n: usize) {
        self.inner.in_flight_requests()
    }

    fn start_request(&mut self, id: u64, deadline: u64) -> (result: Result<
        AbortRegistration,
        AlreadyExistsError,
    >)
        ensures
            final(self).limit() == old(self).limit(),
            final(self).has_waker() == old(self).has_waker(),
    {
        self.inner.start_request(id, deadline)
    }

    /// A departing response makes room for a request: a task that waits for
    /// room is woken, and no longer waits.
    fn start_send(&mut self, response: Response<C::Resp>) -> (forward: Response<C::Resp>)
        ensures
            final(self).limit() == old(self).limit(),
            !final(self).has_waker(),
    {
        let forward = self.inner.start_send(response);
        match self.waker.take() {
            Some(waker) => wake(waker),
            None => {},
        }
        forward
    }
}

impl<C: Channel> Throttler<C> {
    /// Returns the pump of this channel: the stream of its requests, each
    /// with what its handler needs, and the way back for the responses,
    /// through a queue of the capacity that the channel is configured with.
    pub fn requests(self) -> (requests: Requests<Self>)
        requires
            self.wf(),
            0 < self.configuration().pending_response_buffer <= max_capacity(),
        ensures
            requests.inner() == self,
    {
        Requests::new(self)
    }
}

} // verus!
