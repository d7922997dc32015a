//! The server end of one connection: what it tracks and what it decides while
//! the caller moves messages to and from the transport.

use crate::deadline_queue::precedes;
use crate::in_flight_requests::started;
use crate::in_flight_requests::AlreadyExistsError;
use crate::in_flight_requests::InFlightRequests;
use crate::message::ClientMessage;
use crate::message::Request;
use crate::message::Response;
use crate::message::TraceContext;
use crate::poll::Poll;
use crate::queue::max_capacity;
use crate::requests::Requests;
use crate::throttle::Throttler;
use futures::future::AbortRegistration;
use std::marker::PhantomData;
use std::task::Waker;
use vstd::prelude::*;

verus! {

/// Settings that control the behavior of a channel.
#[derive(Clone, Copy, Debug, PartialEq, Eq)]
pub struct Config {
    /// The number of responses that can wait in the outbound queue of a
    /// channel before its request handlers begin blocking.
    pub pending_response_buffer: usize,
}

impl Default for Config {
    fn default() -> (config: Self)
        ensures
            config.pending_response_buffer == 100,
    {
        Config { pending_response_buffer: 100 }
    }
}

impl Config {
    /// A channel configured with `self`, with no request in flight.
    pub fn channel<Req, Resp>(self) -> (channel: BaseChannel<Req, Resp>)
        ensures
            channel.wf(),
            channel@ == Map::<u64, u64>::empty(),
            channel.configuration() == self,
    {
        BaseChannel::new(self)
    }
}

/// The server end of an open connection with a client: the requests in flight
/// on it and its settings.
pub trait Channel: Sized {
    /// Type of request message.
    type Req;

    /// Type of response message.
    type Resp;

    /// The channel's bookkeeping is consistent.
    spec fn wf(&self) -> bool;

    /// The deadline of each request in flight, keyed by request id.
    spec fn in_flight(&self) -> Map<u64, u64>;

    /// The settings that the channel was made with.
    spec fn configuration(&self) -> Config;

    /// Configuration of the channel.
    fn config(&self) -> (config: &Config)
        ensures
            *config == self.configuration(),
    ;

    /// Returns the number of in-flight requests over this channel.
    fn in_flight_requests(&self) -> (n: usize)
        requires
            self.wf(),
        ensures
            n == self.in_flight().len(),
    ;

    /// Tells the channel that the request with this id is being handled. The
    /// request is tracked until a response with the same id is sent, the
    /// client cancels it or its deadline passes. Fails, and changes nothing,
    /// if a request with this id is in flight already.
    fn start_request(&mut self, id: u64, deadline: u64) -> (result: Result<
        AbortRegistration,
        AlreadyExistsError,
    >)
        requires
            old(self).wf(),
        ensures
            final(self).wf(),
            final(self).configuration() == old(self).configuration(),
            result is Err <==> old(self).in_flight().contains_key(id),
            final(self).in_flight() == started(old(self).in_flight(), id, deadline),
    ;

    /// Takes a response on its way to the transport: the request that it
    /// answers is no longer in flight when the response is handed back.
    fn start_send(&mut self, response: Response<Self::Resp>) -> (forward: Response<Self::Resp>)
        requires
            old(self).wf(),
        ensures
            final(self).wf(),
            final(self).configuration() == old(self).configuration(),
            forward == response,
            final(self).in_flight() == old(self).in_flight().remove(response.request_id),
    ;
}

/// What a channel made of one poll of its transport.
#[derive(Debug, PartialEq, Eq)]
pub enum ReadStep<Req, E> {
    /// The poll of the channel ends with this outcome.
    Yield(Poll<Option<Result<Request<Req>, E>>>),
    /// The client cancelled a request. The channel has dealt with it and the
    /// transport is to be polled again.
    Canceled {
        trace_context: TraceContext,
        request_id: u64,
        /// Whether the request was in flight, and its handler cancelled.
        canceled: bool,
        /// The number of requests that remain in flight.
        in_flight: usize,
    },
}

/// The entries of `m` whose deadline `now` has not reached.
pub open spec fn unexpired(m: Map<u64, u64>, now: u64) -> Map<u64, u64> {
    Map::new(|id: u64| m.contains_key(id) && m[id] > now, |id: u64| m[id])
}

/// `ids` lists the entries of `m` whose deadline `now` has reached, each once,
/// in the order in which they expire.
pub open spec fn lists_expired(ids: Seq<u64>, m: Map<u64, u64>, now: u64) -> bool {
    &&& forall|i: int| 0 <= i < ids.len() ==> m.contains_key(#[trigger] ids[i]) && m[ids[i]] <= now
    &&& forall|id: u64| #[trigger] m.contains_key(id) && m[id] <= now ==> ids.contains(id)
    &&& forall|i: int, j: int|
        0 <= i < j < ids.len() ==> #[trigger] ids[i] != #[trigger] ids[j] && precedes(
            m[ids[i]],
            ids[i],
            m[ids[j]],
            ids[j],
        )
}

/// The registry after a channel has seen `polled` come from its transport.
pub open spec fn after_read<Req, E>(
    m: Map<u64, u64>,
    polled: Poll<Option<Result<ClientMessage<Req>, E>>>,
) -> Map<u64, u64> {
    match polled {
        Poll::Ready(Some(Ok(ClientMessage::Cancel { request_id, .. }))) => m.remove(request_id),
        _ => m,
    }
}

/// What a channel makes of `polled`, which came from its transport.
pub open spec fn read_step<Req, E>(
    m: Map<u64, u64>,
    polled: Poll<Option<Result<ClientMessage<Req>, E>>>,
) -> ReadStep<Req, E> {
    match polled {
        Poll::Pending => ReadStep::Yield(Poll::Pending),
        Poll::Ready(None) => ReadStep::Yield(Poll::Ready(None)),
        Poll::Ready(Some(Err(e))) => ReadStep::Yield(Poll::Ready(Some(Err(e)))),
        Poll::Ready(Some(Ok(ClientMessage::Request(request)))) => ReadStep::Yield(
            Poll::Ready(Some(Ok(request))),
        ),
        Poll::Ready(Some(Ok(ClientMessage::Cancel { trace_context, request_id }))) => {
            ReadStep::Canceled {
                trace_context,
                request_id,
                canceled: m.contains_key(request_id),
                in_flight: m.remove(request_id).len() as usize,
            }
        },
    }
}

/// A channel that keeps track of the requests in flight on one transport. Of
/// the messages that the transport delivers it passes on the requests; it
/// handles cancellations itself, by cancelling the handler of the request
/// that is meant.
pub struct BaseChannel<Req, Resp> {
    config: Config,
    /// Holds what is needed to clean up in-flight requests.
    in_flight_requests: InFlightRequests,
    /// Types the request and response.
    marker: PhantomData<(Req, Resp)>,
}

impl<Req, Resp> View for BaseChannel<Req, Resp> {
    type V = Map<u64, u64>;

    /// The deadline of each request in flight, keyed by request id.
    open spec fn view(&self) -> Map<u64, u64> {
        self.in_flight()
    }
}

impl<Req, Resp> BaseChannel<Req, Resp> {
    /// A task waits to be woken when the earliest deadline changes.
    pub closed spec fn has_waker(&self) -> bool {
        self.in_flight_requests.has_waker()
    }

    /// A well-formed channel has finitely many requests in flight.
    pub proof fn lemma_finite(&self)
        requires
            self.wf(),
        ensures
            self@.dom().finite(),
    {
        self.in_flight_requests.lemma_finite();
    }

    /// Creates a new channel configured with `config`.
    pub fn new(config: Config) -> (channel: Self)
        ensures
            channel.wf(),
            channel@ == Map::<u64, u64>::empty(),
            channel.configuration() == config,
            !channel.has_waker(),
    {
        BaseChannel { config, in_flight_requests: InFlightRequests::new(), marker: PhantomData }
    }

    /// Creates a new channel configured with the defaults.
    pub fn with_defaults() -> (channel: Self)
        ensures
            channel.wf(),
            channel@ == Map::<u64, u64>::empty(),
            channel.configuration().pending_response_buffer == 100,
            !channel.has_waker(),
    {
        Self::new(Config::default())
    }

    /// The deadline that expires first, if any request is in flight.
    pub fn next_deadline(&self) -> (next: Option<u64>)
        requires
            self.wf(),
        ensures
            next is None <==> self@ == Map::<u64, u64>::empty(),
            next matches Some(deadline) ==> exists|id: u64|
                crate::deadline_queue::is_earliest(self@, id) && self@[id] == deadline,
    {
        assert(self@ == self.in_flight_requests@);
        self.in_flight_requests.next_deadline()
    }

    /// How long after `now` the first deadline is reached, if any request is
    /// in flight: the time for which the caller sets its timer. Zero if the
    /// deadline has been reached already.
    pub fn time_until_expiry(&self, now: u64) -> (wait: Option<u64>)
        requires
            self.wf(),
        ensures
            wait is None <==> self@ == Map::<u64, u64>::empty(),
            wait matches Some(time) ==> exists|id: u64|
                crate::deadline_queue::is_earliest(self@, id) && time == (if self@[id] > now {
                    self@[id] - now
                } else {
                    0
                }),
    {
        assert(self@ == self.in_flight_requests@);
        self.in_flight_requests.time_until_expiry(now)
    }

    /// Expires every request whose deadline `now` has reached, earliest
    /// first, cancelling the handler of each, and returns their ids. No
    /// response is made for them: the client no longer waits. If requests
    /// remain in flight, `waker` is recorded for when one comes to expire
    /// sooner than these.
    pub fn poll_expired(&mut self, now: u64, waker: &Waker) -> (ids: Vec<u64>)
        requires
            old(self).wf(),
        ensures
            final(self).wf(),
            final(self).configuration() == old(self).configuration(),
            final(self)@ == unexpired(old(self)@, now),
            lists_expired(ids@, old(self)@, now),
            final(self).has_waker() == (old(self).has_waker() || final(self)@ != Map::<
                u64,
                u64,
            >::empty()),
    {
        let mut ids: Vec<u64> = Vec::new();
        proof {
            self.lemma_finite();
            assert(self@ =~= Map::new(
                |id: u64| old(self)@.contains_key(id) && !ids@.contains(id),
                |id: u64| old(self)@[id],
            ));
        }
        loop
            invariant_except_break
                self.has_waker() == old(self).has_waker(),
            invariant
                self.wf(),
                self.config == old(self).config,
                self@.dom().finite(),
                self@ == Map::new(
                    |id: u64| old(self)@.contains_key(id) && !ids@.contains(id),
                    |id: u64| old(self)@[id],
                ),
                forall|i: int|
                    0 <= i < ids@.len() ==> old(self)@.contains_key(#[trigger] ids@[i])
                        && old(self)@[ids@[i]] <= now,
                forall|i: int, id: u64|
                    0 <= i < ids@.len() && #[trigger] self@.contains_key(id) ==> precedes(
                        old(self)@[#[trigger] ids@[i]],
                        ids@[i],
                        old(self)@[id],
                        id,
                    ),
                forall|i: int, j: int|
                    0 <= i < j < ids@.len() ==> #[trigger] ids@[i] != #[trigger] ids@[j]
                        && precedes(old(self)@[ids@[i]], ids@[i], old(self)@[ids@[j]], ids@[j]),
            ensures
                self.wf(),
                self.config == old(self).config,
                self@ == unexpired(old(self)@, now),
                lists_expired(ids@, old(self)@, now),
                self.has_waker() == (old(self).has_waker() || self@ != Map::<u64, u64>::empty()),
            decreases self@.len(),
        {
            let ghost before = self@;
            let ghost listed = ids@;
            match self.in_flight_requests.poll_expired(now, waker) {
                Poll::Ready(Some(id)) => {
                    ids.push(id);
                    proof {
                        self.lemma_finite();
                        assert(before.contains_key(id));
                        assert(ids@[listed.len() as int] == id);
                        assert forall|other: u64| ids@.contains(other) <==> (listed.contains(other)
                            || other == id) by {
                            if listed.contains(other) {
                                let k = choose|k: int| 0 <= k < listed.len() && listed[k] == other;
                                assert(ids@[k] == other);
                            }
                        }
                        assert(self@ =~= Map::new(
                            |other: u64| old(self)@.contains_key(other) && !ids@.contains(other),
                            |other: u64| old(self)@[other],
                        ));
                        assert forall|i: int, j: int| 0 <= i < j < ids@.len() implies #[trigger] ids@[i]
                            != #[trigger] ids@[j] && precedes(
                            old(self)@[ids@[i]],
                            ids@[i],
                            old(self)@[ids@[j]],
                            ids@[j],
                        ) by {
                            if j == listed.len() {
                                assert(ids@[i] == listed[i]);
                                assert(listed.contains(listed[i]));
                            }
                        }
                    }
                },
                polled => {
                    proof {
                        assert forall|id: u64| #[trigger]
                            old(self)@.contains_key(id) && old(self)@[id] <= now implies ids@.contains(
                            id,
                        ) by {
                            if !ids@.contains(id) {
                                assert(self@.contains_key(id));
                            }
                        }
                        assert forall|id: u64| self@.contains_key(id) implies old(self)@[id]
                            > now by {}
                        assert(self@ =~= unexpired(old(self)@, now)) by {
                            assert forall|id: u64| unexpired(old(self)@, now).contains_key(
                                id,
                            ) implies self@.contains_key(id) by {
                                if ids@.contains(id) {
                                    let k = choose|k: int| 0 <= k < ids@.len() && ids@[k] == id;
                                    assert(old(self)@[ids@[k]] <= now);
                                }
                            }
                        }
                        if polled is Pending {
                            assert(before != Map::<u64, u64>::empty());
                        }
                    }
                    break ;
                },
            }
        }
        ids
    }

    /// Takes what one poll of the transport gave. A request is passed on. A
    /// cancellation removes the request that it names and cancels its
    /// handler; the transport is then to be polled again. The end of the
    /// stream, an error and a pending poll are passed on as they are.
    pub fn poll_next<E>(&mut self, polled: Poll<Option<Result<ClientMessage<Req>, E>>>) -> (step:
        ReadStep<Req, E>)
        requires
            old(self).wf(),
        ensures
            final(self).wf(),
            final(self).configuration() == old(self).configuration(),
            final(self).has_waker() == old(self).has_waker(),
            final(self)@ == after_read(old(self)@, polled),
            step == read_step(old(self)@, polled),
    {
        match polled {
            Poll::Pending => ReadStep::Yield(Poll::Pending),
            Poll::Ready(None) => ReadStep::Yield(Poll::Ready(None)),
            Poll::Ready(Some(Err(e))) => ReadStep::Yield(Poll::Ready(Some(Err(e)))),
            Poll::Ready(Some(Ok(ClientMessage::Request(request)))) => ReadStep::Yield(
                Poll::Ready(Some(Ok(request))),
            ),
            Poll::Ready(Some(Ok(ClientMessage::Cancel { trace_context, request_id }))) => {
                let canceled = self.in_flight_requests.cancel_request(request_id);
                let in_flight = self.in_flight_requests.len();
                ReadStep::Canceled { trace_context, request_id, canceled, in_flight }
            },
        }
    }
}

impl<Req, Resp> Channel for BaseChannel<Req, Resp> {
    type Req = Req;

    type Resp = Resp;

    closed spec fn wf(&self) -> bool {
        self.in_flight_requests.wf()
    }

    closed spec fn in_flight(&self) -> Map<u64, u64> {
        self.in_flight_requests@
    }

    closed spec fn configuration(&self) -> Config {
        self.config
    }

    fn config(&self) -> (config: &Config) {
        &self.config
    }

    fn in_flight_requests(&self) -> (n: usize) {
        self.in_flight_requests.len()
    }

    fn start_request(&mut self, id: u64, deadline: u64) -> (result: Result<
        AbortRegistration,
        AlreadyExistsError,
    >)
        ensures
            final(self).has_waker() == (old(self).has_waker() && !(result is Ok
                && crate::deadline_queue::is_earliest(final(self)@, id))),
    {
        self.in_flight_requests.start_request(id, deadline)
    }

    fn start_send(&mut self, response: Response<Resp>) -> (forward: Response<Resp>)
        ensures
            final(self).has_waker() == old(self).has_waker(),
    {
        self.in_flight_requests.remove_request(response.request_id);
        response
    }
}

impl<Req, Resp> BaseChannel<Req, Resp> {
    /// Caps the number of concurrent requests to `limit`.
    pub fn max_concurrent_requests(self, limit: usize) -> (throttler: Throttler<Self>)
        ensures
            throttler.inner() == self,
            throttler.limit() == limit,
            !throttler.has_waker(),
    {
        Throttler::new(self, limit)
    }

    /// Returns the pump of this channel: the stream of its requests, each
    /// with what its handler needs, and the way back for the responses,
    /// through a queue of the capacity that the channel is configured with.
    pub fn requests(self) -> (requests: Requests<Self>)
        requires
            self.wf(),
            0 < self.configuration().pending_response_buffer <= max_capacity(),
        ensures
            requests.inner() == self,
    {
        Requests::new(self)
    }
}

} // verus!
