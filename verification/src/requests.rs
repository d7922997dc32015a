//! The pump of one channel: it turns the requests that the channel yields
//! into in-flight requests for handlers, and moves the handlers' responses
//! from the response queue to the transport.

use crate::channel::Channel;
use crate::in_flight_request::InFlightRequest;
use crate::message::Context;
use crate::message::Request;
use crate::message::Response;
use crate::poll::Poll;
use crate::queue::bounded;
use crate::queue::clone_sender;
use crate::queue::max_capacity;
use tokio::sync::mpsc::Receiver;
use tokio::sync::mpsc::Sender;
use vstd::prelude::*;

verus! {

/// What the pump made of one poll of its channel for a request.
#[derive(Debug)]
#[verifier::reject_recursive_types(Resp)]
pub enum ReadStep<Req, Resp, E> {
    /// The read half of this turn ends with this outcome.
    Yield(Poll<Option<Result<InFlightRequest<Req, Resp>, E>>>),
    /// The request carries an id that is in flight already. It is dropped,
    /// the first request goes on undisturbed, and the channel is to be polled
    /// again: nothing would wake the task otherwise.
    Duplicate { context: Context, request_id: u64 },
}

/// What has come back from an operation that the pump asked for while it
/// looked for the next response to write.
#[derive(Debug, PartialEq, Eq)]
pub enum ResponseEvent<Resp, E> {
    /// Nothing yet: the pump begins to look for a response.
    Start,
    /// The transport was asked whether it has room for a response.
    Ready(Poll<Result<(), E>>),
    /// The transport was flushed to make room.
    Flushed(Poll<Result<(), E>>),
    /// The response queue was polled.
    Received(Poll<Option<(Context, Response<Resp>)>>),
}

/// What the pump does next while it looks for the next response to write.
#[derive(Debug, PartialEq, Eq)]
pub enum ResponseStep<Resp, E> {
    /// Ask the transport whether it has room for a response.
    PollReady,
    /// Flush the transport to make room.
    PollFlush,
    /// Poll the response queue.
    PollRecv,
    /// The search ends with this outcome.
    Yield(Poll<Option<Result<(Context, Response<Resp>), E>>>),
}

/// What has come back from an operation that the pump asked for while it
/// wrote.
#[derive(Debug, PartialEq, Eq)]
pub enum WriteEvent<Resp, E> {
    /// The search for the next response has ended.
    Response(Poll<Option<Result<(Context, Response<Resp>), E>>>),
    /// The response was handed to the transport.
    Sent(Result<(), E>),
    /// The transport was flushed, after the response queue was found closed
    /// or, else, empty.
    Flushed { queue_closed: bool, polled: Poll<Result<(), E>> },
}

/// What the pump does next while it writes.
#[derive(Debug, PartialEq, Eq)]
pub enum WriteStep<Resp, E> {
    /// Hand the response to the transport. The request that it answers is no
    /// longer in flight; `in_flight` requests were, it among them, when the
    /// response came off the queue.
    StartSend { context: Context, response: Response<Resp>, in_flight: usize },
    /// Flush the transport: the response queue is closed or, else, empty.
    PollFlush { queue_closed: bool },
    /// The write half of this turn ends with this outcome. `Ready(Some(Ok))`
    /// says that a response was written, `Ready(None)` that the write half
    /// can close.
    Yield(Poll<Option<Result<(), E>>>),
}

/// What follows the read half of a turn of the pump.
#[derive(Debug, PartialEq, Eq)]
pub enum ReadHalf<H, E> {
    /// The channel failed: the poll of the pump ends with this error.
    Fail(E),
    /// The write half follows. What the read half yielded is kept for after
    /// it; the read half is closed if the channel has ended.
    Write { read: Poll<Option<H>>, read_half_closed: bool },
}

/// What one turn of the pump comes to.
#[derive(Debug, PartialEq, Eq)]
pub enum Turn<H, E> {
    /// The poll of the pump ends with this outcome.
    Yield(Poll<Option<Result<H, E>>>),
    /// A response was written: take another turn.
    Again,
}

/// What the pump does next while it looks for the next response to write.
pub open spec fn response_step<Resp, E>(event: ResponseEvent<Resp, E>) -> ResponseStep<Resp, E> {
    match event {
        ResponseEvent::Start => ResponseStep::PollReady,
        ResponseEvent::Ready(Poll::Pending) => ResponseStep::PollFlush,
        ResponseEvent::Ready(Poll::Ready(Ok(_))) => ResponseStep::PollRecv,
        ResponseEvent::Ready(Poll::Ready(Err(e))) => ResponseStep::Yield(
            Poll::Ready(Some(Err(e))),
        ),
        ResponseEvent::Flushed(Poll::Pending) => ResponseStep::Yield(Poll::Pending),
        ResponseEvent::Flushed(Poll::Ready(Ok(_))) => ResponseStep::PollReady,
        ResponseEvent::Flushed(Poll::Ready(Err(e))) => ResponseStep::Yield(
            Poll::Ready(Some(Err(e))),
        ),
        ResponseEvent::Received(Poll::Pending) => ResponseStep::Yield(Poll::Pending),
        ResponseEvent::Received(Poll::Ready(None)) => ResponseStep::Yield(Poll::Ready(None)),
        ResponseEvent::Received(Poll::Ready(Some(entry))) => ResponseStep::Yield(
            Poll::Ready(Some(Ok(entry))),
        ),
    }
}

/// The registry after the pump has seen `event` while it wrote.
pub open spec fn after_write<Resp, E>(m: Map<u64, u64>, event: WriteEvent<Resp, E>) -> Map<
    u64,
    u64,
> {
    match event {
        WriteEvent::Response(Poll::Ready(Some(Ok((_, response))))) => m.remove(
            response.request_id,
        ),
        _ => m,
    }
}

/// What the pump does next while it writes, with the requests of `m` in flight.
pub open spec fn write_step<Resp, E>(
    m: Map<u64, u64>,
    event: WriteEvent<Resp, E>,
    read_half_closed: bool,
) -> WriteStep<Resp, E> {
    match event {
        WriteEvent::Response(Poll::Ready(Some(Err(e)))) => WriteStep::Yield(
            Poll::Ready(Some(Err(e))),
        ),
        WriteEvent::Response(Poll::Ready(Some(Ok((context, response))))) => WriteStep::StartSend {
            context,
            response,
            in_flight: m.len() as usize,
        },
        WriteEvent::Response(Poll::Ready(None)) => WriteStep::PollFlush { queue_closed: true },
        WriteEvent::Response(Poll::Pending) => WriteStep::PollFlush { queue_closed: false },
        WriteEvent::Sent(Ok(_)) => WriteStep::Yield(Poll::Ready(Some(Ok(())))),
        WriteEvent::Sent(Err(e)) => WriteStep::Yield(Poll::Ready(Some(Err(e)))),
        WriteEvent::Flushed { polled: Poll::Pending, .. } => WriteStep::Yield(Poll::Pending),
        WriteEvent::Flushed { polled: Poll::Ready(Err(e)), .. } => WriteStep::Yield(
            Poll::Ready(Some(Err(e))),
        ),
        WriteEvent::Flushed { queue_closed, polled: Poll::Ready(Ok(_)) } => {
            if queue_closed || (read_half_closed && m.len() == 0) {
                WriteStep::Yield(Poll::Ready(None))
            } else {
                WriteStep::Yield(Poll::Pending)
            }
        },
    }
}

/// What follows the read half of a turn.
pub open spec fn read_turn<H, E>(read: Poll<Option<Result<H, E>>>) -> ReadHalf<H, E> {
    match read {
        Poll::Ready(Some(Err(e))) => ReadHalf::Fail(e),
        Poll::Ready(Some(Ok(handle))) => ReadHalf::Write {
            read: Poll::Ready(Some(handle)),
            read_half_closed: false,
        },
        Poll::Ready(None) => ReadHalf::Write { read: Poll::Ready(None), read_half_closed: true },
        Poll::Pending => ReadHalf::Write { read: Poll::Pending, read_half_closed: false },
    }
}

/// What a turn comes to once both halves are done.
pub open spec fn turn<H, E>(read: Poll<Option<H>>, write: Poll<Option<Result<(), E>>>) -> Turn<
    H,
    E,
> {
    match (read, write) {
        (_, Poll::Ready(Some(Err(e)))) => Turn::Yield(Poll::Ready(Some(Err(e)))),
        (Poll::Ready(None), Poll::Ready(None)) => Turn::Yield(Poll::Ready(None)),
        (Poll::Ready(Some(handle)), _) => Turn::Yield(Poll::Ready(Some(Ok(handle)))),
        (_, Poll::Ready(Some(Ok(_)))) => Turn::Again,
        _ => Turn::Yield(Poll::Pending),
    }
}

/// Once the transport has ended on the read side, the response queue is
/// empty and no request is in flight, the pump comes to its end: the read
/// half reports itself closed, the write half flushes the transport and can
/// close when the flush is done, and the turn ends the stream.
pub proof fn lemma_graceful_shutdown<H, Resp, E>(m: Map<u64, u64>)
    requires
        m.len() == 0,
    ensures
        read_turn::<H, E>(Poll::Ready(None)) == (ReadHalf::<H, E>::Write {
            read: Poll::Ready(None),
            read_half_closed: true,
        }),
        write_step::<Resp, E>(m, WriteEvent::Response(Poll::Pending), true) == (WriteStep::<
            Resp,
            E,
        >::PollFlush { queue_closed: false }),
        after_write::<Resp, E>(m, WriteEvent::Response(Poll::Pending)) == m,
        write_step::<Resp, E>(
            m,
            WriteEvent::Flushed { queue_closed: false, polled: Poll::Ready(Ok(())) },
            true,
        ) == WriteStep::<Resp, E>::Yield(Poll::Ready(None)),
        turn::<H, E>(Poll::Ready(None), Poll::Ready(None)) == Turn::<H, E>::Yield(
            Poll::Ready(None),
        ),
{
}

/// While a request is in flight, or the read side of the transport is open,
/// an empty response queue does not end the pump: the write half is pending
/// once the transport is flushed, and so is the turn, unless it yields a
/// request.
pub proof fn lemma_pump_waits_for_handlers<H, Resp, E>(
    m: Map<u64, u64>,
    read: Poll<Option<H>>,
    read_half_closed: bool,
)
    requires
        !read_half_closed || m.len() > 0,
        !(read is Ready && read->Ready_0 is Some),
    ensures
        write_step::<Resp, E>(
            m,
            WriteEvent::Flushed { queue_closed: false, polled: Poll::Ready(Ok(())) },
            read_half_closed,
        ) == WriteStep::<Resp, E>::Yield(Poll::Pending),
        turn::<H, E>(read, Poll::Pending) == Turn::<H, E>::Yield(Poll::Pending),
{
}

/// The pump hands to the transport only what a handler put on the response
/// queue, as the handler put it there, and not before the request that it
/// answers has left the registry.
pub proof fn lemma_only_queued_responses_are_written<Resp, E>(
    m: Map<u64, u64>,
    event: WriteEvent<Resp, E>,
    read_half_closed: bool,
)
    ensures
        write_step(m, event, read_half_closed) matches WriteStep::StartSend {
            context,
            response,
            ..
        } ==> event == WriteEvent::<Resp, E>::Response(Poll::Ready(Some(Ok((context, response)))))
            && !after_write(m, event).contains_key(response.request_id),
        !(write_step(m, event, read_half_closed) is StartSend) ==> after_write(m, event) == m,
{
}

/// A stream of requests coming over a channel, and the way back for their
/// responses.
#[verifier::reject_recursive_types(C)]
pub struct Requests<C: Channel> {
    channel: C,
    /// Responses waiting to be written to the wire.
    pending_responses: Receiver<(Context, Response<C::Resp>)>,
    /// Handed out to request handlers to fan in responses.
    responses_tx: Sender<(Context, Response<C::Resp>)>,
}

impl<C: Channel> Requests<C> {
    /// The channel that the pump drives.
    pub closed spec fn inner(&self) -> C {
        self.channel
    }

    /// The receiving end of the pump's response queue.
    pub closed spec fn receiver(&self) -> Receiver<(Context, Response<C::Resp>)> {
        self.pending_responses
    }

    /// The channel's bookkeeping is consistent.
    pub open spec fn wf(&self) -> bool {
        self.inner().wf()
    }

    /// The deadline of each request in flight, keyed by request id.
    pub open spec fn in_flight(&self) -> Map<u64, u64> {
        self.inner().in_flight()
    }

    /// A pump for `channel`, with a response queue of the capacity that the
    /// channel is configured with.
    pub fn new(channel: C) -> (requests: Self)
        requires
            channel.wf(),
            0 < channel.configuration().pending_response_buffer <= max_capacity(),
        ensures
            requests.inner() == channel,
    {
        let capacity = channel.config().pending_response_buffer;
        let (responses_tx, pending_responses) = bounded(capacity);
        Requests { channel, pending_responses, responses_tx }
    }

    /// Returns the inner channel over which messages are sent and received.
    pub fn channel(&self) -> (channel: &C)
        ensures
            *channel == self.inner(),
    {
        &self.channel
    }

    /// Returns the inner channel over which messages are sent and received.
    pub fn channel_pin_mut(&mut self) -> (channel: &mut C)
        ensures
            *channel == old(self).inner(),
            final(self).inner() == *final(channel),
    {
        &mut self.channel
    }

    /// The receiving end of the response queue, for the caller to poll. What
    /// the caller does to it is done to the pump's queue; the channel is
    /// left as it is.
    pub fn pending_responses(&mut self) -> (queue: &mut Receiver<(Context, Response<C::Resp>)>)
        ensures
            *queue == old(self).receiver(),
            final(self).receiver() == *final(queue),
            final(self).inner() == old(self).inner(),
    {
        &mut self.pending_responses
    }

    /// Takes what one poll of the channel gave. A request is registered as
    /// in flight and yielded with what its handler needs; one whose id is in
    /// flight already is dropped. The end of the stream, an error and a
    /// pending poll are yielded as they are.
    pub fn pump_read<E>(&mut self, polled: Poll<Option<Result<Request<C::Req>, E>>>) -> (step:
        ReadStep<C::Req, C::Resp, E>)
        requires
            old(self).wf(),
        ensures
            final(self).wf(),
            final(self).inner().configuration() == old(self).inner().configuration(),
            match polled {
                Poll::Pending => step == ReadStep::<C::Req, C::Resp, E>::Yield(Poll::Pending)
                    && final(self).in_flight() == old(self).in_flight(),
                Poll::Ready(None) => step == ReadStep::<C::Req, C::Resp, E>::Yield(
                    Poll::Ready(None),
                ) && final(self).in_flight() == old(self).in_flight(),
                Poll::Ready(Some(Err(e))) => step == ReadStep::<C::Req, C::Resp, E>::Yield(
                    Poll::Ready(Some(Err(e))),
                ) && final(self).in_flight() == old(self).in_flight(),
                Poll::Ready(Some(Ok(request))) => if old(self).in_flight().contains_key(
                    request.id,
                ) {
                    &&& step == ReadStep::<C::Req, C::Resp, E>::Duplicate {
                        context: request.context,
                        request_id: request.id,
                    }
                    &&& final(self).in_flight() == old(self).in_flight()
                } else {
                    &&& step matches ReadStep::Yield(Poll::Ready(Some(Ok(handle))))
                    &&& handle@ == request
                    &&& final(self).in_flight() == old(self).in_flight().insert(
                        request.id,
                        request.context.deadline,
                    )
                },
            },
    {
        match polled {
            Poll::Pending => ReadStep::Yield(Poll::Pending),
            Poll::Ready(None) => ReadStep::Yield(Poll::Ready(None)),
            Poll::Ready(Some(Err(e))) => ReadStep::Yield(Poll::Ready(Some(Err(e)))),
            Poll::Ready(Some(Ok(request))) => {
                match self.channel.start_request(request.id, request.context.deadline) {
                    Ok(abort_registration) => {
                        let response_tx = clone_sender(&self.responses_tx);
                        ReadStep::Yield(
                            Poll::Ready(
                                Some(Ok(InFlightRequest::new(request, response_tx, abort_registration))),
                            ),
                        )
                    },
                    Err(_) => ReadStep::Duplicate {
                        context: request.context,
                        request_id: request.id,
                    },
                }
            },
        }
    }

    /// Decides the next operation in the search for a response to write. The
    /// transport is asked for room first, and flushed until it has room;
    /// only then is the response queue polled.
    pub fn poll_next_response<E>(event: ResponseEvent<C::Resp, E>) -> (step: ResponseStep<
        C::Resp,
        E,
    >)
        ensures
            step == response_step(event),
    {
        match event {
            ResponseEvent::Start => ResponseStep::PollReady,
            ResponseEvent::Ready(Poll::Pending) => ResponseStep::PollFlush,
            ResponseEvent::Ready(Poll::Ready(Ok(_))) => ResponseStep::PollRecv,
            ResponseEvent::Ready(Poll::Ready(Err(e))) => ResponseStep::Yield(
                Poll::Ready(Some(Err(e))),
            ),
            ResponseEvent::Flushed(Poll::Pending) => ResponseStep::Yield(Poll::Pending),
            ResponseEvent::Flushed(Poll::Ready(Ok(_))) => ResponseStep::PollReady,
            ResponseEvent::Flushed(Poll::Ready(Err(e))) => ResponseStep::Yield(
                Poll::Ready(Some(Err(e))),
            ),
            ResponseEvent::Received(Poll::Pending) => ResponseStep::Yield(Poll::Pending),
            ResponseEvent::Received(Poll::Ready(None)) => ResponseStep::Yield(Poll::Ready(None)),
            ResponseEvent::Received(Poll::Ready(Some(entry))) => ResponseStep::Yield(
                Poll::Ready(Some(Ok(entry))),
            ),
        }
    }

    /// Decides the next operation of the write half of a turn. A response
    /// that came off the queue is taken out of the registry and is then to
    /// be handed to the transport. With the queue closed or empty the
    /// transport is flushed; after that the write half can close if the
    /// queue is closed, or if the read half is closed and no request is in
    /// flight.
    pub fn pump_write<E>(&mut self, event: WriteEvent<C::Resp, E>, read_half_closed: bool) -> (step:
        WriteStep<C::Resp, E>)
        requires
            old(self).wf(),
        ensures
            final(self).wf(),
            final(self).inner().configuration() == old(self).inner().configuration(),
            final(self).in_flight() == after_write(old(self).in_flight(), event),
            step == write_step(old(self).in_flight(), event, read_half_closed),
    {
        match event {
            WriteEvent::Response(Poll::Ready(Some(Err(e)))) => WriteStep::Yield(
                Poll::Ready(Some(Err(e))),
            ),
            WriteEvent::Response(Poll::Ready(Some(Ok((context, response))))) => {
                let in_flight = self.channel.in_flight_requests();
                let response = self.channel.start_send(response);
                WriteStep::StartSend { context, response, in_flight }
            },
            WriteEvent::Response(Poll::Ready(None)) => WriteStep::PollFlush { queue_closed: true },
            WriteEvent::Response(Poll::Pending) => WriteStep::PollFlush { queue_closed: false },
            WriteEvent::Sent(Ok(_)) => WriteStep::Yield(Poll::Ready(Some(Ok(())))),
            WriteEvent::Sent(Err(e)) => WriteStep::Yield(Poll::Ready(Some(Err(e)))),
            WriteEvent::Flushed { polled: Poll::Pending, .. } => WriteStep::Yield(Poll::Pending),
            WriteEvent::Flushed { polled: Poll::Ready(Err(e)), .. } => WriteStep::Yield(
                Poll::Ready(Some(Err(e))),
            ),
            WriteEvent::Flushed { queue_closed, polled: Poll::Ready(Ok(_)) } => {
                if queue_closed || (read_half_closed && self.channel.in_flight_requests() == 0) {
                    WriteStep::Yield(Poll::Ready(None))
                } else {
                    WriteStep::Yield(Poll::Pending)
                }
            },
        }
    }

    /// Decides what follows the read half of a turn: an error ends the poll,
    /// anything else is kept for after the write half.
    pub fn read_half<E>(read: Poll<Option<Result<InFlightRequest<C::Req, C::Resp>, E>>>) -> (next:
        ReadHalf<InFlightRequest<C::Req, C::Resp>, E>)
        ensures
            next == read_turn(read),
    {
        match read {
            Poll::Ready(Some(Err(e))) => ReadHalf::Fail(e),
            Poll::Ready(Some(Ok(handle))) => ReadHalf::Write {
                read: Poll::Ready(Some(handle)),
                read_half_closed: false,
            },
            Poll::Ready(None) => ReadHalf::Write {
                read: Poll::Ready(None),
                read_half_closed: true,
            },
            Poll::Pending => ReadHalf::Write { read: Poll::Pending, read_half_closed: false },
        }
    }

    /// Decides what a turn comes to once both halves are done. A request is
    /// yielded whatever the write half did; the stream ends when both halves
    /// have ended; a written response calls for another turn; otherwise the
    /// poll is pending.
    pub fn poll_next<E>(
        read: Poll<Option<InFlightRequest<C::Req, C::Resp>>>,
        write: Poll<Option<Result<(), E>>>,
    ) -> (next: Turn<InFlightRequest<C::Req, C::Resp>, E>)
        ensures
            next == turn(read, write),
    {
        match (read, write) {
            (_, Poll::Ready(Some(Err(e)))) => Turn::Yield(Poll::Ready(Some(Err(e)))),
            (Poll::Ready(None), Poll::Ready(None)) => Turn::Yield(Poll::Ready(None)),
            (Poll::Ready(Some(handle)), _) => Turn::Yield(Poll::Ready(Some(Ok(handle)))),
            (_, Poll::Ready(Some(Ok(_)))) => Turn::Again,
            _ => Turn::Yield(Poll::Pending),
        }
    }
}

} // verus!
