//! The messages that a client and a server exchange over one channel.

use vstd::prelude::*;

verus! {

/// Identifiers of the trace that a request belongs to. The channel copies them
/// through and never interprets them.
#[derive(Clone, Copy, Debug, PartialEq, Eq, Hash, Default)]
pub struct TraceContext {
    pub trace_id: u128,
    pub span_id: u64,
    pub parent_id: Option<u64>,
}

/// What accompanies a request besides its message.
#[derive(Clone, Copy, Debug, PartialEq, Eq, Hash)]
pub struct Context {
    /// The instant, on the server's clock, after which the client no longer
    /// waits for a response. The unit of the clock is the caller's choice;
    /// the channel only compares instants.
    pub deadline: u64,
    pub trace_context: TraceContext,
}

impl Context {
    pub fn trace_id(&self) -> (id: u128)
        ensures
            id == self.trace_context.trace_id,
    {
        self.trace_context.trace_id
    }
}

/// A request from a client to a server.
#[derive(Clone, Debug, PartialEq, Eq)]
pub struct Request<T> {
    pub context: Context,
    /// Uniquely identifies the request among those in flight on its channel.
    pub id: u64,
    pub message: T,
}

/// An error that the server reports in place of a response.
#[derive(Clone, Debug, PartialEq, Eq)]
pub struct ServerError {
    pub detail: String,
}

/// A response from a server to a client.
#[derive(Debug, PartialEq, Eq)]
pub struct Response<T> {
    /// The id of the request that this response answers.
    pub request_id: u64,
    pub message: Result<T, ServerError>,
}

impl<T> Response<T> {
    /// The response that carries `value` back to the sender of request `request_id`.
    pub fn ok(request_id: u64, value: T) -> (response: Self)
        ensures
            response.request_id == request_id,
            response.message == Ok::<T, ServerError>(value),
    {
        Response { request_id, message: Ok(value) }
    }
}

/// A message from a client to a server.
#[derive(Clone, Debug, PartialEq, Eq)]
pub enum ClientMessage<T> {
    /// Asks the server to handle a request.
    Request(Request<T>),
    /// Tells the server that the client no longer waits for the response to
    /// the request with this id.
    Cancel { trace_context: TraceContext, request_id: u64 },
}

} // verus!
