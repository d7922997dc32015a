//! A request in flight, as it is handed to the code that serves it.

use crate::message::Context;
use crate::message::Request;
use crate::message::Response;
use crate::message::ServerError;
use futures::future::AbortRegistration;
use tokio::sync::mpsc::Sender;
use vstd::prelude::*;

verus! {

/// A request that a channel has accepted, with what its handler needs: the
/// sending end of the channel's response queue and the registration under
/// which the handler runs, so that a cancellation or the deadline stops it.
#[derive(Debug)]
#[verifier::reject_recursive_types(Res)]
pub struct InFlightRequest<Req, Res> {
    request: Request<Req>,
    response_tx: Sender<(Context, Response<Res>)>,
    abort_registration: AbortRegistration,
}

/// What a handler needs to answer its request once the service has produced
/// a value.
#[derive(Debug)]
#[verifier::reject_recursive_types(Res)]
pub struct Responder<Res> {
    context: Context,
    request_id: u64,
    response_tx: Sender<(Context, Response<Res>)>,
}

impl<Req, Res> View for InFlightRequest<Req, Res> {
    type V = Request<Req>;

    /// The request itself.
    closed spec fn view(&self) -> Request<Req> {
        self.request
    }
}

impl<Req, Res> InFlightRequest<Req, Res> {
    pub(crate) fn new(
        request: Request<Req>,
        response_tx: Sender<(Context, Response<Res>)>,
        abort_registration: AbortRegistration,
    ) -> (handle: Self)
        ensures
            handle@ == request,
    {
        InFlightRequest { request, response_tx, abort_registration }
    }

    /// Returns a reference to the request.
    pub fn get(&self) -> (request: &Request<Req>)
        ensures
            *request == self@,
    {
        &self.request
    }

    /// Takes the request apart for execution: the context and the message go
    /// to the service, the registration wraps the computation, and the
    /// responder turns the service's value into the response.
    pub fn execute(self) -> (parts: (Context, Req, Responder<Res>, AbortRegistration))
        ensures
            parts.0 == self@.context,
            parts.1 == self@.message,
            parts.2.context() == self@.context,
            parts.2.request_id() == self@.id,
    {
        let InFlightRequest { request, response_tx, abort_registration } = self;
        let Request { context, id, message } = request;
        (context, message, Responder { context, request_id: id, response_tx }, abort_registration)
    }
}

impl<Res> Responder<Res> {
    /// The context of the request that is answered.
    pub closed spec fn context(&self) -> Context {
        self.context
    }

    /// The id of the request that is answered.
    pub closed spec fn request_id(&self) -> u64 {
        self.request_id
    }

    /// The entry for the response queue that answers the request with
    /// `value`, and the sending end to push it with.
    pub fn respond(self, value: Res) -> (parts: (
        Sender<(Context, Response<Res>)>,
        (Context, Response<Res>),
    ))
        ensures
            parts.1.0 == self.context(),
            parts.1.1.request_id == self.request_id(),
            parts.1.1.message == Ok::<Res, ServerError>(value),
    {
        let Responder { context, request_id, response_tx } = self;
        (response_tx, (context, Response::ok(request_id, value)))
    }
}

} // verus!
