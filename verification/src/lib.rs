//! The server-side channel core of a multiplexed RPC runtime.
//!
//! One connection between a client and the server carries requests and
//! cancellations one way and responses the other. Requests are tagged with a
//! 64-bit id; responses echo it. This crate holds what the server end of such
//! a connection tracks and decides: which requests are in flight, when each
//! of them expires, what a cancellation or a response does to them, and in
//! which order the transport and the response queue are to be polled.
//!
//! The crate performs no I/O. Its caller polls the transport, the timer and
//! the response queue, and hands each outcome to the core, which updates its
//! state and says what to do next. Instants are `u64` values on a clock of
//! the caller's choice.
//!
//! - [`deadline_queue`]: a priority queue of deadlines, addressable by id.
//! - [`in_flight_requests`]: the registry of the requests in flight.
//! - [`lifecycle`]: what holds of every sequence of events on a registry.
//! - [`channel`]: a registry with settings, as the read and write side of a
//!   transport see it.
//! - [`requests`]: the pump that interleaves reading requests and writing
//!   responses.
//! - [`in_flight_request`]: a request as it is handed to its handler.
//! - [`throttle`], [`filter`]: caps on requests per channel and on channels
//!   per client.
//! - [`executor`]: what the tasks that drive a server and a channel do next.
//! - [`cancel`], [`queue`]: cancellation handles, wakers and the response
//!   queue, as the executor's libraries provide them.

pub mod cancel;
pub mod channel;
pub mod deadline_queue;
pub mod executor;
pub mod filter;
pub mod in_flight_request;
pub mod in_flight_requests;
pub mod lifecycle;
pub mod message;
pub mod poll;
pub mod queue;
pub mod requests;
pub mod throttle;
