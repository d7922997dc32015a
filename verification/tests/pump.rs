use futures::future::Abortable;
use futures::future::Aborted;
use futures::task::noop_waker;
use std::collections::VecDeque;
use std::task::Waker;
use tarpc_server::channel::BaseChannel;
use tarpc_server::channel::Channel;
use tarpc_server::channel::Config;
use tarpc_server::channel::ReadStep as ChannelStep;
use tarpc_server::in_flight_request::InFlightRequest;
use tarpc_server::message::ClientMessage;
use tarpc_server::message::Context;
use tarpc_server::message::Request;
use tarpc_server::message::Response;
use tarpc_server::message::TraceContext;
use tarpc_server::poll::Poll;
use tarpc_server::requests::ReadHalf;
use tarpc_server::requests::ReadStep;
use tarpc_server::requests::Requests;
use tarpc_server::requests::ResponseEvent;
use tarpc_server::requests::ResponseStep;
use tarpc_server::requests::Turn;
use tarpc_server::requests::WriteEvent;
use tarpc_server::requests::WriteStep;
use tokio::sync::mpsc::error::TryRecvError;
use tokio::sync::mpsc::error::TrySendError;

type Core = BaseChannel<String, String>;
type Pump = Requests<Core>;
type Handler = InFlightRequest<String, String>;
type Entry = (Context, Response<String>);

/// A transport that is played from a script.
struct Wire {
    incoming: VecDeque<Result<ClientMessage<String>, String>>,
    read_closed: bool,
    write_ready: bool,
    write_fails: bool,
    staged: Vec<Response<String>>,
    written: Vec<Response<String>>,
    operations: Vec<&'static str>,
}

impl Wire {
    fn new() -> Wire {
        Wire {
            incoming: VecDeque::new(),
            read_closed: false,
            write_ready: true,
            write_fails: false,
            staged: Vec::new(),
            written: Vec::new(),
            operations: Vec::new(),
        }
    }

    fn poll_read(&mut self) -> Poll<Option<Result<ClientMessage<String>, String>>> {
        match self.incoming.pop_front() {
            Some(message) => Poll::Ready(Some(message)),
            None if self.read_closed => Poll::Ready(None),
            None => Poll::Pending,
        }
    }

    fn poll_ready(&mut self) -> Poll<Result<(), String>> {
        self.operations.push("ready");
        if self.write_ready {
            Poll::Ready(Ok(()))
        } else {
            Poll::Pending
        }
    }

    fn start_send(&mut self, response: Response<String>) -> Result<(), String> {
        self.operations.push("send");
        if self.write_fails {
            return Err("broken pipe".to_string());
        }
        self.staged.push(response);
        Ok(())
    }

    fn poll_flush(&mut self) -> Poll<Result<(), String>> {
        self.operations.push("flush");
        if self.write_ready {
            self.written.append(&mut self.staged);
            Poll::Ready(Ok(()))
        } else {
            Poll::Pending
        }
    }
}

fn context(deadline: u64) -> Context {
    Context { deadline, trace_context: TraceContext { trace_id: 1, span_id: 2, parent_id: None } }
}

fn request(id: u64, deadline: u64, message: &str) -> ClientMessage<String> {
    ClientMessage::Request(Request { context: context(deadline), id, message: message.to_string() })
}

fn cancel(request_id: u64) -> ClientMessage<String> {
    ClientMessage::Cancel { trace_context: TraceContext::default(), request_id }
}

fn pump_with_buffer(buffer: usize) -> Pump {
    Core::new(Config { pending_response_buffer: buffer }).requests()
}

fn poll_channel(
    pump: &mut Pump,
    wire: &mut Wire,
    now: u64,
    waker: &Waker,
) -> Poll<Option<Result<Request<String>, String>>> {
    pump.channel_pin_mut().poll_expired(now, waker);
    loop {
        let polled = wire.poll_read();
        match pump.channel_pin_mut().poll_next(polled) {
            ChannelStep::Yield(polled) => return polled,
            ChannelStep::Canceled { .. } => continue,
        }
    }
}

fn pump_read(
    pump: &mut Pump,
    wire: &mut Wire,
    now: u64,
    waker: &Waker,
) -> Poll<Option<Result<Handler, String>>> {
    loop {
        let polled = poll_channel(pump, wire, now, waker);
        match pump.pump_read(polled) {
            ReadStep::Yield(polled) => return polled,
            ReadStep::Duplicate { .. } => continue,
        }
    }
}

fn poll_recv(pump: &mut Pump) -> Poll<Option<Entry>> {
    match pump.pending_responses().try_recv() {
        Ok(entry) => Poll::Ready(Some(entry)),
        Err(TryRecvError::Empty) => Poll::Pending,
        Err(TryRecvError::Disconnected) => Poll::Ready(None),
    }
}

fn poll_next_response(pump: &mut Pump, wire: &mut Wire) -> Poll<Option<Result<Entry, String>>> {
    let mut event = ResponseEvent::Start;
    loop {
        event = match Pump::poll_next_response(event) {
            ResponseStep::PollReady => ResponseEvent::Ready(wire.poll_ready()),
            ResponseStep::PollFlush => ResponseEvent::Flushed(wire.poll_flush()),
            ResponseStep::PollRecv => ResponseEvent::Received(poll_recv(pump)),
            ResponseStep::Yield(polled) => return polled,
        }
    }
}

fn pump_write(
    pump: &mut Pump,
    wire: &mut Wire,
    read_half_closed: bool,
) -> Poll<Option<Result<(), String>>> {
    let mut event = WriteEvent::Response(poll_next_response(pump, wire));
    loop {
        event = match pump.pump_write(event, read_half_closed) {
            WriteStep::StartSend { response, .. } => WriteEvent::Sent(wire.start_send(response)),
            WriteStep::PollFlush { queue_closed } => {
                WriteEvent::Flushed { queue_closed, polled: wire.poll_flush() }
            }
            WriteStep::Yield(polled) => return polled,
        }
    }
}

fn poll_next(pump: &mut Pump, wire: &mut Wire, now: u64) -> Poll<Option<Result<Handler, String>>> {
    let waker = noop_waker();
    loop {
        let read = pump_read(pump, wire, now, &waker);
        match Pump::read_half(read) {
            ReadHalf::Fail(e) => return Poll::Ready(Some(Err(e))),
            ReadHalf::Write { read, read_half_closed } => {
                let write = pump_write(pump, wire, read_half_closed);
                match Pump::poll_next(read, write) {
                    Turn::Yield(polled) => return polled,
                    Turn::Again => continue,
                }
            }
        }
    }
}

fn expect_handler(polled: Poll<Option<Result<Handler, String>>>) -> Handler {
    match polled {
        Poll::Ready(Some(Ok(handler))) => handler,
        other => panic!("expected a request, got {:?}", other),
    }
}

fn expect_pending(polled: Poll<Option<Result<Handler, String>>>) {
    assert!(matches!(polled, Poll::Pending), "expected a pending poll, got {:?}", polled);
}

fn expect_end(polled: Poll<Option<Result<Handler, String>>>) {
    assert!(matches!(polled, Poll::Ready(None)), "expected the end of the stream, got {:?}", polled);
}

#[test]
fn happy_path() {
    let mut pump = pump_with_buffer(100);
    let mut wire = Wire::new();
    wire.incoming.push_back(Ok(request(1, 5_000, "A")));
    let handler = expect_handler(poll_next(&mut pump, &mut wire, 0));
    assert_eq!(handler.get().id, 1);
    assert_eq!(handler.get().message, "A");
    assert_eq!(pump.channel().in_flight_requests(), 1);

    let (context, message, responder, registration) = handler.execute();
    assert_eq!(context.deadline, 5_000);
    assert_eq!(message, "A");
    let service = Abortable::new(futures::future::ready("B".to_string()), registration);
    let value = futures::executor::block_on(service).unwrap();
    let (response_tx, entry) = responder.respond(value);
    response_tx.try_send(entry).unwrap();

    expect_pending(poll_next(&mut pump, &mut wire, 1));
    assert_eq!(wire.written, vec![Response { request_id: 1, message: Ok("B".to_string()) }]);
    assert_eq!(pump.channel().in_flight_requests(), 0);
}

#[test]
fn cancel_race() {
    let mut pump = pump_with_buffer(100);
    let mut wire = Wire::new();
    wire.incoming.push_back(Ok(request(2, 5_000, "A")));
    let handler = expect_handler(poll_next(&mut pump, &mut wire, 0));
    let (_, _, responder, registration) = handler.execute();
    let service = Abortable::new(futures::future::pending::<String>(), registration);

    wire.incoming.push_back(Ok(cancel(2)));
    expect_pending(poll_next(&mut pump, &mut wire, 1));
    assert_eq!(futures::executor::block_on(service), Err(Aborted));
    drop(responder);

    expect_pending(poll_next(&mut pump, &mut wire, 2));
    assert!(wire.written.is_empty());
    assert!(wire.staged.is_empty());
    assert_eq!(pump.channel().in_flight_requests(), 0);
}

#[test]
fn a_response_after_a_cancellation_is_still_forwarded() {
    let mut pump = pump_with_buffer(100);
    let mut wire = Wire::new();
    wire.incoming.push_back(Ok(request(2, 5_000, "A")));
    let handler = expect_handler(poll_next(&mut pump, &mut wire, 0));
    let (_, _, responder, registration) = handler.execute();
    wire.incoming.push_back(Ok(cancel(2)));
    expect_pending(poll_next(&mut pump, &mut wire, 1));
    assert!(registration.handle().is_aborted());
    assert_eq!(pump.channel().in_flight_requests(), 0);

    let (response_tx, entry) = responder.respond("B".to_string());
    response_tx.try_send(entry).unwrap();
    expect_pending(poll_next(&mut pump, &mut wire, 2));
    assert_eq!(wire.written, vec![Response { request_id: 2, message: Ok("B".to_string()) }]);
    assert_eq!(pump.channel().in_flight_requests(), 0);
}

#[test]
fn deadline() {
    let mut pump = pump_with_buffer(100);
    let mut wire = Wire::new();
    wire.incoming.push_back(Ok(request(3, 50, "A")));
    let handler = expect_handler(poll_next(&mut pump, &mut wire, 0));
    let (_, _, _responder, registration) = handler.execute();
    let service = Abortable::new(futures::future::pending::<String>(), registration);

    expect_pending(poll_next(&mut pump, &mut wire, 49));
    assert_eq!(pump.channel().in_flight_requests(), 1);
    assert_eq!(pump.channel().next_deadline(), Some(50));

    expect_pending(poll_next(&mut pump, &mut wire, 50));
    assert_eq!(pump.channel().in_flight_requests(), 0);
    assert_eq!(futures::executor::block_on(service), Err(Aborted));
    assert!(wire.written.is_empty());
    assert!(wire.staged.is_empty());
}

#[test]
fn the_registry_reports_the_expired_id() {
    let mut pump = pump_with_buffer(100);
    let mut wire = Wire::new();
    wire.incoming.push_back(Ok(request(3, 50, "A")));
    let _handler = expect_handler(poll_next(&mut pump, &mut wire, 0));
    let waker = noop_waker();
    assert_eq!(pump.channel_pin_mut().poll_expired(50, &waker), vec![3]);
    assert_eq!(pump.channel().in_flight_requests(), 0);
}

#[test]
fn duplicate_id() {
    let mut pump = pump_with_buffer(100);
    let mut wire = Wire::new();
    wire.incoming.push_back(Ok(request(4, 5_000, "first")));
    wire.incoming.push_back(Ok(request(4, 10, "second")));
    let handler = expect_handler(poll_next(&mut pump, &mut wire, 0));
    assert_eq!(handler.get().message, "first");
    expect_pending(poll_next(&mut pump, &mut wire, 1));
    assert_eq!(pump.channel().in_flight_requests(), 1);
    assert_eq!(pump.channel().next_deadline(), Some(5_000));

    let (_, _, responder, registration) = handler.execute();
    assert!(!registration.handle().is_aborted());
    let (response_tx, entry) = responder.respond("done".to_string());
    response_tx.try_send(entry).unwrap();
    expect_pending(poll_next(&mut pump, &mut wire, 2));
    expect_pending(poll_next(&mut pump, &mut wire, 3));
    assert_eq!(wire.written, vec![Response { request_id: 4, message: Ok("done".to_string()) }]);
    assert_eq!(pump.channel().in_flight_requests(), 0);
}

#[test]
fn a_duplicate_is_reported_with_its_context() {
    let mut pump = pump_with_buffer(100);
    let first = Request { context: context(5_000), id: 4, message: "first".to_string() };
    let second = Request { context: context(10), id: 4, message: "second".to_string() };
    let polled: Poll<Option<Result<Request<String>, String>>> = Poll::Ready(Some(Ok(first)));
    assert!(matches!(pump.pump_read(polled), ReadStep::Yield(Poll::Ready(Some(Ok(_))))));
    let polled: Poll<Option<Result<Request<String>, String>>> = Poll::Ready(Some(Ok(second)));
    match pump.pump_read(polled) {
        ReadStep::Duplicate { context: reported, request_id } => {
            assert_eq!(reported, context(10));
            assert_eq!(request_id, 4);
        }
        other => panic!("expected a duplicate, got {:?}", other),
    }
    assert_eq!(pump.channel().in_flight_requests(), 1);
}

#[test]
fn back_pressure() {
    let mut pump = pump_with_buffer(1);
    let mut wire = Wire::new();
    wire.incoming.push_back(Ok(request(1, 5_000, "A")));
    wire.incoming.push_back(Ok(request(2, 5_000, "B")));
    let first = expect_handler(poll_next(&mut pump, &mut wire, 0));
    let second = expect_handler(poll_next(&mut pump, &mut wire, 0));
    wire.write_ready = false;

    let (_, _, responder, _registration1) = first.execute();
    let (tx1, entry1) = responder.respond("one".to_string());
    tx1.try_send(entry1).unwrap();
    let (_, _, responder, _registration2) = second.execute();
    let (tx2, entry2) = responder.respond("two".to_string());
    let entry2 = match tx2.try_send(entry2) {
        Err(TrySendError::Full(entry)) => entry,
        other => panic!("expected a full queue, got {:?}", other),
    };

    expect_pending(poll_next(&mut pump, &mut wire, 1));
    assert!(wire.written.is_empty());
    assert!(wire.staged.is_empty());
    assert!(matches!(tx2.try_send(entry2.clone_entry()), Err(TrySendError::Full(_))));

    wire.write_ready = true;
    expect_pending(poll_next(&mut pump, &mut wire, 2));
    assert_eq!(wire.written, vec![Response { request_id: 1, message: Ok("one".to_string()) }]);
    tx2.try_send(entry2).unwrap();
    expect_pending(poll_next(&mut pump, &mut wire, 3));
    assert_eq!(
        wire.written,
        vec![
            Response { request_id: 1, message: Ok("one".to_string()) },
            Response { request_id: 2, message: Ok("two".to_string()) },
        ]
    );
    assert_eq!(pump.channel().in_flight_requests(), 0);
}

trait CloneEntry {
    fn clone_entry(&self) -> Self;
}

impl CloneEntry for Entry {
    fn clone_entry(&self) -> Entry {
        let message = match &self.1.message {
            Ok(value) => Ok(value.clone()),
            Err(error) => Err(error.clone()),
        };
        (self.0, Response { request_id: self.1.request_id, message })
    }
}

#[test]
fn graceful_shutdown() {
    let mut pump = pump_with_buffer(100);
    let mut wire = Wire::new();
    wire.incoming.push_back(Ok(request(6, 5_000, "A")));
    let handler = expect_handler(poll_next(&mut pump, &mut wire, 0));
    wire.read_closed = true;

    expect_pending(poll_next(&mut pump, &mut wire, 1));
    expect_pending(poll_next(&mut pump, &mut wire, 2));
    assert_eq!(pump.channel().in_flight_requests(), 1);

    let (_, _, responder, _registration) = handler.execute();
    let (response_tx, entry) = responder.respond("late".to_string());
    response_tx.try_send(entry).unwrap();
    drop(response_tx);

    expect_end(poll_next(&mut pump, &mut wire, 3));
    assert_eq!(wire.written, vec![Response { request_id: 6, message: Ok("late".to_string()) }]);
    assert_eq!(pump.channel().in_flight_requests(), 0);
    expect_end(poll_next(&mut pump, &mut wire, 4));
}

#[test]
fn an_idle_channel_ends_when_its_transport_ends() {
    let mut pump = pump_with_buffer(100);
    let mut wire = Wire::new();
    wire.read_closed = true;
    expect_end(poll_next(&mut pump, &mut wire, 0));
}

#[test]
fn an_open_channel_with_nothing_to_do_is_pending() {
    let mut pump = pump_with_buffer(100);
    let mut wire = Wire::new();
    expect_pending(poll_next(&mut pump, &mut wire, 0));
    assert_eq!(wire.operations, vec!["ready", "flush"]);
}

#[test]
fn a_read_error_ends_the_poll_before_anything_is_written() {
    let mut pump = pump_with_buffer(100);
    let mut wire = Wire::new();
    wire.incoming.push_back(Err("connection reset".to_string()));
    match poll_next(&mut pump, &mut wire, 0) {
        Poll::Ready(Some(Err(e))) => assert_eq!(e, "connection reset"),
        other => panic!("expected an error, got {:?}", other),
    }
    assert!(wire.operations.is_empty());
}

#[test]
fn a_write_error_ends_the_poll() {
    let mut pump = pump_with_buffer(100);
    let mut wire = Wire::new();
    wire.incoming.push_back(Ok(request(1, 5_000, "A")));
    let handler = expect_handler(poll_next(&mut pump, &mut wire, 0));
    let (_, _, responder, _registration) = handler.execute();
    let (response_tx, entry) = responder.respond("B".to_string());
    response_tx.try_send(entry).unwrap();
    wire.write_fails = true;
    match poll_next(&mut pump, &mut wire, 1) {
        Poll::Ready(Some(Err(e))) => assert_eq!(e, "broken pipe"),
        other => panic!("expected an error, got {:?}", other),
    }
    assert_eq!(pump.channel().in_flight_requests(), 0);
}

#[test]
fn the_transport_is_asked_for_room_before_the_queue_is_polled() {
    let mut pump = pump_with_buffer(100);
    let mut wire = Wire::new();
    wire.incoming.push_back(Ok(request(1, 5_000, "A")));
    let handler = expect_handler(poll_next(&mut pump, &mut wire, 0));
    assert_eq!(wire.operations, vec!["ready", "flush"]);
    wire.operations.clear();
    let (_, _, responder, _registration) = handler.execute();
    let (response_tx, entry) = responder.respond("B".to_string());
    response_tx.try_send(entry).unwrap();
    expect_pending(poll_next(&mut pump, &mut wire, 1));
    assert_eq!(wire.operations, vec!["ready", "send", "ready", "flush"]);
}

#[test]
fn a_stalled_transport_is_flushed_and_no_response_leaves_the_queue() {
    let mut pump = pump_with_buffer(100);
    let mut wire = Wire::new();
    wire.incoming.push_back(Ok(request(1, 5_000, "A")));
    let handler = expect_handler(poll_next(&mut pump, &mut wire, 0));
    let (_, _, responder, _registration) = handler.execute();
    let (response_tx, entry) = responder.respond("B".to_string());
    response_tx.try_send(entry).unwrap();
    wire.write_ready = false;
    wire.operations.clear();
    expect_pending(poll_next(&mut pump, &mut wire, 1));
    assert_eq!(wire.operations, vec!["ready", "flush", "flush"]);
    assert_eq!(pump.channel().in_flight_requests(), 1);
    assert!(matches!(poll_recv(&mut pump), Poll::Ready(Some(_))));
}

#[test]
fn dropping_the_pump_fires_every_outstanding_registration() {
    let mut pump = pump_with_buffer(100);
    let mut wire = Wire::new();
    wire.incoming.push_back(Ok(request(1, 5_000, "A")));
    wire.incoming.push_back(Ok(request(2, 6_000, "B")));
    let first = expect_handler(poll_next(&mut pump, &mut wire, 0));
    let second = expect_handler(poll_next(&mut pump, &mut wire, 0));
    let (_, _, responder, first) = first.execute();
    let (_, _, _, second) = second.execute();
    assert!(!first.handle().is_aborted());
    drop(pump);
    assert!(first.handle().is_aborted());
    assert!(second.handle().is_aborted());
    let (response_tx, entry) = responder.respond("B".to_string());
    assert!(matches!(response_tx.try_send(entry), Err(TrySendError::Closed(_))));
}

#[test]
fn the_write_half_closes_when_the_queue_is_closed() {
    let step: WriteStep<String, String> = WriteStep::PollFlush { queue_closed: true };
    let mut pump = pump_with_buffer(100);
    let _registration = pump.channel_pin_mut().start_request(1, 5_000).unwrap();
    assert_eq!(pump.pump_write(WriteEvent::Response(Poll::Ready(None)), false), step);
    let flushed: WriteEvent<String, String> =
        WriteEvent::Flushed { queue_closed: true, polled: Poll::Ready(Ok(())) };
    assert_eq!(pump.pump_write(flushed, false), WriteStep::Yield(Poll::Ready(None)));
    let stalled: WriteEvent<String, String> =
        WriteEvent::Flushed { queue_closed: true, polled: Poll::Pending };
    assert_eq!(pump.pump_write(stalled, false), WriteStep::Yield(Poll::Pending));
}

#[test]
fn the_write_half_stays_open_while_a_request_is_in_flight() {
    let mut pump = pump_with_buffer(100);
    let _registration = pump.channel_pin_mut().start_request(1, 5_000).unwrap();
    let flushed: WriteEvent<String, String> =
        WriteEvent::Flushed { queue_closed: false, polled: Poll::Ready(Ok(())) };
    assert_eq!(pump.pump_write(flushed, true), WriteStep::Yield(Poll::Pending));
    pump.channel_pin_mut().start_send(Response::ok(1, "B".to_string()));
    let flushed: WriteEvent<String, String> =
        WriteEvent::Flushed { queue_closed: false, polled: Poll::Ready(Ok(())) };
    assert_eq!(pump.pump_write(flushed, true), WriteStep::Yield(Poll::Ready(None)));
    let flushed: WriteEvent<String, String> =
        WriteEvent::Flushed { queue_closed: false, polled: Poll::Ready(Ok(())) };
    assert_eq!(pump.pump_write(flushed, false), WriteStep::Yield(Poll::Pending));
}

#[test]
fn a_staged_response_reports_the_requests_in_flight() {
    let mut pump = pump_with_buffer(100);
    let _a = pump.channel_pin_mut().start_request(1, 5_000).unwrap();
    let _b = pump.channel_pin_mut().start_request(2, 5_000).unwrap();
    let entry = (context(5_000), Response::ok(2, "B".to_string()));
    let event: WriteEvent<String, String> = WriteEvent::Response(Poll::Ready(Some(Ok(entry))));
    assert_eq!(
        pump.pump_write(event, false),
        WriteStep::StartSend {
            context: context(5_000),
            response: Response { request_id: 2, message: Ok("B".to_string()) },
            in_flight: 2,
        }
    );
    assert_eq!(pump.channel().in_flight_requests(), 1);
    let sent: WriteEvent<String, String> = WriteEvent::Sent(Ok(()));
    assert_eq!(pump.pump_write(sent, false), WriteStep::Yield(Poll::Ready(Some(Ok(())))));
}

#[test]
fn the_turn_follows_its_table() {
    type T = Turn<u8, String>;
    let table: Vec<(Poll<Option<u8>>, Poll<Option<Result<(), String>>>, T)> = vec![
        (Poll::Ready(Some(1)), Poll::Pending, Turn::Yield(Poll::Ready(Some(Ok(1))))),
        (Poll::Ready(Some(1)), Poll::Ready(None), Turn::Yield(Poll::Ready(Some(Ok(1))))),
        (Poll::Ready(Some(1)), Poll::Ready(Some(Ok(()))), Turn::Yield(Poll::Ready(Some(Ok(1))))),
        (Poll::Ready(None), Poll::Ready(None), Turn::Yield(Poll::Ready(None))),
        (Poll::Ready(None), Poll::Ready(Some(Ok(()))), Turn::Again),
        (Poll::Pending, Poll::Ready(Some(Ok(()))), Turn::Again),
        (Poll::Pending, Poll::Pending, Turn::Yield(Poll::Pending)),
        (Poll::Ready(None), Poll::Pending, Turn::Yield(Poll::Pending)),
        (Poll::Pending, Poll::Ready(None), Turn::Yield(Poll::Pending)),
        (
            Poll::Ready(Some(1)),
            Poll::Ready(Some(Err("broken pipe".to_string()))),
            Turn::Yield(Poll::Ready(Some(Err("broken pipe".to_string())))),
        ),
    ];
    for (read, write, expected) in table {
        assert_eq!(turn_of(read, write), expected);
    }
}

fn turn_of(read: Poll<Option<u8>>, write: Poll<Option<Result<(), String>>>) -> Turn<u8, String> {
    let read = match read {
        Poll::Ready(Some(n)) => Poll::Ready(Some(handler_with_id(n))),
        Poll::Ready(None) => Poll::Ready(None),
        Poll::Pending => Poll::Pending,
    };
    match Pump::poll_next(read, write) {
        Turn::Yield(Poll::Ready(Some(Ok(handler)))) => {
            Turn::Yield(Poll::Ready(Some(Ok(handler.get().id as u8))))
        }
        Turn::Yield(Poll::Ready(Some(Err(e)))) => Turn::Yield(Poll::Ready(Some(Err(e)))),
        Turn::Yield(Poll::Ready(None)) => Turn::Yield(Poll::Ready(None)),
        Turn::Yield(Poll::Pending) => Turn::Yield(Poll::Pending),
        Turn::Again => Turn::Again,
    }
}

fn handler_with_id(id: u8) -> Handler {
    let mut pump = pump_with_buffer(1);
    let request = Request { context: context(1), id: id as u64, message: String::new() };
    let polled: Poll<Option<Result<Request<String>, String>>> = Poll::Ready(Some(Ok(request)));
    match pump.pump_read(polled) {
        ReadStep::Yield(Poll::Ready(Some(Ok(handler)))) => handler,
        other => panic!("expected a request, got {:?}", other),
    }
}

#[test]
fn the_search_for_a_response_follows_its_table() {
    type E = ResponseEvent<String, String>;
    type S = ResponseStep<String, String>;
    let entry = (context(7), Response::ok(1, "B".to_string()));
    let same = (context(7), Response::ok(1, "B".to_string()));
    let error = || "broken pipe".to_string();
    assert_eq!(Pump::poll_next_response::<String>(E::Start), S::PollReady);
    assert_eq!(Pump::poll_next_response::<String>(E::Ready(Poll::Pending)), S::PollFlush);
    assert_eq!(Pump::poll_next_response::<String>(E::Ready(Poll::Ready(Ok(())))), S::PollRecv);
    assert_eq!(
        Pump::poll_next_response(E::Ready(Poll::Ready(Err(error())))),
        S::Yield(Poll::Ready(Some(Err(error()))))
    );
    assert_eq!(
        Pump::poll_next_response::<String>(E::Flushed(Poll::Pending)),
        S::Yield(Poll::Pending)
    );
    assert_eq!(Pump::poll_next_response::<String>(E::Flushed(Poll::Ready(Ok(())))), S::PollReady);
    assert_eq!(
        Pump::poll_next_response(E::Flushed(Poll::Ready(Err(error())))),
        S::Yield(Poll::Ready(Some(Err(error()))))
    );
    assert_eq!(
        Pump::poll_next_response::<String>(E::Received(Poll::Pending)),
        S::Yield(Poll::Pending)
    );
    assert_eq!(
        Pump::poll_next_response::<String>(E::Received(Poll::Ready(None))),
        S::Yield(Poll::Ready(None))
    );
    assert_eq!(
        Pump::poll_next_response::<String>(E::Received(Poll::Ready(Some(entry)))),
        S::Yield(Poll::Ready(Some(Ok(same))))
    );
}

#[test]
fn the_read_half_is_closed_when_the_channel_has_ended() {
    let ended: Poll<Option<Result<Handler, String>>> = Poll::Ready(None);
    assert!(matches!(
        Pump::read_half(ended),
        ReadHalf::Write { read: Poll::Ready(None), read_half_closed: true }
    ));
    let pending: Poll<Option<Result<Handler, String>>> = Poll::Pending;
    assert!(matches!(
        Pump::read_half(pending),
        ReadHalf::Write { read: Poll::Pending, read_half_closed: false }
    ));
    let failed: Poll<Option<Result<Handler, String>>> = Poll::Ready(Some(Err("reset".to_string())));
    assert!(matches!(Pump::read_half(failed), ReadHalf::Fail(e) if e == "reset"));
    let yielded: Poll<Option<Result<Handler, String>>> = Poll::Ready(Some(Ok(handler_with_id(3))));
    assert!(matches!(
        Pump::read_half(yielded),
        ReadHalf::Write { read: Poll::Ready(Some(_)), read_half_closed: false }
    ));
}

#[test]
fn a_throttled_channel_can_be_pumped() {
    let core: Core = Core::with_defaults();
    let mut pump = core.max_concurrent_requests(1).requests();
    let request = Request { context: context(9), id: 1, message: "A".to_string() };
    let polled: Poll<Option<Result<Request<String>, String>>> = Poll::Ready(Some(Ok(request)));
    assert!(matches!(pump.pump_read(polled), ReadStep::Yield(Poll::Ready(Some(Ok(_))))));
    assert_eq!(pump.channel().in_flight_requests(), 1);
    let waker = noop_waker();
    assert_eq!(pump.channel_pin_mut().poll_next(&waker), Poll::Pending);
}
