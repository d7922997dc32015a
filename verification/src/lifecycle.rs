//! The life of a request, from the registry's point of view: what each event
//! does to the set of requests in flight, and what holds of every sequence of
//! events.

use crate::channel::after_read;
use crate::channel::unexpired;
use crate::deadline_queue::is_earliest;
use crate::deadline_queue::lemma_earliest_exists;
use crate::message::ClientMessage;
use crate::poll::Poll;
use crate::requests::after_write;
use crate::requests::WriteEvent;
use crate::in_flight_requests::expired;
use crate::in_flight_requests::expiring;
use crate::in_flight_requests::has_expired;
use crate::in_flight_requests::started;
use vstd::prelude::*;

verus! {

/// Something that happens to the registry of a channel.
pub enum Event {
    /// A request with this id and deadline came off the wire.
    Start { id: u64, deadline: u64 },
    /// The response to the request with this id is handed to the transport.
    Respond { id: u64 },
    /// A cancellation of the request with this id came off the wire.
    Cancel { id: u64 },
    /// The registry is polled for an expired deadline at the instant `now`.
    Expire { now: u64 },
}

/// The registry after `event`.
pub open spec fn step(m: Map<u64, u64>, event: Event) -> Map<u64, u64> {
    match event {
        Event::Start { id, deadline } => started(m, id, deadline),
        Event::Respond { id } => m.remove(id),
        Event::Cancel { id } => m.remove(id),
        Event::Expire { now } => expired(m, now),
    }
}

/// `event` puts request `id` in flight.
pub open spec fn accepts(m: Map<u64, u64>, event: Event, id: u64) -> bool {
    event matches Event::Start { id: started, .. } && started == id && !m.contains_key(id)
}

/// `event` is the response to request `id`, which is in flight.
pub open spec fn responds(m: Map<u64, u64>, event: Event, id: u64) -> bool {
    event == (Event::Respond { id }) && m.contains_key(id)
}

/// `event` cancels request `id`, which is in flight.
pub open spec fn cancels(m: Map<u64, u64>, event: Event, id: u64) -> bool {
    event == (Event::Cancel { id }) && m.contains_key(id)
}

/// `event` expires request `id`.
pub open spec fn expires(m: Map<u64, u64>, event: Event, id: u64) -> bool {
    event matches Event::Expire { now } && has_expired(m, now) && expiring(m, now) == id
}

/// `event` ends the life of request `id`.
pub open spec fn ends(m: Map<u64, u64>, event: Event, id: u64) -> bool {
    responds(m, event, id) || cancels(m, event, id) || expires(m, event, id)
}

/// `event` puts a request in flight.
pub open spec fn accepts_any(m: Map<u64, u64>, event: Event) -> bool {
    event matches Event::Start { id, .. } && !m.contains_key(id)
}

/// `event` ends the life of a request.
pub open spec fn ends_any(m: Map<u64, u64>, event: Event) -> bool {
    match event {
        Event::Start { .. } => false,
        Event::Respond { id } => m.contains_key(id),
        Event::Cancel { id } => m.contains_key(id),
        Event::Expire { now } => has_expired(m, now),
    }
}

pub open spec fn one_if(b: bool) -> nat {
    if b {
        1
    } else {
        0
    }
}

/// The registry after `events`, in order, starting from `m`.
pub open spec fn run(m: Map<u64, u64>, events: Seq<Event>) -> Map<u64, u64>
    decreases events.len(),
{
    if events.len() == 0 {
        m
    } else {
        run(step(m, events[0]), events.drop_first())
    }
}

/// How many of `events` put request `id` in flight.
pub open spec fn accepted(m: Map<u64, u64>, events: Seq<Event>, id: u64) -> nat
    decreases events.len(),
{
    if events.len() == 0 {
        0
    } else {
        one_if(accepts(m, events[0], id)) + accepted(step(m, events[0]), events.drop_first(), id)
    }
}

/// How many of `events` are a response to request `id` while it is in flight.
pub open spec fn responded(m: Map<u64, u64>, events: Seq<Event>, id: u64) -> nat
    decreases events.len(),
{
    if events.len() == 0 {
        0
    } else {
        one_if(responds(m, events[0], id)) + responded(
            step(m, events[0]),
            events.drop_first(),
            id,
        )
    }
}

/// How many of `events` cancel request `id` while it is in flight.
pub open spec fn canceled(m: Map<u64, u64>, events: Seq<Event>, id: u64) -> nat
    decreases events.len(),
{
    if events.len() == 0 {
        0
    } else {
        one_if(cancels(m, events[0], id)) + canceled(step(m, events[0]), events.drop_first(), id)
    }
}

/// How many of `events` expire request `id`.
pub open spec fn timed_out(m: Map<u64, u64>, events: Seq<Event>, id: u64) -> nat
    decreases events.len(),
{
    if events.len() == 0 {
        0
    } else {
        one_if(expires(m, events[0], id)) + timed_out(step(m, events[0]), events.drop_first(), id)
    }
}

/// How many of `events` put a request in flight.
pub open spec fn all_accepted(m: Map<u64, u64>, events: Seq<Event>) -> nat
    decreases events.len(),
{
    if events.len() == 0 {
        0
    } else {
        one_if(accepts_any(m, events[0])) + all_accepted(step(m, events[0]), events.drop_first())
    }
}

/// How many of `events` end the life of a request.
pub open spec fn all_ended(m: Map<u64, u64>, events: Seq<Event>) -> nat
    decreases events.len(),
{
    if events.len() == 0 {
        0
    } else {
        one_if(ends_any(m, events[0])) + all_ended(step(m, events[0]), events.drop_first())
    }
}

/// An event ends the life of a request in at most one way, and removes the
/// request from the registry when it does. Nothing else removes a request.
pub proof fn lemma_end_removes(m: Map<u64, u64>, event: Event, id: u64)
    ensures
        one_if(responds(m, event, id)) + one_if(cancels(m, event, id)) + one_if(
            expires(m, event, id),
        ) <= 1,
        ends(m, event, id) <==> m.contains_key(id) && !step(m, event).contains_key(id),
        accepts(m, event, id) <==> !m.contains_key(id) && step(m, event).contains_key(id),
{
    match event {
        Event::Expire { now } => {
            if has_expired(m, now) {
                assert(is_earliest(m, expiring(m, now)));
            }
        },
        _ => {},
    }
}

/// Every request that was accepted has ended in exactly one way, by a
/// response, a cancellation or its deadline, or is in flight still, and then
/// has not ended: over any sequence of events, and for each request id, the
/// number of times the id was accepted equals the number of times its life
/// ended, plus one while a request with this id is in flight.
pub proof fn lemma_one_end_per_request(m: Map<u64, u64>, events: Seq<Event>, id: u64)
    ensures
        one_if(m.contains_key(id)) + accepted(m, events, id) == responded(m, events, id)
            + canceled(m, events, id) + timed_out(m, events, id) + one_if(
            run(m, events).contains_key(id),
        ),
    decreases events.len(),
{
    if events.len() > 0 {
        lemma_end_removes(m, events[0], id);
        lemma_one_end_per_request(step(m, events[0]), events.drop_first(), id);
    }
}

/// From a channel's opening on, a request id is in flight just when it was
/// accepted once more than its life has ended.
pub proof fn lemma_in_flight_is_unfinished(events: Seq<Event>, id: u64)
    ensures
        ({
            let ended = responded(Map::empty(), events, id) + canceled(Map::empty(), events, id)
                + timed_out(Map::empty(), events, id);
            if run(Map::empty(), events).contains_key(id) {
                accepted(Map::empty(), events, id) == ended + 1
            } else {
                accepted(Map::empty(), events, id) == ended
            }
        }),
{
    lemma_one_end_per_request(Map::empty(), events, id);
}

/// An event changes the number of requests in flight by one if it accepts a
/// request or ends the life of one, and not at all otherwise.
pub proof fn lemma_step_len(m: Map<u64, u64>, event: Event)
    requires
        m.dom().finite(),
    ensures
        step(m, event).dom().finite(),
        !(accepts_any(m, event) && ends_any(m, event)),
        step(m, event).len() + one_if(ends_any(m, event)) == m.len() + one_if(
            accepts_any(m, event),
        ),
{
    match event {
        Event::Expire { now } => {
            if has_expired(m, now) {
                assert(is_earliest(m, expiring(m, now)));
            }
        },
        _ => {},
    }
}

/// The number of requests in flight is never negative: it is the number of
/// requests accepted less the number of those whose life has ended.
pub proof fn lemma_in_flight_count(m: Map<u64, u64>, events: Seq<Event>)
    requires
        m.dom().finite(),
    ensures
        run(m, events).dom().finite(),
        run(m, events).len() + all_ended(m, events) == m.len() + all_accepted(m, events),
    decreases events.len(),
{
    if events.len() > 0 {
        lemma_step_len(m, events[0]);
        lemma_in_flight_count(step(m, events[0]), events.drop_first());
    }
}

/// A request whose id is in flight already changes nothing: not the first
/// request, which keeps its deadline, nor anything that follows.
pub proof fn lemma_duplicate_is_ignored(
    m: Map<u64, u64>,
    id: u64,
    deadline: u64,
    rest: Seq<Event>,
    other: u64,
)
    requires
        m.contains_key(id),
    ensures
        step(m, Event::Start { id, deadline }) == m,
        !accepts_any(m, Event::Start { id, deadline }),
        run(m, seq![Event::Start { id, deadline }] + rest) == run(m, rest),
        accepted(m, seq![Event::Start { id, deadline }] + rest, other) == accepted(m, rest, other),
        responded(m, seq![Event::Start { id, deadline }] + rest, other) == responded(
            m,
            rest,
            other,
        ),
        canceled(m, seq![Event::Start { id, deadline }] + rest, other) == canceled(m, rest, other),
        timed_out(m, seq![Event::Start { id, deadline }] + rest, other) == timed_out(
            m,
            rest,
            other,
        ),
{
    let events = seq![Event::Start { id, deadline }] + rest;
    assert(events.drop_first() =~= rest);
    assert(events[0] == Event::Start { id, deadline });
}

/// Taking a request out of the registry for its response is idempotent: a
/// response to a request that is no longer in flight leaves the registry as
/// it is.
pub proof fn lemma_respond_is_idempotent(m: Map<u64, u64>, id: u64)
    ensures
        step(step(m, Event::Respond { id }), Event::Respond { id }) == step(
            m,
            Event::Respond { id },
        ),
        !m.contains_key(id) ==> step(m, Event::Respond { id }) == m,
        !ends_any(step(m, Event::Respond { id }), Event::Respond { id }),
{
    assert(m.remove(id).remove(id) =~= m.remove(id));
    if !m.contains_key(id) {
        assert(m.remove(id) =~= m);
    }
}

/// A poll for an expired deadline expires a request just when the deadline
/// of some request in flight has been reached.
pub proof fn lemma_expires_when_due(m: Map<u64, u64>, now: u64)
    requires
        m.dom().finite(),
    ensures
        has_expired(m, now) <==> exists|id: u64| m.contains_key(id) && m[id] <= now,
{
    if exists|id: u64| m.contains_key(id) && m[id] <= now {
        let due = choose|id: u64| m.contains_key(id) && m[id] <= now;
        assert(m.dom().contains(due));
        lemma_earliest_exists(m);
        let first = choose|id: u64| is_earliest(m, id);
        assert(m[first] <= m[due]);
        assert(is_earliest(m, first) && m[first] <= now);
    }
    if has_expired(m, now) {
        assert(m.contains_key(expiring(m, now)));
    }
}

/// The requests in flight whose deadline `now` has reached.
pub open spec fn due(m: Map<u64, u64>, now: u64) -> Set<u64> {
    Set::new(|id: u64| m.contains_key(id) && m[id] <= now)
}

/// `n` polls for an expired deadline at `now`.
pub open spec fn polls(now: u64, n: nat) -> Seq<Event> {
    Seq::new(n, |i: int| Event::Expire { now })
}

/// A channel that expires all that is due does what as many polls for an
/// expired deadline do as requests are due: each of them ends the life of
/// one request, and the requests that are left are those that are not due.
pub proof fn lemma_expiring_all_is_polling(m: Map<u64, u64>, now: u64)
    requires
        m.dom().finite(),
    ensures
        due(m, now).finite(),
        run(m, polls(now, due(m, now).len())) == unexpired(m, now),
        all_ended(m, polls(now, due(m, now).len())) == due(m, now).len(),
        all_accepted(m, polls(now, due(m, now).len())) == 0,
    decreases due(m, now).len(),
{
    vstd::set_lib::lemma_len_subset(due(m, now), m.dom());
    let n = due(m, now).len();
    lemma_expires_when_due(m, now);
    if n == 0 {
        due(m, now).lemma_len0_is_empty();
        assert forall|id: u64| m.contains_key(id) implies m[id] > now by {
            if m[id] <= now {
                assert(due(m, now).contains(id));
            }
        }
        assert(unexpired(m, now) =~= m);
    } else {
        let witness = due(m, now).choose();
        assert(due(m, now).contains(witness));
        assert(has_expired(m, now));
        let first = expiring(m, now);
        assert(is_earliest(m, first) && m[first] <= now);
        let rest = m.remove(first);
        assert(due(rest, now) =~= due(m, now).remove(first));
        assert(due(m, now).contains(first));
        lemma_expiring_all_is_polling(rest, now);
        let events = polls(now, n);
        assert(events[0] == Event::Expire { now });
        assert(events.drop_first() =~= polls(now, (n - 1) as nat));
        assert(step(m, events[0]) == rest);
        assert(unexpired(rest, now) =~= unexpired(m, now));
    }
}

/// What a channel does to its registry when it reads a message is an event
/// in the life of a request, or nothing.
pub proof fn lemma_read_is_an_event<Req, E>(
    m: Map<u64, u64>,
    polled: Poll<Option<Result<ClientMessage<Req>, E>>>,
)
    ensures
        after_read(m, polled) == (match polled {
            Poll::Ready(Some(Ok(ClientMessage::Cancel { request_id, .. }))) => step(
                m,
                Event::Cancel { id: request_id },
            ),
            _ => m,
        }),
{
}

/// What a pump does to its registry while it writes is an event in the life
/// of a request, or nothing.
pub proof fn lemma_write_is_an_event<Resp, E>(m: Map<u64, u64>, event: WriteEvent<Resp, E>)
    ensures
        after_write(m, event) == (match event {
            WriteEvent::Response(Poll::Ready(Some(Ok((_, response))))) => step(
                m,
                Event::Respond { id: response.request_id },
            ),
            _ => m,
        }),
{
}

} // verus!
