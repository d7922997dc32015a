//! The registry of the requests that are in flight on one channel.

use crate::cancel::CancelHandle;
use crate::cancel::clone_waker;
use crate::cancel::wake;
use crate::deadline_queue::is_earliest;
use crate::deadline_queue::lemma_earliest_unique;
use crate::deadline_queue::DeadlineQueue;
use crate::poll::Poll;
use futures::future::AbortRegistration;
use std::collections::HashMap;
use std::task::Waker;
use vstd::prelude::*;
use vstd::std_specs::hash::*;

verus! {

broadcast use vstd::std_specs::hash::group_hash_axioms;

/// A request was started under an id that is already in flight.
#[derive(Clone, Copy, Debug, PartialEq, Eq)]
pub struct AlreadyExistsError;

/// The registry after `start_request(id, deadline)`.
pub open spec fn started(m: Map<u64, u64>, id: u64, deadline: u64) -> Map<u64, u64> {
    if m.contains_key(id) {
        m
    } else {
        m.insert(id, deadline)
    }
}

/// The entry of `m` that expires first has a deadline that `now` has reached.
pub open spec fn has_expired(m: Map<u64, u64>, now: u64) -> bool {
    exists|id: u64| is_earliest(m, id) && m[id] <= now
}

/// The entry of `m` that one poll at `now` expires.
pub open spec fn expiring(m: Map<u64, u64>, now: u64) -> u64 {
    choose|id: u64| is_earliest(m, id) && m[id] <= now
}

/// The registry after one poll for expired deadlines at `now`.
pub open spec fn expired(m: Map<u64, u64>, now: u64) -> Map<u64, u64> {
    if has_expired(m, now) {
        m.remove(expiring(m, now))
    } else {
        m
    }
}

/// Tracks the requests that are in flight, each with its deadline and the
/// handle that cancels its handler. When the registry goes away, the handler
/// of every request that is in flight still is cancelled.
pub struct InFlightRequests {
    deadlines: DeadlineQueue,
    handles: HashMap<u64, CancelHandle>,
    waker: Option<Waker>,
}

impl View for InFlightRequests {
    type V = Map<u64, u64>;

    /// The deadline of each request in flight, keyed by request id.
    closed spec fn view(&self) -> Map<u64, u64> {
        self.deadlines@
    }
}

impl InFlightRequests {
    /// Every request in flight has one deadline and one cancel handle, and
    /// the handle is armed: it cancels the handler if the registry goes away.
    pub closed spec fn wf(&self) -> bool {
        &&& self.deadlines.wf()
        &&& self.handles@.dom() == self.deadlines@.dom()
        &&& forall|id: u64| #[trigger]
            self.handles@.contains_key(id) ==> self.handles@[id].is_armed()
    }

    /// A task waits to be woken when the earliest deadline changes.
    pub closed spec fn has_waker(&self) -> bool {
        self.waker is Some
    }

    /// A well-formed registry holds finitely many requests.
    pub proof fn lemma_finite(&self)
        requires
            self.wf(),
        ensures
            self@.dom().finite(),
    {
        self.deadlines.lemma_finite();
    }

    /// A registry with no request in flight and no task waiting.
    pub fn new() -> (registry: Self)
        ensures
            registry.wf(),
            registry@ == Map::<u64, u64>::empty(),
            !registry.has_waker(),
    {
        InFlightRequests { deadlines: DeadlineQueue::new(), handles: HashMap::new(), waker: None }
    }

    /// The number of requests in flight.
    pub fn len(&self) -> (n: usize)
        requires
            self.wf(),
        ensures
            n == self@.len(),
    {
        self.deadlines.len()
    }

    /// Whether request `id` is in flight.
    pub fn contains(&self, id: u64) -> (present: bool)
        requires
            self.wf(),
        ensures
            present == self@.contains_key(id),
    {
        self.deadlines.contains(id)
    }

    /// The deadline that expires first, if any request is in flight.
    pub fn next_deadline(&self) -> (next: Option<u64>)
        requires
            self.wf(),
        ensures
            next is None <==> self@ == Map::<u64, u64>::empty(),
            next matches Some(deadline) ==> exists|id: u64|
                is_earliest(self@, id) && self@[id] == deadline,
    {
        match self.deadlines.peek() {
            Some((deadline, _)) => Some(deadline),
            None => None,
        }
    }

    /// How long after `now` the first deadline is reached, if any request is
    /// in flight: the time to set a timer for. Zero if the deadline has been
    /// reached already.
    pub fn time_until_expiry(&self, now: u64) -> (wait: Option<u64>)
        requires
            self.wf(),
        ensures
            wait is None <==> self@ == Map::<u64, u64>::empty(),
            wait matches Some(time) ==> exists|id: u64|
                is_earliest(self@, id) && time == (if self@[id] > now {
                    self@[id] - now
                } else {
                    0
                }),
    {
        match self.deadlines.peek() {
            Some((deadline, _)) => {
                if deadline > now {
                    Some(deadline - now)
                } else {
                    Some(0)
                }
            },
            None => None,
        }
    }

    /// Starts tracking request `id`, which expires at `deadline`, and hands out
    /// the registration under which its handler runs. Fails, and changes
    /// nothing, if `id` is already in flight. A waiting task is woken, and no
    /// longer waits, if the new request is the first to expire.
    pub fn start_request(&mut self, id: u64, deadline: u64) -> (result: Result<
        AbortRegistration,
        AlreadyExistsError,
    >)
        requires
            old(self).wf(),
        ensures
            final(self).wf(),
            result is Err <==> old(self)@.contains_key(id),
            final(self)@ == started(old(self)@, id, deadline),
            final(self).has_waker() == (old(self).has_waker() && !(result is Ok && is_earliest(
                final(self)@,
                id,
            ))),
    {
        if self.deadlines.contains(id) {
            return Err(AlreadyExistsError);
        }
        let (handle, registration) = CancelHandle::new_pair();
        self.deadlines.insert(id, deadline);
        self.handles.insert(id, handle);
        let first = self.deadlines.peek();
        let first_id = match first {
            Some((_, first_id)) => first_id,
            None => id,
        };
        proof {
            assert(self@.contains_key(id));
            if first_id == id {
                assert(is_earliest(self@, id));
            } else {
                if is_earliest(self@, id) {
                    lemma_earliest_unique(self@, id, first_id);
                }
            }
        }
        if first_id == id {
            match self.waker.take() {
                Some(waker) => wake(waker),
                None => {},
            }
        }
        Ok(registration)
    }

    /// Removes request `id` and cancels its handler. Returns whether the
    /// request was in flight.
    pub fn cancel_request(&mut self, id: u64) -> (canceled: bool)
        requires
            old(self).wf(),
        ensures
            final(self).wf(),
            canceled == old(self)@.contains_key(id),
            final(self)@ == old(self)@.remove(id),
            final(self).has_waker() == old(self).has_waker(),
    {
        self.deadlines.remove(id);
        match self.handles.remove(&id) {
            Some(handle) => {
                handle.cancel();
                true
            },
            None => false,
        }
    }

    /// Removes request `id` without cancelling its handler, which has
    /// completed. Removing a request that is not in flight changes nothing.
    pub fn remove_request(&mut self, id: u64)
        requires
            old(self).wf(),
        ensures
            final(self).wf(),
            final(self)@ == old(self)@.remove(id),
            final(self).has_waker() == old(self).has_waker(),
    {
        self.deadlines.remove(id);
        match self.handles.remove(&id) {
            Some(handle) => handle.release(),
            None => {},
        }
    }

    /// Expires the request whose deadline comes first, if `now` has reached
    /// it: removes the request, cancels its handler and yields its id. With no
    /// request in flight yields `None`. Otherwise records `waker`, so that a
    /// request that comes to expire sooner wakes the task, and is pending.
    pub fn poll_expired(&mut self, now: u64, waker: &Waker) -> (polled: Poll<Option<u64>>)
        requires
            old(self).wf(),
        ensures
            final(self).wf(),
            final(self)@ == expired(old(self)@, now),
            polled == (if old(self)@ == Map::<u64, u64>::empty() {
                Poll::Ready(None::<u64>)
            } else if has_expired(old(self)@, now) {
                Poll::Ready(Some(expiring(old(self)@, now)))
            } else {
                Poll::Pending
            }),
            final(self).has_waker() == (old(self).has_waker() || polled is Pending),
            polled matches Poll::Ready(Some(id)) ==> is_earliest(old(self)@, id) && old(self)@[id]
                <= now,
            polled is Pending ==> forall|id: u64| #[trigger]
                old(self)@.contains_key(id) ==> old(self)@[id] > now,
    {
        match self.deadlines.peek() {
            None => {
                assert(!has_expired(self@, now)) by {
                    if has_expired(self@, now) {
                        assert(self@.contains_key(expiring(self@, now)));
                    }
                }
                Poll::Ready(None)
            },
            Some((deadline, id)) => {
                if deadline <= now {
                    proof {
                        assert(is_earliest(self@, id) && self@[id] <= now);
                        lemma_earliest_unique(self@, id, expiring(self@, now));
                    }
                    self.deadlines.remove(id);
                    match self.handles.remove(&id) {
                        Some(handle) => handle.cancel(),
                        None => {},
                    }
                    Poll::Ready(Some(id))
                } else {
                    proof {
                        if has_expired(self@, now) {
                            lemma_earliest_unique(self@, id, expiring(self@, now));
                        }
                        assert(self@.contains_key(id));
                        assert forall|other: u64| #[trigger]
                            self@.contains_key(other) implies self@[other] > now by {}
                    }
                    self.waker = Some(clone_waker(waker));
                    Poll::Pending
                }
            },
        }
    }

    /// Cancels the handler of every request in flight and forgets them all.
    /// Returns how many handlers were cancelled.
    pub fn cancel_all(&mut self) -> (canceled: usize)
        requires
            old(self).wf(),
        ensures
            final(self).wf(),
            final(self)@ == Map::<u64, u64>::empty(),
            canceled == old(self)@.len(),
            final(self).has_waker() == old(self).has_waker(),
    {
        let mut canceled: usize = 0;
        let total = self.deadlines.len();
        proof {
            self.lemma_finite();
        }
        loop
            invariant
                self.wf(),
                self@.dom().finite(),
                canceled + self@.len() == total,
                total == old(self)@.len(),
                self.has_waker() == old(self).has_waker(),
            ensures
                self.wf(),
                self@ == Map::<u64, u64>::empty(),
                canceled == old(self)@.len(),
                self.has_waker() == old(self).has_waker(),
            decreases self@.len(),
        {
            match self.deadlines.pop() {
                None => {
                    break ;
                },
                Some((_, id)) => {
                    match self.handles.remove(&id) {
                        Some(handle) => handle.cancel(),
                        None => {},
                    }
                    proof {
                        self.lemma_finite();
                    }
                    canceled = canceled + 1;
                },
            }
        }
        canceled
    }
}

impl Default for InFlightRequests {
    fn default() -> (registry: Self)
        ensures
            registry.wf(),
            registry@ == Map::<u64, u64>::empty(),
            !registry.has_waker(),
    {
        InFlightRequests::new()
    }
}

} // verus!
