//! A priority queue of request deadlines that supports removal by request id.
//!
//! The queue is a binary min-heap of `(deadline, id)` pairs, ordered by deadline
//! and then by id, together with a hash index from each id to the position of
//! its pair in the heap. Insertion, removal of the earliest pair and removal by
//! id each cost a logarithmic number of swaps.

use std::collections::HashMap;
use vstd::prelude::*;
use vstd::std_specs::hash::*;

verus! {

broadcast use vstd::std_specs::hash::group_hash_axioms;

/// One node of the queue: a request id and the instant at which it expires.
#[derive(Clone, Copy, Debug)]
struct Slot {
    deadline: u64,
    id: u64,
}

/// The order of the queue: by deadline, ties broken by request id.
pub open spec fn precedes(d1: u64, id1: u64, d2: u64, id2: u64) -> bool {
    d1 < d2 || (d1 == d2 && id1 <= id2)
}

/// `id` is the entry of `m` that expires first.
pub open spec fn is_earliest(m: Map<u64, u64>, id: u64) -> bool {
    &&& m.contains_key(id)
    &&& forall|other: u64| #[trigger]
        m.contains_key(other) ==> precedes(m[id], id, m[other], other)
}

/// At most one entry of a map expires first.
pub proof fn lemma_earliest_unique(m: Map<u64, u64>, a: u64, b: u64)
    requires
        is_earliest(m, a),
        is_earliest(m, b),
    ensures
        a == b,
{
    assert(m.contains_key(a));
    assert(m.contains_key(b));
}

/// A finite map with an entry has an entry that expires first.
pub proof fn lemma_earliest_exists(m: Map<u64, u64>)
    requires
        m.dom().finite(),
        m.len() > 0,
    ensures
        exists|id: u64| is_earliest(m, id),
    decreases m.len(),
{
    let k = m.dom().choose();
    assert(m.contains_key(k));
    let rest = m.remove(k);
    if rest.len() == 0 {
        rest.dom().lemma_len0_is_empty();
        assert forall|other: u64| #[trigger] m.contains_key(other) implies precedes(
            m[k],
            k,
            m[other],
            other,
        ) by {
            if other != k {
                assert(rest.dom().contains(other));
            }
        }
        assert(is_earliest(m, k));
    } else {
        lemma_earliest_exists(rest);
        let e = choose|id: u64| is_earliest(rest, id);
        assert(rest.contains_key(e));
        if precedes(m[k], k, m[e], e) {
            assert forall|other: u64| #[trigger] m.contains_key(other) implies precedes(
                m[k],
                k,
                m[other],
                other,
            ) by {
                if other != k {
                    assert(rest.contains_key(other));
                }
            }
            assert(is_earliest(m, k));
        } else {
            assert forall|other: u64| #[trigger] m.contains_key(other) implies precedes(
                m[e],
                e,
                m[other],
                other,
            ) by {
                if other != k {
                    assert(rest.contains_key(other));
                }
            }
            assert(is_earliest(m, e));
        }
    }
}

spec fn slot_le(a: Slot, b: Slot) -> bool {
    precedes(a.deadline, a.id, b.deadline, b.id)
}

spec fn parent(i: int) -> int {
    (i - 1) / 2
}

/// Position `i` is in order with respect to its parent.
spec fn ordered_at(s: Seq<Slot>, i: int) -> bool {
    i > 0 ==> slot_le(s[parent(i)], s[i])
}

/// Every position is in order with respect to its parent.
spec fn heap_ordered(s: Seq<Slot>) -> bool {
    forall|i: int| 0 <= i < s.len() ==> #[trigger] ordered_at(s, i)
}

/// The parent of `k`, if any, precedes the children of `k`.
spec fn bridged(s: Seq<Slot>, k: int) -> bool {
    forall|c: int|
        0 < k && 0 < c < s.len() && parent(c) == k ==> slot_le(s[parent(k)], #[trigger] s[c])
}

/// Every position but `k` is in order with respect to its parent.
spec fn ordered_above(s: Seq<Slot>, k: int) -> bool {
    &&& forall|i: int| 0 <= i < s.len() && i != k ==> #[trigger] ordered_at(s, i)
    &&& bridged(s, k)
}

/// Every position but the children of `k` is in order with respect to its parent.
spec fn ordered_below(s: Seq<Slot>, k: int) -> bool {
    &&& forall|i: int| 0 <= i < s.len() && parent(i) != k ==> #[trigger] ordered_at(s, i)
    &&& ordered_at(s, k)
    &&& bridged(s, k)
}

/// The index maps each id in the heap to its position, and nothing else.
spec fn indexed(s: Seq<Slot>, index: Map<u64, usize>) -> bool {
    &&& forall|i: int|
        0 <= i < s.len() ==> index.contains_key(#[trigger] s[i].id) && index[s[i].id] == i
    &&& forall|id: u64| #[trigger]
        index.contains_key(id) ==> index[id] < s.len() && s[index[id] as int].id == id
}

/// The deadlines of a heap, keyed by request id.
spec fn contents(s: Seq<Slot>, index: Map<u64, usize>) -> Map<u64, u64> {
    Map::new(|id: u64| index.contains_key(id), |id: u64| s[index[id] as int].deadline)
}

/// In an ordered heap the root precedes every position.
proof fn lemma_root_first(s: Seq<Slot>, i: int)
    requires
        heap_ordered(s),
        0 <= i < s.len(),
    ensures
        slot_le(s[0], s[i]),
    decreases i,
{
    if i > 0 {
        assert(ordered_at(s, i));
        lemma_root_first(s, parent(i));
    }
}

/// The root of an ordered, indexed heap is the earliest entry of its contents.
proof fn lemma_root_earliest(s: Seq<Slot>, index: Map<u64, usize>)
    requires
        heap_ordered(s),
        indexed(s, index),
        s.len() > 0,
    ensures
        is_earliest(contents(s, index), s[0].id),
        contents(s, index)[s[0].id] == s[0].deadline,
{
    let m = contents(s, index);
    assert(index.contains_key(s[0].id));
    assert forall|other: u64| #[trigger] m.contains_key(other) implies precedes(
        m[s[0].id],
        s[0].id,
        m[other],
        other,
    ) by {
        assert(index.contains_key(other));
        lemma_root_first(s, index[other] as int);
    }
}

/// Deadlines of in-flight requests, earliest first, addressable by request id.
pub struct DeadlineQueue {
    heap: Vec<Slot>,
    index: HashMap<u64, usize>,
}

impl View for DeadlineQueue {
    type V = Map<u64, u64>;

    closed spec fn view(&self) -> Map<u64, u64> {
        contents(self.heap@, self.index@)
    }
}

impl DeadlineQueue {
    /// The heap is ordered and the index agrees with it.
    pub closed spec fn wf(&self) -> bool {
        &&& heap_ordered(self.heap@)
        &&& indexed(self.heap@, self.index@)
    }

    /// A well-formed queue holds finitely many entries.
    pub proof fn lemma_finite(&self)
        requires
            self.wf(),
        ensures
            self@.dom().finite(),
    {
        assert(self@.dom() =~= self.index@.dom());
    }

    /// A queue with no entry.
    pub fn new() -> (queue: Self)
        ensures
            queue.wf(),
            queue@ == Map::<u64, u64>::empty(),
    {
        let queue = DeadlineQueue { heap: Vec::new(), index: HashMap::new() };
        assert(queue@ =~= Map::<u64, u64>::empty());
        queue
    }

    /// The number of entries.
    pub fn len(&self) -> (n: usize)
        requires
            self.wf(),
        ensures
            n == self@.len(),
    {
        assert(self@.dom() =~= self.index@.dom());
        self.index.len()
    }

    /// Whether the queue has no entry.
    pub fn is_empty(&self) -> (empty: bool)
        requires
            self.wf(),
        ensures
            empty == (self@ == Map::<u64, u64>::empty()),
    {
        let empty = self.heap.len() == 0;
        proof {
            if empty {
                assert(self@ =~= Map::<u64, u64>::empty());
            } else {
                assert(self.index@.contains_key(self.heap@[0].id));
                assert(self@.contains_key(self.heap@[0].id));
            }
        }
        empty
    }

    /// Whether `id` has an entry.
    pub fn contains(&self, id: u64) -> (present: bool)
        requires
            self.wf(),
        ensures
            present == self@.contains_key(id),
    {
        self.index.contains_key(&id)
    }

    /// The deadline of `id`, if it has an entry.
    pub fn deadline_of(&self, id: u64) -> (deadline: Option<u64>)
        requires
            self.wf(),
        ensures
            deadline == (if self@.contains_key(id) {
                Some(self@[id])
            } else {
                None
            }),
    {
        match self.index.get(&id) {
            Some(pos) => Some(self.heap[*pos].deadline),
            None => None,
        }
    }

    /// The entry that expires first, as `(deadline, id)`.
    pub fn peek(&self) -> (first: Option<(u64, u64)>)
        requires
            self.wf(),
        ensures
            first is None <==> self@ == Map::<u64, u64>::empty(),
            first matches Some((deadline, id)) ==> is_earliest(self@, id) && self@[id] == deadline,
    {
        if self.heap.len() == 0 {
            assert(self@ =~= Map::<u64, u64>::empty());
            None
        } else {
            proof {
                lemma_root_earliest(self.heap@, self.index@);
            }
            let slot = self.heap[0];
            Some((slot.deadline, slot.id))
        }
    }

    /// Exchanges the slots at `i` and `j` and repairs the index.
    fn swap(&mut self, i: usize, j: usize)
        requires
            indexed(old(self).heap@, old(self).index@),
            i < old(self).heap@.len(),
            j < old(self).heap@.len(),
        ensures
            indexed(final(self).heap@, final(self).index@),
            final(self).heap@ == old(self).heap@.update(i as int, old(self).heap@[j as int]).update(
                j as int,
                old(self).heap@[i as int],
            ),
            final(self)@ == old(self)@,
            final(self).index@.dom() == old(self).index@.dom(),
    {
        let a = self.heap[i];
        let b = self.heap[j];
        self.heap[i] = b;
        self.heap[j] = a;
        self.index.insert(b.id, i);
        self.index.insert(a.id, j);
        proof {
            assert(old(self).index@.contains_key(a.id));
            assert(old(self).index@.contains_key(b.id));
            assert(self.index@.dom() =~= old(self).index@.dom());
            assert(self@ =~= old(self)@);
        }
    }

    /// Moves the slot at `k` towards the root until its parent precedes it.
    fn sift_up(&mut self, k: usize)
        requires
            indexed(old(self).heap@, old(self).index@),
            k < old(self).heap@.len(),
            ordered_above(old(self).heap@, k as int),
        ensures
            final(self).wf(),
            final(self)@ == old(self)@,
    {
        let mut k = k;
        loop
            invariant
                indexed(self.heap@, self.index@),
                k < self.heap@.len(),
                ordered_above(self.heap@, k as int),
                self@ == old(self)@,
            ensures
                self.wf(),
                self@ == old(self)@,
            decreases k,
        {
            if k == 0 {
                break ;
            }
            let p = (k - 1) / 2;
            let child = self.heap[k];
            let above = self.heap[p];
            if above.deadline < child.deadline || (above.deadline == child.deadline && above.id
                <= child.id) {
                assert(ordered_at(self.heap@, k as int));
                break ;
            }
            let ghost before = self.heap@;
            self.swap(k, p);
            proof {
                let after = self.heap@;
                assert forall|i: int| 0 <= i < after.len() && i != p implies #[trigger] ordered_at(
                    after,
                    i,
                ) by {
                    if i == k {
                    } else if i > 0 && parent(i) == k {
                        assert(slot_le(before[p as int], before[i]));
                    } else if i > 0 && parent(i) == p {
                        assert(ordered_at(before, i));
                    } else {
                        assert(ordered_at(before, i));
                    }
                }
                assert forall|c: int|
                    0 < p && 0 < c < after.len() && parent(c) == p implies slot_le(
                    after[parent(p as int)],
                    #[trigger] after[c],
                ) by {
                    assert(ordered_at(before, p as int));
                    if c != k {
                        assert(ordered_at(before, c));
                    }
                }
            }
            k = p;
        }
    }

    /// Moves the slot at `k` away from the root until it precedes its children.
    fn sift_down(&mut self, k: usize)
        requires
            indexed(old(self).heap@, old(self).index@),
            k < old(self).heap@.len(),
            ordered_below(old(self).heap@, k as int),
        ensures
            final(self).wf(),
            final(self)@ == old(self)@,
    {
        let mut k = k;
        let n = self.heap.len();
        loop
            invariant
                indexed(self.heap@, self.index@),
                n == self.heap@.len(),
                k < n,
                ordered_below(self.heap@, k as int),
                self@ == old(self)@,
            ensures
                self.wf(),
                self@ == old(self)@,
            decreases n - k,
        {
            if k >= (n - 1) / 2 + 1 || 2 * k + 1 >= n {
                proof {
                    assert forall|i: int| 0 <= i < self.heap@.len() implies #[trigger] ordered_at(
                        self.heap@,
                        i,
                    ) by {
                        if i > 0 && parent(i) == k {
                            assert(i >= 2 * k + 1);
                        }
                    }
                }
                break ;
            }
            let left = 2 * k + 1;
            let mut least = left;
            if left + 1 < n {
                let l = self.heap[left];
                let r = self.heap[left + 1];
                if r.deadline < l.deadline || (r.deadline == l.deadline && r.id < l.id) {
                    least = left + 1;
                }
            }
            let here = self.heap[k];
            let below = self.heap[least];
            if here.deadline < below.deadline || (here.deadline == below.deadline && here.id
                <= below.id) {
                proof {
                    assert forall|i: int| 0 <= i < self.heap@.len() implies #[trigger] ordered_at(
                        self.heap@,
                        i,
                    ) by {
                        if i > 0 && parent(i) == k {
                            assert(i == left || i == left + 1);
                        }
                    }
                }
                break ;
            }
            let ghost before = self.heap@;
            self.swap(k, least);
            proof {
                let after = self.heap@;
                assert forall|i: int|
                    0 <= i < after.len() && parent(i) != least implies #[trigger] ordered_at(
                    after,
                    i,
                ) by {
                    if i == k {
                        if k > 0 {
                            assert(slot_le(before[parent(k as int)], before[least as int]));
                        }
                    } else if i > 0 && parent(i) == k {
                        assert(i == left || i == left + 1);
                    } else {
                        assert(ordered_at(before, i));
                    }
                }
                assert(ordered_at(after, least as int));
                assert forall|c: int|
                    0 < least && 0 < c < after.len() && parent(c) == least implies slot_le(
                    after[parent(least as int)],
                    #[trigger] after[c],
                ) by {
                    assert(ordered_at(before, c));
                }
            }
            k = least;
        }
    }

    /// Gives `id` the deadline `deadline`, whether or not it had one.
    pub fn insert(&mut self, id: u64, deadline: u64)
        requires
            old(self).wf(),
        ensures
            final(self).wf(),
            final(self)@ == old(self)@.insert(id, deadline),
    {
        if self.index.contains_key(&id) {
            self.remove(id);
        }
        let ghost before = self@;
        let ghost heap_before = self.heap@;
        let ghost index_before = self.index@;
        assert(!index_before.contains_key(id)) by {
            assert(before.contains_key(id) == index_before.contains_key(id));
            assert(!before.contains_key(id));
        }
        let k = self.heap.len();
        self.heap.push(Slot { deadline, id });
        self.index.insert(id, k);
        proof {
            let s = self.heap@;
            assert forall|i: int| 0 <= i < s.len() implies self.index@.contains_key(
                #[trigger] s[i].id,
            ) && self.index@[s[i].id] == i by {
                if i < k {
                    assert(s[i] == heap_before[i]);
                    assert(index_before.contains_key(s[i].id));
                }
            }
            assert forall|i: int| 0 <= i < s.len() && i != k implies #[trigger] ordered_at(
                s,
                i,
            ) by {
                assert(ordered_at(heap_before, i));
            }
            assert(self@ =~= before.insert(id, deadline));
            assert(before.insert(id, deadline) =~= old(self)@.insert(id, deadline));
        }
        let ghost target = self@;
        self.sift_up(k);
        assert(self@ == target);
    }

    /// Removes the slot at `pos` and restores the order.
    fn remove_at(&mut self, pos: usize) -> (slot: Slot)
        requires
            old(self).wf(),
            pos < old(self).heap@.len(),
        ensures
            final(self).wf(),
            slot == old(self).heap@[pos as int],
            final(self)@ == old(self)@.remove(slot.id),
    {
        let last = self.heap.len() - 1;
        if pos != last {
            self.swap(pos, last);
        }
        let ghost swapped = self.heap@;
        let ghost swapped_index = self.index@;
        let slot = self.heap.pop().unwrap();
        self.index.remove(&slot.id);
        proof {
            let s = self.heap@;
            assert(slot == old(self).heap@[pos as int]);
            assert(s =~= swapped.take(last as int));
            assert forall|i: int| 0 <= i < s.len() implies self.index@.contains_key(
                #[trigger] s[i].id,
            ) && self.index@[s[i].id] == i by {
                assert(s[i] == swapped[i]);
                assert(swapped_index.contains_key(swapped[i].id));
            }
            assert forall|id: u64| #[trigger] self.index@.contains_key(id) implies self.index@[id]
                < s.len() && s[self.index@[id] as int].id == id by {
                assert(swapped_index.contains_key(id));
            }
            assert(self@ =~= old(self)@.remove(slot.id));
        }
        if pos < last {
            proof {
                let s = self.heap@;
                let o = old(self).heap@;
                assert forall|i: int|
                    0 <= i < s.len() && i != pos && parent(i) != pos implies #[trigger] ordered_at(
                    s,
                    i,
                ) by {
                    assert(ordered_at(o, i));
                }
                assert forall|c: int|
                    0 < pos && 0 < c < s.len() && parent(c) == pos implies slot_le(
                    s[parent(pos as int)],
                    #[trigger] s[c],
                ) by {
                    assert(ordered_at(o, c));
                    assert(ordered_at(o, pos as int));
                }
            }
            let ghost target = self@;
            let moved = self.heap[pos];
            let mut rises = false;
            if pos > 0 {
                let above = self.heap[(pos - 1) / 2];
                rises = moved.deadline < above.deadline || (moved.deadline == above.deadline
                    && moved.id < above.id);
            }
            if rises {
                proof {
                    let s = self.heap@;
                    assert forall|i: int| 0 <= i < s.len() && i != pos implies #[trigger] ordered_at(
                        s,
                        i,
                    ) by {
                        if i > 0 && parent(i) == pos {
                            assert(slot_le(s[parent(pos as int)], s[i]));
                        }
                    }
                }
                self.sift_up(pos);
            } else {
                assert(ordered_at(self.heap@, pos as int));
                self.sift_down(pos);
            }
            assert(self@ == target);
        } else {
            proof {
                let s = self.heap@;
                assert forall|i: int| 0 <= i < s.len() implies #[trigger] ordered_at(s, i) by {
                    assert(ordered_at(old(self).heap@, i));
                }
            }
        }
        slot
    }

    /// Removes the entry of `id`, if it has one, and returns its deadline.
    pub fn remove(&mut self, id: u64) -> (deadline: Option<u64>)
        requires
            old(self).wf(),
        ensures
            final(self).wf(),
            final(self)@ == old(self)@.remove(id),
            deadline == (if old(self)@.contains_key(id) {
                Some(old(self)@[id])
            } else {
                None
            }),
    {
        let found = match self.index.get(&id) {
            Some(pos) => Some(*pos),
            None => None,
        };
        match found {
            Some(pos) => {
                let slot = self.remove_at(pos);
                Some(slot.deadline)
            },
            None => {
                assert(self@ =~= old(self)@.remove(id));
                None
            },
        }
    }

    /// Removes the entry that expires first and returns it as `(deadline, id)`.
    pub fn pop(&mut self) -> (first: Option<(u64, u64)>)
        requires
            old(self).wf(),
        ensures
            final(self).wf(),
            first is None <==> old(self)@ == Map::<u64, u64>::empty(),
            first is None ==> final(self)@ == old(self)@,
            first matches Some((deadline, id)) ==> {
                &&& is_earliest(old(self)@, id)
                &&& old(self)@[id] == deadline
                &&& final(self)@ == old(self)@.remove(id)
            },
    {
        if self.heap.len() == 0 {
            assert(self@ =~= Map::<u64, u64>::empty());
            None
        } else {
            proof {
                lemma_root_earliest(self.heap@, self.index@);
            }
            let slot = self.remove_at(0);
            Some((slot.deadline, slot.id))
        }
    }
}

} // verus!
