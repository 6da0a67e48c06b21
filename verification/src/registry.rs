//! The registry: every queue of the broker, found by its key.

use crate::error::Error;
use crate::queue::{AsyncQueue, QueueState, ValueOrReciever};
use vstd::hash_map::StringHashMap;
use vstd::prelude::*;

verus! {

/// What a registry is, as far as its contracts are concerned: the state of
/// each queue that was ever referred to, by its key.
pub type Queues<V> = Map<Seq<char>, QueueState<V>>;

/// The queue that a push under `key` works on: a fresh one with the capacity
/// that the push names where the key is new or its queue idle, otherwise the
/// queue as it stands, with the capacity that it has.
pub open spec fn queue_for_push<V>(
    queues: Queues<V>,
    key: Seq<char>,
    capacity: Option<usize>,
) -> QueueState<V> {
    if queues.contains_key(key) && !queues[key].is_idle() {
        queues[key]
    } else {
        QueueState::fresh(capacity)
    }
}

/// The queue that a subscription under `key` works on: the queue as it
/// stands, or a fresh one without a bound where the key is new.
pub open spec fn queue_for_subscribe<V>(queues: Queues<V>, key: Seq<char>) -> QueueState<V> {
    if queues.contains_key(key) {
        queues[key]
    } else {
        QueueState::fresh(None)
    }
}

/// The registry after a push of `value` under `key`, with the answer to the
/// push, given which waiter of the queue took the value.
pub open spec fn push_under<V>(
    queues: Queues<V>,
    key: Seq<char>,
    value: V,
    capacity: Option<usize>,
    taker: Option<int>,
) -> (Queues<V>, Result<(), Error>) {
    let after = queue_for_push(queues, key, capacity).pushed(value, taker);
    (queues.insert(key, after.0), after.1)
}

/// The registry after a pop under `key`, with the answer to the pop: a key
/// without a queue gives `QueueNotFound` and changes nothing.
pub open spec fn pop_under<V>(queues: Queues<V>, key: Seq<char>) -> (Queues<V>, Result<V, Error>) {
    if queues.contains_key(key) {
        let after = queues[key].popped();
        (queues.insert(key, after.0), after.1)
    } else {
        (queues, Err(Error::QueueNotFound))
    }
}

/// Every queue respects its capacity and never holds values and waiters at
/// once.
pub open spec fn all_wf<V>(queues: Queues<V>) -> bool {
    forall|key: Seq<char>| queues.contains_key(key) ==> (#[trigger] queues[key]).wf()
}

/// Replacing one queue by a well-formed one, or adding such a queue, keeps
/// every queue well-formed.
proof fn lemma_insert_wf<V>(queues: Queues<V>, key: Seq<char>, queue: QueueState<V>)
    ensures
        all_wf(queues) && queue.wf() ==> all_wf(queues.insert(key, queue)),
{
    if all_wf(queues) && queue.wf() {
        assert forall|other: Seq<char>| queues.insert(key, queue).contains_key(other) implies (
        #[trigger] queues.insert(key, queue)[other]).wf() by {
            if other != key {
                assert(queues[other].wf());
            }
        }
    }
}

/// The queues of the broker. A queue comes into being when its key is first
/// pushed to or subscribed to, and is never removed.
#[verifier::reject_recursive_types(V)]
pub struct QueueMap<V> {
    /// Where in `queues` the queue of each key stands.
    index: StringHashMap<usize>,
    queues: Vec<AsyncQueue<V>>,
}

impl<V> View for QueueMap<V> {
    type V = Queues<V>;

    closed spec fn view(&self) -> Queues<V> {
        Map::new(
            |key: Seq<char>| self.index@.contains_key(key),
            |key: Seq<char>| self.queues@[self.index@[key] as int]@,
        )
    }
}

impl<V> QueueMap<V> {
    /// Each key leads to a queue of its own.
    pub closed spec fn wf(&self) -> bool {
        &&& forall|key: Seq<char>|
            self.index@.contains_key(key) ==> (#[trigger] self.index@[key]) < self.queues@.len()
        &&& forall|a: Seq<char>, b: Seq<char>|
            self.index@.contains_key(a) && self.index@.contains_key(b) && #[trigger] self.index@[a]
                == #[trigger] self.index@[b] ==> a == b
    }

    /// A registry without queues.
    pub fn new() -> (registry: Self)
        ensures
            registry.wf(),
            registry@ == Queues::<V>::empty(),
    {
        let registry = QueueMap { index: StringHashMap::new(), queues: Vec::new() };
        assert(registry@ =~= Queues::<V>::empty());
        registry
    }

    /// Where the queue of `key` stands, if the key is known.
    fn find(&self, key: &str) -> (slot: Option<usize>)
        requires
            self.wf(),
        ensures
            match slot {
                Some(slot) => self.index@.contains_key(key@) && slot == self.index@[key@] && slot
                    < self.queues@.len(),
                None => !self.index@.contains_key(key@),
            },
    {
        match self.index.get(key) {
            Some(slot) => Some(*slot),
            None => None,
        }
    }

    /// Where the queue stands that a push or a subscription under `key` works
    /// on. A new key gets a fresh queue with `capacity`. With `rebind`, so does
    /// a known key whose queue is idle: its queue is replaced.
    fn prepare(&mut self, key: String, capacity: Option<usize>, rebind: bool) -> (slot: usize)
        requires
            old(self).wf(),
        ensures
            final(self).wf(),
            final(self).index@.contains_key(key@),
            final(self).index@[key@] == slot,
            slot < final(self).queues@.len(),
            final(self)@ == old(self)@.insert(key@, final(self).queues@[slot as int]@),
            final(self).queues@[slot as int]@ == (if old(self)@.contains_key(key@) && !(rebind
                && old(self)@[key@].is_idle()) {
                old(self)@[key@]
            } else {
                QueueState::<V>::fresh(capacity)
            }),
    {
        match self.find(key.as_str()) {
            Some(slot) => {
                if rebind && self.queues[slot].len() == 0 && self.queues[slot].subscribers() == 0 {
                    self.queues[slot] = AsyncQueue::new(capacity);
                }
                proof {
                    self.lemma_one_changed(*old(self), slot, key@);
                }
                slot
            },
            None => {
                let slot = self.queues.len();
                self.queues.push(AsyncQueue::new(capacity));
                self.index.insert(key, slot);
                assert(self@ =~= old(self)@.insert(key@, self.queues@[slot as int]@));
                slot
            },
        }
    }

    /// Pushes `value` to the queue of `key`. A key that is new gets a queue
    /// with `capacity`. So does a key whose queue is idle, which is the one
    /// way in which a queue's capacity changes: a queue that holds values or
    /// has waiters keeps its own capacity and `capacity` goes unused. The push
    /// itself is `AsyncQueue::push` on that queue, so a value that no waiter
    /// takes and that finds the buffer full gives `QueueIsFull`.
    pub fn push(&mut self, key: String, value: V, capacity: Option<usize>) -> (r: Result<
        (),
        Error,
    >)
        requires
            old(self).wf(),
        ensures
            final(self).wf(),
            exists|taker: Option<int>|
                queue_for_push(old(self)@, key@, capacity).may_take(taker) && (final(self)@, r)
                    == #[trigger] push_under(old(self)@, key@, value, capacity, taker),
            all_wf(old(self)@) ==> all_wf(final(self)@),
    {
        let ghost key_view = key@;
        let slot = self.prepare(key, capacity, true);
        let ghost prepared = *self;
        let r = self.queues[slot].push(value);
        proof {
            self.lemma_one_changed(prepared, slot, key_view);
            assert(self@ =~= old(self)@.insert(key_view, self.queues@[slot as int]@));
            let queue = queue_for_push(old(self)@, key_view, capacity);
            assert(queue == prepared.queues@[slot as int]@);
            let taker = choose|taker: Option<int>|
                queue.may_take(taker) && (self.queues@[slot as int]@, r) == #[trigger] queue.pushed(
                    value,
                    taker,
                );
            assert((self@, r) == push_under(old(self)@, key_view, value, capacity, taker));
            lemma_insert_wf(old(self)@, key_view, self.queues@[slot as int]@);
        }
        r
    }

    /// Takes the value at the front of the queue of `key` if there is one.
    /// Otherwise registers a waiter on that queue and hands out the consumer's
    /// half of its slot, for the caller to await. A key that is new gets a
    /// queue without a bound first, so this never gives `QueueNotFound`.
    pub fn pop_with_subscribe(&mut self, key: String) -> (r: ValueOrReciever<V>)
        requires
            old(self).wf(),
        ensures
            final(self).wf(),
            final(self)@ == old(self)@.insert(key@, final(self)@[key@]),
            ({
                let queue = queue_for_subscribe(old(self)@, key@);
                match r {
                    ValueOrReciever::Value(value) => (final(self)@[key@], Ok::<V, Error>(value))
                        == queue.popped(),
                    ValueOrReciever::Receiver(_) => {
                        &&& queue.buffer.len() == 0
                        &&& final(self)@[key@].waiters.len() == queue.waiters.len() + 1
                        &&& final(self)@[key@] == queue.enrolled(final(self)@[key@].waiters.last())
                    },
                }
            }),
            all_wf(old(self)@) ==> all_wf(final(self)@),
    {
        let ghost key_view = key@;
        let slot = self.prepare(key, None, false);
        let ghost prepared = *self;
        let r = self.queues[slot].pop_with_subscribe();
        proof {
            self.lemma_one_changed(prepared, slot, key_view);
            assert(self@ =~= old(self)@.insert(key_view, self.queues@[slot as int]@));
            lemma_insert_wf(old(self)@, key_view, self.queues@[slot as int]@);
        }
        r
    }

    /// Takes the value at the front of the queue of `key`, without waiting.
    /// A key that was never pushed to nor subscribed to gives `QueueNotFound`,
    /// a queue without buffered values `QueueIsEmpty`.
    pub fn pop(&mut self, key: &str) -> (r: Result<V, Error>)
        requires
            old(self).wf(),
        ensures
            final(self).wf(),
            (final(self)@, r) == pop_under(old(self)@, key@),
            all_wf(old(self)@) ==> all_wf(final(self)@),
    {
        match self.find(key) {
            None => Err(Error::QueueNotFound),
            Some(slot) => {
                let r = self.queues[slot].pop();
                proof {
                    self.lemma_one_changed(*old(self), slot, key@);
                    assert(old(self)@[key@] == old(self).queues@[slot as int]@);
                    lemma_insert_wf(old(self)@, key@, self.queues@[slot as int]@);
                }
                r
            },
        }
    }

    /// A registry that differs from `before` in the queue at `slot` alone,
    /// which is that of `key`, views as `before` with that one queue replaced.
    proof fn lemma_one_changed(self, before: Self, slot: usize, key: Seq<char>)
        requires
            before.wf(),
            before.index@.contains_key(key),
            before.index@[key] == slot,
            self.index@ == before.index@,
            self.queues@.len() == before.queues@.len(),
            forall|i: int|
                0 <= i < self.queues@.len() && i != slot ==> self.queues@[i] == before.queues@[i],
        ensures
            self.wf(),
            self@ == before@.insert(key, self.queues@[slot as int]@),
    {
        assert forall|other: Seq<char>| #[trigger] self@.contains_key(other) implies self@[other]
            == before@.insert(key, self.queues@[slot as int]@)[other] by {
            if other != key {
                assert(before.index@[other] != before.index@[key]);
            }
        }
        assert(self@ =~= before@.insert(key, self.queues@[slot as int]@));
    }
}

} // verus!
