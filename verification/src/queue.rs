//! One named queue: a buffer of values, the consumers that wait for one, and
//! an optional bound on the buffer.

use crate::channel::offer;
use crate::error::Error;
use std::collections::VecDeque;
use tokio::sync::mpsc::{Receiver, Sender};
use vstd::prelude::*;

verus! {

/// What a queue is, as far as its contracts are concerned.
#[verifier::reject_recursive_types(T)]
pub ghost struct QueueState<T> {
    /// The values that wait for a consumer, oldest first.
    pub buffer: Seq<T>,
    /// The producer's halves of the slots of the consumers that wait for a
    /// value, in the order in which they registered.
    pub waiters: Seq<Sender<T>>,
    /// The most values the buffer may hold; `None` for no bound.
    pub capacity: Option<usize>,
}

impl<T> QueueState<T> {
    /// A queue that holds nothing and that nobody waits on.
    pub open spec fn fresh(capacity: Option<usize>) -> Self {
        QueueState { buffer: Seq::empty(), waiters: Seq::empty(), capacity }
    }

    /// The buffer respects the capacity, and buffered values never coexist
    /// with waiters.
    pub open spec fn wf(self) -> bool {
        &&& self.capacity matches Some(c) ==> self.buffer.len() <= c
        &&& self.buffer.len() == 0 || self.waiters.len() == 0
    }

    /// No buffered value and no waiter.
    pub open spec fn is_idle(self) -> bool {
        self.buffer.len() == 0 && self.waiters.len() == 0
    }

    /// The buffer has reached the capacity.
    pub open spec fn is_full(self) -> bool {
        self.capacity matches Some(c) && self.buffer.len() >= c
    }

    /// The queue after the waiter at position `k` took a pushed value: that
    /// waiter and those before it, which declined, have left.
    pub open spec fn handed_to(self, k: int) -> Self {
        QueueState { waiters: self.waiters.skip(k + 1), ..self }
    }

    /// The queue after a pushed value that no waiter took, with the answer to
    /// the push: no waiter is left, and the value joins the back of the buffer
    /// unless the queue is full.
    pub open spec fn stored(self, value: T) -> (Self, Result<(), Error>) {
        if self.is_full() {
            (QueueState { waiters: Seq::empty(), ..self }, Err(Error::QueueIsFull))
        } else {
            (
                QueueState { buffer: self.buffer.push(value), waiters: Seq::empty(), ..self },
                Ok(()),
            )
        }
    }

    /// Whether `taker` can describe a push to this queue: `Some(k)` says that
    /// the waiter at position `k` took the value, `None` that no waiter did.
    pub open spec fn may_take(self, taker: Option<int>) -> bool {
        taker matches Some(k) ==> 0 <= k < self.waiters.len()
    }

    /// The queue after a push of `value`, with the answer to the push, given
    /// which waiter took the value. A value that a waiter takes never reaches
    /// the buffer, whatever the capacity.
    pub open spec fn pushed(self, value: T, taker: Option<int>) -> (Self, Result<(), Error>) {
        match taker {
            Some(k) => (self.handed_to(k), Ok(())),
            None => self.stored(value),
        }
    }

    /// The queue after a pop, with the answer to the pop: the front of the
    /// buffer leaves it, and an empty buffer gives `QueueIsEmpty`.
    pub open spec fn popped(self) -> (Self, Result<T, Error>) {
        if self.buffer.len() == 0 {
            (self, Err(Error::QueueIsEmpty))
        } else {
            (QueueState { buffer: self.buffer.skip(1), ..self }, Ok(self.buffer[0]))
        }
    }

    /// The queue after `waiter` registered behind the waiters already there.
    pub open spec fn enrolled(self, waiter: Sender<T>) -> Self {
        QueueState { waiters: self.waiters.push(waiter), ..self }
    }
}

/// A FIFO buffer of values with the consumers that wait on it.
#[verifier::reject_recursive_types(T)]
pub struct AsyncQueue<T> {
    inner: VecDeque<T>,
    subscribers: VecDeque<Sender<T>>,
    capacity: Option<usize>,
}

/// What a subscription gives: a value that was already buffered, or the
/// consumer's half of a slot on which to await the next push.
#[verifier::reject_recursive_types(T)]
pub enum ValueOrReciever<T> {
    Value(T),
    Receiver(Receiver<T>),
}

impl<T> View for AsyncQueue<T> {
    type V = QueueState<T>;

    closed spec fn view(&self) -> QueueState<T> {
        QueueState { buffer: self.inner@, waiters: self.subscribers@, capacity: self.capacity }
    }
}

impl<T> AsyncQueue<T> {
    /// An idle queue with the given capacity.
    pub fn new(capacity: Option<usize>) -> (queue: Self)
        ensures
            queue@ == QueueState::<T>::fresh(capacity),
    {
        Self { capacity, inner: VecDeque::new(), subscribers: VecDeque::new() }
    }

    /// Pushes `value`. The waiters are offered it first, in the order in which
    /// they registered; the first that takes it ends the push, and those that
    /// declined before it are dropped. Only a value that no waiter took is
    /// held against the capacity: it joins the back of the buffer, or the push
    /// fails with `QueueIsFull` and leaves the buffer as it was.
    ///
    /// Whether a waiter takes the value is its consumer's doing, so the
    /// contract holds for some `taker`; with no waiter registered the outcome
    /// is `pushed(value, None)`.
    pub fn push(&mut self, value: T) -> (r: Result<(), Error>)
        ensures
            exists|taker: Option<int>|
                old(self)@.may_take(taker) && (final(self)@, r) == #[trigger] old(self)@.pushed(
                    value,
                    taker,
                ),
            old(self)@.wf() ==> final(self)@.wf(),
    {
        match self.try_send(value) {
            None => {
                proof {
                    let k = choose|k: int|
                        0 <= k < old(self)@.waiters.len() && self@ == old(self)@.handed_to(k);
                    assert(old(self)@.may_take(Some(k)));
                    assert((self@, Ok::<(), Error>(())) == old(self)@.pushed(value, Some(k)));
                }
                Ok(())
            },
            Some(value) => {
                let r = self.store(value);
                proof {
                    assert(old(self)@.may_take(None));
                    assert((self@, r) == old(self)@.pushed(value, None));
                }
                r
            },
        }
    }

    /// Appends `value` to the buffer of a queue whose waiters have all left,
    /// unless the buffer has reached the capacity.
    fn store(&mut self, value: T) -> (r: Result<(), Error>)
        requires
            old(self)@.waiters.len() == 0,
        ensures
            (final(self)@, r) == old(self)@.stored(value),
    {
        match self.capacity {
            Some(capacity) => {
                if self.inner.len() >= capacity {
                    assert(self@.waiters =~= Seq::empty());
                    return Err(Error::QueueIsFull);
                }
            },
            None => {},
        }
        self.inner.push_back(value);
        assert(self@.waiters =~= Seq::empty());
        Ok(())
    }

    /// Takes the value at the front of the buffer, without waiting: an empty
    /// buffer gives `QueueIsEmpty`, whether or not consumers wait.
    pub fn pop(&mut self) -> (r: Result<T, Error>)
        ensures
            (final(self)@, r) == old(self)@.popped(),
            old(self)@.wf() ==> final(self)@.wf(),
    {
        match self.inner.pop_front() {
            Some(value) => {
                assert(self.inner@ =~= old(self).inner@.skip(1));
                Ok(value)
            },
            None => Err(Error::QueueIsEmpty),
        }
    }

    /// Takes the value at the front of the buffer if there is one. Otherwise
    /// registers a new waiter behind those already there and hands out the
    /// consumer's half of its slot, on which the next push that reaches this
    /// waiter delivers its value.
    pub fn pop_with_subscribe(&mut self) -> (r: ValueOrReciever<T>)
        ensures
            match r {
                ValueOrReciever::Value(value) => (final(self)@, Ok::<T, Error>(value)) == old(
                    self,
                )@.popped(),
                ValueOrReciever::Receiver(_) => {
                    &&& old(self)@.buffer.len() == 0
                    &&& final(self)@.waiters.len() == old(self)@.waiters.len() + 1
                    &&& final(self)@ == old(self)@.enrolled(final(self)@.waiters.last())
                },
            },
            old(self)@.wf() ==> final(self)@.wf(),
    {
        match self.inner.pop_front() {
            Some(value) => {
                assert(self.inner@ =~= old(self).inner@.skip(1));
                ValueOrReciever::Value(value)
            },
            None => {
                let (sender, receiver) = tokio::sync::mpsc::channel(1);
                self.subscribers.push_back(sender);
                assert(self.subscribers@ =~= old(self).subscribers@.push(
                    self.subscribers@.last(),
                ));
                ValueOrReciever::Receiver(receiver)
            },
        }
    }

    /// The number of buffered values.
    pub fn len(&self) -> (n: usize)
        ensures
            n == self@.buffer.len(),
    {
        self.inner.len()
    }

    /// The number of registered waiters, those whose consumer has given up
    /// and that no push has swept yet included.
    pub fn subscribers(&self) -> (n: usize)
        ensures
            n == self@.waiters.len(),
    {
        self.subscribers.len()
    }

    /// Offers `value` to the waiters, front to back, until one takes it. The
    /// waiters that decline leave the queue. Gives the value back if none took
    /// it.
    fn try_send(&mut self, value: T) -> (left: Option<T>)
        ensures
            final(self)@.buffer == old(self)@.buffer,
            final(self)@.capacity == old(self)@.capacity,
            match left {
                None => exists|k: int|
                    0 <= k < old(self)@.waiters.len() && final(self)@ == old(self)@.handed_to(k),
                Some(v) => v == value && final(self)@.waiters.len() == 0,
            },
    {
        let mut current = value;
        let ghost mut tried: int = 0;
        loop
            invariant
                current == value,
                self.inner@ == old(self).inner@,
                self.capacity == old(self).capacity,
                0 <= tried <= old(self).subscribers@.len(),
                self.subscribers@ == old(self).subscribers@.skip(tried),
            decreases self.subscribers@.len(),
        {
            match self.subscribers.pop_front() {
                None => {
                    return Some(current);
                },
                Some(sender) => {
                    assert(self.subscribers@ =~= old(self).subscribers@.skip(tried + 1));
                    match offer(sender, current) {
                        None => {
                            assert(self@ == old(self)@.handed_to(tried));
                            return None;
                        },
                        Some(back) => {
                            current = back;
                        },
                    }
                    proof {
                        tried = tried + 1;
                    }
                },
            }
        }
    }
}

} // verus!
