//! What follows from the contracts of the queue and of the registry when
//! several operations come one after another.

use crate::error::Error;
use crate::queue::QueueState;
use crate::registry::{all_wf, pop_under, push_under, queue_for_push, Queues};
use tokio::sync::mpsc::Sender;
use vstd::prelude::*;

verus! {

/// The queue after `values` were pushed in turn and no waiter took any.
pub open spec fn after_pushes<T>(queue: QueueState<T>, values: Seq<T>) -> QueueState<T>
    decreases values.len(),
{
    if values.len() == 0 {
        queue
    } else {
        after_pushes(queue, values.drop_last()).pushed(values.last(), None).0
    }
}

/// The answer to the push of `values[i]`, when `values` are pushed in turn
/// and no waiter takes any.
pub open spec fn push_answer<T>(queue: QueueState<T>, values: Seq<T>, i: int) -> Result<
    (),
    Error,
> {
    after_pushes(queue, values.take(i)).pushed(values[i], None).1
}

/// The queue after `n` pops in a row.
pub open spec fn after_pops<T>(queue: QueueState<T>, n: nat) -> QueueState<T>
    decreases n,
{
    if n == 0 {
        queue
    } else {
        after_pops(queue, (n - 1) as nat).popped().0
    }
}

/// The answer to the pop that follows `i` earlier pops.
pub open spec fn pop_answer<T>(queue: QueueState<T>, i: nat) -> Result<T, Error> {
    after_pops(queue, i).popped().1
}

/// How many of `count` values pushed to an empty buffer it keeps.
pub open spec fn room(capacity: Option<usize>, count: nat) -> nat {
    match capacity {
        Some(c) => if count <= c {
            count
        } else {
            c as nat
        },
        None => count,
    }
}

/// Pushes to an idle queue fill its buffer in the order of the pushes, up to
/// the capacity, and leave it without waiters.
proof fn lemma_after_pushes<T>(queue: QueueState<T>, values: Seq<T>)
    requires
        queue.is_idle(),
    ensures
        after_pushes(queue, values).buffer == values.take(room(queue.capacity, values.len()) as int),
        after_pushes(queue, values).waiters.len() == 0,
        after_pushes(queue, values).capacity == queue.capacity,
    decreases values.len(),
{
    if values.len() == 0 {
        assert(queue.buffer =~= values.take(0));
    } else {
        let front = values.drop_last();
        lemma_after_pushes(queue, front);
        let before = after_pushes(queue, front);
        let kept = room(queue.capacity, front.len()) as int;
        assert(before.buffer == front.take(kept));
        if before.is_full() {
            assert(front.take(kept) =~= values.take(kept));
        } else {
            assert(kept == front.len());
            assert(front.take(kept).push(values.last()) =~= values.take(kept + 1));
        }
    }
}

/// Pops take the buffer's values from the front, one each, and touch nothing
/// else.
proof fn lemma_after_pops<T>(queue: QueueState<T>, n: nat)
    ensures
        after_pops(queue, n).buffer == queue.buffer.skip(
            if n <= queue.buffer.len() {
                n as int
            } else {
                queue.buffer.len() as int
            },
        ),
        after_pops(queue, n).waiters == queue.waiters,
        after_pops(queue, n).capacity == queue.capacity,
    decreases n,
{
    if n == 0 {
        assert(queue.buffer =~= queue.buffer.skip(0));
    } else {
        lemma_after_pops(queue, (n - 1) as nat);
        let before = after_pops(queue, (n - 1) as nat);
        if n <= queue.buffer.len() {
            assert(queue.buffer.skip(n - 1).skip(1) =~= queue.buffer.skip(n as int));
        }
    }
}

/// First in, first out. Push any values to an idle queue, with no waiter in
/// between, then pop as many times: each push within the capacity succeeds and
/// each later one fails with `QueueIsFull`; the pops give the values that were
/// accepted, in the order of their pushes, and `QueueIsEmpty` once those are
/// gone; and the queue ends idle as it began.
pub proof fn fifo_order<T>(queue: QueueState<T>, values: Seq<T>)
    requires
        queue.is_idle(),
    ensures
        forall|i: int|
            0 <= i < values.len() ==> #[trigger] push_answer(queue, values, i) == (if i < room(
                queue.capacity,
                values.len(),
            ) {
                Ok::<(), Error>(())
            } else {
                Err(Error::QueueIsFull)
            }),
        forall|i: nat|
            i < values.len() ==> #[trigger] pop_answer(after_pushes(queue, values), i) == (if i
                < room(queue.capacity, values.len()) {
                Ok::<T, Error>(values[i as int])
            } else {
                Err(Error::QueueIsEmpty)
            }),
        after_pops(after_pushes(queue, values), values.len()).is_idle(),
        after_pops(after_pushes(queue, values), values.len()).capacity == queue.capacity,
{
    let filled = after_pushes(queue, values);
    let kept = room(queue.capacity, values.len());
    lemma_after_pushes(queue, values);
    assert forall|i: int| 0 <= i < values.len() implies #[trigger] push_answer(queue, values, i)
        == (if i < kept {
        Ok::<(), Error>(())
    } else {
        Err(Error::QueueIsFull)
    }) by {
        lemma_after_pushes(queue, values.take(i));
    }
    assert forall|i: nat| i < values.len() implies #[trigger] pop_answer(filled, i) == (if i
        < kept {
        Ok::<T, Error>(values[i as int])
    } else {
        Err(Error::QueueIsEmpty)
    }) by {
        lemma_after_pops(filled, i);
    }
    lemma_after_pops(filled, values.len());
}

/// The capacity binds. Of `c + 1` values pushed to an idle queue of capacity
/// `c`, with no waiter in between, the first `c` are accepted, and the last
/// fails with `QueueIsFull` and leaves the buffer as it was, `c` values long.
pub proof fn capacity_enforced<T>(queue: QueueState<T>, values: Seq<T>)
    requires
        queue.is_idle(),
        queue.capacity matches Some(c) && values.len() == c + 1,
    ensures
        forall|i: int|
            0 <= i < values.len() - 1 ==> #[trigger] push_answer(queue, values, i) == Ok::<
                (),
                Error,
            >(()),
        push_answer(queue, values, values.len() - 1) == Err::<(), Error>(Error::QueueIsFull),
        after_pushes(queue, values).buffer == after_pushes(queue, values.drop_last()).buffer,
        after_pushes(queue, values).buffer.len() == values.len() - 1,
{
    fifo_order(queue, values);
    assert(push_answer(queue, values, values.len() - 1) == Err::<(), Error>(Error::QueueIsFull));
    lemma_after_pushes(queue, values);
    lemma_after_pushes(queue, values.drop_last());
    assert(values.take(values.len() - 1) =~= values.drop_last());
    assert(values.drop_last().take(values.len() - 1) =~= values.drop_last());
}

/// A drained queue has nothing to give: whatever the queue, once as many
/// pops went by as its buffer held values, the next pop fails with
/// `QueueIsEmpty`, and so does every pop after it.
pub proof fn drained_queue_is_empty<T>(queue: QueueState<T>, n: nat)
    requires
        n >= queue.buffer.len(),
    ensures
        pop_answer(queue, n) == Err::<T, Error>(Error::QueueIsEmpty),
{
    lemma_after_pops(queue, n);
}

/// Direct handoff. A value that a waiter takes is delivered to that waiter
/// alone: the push succeeds whatever the capacity, the buffer is as before,
/// and, the queue being well-formed, that is empty, so that a pop right after
/// fails with `QueueIsEmpty`.
pub proof fn handoff_bypasses_buffer<T>(queue: QueueState<T>, value: T, k: int)
    requires
        queue.wf(),
        queue.may_take(Some(k)),
    ensures
        queue.pushed(value, Some(k)).1 == Ok::<(), Error>(()),
        queue.pushed(value, Some(k)).0.buffer == queue.buffer,
        queue.pushed(value, Some(k)).0.popped().1 == Err::<T, Error>(Error::QueueIsEmpty),
        queue.pushed(value, Some(k)).0.wf(),
{
}

/// Waiters are served in the order in which they registered. Two waiters
/// that register on a queue without buffered values and without waiters stand
/// in that order; once the first has taken a value the second is at the
/// front, and once it has taken the next value the queue is idle.
pub proof fn waiters_served_in_turn<T>(queue: QueueState<T>, first: Sender<T>, second: Sender<T>)
    requires
        queue.is_idle(),
    ensures
        queue.enrolled(first).enrolled(second).waiters == seq![first, second],
        queue.enrolled(first).enrolled(second).handed_to(0).waiters == seq![second],
        queue.enrolled(first).enrolled(second).handed_to(0).handed_to(0).is_idle(),
{
    let both = queue.enrolled(first).enrolled(second);
    assert(both.waiters =~= seq![first, second]);
    assert(both.handed_to(0).waiters =~= seq![second]);
}

/// A push serves the front first, whatever the waiters answer. After any
/// push the waiters still registered are those behind the taker, in their
/// order, and none where no waiter took the value: so no waiter is served,
/// or kept, past one that registered earlier and is still there. And the
/// value goes one way only: to the taker, with the buffer as it was, or to
/// the back of the buffer where there was no taker and room was left.
pub proof fn push_serves_front_first<T>(queue: QueueState<T>, value: T, taker: Option<int>)
    requires
        queue.may_take(taker),
    ensures
        queue.pushed(value, taker).0.waiters =~= queue.waiters.skip(
            match taker {
                Some(k) => k + 1,
                None => queue.waiters.len() as int,
            },
        ),
        queue.pushed(value, taker).0.buffer == (if taker is None && !queue.is_full() {
            queue.buffer.push(value)
        } else {
            queue.buffer
        }),
        queue.pushed(value, taker).0.capacity == queue.capacity,
        queue.pushed(value, taker).1 is Err <==> taker is None && queue.is_full(),
{
}

/// Of two waiters on an otherwise idle queue the second is never served
/// before the first has left. Whatever the waiters answer to a push, the
/// second is still registered afterwards only if the first took the value;
/// the push then succeeded, nothing was buffered, and the second is the one
/// waiter left, at the front for the next push.
pub proof fn second_waiter_waits_for_first<T>(
    queue: QueueState<T>,
    first: Sender<T>,
    second: Sender<T>,
    value: T,
    taker: Option<int>,
)
    requires
        queue.is_idle(),
        queue.enrolled(first).enrolled(second).may_take(taker),
    ensures
        ({
            let after = queue.enrolled(first).enrolled(second).pushed(value, taker);
            &&& after.0.waiters.len() <= 1
            &&& after.0.waiters.len() == 1 <==> taker == Some(0int)
            &&& after.0.waiters.len() == 1 ==> {
                &&& after.0.waiters == seq![second]
                &&& after.1 == Ok::<(), Error>(())
                &&& after.0.buffer.len() == 0
            }
        }),
{
    let both = queue.enrolled(first).enrolled(second);
    assert(both.waiters =~= seq![first, second]);
    if taker == Some(0int) {
        assert(both.handed_to(0).waiters =~= seq![second]);
    }
}

/// Direct handoff, under a key. A push under `key` whose value the waiter at
/// position `k` of that key's queue takes succeeds whatever capacity it
/// names, leaves the buffer of that queue empty, so that the pop that follows
/// under `key` fails with `QueueIsEmpty`, and leaves every other key's queue
/// as it was.
pub proof fn handoff_under_key<V>(
    queues: Queues<V>,
    key: Seq<char>,
    value: V,
    capacity: Option<usize>,
    k: int,
)
    requires
        all_wf(queues),
        queue_for_push(queues, key, capacity).may_take(Some(k)),
    ensures
        queues.contains_key(key),
        queue_for_push(queues, key, capacity) == queues[key],
        push_under(queues, key, value, capacity, Some(k)).1 == Ok::<(), Error>(()),
        push_under(queues, key, value, capacity, Some(k)).0 == queues.insert(
            key,
            queues[key].handed_to(k),
        ),
        push_under(queues, key, value, capacity, Some(k)).0[key].buffer.len() == 0,
        pop_under(push_under(queues, key, value, capacity, Some(k)).0, key).1 == Err::<V, Error>(
            Error::QueueIsEmpty,
        ),
        all_wf(push_under(queues, key, value, capacity, Some(k)).0),
{
    assert(queues[key].wf());
    let after = push_under(queues, key, value, capacity, Some(k)).0;
    assert forall|other: Seq<char>| after.contains_key(other) implies (#[trigger] after[other]).wf() by {
        if other != key {
            assert(queues[other].wf());
        }
    }
}

/// Where a well-formed queue stands: it holds nothing, it holds values, or
/// consumers wait on it.
pub enum Phase {
    Empty,
    Buffered,
    Waiting,
}

/// The phase of a queue. A well-formed queue never has values and waiters at
/// once, so the three phases tell all its states apart.
pub open spec fn phase<T>(queue: QueueState<T>) -> Phase {
    if queue.buffer.len() > 0 {
        Phase::Buffered
    } else if queue.waiters.len() > 0 {
        Phase::Waiting
    } else {
        Phase::Empty
    }
}

/// The phase after a push. A value that a waiter takes leaves the queue
/// waiting if waiters remain behind that one, and empty if not. A value that
/// no waiter takes leaves the queue buffered, unless the capacity is zero:
/// then the push fails and the queue is empty.
pub proof fn phase_after_push<T>(queue: QueueState<T>, value: T, taker: Option<int>)
    requires
        queue.wf(),
        queue.may_take(taker),
    ensures
        queue.pushed(value, taker).0.wf(),
        phase(queue.pushed(value, taker).0) == (match taker {
            Some(k) => if k + 1 < queue.waiters.len() {
                Phase::Waiting
            } else {
                Phase::Empty
            },
            None => if queue.capacity == Some(0usize) {
                Phase::Empty
            } else {
                Phase::Buffered
            },
        }),
{
}

/// The phase after a pop. A buffered queue stays buffered until the pop that
/// takes its last value, which leaves it empty. A pop changes nothing in a
/// queue that is empty or waiting.
pub proof fn phase_after_pop<T>(queue: QueueState<T>)
    requires
        queue.wf(),
    ensures
        queue.popped().0.wf(),
        phase(queue.popped().0) == (if queue.buffer.len() > 1 {
            Phase::Buffered
        } else if queue.buffer.len() == 1 {
            Phase::Empty
        } else {
            phase(queue)
        }),
        queue.buffer.len() == 0 ==> queue.popped().0 == queue,
{
}

/// The phase after a waiter registers, which happens on a queue without
/// buffered values only: the queue is waiting.
pub proof fn phase_after_enrolling<T>(queue: QueueState<T>, waiter: Sender<T>)
    requires
        queue.wf(),
        queue.buffer.len() == 0,
    ensures
        queue.enrolled(waiter).wf(),
        phase(queue.enrolled(waiter)) == Phase::Waiting,
{
}

/// A key has a queue from its first push on, and not before: a pop under a
/// key without a queue fails with `QueueNotFound` and changes nothing, as
/// every pop does in a registry without queues; a push gives its own key a
/// queue and no other key; and a pop gives no key a queue.
pub proof fn unknown_key_is_not_found<V>(
    queues: Queues<V>,
    key: Seq<char>,
    value: V,
    capacity: Option<usize>,
    taker: Option<int>,
)
    ensures
        pop_under(Queues::<V>::empty(), key).1 == Err::<V, Error>(Error::QueueNotFound),
        !queues.contains_key(key) ==> pop_under(queues, key) == (
            queues,
            Err::<V, Error>(Error::QueueNotFound),
        ),
        push_under(queues, key, value, capacity, taker).0.dom() == queues.dom().insert(key),
        pop_under(queues, key).0.dom() == queues.dom(),
{
    assert(pop_under(queues, key).0.dom() =~= queues.dom());
}

/// Capacity rebinding. A push under a key whose queue is idle, or that has no
/// queue yet, works on a fresh queue with the capacity that the push names.
/// Once that push has buffered its value, later pushes under the key keep
/// that capacity, whatever capacity they name themselves: one that no waiter
/// takes fails exactly when the buffer has reached it. A capacity of zero is
/// the one that buffers nothing: the push fails, the queue stays idle, and
/// the next push under the key binds the capacity anew.
pub proof fn capacity_rebinds<V>(
    queues: Queues<V>,
    key: Seq<char>,
    value: V,
    capacity: Option<usize>,
    next: V,
    later: Option<usize>,
)
    requires
        queues.contains_key(key) ==> queues[key].is_idle(),
    ensures
        queue_for_push(queues, key, capacity) == QueueState::<V>::fresh(capacity),
        push_under(queues, key, value, capacity, None).0[key].capacity == capacity,
        push_under(queues, key, value, capacity, None).1 is Ok <==> capacity != Some(0usize),
        ({
            let after = push_under(queues, key, value, capacity, None).0;
            if capacity == Some(0usize) {
                queue_for_push(after, key, later) == QueueState::<V>::fresh(later)
            } else {
                &&& queue_for_push(after, key, later) == after[key]
                &&& after[key].buffer == seq![value]
                &&& push_under(after, key, next, later, None).0[key].capacity == capacity
                &&& push_under(after, key, next, later, None).1 is Err <==> capacity == Some(
                    1usize,
                )
            }
        }),
{
    let after = push_under(queues, key, value, capacity, None).0;
    if capacity != Some(0usize) {
        assert(after[key].buffer =~= seq![value]);
    }
}

/// A queue that holds values or has waiters keeps its capacity: a push under
/// its key works on the queue as it stands, whatever capacity the push names,
/// and one that no waiter takes fails exactly when the buffer has reached the
/// queue's own capacity.
pub proof fn busy_queue_keeps_capacity<V>(
    queues: Queues<V>,
    key: Seq<char>,
    value: V,
    capacity: Option<usize>,
)
    requires
        queues.contains_key(key),
        !queues[key].is_idle(),
    ensures
        queue_for_push(queues, key, capacity) == queues[key],
        push_under(queues, key, value, capacity, None).1 is Err <==> queues[key].is_full(),
        forall|taker: Option<int>| #[trigger]
            push_under(queues, key, value, capacity, taker).0[key].capacity
                == queues[key].capacity,
{
}

} // verus!
