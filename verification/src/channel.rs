//! The one-shot slot through which a push hands its value to a waiting
//! consumer. The slot is a bounded channel of `tokio`; nothing in this file is
//! proved, and each contract says what is taken on trust.

use tokio::sync::mpsc::error::TrySendError;
use tokio::sync::mpsc::{Receiver, Sender};
use tokio::time::Elapsed;
use vstd::prelude::*;

verus! {

/// `tokio::sync::mpsc::Sender`: the producer's half of a slot. Opaque.
#[verifier::external_type_specification]
#[verifier::external_body]
#[verifier::reject_recursive_types(T)]
pub struct ExSender<T>(Sender<T>);

/// `tokio::sync::mpsc::Receiver`: the consumer's half of a slot. Opaque.
#[verifier::external_type_specification]
#[verifier::external_body]
#[verifier::reject_recursive_types(T)]
pub struct ExReceiver<T>(Receiver<T>);

/// `tokio::time::Elapsed`: what a wait under `tokio::time::timeout` gives when
/// the time ran out first. Opaque.
#[verifier::external_type_specification]
#[verifier::external_body]
pub struct ExElapsed(Elapsed);

/// `tokio::sync::mpsc::channel`: makes the two halves of a channel that holds
/// up to `buffer` values. It panics on a `buffer` of zero, and on one above a
/// quarter of `usize::MAX`, which the semaphore that counts the free places
/// cannot hold; both are therefore excluded. Nothing is claimed of the halves.
pub assume_specification<T>[ tokio::sync::mpsc::channel::<T> ](buffer: usize) -> (halves: (
    Sender<T>,
    Receiver<T>,
))
    requires
        0 < buffer <= usize::MAX / 4,
;

/// `Sender::try_send`: offers `value` to the slot without blocking, and gives
/// up the producer's half. `None` says the slot took the value. Otherwise the
/// slot was full or its consumer gone, and the same value comes back. Which of
/// the two happens depends on the consumer, so it is left open.
#[verifier::external_body]
pub(crate) fn offer<T>(sender: Sender<T>, value: T) -> (refused: Option<T>)
    ensures
        refused is Some ==> refused == Some(value),
{
    let mut sender = sender;
    match sender.try_send(value) {
        Ok(()) => None,
        Err(TrySendError::Full(value)) => Some(value),
        Err(TrySendError::Closed(value)) => Some(value),
    }
}

} // verus!
