//! The outcomes, other than success, of the broker's operations.

use vstd::prelude::*;

verus! {

/// Why an operation on a queue or on the registry did not give a value.
#[derive(Debug, Clone, Copy, PartialEq, Eq, Structural)]
pub enum Error {
    /// The key was never pushed to nor subscribed to.
    QueueNotFound,
    /// The buffer holds as many values as the queue's capacity allows.
    QueueIsFull,
    /// The buffer holds no value.
    QueueIsEmpty,
    /// A long poll ended before any value arrived.
    GetTimeout,
    /// A waiter's slot was closed without a value: a defect of the broker.
    Internal,
}

impl Error {
    /// The HTTP status code that reports this error to a client.
    pub open spec fn spec_status_code(self) -> u16 {
        match self {
            Error::QueueNotFound => 404,
            Error::QueueIsEmpty => 404,
            Error::QueueIsFull => 429,
            Error::GetTimeout => 404,
            Error::Internal => 500,
        }
    }

    /// The text that describes this error.
    pub open spec fn spec_message(self) -> Seq<char> {
        match self {
            Error::QueueNotFound => "queue not found"@,
            Error::QueueIsFull => "queue is full"@,
            Error::QueueIsEmpty => "queue is empty"@,
            Error::GetTimeout => "timeout"@,
            Error::Internal => "internal"@,
        }
    }

    /// The HTTP status code that reports this error to a client: 404 where
    /// there is nothing to give, 429 for backpressure, 500 for a defect.
    pub fn status_code(&self) -> (code: u16)
        ensures
            code == self.spec_status_code(),
    {
        match self {
            Error::QueueNotFound => 404,
            Error::QueueIsEmpty => 404,
            Error::QueueIsFull => 429,
            Error::GetTimeout => 404,
            Error::Internal => 500,
        }
    }

    /// The text that describes this error.
    pub fn message(&self) -> (text: &'static str)
        ensures
            text@ == self.spec_message(),
    {
        match self {
            Error::QueueNotFound => "queue not found",
            Error::QueueIsFull => "queue is full",
            Error::QueueIsEmpty => "queue is empty",
            Error::GetTimeout => "timeout",
            Error::Internal => "internal",
        }
    }
}

} // verus!
