//! A broker of named queues.
//!
//! Values are pushed under a string key and taken back either at once or by a
//! consumer that registers as a waiter and is handed the next value directly.
//! `AsyncQueue` is one such queue, `QueueMap` the registry of all of them.

pub mod channel;
pub mod error;
pub mod poll;
pub mod queue;
pub mod registry;
pub mod theorems;

pub use error::Error;
pub use poll::resolve_wait;
pub use queue::{AsyncQueue, QueueState, ValueOrReciever};
pub use registry::QueueMap;
