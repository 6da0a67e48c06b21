//! How a long poll ends once its wait is over.

use crate::error::Error;
use tokio::time::Elapsed;
use vstd::prelude::*;

verus! {

/// The answer to a long poll, given how the wait on the waiter's slot ended:
/// with a value, with the slot closed and no value in it, or with the time
/// run out.
pub open spec fn spec_resolve_wait<V>(outcome: Result<Option<V>, Elapsed>) -> Result<V, Error> {
    match outcome {
        Ok(Some(value)) => Ok(value),
        Ok(None) => Err(Error::Internal),
        Err(_) => Err(Error::GetTimeout),
    }
}

/// The answer to a long poll whose wait, bounded by a timer, ended with
/// `outcome`: the delivered value, `GetTimeout` where the timer won, and
/// `Internal` where the slot was closed before any value reached it, which no
/// push does.
pub fn resolve_wait<V>(outcome: Result<Option<V>, Elapsed>) -> (r: Result<V, Error>)
    ensures
        r == spec_resolve_wait(outcome),
{
    match outcome {
        Ok(Some(value)) => Ok(value),
        Ok(None) => Err(Error::Internal),
        Err(_) => Err(Error::GetTimeout),
    }
}

} // verus!
