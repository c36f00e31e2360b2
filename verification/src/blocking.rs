//! Helpers for clients that wait for an answer
use vstd::prelude::*;

use crate::runtime::error::{Error, What};

verus! {

/// Helper methods on the results of a client
pub trait ClientResultExt<T, S>: Sized {
    /// If we timed out waiting for a response, consider that `Ok(None)`.
    ///
    /// Usually used to handle sending non-confirmable requests that the
    /// server may have received but not responded to.
    fn timeout_ok(self) -> Result<Option<T>, Error<S>>;
}

impl<T, S> ClientResultExt<T, S> for Result<T, Error<S>> {
    fn timeout_ok(self) -> (r: Result<Option<T>, Error<S>>)
        ensures
            r == match self {
                Ok(t) => Ok(Some(t)),
                Err(e) => if e.what is MessageNeverAcked {
                    Ok(None)
                } else {
                    Err(e)
                },
            },
    {
        match self {
            Ok(t) => Ok(Some(t)),
            Err(e) => match e.what {
                What::MessageNeverAcked => Ok(None),
                _ => Err(e),
            },
        }
    }
}

} // verus!
