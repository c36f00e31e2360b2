//! Respond to requests
use vstd::prelude::*;

use crate::msg::Code;
use crate::server::ap::state::CompleteWhenHydrated;
use crate::server::ap::{Ap, ApInner, Respond};

verus! {

/// Respond to an incoming request with a code and payload
pub fn respond<E>(code: Code, payload: Vec<u8>) -> (r: Ap<CompleteWhenHydrated, (), E>)
    ensures
        r@ == ApInner::<(), E>::Respond(Respond { code, payload, etag: None }),
{
    Ap::respond(Respond::new(code, payload, None))
}

/// Respond to an incoming request with 2.05 Content
pub fn ok<E>(payload: Vec<u8>) -> (r: Ap<CompleteWhenHydrated, (), E>)
    ensures
        r@ == ApInner::<(), E>::Respond(
            Respond { code: Code { class: 2, detail: 5 }, payload, etag: None },
        ),
{
    respond(crate::resp::code::content(), payload)
}

/// Respond to an incoming request with 4.04 Not Found
pub fn not_found<E>(payload: Vec<u8>) -> (r: Ap<CompleteWhenHydrated, (), E>)
    ensures
        r@ == ApInner::<(), E>::Respond(
            Respond { code: Code { class: 4, detail: 4 }, payload, etag: None },
        ),
{
    respond(crate::resp::code::not_found(), payload)
}

/// Respond with 2.05 Content and a serialized body, or fail with the
/// serialization error
pub fn ok_serialized<E>(body: Result<Vec<u8>, E>) -> (r: Ap<CompleteWhenHydrated, (), E>)
    ensures
        r@ == match body {
            Ok(payload) => ApInner::<(), E>::Respond(
                Respond { code: Code { class: 2, detail: 5 }, payload, etag: None },
            ),
            Err(e) => ApInner::<(), E>::Fail(e),
        },
{
    match body {
        Ok(payload) => ok(payload),
        Err(e) => Ap::err(e).pretend(),
    }
}

} // verus!
