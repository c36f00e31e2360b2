//! Filters against path segments
use vstd::prelude::*;
use vstd::utf8::{decode_utf8, valid_utf8};

use super::next;
use crate::server::ap::state::{Hydrated, Unhydrated};
use crate::server::ap::{Ap, ApInner};
use crate::server::path::{advance, next_segment};
use crate::utf8::str_eq;

verus! {

/// What [`next_is`] needs to run on `ap`
pub open spec fn next_is_requires<T, E, F>(f: F, ap: Ap<Hydrated, T, E>) -> bool
    where F: for <'a>FnOnce(&'a str) -> bool,
{
    &&& !(ap@ is Okay)
    &&& ap@ matches ApInner::OkayHydrated(_, hy) ==> (next_segment(hy) matches Some(b) ==> valid_utf8(
        b,
    )) && forall|s: &str| call_requires(f, (s,))
}

/// What [`next_is`] makes of `ap`: the data is kept and the segment consumed
/// when the predicate holds of the next segment; otherwise the request is
/// rejected. Other variants are kept.
pub open spec fn next_is_ensures<T, E, F>(f: F, ap: Ap<Hydrated, T, E>, out: Ap<Hydrated, T, E>) -> bool
    where F: for <'a>FnOnce(&'a str) -> bool,
{
    match ap@ {
        ApInner::OkayHydrated(t, hy) => match next_segment(hy) {
            Some(b) => exists|s: &str, keep: bool|
                #[trigger] call_ensures(f, (s,), keep) && s@ == decode_utf8(b) && out@ == if keep {
                    ApInner::<T, E>::OkayHydrated(t, advance(hy))
                } else {
                    ApInner::RejectHydrated(hy.req)
                },
            None => out@ == ApInner::<T, E>::RejectHydrated(hy.req),
        },
        other => out@ == other,
    }
}

/// Reject the request if the next path segment does not match a predicate
pub fn next_is<F, T, E>(f: F) -> (r: impl FnOnce(Ap<Hydrated, T, E>) -> Ap<Hydrated, T, E>)
    where F: for <'a>FnOnce(&'a str) -> bool,
    ensures
        forall|ap: Ap<Hydrated, T, E>| next_is_requires(f, ap) ==> #[trigger] call_requires(
            r,
            (ap,),
        ),
        forall|ap: Ap<Hydrated, T, E>, out: Ap<Hydrated, T, E>|
            #[trigger] call_ensures(r, (ap,), out) ==> next_is_ensures(f, ap, out),
{
    let ghost fs = f;
    let g = move |t: T, a: Option<&str>| -> (o: Ap<Unhydrated, T, E>)
        requires
            a matches Some(x) ==> call_requires(fs, (x,)),
        ensures
            match a {
                Some(x) => exists|keep: bool|
                    #[trigger] call_ensures(fs, (x,), keep) && o@ == if keep {
                        ApInner::<T, E>::Okay(t)
                    } else {
                        ApInner::Reject
                    },
                None => o@ == ApInner::<T, E>::Reject,
            },
        {
            match a {
                Some(x) => {
                    if f(x) {
                        Ap::ok(t)
                    } else {
                        Ap::reject().pretend_unhydrated()
                    }
                },
                None => Ap::reject().pretend_unhydrated(),
            }
        };
    let h = next(g);
    move |ap: Ap<Hydrated, T, E>| -> (out: Ap<Hydrated, T, E>)
        requires
            next_is_requires(fs, ap),
        ensures
            next_is_ensures(fs, ap, out),
        {
            h(ap)
        }
}

/// Reject the request if the next path segment does not equal `path`
pub fn next_equals<T, E>(path: &'static str) -> (r: impl FnOnce(Ap<Hydrated, T, E>) -> Ap<
    Hydrated,
    T,
    E,
>)
    ensures
        forall|ap: Ap<Hydrated, T, E>|
            !(ap@ is Okay) && (ap@ matches ApInner::OkayHydrated(_, hy) ==> (next_segment(
                hy,
            ) matches Some(b) ==> valid_utf8(b))) ==> #[trigger] call_requires(r, (ap,)),
        forall|ap: Ap<Hydrated, T, E>, out: Ap<Hydrated, T, E>|
            #[trigger] call_ensures(r, (ap,), out) ==> match ap@ {
                ApInner::OkayHydrated(t, hy) => out@ == if next_segment(hy) matches Some(b)
                    && decode_utf8(b) == path@ {
                    ApInner::<T, E>::OkayHydrated(t, advance(hy))
                } else {
                    ApInner::RejectHydrated(hy.req)
                },
                other => out@ == other,
            },
{
    let eq = move |s: &str| -> (b: bool)
        ensures
            b == (s@ == path@),
        { str_eq(s, path) };
    next_is(eq)
}

} // verus!
