//! Manipulate & match against path segments
use vstd::prelude::*;

use super::{advance, next_segment, seg_matches};
use crate::server::ap::state::{Combine, Hydrated};
use crate::server::ap::{hydrate_out, hydrate_with, retag, Ap, ApInner, Hydrate};
use crate::utf8::str_from_utf8;

pub mod check;
pub mod param;

verus! {

/// What [`next`] needs to run on `ap`: it is not an unhydrated `Ok`, the next
/// segment, if any, is valid UTF-8, and `f` accepts the data with any segment
pub open spec fn next_requires<T, SOut, R, E, F>(f: F, ap: Ap<Hydrated, T, E>) -> bool
    where F: for <'a>FnOnce(T, Option<&'a str>) -> Ap<SOut, R, E>,
{
    &&& !(ap@ is Okay)
    &&& ap@ matches ApInner::OkayHydrated(t, hy) ==> (next_segment(hy) matches Some(b)
        ==> vstd::utf8::valid_utf8(b)) && forall|s: Option<&str>| call_requires(f, (t, s))
}

/// What [`next`] makes of `ap`: `f` is given the data and the next segment
/// (or `None` when the path is used up), the segment is consumed, and `f`'s
/// result is hydrated with the request. Other variants are kept.
pub open spec fn next_ensures<T, SOut, R, E, F>(
    f: F,
    ap: Ap<Hydrated, T, E>,
    out: Ap<<Hydrated as Combine<SOut>>::Out, R, E>,
) -> bool
    where F: for <'a>FnOnce(T, Option<&'a str>) -> Ap<SOut, R, E>, Hydrated: Combine<SOut>,
{
    match ap@ {
        ApInner::OkayHydrated(t, hy) => exists|s: Option<&str>, a: Ap<SOut, R, E>|
            #[trigger] call_ensures(f, (t, s), a) && seg_matches(s, next_segment(hy)) && out@
                == hydrate_with(a@, advance(hy)),
        other => out@ == retag::<T, R, E>(other),
    }
}

/// Consume the next segment of the route and combine it with the data in the `Ap`
pub fn next<T, SOut, R, F, E>(f: F) -> (r: impl FnOnce(Ap<Hydrated, T, E>) -> Ap<
    <Hydrated as Combine<SOut>>::Out,
    R,
    E,
>)
    where F: for <'a>FnOnce(T, Option<&'a str>) -> Ap<SOut, R, E>, Hydrated: Combine<SOut>,
    ensures
        forall|ap: Ap<Hydrated, T, E>| next_requires(f, ap) ==> #[trigger] call_requires(r, (ap,)),
        forall|ap: Ap<Hydrated, T, E>, out: Ap<<Hydrated as Combine<SOut>>::Out, R, E>|
            #[trigger] call_ensures(r, (ap,), out) ==> next_ensures(f, ap, out),
{
    move |ap: Ap<Hydrated, T, E>| -> (out: Ap<<Hydrated as Combine<SOut>>::Out, R, E>)
        requires
            next_requires(f, ap),
        ensures
            next_ensures(f, ap, out),
        {
            match ap.try_unwrap_ok_hydrated() {
                Ok((t, hy)) => {
                    if hy.path_ix >= hy.path.len() {
                        let a = f(t, None);
                        hydrate_out(a, hy)
                    } else {
                        let ix = hy.path_ix;
                        let a = {
                            let seg = str_from_utf8(hy.path[ix].0.as_slice());
                            let s = seg.unwrap();
                            f(t, Some(s))
                        };
                        let Hydrate { req, path, path_ix } = hy;
                        hydrate_out(a, Hydrate { req, path, path_ix: path_ix + 1 })
                    }
                },
                Err(other) => other.retype_non_ok(),
            }
        }
}

} // verus!
