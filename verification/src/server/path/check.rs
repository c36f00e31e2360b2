//! Filters against whole paths
use vstd::prelude::*;
use vstd::string::StringSliceAdditionalSpecFns;
use vstd::utf8::{decode_utf8, decode_utf8_encode_utf8};

use super::{consume_all, rest, rest_bytes};
use crate::server::ap::state::{Hydrated, Unhydrated};
use crate::server::ap::{Ap, ApInner};
use crate::utf8::{str_ends_with, str_eq};

verus! {

/// What [`rest_is`] needs to run on `ap`
pub open spec fn rest_is_requires<T, E, F>(f: F, ap: Ap<Hydrated, T, E>) -> bool
    where F: for <'a>FnOnce(&'a str) -> bool,
{
    &&& !(ap@ is Okay)
    &&& ap@ matches ApInner::OkayHydrated(_, hy) ==> forall|s: &str| call_requires(f, (s,))
}

/// What [`rest_is`] makes of `ap`: the data is kept and the path consumed when
/// the predicate holds of the rest of the path; otherwise the request is
/// rejected. Other variants are kept.
pub open spec fn rest_is_ensures<T, E, F>(f: F, ap: Ap<Hydrated, T, E>, out: Ap<Hydrated, T, E>) -> bool
    where F: for <'a>FnOnce(&'a str) -> bool,
{
    match ap@ {
        ApInner::OkayHydrated(t, hy) => exists|s: &str, keep: bool|
            #[trigger] call_ensures(f, (s,), keep) && s@ == decode_utf8(rest_bytes(hy)) && out@
                == if keep {
                ApInner::<T, E>::OkayHydrated(t, consume_all(hy))
            } else {
                ApInner::RejectHydrated(hy.req)
            },
        other => out@ == other,
    }
}

/// Reject the request if the rest of the path does not match a predicate
pub fn rest_is<F, T, E>(f: F) -> (r: impl FnOnce(Ap<Hydrated, T, E>) -> Ap<Hydrated, T, E>)
    where F: for <'a>FnOnce(&'a str) -> bool,
    ensures
        forall|ap: Ap<Hydrated, T, E>| rest_is_requires(f, ap) ==> #[trigger] call_requires(
            r,
            (ap,),
        ),
        forall|ap: Ap<Hydrated, T, E>, out: Ap<Hydrated, T, E>|
            #[trigger] call_ensures(r, (ap,), out) ==> rest_is_ensures(f, ap, out),
{
    let ghost fs = f;
    let g = move |t: T, a: &str| -> (o: Ap<Unhydrated, T, E>)
        requires
            call_requires(fs, (a,)),
        ensures
            exists|keep: bool|
                #[trigger] call_ensures(fs, (a,), keep) && o@ == if keep {
                    ApInner::<T, E>::Okay(t)
                } else {
                    ApInner::Reject
                },
        {
            if f(a) {
                Ap::ok(t)
            } else {
                Ap::reject().pretend_unhydrated()
            }
        };
    let h = rest(g);
    move |ap: Ap<Hydrated, T, E>| -> (out: Ap<Hydrated, T, E>)
        requires
            rest_is_requires(fs, ap),
        ensures
            rest_is_ensures(fs, ap, out),
        {
            h(ap)
        }
}

/// What [`rest_equals`] and [`ends_with`] make of `ap`, given whether the rest
/// of the path passed
pub open spec fn rest_filtered<T, E>(ap: ApInner<T, E>, out: ApInner<T, E>, pass: spec_fn(Seq<u8>) -> bool) -> bool {
    match ap {
        ApInner::OkayHydrated(t, hy) => out == if pass(rest_bytes(hy)) {
            ApInner::<T, E>::OkayHydrated(t, consume_all(hy))
        } else {
            ApInner::RejectHydrated(hy.req)
        },
        other => out == other,
    }
}

/// Reject the request if the rest of the path does not equal `path`
pub fn rest_equals<T, E>(path: &'static str) -> (r: impl FnOnce(Ap<Hydrated, T, E>) -> Ap<
    Hydrated,
    T,
    E,
>)
    ensures
        forall|ap: Ap<Hydrated, T, E>|
            !(ap@ is Okay) ==> #[trigger] call_requires(r, (ap,)),
        forall|ap: Ap<Hydrated, T, E>, out: Ap<Hydrated, T, E>|
            #[trigger] call_ensures(r, (ap,), out) ==> rest_filtered(
                ap@,
                out@,
                |b: Seq<u8>| decode_utf8(b) == path@,
            ),
{
    let eq = move |s: &str| -> (b: bool)
        ensures
            b == (s@ == path@),
        { str_eq(s, path) };
    rest_is(eq)
}

/// Reject the request if the rest of the path does not end with `path`
pub fn ends_with<T, E>(path: &'static str) -> (r: impl FnOnce(Ap<Hydrated, T, E>) -> Ap<
    Hydrated,
    T,
    E,
>)
    ensures
        forall|ap: Ap<Hydrated, T, E>|
            !(ap@ is Okay) ==> #[trigger] call_requires(r, (ap,)),
        forall|ap: Ap<Hydrated, T, E>, out: Ap<Hydrated, T, E>|
            #[trigger] call_ensures(r, (ap,), out) ==> rest_filtered(
                ap@,
                out@,
                |b: Seq<u8>|
                    path.spec_bytes().len() <= b.len() && b.subrange(
                        b.len() - path.spec_bytes().len(),
                        b.len() as int,
                    ) == path.spec_bytes(),
            ),
{
    let suffix = move |s: &str| -> (b: bool)
        ensures
            b == (path.spec_bytes().len() <= s.spec_bytes().len() && s.spec_bytes().subrange(
                s.spec_bytes().len() - path.spec_bytes().len(),
                s.spec_bytes().len() as int,
            ) == path.spec_bytes()),
        { str_ends_with(s, path) };
    let h = rest_is(suffix);
    move |ap: Ap<Hydrated, T, E>| -> (out: Ap<Hydrated, T, E>)
        requires
            !(ap@ is Okay),
        ensures
            rest_filtered(
                ap@,
                out@,
                |b: Seq<u8>|
                    path.spec_bytes().len() <= b.len() && b.subrange(
                        b.len() - path.spec_bytes().len(),
                        b.len() as int,
                    ) == path.spec_bytes(),
            ),
        {
            proof {
                if let ApInner::OkayHydrated(_, hy) = ap@ {
                    super::lemma_rest_bytes_valid(hy);
                    decode_utf8_encode_utf8(rest_bytes(hy));
                }
            }
            h(ap)
        }
}

} // verus!
