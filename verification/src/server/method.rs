//! Filters on the request method
use vstd::prelude::*;

use crate::msg::Code;
use crate::server::ap::state::Hydrated;
use crate::server::ap::{Ap, ApInner};
use crate::req::Method;

verus! {

/// Whether `code` is the code of one of `methods`
pub open spec fn code_in(methods: Seq<Method>, code: Code) -> bool {
    exists|i: int| 0 <= i < methods.len() && #[trigger] methods[i].0 == code
}

/// What a method filter makes of `ap`: a hydrated `Ok` is kept when its
/// request's method is allowed, and rejected otherwise; other variants are kept.
pub open spec fn method_filtered<T, E>(ap: ApInner<T, E>, out: ApInner<T, E>, methods: Seq<Method>) -> bool {
    match ap {
        ApInner::OkayHydrated(t, hy) => out == if code_in(methods, hy.req.0.message().code) {
            ApInner::<T, E>::OkayHydrated(t, hy)
        } else {
            ApInner::RejectHydrated(hy.req)
        },
        other => out == other,
    }
}

fn any_code(methods: &Vec<Method>, code: Code) -> (r: bool)
    ensures
        r == code_in(methods@, code),
{
    let mut i: usize = 0;
    while i < methods.len()
        invariant
            i <= methods.len(),
            forall|k: int| 0 <= k < i ==> methods@[k].0 != code,
        decreases methods.len() - i,
    {
        if methods[i].code() == code {
            assert(methods@[i as int].0 == code);
            return true;
        }
        i = i + 1;
    }
    false
}

/// Reject the request unless its method is one of `methods` (at most 5)
pub fn is_one_of<T, E>(methods: Vec<Method>) -> (r: impl Fn(Ap<Hydrated, T, E>) -> Ap<Hydrated, T, E>)
    requires
        methods.len() <= 5,
    ensures
        forall|ap: Ap<Hydrated, T, E>| #[trigger] call_requires(r, (ap,)),
        forall|ap: Ap<Hydrated, T, E>, out: Ap<Hydrated, T, E>|
            #[trigger] call_ensures(r, (ap,), out) ==> method_filtered(ap@, out@, methods@),
{
    let ghost ms = methods@;
    move |ap: Ap<Hydrated, T, E>| -> (out: Ap<Hydrated, T, E>)
        ensures
            method_filtered(ap@, out@, ms),
        {
            match ap.try_unwrap_ok_hydrated() {
                Ok((t, h)) => {
                    if any_code(&methods, h.req.0.msg().code) {
                        Ap::ok_hydrated(t, h)
                    } else {
                        Ap::reject_hydrated(h.req).pretend()
                    }
                },
                Err(e) => e,
            }
        }
}

/// Reject the request unless its method is `method`
pub fn is<T, E>(method: Method) -> (r: impl Fn(Ap<Hydrated, T, E>) -> Ap<Hydrated, T, E>)
    ensures
        forall|ap: Ap<Hydrated, T, E>| #[trigger] call_requires(r, (ap,)),
        forall|ap: Ap<Hydrated, T, E>, out: Ap<Hydrated, T, E>|
            #[trigger] call_ensures(r, (ap,), out) ==> method_filtered(ap@, out@, seq![method]),
{
    let mut ms: Vec<Method> = Vec::new();
    ms.push(method);
    assert(ms@ =~= seq![method]);
    is_one_of(ms)
}

/// Reject the request unless it is a GET
pub fn get<T, E>(ap: Ap<Hydrated, T, E>) -> (r: Ap<Hydrated, T, E>)
    ensures
        method_filtered(ap@, r@, seq![Method(Code { class: 0, detail: 1 })]),
{
    ap.pipe(is(Method::get()))
}

/// Reject the request unless it is a POST
pub fn post<T, E>(ap: Ap<Hydrated, T, E>) -> (r: Ap<Hydrated, T, E>)
    ensures
        method_filtered(ap@, r@, seq![Method(Code { class: 0, detail: 3 })]),
{
    ap.pipe(is(Method::post()))
}

/// Reject the request unless it is a PUT
pub fn put<T, E>(ap: Ap<Hydrated, T, E>) -> (r: Ap<Hydrated, T, E>)
    ensures
        method_filtered(ap@, r@, seq![Method(Code { class: 0, detail: 2 })]),
{
    ap.pipe(is(Method::put()))
}

/// Reject the request unless it is a DELETE
pub fn delete<T, E>(ap: Ap<Hydrated, T, E>) -> (r: Ap<Hydrated, T, E>)
    ensures
        method_filtered(ap@, r@, seq![Method(Code { class: 0, detail: 4 })]),
{
    ap.pipe(is(Method::delete()))
}

} // verus!
