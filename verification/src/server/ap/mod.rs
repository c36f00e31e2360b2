//! Server flow applicative
//!
//! `Ap` can be thought of as an extension of [`Result`] that adds new, servery, states.
//!
//! ## Variants
//!  * `Ok`, `Err` - [`Result::Ok`], [`Result::Err`]
//!  * `OkHydrated` - [`Result::Ok`] with a CoAP request and partially consumed request path
//!  * `Reject`, `RejectHydrated` - the endpoint rejected the request because a filter failed.
//!    This behaves like `Err` but should always be recovered.
//!  * `Respond`, `RespondHydrated` - the request has been matched with a resource and has a
//!    response to send; no other endpoint will see the request.
//!
//! ## Combining
//! [`Ap::bind`] is [`Result::and_then`] with hydration: the closure runs on the
//! `Ok` variants only, and when `self` is hydrated an unhydrated result of the
//! closure is hydrated with the same request.
use core::marker::PhantomData;
use vstd::prelude::*;

use crate::msg::opt::known::repeat;
use crate::msg::opt::{copy_values, values_view, OptNumber, OptValue};
use crate::msg::options::spec_values;
use crate::msg::Code;
use crate::net::Addrd;
use crate::req::Req;

pub mod state;

use state::{ApState, Combine, Complete, CompleteWhenHydrated, Hydrated, Unhydrated};

verus! {

/// Record used to partially describe a response
#[non_exhaustive]
#[derive(Clone, Debug, PartialEq)]
pub struct Respond {
    /// The response code
    pub code: Code,
    /// The response body
    pub payload: Vec<u8>,
    /// An entity tag to attach to the response
    pub etag: Option<Vec<u8>>,
}

impl Respond {
    /// A response description
    pub fn new(code: Code, payload: Vec<u8>, etag: Option<Vec<u8>>) -> (r: Respond)
        ensures
            r == (Respond { code, payload, etag }),
    {
        Respond { code, payload, etag }
    }
}

/// Record used to share "hydration" across `Ap` states: the request, its
/// Uri-Path segments, and how many of them have been consumed
#[non_exhaustive]
#[derive(Clone, Debug, PartialEq)]
pub struct Hydrate {
    /// The request being handled
    pub req: Addrd<Req>,
    /// The request's path segments
    pub path: Vec<OptValue>,
    /// Number of segments consumed so far
    pub path_ix: usize,
}

impl Hydrate {
    /// Construct a [`Hydrate`] from a request: none of its path consumed yet
    pub fn from_request(req: Addrd<Req>) -> (r: Hydrate)
        ensures
            r.req == req,
            values_view(r.path@) == spec_values(req.0.message().opts@, repeat::PATH),
            r.path_ix == 0,
    {
        let path = match req.0.get_option(OptNumber(repeat::PATH)) {
            Some(vs) => copy_values(vs),
            None => {
                let v: Vec<OptValue> = Vec::new();
                assert(values_view(v@) =~= Seq::<Seq<u8>>::empty());
                v
            },
        };
        Hydrate { req, path, path_ix: 0 }
    }
}

/// The variants of an [`Ap`]
#[derive(Clone, Debug, PartialEq)]
pub enum ApInner<T, E> {
    /// Some data ([`Ap::ok`])
    Okay(T),
    /// Some data, in the context of a request ([`Ap::ok_hydrated`])
    OkayHydrated(T, Hydrate),
    /// The request did not match ([`Ap::reject`])
    Reject,
    /// A response to send ([`Ap::respond`])
    Respond(Respond),
    /// An error ([`Ap::err`])
    Fail(E),
    /// The request did not match, with the request ([`Ap::reject_hydrated`])
    RejectHydrated(Addrd<Req>),
    /// A response to send to the request ([`Ap::respond_hydrated`])
    RespondHydrated(Respond, Addrd<Req>),
}

/// A variant that holds no `T`, under another type for the data channel
pub open spec fn retag<T, B, E>(a: ApInner<T, E>) -> ApInner<B, E> {
    match a {
        ApInner::Reject => ApInner::Reject,
        ApInner::Respond(r) => ApInner::Respond(r),
        ApInner::Fail(e) => ApInner::Fail(e),
        ApInner::RejectHydrated(q) => ApInner::RejectHydrated(q),
        ApInner::RespondHydrated(r, q) => ApInner::RespondHydrated(r, q),
        _ => arbitrary(),
    }
}

/// The variant is `Ok` or `OkHydrated`
pub open spec fn is_ok_variant<T, E>(a: ApInner<T, E>) -> bool {
    a is Okay || a is OkayHydrated
}

/// A variant that holds no error, under another type for the error channel
pub open spec fn retag_err<T, E, B>(a: ApInner<T, E>) -> ApInner<T, B> {
    match a {
        ApInner::Okay(t) => ApInner::Okay(t),
        ApInner::OkayHydrated(t, hy) => ApInner::OkayHydrated(t, hy),
        ApInner::Reject => ApInner::Reject,
        ApInner::Respond(r) => ApInner::Respond(r),
        ApInner::RejectHydrated(q) => ApInner::RejectHydrated(q),
        ApInner::RespondHydrated(r, q) => ApInner::RespondHydrated(r, q),
        ApInner::Fail(_) => arbitrary(),
    }
}

/// An unhydrated result lifted into the context of `hy`'s request: hydration
/// is contagious
pub open spec fn hydrate_with<B, E>(out: ApInner<B, E>, hy: Hydrate) -> ApInner<B, E> {
    match out {
        ApInner::Okay(r) => ApInner::OkayHydrated(r, hy),
        ApInner::Reject => ApInner::RejectHydrated(hy.req),
        ApInner::Respond(rep) => ApInner::RespondHydrated(rep, hy.req),
        other => other,
    }
}

/// What [`Ap::bind`] gives for `before` when its closure returned `out`
pub open spec fn spec_bind<T, B, E>(before: ApInner<T, E>, out: ApInner<B, E>) -> ApInner<B, E> {
    match before {
        ApInner::Okay(_) => out,
        ApInner::OkayHydrated(_, hy) => hydrate_with(out, hy),
        _ => retag(before),
    }
}

/// Hydration is contagious: binding an `ok_hydrated` value never gives an
/// unhydrated `ok`, `reject` or `respond`; those the function returns take
/// on the request of the value bound
pub proof fn lemma_hydration_contagious<T, B, E>(t: T, hy: Hydrate, out: ApInner<B, E>)
    ensures
        ({
            let r = spec_bind(ApInner::<T, E>::OkayHydrated(t, hy), out);
            &&& !(r is Okay) && !(r is Reject) && !(r is Respond)
            &&& out matches ApInner::Okay(b) ==> r == ApInner::<B, E>::OkayHydrated(b, hy)
            &&& out is Reject ==> r == ApInner::<B, E>::RejectHydrated(hy.req)
            &&& out matches ApInner::Respond(rep) ==> r == ApInner::<B, E>::RespondHydrated(rep, hy.req)
            &&& !(out is Okay || out is Reject || out is Respond) ==> r == out
        }),
{
}

/// Only `ok` values reach the function given to bind: a rejected, responded
/// or failed value comes out of bind as it went in, whatever the function
/// would have returned
pub proof fn lemma_bind_passes_settled<T, B, E>(before: ApInner<T, E>, out: ApInner<B, E>)
    requires
        !(before is Okay || before is OkayHydrated),
    ensures
        spec_bind(before, out) == retag::<T, B, E>(before),
{
}

/// The data in the `Ok` channel
pub open spec fn ok_data<T, E>(a: ApInner<T, E>) -> T {
    match a {
        ApInner::Okay(t) => t,
        ApInner::OkayHydrated(t, _) => t,
        _ => arbitrary(),
    }
}

/// A server flow value: see the module documentation
#[derive(Debug, PartialEq)]
pub struct Ap<S, T, E> {
    inner: ApInner<T, E>,
    state: PhantomData<S>,
}

impl<S, T: Clone, E: Clone> Clone for Ap<S, T, E> {
    fn clone(&self) -> (r: Self) {
        Ap { inner: self.inner.clone(), state: PhantomData }
    }
}

impl<S, T, E> View for Ap<S, T, E> {
    type V = ApInner<T, E>;

    closed spec fn view(&self) -> ApInner<T, E> {
        self.inner
    }
}

impl<S, T, E> Ap<S, T, E> {
    fn wrap(inner: ApInner<T, E>) -> (r: Ap<S, T, E>)
        ensures
            r@ == inner,
    {
        Ap { inner, state: PhantomData }
    }
}

impl<T, E> Ap<Unhydrated, T, E> {
    /// Construct an `Ap` in the `Ok` state
    pub fn ok(t: T) -> (r: Self)
        ensures
            r@ == ApInner::<T, E>::Okay(t),
    {
        Ap::wrap(ApInner::Okay(t))
    }

    /// Map [`Result::Ok`] to [`Ap::ok`] and [`Result::Err`] to [`Ap::err`]
    pub fn from_result(res: Result<T, E>) -> (r: Self)
        ensures
            r@ == match res {
                Ok(t) => ApInner::<T, E>::Okay(t),
                Err(e) => ApInner::<T, E>::Fail(e),
            },
    {
        match res {
            Ok(t) => Ap::wrap(ApInner::Okay(t)),
            Err(e) => Ap::wrap(ApInner::Fail(e)),
        }
    }
}

impl<T, E> Ap<CompleteWhenHydrated, T, E> {
    /// Reject the incoming request: this route did not match it. A rejected
    /// `Ap` should always be recovered, since every request must be answered.
    pub fn reject() -> (r: Self)
        ensures
            r@ == ApInner::<T, E>::Reject,
    {
        Ap::wrap(ApInner::Reject)
    }

    /// Respond to the incoming request
    pub fn respond(rep: Respond) -> (r: Self)
        ensures
            r@ == ApInner::<T, E>::Respond(rep),
    {
        Ap::wrap(ApInner::Respond(rep))
    }
}

impl<T, E> Ap<Hydrated, T, E> {
    /// [`Ap::ok`] with a request context
    pub fn ok_hydrated(t: T, hy: Hydrate) -> (r: Ap<Hydrated, T, E>)
        ensures
            r@ == ApInner::<T, E>::OkayHydrated(t, hy),
    {
        Ap::wrap(ApInner::OkayHydrated(t, hy))
    }

    /// [`Ap::respond`] with a request context
    pub fn respond_hydrated(req: Addrd<Req>, rep: Respond) -> (r: Self)
        ensures
            r@ == ApInner::<T, E>::RespondHydrated(rep, req),
    {
        Ap::wrap(ApInner::RespondHydrated(rep, req))
    }
}

/// An `Ap` lifted into the context of `hy`'s request, as
/// `Ap::ok_hydrated((), hy).bind(|_| out)` gives it
pub(crate) fn hydrate_out<S2, B, E>(out: Ap<S2, B, E>, hy: Hydrate) -> (r: Ap<
    <Hydrated as Combine<S2>>::Out,
    B,
    E,
>)
    where Hydrated: Combine<S2>,
    ensures
        r@ == hydrate_with(out@, hy),
{
    match out.inner {
        ApInner::Okay(r) => Ap::wrap(ApInner::OkayHydrated(r, hy)),
        ApInner::Reject => Ap::wrap(ApInner::RejectHydrated(hy.req)),
        ApInner::Respond(rep) => Ap::wrap(ApInner::RespondHydrated(rep, hy.req)),
        other => Ap::wrap(other),
    }
}

impl<T, E> Ap<Complete, T, E> {
    /// Give a [`Complete`] `Ap` any other state
    pub fn pretend<S2>(self) -> (r: Ap<S2, T, E>)
        ensures
            r@ == self@,
    {
        self.coerce_state()
    }

    /// [`Ap::reject`] with a request context
    pub fn reject_hydrated(req: Addrd<Req>) -> (r: Self)
        ensures
            r@ == ApInner::<T, E>::RejectHydrated(req),
    {
        Ap::wrap(ApInner::RejectHydrated(req))
    }

    /// An `Ap` in the error channel
    pub fn err(e: E) -> (r: Self)
        ensures
            r@ == ApInner::<T, E>::Fail(e),
    {
        Ap::wrap(ApInner::Fail(e))
    }

    /// Pretend this [`Complete`] `Ap` is [`Hydrated`]
    pub fn pretend_hydrated(self) -> (r: Ap<Hydrated, T, E>)
        ensures
            r@ == self@,
    {
        self.coerce_state()
    }
}

impl<S, T, E> Ap<S, T, E> {
    /// Is this [`Ap::ok`] or [`Ap::ok_hydrated`]?
    pub fn is_ok(&self) -> (r: bool)
        ensures
            r == is_ok_variant(self@),
    {
        match self.inner {
            ApInner::Okay(_) | ApInner::OkayHydrated(_, _) => true,
            _ => false,
        }
    }

    /// Is this [`Ap::reject`] or [`Ap::reject_hydrated`]?
    pub fn is_rejected(&self) -> (r: bool)
        ensures
            r == (self@ is Reject || self@ is RejectHydrated),
    {
        match self.inner {
            ApInner::Reject | ApInner::RejectHydrated(_) => true,
            _ => false,
        }
    }

    /// Give the `Ap` the context of `req`: [`Ap::ok`] and
    /// [`Ap::ok_hydrated`] become [`Ap::ok_hydrated`] with a fresh
    /// [`Hydrate`] of `req`, [`Ap::reject`] becomes [`Ap::reject_hydrated`]
    /// and [`Ap::respond`] becomes [`Ap::respond_hydrated`]; errors and
    /// hydrated variants are kept.
    pub fn hydrate(self, req: Addrd<Req>) -> (r: Ap<<S as Combine<Hydrated>>::Out, T, E>)
        where S: Combine<Hydrated>,
        ensures
            match self@ {
                ApInner::Okay(t) => r@ matches ApInner::OkayHydrated(t2, hy) && t2 == t
                    && hy.req == req && hy.path_ix == 0 && values_view(hy.path@) == spec_values(
                    req.0.message().opts@,
                    repeat::PATH,
                ),
                ApInner::OkayHydrated(t, _) => r@ matches ApInner::OkayHydrated(t2, hy) && t2 == t
                    && hy.req == req && hy.path_ix == 0 && values_view(hy.path@) == spec_values(
                    req.0.message().opts@,
                    repeat::PATH,
                ),
                ApInner::Reject => r@ == ApInner::<T, E>::RejectHydrated(req),
                ApInner::Respond(rep) => r@ == ApInner::<T, E>::RespondHydrated(rep, req),
                other => r@ == other,
            },
    {
        match self.inner {
            ApInner::Okay(t) => Ap::wrap(ApInner::OkayHydrated(t, Hydrate::from_request(req))),
            ApInner::OkayHydrated(t, _) => Ap::wrap(
                ApInner::OkayHydrated(t, Hydrate::from_request(req)),
            ),
            ApInner::Reject => Ap::wrap(ApInner::RejectHydrated(req)),
            ApInner::Respond(rep) => Ap::wrap(ApInner::RespondHydrated(rep, req)),
            other => Ap::wrap(other),
        }
    }

    /// Fix any `Ap` as [`Unhydrated`], discarding what its state promised
    pub fn pretend_unhydrated(self) -> (r: Ap<Unhydrated, T, E>)
        ensures
            r@ == self@,
    {
        self.coerce_state()
    }

    /// The response of [`Ap::respond`] or [`Ap::respond_hydrated`], or `Err(self)`
    pub fn try_unwrap_respond(self) -> (r: Result<Respond, Self>)
        ensures
            match self@ {
                ApInner::Respond(rep) => r == Ok::<Respond, Self>(rep),
                ApInner::RespondHydrated(rep, _) => r == Ok::<Respond, Self>(rep),
                _ => r matches Err(s) && s@ == self@,
            },
    {
        match self.inner {
            ApInner::Respond(r) | ApInner::RespondHydrated(r, _) => Ok(r),
            other => Err(Ap::wrap(other)),
        }
    }

    /// The error of [`Ap::err`], or `Err(self)`
    pub fn try_unwrap_err(self) -> (r: Result<E, Self>)
        ensures
            match self@ {
                ApInner::Fail(e) => r == Ok::<E, Self>(e),
                _ => r matches Err(s) && s@ == self@,
            },
    {
        match self.inner {
            ApInner::Fail(e) => Ok(e),
            other => Err(Ap::wrap(other)),
        }
    }

    /// The data of [`Ap::ok`] or [`Ap::ok_hydrated`], or `Err(self)`
    pub fn try_unwrap_ok(self) -> (r: Result<T, Self>)
        ensures
            if is_ok_variant(self@) {
                r == Ok::<T, Self>(ok_data(self@))
            } else {
                r matches Err(s) && s@ == self@
            },
    {
        match self.inner {
            ApInner::OkayHydrated(t, _) | ApInner::Okay(t) => Ok(t),
            other => Err(Ap::wrap(other)),
        }
    }

    /// The data and context of [`Ap::ok_hydrated`], or `Err(self)`
    pub fn try_unwrap_ok_hydrated(self) -> (r: Result<(T, Hydrate), Self>)
        ensures
            match self@ {
                ApInner::OkayHydrated(t, hy) => r == Ok::<(T, Hydrate), Self>((t, hy)),
                _ => r matches Err(s) && s@ == self@,
            },
    {
        match self.inner {
            ApInner::OkayHydrated(t, hy) => Ok((t, hy)),
            other => Err(Ap::wrap(other)),
        }
    }

    /// Apply a function that accepts `Self` to `self`
    pub fn pipe<F, R>(self, f: F) -> (r: R)
        where F: FnOnce(Self) -> R,
        requires
            call_requires(f, (self,)),
        ensures
            call_ensures(f, (self,), r),
    {
        f(self)
    }

    /// Set the entity tag of the response of [`Ap::respond`] or
    /// [`Ap::respond_hydrated`]; other variants are kept.
    pub fn etag(self, etag: Vec<u8>) -> (r: Self)
        ensures
            match self@ {
                ApInner::Respond(rep) => r@ == ApInner::<T, E>::Respond(
                    Respond { etag: Some(etag), ..rep },
                ),
                ApInner::RespondHydrated(rep, req) => r@ == ApInner::<T, E>::RespondHydrated(
                    Respond { etag: Some(etag), ..rep },
                    req,
                ),
                other => r@ == other,
            },
    {
        match self.inner {
            ApInner::Respond(Respond { code, payload, .. }) => Ap::wrap(
                ApInner::Respond(Respond { code, payload, etag: Some(etag) }),
            ),
            ApInner::RespondHydrated(Respond { code, payload, .. }, req) => Ap::wrap(
                ApInner::RespondHydrated(Respond { code, payload, etag: Some(etag) }, req),
            ),
            other => Ap::wrap(other),
        }
    }

    /// The variant this `Ap` holds
    pub(crate) fn into_inner(self) -> (r: ApInner<T, E>)
        ensures
            r == self@,
    {
        self.inner
    }

    /// Give a variant that holds no data any types for its state and data
    pub(crate) fn retype_non_ok<S2, B>(self) -> (r: Ap<S2, B, E>)
        requires
            !is_ok_variant(self@),
        ensures
            r@ == retag::<T, B, E>(self@),
    {
        match self.inner {
            ApInner::Fail(e) => Ap::wrap(ApInner::Fail(e)),
            ApInner::Reject => Ap::wrap(ApInner::Reject),
            ApInner::RejectHydrated(req) => Ap::wrap(ApInner::RejectHydrated(req)),
            ApInner::Respond(r) => Ap::wrap(ApInner::Respond(r)),
            ApInner::RespondHydrated(a, b) => Ap::wrap(ApInner::RespondHydrated(a, b)),
            _ => {
                proof {
                    assert(false);
                }
                Ap::wrap(ApInner::Reject)
            },
        }
    }

    pub(crate) fn coerce_state<S2>(self) -> (r: Ap<S2, T, E>)
        ensures
            r@ == self@,
    {
        Ap::wrap(self.inner)
    }

    /// Transform the data with `f`; it is called only on [`Ap::ok`] and
    /// [`Ap::ok_hydrated`].
    pub fn map<F, B>(self, f: F) -> (r: Ap<S, B, E>)
        where F: FnOnce(T) -> B,
        requires
            is_ok_variant(self@) ==> call_requires(f, (ok_data(self@),)),
        ensures
            match self@ {
                ApInner::Okay(t) => r@ matches ApInner::Okay(b) && call_ensures(f, (t,), b),
                ApInner::OkayHydrated(t, hy) => r@ matches ApInner::OkayHydrated(b, hy2)
                    && call_ensures(f, (t,), b) && hy2 == hy,
                other => r@ == retag::<T, B, E>(other),
            },
    {
        match self.inner {
            ApInner::OkayHydrated(t, hy) => Ap::wrap(ApInner::OkayHydrated(f(t), hy)),
            ApInner::Okay(t) => Ap::wrap(ApInner::Okay(f(t))),
            ApInner::Fail(e) => Ap::wrap(ApInner::Fail(e)),
            ApInner::Reject => Ap::wrap(ApInner::Reject),
            ApInner::RejectHydrated(req) => Ap::wrap(ApInner::RejectHydrated(req)),
            ApInner::Respond(r) => Ap::wrap(ApInner::Respond(r)),
            ApInner::RespondHydrated(a, b) => Ap::wrap(ApInner::RespondHydrated(a, b)),
        }
    }

    /// Transform the error with `f`; it is called only on [`Ap::err`].
    pub fn map_err<F, B>(self, f: F) -> (r: Ap<S, T, B>)
        where F: FnOnce(E) -> B,
        requires
            self@ matches ApInner::Fail(e) ==> call_requires(f, (e,)),
        ensures
            match self@ {
                ApInner::Fail(e) => r@ matches ApInner::Fail(b) && call_ensures(f, (e,), b),
                other => r@ == retag_err::<T, E, B>(other),
            },
    {
        match self.inner {
            ApInner::Fail(e) => Ap::wrap(ApInner::Fail(f(e))),
            ApInner::OkayHydrated(t, hy) => Ap::wrap(ApInner::OkayHydrated(t, hy)),
            ApInner::Okay(t) => Ap::wrap(ApInner::Okay(t)),
            ApInner::RejectHydrated(req) => Ap::wrap(ApInner::RejectHydrated(req)),
            ApInner::Reject => Ap::wrap(ApInner::Reject),
            ApInner::Respond(r) => Ap::wrap(ApInner::Respond(r)),
            ApInner::RespondHydrated(a, b) => Ap::wrap(ApInner::RespondHydrated(a, b)),
        }
    }

    /// Combine with the `Ap` that `f` makes of the data. `f` is called only on
    /// [`Ap::ok`] and [`Ap::ok_hydrated`]; every other variant wins over what
    /// `f` would have made. When `self` is hydrated, an unhydrated result of
    /// `f` is hydrated with the same request.
    pub fn bind<F, S2, B>(self, f: F) -> (r: Ap<<S as Combine<S2>>::Out, B, E>)
        where F: FnOnce(T) -> Ap<S2, B, E>, S: Combine<S2>,
        requires
            is_ok_variant(self@) ==> call_requires(f, (ok_data(self@),)),
        ensures
            is_ok_variant(self@) ==> exists|a: Ap<S2, B, E>|
                #[trigger] call_ensures(f, (ok_data(self@),), a) && r@ == spec_bind(self@, a@),
            !is_ok_variant(self@) ==> r@ == retag::<T, B, E>(self@),
    {
        match self.inner {
            ApInner::OkayHydrated(t, hy) => {
                let a = f(t);
                match a.inner {
                    ApInner::Okay(r) => Ap::wrap(ApInner::OkayHydrated(r, hy)),
                    ApInner::Reject => Ap::wrap(ApInner::RejectHydrated(hy.req)),
                    ApInner::Respond(rep) => Ap::wrap(ApInner::RespondHydrated(rep, hy.req)),
                    other => Ap::wrap(other),
                }
            },
            ApInner::Okay(t) => {
                let a = f(t);
                a.coerce_state()
            },
            ApInner::Fail(e) => Ap::wrap(ApInner::Fail(e)),
            ApInner::Reject => Ap::wrap(ApInner::Reject),
            ApInner::RejectHydrated(req) => Ap::wrap(ApInner::RejectHydrated(req)),
            ApInner::Respond(r) => Ap::wrap(ApInner::Respond(r)),
            ApInner::RespondHydrated(a, b) => Ap::wrap(ApInner::RespondHydrated(a, b)),
        }
    }

    /// Bind an `Ap` of unit that `f` makes from a borrow of the data, keeping
    /// the data: `ap.bind(|t| f(&t).map(|_| t))`.
    pub fn bind_discard<S2, F>(self, f: F) -> (r: Self)
        where F: FnOnce(&T) -> Ap<S2, (), E>, S: Combine<S2>,
        requires
            is_ok_variant(self@) ==> call_requires(f, (&ok_data(self@),)),
        ensures
            is_ok_variant(self@) ==> exists|a: Ap<S2, (), E>|
                #[trigger] call_ensures(f, (&ok_data(self@),), a) && r@ == spec_bind(
                    self@,
                    match a@ {
                        ApInner::Okay(_) => ApInner::Okay(ok_data(self@)),
                        ApInner::OkayHydrated(_, hy) => ApInner::OkayHydrated(ok_data(self@), hy),
                        other => retag::<(), T, E>(other),
                    },
                ),
            !is_ok_variant(self@) ==> r@ == self@,
    {
        match self.inner {
            ApInner::OkayHydrated(t, hy) => {
                let a = f(&t);
                match a.inner {
                    ApInner::Okay(_) => Ap::wrap(ApInner::OkayHydrated(t, hy)),
                    ApInner::OkayHydrated(_, hy2) => Ap::wrap(ApInner::OkayHydrated(t, hy2)),
                    ApInner::Reject => Ap::wrap(ApInner::RejectHydrated(hy.req)),
                    ApInner::Respond(rep) => Ap::wrap(ApInner::RespondHydrated(rep, hy.req)),
                    ApInner::Fail(e) => Ap::wrap(ApInner::Fail(e)),
                    ApInner::RejectHydrated(q) => Ap::wrap(ApInner::RejectHydrated(q)),
                    ApInner::RespondHydrated(rep, q) => Ap::wrap(ApInner::RespondHydrated(rep, q)),
                }
            },
            ApInner::Okay(t) => {
                let a = f(&t);
                match a.inner {
                    ApInner::Okay(_) => Ap::wrap(ApInner::Okay(t)),
                    ApInner::OkayHydrated(_, hy2) => Ap::wrap(ApInner::OkayHydrated(t, hy2)),
                    ApInner::Reject => Ap::wrap(ApInner::Reject),
                    ApInner::Respond(rep) => Ap::wrap(ApInner::Respond(rep)),
                    ApInner::Fail(e) => Ap::wrap(ApInner::Fail(e)),
                    ApInner::RejectHydrated(q) => Ap::wrap(ApInner::RejectHydrated(q)),
                    ApInner::RespondHydrated(rep, q) => Ap::wrap(ApInner::RespondHydrated(rep, q)),
                }
            },
            other => Ap::wrap(other),
        }
    }

    /// Silently turn errors into [`Ap::reject`]
    pub fn reject_on_err<E2>(self) -> (r: Ap<Unhydrated, T, E2>)
        ensures
            match self@ {
                ApInner::Fail(_) => r@ == ApInner::<T, E2>::Reject,
                other => r@ == retag_err::<T, E, E2>(other),
            },
    {
        match self.inner {
            ApInner::Fail(_) => Ap::wrap(ApInner::Reject),
            ApInner::OkayHydrated(t, hy) => Ap::wrap(ApInner::OkayHydrated(t, hy)),
            ApInner::Okay(t) => Ap::wrap(ApInner::Okay(t)),
            ApInner::Reject => Ap::wrap(ApInner::Reject),
            ApInner::RejectHydrated(r) => Ap::wrap(ApInner::RejectHydrated(r)),
            ApInner::Respond(r) => Ap::wrap(ApInner::Respond(r)),
            ApInner::RespondHydrated(a, b) => Ap::wrap(ApInner::RespondHydrated(a, b)),
        }
    }
}

} // verus!
