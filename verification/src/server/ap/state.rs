//! Compile-time record of how complete an [`Ap`](super::Ap) is
use vstd::prelude::*;

verus! {

/// An `Ap` that is just some data; not a result the server can act on ([`Ap::ok`])
#[derive(Debug, Clone, Copy, PartialEq, Eq)]
pub struct Unhydrated {
    _never: (),
}

/// An `Ap` that is some data in the context of an incoming request ([`Ap::ok_hydrated`])
#[derive(Debug, Clone, Copy, PartialEq, Eq)]
pub struct Hydrated {
    _never: (),
}

/// An `Ap` that the server can act on once it is lifted to the context of a request ([`Ap::reject`], [`Ap::respond`])
#[derive(Debug, Clone, Copy, PartialEq, Eq)]
pub struct CompleteWhenHydrated {
    _never: (),
}

/// An `Ap` that the server can act on ([`Ap::reject_hydrated`], [`Ap::respond_hydrated`], [`Ap::err`])
#[derive(Debug, Clone, Copy, PartialEq, Eq)]
pub struct Complete {
    _never: (),
}

/// What happens when an `Ap` in state `Self` is combined with one in state `T`?
///
/// e.g. combining `CompleteWhenHydrated` with `Hydrated` is `Complete`.
pub trait Combine<T> {
    /// Result of combination
    type Out;
}

/// Completeness of an `Ap`
pub trait ApState: Combine<Unhydrated> + Combine<Hydrated> + Combine<CompleteWhenHydrated> + Combine<Complete> {
}

impl Combine<Unhydrated> for Unhydrated {
    type Out = Unhydrated;
}

impl Combine<Hydrated> for Unhydrated {
    type Out = Hydrated;
}

impl Combine<CompleteWhenHydrated> for Unhydrated {
    type Out = CompleteWhenHydrated;
}

impl Combine<Complete> for Unhydrated {
    type Out = Complete;
}

impl Combine<Unhydrated> for Hydrated {
    type Out = Hydrated;
}

impl Combine<Hydrated> for Hydrated {
    type Out = Hydrated;
}

impl Combine<CompleteWhenHydrated> for Hydrated {
    type Out = Complete;
}

impl Combine<Complete> for Hydrated {
    type Out = Complete;
}

impl Combine<Unhydrated> for CompleteWhenHydrated {
    type Out = CompleteWhenHydrated;
}

impl Combine<Hydrated> for CompleteWhenHydrated {
    type Out = Complete;
}

impl Combine<CompleteWhenHydrated> for CompleteWhenHydrated {
    type Out = CompleteWhenHydrated;
}

impl Combine<Complete> for CompleteWhenHydrated {
    type Out = Complete;
}

impl Combine<Unhydrated> for Complete {
    type Out = Complete;
}

impl Combine<Hydrated> for Complete {
    type Out = Complete;
}

impl Combine<CompleteWhenHydrated> for Complete {
    type Out = Complete;
}

impl Combine<Complete> for Complete {
    type Out = Complete;
}

impl ApState for Unhydrated {

}

impl ApState for Hydrated {

}

impl ApState for CompleteWhenHydrated {

}

impl ApState for Complete {

}

} // verus!
