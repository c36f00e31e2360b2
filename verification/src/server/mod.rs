//! Serving requests: the [`Ap`] flow, path and method filters, and responses
use vstd::prelude::*;

use crate::msg::opt::known::repeat;
use crate::msg::options::opts_updated;
use crate::msg::{Code, Message, MessageView, Type};
use crate::net::Addrd;
use crate::req::Req;
use crate::resp::Resp;

pub mod ap;
pub mod method;
pub mod path;
pub mod respond;

pub use ap::Ap;
use ap::state::{Complete, Hydrated};
use ap::{ApInner, Hydrate, Respond};

verus! {

/// [`Run`] errors
#[derive(Debug, PartialEq, Eq)]
pub enum Error<E> {
    /// The path was not valid UTF-8
    PathDecodeError(core::str::Utf8Error),
    /// The request was an ACK or EMPTY message (these are handled by the runtime)
    RequestInvalidType(Type),
    /// An error of the handler's type
    Other(E),
}

/// A request was received and needs to be handled by running your code on it.
///
/// Each [`Run::maybe`] branch corresponds roughly to a route / RESTful CoAP resource.
#[derive(Debug, PartialEq)]
pub enum Run<E> {
    /// The request has not been matched yet
    Unmatched(Addrd<Req>),
    /// The request has a response
    Matched(Addrd<Message>),
    /// An error occurred
    Error(Error<E>),
}

/// An `Ap` that [`Run::handle`] can act on: an error, a rejected request, or a
/// response to a well-formed request
pub open spec fn is_handleable<E>(a: ApInner<(), E>) -> bool {
    match a {
        ApInner::Fail(_) => true,
        ApInner::RejectHydrated(_) => true,
        ApInner::RespondHydrated(_, req) => req.0.wf(),
        _ => false,
    }
}

/// `m` is the message answering `req` with `rep`: a non-confirmable response
/// with the request's token, the code and payload of `rep`, and its entity
/// tag if it has one.
pub open spec fn response_to(m: Message, req: Req, rep: Respond) -> bool {
    &&& m.wf()
    &&& m@ == (MessageView {
        id: 0,
        ty: Type::Non,
        ver: 1,
        token: req.message().token@,
        code: rep.code,
        payload: rep.payload@,
        opts: m.opts@,
    })
    &&& match rep.etag {
        Some(t) => opts_updated(m.opts@, Seq::empty(), repeat::ETAG, Some(seq![t@])),
        None => m.opts@ == Seq::<(u32, Seq<Seq<u8>>)>::empty(),
    }
}

/// What [`Run::handle`] makes of an `Ap`
pub open spec fn handled<E>(a: ApInner<(), E>, r: Run<E>) -> bool {
    match a {
        ApInner::Fail(e) => r == Run::Error(Error::Other(e)),
        ApInner::RejectHydrated(req) => r == Run::<E>::Unmatched(req),
        ApInner::RespondHydrated(rep, Addrd(req, addr)) => r matches Run::Matched(Addrd(m, a2))
            && a2 == addr && response_to(m, req, rep),
        _ => false,
    }
}

/// What the server does with the outcome of handling a request
#[derive(Debug, PartialEq)]
pub enum ServerAction<E> {
    /// No route handled the request: log it and go on
    Ignore(Addrd<Req>),
    /// Send this response and go on
    Send(Addrd<Message>),
    /// Stop serving, with this error
    Stop(Error<E>),
}

impl<E> Run<E> {
    /// Lift a complete [`Ap`] to a [`Run`]
    pub fn handle(ap: Ap<Complete, (), E>) -> (r: Self)
        requires
            is_handleable(ap@),
        ensures
            handled(ap@, r),
    {
        match ap.into_inner() {
            ApInner::Fail(e) => Run::Error(Error::Other(e)),
            ApInner::RespondHydrated(rep, Addrd(req, addr)) => {
                let mut resp = Resp::non(&req);
                resp.set_code(rep.code);
                let Respond { payload, etag, .. } = rep;
                resp.set_payload(payload);
                match etag {
                    Some(t) => {
                        let _ = resp.msg_mut().add_etag(t.as_slice());
                        proof {
                            assert(Seq::<Seq<u8>>::empty().push(t@) =~= seq![t@]);
                        }
                    },
                    None => {},
                }
                Run::Matched(Addrd(Message::from(resp), addr))
            },
            ApInner::RejectHydrated(req) => Run::Unmatched(req),
            _ => {
                proof {
                    assert(false);
                }
                Run::Error(Error::RequestInvalidType(Type::Reset))
            },
        }
    }

    /// Use a function to potentially respond to a request that is not
    /// matched yet; matched requests and errors are kept.
    pub fn maybe<F>(self, f: F) -> (r: Self)
        where F: FnOnce(Ap<Hydrated, (), E>) -> Ap<Complete, (), E>,
        requires
            self matches Run::Unmatched(req) ==> req.0.wf(),
            forall|inp: Ap<Hydrated, (), E>| #[trigger] call_requires(f, (inp,)),
            forall|inp: Ap<Hydrated, (), E>, out: Ap<Complete, (), E>|
                #[trigger] call_ensures(f, (inp,), out) ==> is_handleable(out@),
        ensures
            match self {
                Run::Unmatched(Addrd(req, addr)) => {
                    let segs = crate::msg::options::spec_values(req.message().opts@, repeat::PATH);
                    if exists|i: int| 0 <= i < segs.len() && !vstd::utf8::valid_utf8(#[trigger] segs[i]) {
                        r matches Run::Error(Error::PathDecodeError(_))
                    } else {
                        exists|inp: Ap<Hydrated, (), E>, out: Ap<Complete, (), E>|
                            #[trigger] call_ensures(f, (inp,), out) && (inp@ matches ApInner::OkayHydrated(
                                _,
                                hy,
                            ) && hy.req == Addrd(req, addr) && hy.path_ix == 0
                                && crate::msg::opt::values_view(hy.path@)
                                == crate::msg::options::spec_values(
                                req.message().opts@,
                                repeat::PATH,
                            )) && handled(out@, r)
                    }
                },
                other => r == other,
            },
    {
        match self {
            Run::Matched(m) => Run::Matched(m),
            Run::Error(e) => Run::Error(e),
            Run::Unmatched(req) => {
                let bad = match req.0.path() {
                    Err(e) => Some(e),
                    Ok(_) => None,
                };
                match bad {
                    Some(e) => Run::Error(Error::PathDecodeError(e)),
                    None => {
                        let inp = Ap::ok_hydrated((), Hydrate::from_request(req));
                        let out = f(inp);
                        Run::handle(out)
                    },
                }
            },
        }
    }

    /// What the server should do with the outcome of handling a request
    pub fn next_action(self) -> (r: ServerAction<E>)
        ensures
            r == match self {
                Run::Unmatched(req) => ServerAction::Ignore(req),
                Run::Matched(m) => ServerAction::Send(m),
                Run::Error(e) => ServerAction::<E>::Stop(e),
            },
    {
        match self {
            Run::Unmatched(req) => ServerAction::Ignore(req),
            Run::Matched(m) => ServerAction::Send(m),
            Run::Error(e) => ServerAction::Stop(e),
        }
    }
}

/// Newtype wrapper of an initialization function
#[derive(Debug, Clone, Copy)]
pub struct Init<T>(pub Option<T>);

} // verus!
