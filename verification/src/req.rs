//! CoAP requests and a builder for them
use vstd::prelude::*;
use vstd::string::StringSliceAdditionalSpecFns;
use vstd::utf8::{decode_utf8, valid_utf8};

use crate::msg::opt::known::repeat;
use crate::msg::opt::{spec_get, values_view, OptNumber, OptValue, OptionMap};
use crate::msg::options::{opts_updated, spec_join_path, spec_split_path, spec_values, SetOptionError};
use crate::msg::{Code, Id, Message, MessageView, Payload, Token, Type};
use crate::option::{ContentFormat, ToCoapValue};
use crate::to_bytes::{spec_message_bytes, spec_message_size, spec_wire_size, MessageToBytesError};
use crate::utf8::str_from_utf8;

verus! {

/// Request method: a message code of class 0
#[derive(Clone, Copy, Debug, PartialEq, Eq, Structural)]
pub struct Method(pub Code);

impl Method {
    /// `GET` (0.01)
    pub fn get() -> (r: Method)
        ensures
            r == Method(Code { class: 0, detail: 1 }),
    {
        Method(Code::new(0, 1))
    }

    /// `POST` ([`Code::post`])
    pub fn post() -> (r: Method)
        ensures
            r == Method(Code { class: 0, detail: 3 }),
    {
        Method(Code::post())
    }

    /// `PUT` ([`Code::put`])
    pub fn put() -> (r: Method)
        ensures
            r == Method(Code { class: 0, detail: 2 }),
    {
        Method(Code::put())
    }

    /// `DELETE` (0.04)
    pub fn delete() -> (r: Method)
        ensures
            r == Method(Code { class: 0, detail: 4 }),
    {
        Method(Code::new(0, 4))
    }

    /// The message code of this method
    pub fn code(&self) -> (r: Code)
        ensures
            r == self.0,
    {
        self.0
    }
}

/// Every option that is set holds at least one value
pub open spec fn values_nonempty(s: Seq<(u32, Seq<Seq<u8>>)>) -> bool {
    forall|j: u32| #[trigger] spec_get(s, j) is Some ==> spec_get(s, j)->Some_0.len() > 0
}

/// The message a new request holds: confirmable, id 0, empty token, the
/// method's code, and the path's segments as Uri-Path values.
pub open spec fn new_request_view(m: MessageView, method: Method, path: Seq<u8>) -> bool {
    &&& m.ty == Type::Con
    &&& m.id == 0
    &&& m.ver == 1
    &&& m.token == Seq::<u8>::empty()
    &&& m.code == method.0
    &&& m.payload == Seq::<u8>::empty()
    &&& opts_updated(m.opts, Seq::empty(), repeat::PATH, Some(spec_split_path(path)))
}

/// A CoAP request
#[derive(Debug, PartialEq)]
pub struct Req(Message);

impl Req {
    /// The message this request holds
    pub closed spec fn message(&self) -> Message {
        self.0
    }

    /// The message is well formed
    pub open spec fn wf(&self) -> bool {
        self.message().wf()
    }

    /// Create a request
    pub fn new(method: Method, path: &str) -> (r: Req)
        ensures
            r.wf(),
            new_request_view(r.message()@, method, path.spec_bytes()),
            values_nonempty(r.message().opts@),
    {
        let mut msg = Message::new(Type::Con, method.0, Id(0), Token(Vec::new()));
        let _ = msg.set_path(path);
        proof {
            let s = msg.opts@;
            assert(spec_split_path(path.spec_bytes()).len() > 0) by {
                crate::msg::options::lemma_split_path_nonempty(path.spec_bytes());
            }
            assert forall|j: u32| #[trigger] spec_get(s, j) is Some implies spec_get(s, j)->Some_0.len() > 0 by {
                assert(spec_get(Seq::<(u32, Seq<Seq<u8>>)>::empty(), j) is None);
            }
            assert(Seq::<Seq<u8>>::empty() + spec_split_path(path.spec_bytes()) =~= spec_split_path(
                path.spec_bytes(),
            ));
        }
        Req(msg)
    }

    /// The request method
    pub fn method(&self) -> (r: Method)
        ensures
            r == Method(self.message().code),
    {
        Method(self.0.code)
    }

    /// The message this request holds
    pub fn msg(&self) -> (r: &Message)
        ensures
            *r == self.message(),
    {
        &self.0
    }

    /// Mutably borrow the message this request holds
    pub fn msg_mut(&mut self) -> (r: &mut Message)
        ensures
            *r == old(self).message(),
            final(self).message() == *final(r),
    {
        &mut self.0
    }

    /// The request path: the Uri-Path segments joined with '/', or `None`
    /// when the request has no Uri-Path. Fails when a segment is not UTF-8.
    pub fn path(&self) -> (r: Result<Option<String>, core::str::Utf8Error>)
        ensures
            ({
                let segs = spec_values(self.message().opts@, repeat::PATH);
                if segs.len() == 0 {
                    r == Ok::<Option<String>, core::str::Utf8Error>(None)
                } else {
                    &&& (r is Ok) <==> forall|i: int| 0 <= i < segs.len() ==> #[trigger] valid_utf8(segs[i])
                    &&& r matches Ok(o) ==> (o matches Some(s) && s@ == decode_utf8(spec_join_path(segs)))
                }
            }),
    {
        let any_segment = match self.0.opts.get(OptNumber(repeat::PATH)) {
            Some(vs) => vs.len() != 0,
            None => false,
        };
        if !any_segment {
            return Ok(None);
        }
        match self.0.path_string() {
            Ok(s) => Ok(Some(s)),
            Err(e) => Err(e),
        }
    }

    /// The request type (confirmable, non-confirmable)
    pub fn msg_type(&self) -> (r: Type)
        ensures
            r == self.message().ty,
    {
        self.0.ty
    }

    /// Make this request non-confirmable: no acknowledgement is expected
    pub fn non(&mut self)
        ensures
            final(self).message() == (Message { ty: Type::Non, ..old(self).message() }),
    {
        self.0.ty = Type::Non;
    }

    /// A new GET request
    pub fn get(path: &str) -> (r: Req)
        ensures
            r.wf(),
            new_request_view(r.message()@, Method(Code { class: 0, detail: 1 }), path.spec_bytes()),
            values_nonempty(r.message().opts@),
    {
        Req::new(Method::get(), path)
    }

    /// A new POST request
    pub fn post(path: &str) -> (r: Req)
        ensures
            r.wf(),
            new_request_view(r.message()@, Method(Code { class: 0, detail: 3 }), path.spec_bytes()),
            values_nonempty(r.message().opts@),
    {
        Req::new(Method::post(), path)
    }

    /// A new PUT request
    pub fn put(path: &str) -> (r: Req)
        ensures
            r.wf(),
            new_request_view(r.message()@, Method(Code { class: 0, detail: 2 }), path.spec_bytes()),
            values_nonempty(r.message().opts@),
    {
        Req::new(Method::put(), path)
    }

    /// A new DELETE request
    pub fn delete(path: &str) -> (r: Req)
        ensures
            r.wf(),
            new_request_view(r.message()@, Method(Code { class: 0, detail: 4 }), path.spec_bytes()),
            values_nonempty(r.message().opts@),
    {
        Req::new(Method::delete(), path)
    }

    /// Set the payload of this request
    pub fn set_payload<B: ToCoapValue>(&mut self, payload: B)
        ensures
            final(self).message()@ == (MessageView {
                payload: payload.coap_value(),
                ..old(self).message()@
            }),
            final(self).message().opts == old(self).message().opts,
    {
        self.0.payload = Payload(payload.to_coap_value());
    }

    /// The payload's raw bytes
    pub fn payload(&self) -> (r: &[u8])
        ensures
            r@ == self.message().payload@,
    {
        self.0.payload.as_bytes()
    }

    /// The values of an option, by number
    pub fn get_option(&self, n: OptNumber) -> (r: Option<&Vec<OptValue>>)
        ensures
            match r {
                Some(vs) => spec_get(self.message().opts@, n.0) == Some(values_view(vs@)),
                None => spec_get(self.message().opts@, n.0) is None,
            },
    {
        self.0.get(n)
    }

    /// The payload as a string, when it is valid UTF-8
    pub fn payload_str(&self) -> (r: Result<&str, core::str::Utf8Error>)
        ensures
            r is Ok <==> valid_utf8(self.message().payload@),
            r matches Ok(s) ==> s@ == decode_utf8(self.message().payload@),
    {
        str_from_utf8(self.payload())
    }

    /// The options attached to this request
    pub fn opts(&self) -> (r: &OptionMap)
        ensures
            *r == self.message().opts,
    {
        &self.0.opts
    }

    /// The bytes of this request's message (see [`Message::try_into_bytes`])
    pub fn try_into_bytes(self, max_size: Option<usize>) -> (r: Result<Vec<u8>, MessageToBytesError>)
        requires
            self.wf(),
            spec_message_size(self.message()@) <= usize::MAX,
        ensures
            match max_size {
                Some(max) if max < spec_wire_size(self.message()@) => r == Err::<
                    Vec<u8>,
                    MessageToBytesError,
                >(
                    MessageToBytesError::TooLong {
                        capacity: max,
                        size: spec_wire_size(self.message()@) as usize,
                    },
                ),
                _ => if crate::msg::opt::wire::opts_fit(self.message().opts@, 0) {
                    r matches Ok(b) && b@ == spec_message_bytes(self.message()@)
                } else {
                    r == Err::<Vec<u8>, MessageToBytesError>(MessageToBytesError::OptionOutOfRange)
                },
            },
    {
        self.0.try_into_bytes(max_size)
    }
}

impl Clone for Req {
    fn clone(&self) -> (r: Req)
        ensures
            r.message()@ == self.message()@,
            r.message().wf() == self.message().wf(),
    {
        Req(self.0.copied())
    }
}

impl AsMut<Message> for Req {
    fn as_mut(&mut self) -> (r: &mut Message)
        ensures
            *r == old(self).message(),
            final(self).message() == *final(r),
    {
        &mut self.0
    }
}

impl From<Req> for Message {
    fn from(req: Req) -> (r: Message) {
        req.0
    }
}

impl vstd::std_specs::convert::FromSpecImpl<Req> for Message {
    open spec fn obeys_from_spec() -> bool {
        true
    }

    open spec fn from_spec(req: Req) -> Message {
        req.message()
    }
}

impl From<Message> for Req {
    fn from(msg: Message) -> (r: Req)
        ensures
            r.message() == msg,
    {
        Req(msg)
    }
}

impl vstd::std_specs::convert::FromSpecImpl<Message> for Req {
    open spec fn obeys_from_spec() -> bool {
        true
    }

    closed spec fn from_spec(msg: Message) -> Req {
        Req(msg)
    }
}

/// Errors encounterable while building a request
#[derive(Clone, Debug, PartialEq, Eq)]
pub enum Error {
    /// Storing an option failed
    SetOptionError(SetOptionError),
    /// An option that may hold only one value was set twice
    OptionNotRepeatable {
        /// The option
        number: OptNumber,
        /// Its first value already there
        old: OptValue,
        /// The value that was refused
        new: OptValue,
    },
}

/// Builder for a [`Req`]: each step sets something on the request, or keeps
/// the first error that happened
#[derive(Debug)]
pub struct ReqBuilder {
    inner: Result<Req, Error>,
}

impl Clone for ReqBuilder {
    fn clone(&self) -> (r: ReqBuilder)
        ensures
            match (self.inner(), r.inner()) {
                (Ok(a), Ok(b)) => b.message()@ == a.message()@ && b.message().wf() == a.message().wf(),
                (Err(_), Err(_)) => true,
                _ => false,
            },
    {
        match &self.inner {
            Ok(req) => ReqBuilder { inner: Ok(req.clone()) },
            Err(e) => ReqBuilder { inner: Err(e.clone()) },
        }
    }
}

/// What [`ReqBuilder::option`] does to the request being built
pub open spec fn set_once(inner: Result<Req, Error>, out: Result<Req, Error>, n: u32, val: Seq<u8>) -> bool {
    match inner {
        Err(e) => out == Err::<Req, Error>(e),
        Ok(req) => match spec_get(req.message().opts@, n) {
            Some(vs) => out matches Err(Error::OptionNotRepeatable { number, old, new }) && number.0
                == n && old@ == vs[0] && new@ == val,
            None => out matches Ok(r2) && r2.wf() && values_nonempty(r2.message().opts@)
                && r2.message()@ == (MessageView { opts: r2.message().opts@, ..req.message()@ })
                && opts_updated(r2.message().opts@, req.message().opts@, n, Some(seq![val])),
        },
    }
}

/// What [`ReqBuilder::add_option`] does to the request being built
pub open spec fn set_replacing(inner: Result<Req, Error>, out: Result<Req, Error>, n: u32, val: Seq<u8>) -> bool {
    match inner {
        Err(e) => out == Err::<Req, Error>(e),
        Ok(req) => out matches Ok(r2) && r2.wf() && values_nonempty(r2.message().opts@)
            && r2.message()@ == (MessageView { opts: r2.message().opts@, ..req.message()@ })
            && opts_updated(r2.message().opts@, req.message().opts@, n, Some(seq![val])),
    }
}

impl ReqBuilder {
    /// The request being built, or the error that stopped it
    pub closed spec fn inner(&self) -> Result<Req, Error> {
        self.inner
    }

    /// The builder's invariant: a request being built is well formed and
    /// holds a value for each option it sets
    pub open spec fn wf(&self) -> bool {
        self.inner() matches Ok(req) ==> req.wf() && values_nonempty(req.message().opts@)
    }

    fn new(method: Method, path: &str) -> (r: ReqBuilder)
        ensures
            r.wf(),
            r.inner() matches Ok(req) && new_request_view(req.message()@, method, path.spec_bytes()),
    {
        ReqBuilder { inner: Ok(Req::new(method, path)) }
    }

    /// Build a GET request
    pub fn get(path: &str) -> (r: ReqBuilder)
        ensures
            r.wf(),
            r.inner() matches Ok(req) && new_request_view(
                req.message()@,
                Method(Code { class: 0, detail: 1 }),
                path.spec_bytes(),
            ),
    {
        ReqBuilder::new(Method::get(), path)
    }

    /// Build a PUT request
    pub fn put(path: &str) -> (r: ReqBuilder)
        ensures
            r.wf(),
            r.inner() matches Ok(req) && new_request_view(
                req.message()@,
                Method(Code { class: 0, detail: 2 }),
                path.spec_bytes(),
            ),
    {
        ReqBuilder::new(Method::put(), path)
    }

    /// Build a POST request
    pub fn post(path: &str) -> (r: ReqBuilder)
        ensures
            r.wf(),
            r.inner() matches Ok(req) && new_request_view(
                req.message()@,
                Method(Code { class: 0, detail: 3 }),
                path.spec_bytes(),
            ),
    {
        ReqBuilder::new(Method::post(), path)
    }

    /// Build a DELETE request
    pub fn delete(path: &str) -> (r: ReqBuilder)
        ensures
            r.wf(),
            r.inner() matches Ok(req) && new_request_view(
                req.message()@,
                Method(Code { class: 0, detail: 4 }),
                path.spec_bytes(),
            ),
    {
        ReqBuilder::new(Method::delete(), path)
    }

    /// Set an option that may hold one value; setting it when it already
    /// has a value is an error.
    pub fn option<V: ToCoapValue>(self, number: OptNumber, value: V) -> (r: ReqBuilder)
        requires
            self.wf(),
        ensures
            r.wf(),
            set_once(self.inner(), r.inner(), number.0, value.coap_value()),
    {
        match self.inner {
            Err(e) => ReqBuilder { inner: Err(e) },
            Ok(mut req) => {
                let val = OptValue(value.to_coap_value());
                let ghost m0 = req.message();
                match req.0.remove(number) {
                    Some(existing) => {
                        assert(values_view(existing@).len() > 0);
                        let old = existing[0].copied();
                        ReqBuilder { inner: Err(Error::OptionNotRepeatable { number, old, new: val }) }
                    },
                    None => {
                        let ghost vv = val@;
                        let _ = req.0.set(number, val);
                        proof {
                            assert forall|j: u32| #[trigger]
                                spec_get(req.message().opts@, j) is Some implies spec_get(req.message().opts@, j)->Some_0.len() > 0 by {
                                if j != number.0 {
                                    assert(spec_get(req.message().opts@, j) == spec_get(m0.opts@, j));
                                }
                            }
                        }
                        ReqBuilder { inner: Ok(req) }
                    },
                }
            },
        }
    }

    /// Set an option, replacing any values it has.
    pub fn add_option<V: ToCoapValue>(self, number: OptNumber, value: V) -> (r: ReqBuilder)
        requires
            self.wf(),
        ensures
            r.wf(),
            set_replacing(self.inner(), r.inner(), number.0, value.coap_value()),
    {
        match self.inner {
            Err(e) => ReqBuilder { inner: Err(e) },
            Ok(mut req) => {
                let val = OptValue(value.to_coap_value());
                let ghost m0 = req.message();
                let _ = req.0.set(number, val);
                proof {
                    assert forall|j: u32| #[trigger]
                        spec_get(req.message().opts@, j) is Some implies spec_get(req.message().opts@, j)->Some_0.len() > 0 by {
                        if j != number.0 {
                            assert(spec_get(req.message().opts@, j) == spec_get(m0.opts@, j));
                        }
                    }
                }
                ReqBuilder { inner: Ok(req) }
            },
        }
    }

    /// Set the payload
    pub fn payload<V: ToCoapValue>(self, value: V) -> (r: ReqBuilder)
        requires
            self.wf(),
        ensures
            r.wf(),
            match self.inner() {
                Err(e) => r.inner() == Err::<Req, Error>(e),
                Ok(req) => r.inner() matches Ok(r2) && r2.message()@ == (MessageView {
                    payload: value.coap_value(),
                    ..req.message()@
                }),
            },
    {
        match self.inner {
            Err(e) => ReqBuilder { inner: Err(e) },
            Ok(mut req) => {
                req.set_payload(value);
                ReqBuilder { inner: Ok(req) }
            },
        }
    }

    /// The request, or the first error met while building it
    pub fn build(self) -> (r: Result<Req, Error>)
        ensures
            r == self.inner(),
    {
        self.inner
    }

    /// Set the Uri-Host option
    pub fn host(self, value: &str) -> (r: ReqBuilder)
        requires
            self.wf(),
        ensures
            r.wf(),
            set_once(self.inner(), r.inner(), 3, value.spec_bytes()),
    {
        self.option(OptNumber(3), value)
    }

    /// Set the Uri-Path option
    pub fn path(self, value: &str) -> (r: ReqBuilder)
        requires
            self.wf(),
        ensures
            r.wf(),
            set_once(self.inner(), r.inner(), 11, value.spec_bytes()),
    {
        self.option(OptNumber(11), value)
    }

    /// Set the Uri-Port option
    pub fn port(self, value: u16) -> (r: ReqBuilder)
        requires
            self.wf(),
        ensures
            r.wf(),
            set_once(self.inner(), r.inner(), 7, value.coap_value()),
    {
        self.option(OptNumber(7), value)
    }

    /// Set the Uri-Query option
    pub fn add_query(self, value: &str) -> (r: ReqBuilder)
        requires
            self.wf(),
        ensures
            r.wf(),
            set_replacing(self.inner(), r.inner(), 15, value.spec_bytes()),
    {
        self.add_option(OptNumber(15), value)
    }

    /// Set the Size1 option
    pub fn size1(self, value: u32) -> (r: ReqBuilder)
        requires
            self.wf(),
        ensures
            r.wf(),
            set_once(self.inner(), r.inner(), 60, value.coap_value()),
    {
        self.option(OptNumber(60), value)
    }

    /// Set the If-Match option (an entity tag of at most 8 bytes)
    pub fn if_match(self, value: &[u8]) -> (r: ReqBuilder)
        requires
            self.wf(),
            value.len() <= 8,
        ensures
            r.wf(),
            set_replacing(self.inner(), r.inner(), 1, value@),
    {
        self.add_option(OptNumber(1), value)
    }

    /// Set the If-None-Match option (an empty value)
    pub fn if_none_match(self) -> (r: ReqBuilder)
        requires
            self.wf(),
        ensures
            r.wf(),
            set_once(self.inner(), r.inner(), 5, Seq::<u8>::empty()),
    {
        let empty: Vec<u8> = Vec::new();
        self.option(OptNumber(5), empty.as_slice())
    }

    /// Set the Proxy-Uri option
    pub fn proxy_uri(self, value: &str) -> (r: ReqBuilder)
        requires
            self.wf(),
        ensures
            r.wf(),
            set_once(self.inner(), r.inner(), 35, value.spec_bytes()),
    {
        self.option(OptNumber(35), value)
    }

    /// Set the Proxy-Scheme option
    pub fn proxy_scheme(self, value: &str) -> (r: ReqBuilder)
        requires
            self.wf(),
        ensures
            r.wf(),
            set_once(self.inner(), r.inner(), 39, value.spec_bytes()),
    {
        self.option(OptNumber(39), value)
    }

    /// Set the Max-Age option
    pub fn max_age(self, value: u32) -> (r: ReqBuilder)
        requires
            self.wf(),
        ensures
            r.wf(),
            set_once(self.inner(), r.inner(), 14, value.coap_value()),
    {
        self.option(OptNumber(14), value)
    }

    /// Set the Location-Query option
    pub fn location_query(self, value: &str) -> (r: ReqBuilder)
        requires
            self.wf(),
        ensures
            r.wf(),
            set_replacing(self.inner(), r.inner(), 20, value.spec_bytes()),
    {
        self.add_option(OptNumber(20), value)
    }

    /// Set the Location-Path option
    pub fn location_path(self, value: &str) -> (r: ReqBuilder)
        requires
            self.wf(),
        ensures
            r.wf(),
            set_replacing(self.inner(), r.inner(), 8, value.spec_bytes()),
    {
        self.add_option(OptNumber(8), value)
    }

    /// Set the ETag option (an entity tag of at most 8 bytes)
    pub fn etag(self, value: &[u8]) -> (r: ReqBuilder)
        requires
            self.wf(),
            value.len() <= 8,
        ensures
            r.wf(),
            set_replacing(self.inner(), r.inner(), 4, value@),
    {
        self.add_option(OptNumber(4), value)
    }

    /// Set the Content-Format option
    pub fn content_format(self, value: ContentFormat) -> (r: ReqBuilder)
        requires
            self.wf(),
        ensures
            r.wf(),
            set_once(self.inner(), r.inner(), 12, value.coap_value()),
    {
        self.option(OptNumber(12), value)
    }

    /// Set the Accept option
    pub fn accept(self, value: ContentFormat) -> (r: ReqBuilder)
        requires
            self.wf(),
        ensures
            r.wf(),
            set_once(self.inner(), r.inner(), 17, value.coap_value()),
    {
        self.option(OptNumber(17), value)
    }
}

/// An option that may hold one value cannot be set twice on a request being
/// built: the second setting always fails, and where the first one stored
/// its value, the error carries the first value and the refused one.
pub proof fn lemma_option_not_repeatable(
    b0: Result<Req, Error>,
    b1: Result<Req, Error>,
    b2: Result<Req, Error>,
    n: u32,
    v1: Seq<u8>,
    v2: Seq<u8>,
)
    requires
        set_once(b0, b1, n, v1),
        set_once(b1, b2, n, v2),
    ensures
        b2 is Err,
        b0 matches Ok(req) && spec_get(req.message().opts@, n) is None ==> (b2 matches Err(
            Error::OptionNotRepeatable { number, old, new },
        ) && number.0 == n && old@ == v1 && new@ == v2),
{
    if let Ok(req) = b0 {
        if spec_get(req.message().opts@, n) is None {
            let r2 = b1->Ok_0;
            assert(spec_get(r2.message().opts@, n) == Some(seq![v1]));
        }
    }
}

} // verus!
