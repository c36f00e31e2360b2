//! CoAP responses
use vstd::prelude::*;
use vstd::utf8::{decode_utf8, valid_utf8};

use crate::msg::{Code, Id, Message, MessageView, Payload, Type};
use crate::req::Req;
use crate::to_bytes::{spec_message_bytes, spec_message_size, spec_wire_size, MessageToBytesError};
use crate::utf8::string_from_utf8;

pub mod code;

verus! {

/// The message of a response to `req` of type `ty` and id `id`: code 2.05
/// Content, the request's token, no options and no payload.
pub open spec fn response_view(req: MessageView, ty: Type, id: u16) -> MessageView {
    MessageView {
        id,
        ty,
        ver: 1,
        token: req.token,
        code: Code { class: 2, detail: 5 },
        opts: Seq::empty(),
        payload: Seq::empty(),
    }
}

/// A CoAP response
#[derive(Debug, PartialEq)]
pub struct Resp(Message);

impl Resp {
    /// The message this response holds
    pub closed spec fn message(&self) -> Message {
        self.0
    }

    /// The message is well formed
    pub open spec fn wf(&self) -> bool {
        self.message().wf()
    }

    /// The response holding a message
    pub(crate) fn from_message(msg: Message) -> (r: Resp)
        ensures
            r.message() == msg,
    {
        Resp(msg)
    }

    /// The message this response holds
    pub fn msg(&self) -> (r: &Message)
        ensures
            *r == self.message(),
    {
        &self.0
    }

    /// Mutably borrow the message this response holds
    pub fn msg_mut(&mut self) -> (r: &mut Message)
        ensures
            *r == old(self).message(),
            final(self).message() == *final(r),
    {
        &mut self.0
    }

    /// Create a response for a request: an ACK carrying the response for a
    /// confirmable request, a non-confirmable response for a non-confirmable
    /// one, and none for an empty message (code 0.00), an ACK or a RST.
    pub fn for_request(req: &Req) -> (r: Option<Resp>)
        requires
            req.wf(),
        ensures
            req.message().code == (Code { class: 0, detail: 0 }) ==> r is None,
            req.message().code != (Code { class: 0, detail: 0 }) ==> match req.message().ty {
                Type::Con => r matches Some(rep) && rep.wf() && rep.message()@ == response_view(
                    req.message()@,
                    Type::Ack,
                    req.message().id.0,
                ) && rep.message().ty == Type::Ack && rep.message().id == req.message().id
                    && rep.message().token@ == req.message().token@,
                Type::Non => r matches Some(rep) && rep.wf() && rep.message()@ == response_view(
                    req.message()@,
                    Type::Non,
                    0,
                ) && rep.message().ty == Type::Non && rep.message().token@ == req.message().token@,
                _ => r is None,
            },
    {
        if req.msg().code == Code::new(0, 0) {
            return None;
        }
        match req.msg_type() {
            Type::Con => Some(Resp::ack(req)),
            Type::Non => Some(Resp::non(req)),
            _ => None,
        }
    }

    /// Create a response that ACKs a request and carries the response
    pub fn ack(req: &Req) -> (r: Resp)
        requires
            req.wf(),
        ensures
            r.wf(),
            r.message()@ == response_view(req.message()@, Type::Ack, req.message().id.0),
            r.message().ty == Type::Ack,
            r.message().id == req.message().id,
            r.message().token@ == req.message().token@,
            r.message().code == (Code { class: 2, detail: 5 }),
    {
        let msg = Message::new(Type::Ack, Code::new(2, 5), req.msg().id, req.msg().token.copied());
        Resp(msg)
    }

    /// Create a confirmable response for a request, to be sent on its own
    pub fn con(req: &Req) -> (r: Resp)
        requires
            req.wf(),
        ensures
            r.wf(),
            r.message()@ == response_view(req.message()@, Type::Con, 0),
            r.message().ty == Type::Con,
            r.message().token@ == req.message().token@,
            r.message().code == (Code { class: 2, detail: 5 }),
    {
        let msg = Message::new(Type::Con, Code::new(2, 5), Id(0), req.msg().token.copied());
        Resp(msg)
    }

    /// Create a non-confirmable response for a request
    pub fn non(req: &Req) -> (r: Resp)
        requires
            req.wf(),
        ensures
            r.wf(),
            r.message()@ == response_view(req.message()@, Type::Non, 0),
            r.message().ty == Type::Non,
            r.message().token@ == req.message().token@,
            r.message().code == (Code { class: 2, detail: 5 }),
    {
        let msg = Message::new(Type::Non, Code::new(2, 5), Id(0), req.msg().token.copied());
        Resp(msg)
    }

    /// The payload's raw bytes
    pub fn payload(&self) -> (r: &[u8])
        ensures
            r@ == self.message().payload@,
    {
        self.0.payload.as_bytes()
    }

    /// The message type
    pub fn msg_type(&self) -> (r: Type)
        ensures
            r == self.message().ty,
    {
        self.0.ty
    }

    /// The message id
    pub fn msg_id(&self) -> (r: Id)
        ensures
            r == self.message().id,
    {
        self.0.id
    }

    /// The message token
    pub fn token(&self) -> (r: crate::msg::Token)
        ensures
            r@ == self.message().token@,
    {
        self.0.token.copied()
    }

    /// The payload as a string, when it is valid UTF-8
    pub fn payload_string(&self) -> (r: Result<String, std::string::FromUtf8Error>)
        ensures
            r is Ok <==> valid_utf8(self.message().payload@),
            r matches Ok(s) ==> s@ == decode_utf8(self.message().payload@),
    {
        let p = self.payload();
        let bytes = crate::msg::opt::wire::copy_range(p, 0, p.len());
        assert(bytes@ =~= self.message().payload@);
        string_from_utf8(bytes)
    }

    /// The response code
    pub fn code(&self) -> (r: Code)
        ensures
            r == self.message().code,
    {
        self.0.code
    }

    /// Change the response code
    pub fn set_code(&mut self, code: Code)
        ensures
            final(self).message() == (Message { code, ..old(self).message() }),
    {
        self.0.code = code;
    }

    /// Change the payload
    pub fn set_payload(&mut self, payload: Vec<u8>)
        ensures
            final(self).message()@ == (MessageView { payload: payload@, ..old(self).message()@ }),
            final(self).message().opts == old(self).message().opts,
            final(self).message().token == old(self).message().token,
    {
        self.0.payload = Payload(payload);
    }

    /// The bytes of this response's message (see [`Message::try_into_bytes`])
    pub fn try_into_bytes(self, max_size: Option<usize>) -> (r: Result<Vec<u8>, MessageToBytesError>)
        requires
            self.wf(),
            spec_message_size(self.message()@) <= usize::MAX,
        ensures
            match max_size {
                Some(max) if max < spec_wire_size(self.message()@) => r == Err::<
                    Vec<u8>,
                    MessageToBytesError,
                >(
                    MessageToBytesError::TooLong {
                        capacity: max,
                        size: spec_wire_size(self.message()@) as usize,
                    },
                ),
                _ => if crate::msg::opt::wire::opts_fit(self.message().opts@, 0) {
                    r matches Ok(b) && b@ == spec_message_bytes(self.message()@)
                } else {
                    r == Err::<Vec<u8>, MessageToBytesError>(MessageToBytesError::OptionOutOfRange)
                },
            },
    {
        self.0.try_into_bytes(max_size)
    }
}

impl Clone for Resp {
    fn clone(&self) -> (r: Resp)
        ensures
            r.message()@ == self.message()@,
            r.message().wf() == self.message().wf(),
    {
        Resp(self.0.copied())
    }
}

impl AsMut<Message> for Resp {
    fn as_mut(&mut self) -> (r: &mut Message)
        ensures
            *r == old(self).message(),
            final(self).message() == *final(r),
    {
        &mut self.0
    }
}

impl From<Resp> for Message {
    fn from(rep: Resp) -> (r: Message) {
        rep.0
    }
}

impl vstd::std_specs::convert::FromSpecImpl<Resp> for Message {
    open spec fn obeys_from_spec() -> bool {
        true
    }

    open spec fn from_spec(rep: Resp) -> Message {
        rep.message()
    }
}

impl From<Message> for Resp {
    fn from(msg: Message) -> (r: Resp) {
        Resp(msg)
    }
}

impl vstd::std_specs::convert::FromSpecImpl<Message> for Resp {
    open spec fn obeys_from_spec() -> bool {
        true
    }

    closed spec fn from_spec(msg: Message) -> Resp {
        Resp(msg)
    }
}

} // verus!
