use vstd::prelude::*;

pub mod code;
pub mod id;
pub mod opt;
pub mod options;
pub mod parse_error;
pub mod token;
pub mod uint;
pub mod ty;
pub mod ver;

pub use code::{Code, CodeKind};
pub use id::Id;
pub use opt::{
    Opt, OptDelta, OptNumber, OptValue, OptionMap, OptionMustBeProcessed, WhenOptionChanges,
    WhenOptionUnsupportedByProxy,
};
pub use parse_error::{MessageParseError, OptParseError};
pub use token::Token;
pub use ty::Type;
pub use ver::Version;

use opt::keys_sorted;
use ty::{spec_type_num, spec_type_of_num};

verus! {

/// The message payload (in http terms, the body)
#[derive(Clone, Debug, PartialEq, Eq, PartialOrd, Ord, Hash, Default)]
pub struct Payload(pub Vec<u8>);

impl View for Payload {
    type V = Seq<u8>;

    open spec fn view(&self) -> Seq<u8> {
        self.0@
    }
}

impl Payload {
    /// Convert a reference to a Payload to a byte slice
    pub fn as_bytes(&self) -> (r: &[u8])
        ensures
            r@ == self@,
    {
        self.0.as_slice()
    }
}

/// The first byte of a message: version (2 bits), type (2 bits) and token length (4 bits).
#[derive(Clone, Copy, Debug, PartialEq, Eq, Structural)]
pub struct Byte1 {
    /// The protocol version
    pub ver: Version,
    /// The message type
    pub ty: Type,
    /// Length of the token, in bytes
    pub tkl: u8,
}

/// The first byte of a message as its three fields.
pub open spec fn spec_byte1_of(b: u8) -> Byte1 {
    Byte1 { ver: Version(b / 64), ty: spec_type_of_num((b / 16) % 4).unwrap(), tkl: b % 16 }
}

/// The byte written for a version, type and token length: the version cut to
/// two bits, and the token length (below 16) in the low nibble.
pub open spec fn spec_byte1_to(b: Byte1) -> u8 {
    ((b.ver.0 % 4) * 64 + spec_type_num(b.ty) * 16 + b.tkl) as u8
}

impl TryFrom<u8> for Byte1 {
    type Error = MessageParseError;

    fn try_from(b: u8) -> (r: Result<Byte1, MessageParseError>) {
        let ver = b >> 6;
        let ty = (b >> 4) & 0b11;
        let tkl = b & 0b1111u8;
        assert(ver == b / 64 && ty == (b / 16) % 4 && tkl == b % 16) by (bit_vector)
            requires
                ver == b >> 6,
                ty == (b >> 4) & 0b11,
                tkl == b & 0b1111u8,
        ;
        let ty = match ty {
            0 => Type::Con,
            1 => Type::Non,
            2 => Type::Ack,
            _ => Type::Reset,
        };
        Ok(Byte1 { ver: Version(ver), ty, tkl })
    }
}

impl vstd::std_specs::convert::TryFromSpecImpl<u8> for Byte1 {
    open spec fn obeys_try_from_spec() -> bool {
        true
    }

    open spec fn try_from_spec(b: u8) -> Result<Byte1, MessageParseError> {
        Ok(spec_byte1_of(b))
    }
}

impl From<Byte1> for u8 {
    fn from(b: Byte1) -> (r: u8) {
        let v = b.ver.0;
        let t: u8 = match b.ty {
            Type::Con => 0,
            Type::Non => 1,
            Type::Ack => 2,
            Type::Reset => 3,
        };
        let k = b.tkl;
        let ver = v << 6;
        let ty = t << 4;
        let r = ver | ty | k;
        assert(r == (((v % 4) * 64 + t * 16) as u8) | k) by (bit_vector)
            requires
                t < 4,
                ver == v << 6,
                ty == t << 4,
                r == ver | ty | k,
        ;
        assert(k < 16 ==> r == ((v % 4) * 64 + t * 16 + k) as u8) by (bit_vector)
            requires
                t < 4,
                ver == v << 6,
                ty == t << 4,
                r == ver | ty | k,
        ;
        r
    }
}

impl vstd::std_specs::convert::FromSpecImpl<Byte1> for u8 {
    open spec fn obeys_from_spec() -> bool {
        true
    }

    open spec fn from_spec(b: Byte1) -> u8 {
        (((b.ver.0 % 4) * 64 + spec_type_num(b.ty) * 16) as u8) | b.tkl
    }
}

/// With a token length below 16, the bits of the first byte do not overlap.
pub proof fn lemma_byte1_or(v: u8, t: u8, k: u8)
    requires
        t < 4,
        k < 16,
    ensures
        (((v % 4) * 64 + t * 16) as u8) | k == ((v % 4) * 64 + t * 16 + k) as u8,
{
    assert((((v % 4) * 64 + t * 16) as u8) | k == ((v % 4) * 64 + t * 16 + k) as u8)
        by (bit_vector)
        requires
            t < 4,
            k < 16,
    ;
}

/// A CoAP message, close to its byte layout on the wire.
///
/// Options (the CoAP equivalent of HTTP headers) are kept in an
/// [`OptionMap`] in ascending order of number.
#[derive(Debug, Eq, Hash)]
pub struct Message {
    /// see [`Id`]
    pub id: Id,
    /// see [`Type`]
    pub ty: Type,
    /// see [`Version`]
    pub ver: Version,
    /// see [`Token`]
    pub token: Token,
    /// see [`Code`]
    pub code: Code,
    /// see [`OptionMap`]
    pub opts: OptionMap,
    /// see [`Payload`]
    pub payload: Payload,
}

/// A message as plain values.
pub struct MessageView {
    pub id: u16,
    pub ty: Type,
    pub ver: u8,
    pub token: Seq<u8>,
    pub code: Code,
    pub opts: Seq<(u32, Seq<Seq<u8>>)>,
    pub payload: Seq<u8>,
}

impl View for Message {
    type V = MessageView;

    open spec fn view(&self) -> MessageView {
        MessageView {
            id: self.id.0,
            ty: self.ty,
            ver: self.ver.0,
            token: self.token@,
            code: self.code,
            opts: self.opts@,
            payload: self.payload@,
        }
    }
}

impl Message {
    /// A well-formed message: a
    /// token of at most 8 bytes and options in strictly ascending order of number.
    pub open spec fn wf(&self) -> bool {
        self.token@.len() <= 8 && self.opts.wf()
    }

    /// A copy of this message
    pub fn copied(&self) -> (r: Message)
        ensures
            r@ == self@,
            r.opts@ == self.opts@,
            r.wf() == self.wf(),
    {
        Message {
            id: self.id,
            ty: self.ty,
            ver: self.ver,
            token: self.token.copied(),
            code: self.code,
            opts: self.opts.copied(),
            payload: Payload(self.payload.0.clone()),
        }
    }
}

impl Clone for Message {
    fn clone(&self) -> (r: Message)
        ensures
            r@ == self@,
            r.wf() == self.wf(),
    {
        self.copied()
    }
}

/// Two messages agree on every field
pub open spec fn same_message(a: MessageView, b: MessageView) -> bool {
    &&& a.id == b.id
    &&& a.ty == b.ty
    &&& a.ver == b.ver
    &&& a.code == b.code
    &&& a.token == b.token
    &&& a.payload == b.payload
    &&& a.opts == b.opts
}

/// Two messages are equal when their ids, types, versions, codes, tokens,
/// options and payloads are, so that equal messages hash alike.
impl PartialEq for Message {
    fn eq(&self, other: &Self) -> (r: bool) {
        self.id == other.id && self.ty == other.ty && self.ver == other.ver && self.code == other.code
            && crate::utf8::bytes_eq(self.token.0.as_slice(), other.token.0.as_slice())
            && crate::utf8::bytes_eq(self.payload.0.as_slice(), other.payload.0.as_slice())
            && self.opts.same_as(&other.opts)
    }
}

impl vstd::std_specs::cmp::PartialEqSpecImpl for Message {
    open spec fn obeys_eq_spec() -> bool {
        true
    }

    open spec fn eq_spec(&self, other: &Self) -> bool {
        same_message(self@, other@)
    }
}

} // verus!
