use vstd::prelude::*;
use vstd::std_specs::convert::FromSpecImpl;

verus! {

/// Message ID: 16-bit unsigned integer in network byte order, used to
/// detect duplication and to match Acknowledgement/Reset messages to
/// Confirmable/Non-confirmable messages.
#[derive(Copy, Clone, Hash, PartialEq, Eq, PartialOrd, Ord, Structural, Debug)]
pub struct Id(pub u16);

/// The big-endian 16-bit number of two bytes.
pub open spec fn be16_value(a: u8, b: u8) -> u16 {
    (a as int * 256 + b as int) as u16
}

/// The two big-endian bytes of a 16-bit number.
pub open spec fn be16_bytes(v: u16) -> Seq<u8> {
    seq![(v / 256) as u8, (v % 256) as u8]
}

impl Id {
    /// Create an Id from a big-endian 2-byte unsigned int
    pub fn from_be_bytes(bs: [u8; 2]) -> (r: Self)
        ensures
            r.0 == be16_value(bs@[0], bs@[1]),
    {
        Id(bs[0] as u16 * 256 + bs[1] as u16)
    }
}

impl Id {
    /// Read an id from the two big-endian bytes at `pos`, giving the position
    /// after them; too few bytes is the end-of-input error
    pub fn try_consume_bytes(bytes: &[u8], pos: usize) -> (r: Result<(Id, usize), super::parse_error::MessageParseError>)
        requires
            pos <= bytes.len(),
        ensures
            if pos + 2 <= bytes.len() {
                r == Ok::<(Id, usize), super::parse_error::MessageParseError>(
                    (Id(be16_value(bytes@[pos as int], bytes@[pos + 1])), (pos + 2) as usize),
                )
            } else {
                r == Err::<(Id, usize), super::parse_error::MessageParseError>(
                    super::parse_error::MessageParseError::UnexpectedEndOfStream,
                )
            },
    {
        if bytes.len() - pos < 2 {
            return Err(super::parse_error::MessageParseError::eof());
        }
        Ok((Id::from_be_bytes([bytes[pos], bytes[pos + 1]]), pos + 2))
    }
}

impl From<Id> for [u8; 2] {
    fn from(id: Id) -> (r: [u8; 2]) {
        let r = [(id.0 / 256) as u8, (id.0 % 256) as u8];
        assert(r@ =~= be16_bytes(id.0));
        r
    }
}

impl FromSpecImpl<Id> for [u8; 2] {
    open spec fn obeys_from_spec() -> bool {
        true
    }

    open spec fn from_spec(id: Id) -> [u8; 2] {
        [(id.0 / 256) as u8, (id.0 % 256) as u8]
    }
}

/// Reading the two big-endian bytes of a number gives the number back.
pub proof fn lemma_be16_roundtrip(v: u16)
    ensures
        be16_value(be16_bytes(v)[0], be16_bytes(v)[1]) == v,
{
}

} // verus!
