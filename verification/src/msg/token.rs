use blake2::digest::consts::U8;
use blake2::{Blake2b, Digest};
use vstd::prelude::*;

use crate::msg::opt::wire::copy_range;

verus! {

/// The 8-byte BLAKE2b digest of some bytes
pub uninterp spec fn blake2b_64(data: Seq<u8>) -> Seq<u8>;

/// BLAKE2b with an 8-byte output (`blake2::Blake2b<U8>`): `new`, one
/// `update` with `data`, then `finalize`. The digest is a function of the
/// bytes alone; it is named here, not stated.
#[verifier::external_body]
pub(crate) fn blake2b_digest(data: &[u8]) -> (r: [u8; 8])
    ensures
        r@ == blake2b_64(data@),
{
    let mut digest = Blake2b::<U8>::new();
    digest.update(data);
    digest.finalize().into()
}

/// Message token: up to 8 opaque bytes, chosen by a client to match
/// responses to its requests.
#[derive(Clone, Hash, PartialEq, Eq, PartialOrd, Ord, Debug, Default)]
pub struct Token(pub Vec<u8>);

impl View for Token {
    type V = Seq<u8>;

    open spec fn view(&self) -> Seq<u8> {
        self.0@
    }
}

impl Token {
    /// Convert a reference to a Token to a byte slice
    pub fn as_bytes(&self) -> (r: &[u8])
        ensures
            r@ == self@,
    {
        self.0.as_slice()
    }

    /// Take an arbitrary-length sequence of bytes and turn it into an opaque
    /// message token: its 8-byte BLAKE2b digest
    pub fn opaque(data: &[u8]) -> (r: Token)
        ensures
            r@ == blake2b_64(data@),
            r@.len() == 8,
    {
        let d = blake2b_digest(data);
        let v = copy_range(&d, 0, 8);
        assert(v@ =~= d@);
        Token(v)
    }

    /// A copy of this token
    pub fn copied(&self) -> (r: Token)
        ensures
            r@ == self@,
    {
        Token(self.0.clone())
    }
}

} // verus!
