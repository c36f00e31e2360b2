//! Values that can be stored in a CoAP option or payload
use vstd::prelude::*;
use vstd::std_specs::convert::FromSpecImpl;
use vstd::string::StringSliceAdditionalSpecFns;

use crate::msg::id::be16_bytes;
use crate::msg::opt::wire::copy_range;
use crate::msg::uint::{be_bytes, spec_be_bytes};

verus! {

/// Content-Format of a request or response body
#[non_exhaustive]
#[derive(Debug, Clone, Copy)]
pub enum ContentFormat {
    /// `text/plain; charset=utf-8`
    Text,
    /// `application/link-format`
    LinkFormat,
    /// `application/xml`
    Xml,
    /// `application/octet-stream`
    OctetStream,
    /// `application/exi`
    Exi,
    /// `application/json`
    Json,
    /// Another content format
    Other(u16),
}

/// The registered number of a content format
pub open spec fn format_number(f: ContentFormat) -> u16 {
    match f {
        ContentFormat::Text => 0,
        ContentFormat::LinkFormat => 40,
        ContentFormat::Xml => 41,
        ContentFormat::OctetStream => 42,
        ContentFormat::Exi => 47,
        ContentFormat::Json => 50,
        ContentFormat::Other(n) => n,
    }
}

impl ContentFormat {
    /// The CoAP byte value of this content format: its number, big-endian
    pub fn bytes(&self) -> (r: [u8; 2])
        ensures
            r@ == be16_bytes(format_number(*self)),
    {
        let n = u16::from(self);
        let r = [(n / 256) as u8, (n % 256) as u8];
        assert(r@ =~= be16_bytes(n));
        r
    }
}

impl<'a> From<&'a ContentFormat> for u16 {
    fn from(f: &'a ContentFormat) -> (r: u16) {
        match *f {
            ContentFormat::Text => 0,
            ContentFormat::LinkFormat => 40,
            ContentFormat::Xml => 41,
            ContentFormat::OctetStream => 42,
            ContentFormat::Exi => 47,
            ContentFormat::Json => 50,
            ContentFormat::Other(n) => n,
        }
    }
}

impl<'a> FromSpecImpl<&'a ContentFormat> for u16 {
    open spec fn obeys_from_spec() -> bool {
        true
    }

    open spec fn from_spec(f: &'a ContentFormat) -> u16 {
        format_number(*f)
    }
}

/// Something that can be converted to the bytes of a CoAP option value or payload
pub trait ToCoapValue: Sized {
    /// The bytes this value converts to
    spec fn coap_value(self) -> Seq<u8>;

    /// Convert to the bytes of a CoAP option value or payload
    fn to_coap_value(self) -> (r: Vec<u8>)
        ensures
            r@ == self.coap_value(),
    ;
}

impl ToCoapValue for ContentFormat {
    open spec fn coap_value(self) -> Seq<u8> {
        be16_bytes(format_number(self))
    }

    fn to_coap_value(self) -> (r: Vec<u8>) {
        let b = self.bytes();
        let r = copy_range(&b, 0, 2);
        assert(r@ =~= b@);
        r
    }
}

impl<'a> ToCoapValue for &'a str {
    open spec fn coap_value(self) -> Seq<u8> {
        self.spec_bytes()
    }

    fn to_coap_value(self) -> (r: Vec<u8>) {
        let b = self.as_bytes();
        let r = copy_range(b, 0, b.len());
        assert(r@ =~= self.spec_bytes());
        r
    }
}

impl<'a> ToCoapValue for &'a [u8] {
    open spec fn coap_value(self) -> Seq<u8> {
        self@
    }

    fn to_coap_value(self) -> (r: Vec<u8>) {
        let r = copy_range(self, 0, self.len());
        assert(r@ =~= self@);
        r
    }
}

impl ToCoapValue for u8 {
    open spec fn coap_value(self) -> Seq<u8> {
        seq![self]
    }

    fn to_coap_value(self) -> (r: Vec<u8>) {
        let mut r = Vec::new();
        r.push(self);
        assert(r@ =~= seq![self]);
        r
    }
}

impl ToCoapValue for u16 {
    open spec fn coap_value(self) -> Seq<u8> {
        spec_be_bytes(self as nat, 2)
    }

    fn to_coap_value(self) -> (r: Vec<u8>) {
        be_bytes(self as u64, 2)
    }
}

impl ToCoapValue for u32 {
    open spec fn coap_value(self) -> Seq<u8> {
        spec_be_bytes(self as nat, 4)
    }

    fn to_coap_value(self) -> (r: Vec<u8>) {
        be_bytes(self as u64, 4)
    }
}

impl ToCoapValue for u64 {
    open spec fn coap_value(self) -> Seq<u8> {
        spec_be_bytes(self as nat, 8)
    }

    fn to_coap_value(self) -> (r: Vec<u8>) {
        be_bytes(self, 8)
    }
}


/// Dividing by 256 again and again is dividing by the powers of 256.
proof fn lemma_div256_chain(x: nat)
    ensures
        x / 256 / 256 == x / 0x1_0000,
        x / 256 / 256 / 256 == x / 0x100_0000,
        x / 256 / 256 / 256 / 256 == x / 0x1_0000_0000,
        x / 256 / 256 / 256 / 256 / 256 == x / 0x100_0000_0000,
        x / 256 / 256 / 256 / 256 / 256 / 256 == x / 0x1_0000_0000_0000,
        x / 256 / 256 / 256 / 256 / 256 / 256 / 256 == x / 0x100_0000_0000_0000,
{
    vstd::arithmetic::div_mod::lemma_div_denominator(x as int, 256, 256);
    vstd::arithmetic::div_mod::lemma_div_denominator(x as int, 0x1_0000, 256);
    vstd::arithmetic::div_mod::lemma_div_denominator(x as int, 0x100_0000, 256);
    vstd::arithmetic::div_mod::lemma_div_denominator(x as int, 0x1_0000_0000, 256);
    vstd::arithmetic::div_mod::lemma_div_denominator(x as int, 0x100_0000_0000, 256);
    vstd::arithmetic::div_mod::lemma_div_denominator(x as int, 0x1_0000_0000_0000, 256);
}

/// Integer option values are written big-endian, most significant byte
/// first, in as many bytes as the type has: a `u16` in 2, a `u32` in 4 (so
/// 1024 is `00 00 04 00`), a `u64` in 8.
pub proof fn lemma_uint_values_big_endian(a: u16, b: u32, c: u64)
    ensures
        a.coap_value() == seq![(a / 0x100) as u8, (a % 0x100) as u8],
        b.coap_value() == seq![
            (b / 0x100_0000) as u8,
            ((b / 0x1_0000) % 0x100) as u8,
            ((b / 0x100) % 0x100) as u8,
            (b % 0x100) as u8,
        ],
        c.coap_value() == seq![
            (c / 0x100_0000_0000_0000) as u8,
            ((c / 0x1_0000_0000_0000) % 0x100) as u8,
            ((c / 0x100_0000_0000) % 0x100) as u8,
            ((c / 0x1_0000_0000) % 0x100) as u8,
            ((c / 0x100_0000) % 0x100) as u8,
            ((c / 0x1_0000) % 0x100) as u8,
            ((c / 0x100) % 0x100) as u8,
            (c % 0x100) as u8,
        ],
{
    reveal_with_fuel(spec_be_bytes, 9);
    lemma_div256_chain(a as nat);
    lemma_div256_chain(b as nat);
    lemma_div256_chain(c as nat);
    assert(a / 0x100 < 0x100);
    assert(b / 0x100_0000 < 0x100);
    assert(c / 0x100_0000_0000_0000 < 0x100);
    assert(a.coap_value() =~= seq![(a / 0x100) as u8, (a % 0x100) as u8]);
    assert(b.coap_value() =~= seq![
        (b / 0x100_0000) as u8,
        ((b / 0x1_0000) % 0x100) as u8,
        ((b / 0x100) % 0x100) as u8,
        (b % 0x100) as u8,
    ]);
    assert(c.coap_value() =~= seq![
        (c / 0x100_0000_0000_0000) as u8,
        ((c / 0x1_0000_0000_0000) % 0x100) as u8,
        ((c / 0x100_0000_0000) % 0x100) as u8,
        ((c / 0x1_0000_0000) % 0x100) as u8,
        ((c / 0x100_0000) % 0x100) as u8,
        ((c / 0x1_0000) % 0x100) as u8,
        ((c / 0x100) % 0x100) as u8,
        (c % 0x100) as u8,
    ]);
}

} // verus!
