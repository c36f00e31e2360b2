use vstd::prelude::*;
use vstd::std_specs::convert::FromSpecImpl;
use vstd::utf8::{encode_scalar, encode_utf8, encode_utf8_decode_utf8, encode_utf8_valid_utf8};

use crate::utf8::string_from_utf8;

verus! {

/// Message code: a 3-bit class and a 5-bit detail, written `c.dd`.
///
/// |class|meaning|
/// |---|---|
/// |`0`|request (or empty)|
/// |`2`|success response|
/// |`4`|client error response|
/// |`5`|server error response|
#[derive(Copy, Clone, Hash, PartialEq, Eq, PartialOrd, Ord, Structural, Debug)]
pub struct Code {
    /// Identifies the code as a request or response, and the class of response status
    pub class: u8,
    /// 2-digit integer (range `[0, 32)`) giving granular information about the status
    pub detail: u8,
}

/// Whether a code is for a request, response, or empty message
#[derive(Clone, Copy, Debug, PartialEq, Eq, Structural)]
pub enum CodeKind {
    /// A request code (0.xx)
    Request,
    /// A response code ([2-5].xx)
    Response,
    /// EMPTY (0.00)
    Empty,
}

/// The kind of a code: `0.00` is empty, `0.xx` a request, any other class a response.
pub open spec fn spec_code_kind(c: Code) -> CodeKind {
    if c.class == 0 && c.detail == 0 {
        CodeKind::Empty
    } else if c.class == 0 {
        CodeKind::Request
    } else {
        CodeKind::Response
    }
}

/// The decimal digit `d` as a character.
pub open spec fn digit_char(d: u8) -> char {
    (d + 48) as char
}

/// The code read from its byte `xxxyyyyy`: class `xxx`, detail `yyyyy`.
pub open spec fn spec_code_from_byte(b: u8) -> Code {
    Code { class: b / 32, detail: b % 32 }
}

/// The byte of a code: the low 3 bits of the class, then the low 5 bits of the detail.
pub open spec fn spec_code_to_byte(c: Code) -> u8 {
    ((c.class % 8) * 32 + c.detail % 32) as u8
}

fn digit(d: u8) -> (c: char)
    requires
        d < 10,
    ensures
        c == digit_char(d),
{
    (d + 48) as char
}

proof fn lemma_ascii_encodes(cs: Seq<char>, b: Seq<u8>)
    requires
        cs.len() == b.len(),
        forall|i: int| 0 <= i < cs.len() ==> (#[trigger] cs[i]) as u32 <= 0x7F && cs[i] as u32 == b[i],
    ensures
        encode_utf8(cs) == b,
    decreases cs.len(),
{
    if cs.len() > 0 {
        let v = cs[0] as u32;
        assert((v & 0x7F) == v) by (bit_vector)
            requires
                v <= 0x7F,
        ;
        assert(encode_scalar(v) =~= seq![b[0]]);
        assert forall|i: int| 0 <= i < cs.drop_first().len() implies (#[trigger] cs.drop_first()[i]) as u32
            <= 0x7F && cs.drop_first()[i] as u32 == b.drop_first()[i] by {
            assert(cs.drop_first()[i] == cs[i + 1]);
        }
        lemma_ascii_encodes(cs.drop_first(), b.drop_first());
        assert(b =~= seq![b[0]] + b.drop_first());
    } else {
        assert(b =~= Seq::<u8>::empty());
    }
}

impl Code {
    /// `0.00`, the code of an empty message
    pub fn empty() -> (r: Code)
        ensures
            r == (Code { class: 0, detail: 0 }),
    {
        Code { class: 0, detail: 0 }
    }

    /// `0.01`, GET
    pub fn get() -> (r: Code)
        ensures
            r == (Code { class: 0, detail: 1 }),
    {
        Code { class: 0, detail: 1 }
    }

    /// `0.02`, PUT
    pub fn put() -> (r: Code)
        ensures
            r == (Code { class: 0, detail: 2 }),
    {
        Code { class: 0, detail: 2 }
    }

    /// `0.03`, POST
    pub fn post() -> (r: Code)
        ensures
            r == (Code { class: 0, detail: 3 }),
    {
        Code { class: 0, detail: 3 }
    }

    /// `0.04`, DELETE
    pub fn delete() -> (r: Code)
        ensures
            r == (Code { class: 0, detail: 4 }),
    {
        Code { class: 0, detail: 4 }
    }

    /// Create a new Code
    pub fn new(class: u8, detail: u8) -> (r: Self)
        ensures
            r.class == class,
            r.detail == detail,
    {
        Code { class, detail }
    }

    /// The human representation of the code, `c.dd`, as a string.
    ///
    /// The class must be a single digit and the detail at most two digits.
    pub fn to_string(&self) -> (r: std::string::String)
        requires
            self.class < 10,
            self.detail < 100,
        ensures
            r@ == seq![
                digit_char(self.class),
                '.',
                digit_char(self.detail / 10),
                digit_char(self.detail % 10),
            ],
    {
        let mut b: Vec<u8> = Vec::new();
        b.push(self.class + 48);
        b.push(46);
        b.push(self.detail / 10 + 48);
        b.push(self.detail % 10 + 48);
        proof {
            let cs = seq![
                digit_char(self.class),
                '.',
                digit_char(self.detail / 10),
                digit_char(self.detail % 10),
            ];
            lemma_ascii_encodes(cs, b@);
            encode_utf8_valid_utf8(cs);
            encode_utf8_decode_utf8(cs);
        }
        string_from_utf8(b).unwrap()
    }

    /// The human representation of the code, `c.dd`, as four characters.
    ///
    /// The class must be a single digit and the detail at most two digits.
    pub fn to_human(&self) -> (r: [char; 4])
        requires
            self.class < 10,
            self.detail < 100,
        ensures
            r@ == seq![
                digit_char(self.class),
                '.',
                digit_char(self.detail / 10),
                digit_char(self.detail % 10),
            ],
    {
        let r = [digit(self.class), '.', digit(self.detail / 10), digit(self.detail % 10)];
        assert(r@ =~= seq![
            digit_char(self.class),
            '.',
            digit_char(self.detail / 10),
            digit_char(self.detail % 10),
        ]);
        r
    }

    /// Get whether this code is for a request, response, or empty message
    pub fn kind(&self) -> (k: CodeKind)
        ensures
            k == spec_code_kind(*self),
    {
        if self.class == 0 && self.detail == 0 {
            CodeKind::Empty
        } else if self.class == 0 {
            CodeKind::Request
        } else {
            CodeKind::Response
        }
    }
}

impl From<u8> for Code {
    fn from(b: u8) -> (r: Code) {
        let class = b >> 5;
        let detail = b & 0b00011111;
        assert(class == b / 32 && detail == b % 32) by (bit_vector)
            requires
                class == b >> 5,
                detail == b & 0b00011111,
        ;
        Code { class, detail }
    }
}

impl FromSpecImpl<u8> for Code {
    open spec fn obeys_from_spec() -> bool {
        true
    }

    open spec fn from_spec(b: u8) -> Code {
        spec_code_from_byte(b)
    }
}

impl From<Code> for u8 {
    fn from(code: Code) -> (r: u8) {
        let c = code.class;
        let d = code.detail;
        let class = (c << 5) & 0b11100000;
        let detail = d & 0b00011111;
        let r = class | detail;
        assert(r == ((c % 8) * 32 + d % 32) as u8) by (bit_vector)
            requires
                class == (c << 5) & 0b11100000,
                detail == d & 0b00011111,
                r == class | detail,
        ;
        r
    }
}

impl FromSpecImpl<Code> for u8 {
    open spec fn obeys_from_spec() -> bool {
        true
    }

    open spec fn from_spec(c: Code) -> u8 {
        spec_code_to_byte(c)
    }
}

/// A code survives the trip through its byte when its class fits 3 bits and its detail 5 bits.
pub proof fn lemma_code_byte_roundtrip(c: Code)
    requires
        c.class < 8,
        c.detail < 32,
    ensures
        spec_code_from_byte(spec_code_to_byte(c)) == c,
{
}

/// Every byte survives the trip through a code.
pub proof fn lemma_byte_code_roundtrip(b: u8)
    ensures
        spec_code_to_byte(spec_code_from_byte(b)) == b,
{
}


/// Every code whose class is not 0 (2.xx success, 4.xx client error, 5.xx
/// server error and so on) is a response; `0.00` is empty, and every other
/// `0.xx` is a request.
pub proof fn lemma_code_kinds(c: Code)
    ensures
        c.class != 0 ==> spec_code_kind(c) == CodeKind::Response,
        c.class == 0 && c.detail != 0 ==> spec_code_kind(c) == CodeKind::Request,
        c.class == 0 && c.detail == 0 ==> spec_code_kind(c) == CodeKind::Empty,
{
}

} // verus!
