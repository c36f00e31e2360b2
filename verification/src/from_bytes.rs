//! Reading messages from bytes
use vstd::prelude::*;

use crate::msg::code::spec_code_from_byte;
use crate::msg::id::be16_value;
use crate::msg::code::spec_code_to_byte;
use crate::msg::id::be16_bytes;
use crate::msg::opt::wire::{
    copy_range, lemma_opts_roundtrip, opts_roundtrip, spec_opts_bytes, spec_parse_opt,
    spec_parse_opts,
};
use crate::msg::ty::{spec_type_num, spec_type_of_num};
use crate::msg::{spec_byte1_to, OptParseError, Type, Version};
use crate::to_bytes::spec_message_bytes;
use crate::msg::opt::OptionMap;
use crate::msg::{
    spec_byte1_of, Byte1, Code, Id, Message, MessageParseError, MessageView, Payload, Token,
};

verus! {

/// Reading a message: the first byte (version, type, token length), the
/// code, the id, the token, the options and, after them, the payload.
pub open spec fn spec_parse_message(s: Seq<u8>) -> Result<MessageView, MessageParseError> {
    if s.len() < 1 {
        Err(MessageParseError::UnexpectedEndOfStream)
    } else {
        let b1 = spec_byte1_of(s[0]);
        let tkl = b1.tkl as int;
        if b1.tkl > 8 {
            Err(MessageParseError::InvalidTokenLength(b1.tkl))
        } else if s.len() < 4 + tkl {
            Err(MessageParseError::UnexpectedEndOfStream)
        } else {
            match spec_parse_opts(s.skip(4 + tkl), 0, Seq::empty()) {
                Err(e) => Err(MessageParseError::OptParseError(e)),
                Ok((opts, n)) => Ok(
                    MessageView {
                        id: be16_value(s[2], s[3]),
                        ty: b1.ty,
                        ver: b1.ver.0,
                        token: s.subrange(4, 4 + tkl),
                        code: spec_code_from_byte(s[1]),
                        opts,
                        payload: s.skip(4 + tkl + n),
                    },
                ),
            }
        }
    }
}

impl Message {
    /// Read a message from its bytes.
    pub fn try_from_bytes(bytes: &[u8]) -> (r: Result<Message, MessageParseError>)
        ensures
            match r {
                Ok(m) => m.wf() && spec_parse_message(bytes@) == Ok::<
                    MessageView,
                    MessageParseError,
                >(m@),
                Err(e) => spec_parse_message(bytes@) == Err::<MessageView, MessageParseError>(e),
            },
    {
        if bytes.len() < 1 {
            return Err(MessageParseError::eof());
        }
        let b1: Byte1 = match Byte1::try_from(bytes[0]) {
            Ok(b) => b,
            Err(e) => {
                return Err(e);
            },
        };
        let tkl = b1.tkl;
        if tkl > 8 {
            return Err(MessageParseError::InvalidTokenLength(tkl));
        }
        if bytes.len() < 2 {
            return Err(MessageParseError::eof());
        }
        let code: Code = Code::from(bytes[1]);
        if bytes.len() < 4 {
            return Err(MessageParseError::eof());
        }
        let id = Id::from_be_bytes([bytes[2], bytes[3]]);
        let tkl = tkl as usize;
        if bytes.len() - 4 < tkl {
            return Err(MessageParseError::eof());
        }
        let token = Token(copy_range(bytes, 4, 4 + tkl));
        let (opts, end) = match OptionMap::try_consume_bytes(bytes, 4 + tkl) {
            Ok(r) => r,
            Err(e) => {
                return Err(MessageParseError::OptParseError(e));
            },
        };
        let payload = Payload(copy_range(bytes, end, bytes.len()));
        let m = Message { id, ty: b1.ty, ver: b1.ver, code, token, opts, payload };
        proof {
            assert(bytes@.skip(4 + tkl).skip(end - (4 + tkl)) =~= bytes@.subrange(
                end as int,
                bytes@.len() as int,
            ));
            assert(m@ == spec_parse_message(bytes@).unwrap());
        }
        Ok(m)
    }
}

/// The messages that read back exactly as they are written: a version below
/// 4, a class below 8 and a detail below 32 (the widths of their fields), a
/// token of at most 8 bytes, and options that each hold one or more values
/// of fewer than 65536 bytes (repeated options such as Uri-Path included),
/// with numbers rising by at most 65535 at a time.
pub open spec fn message_roundtrips(m: MessageView) -> bool {
    &&& m.ver < 4
    &&& m.code.class < 8
    &&& m.code.detail < 32
    &&& m.token.len() <= 8
    &&& opts_roundtrip(m.opts, 0)
}

proof fn lemma_byte1_decode(v: u8, t: u8, k: u8)
    requires
        v < 4,
        t < 4,
        k < 16,
    ensures
        ((v * 64 + t * 16 + k) as u8) / 64 == v,
        (((v * 64 + t * 16 + k) as u8) / 16) % 4 == t,
        ((v * 64 + t * 16 + k) as u8) % 16 == k,
{
    assert(v * 64 + t * 16 + k < 256) by (nonlinear_arith)
        requires
            v < 4,
            t < 4,
            k < 16,
    ;
    let b = (v * 64 + t * 16 + k) as int;
    assert(b / 64 == v) by (nonlinear_arith)
        requires
            b == v * 64 + t * 16 + k,
            t < 4,
            k < 16,
    ;
    assert((b / 16) % 4 == t) by (nonlinear_arith)
        requires
            b == v * 64 + t * 16 + k,
            t < 4,
            k < 16,
    ;
    assert(b % 16 == k) by (nonlinear_arith)
        requires
            b == v * 64 + t * 16 + k,
            k < 16,
    ;
}

/// What reading a message gives once its header and options have been read.
proof fn lemma_parse_message_parts(
    s: Seq<u8>,
    b1: Byte1,
    opts: Seq<(u32, Seq<Seq<u8>>)>,
    n: int,
)
    requires
        s.len() >= 1,
        spec_byte1_of(s[0]) == b1,
        b1.tkl <= 8,
        s.len() >= 4 + b1.tkl,
        spec_parse_opts(s.skip(4 + b1.tkl), 0, Seq::empty()) == Ok::<
            (Seq<(u32, Seq<Seq<u8>>)>, int),
            OptParseError,
        >((opts, n)),
    ensures
        spec_parse_message(s) == Ok::<MessageView, MessageParseError>(
            MessageView {
                id: be16_value(s[2], s[3]),
                ty: b1.ty,
                ver: b1.ver.0,
                token: s.subrange(4, 4 + b1.tkl),
                code: spec_code_from_byte(s[1]),
                opts,
                payload: s.skip(4 + b1.tkl + n),
            },
        ),
{
}

/// Writing a message and reading its bytes back gives the same message.
#[verifier::spinoff_prover]
#[verifier::rlimit(60)]
pub proof fn lemma_message_roundtrip(m: MessageView)
    requires
        message_roundtrips(m),
    ensures
        spec_parse_message(spec_message_bytes(m)) == Ok::<MessageView, MessageParseError>(m),
{
    let s = spec_message_bytes(m);
    let tkl = m.token.len() as u8;
    let b1 = Byte1 { ver: Version(m.ver), ty: m.ty, tkl };
    let ob = spec_opts_bytes(m.opts, 0);
    let tail = if m.payload.len() == 0 {
        Seq::<u8>::empty()
    } else {
        seq![0xFFu8] + m.payload
    };
    let head = seq![spec_byte1_to(b1), spec_code_to_byte(m.code)] + be16_bytes(m.id) + m.token;
    assert(s =~= head + (ob + tail));
    assert(head.len() == 4 + tkl);
    let b = s[0];
    assert(spec_byte1_of(b) == b1) by {
        assert(b == spec_byte1_to(b1));
        lemma_byte1_decode(m.ver, spec_type_num(m.ty), tkl);
        assert(spec_type_of_num(spec_type_num(m.ty)) == Some(m.ty));
    }
    assert(spec_code_from_byte(s[1]) == m.code);
    assert(be16_value(s[2], s[3]) == m.id);
    assert(s.skip(4 + tkl) =~= ob + tail);
    assert(s.subrange(4, 4 + tkl) =~= m.token);
    let n = ob.len() + if tail.len() == 0 {
        0int
    } else {
        1int
    };
    assert(spec_parse_opts(ob + tail, 0, Seq::empty()) == Ok::<
        (Seq<(u32, Seq<Seq<u8>>)>, int),
        OptParseError,
    >((m.opts, n))) by {
        assert(spec_parse_opt(tail) == Err::<(u16, Seq<u8>, int), OptParseError>(
            OptParseError::OptionsExhausted,
        ));
        lemma_opts_roundtrip(m.opts, 0, Seq::empty(), tail);
        assert(Seq::<(u32, Seq<Seq<u8>>)>::empty() + m.opts =~= m.opts);
    }
    assert(s.skip(4 + tkl + n) =~= m.payload);
    lemma_parse_message_parts(s, b1, m.opts, n);
}


/// The message type travels in bits 4 and 5 of the first byte, numbered as
/// RFC 7252 (section 3) fixes them: Confirmable 0, Non-confirmable 1,
/// Acknowledgement 2, Reset 3.
pub proof fn lemma_type_bits_written(m: MessageView)
    requires
        m.token.len() < 16,
    ensures
        m.ty == Type::Con ==> spec_message_bytes(m)[0] / 16 % 4 == 0,
        m.ty == Type::Non ==> spec_message_bytes(m)[0] / 16 % 4 == 1,
        m.ty == Type::Ack ==> spec_message_bytes(m)[0] / 16 % 4 == 2,
        m.ty == Type::Reset ==> spec_message_bytes(m)[0] / 16 % 4 == 3,
{
    let b = spec_message_bytes(m)[0];
    let v = (m.ver % 4) as int;
    let t = spec_type_num(m.ty) as int;
    let k = m.token.len() as int;
    assert(b == spec_byte1_to(Byte1 { ver: Version(m.ver), ty: m.ty, tkl: m.token.len() as u8 }));
    assert(0 <= t < 4);
    assert(0 <= v < 4);
    assert(b == v * 64 + t * 16 + k);
    assert((v * 64 + t * 16 + k) / 16 % 4 == t) by (nonlinear_arith)
        requires
            0 <= v < 4,
            0 <= t < 4,
            0 <= k < 16,
    ;
}

/// Reading a message takes its type from bits 4 and 5 of the first byte, as
/// RFC 7252 (section 3) numbers them: 0 Confirmable, 1 Non-confirmable,
/// 2 Acknowledgement, 3 Reset.
pub proof fn lemma_type_bits_read(s: Seq<u8>)
    ensures
        spec_parse_message(s) matches Ok(v) ==> {
            &&& v.ty == Type::Con <==> s[0] / 16 % 4 == 0
            &&& v.ty == Type::Non <==> s[0] / 16 % 4 == 1
            &&& v.ty == Type::Ack <==> s[0] / 16 % 4 == 2
            &&& v.ty == Type::Reset <==> s[0] / 16 % 4 == 3
        },
{
}

} // verus!
