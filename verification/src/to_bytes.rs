//! Writing messages as bytes
use vstd::prelude::*;

use crate::msg::code::spec_code_to_byte;
use crate::msg::id::be16_bytes;
use crate::msg::opt::wire::{append_slice, opts_fit, spec_opts_bytes, write_opts};
use crate::msg::opt::OptValue;
use crate::msg::{spec_byte1_to, Byte1, Message, MessageView, Type, Version};

verus! {

/// Errors encounterable serializing to bytes
#[derive(Debug, Clone, Copy, PartialEq, Eq, Structural)]
pub enum MessageToBytesError {
    /// Reserved capacity was not enough for size of message
    TooLong { capacity: usize, size: usize },
    /// An option cannot be written: its value is 65536 bytes or longer, or
    /// its number is more than 65535 above the previous option's
    OptionOutOfRange,
}

/// The bytes of a message: the first byte, the code, the id, the token, the
/// options and, when the payload is not empty, the payload marker `0xFF`
/// followed by the payload.
pub open spec fn spec_message_bytes(m: MessageView) -> Seq<u8> {
    seq![
        spec_byte1_to(Byte1 { ver: Version(m.ver), ty: m.ty, tkl: m.token.len() as u8 }),
        spec_code_to_byte(m.code),
    ] + be16_bytes(m.id) + m.token + spec_opts_bytes(m.opts, 0) + if m.payload.len() == 0 {
        Seq::<u8>::empty()
    } else {
        seq![0xFFu8] + m.payload
    }
}

/// The number of extended bytes that a delta or length calls for.
pub open spec fn ext_size(n: int) -> nat {
    if n >= 269 {
        2
    } else if n >= 13 {
        1
    } else {
        0
    }
}

/// The size of one option: header, extended delta and length, value.
pub open spec fn spec_opt_size(delta: u16, value_len: nat) -> nat {
    1 + ext_size(delta as int) + ext_size(value_len as int) + value_len
}

/// The size of the values of one option number.
pub open spec fn spec_values_size(vals: Seq<Seq<u8>>, delta: u16) -> nat
    decreases vals.len(),
{
    if vals.len() == 0 {
        0
    } else {
        spec_opt_size(delta, vals[0].len()) + spec_values_size(vals.drop_first(), 0)
    }
}

/// The size of all options, in the order they are written.
pub open spec fn spec_opts_size(s: Seq<(u32, Seq<Seq<u8>>)>, last: u32) -> nat
    decreases s.len(),
{
    if s.len() == 0 {
        0
    } else if s[0].1.len() == 0 {
        spec_opts_size(s.drop_first(), last)
    } else {
        spec_values_size(s[0].1, ((s[0].0 - last) % 0x1_0000) as u16) + spec_opts_size(
            s.drop_first(),
            s[0].0,
        )
    }
}

/// The size reserved for a message: header, payload marker, payload, token and options.
pub open spec fn spec_message_size(m: MessageView) -> nat {
    4 + 1 + m.payload.len() + m.token.len() + spec_opts_size(m.opts, 0)
}

/// The size of a message on the wire: header, token and options, then the
/// payload marker and the payload when the payload is not empty.
pub open spec fn spec_wire_size(m: MessageView) -> nat {
    4 + m.token.len() + spec_opts_size(m.opts, 0) + if m.payload.len() == 0 {
        0
    } else {
        1 + m.payload.len()
    }
}

fn values_size(vals: &Vec<OptValue>, delta: u16, bound: Ghost<nat>) -> (r: usize)
    requires
        spec_values_size(crate::msg::opt::values_view(vals@), delta) <= bound@,
        bound@ <= usize::MAX,
    ensures
        r == spec_values_size(crate::msg::opt::values_view(vals@), delta),
{
    let ghost vv = crate::msg::opt::values_view(vals@);
    let mut acc: usize = 0;
    let mut t: usize = 0;
    assert(vv.skip(0) =~= vv);
    while t < vals.len()
        invariant
            0 <= t <= vals.len(),
            vv == crate::msg::opt::values_view(vals@),
            spec_values_size(vv, delta) <= bound@,
            bound@ <= usize::MAX,
            spec_values_size(vv, delta) == acc + spec_values_size(
                vv.skip(t as int),
                if t == 0 {
                    delta
                } else {
                    0
                },
            ),
        decreases vals.len() - t,
    {
        let d = if t == 0 {
            delta
        } else {
            0
        };
        assert(vv.skip(t as int).drop_first() =~= vv.skip(t + 1));
        let l = vals[t].0.len();
        let ds: usize = if d >= 269 {
            2
        } else if d >= 13 {
            1
        } else {
            0
        };
        let ls: usize = if l >= 269 {
            2
        } else if l >= 13 {
            1
        } else {
            0
        };
        acc = acc + 1 + ds + ls + l;
        t = t + 1;
    }
    assert(vv.skip(t as int) =~= Seq::<Seq<u8>>::empty());
    acc
}

impl Message {
    /// A message has no fixed capacity, so it is never full
    pub fn is_full(&self) -> (r: bool)
        ensures
            !r,
    {
        false
    }

    /// The size reserved for this message's bytes: the header, a payload
    /// marker, the payload, the token and every option.
    pub fn len(&self) -> (r: usize)
        requires
            self.opts.wf(),
            spec_message_size(self@) <= usize::MAX,
        ensures
            r == spec_message_size(self@),
    {
        let ghost sv = self.opts@;
        let ghost total = spec_message_size(self@);
        let mut acc: usize = 4 + 1 + self.payload.0.len() + self.token.0.len();
        let mut i: usize = 0;
        let mut last: u32 = 0;
        assert(sv.skip(0) =~= sv);
        while i < self.opts.0.len()
            invariant
                0 <= i <= self.opts.0.len(),
                sv == self.opts@,
                crate::msg::opt::keys_sorted(sv),
                total <= usize::MAX,
                forall|j: int| i <= j < sv.len() ==> last <= sv[j].0,
                total == acc + spec_opts_size(sv.skip(i as int), last),
            decreases self.opts.0.len() - i,
        {
            assert(sv.skip(i as int).drop_first() =~= sv.skip(i + 1));
            assert(sv[i as int] == crate::msg::opt::entry_view(self.opts.0@[i as int]));
            let num = self.opts.0[i].0.0;
            let vals = &self.opts.0[i].1;
            if vals.len() != 0 {
                let delta = ((num - last) % 0x1_0000) as u16;
                let s = values_size(vals, delta, Ghost(total));
                acc = acc + s;
                last = num;
            }
            i = i + 1;
        }
        assert(sv.skip(i as int) =~= Seq::<(u32, Seq<Seq<u8>>)>::empty());
        acc
    }

    /// The bytes of this message, refused when a buffer of `max_size` bytes
    /// (`None` for an unbounded one) could not hold them, or when an option
    /// cannot be written (see [`opts_fit`]).
    pub fn try_into_bytes(self, max_size: Option<usize>) -> (r: Result<Vec<u8>, MessageToBytesError>)
        requires
            self.wf(),
            spec_message_size(self@) <= usize::MAX,
        ensures
            match max_size {
                Some(max) if max < spec_wire_size(self@) => r == Err::<
                    Vec<u8>,
                    MessageToBytesError,
                >(MessageToBytesError::TooLong { capacity: max, size: spec_wire_size(self@) as usize }),
                _ => if opts_fit(self.opts@, 0) {
                    r matches Ok(b) && b@ == spec_message_bytes(self@)
                } else {
                    r == Err::<Vec<u8>, MessageToBytesError>(MessageToBytesError::OptionOutOfRange)
                },
            },
    {
        let reserved = self.len();
        let size = if self.payload.0.len() == 0 {
            reserved - 1
        } else {
            reserved
        };
        match max_size {
            Some(max) => {
                if max < size {
                    return Err(MessageToBytesError::TooLong { capacity: max, size });
                }
            },
            None => {},
        }
        if !self.opts.fits_wire() {
            return Err(MessageToBytesError::OptionOutOfRange);
        }
        let mut bytes: Vec<u8> = Vec::new();
        let b1 = Byte1 { tkl: self.token.0.len() as u8, ver: self.ver, ty: self.ty };
        let byte1: u8 = u8::from(b1);
        let code: u8 = u8::from(self.code);
        let id: [u8; 2] = <[u8; 2]>::from(self.id);
        proof {
            crate::msg::lemma_byte1_or(b1.ver.0, crate::msg::ty::spec_type_num(b1.ty), b1.tkl);
        }
        assert(code == spec_code_to_byte(self.code));
        assert(id@ == be16_bytes(self.id.0));
        bytes.push(byte1);
        bytes.push(code);
        bytes.push(id[0]);
        bytes.push(id[1]);
        append_slice(&mut bytes, self.token.0.as_slice());
        write_opts(&self.opts, &mut bytes);
        if self.payload.0.len() != 0 {
            bytes.push(0b11111111);
            append_slice(&mut bytes, self.payload.0.as_slice());
        }
        proof {
            let tkl = self.token@.len() as u8;
            assert(tkl < 16);
            assert(bytes@ =~= spec_message_bytes(self@));
        }
        Ok(bytes)
    }
}

} // verus!
