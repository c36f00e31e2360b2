//! A UTF-8 string with a fixed capacity in bytes
use vstd::prelude::*;
use vstd::string::StringSliceAdditionalSpecFns;
use vstd::utf8::{
    decode_utf8, encode_scalar, encode_utf8, encode_utf8_decode_utf8, encode_utf8_valid_utf8,
    is_char_boundary, valid_utf8, valid_utf8_concat, valid_utf8_split, decode_utf8_encode_utf8,
};

use crate::msg::opt::wire::copy_range;
use crate::utf8::{bytes_eq, str_from_utf8};

verus! {

/// The bytes given to [`String::from_utf8`] were not UTF-8
#[derive(Clone, Copy, PartialEq, PartialOrd, Eq, Ord, Hash, Debug, Default)]
pub struct FromUtf8Error;

/// The units given to [`String::from_utf16`] were not UTF-16
#[derive(Clone, Copy, PartialEq, PartialOrd, Eq, Ord, Hash, Debug, Default)]
pub struct FromUtf16Error;

/// UTF-8 string of at most `N` bytes
#[derive(Debug)]
pub struct String<const N: usize> {
    bytes: Vec<u8>,
}

impl<const N: usize> String<N> {
    #[verifier::type_invariant]
    spec fn inv(self) -> bool {
        self.bytes@.len() <= N && valid_utf8(self.bytes@)
    }

    /// The bytes of this string
    pub closed spec fn bytes(self) -> Seq<u8> {
        self.bytes@
    }
}

impl<const N: usize> View for String<N> {
    type V = Seq<char>;

    closed spec fn view(&self) -> Seq<char> {
        decode_utf8(self.bytes@)
    }
}

/// Whether a value is a Unicode scalar: what a `char` may hold
pub open spec fn is_scalar(v: u32) -> bool {
    vstd::utf8::is_scalar(v)
}

fn encode_scalar_bytes(v: u32, out: &mut Vec<u8>)
    requires
        is_scalar(v),
    ensures
        final(out)@ == old(out)@ + encode_scalar(v),
{
    if v <= 0x7F {
        out.push((v & 0x7F) as u8);
    } else if v <= 0x7FF {
        out.push(0xC0 | ((v >> 6) & 0x1F) as u8);
        out.push(0x80 | (v & 0x3F) as u8);
    } else if v <= 0xFFFF {
        out.push(0xE0 | ((v >> 12) & 0x0F) as u8);
        out.push(0x80 | ((v >> 6) & 0x3F) as u8);
        out.push(0x80 | (v & 0x3F) as u8);
    } else {
        out.push(0xF0 | ((v >> 18) & 0x7) as u8);
        out.push(0x80 | ((v >> 12) & 0x3F) as u8);
        out.push(0x80 | ((v >> 6) & 0x3F) as u8);
        out.push(0x80 | (v & 0x3F) as u8);
    }
    assert(final(out)@ =~= old(out)@ + encode_scalar(v));
}

proof fn lemma_encode_char(c: char)
    ensures
        encode_utf8(seq![c]) == encode_scalar(c as u32),
        valid_utf8(encode_scalar(c as u32)),
        decode_utf8(encode_scalar(c as u32)) == seq![c],
{
    assert(seq![c].drop_first() =~= Seq::<char>::empty());
    assert(seq![c][0] == c);
    assert(encode_utf8(Seq::<char>::empty()) == Seq::<u8>::empty());
    assert(encode_utf8(seq![c]) == encode_scalar(c as u32) + encode_utf8(seq![c].drop_first()));
    assert(encode_utf8(seq![c]) =~= encode_scalar(c as u32));
    encode_utf8_valid_utf8(seq![c]);
    encode_utf8_decode_utf8(seq![c]);
}

/// A high surrogate
pub open spec fn is_high_surrogate(u: u16) -> bool {
    0xD800 <= u <= 0xDBFF
}

/// A low surrogate
pub open spec fn is_low_surrogate(u: u16) -> bool {
    0xDC00 <= u <= 0xDFFF
}

/// The characters that UTF-16 units decode to, up to the first unit that is
/// not valid UTF-16, and whether all of them were valid
pub open spec fn decode_utf16(v: Seq<u16>) -> (Seq<char>, bool)
    decreases v.len(),
{
    if v.len() == 0 {
        (Seq::empty(), true)
    } else if !is_high_surrogate(v[0]) && !is_low_surrogate(v[0]) {
        let rest = decode_utf16(v.drop_first());
        (seq![(v[0] as u32) as char] + rest.0, rest.1)
    } else if is_high_surrogate(v[0]) && v.len() >= 2 && is_low_surrogate(v[1]) {
        let rest = decode_utf16(v.skip(2));
        (
            seq![((0x10000 + (v[0] - 0xD800) * 0x400 + (v[1] - 0xDC00)) as u32) as char] + rest.0,
            rest.1,
        )
    } else {
        (Seq::empty(), false)
    }
}

impl<const N: usize> String<N> {
    /// An empty string
    pub fn new() -> (r: Self)
        ensures
            r.bytes() == Seq::<u8>::empty(),
    {
        proof {
            assert(valid_utf8(Seq::<u8>::empty()));
        }
        String { bytes: Vec::new() }
    }

    /// The string as a string slice
    pub fn as_str(&self) -> (r: &str)
        ensures
            r@ == self@,
            r.spec_bytes() == self.bytes(),
    {
        proof {
            use_type_invariant(self);
            decode_utf8_encode_utf8(self.bytes@);
        }
        str_from_utf8(self.bytes.as_slice()).unwrap()
    }

    /// The bytes of the string
    pub fn as_bytes(&self) -> (r: &[u8])
        ensures
            r@ == self.bytes(),
    {
        self.bytes.as_slice()
    }

    /// The capacity, in bytes
    pub fn capacity(&self) -> (r: usize)
        ensures
            r == N,
    {
        N
    }

    /// The length, in bytes
    pub fn len(&self) -> (r: usize)
        ensures
            r == self.bytes().len(),
    {
        self.bytes.len()
    }

    /// Whether the string holds as many bytes as it can
    pub fn is_full(&self) -> (r: bool)
        ensures
            r == (self.bytes().len() == N),
    {
        self.bytes.len() == N
    }

    /// Remove all contents
    pub fn clear(&mut self)
        ensures
            final(self).bytes() == Seq::<u8>::empty(),
    {
        proof {
            assert(valid_utf8(Seq::<u8>::empty()));
        }
        self.bytes = Vec::new();
    }

    /// A string holding `s`
    pub fn from_str(s: &str) -> (r: Self)
        requires
            s.spec_bytes().len() <= N,
        ensures
            r.bytes() == s.spec_bytes(),
            r@ == s@,
    {
        let b = s.as_bytes();
        let bytes = copy_range(b, 0, b.len());
        proof {
            assert(bytes@ =~= s.spec_bytes());
            encode_utf8_valid_utf8(s@);
            encode_utf8_decode_utf8(s@);
        }
        String { bytes }
    }

    /// Copy bytes to a string, when they are UTF-8
    pub fn from_utf8(bytes: &[u8]) -> (r: Result<Self, FromUtf8Error>)
        requires
            valid_utf8(bytes@) ==> bytes@.len() <= N,
        ensures
            r is Ok <==> valid_utf8(bytes@),
            r matches Ok(s) ==> s.bytes() == bytes@,
    {
        match str_from_utf8(bytes) {
            Ok(_) => {
                let copy = copy_range(bytes, 0, bytes.len());
                assert(copy@ =~= bytes@);
                Ok(String { bytes: copy })
            },
            Err(_) => Err(FromUtf8Error),
        }
    }

    /// Decode UTF-16 units into a string, failing at the first unit that is
    /// not valid UTF-16
    pub fn from_utf16(v: &[u16]) -> (r: Result<Self, FromUtf16Error>)
        requires
            encode_utf8(decode_utf16(v@).0).len() <= N,
        ensures
            r is Ok <==> decode_utf16(v@).1,
            r matches Ok(s) ==> s@ == decode_utf16(v@).0,
    {
        let mut bytes: Vec<u8> = Vec::new();
        let mut i: usize = 0;
        let ghost mut done: Seq<char> = Seq::empty();
        proof {
            assert(v@.skip(0) =~= v@);
        }
        while i < v.len()
            invariant
                i <= v.len(),
                bytes@ == encode_utf8(done),
                decode_utf16(v@).0 == done + decode_utf16(v@.skip(i as int)).0,
                decode_utf16(v@).1 == decode_utf16(v@.skip(i as int)).1,
                encode_utf8(decode_utf16(v@).0).len() <= N,
            decreases v.len() - i,
        {
            let ghost rest = v@.skip(i as int);
            let u = v[i];
            assert(rest[0] == u);
            if u < 0xD800 || u > 0xDFFF {
                let x = u as u32;
                proof {
                    lemma_encode_char((x as char));
                    assert(rest.drop_first() =~= v@.skip(i + 1));
                    lemma_encode_utf8_push(done, x as char);
                }
                encode_scalar_bytes(x, &mut bytes);
                proof {
                    done = done.push(x as char);
                    assert(decode_utf16(v@).0 =~= done + decode_utf16(v@.skip(i + 1)).0);
                }
                i = i + 1;
            } else if u <= 0xDBFF && i + 1 < v.len() && v[i + 1] >= 0xDC00 && v[i + 1] <= 0xDFFF {
                let lo = v[i + 1];
                assert(rest[1] == lo);
                let x: u32 = 0x10000 + ((u - 0xD800) as u32) * 0x400 + ((lo - 0xDC00) as u32);
                proof {
                    lemma_encode_char((x as char));
                    assert(rest.skip(2) =~= v@.skip(i + 2));
                    lemma_encode_utf8_push(done, x as char);
                }
                encode_scalar_bytes(x, &mut bytes);
                proof {
                    done = done.push(x as char);
                    assert(decode_utf16(v@).0 =~= done + decode_utf16(v@.skip(i + 2)).0);
                }
                i = i + 2;
            } else {
                return Err(FromUtf16Error);
            }
            proof {
                lemma_encode_utf8_prefix_len(done, decode_utf16(v@.skip(i as int)).0);
            }
        }
        proof {
            assert(v@.skip(i as int) =~= Seq::<u16>::empty());
            assert(done + Seq::<char>::empty() =~= done);
            encode_utf8_valid_utf8(done);
            encode_utf8_decode_utf8(done);
        }
        Ok(String { bytes })
    }

    /// Insert a string slice at a byte position
    pub fn insert_str(&mut self, idx: usize, string: &str)
        requires
            idx <= old(self).bytes().len(),
            is_char_boundary(old(self).bytes(), idx as int),
            old(self).bytes().len() + string.spec_bytes().len() <= N,
        ensures
            final(self).bytes() == old(self).bytes().take(idx as int) + string.spec_bytes()
                + old(self).bytes().skip(idx as int),
    {
        proof {
            use_type_invariant(&*self);
        }
        let b = string.as_bytes();
        let ghost b0 = self.bytes@;
        let mut out: Vec<u8> = copy_range(self.bytes.as_slice(), 0, idx);
        let mut k: usize = 0;
        while k < b.len()
            invariant
                k <= b.len(),
                out@ == b0.take(idx as int) + b@.take(k as int),
            decreases b.len() - k,
        {
            out.push(b[k]);
            assert(out@ =~= b0.take(idx as int) + b@.take(k + 1));
            k = k + 1;
        }
        let mut j = idx;
        let n = self.bytes.len();
        while j < n
            invariant
                idx <= j <= n,
                n == b0.len(),
                self.bytes@ == b0,
                out@ == b0.take(idx as int) + b@ + b0.subrange(idx as int, j as int),
            decreases n - j,
        {
            out.push(self.bytes[j]);
            assert(out@ =~= b0.take(idx as int) + b@ + b0.subrange(idx as int, j + 1));
            j = j + 1;
        }
        proof {
            assert(b@.take(k as int) =~= b@);
            assert(b0.subrange(idx as int, n as int) =~= b0.skip(idx as int));
            valid_utf8_split(b0, idx as int);
            assert(b0.take(idx as int) =~= b0.subrange(0, idx as int));
            encode_utf8_valid_utf8(string@);
            valid_utf8_concat(b0.take(idx as int), b@);
            valid_utf8_concat(b0.take(idx as int) + b@, b0.skip(idx as int));
        }
        self.bytes = out;
    }

    /// Insert a character at a byte position
    pub fn insert(&mut self, idx: usize, ch: char)
        requires
            idx <= old(self).bytes().len(),
            is_char_boundary(old(self).bytes(), idx as int),
            old(self).bytes().len() + encode_scalar(ch as u32).len() <= N,
        ensures
            final(self).bytes() == old(self).bytes().take(idx as int) + encode_scalar(ch as u32)
                + old(self).bytes().skip(idx as int),
    {
        proof {
            use_type_invariant(&*self);
            lemma_encode_char(ch);
        }
        let mut enc: Vec<u8> = Vec::new();
        encode_scalar_bytes(ch as u32, &mut enc);
        let ghost b0 = self.bytes@;
        let mut out: Vec<u8> = copy_range(self.bytes.as_slice(), 0, idx);
        let mut k: usize = 0;
        while k < enc.len()
            invariant
                k <= enc.len(),
                out@ == b0.take(idx as int) + enc@.take(k as int),
            decreases enc.len() - k,
        {
            out.push(enc[k]);
            assert(out@ =~= b0.take(idx as int) + enc@.take(k + 1));
            k = k + 1;
        }
        let mut j = idx;
        let n = self.bytes.len();
        while j < n
            invariant
                idx <= j <= n,
                n == b0.len(),
                self.bytes@ == b0,
                out@ == b0.take(idx as int) + enc@ + b0.subrange(idx as int, j as int),
            decreases n - j,
        {
            out.push(self.bytes[j]);
            assert(out@ =~= b0.take(idx as int) + enc@ + b0.subrange(idx as int, j + 1));
            j = j + 1;
        }
        proof {
            assert(enc@.take(k as int) =~= enc@);
            assert(b0.subrange(idx as int, n as int) =~= b0.skip(idx as int));
            valid_utf8_split(b0, idx as int);
            assert(b0.take(idx as int) =~= b0.subrange(0, idx as int));
            valid_utf8_concat(b0.take(idx as int), enc@);
            valid_utf8_concat(b0.take(idx as int) + enc@, b0.skip(idx as int));
        }
        self.bytes = out;
    }

    /// Append a character
    pub fn push(&mut self, ch: char)
        requires
            old(self).bytes().len() + encode_scalar(ch as u32).len() <= N,
        ensures
            final(self).bytes() == old(self).bytes() + encode_scalar(ch as u32),
    {
        proof {
            use_type_invariant(&*self);
            lemma_encode_char(ch);
            valid_utf8_concat(self.bytes@, encode_scalar(ch as u32));
        }
        let mut b = Vec::new();
        std::mem::swap(&mut b, &mut self.bytes);
        encode_scalar_bytes(ch as u32, &mut b);
        self.bytes = b;
    }

    /// Append a string slice
    pub fn push_str(&mut self, string: &str)
        requires
            old(self).bytes().len() + string.spec_bytes().len() <= N,
        ensures
            final(self).bytes() == old(self).bytes() + string.spec_bytes(),
    {
        proof {
            use_type_invariant(&*self);
            encode_utf8_valid_utf8(string@);
            valid_utf8_concat(self.bytes@, string.spec_bytes());
        }
        let s = string.as_bytes();
        let mut b = Vec::new();
        std::mem::swap(&mut b, &mut self.bytes);
        let ghost b0 = b@;
        let mut k: usize = 0;
        while k < s.len()
            invariant
                k <= s.len(),
                b@ == b0 + s@.take(k as int),
            decreases s.len() - k,
        {
            b.push(s[k]);
            assert(b@ =~= b0 + s@.take(k + 1));
            k = k + 1;
        }
        assert(s@.take(k as int) =~= s@);
        self.bytes = b;
    }

    /// Move the contents to a string of capacity `M`, leaving this one empty
    pub fn resize<const M: usize>(&mut self) -> (r: String<M>)
        requires
            old(self).bytes().len() <= M,
        ensures
            r.bytes() == old(self).bytes(),
            final(self).bytes() == Seq::<u8>::empty(),
    {
        proof {
            use_type_invariant(&*self);
            assert(valid_utf8(Seq::<u8>::empty()));
        }
        let mut b = Vec::new();
        std::mem::swap(&mut b, &mut self.bytes);
        String { bytes: b }
    }

    /// Whether this string holds the same text as `s`
    pub fn eq_str(&self, s: &str) -> (r: bool)
        ensures
            r == (self@ == s@),
    {
        let mine = self.as_str();
        crate::utf8::str_eq(mine, s)
    }
}

proof fn lemma_encode_utf8_push(chars: Seq<char>, c: char)
    ensures
        encode_utf8(chars.push(c)) == encode_utf8(chars) + encode_scalar(c as u32),
    decreases chars.len(),
{
    if chars.len() == 0 {
        assert(chars.push(c) =~= seq![c]);
        lemma_encode_char(c);
    } else {
        assert(chars.push(c).drop_first() =~= chars.drop_first().push(c));
        lemma_encode_utf8_push(chars.drop_first(), c);
    }
}

proof fn lemma_encode_utf8_concat(a: Seq<char>, b: Seq<char>)
    ensures
        encode_utf8(a + b) == encode_utf8(a) + encode_utf8(b),
    decreases a.len(),
{
    if a.len() == 0 {
        assert(a + b =~= b);
    } else {
        assert((a + b).drop_first() =~= a.drop_first() + b);
        lemma_encode_utf8_concat(a.drop_first(), b);
    }
}

proof fn lemma_encode_utf8_prefix_len(a: Seq<char>, b: Seq<char>)
    ensures
        encode_utf8(a).len() <= encode_utf8(a + b).len(),
{
    lemma_encode_utf8_concat(a, b);
}

impl<const N: usize> Default for String<N> {
    /// An empty string
    fn default() -> (r: Self)
        ensures
            r.bytes() == Seq::<u8>::empty(),
    {
        String::new()
    }
}

impl<const N: usize> PartialEq for String<N> {
    fn eq(&self, other: &Self) -> (r: bool) {
        bytes_eq(self.bytes.as_slice(), other.bytes.as_slice())
    }
}

impl<const N: usize> vstd::std_specs::cmp::PartialEqSpecImpl for String<N> {
    open spec fn obeys_eq_spec() -> bool {
        true
    }

    open spec fn eq_spec(&self, other: &Self) -> bool {
        self.bytes() == other.bytes()
    }
}

impl<const N: usize> Eq for String<N> {

}

} // verus!
