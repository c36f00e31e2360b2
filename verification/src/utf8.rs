//! UTF-8 text from raw bytes
use vstd::prelude::*;
use vstd::string::StringSliceAdditionalSpecFns;
use vstd::utf8::{decode_utf8, encode_utf8_decode_utf8, valid_utf8};

verus! {

#[verifier::external_type_specification]
#[verifier::external_body]
pub struct ExUtf8Error(core::str::Utf8Error);

#[verifier::external_type_specification]
#[verifier::external_body]
pub struct ExFromUtf8Error(std::string::FromUtf8Error);

/// `core::str::from_utf8`: its documentation says it returns `Ok` exactly
/// when the bytes are valid UTF-8, and that the string then holds those bytes.
/// Which error it gives for invalid bytes is not stated here.
#[verifier::external_body]
pub(crate) fn str_from_utf8(v: &[u8]) -> (r: Result<&str, core::str::Utf8Error>)
    ensures
        r is Ok <==> valid_utf8(v@),
        r matches Ok(s) ==> s@ == decode_utf8(v@),
{
    core::str::from_utf8(v)
}

/// `String::from_utf8`: its documentation says it returns `Ok` exactly when
/// the bytes are valid UTF-8, and that the string then holds those bytes.
/// Which error it gives for invalid bytes is not stated here.
#[verifier::external_body]
pub(crate) fn string_from_utf8(v: Vec<u8>) -> (r: Result<String, std::string::FromUtf8Error>)
    ensures
        r is Ok <==> valid_utf8(v@),
        r matches Ok(s) ==> s@ == decode_utf8(v@),
{
    String::from_utf8(v)
}

/// Whether two byte strings are equal
pub fn bytes_eq(a: &[u8], b: &[u8]) -> (r: bool)
    ensures
        r == (a@ == b@),
{
    if a.len() != b.len() {
        return false;
    }
    let mut i: usize = 0;
    while i < a.len()
        invariant
            a.len() == b.len(),
            i <= a.len(),
            forall|k: int| 0 <= k < i ==> a@[k] == b@[k],
        decreases a.len() - i,
    {
        if a[i] != b[i] {
            return false;
        }
        i = i + 1;
    }
    assert(a@ =~= b@);
    true
}

/// Whether two strings are equal
pub fn str_eq(a: &str, b: &str) -> (r: bool)
    ensures
        r == (a@ == b@),
{
    proof {
        encode_utf8_decode_utf8(a@);
        encode_utf8_decode_utf8(b@);
    }
    bytes_eq(a.as_bytes(), b.as_bytes())
}

/// Whether the bytes of `a` end with the bytes of `suffix`
pub fn str_ends_with(a: &str, suffix: &str) -> (r: bool)
    ensures
        r == (suffix.spec_bytes().len() <= a.spec_bytes().len() && a.spec_bytes().subrange(
            a.spec_bytes().len() - suffix.spec_bytes().len(),
            a.spec_bytes().len() as int,
        ) == suffix.spec_bytes()),
{
    let x = a.as_bytes();
    let y = suffix.as_bytes();
    if y.len() > x.len() {
        return false;
    }
    let off = x.len() - y.len();
    let mut i: usize = 0;
    while i < y.len()
        invariant
            off + y.len() == x.len(),
            x@ == a.spec_bytes(),
            y@ == suffix.spec_bytes(),
            i <= y.len(),
            forall|k: int| 0 <= k < i ==> x@[off + k] == y@[k],
        decreases y.len() - i,
    {
        if x[off + i] != y[i] {
            assert(x@.subrange(off as int, x.len() as int)[i as int] != y@[i as int]);
            return false;
        }
        i = i + 1;
    }
    assert(x@.subrange(off as int, x.len() as int) =~= y@);
    true
}

} // verus!
