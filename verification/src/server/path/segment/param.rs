//! Route parameter extraction
use vstd::prelude::*;
use vstd::string::StringSliceAdditionalSpecFns;
use vstd::utf8::{decode_utf8, decode_utf8_encode_utf8, valid_utf8};

use super::next;
use crate::server::ap::state::{Hydrated, Unhydrated};
use crate::server::ap::{retag, Ap, ApInner};
use crate::server::path::{advance, next_segment};

verus! {

/// The number written by decimal digits (ASCII `0`-`9`)
pub open spec fn decimal_value(d: Seq<u8>) -> nat
    decreases d.len(),
{
    if d.len() == 0 {
        0
    } else {
        decimal_value(d.drop_last()) * 10 + (d.last() - 48) as nat
    }
}

/// Every byte is an ASCII digit
pub open spec fn all_digits(d: Seq<u8>) -> bool {
    forall|i: int| 0 <= i < d.len() ==> 48 <= #[trigger] d[i] <= 57
}

/// What `u32::from_str_radix(s, 10)` reads from the bytes of `s`: an optional
/// `+`, then at least one decimal digit and nothing else, for a number that
/// fits in a `u32`
pub open spec fn spec_parse_u32(b: Seq<u8>) -> Option<u32> {
    let d = if b.len() > 0 && b[0] == 43 {
        b.drop_first()
    } else {
        b
    };
    if d.len() > 0 && all_digits(d) && decimal_value(d) <= u32::MAX {
        Some(decimal_value(d) as u32)
    } else {
        None
    }
}

proof fn lemma_decimal_prefix(d: Seq<u8>, k: int)
    requires
        all_digits(d),
        0 <= k <= d.len(),
    ensures
        decimal_value(d.take(k)) <= decimal_value(d),
    decreases d.len(),
{
    if k < d.len() {
        assert(d.drop_last().take(k) =~= d.take(k));
        lemma_decimal_prefix(d.drop_last(), k);
    } else {
        assert(d.take(k) =~= d);
    }
}

/// Parse a decimal `u32`, as `u32::from_str_radix(s, 10)` does
pub fn parse_u32(s: &str) -> (r: Option<u32>)
    ensures
        r == spec_parse_u32(s.spec_bytes()),
{
    let b = s.as_bytes();
    let start: usize = if b.len() > 0 && b[0] == 43 {
        1
    } else {
        0
    };
    let ghost d = if b@.len() > 0 && b@[0] == 43 {
        b@.drop_first()
    } else {
        b@
    };
    assert(d =~= b@.subrange(start as int, b@.len() as int));
    if start >= b.len() {
        return None;
    }
    let mut v: u64 = 0;
    let mut i: usize = start;
    while i < b.len()
        invariant
            start <= i <= b.len(),
            b@ == s.spec_bytes(),
            d == (if b@.len() > 0 && b@[0] == 43 {
                b@.drop_first()
            } else {
                b@
            }),
            d == b@.subrange(start as int, b@.len() as int),
            all_digits(d.take(i - start)),
            v == decimal_value(d.take(i - start)),
            v <= u32::MAX,
        decreases b.len() - i,
    {
        let c = b[i];
        if c < 48 || c > 57 {
            assert(d[i - start] == c);
            return None;
        }
        assert(d.take(i - start + 1).drop_last() =~= d.take(i - start));
        let nv = v * 10 + (c - 48) as u64;
        if nv > 0xffff_ffff {
            proof {
                assert(all_digits(d.take(i - start + 1)));
                if all_digits(d) {
                    lemma_decimal_prefix(d, i - start + 1);
                }
            }
            return None;
        }
        v = nv;
        i = i + 1;
    }
    assert(d.take(i - start) =~= d);
    Some(v as u32)
}

/// Consume the next path segment as a decimal integer (see [`parse_u32`]),
/// rejecting the request if it is missing or does not parse.
pub fn u32<T, E>(ap: Ap<Hydrated, T, E>) -> (r: Ap<Hydrated, (T, u32), E>)
    requires
        !(ap@ is Okay),
        ap@ matches ApInner::OkayHydrated(_, hy) ==> (next_segment(hy) matches Some(b)
            ==> valid_utf8(b)),
    ensures
        match ap@ {
            ApInner::OkayHydrated(t, hy) => r@ == if next_segment(hy) matches Some(b)
                && spec_parse_u32(b) is Some {
                ApInner::<(T, u32), E>::OkayHydrated(
                    (t, spec_parse_u32(next_segment(hy)->Some_0)->Some_0),
                    advance(hy),
                )
            } else {
                ApInner::RejectHydrated(hy.req)
            },
            other => r@ == retag::<T, (T, u32), E>(other),
        },
{
    let g = |t: T, s: Option<&str>| -> (o: Ap<Unhydrated, (T, u32), E>)
        ensures
            o@ == match s {
                Some(x) => match spec_parse_u32(x.spec_bytes()) {
                    Some(n) => ApInner::Okay((t, n)),
                    None => ApInner::Reject,
                },
                None => ApInner::<(T, u32), E>::Reject,
            },
        {
            match s {
                Some(x) => match parse_u32(x) {
                    Some(n) => Ap::ok((t, n)),
                    None => Ap::reject().pretend_unhydrated(),
                },
                None => Ap::reject().pretend_unhydrated(),
            }
        };
    proof {
        if let ApInner::OkayHydrated(_, hy) = ap@ {
            if let Some(b) = next_segment(hy) {
                decode_utf8_encode_utf8(b);
            }
        }
    }
    next(g)(ap)
}

} // verus!
