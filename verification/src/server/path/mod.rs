//! Path manipulation
//!
//! * [`segment`]
//!    * [`next()`](segment::next) - consume the next segment of the route & combine it with data in the `Ap`
//!    * [`check`](segment::check)
//!       * [`next_is()`](segment::check::next_is) - assert that the next route segment matches a predicate
//!       * [`next_equals()`](segment::check::next_equals) - assert that the next route segment equals a string
//!    * [`param`](segment::param)
//!       * [`u32()`](segment::param::u32) - consume the next route segment and parse as u32, rejecting the request if parsing fails.
//! * [`rest()`] - extract the full route, skipping consumed segments & combine it with data in the `Ap`
//! * [`check`]
//!    * [`rest_is()`](check::rest_is) - assert that the rest of the route matches a predicate
//!    * [`rest_equals()`](check::rest_equals) - assert that the rest of the route matches a string
//!    * [`ends_with()`](check::ends_with) - assert that the rest of the route ends with a string
use vstd::prelude::*;
use vstd::utf8::{decode_utf8, valid_utf8, valid_utf8_concat};

use crate::msg::opt::values_view;
use crate::msg::options::spec_join_path;
use crate::server::ap::state::{Combine, Hydrated};
use crate::server::ap::{hydrate_out, hydrate_with, retag, Ap, ApInner, Hydrate};
use crate::utf8::str_from_utf8;

pub mod check;
pub mod segment;

verus! {

/// The next unconsumed path segment, if any
pub open spec fn next_segment(hy: Hydrate) -> Option<Seq<u8>> {
    if hy.path_ix < hy.path@.len() {
        Some(hy.path@[hy.path_ix as int]@)
    } else {
        None
    }
}

/// The context after consuming the next segment (unchanged when none is left)
pub open spec fn advance(hy: Hydrate) -> Hydrate {
    if hy.path_ix < hy.path@.len() {
        Hydrate { path_ix: (hy.path_ix + 1) as usize, ..hy }
    } else {
        hy
    }
}

/// `s` is what the segment bytes `b` read as
pub open spec fn seg_matches(s: Option<&str>, b: Option<Seq<u8>>) -> bool {
    match (s, b) {
        (None, None) => true,
        (Some(x), Some(bytes)) => valid_utf8(bytes) && x@ == decode_utf8(bytes),
        _ => false,
    }
}

/// The segments that are valid UTF-8, in order
pub open spec fn valid_segments(segs: Seq<Seq<u8>>) -> Seq<Seq<u8>>
    decreases segs.len(),
{
    if segs.len() == 0 {
        segs
    } else if valid_utf8(segs.last()) {
        valid_segments(segs.drop_last()).push(segs.last())
    } else {
        valid_segments(segs.drop_last())
    }
}

/// The unconsumed segments of the path
pub open spec fn rest_segments(hy: Hydrate) -> Seq<Seq<u8>> {
    if hy.path_ix <= hy.path@.len() {
        values_view(hy.path@).subrange(hy.path_ix as int, hy.path@.len() as int)
    } else {
        Seq::empty()
    }
}

/// The rest of the path that [`rest`] hands to its function: the unconsumed
/// segments that are valid UTF-8, joined with `/`
pub open spec fn rest_bytes(hy: Hydrate) -> Seq<u8> {
    spec_join_path(valid_segments(rest_segments(hy)))
}

/// The context with every segment consumed
pub open spec fn consume_all(hy: Hydrate) -> Hydrate {
    Hydrate { path_ix: hy.path@.len() as usize, ..hy }
}

proof fn lemma_join_valid(segs: Seq<Seq<u8>>)
    requires
        forall|i: int| 0 <= i < segs.len() ==> valid_utf8(#[trigger] segs[i]),
    ensures
        valid_utf8(spec_join_path(segs)),
    decreases segs.len(),
{
    if segs.len() == 0 {
        assert(valid_utf8(Seq::<u8>::empty()));
    } else if segs.len() == 1 {
        assert(valid_utf8(segs[0]));
    } else {
        lemma_join_valid(segs.drop_last());
        assert(valid_utf8(seq![47u8])) by {
            reveal_with_fuel(valid_utf8, 2);
            assert(seq![47u8].subrange(1, 1) =~= Seq::<u8>::empty());
        }
        assert(valid_utf8(segs.last()));
        valid_utf8_concat(spec_join_path(segs.drop_last()), seq![47u8]);
        valid_utf8_concat(spec_join_path(segs.drop_last()) + seq![47u8], segs.last());
    }
}

proof fn lemma_valid_segments(segs: Seq<Seq<u8>>)
    ensures
        forall|i: int| 0 <= i < valid_segments(segs).len() ==> valid_utf8(
            #[trigger] valid_segments(segs)[i],
        ),
    decreases segs.len(),
{
    if segs.len() > 0 {
        lemma_valid_segments(segs.drop_last());
        let prev = valid_segments(segs.drop_last());
        let vs = valid_segments(segs);
        assert forall|i: int| 0 <= i < vs.len() implies valid_utf8(#[trigger] vs[i]) by {
            if i < prev.len() {
                assert(vs[i] == prev[i]);
            }
        }
    }
}

/// The rest of a path is valid UTF-8
pub proof fn lemma_rest_bytes_valid(hy: Hydrate)
    ensures
        valid_utf8(rest_bytes(hy)),
{
    lemma_valid_segments(rest_segments(hy));
    lemma_join_valid(valid_segments(rest_segments(hy)));
}

/// What [`rest`] needs to run on `ap`: it is not an unhydrated `Ok`, and `f`
/// accepts the data with any string
pub open spec fn rest_requires<T, SOut, R, E, F>(f: F, ap: Ap<Hydrated, T, E>) -> bool
    where F: for <'a>FnOnce(T, &'a str) -> Ap<SOut, R, E>,
{
    &&& !(ap@ is Okay)
    &&& ap@ matches ApInner::OkayHydrated(t, hy) ==> forall|s: &str| call_requires(f, (t, s))
}

/// What [`rest`] makes of `ap`: `f` is given the data and the rest of the path,
/// every segment is consumed, and `f`'s result is hydrated with the request.
/// Other variants are kept.
pub open spec fn rest_ensures<T, SOut, R, E, F>(
    f: F,
    ap: Ap<Hydrated, T, E>,
    out: Ap<<Hydrated as Combine<SOut>>::Out, R, E>,
) -> bool
    where F: for <'a>FnOnce(T, &'a str) -> Ap<SOut, R, E>, Hydrated: Combine<SOut>,
{
    match ap@ {
        ApInner::OkayHydrated(t, hy) => exists|s: &str, a: Ap<SOut, R, E>|
            #[trigger] call_ensures(f, (t, s), a) && s@ == decode_utf8(rest_bytes(hy)) && out@
                == hydrate_with(a@, consume_all(hy)),
        other => out@ == retag::<T, R, E>(other),
    }
}

/// The rest of the path of `hy`, skipping consumed segments and segments
/// that are not valid UTF-8, joined with `/`
fn rest_of(hy: &Hydrate) -> (r: Vec<u8>)
    ensures
        r@ == rest_bytes(*hy),
        valid_utf8(r@),
{
    let mut out: Vec<u8> = Vec::new();
    let mut first = true;
    let len = hy.path.len();
    let mut i = hy.path_ix;
    let ghost segs = rest_segments(*hy);
    if i > len {
        proof {
            assert(valid_utf8(Seq::<u8>::empty()));
        }
        return out;
    }
    let ghost start = i as int;
    while i < len
        invariant
            start <= i <= len,
            len == hy.path@.len(),
            start == hy.path_ix,
            segs == values_view(hy.path@).subrange(start, len as int),
            out@ == spec_join_path(valid_segments(segs.take(i - start))),
            first == (valid_segments(segs.take(i - start)).len() == 0),
        decreases len - i,
    {
        let seg = hy.path[i].0.as_slice();
        let ghost k = i - start;
        assert(segs.take(k + 1).drop_last() =~= segs.take(k));
        assert(segs.take(k + 1).last() == seg@);
        if str_from_utf8(seg).is_ok() {
            let ghost before = out@;
            if !first {
                out.push(47u8);
            }
            let mut j: usize = 0;
            let ghost mid = out@;
            while j < seg.len()
                invariant
                    j <= seg.len(),
                    out@ == mid + seg@.take(j as int),
                decreases seg.len() - j,
            {
                out.push(seg[j]);
                assert(out@ =~= mid + seg@.take(j + 1));
                j = j + 1;
            }
            assert(seg@.take(j as int) =~= seg@);
            proof {
                let vs = valid_segments(segs.take(k + 1));
                assert(vs == valid_segments(segs.take(k)).push(seg@));
                if first {
                    assert(out@ =~= seg@);
                } else {
                    assert(vs.drop_last() =~= valid_segments(segs.take(k)));
                }
            }
            first = false;
        }
        i = i + 1;
    }
    assert(segs.take(i - start) =~= segs);
    proof {
        lemma_valid_segments(segs);
        lemma_join_valid(valid_segments(segs));
    }
    out
}

/// Get the rest of the request path, skipping consumed segments, and combine
/// it with the data in the `Ap`
pub fn rest<T, SOut, R, F, E>(f: F) -> (r: impl FnOnce(Ap<Hydrated, T, E>) -> Ap<
    <Hydrated as Combine<SOut>>::Out,
    R,
    E,
>)
    where F: for <'a>FnOnce(T, &'a str) -> Ap<SOut, R, E>, Hydrated: Combine<SOut>,
    ensures
        forall|ap: Ap<Hydrated, T, E>| rest_requires(f, ap) ==> #[trigger] call_requires(r, (ap,)),
        forall|ap: Ap<Hydrated, T, E>, out: Ap<<Hydrated as Combine<SOut>>::Out, R, E>|
            #[trigger] call_ensures(r, (ap,), out) ==> rest_ensures(f, ap, out),
{
    move |ap: Ap<Hydrated, T, E>| -> (out: Ap<<Hydrated as Combine<SOut>>::Out, R, E>)
        requires
            rest_requires(f, ap),
        ensures
            rest_ensures(f, ap, out),
        {
            match ap.try_unwrap_ok_hydrated() {
                Ok((t, hy)) => {
                    let bytes = rest_of(&hy);
                    let a = {
                        let s = str_from_utf8(bytes.as_slice()).unwrap();
                        f(t, s)
                    };
                    let Hydrate { req, path, .. } = hy;
                    let n = path.len();
                    hydrate_out(a, Hydrate { req, path, path_ix: n })
                },
                Err(other) => other.retype_non_ok(),
            }
        }
}

/// Once [`rest`] has taken the rest of the path, no segment is left: the
/// next segment is none and the rest is empty.
pub proof fn lemma_rest_consumes_all(hy: Hydrate)
    ensures
        next_segment(consume_all(hy)) is None,
        rest_bytes(consume_all(hy)) == Seq::<u8>::empty(),
{
    let c = consume_all(hy);
    assert(hy.path@.len() == hy.path.len());
    assert(c.path_ix == hy.path@.len());
    assert(rest_segments(c) =~= Seq::<Seq<u8>>::empty());
}

} // verus!
