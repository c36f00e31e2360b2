//! How options stand on the wire: each option is a header byte holding two
//! nibbles (delta and value length), the extended delta and length bytes that
//! the nibbles `13` and `14` call for, and then the value.
use vstd::prelude::*;

use super::{
    entry_view, keys_sorted, lemma_append_last, spec_append, values_view, Opt, OptDelta, OptNumber,
    OptValue,
    OptionMap,
};
use crate::msg::parse_error::OptParseError;

verus! {

/// The nibble that stands for a delta or length: the value itself below 13,
/// `13` for one extended byte, `14` for two.
pub open spec fn ext_nibble(v: u16) -> u8 {
    if v >= 269 {
        14
    } else if v >= 13 {
        13
    } else {
        v as u8
    }
}

/// The extended bytes that follow the header for a delta or length.
pub open spec fn ext_bytes(v: u16) -> Seq<u8> {
    if v >= 269 {
        seq![((v - 269) / 256) as u8, ((v - 269) % 256) as u8]
    } else if v >= 13 {
        seq![(v - 13) as u8]
    } else {
        seq![]
    }
}

/// The length field written for a value: its length cut to 16 bits.
pub open spec fn len_field(value: Seq<u8>) -> u16 {
    (value.len() % 0x1_0000) as u16
}

/// The bytes of one option with a given delta and value.
pub open spec fn spec_opt_bytes(delta: u16, value: Seq<u8>) -> Seq<u8> {
    seq![(ext_nibble(delta) * 16 + ext_nibble(len_field(value))) as u8] + ext_bytes(delta)
        + ext_bytes(len_field(value)) + value
}

/// The bytes of the values of one option number: the first value carries
/// `delta`, each following value a delta of 0.
pub open spec fn spec_values_bytes(vals: Seq<Seq<u8>>, delta: u16) -> Seq<u8>
    decreases vals.len(),
{
    if vals.len() == 0 {
        seq![]
    } else {
        spec_opt_bytes(delta, vals[0]) + spec_values_bytes(vals.drop_first(), 0)
    }
}

/// The bytes of all options, in order of number, where `last` is the number
/// of the option written before them. Numbers with no value are skipped, and
/// a delta is cut to 16 bits.
pub open spec fn spec_opts_bytes(s: Seq<(u32, Seq<Seq<u8>>)>, last: u32) -> Seq<u8>
    decreases s.len(),
{
    if s.len() == 0 {
        seq![]
    } else if s[0].1.len() == 0 {
        spec_opts_bytes(s.drop_first(), last)
    } else {
        spec_values_bytes(s[0].1, ((s[0].0 - last) % 0x1_0000) as u16) + spec_opts_bytes(
            s.drop_first(),
            s[0].0,
        )
    }
}

/// Reading a delta or length from its nibble and the bytes that follow:
/// the value and the number of extended bytes read. The two-byte form adds
/// 269; a sum that does not fit in 16 bits is refused with the same error as
/// the reserved nibble 15, since no delta or length can take that value.
pub open spec fn spec_parse_ext(head: u8, s: Seq<u8>, reserved: OptParseError) -> Result<
    (u16, int),
    OptParseError,
> {
    if head == 13 {
        if s.len() >= 1 {
            Ok(((s[0] + 13) as u16, 1))
        } else {
            Err(OptParseError::UnexpectedEndOfStream)
        }
    } else if head == 14 {
        if s.len() >= 2 {
            if s[0] as int * 256 + s[1] as int + 269 <= 0xFFFF {
                Ok(((s[0] as int * 256 + s[1] as int + 269) as u16, 2))
            } else {
                Err(reserved)
            }
        } else {
            Err(OptParseError::UnexpectedEndOfStream)
        }
    } else if head == 15 {
        Err(reserved)
    } else {
        Ok((head as u16, 0))
    }
}

/// Reading one option from the front of `s`: its delta, its value and the
/// number of bytes read. An exhausted input or the payload marker `0xFF`
/// ends the options.
pub open spec fn spec_parse_opt(s: Seq<u8>) -> Result<(u16, Seq<u8>, int), OptParseError> {
    if s.len() == 0 || s[0] == 0xFF {
        Err(OptParseError::OptionsExhausted)
    } else {
        let b = s[0];
        let r = s.skip(1);
        match spec_parse_ext(b / 16, r, OptParseError::OptionDeltaReservedValue(15)) {
            Err(e) => Err(e),
            Ok((d, n1)) => match spec_parse_ext(
                b % 16,
                r.skip(n1),
                OptParseError::ValueLengthReservedValue(15),
            ) {
                Err(e) => Err(e),
                Ok((l, n2)) => {
                    let rest = r.skip(n1 + n2);
                    if rest.len() < l {
                        Err(OptParseError::UnexpectedEndOfStream)
                    } else {
                        Ok((d, rest.take(l as int), 1 + n1 + n2 + l))
                    }
                },
            },
        }
    }
}

/// A parsed option reads at least one byte and no more than there are.
pub proof fn lemma_parse_opt_consumed(s: Seq<u8>)
    ensures
        spec_parse_opt(s) matches Ok((d, v, n)) ==> 1 <= n <= s.len(),
{
}

/// A parse result whose count of bytes read is raised by `k`.
pub open spec fn shift_consumed(
    r: Result<(Seq<(u32, Seq<Seq<u8>>)>, int), OptParseError>,
    k: int,
) -> Result<(Seq<(u32, Seq<Seq<u8>>)>, int), OptParseError> {
    match r {
        Ok((m, c)) => Ok((m, c + k)),
        Err(e) => Err(e),
    }
}

/// Reading options from the front of `s`, where `last` is the number of the
/// option read before and `acc` the options read so far. Each option's value
/// is stored after the values already read for its number, so the values of
/// a repeated option are kept in the order they came. Yields the options and the number of bytes read, including the
/// payload marker when there is one.
pub open spec fn spec_parse_opts(
    s: Seq<u8>,
    last: u32,
    acc: Seq<(u32, Seq<Seq<u8>>)>,
) -> Result<(Seq<(u32, Seq<Seq<u8>>)>, int), OptParseError>
    decreases s.len(),
{
    match spec_parse_opt(s) {
        Err(OptParseError::OptionsExhausted) => Ok(
            (
                acc,
                if s.len() == 0 {
                    0
                } else {
                    1
                },
            ),
        ),
        Err(e) => Err(e),
        Ok((d, v, n)) => {
            if 1 <= n <= s.len() {
                let num = ((last + d) % 0x1_0000_0000) as u32;
                shift_consumed(spec_parse_opts(s.skip(n), num, spec_append(acc, num, v)), n)
            } else {
                Err(OptParseError::OptionsExhausted)
            }
        },
    }
}

/// The header nibble and extended bytes for a delta or value length.
pub(crate) fn opt_len_or_delta(val: u16) -> (r: (u8, Option<Vec<u8>>))
    ensures
        r.0 == ext_nibble(val),
        match r.1 {
            Some(b) => b@ == ext_bytes(val) && ext_bytes(val).len() > 0,
            None => ext_bytes(val).len() == 0,
        },
{
    if val >= 269 {
        let n = val - 269;
        let mut bytes: Vec<u8> = Vec::new();
        bytes.push((n / 256) as u8);
        bytes.push((n % 256) as u8);
        assert(bytes@ =~= ext_bytes(val));
        (14, Some(bytes))
    } else if val >= 13 {
        let mut bytes: Vec<u8> = Vec::new();
        bytes.push((val - 13) as u8);
        assert(bytes@ =~= ext_bytes(val));
        (13, Some(bytes))
    } else {
        (val as u8, None)
    }
}

pub(crate) fn append_slice(out: &mut Vec<u8>, src: &[u8])
    ensures
        final(out)@ == old(out)@ + src@,
{
    let mut i: usize = 0;
    while i < src.len()
        invariant
            0 <= i <= src.len(),
            out@ == old(out)@ + src@.take(i as int),
        decreases src.len() - i,
    {
        out.push(src[i]);
        i = i + 1;
        assert(out@ =~= old(out)@ + src@.take(i as int));
    }
    assert(src@.take(src.len() as int) =~= src@);
}

/// Write one option with the given delta and value
pub(crate) fn write_opt(delta: u16, value: &[u8], out: &mut Vec<u8>)
    ensures
        final(out)@ == old(out)@ + spec_opt_bytes(delta, value@),
{
    let (del, del_bytes) = opt_len_or_delta(delta);
    let (len, len_bytes) = opt_len_or_delta((value.len() % 0x1_0000) as u16);
    let header = (del << 4) | len;
    assert(header == (del * 16 + len) as u8) by (bit_vector)
        requires
            del <= 14,
            len <= 14,
            header == (del << 4) | len,
    ;
    out.push(header);
    match del_bytes {
        Some(bs) => append_slice(out, bs.as_slice()),
        None => {},
    }
    match len_bytes {
        Some(bs) => append_slice(out, bs.as_slice()),
        None => {},
    }
    append_slice(out, value);
    assert(out@ =~= old(out)@ + spec_opt_bytes(delta, value@));
}

impl Opt {
    /// Add this option's bytes to the end of `bytes`.
    pub fn extend_bytes(self, bytes: &mut Vec<u8>)
        ensures
            final(bytes)@ == old(bytes)@ + spec_opt_bytes(self.delta.0, self.value@),
    {
        write_opt(self.delta.0, self.value.0.as_slice(), bytes);
    }
}

/// Write the values of one option number, the first with `delta` and the rest with 0.
fn write_values(vals: &Vec<OptValue>, delta: u16, out: &mut Vec<u8>)
    ensures
        final(out)@ == old(out)@ + spec_values_bytes(values_view(vals@), delta),
{
    let ghost vv = values_view(vals@);
    let ghost target = old(out)@ + spec_values_bytes(vv, delta);
    let mut t: usize = 0;
    assert(vv.skip(0) =~= vv);
    while t < vals.len()
        invariant
            0 <= t <= vals.len(),
            vv == values_view(vals@),
            target == out@ + spec_values_bytes(
                vv.skip(t as int),
                if t == 0 {
                    delta
                } else {
                    0
                },
            ),
        decreases vals.len() - t,
    {
        let d = if t == 0 {
            delta
        } else {
            0
        };
        assert(vv.skip(t as int).drop_first() =~= vv.skip(t + 1));
        write_opt(d, vals[t].0.as_slice(), out);
        t = t + 1;
    }
    assert(vv.skip(t as int) =~= Seq::<Seq<u8>>::empty());
}

/// Write all options of a sorted map, in order of number.
pub(crate) fn write_opts(opts: &OptionMap, out: &mut Vec<u8>)
    requires
        opts.wf(),
    ensures
        final(out)@ == old(out)@ + spec_opts_bytes(opts@, 0),
{
    let ghost sv = opts@;
    let ghost target = old(out)@ + spec_opts_bytes(sv, 0);
    let mut i: usize = 0;
    let mut last: u32 = 0;
    assert(sv.skip(0) =~= sv);
    while i < opts.0.len()
        invariant
            0 <= i <= opts.0.len(),
            sv == opts@,
            keys_sorted(sv),
            forall|j: int| i <= j < sv.len() ==> last <= sv[j].0,
            target == out@ + spec_opts_bytes(sv.skip(i as int), last),
        decreases opts.0.len() - i,
    {
        assert(sv.skip(i as int).drop_first() =~= sv.skip(i + 1));
        assert(sv[i as int] == entry_view(opts.0@[i as int]));
        let num = opts.0[i].0.0;
        let vals = &opts.0[i].1;
        if vals.len() == 0 {
            assert(values_view(vals@).len() == 0);
        } else {
            let delta = ((num - last) % 0x1_0000) as u16;
            write_values(vals, delta, out);
            last = num;
        }
        i = i + 1;
    }
    assert(sv.skip(i as int) =~= Seq::<(u32, Seq<Seq<u8>>)>::empty());
}

/// The options of one number as (delta, value) pairs: the first value carries
/// `delta`, each following value a delta of 0.
pub open spec fn spec_values_opts(vals: Seq<Seq<u8>>, delta: u16) -> Seq<(u16, Seq<u8>)>
    decreases vals.len(),
{
    if vals.len() == 0 {
        seq![]
    } else {
        seq![(delta, vals[0])] + spec_values_opts(vals.drop_first(), 0)
    }
}

/// Every option of a map as (delta, value) pairs, in the order they are
/// written; numbers with no value are skipped and a delta is cut to 16 bits.
pub open spec fn spec_opt_list(s: Seq<(u32, Seq<Seq<u8>>)>, last: u32) -> Seq<(u16, Seq<u8>)>
    decreases s.len(),
{
    if s.len() == 0 {
        seq![]
    } else if s[0].1.len() == 0 {
        spec_opt_list(s.drop_first(), last)
    } else {
        spec_values_opts(s[0].1, ((s[0].0 - last) % 0x1_0000) as u16) + spec_opt_list(
            s.drop_first(),
            s[0].0,
        )
    }
}

/// Every value of a map with the number it is stored under, in order of
/// number and, within a number, in the order of its values
pub open spec fn spec_numbered(s: Seq<(u32, Seq<Seq<u8>>)>) -> Seq<(u32, Seq<u8>)>
    decreases s.len(),
{
    if s.len() == 0 {
        seq![]
    } else {
        s[0].1.map_values(|v: Seq<u8>| (s[0].0, v)) + spec_numbered(s.drop_first())
    }
}

/// The numbers rise from `last` (numbers with no value aside) by steps that
/// fit in a 16-bit delta
pub open spec fn gaps_fit(s: Seq<(u32, Seq<Seq<u8>>)>, last: u32) -> bool
    decreases s.len(),
{
    if s.len() == 0 {
        true
    } else if s[0].1.len() == 0 {
        gaps_fit(s.drop_first(), last)
    } else {
        &&& last <= s[0].0
        &&& s[0].0 - last < 0x1_0000
        &&& gaps_fit(s.drop_first(), s[0].0)
    }
}

/// Every option of a map can be written: numbers rise from `last` (numbers
/// with no value aside) by steps that fit in a 16-bit delta, and every value
/// is shorter than 65536 bytes
pub open spec fn opts_fit(s: Seq<(u32, Seq<Seq<u8>>)>, last: u32) -> bool
    decreases s.len(),
{
    if s.len() == 0 {
        true
    } else if s[0].1.len() == 0 {
        opts_fit(s.drop_first(), last)
    } else {
        &&& last <= s[0].0
        &&& s[0].0 - last < 0x1_0000
        &&& forall|k: int| 0 <= k < s[0].1.len() ==> #[trigger] s[0].1[k].len() < 0x1_0000
        &&& opts_fit(s.drop_first(), s[0].0)
    }
}

impl OptionMap {
    /// Whether every option of this map can be written (see [`opts_fit`])
    #[verifier::loop_isolation(false)]
    pub fn fits_wire(&self) -> (r: bool)
        ensures
            r == opts_fit(self@, 0),
    {
        let ghost s = self@;
        let mut last: u32 = 0;
        let mut i: usize = 0;
        assert(s.skip(0) =~= s);
        while i < self.0.len()
            invariant
                i <= self.0.len(),
                s == self@,
                opts_fit(s, 0) == opts_fit(s.skip(i as int), last),
            decreases self.0.len() - i,
        {
            assert(s.skip(i as int).drop_first() =~= s.skip(i + 1));
            assert(s.skip(i as int)[0] == s[i as int]);
            assert(s[i as int] == entry_view(self.0@[i as int]));
            let num = self.0[i].0.0;
            let vals = &self.0[i].1;
            if vals.len() != 0 {
                if num < last || num - last >= 0x1_0000 {
                    return false;
                }
                let mut k: usize = 0;
                while k < vals.len()
                    invariant
                        k <= vals.len(),
                        forall|j: int| 0 <= j < k ==> #[trigger] vals@[j]@.len() < 0x1_0000,
                    decreases vals.len() - k,
                {
                    if vals[k].0.len() >= 0x1_0000 {
                        assert(s[i as int].1[k as int].len() >= 0x1_0000);
                        return false;
                    }
                    k = k + 1;
                }
                assert forall|j: int| 0 <= j < s[i as int].1.len() implies #[trigger] s[i as int].1[j].len()
                    < 0x1_0000 by {
                    assert(s[i as int].1[j] == vals@[j]@);
                }
                last = num;
            }
            i = i + 1;
        }
        assert(s.skip(i as int) =~= Seq::<(u32, Seq<Seq<u8>>)>::empty());
        true
    }
}

/// The sum of the deltas of the first `n` options of a list
pub open spec fn deltas_through(l: Seq<(u16, Seq<u8>)>, n: int) -> int
    decreases n,
{
    if n <= 0 {
        0
    } else {
        deltas_through(l, n - 1) + l[n - 1].0
    }
}

proof fn lemma_values_opts_shape(vals: Seq<Seq<u8>>, d: u16)
    ensures
        spec_values_opts(vals, d).len() == vals.len(),
        forall|k: int| 0 <= k < vals.len() ==> #[trigger] spec_values_opts(vals, d)[k] == (
            if k == 0 {
                d
            } else {
                0u16
            },
            vals[k],
        ),
    decreases vals.len(),
{
    if vals.len() > 0 {
        lemma_values_opts_shape(vals.drop_first(), 0);
        let l = spec_values_opts(vals, d);
        let t = spec_values_opts(vals.drop_first(), 0);
        assert(l == seq![(d, vals[0])] + t);
        assert forall|k: int| 0 <= k < vals.len() implies #[trigger] l[k] == (
            if k == 0 {
                d
            } else {
                0u16
            },
            vals[k],
        ) by {
            if k > 0 {
                assert(l[k] == t[k - 1]);
                assert(vals.drop_first()[k - 1] == vals[k]);
            }
        }
    }
}

proof fn lemma_deltas_prefix(a: Seq<(u16, Seq<u8>)>, b: Seq<(u16, Seq<u8>)>, i: int)
    requires
        0 <= i <= a.len(),
    ensures
        deltas_through(a + b, i) == deltas_through(a, i),
    decreases i,
{
    if i > 0 {
        lemma_deltas_prefix(a, b, i - 1);
        assert((a + b)[i - 1] == a[i - 1]);
    }
}

proof fn lemma_deltas_concat(a: Seq<(u16, Seq<u8>)>, b: Seq<(u16, Seq<u8>)>, j: int)
    requires
        0 <= j <= b.len(),
    ensures
        deltas_through(a + b, a.len() + j) == deltas_through(a, a.len() as int) + deltas_through(b, j),
    decreases j,
{
    if j == 0 {
        lemma_deltas_prefix(a, b, a.len() as int);
    } else {
        lemma_deltas_concat(a, b, j - 1);
        assert((a + b)[a.len() + j - 1] == b[j - 1]);
    }
}

proof fn lemma_deltas_values(vals: Seq<Seq<u8>>, d: u16, k: int)
    requires
        1 <= k <= vals.len(),
    ensures
        deltas_through(spec_values_opts(vals, d), k) == d,
    decreases k,
{
    lemma_values_opts_shape(vals, d);
    let l = spec_values_opts(vals, d);
    if k == 1 {
        assert(l[0] == (d, vals[0]));
        assert(deltas_through(l, 0) == 0);
        assert(deltas_through(l, 1) == deltas_through(l, 0) + l[0].0);
    } else {
        lemma_deltas_values(vals, d, k - 1);
        assert(l[k - 1] == (0u16, vals[k - 1]));
        assert(deltas_through(l, k) == deltas_through(l, k - 1) + l[k - 1].0);
    }
}

/// The deltas of the options of a map add up to their numbers: for each
/// option written, `last` plus the deltas written up to and including it is
/// the number of the value it carries, and the values come in order of
/// number. It holds where no delta has to be cut to 16 bits.
pub proof fn lemma_opt_list_deltas_sum(s: Seq<(u32, Seq<Seq<u8>>)>, last: u32)
    requires
        gaps_fit(s, last),
    ensures
        spec_opt_list(s, last).len() == spec_numbered(s).len(),
        forall|i: int|
            0 <= i < spec_opt_list(s, last).len() ==> last + deltas_through(
                spec_opt_list(s, last),
                i + 1,
            ) == (#[trigger] spec_numbered(s)[i]).0 && spec_opt_list(s, last)[i].1
                == spec_numbered(s)[i].1,
    decreases s.len(),
{
    if s.len() > 0 {
        let rest = s.drop_first();
        let vals = s[0].1;
        let k = s[0].0;
        let numa = vals.map_values(|v: Seq<u8>| (k, v));
        assert(spec_numbered(s) == numa + spec_numbered(rest));
        if vals.len() == 0 {
            lemma_opt_list_deltas_sum(rest, last);
            assert(numa =~= Seq::<(u32, Seq<u8>)>::empty());
            assert(spec_numbered(s) =~= spec_numbered(rest));
        } else {
            lemma_opt_list_deltas_sum(rest, k);
            let d = ((k - last) % 0x1_0000) as u16;
            assert(d == k - last);
            let a = spec_values_opts(vals, d);
            let b = spec_opt_list(rest, k);
            let l = spec_opt_list(s, last);
            assert(l == a + b);
            lemma_values_opts_shape(vals, d);
            assert forall|i: int| 0 <= i < l.len() implies last + deltas_through(l, i + 1)
                == (#[trigger] spec_numbered(s)[i]).0 && l[i].1 == spec_numbered(s)[i].1 by {
                if i < a.len() {
                    lemma_deltas_prefix(a, b, i + 1);
                    lemma_deltas_values(vals, d, i + 1);
                    assert(spec_numbered(s)[i] == numa[i]);
                    assert(l[i] == a[i]);
                } else {
                    let j = i - a.len();
                    lemma_deltas_concat(a, b, j + 1);
                    lemma_deltas_values(vals, d, a.len() as int);
                    assert(spec_numbered(s)[i] == spec_numbered(rest)[j]);
                    assert(l[i] == b[j]);
                }
            }
        }
    }
}

/// The bytes of a list of options, one after the other
pub open spec fn spec_opt_list_bytes(l: Seq<(u16, Seq<u8>)>) -> Seq<u8>
    decreases l.len(),
{
    if l.len() == 0 {
        seq![]
    } else {
        spec_opt_bytes(l[0].0, l[0].1) + spec_opt_list_bytes(l.drop_first())
    }
}

proof fn lemma_opt_list_bytes_append(a: Seq<(u16, Seq<u8>)>, b: Seq<(u16, Seq<u8>)>)
    ensures
        spec_opt_list_bytes(a + b) == spec_opt_list_bytes(a) + spec_opt_list_bytes(b),
    decreases a.len(),
{
    if a.len() == 0 {
        assert(a + b =~= b);
    } else {
        assert((a + b).drop_first() =~= a.drop_first() + b);
        lemma_opt_list_bytes_append(a.drop_first(), b);
    }
}

proof fn lemma_values_opts_bytes(vals: Seq<Seq<u8>>, delta: u16)
    ensures
        spec_opt_list_bytes(spec_values_opts(vals, delta)) == spec_values_bytes(vals, delta),
    decreases vals.len(),
{
    if vals.len() > 0 {
        lemma_values_opts_bytes(vals.drop_first(), 0);
        lemma_opt_list_bytes_append(seq![(delta, vals[0])], spec_values_opts(vals.drop_first(), 0));
        let one = seq![(delta, vals[0])];
        assert(one.drop_first() =~= Seq::<(u16, Seq<u8>)>::empty());
        assert(spec_opt_list_bytes(one.drop_first()) == Seq::<u8>::empty());
        assert(spec_opt_list_bytes(one) =~= spec_opt_bytes(delta, vals[0]));
    }
}

/// Writing the options of a map is writing each of its options, in the
/// order [`OptionMap::opts`] lists them.
pub proof fn lemma_opts_bytes_are_opt_list(s: Seq<(u32, Seq<Seq<u8>>)>, last: u32)
    ensures
        spec_opts_bytes(s, last) == spec_opt_list_bytes(spec_opt_list(s, last)),
    decreases s.len(),
{
    if s.len() > 0 {
        if s[0].1.len() == 0 {
            lemma_opts_bytes_are_opt_list(s.drop_first(), last);
        } else {
            lemma_opts_bytes_are_opt_list(s.drop_first(), s[0].0);
            let d = ((s[0].0 - last) % 0x1_0000) as u16;
            lemma_values_opts_bytes(s[0].1, d);
            lemma_opt_list_bytes_append(spec_values_opts(s[0].1, d), spec_opt_list(s.drop_first(), s[0].0));
        }
    }
}

fn push_values_opts(vals: &Vec<OptValue>, delta: u16, out: &mut Vec<Opt>)
    ensures
        final(out)@.map_values(|o: Opt| (o.delta.0, o.value@)) == old(out)@.map_values(
            |o: Opt| (o.delta.0, o.value@),
        ) + spec_values_opts(values_view(vals@), delta),
{
    let ghost vv = values_view(vals@);
    let ghost base = old(out)@.map_values(|o: Opt| (o.delta.0, o.value@));
    let mut t: usize = 0;
    assert(vv.skip(0) =~= vv);
    while t < vals.len()
        invariant
            0 <= t <= vals.len(),
            vv == values_view(vals@),
            base + spec_values_opts(vv, delta) == out@.map_values(|o: Opt| (o.delta.0, o.value@))
                + spec_values_opts(vv.skip(t as int), if t == 0 { delta } else { 0 }),
        decreases vals.len() - t,
    {
        let d = if t == 0 { delta } else { 0 };
        let ghost before = out@.map_values(|o: Opt| (o.delta.0, o.value@));
        assert(vv.skip(t as int).drop_first() =~= vv.skip(t + 1));
        assert(vv.skip(t as int)[0] == vals@[t as int]@);
        out.push(Opt { delta: OptDelta(d), value: vals[t].copied() });
        assert(out@.map_values(|o: Opt| (o.delta.0, o.value@)) =~= before.push((d, vv[t as int])));
        assert(spec_values_opts(vv.skip(t as int), d) =~= seq![(d, vv[t as int])]
            + spec_values_opts(vv.skip(t + 1), 0));
        t = t + 1;
    }
    assert(vv.skip(t as int) =~= Seq::<Seq<u8>>::empty());
}

impl OptionMap {
    /// Every option of this map with the delta it is written with, in order:
    /// the values of each number one by one, the first carrying the distance
    /// from the previous number and the others a delta of 0
    pub fn opts(&self) -> (r: Vec<Opt>)
        requires
            self.wf(),
        ensures
            r@.map_values(|o: Opt| (o.delta.0, o.value@)) == spec_opt_list(self@, 0),
    {
        let ghost sv = self@;
        let mut out: Vec<Opt> = Vec::new();
        let mut i: usize = 0;
        let mut last: u32 = 0;
        assert(sv.skip(0) =~= sv);
        assert(out@.map_values(|o: Opt| (o.delta.0, o.value@)) =~= Seq::<(u16, Seq<u8>)>::empty());
        while i < self.0.len()
            invariant
                0 <= i <= self.0.len(),
                sv == self@,
                keys_sorted(sv),
                forall|j: int| i <= j < sv.len() ==> last <= sv[j].0,
                spec_opt_list(sv, 0) == out@.map_values(|o: Opt| (o.delta.0, o.value@))
                    + spec_opt_list(sv.skip(i as int), last),
            decreases self.0.len() - i,
        {
            assert(sv.skip(i as int).drop_first() =~= sv.skip(i + 1));
            assert(sv[i as int] == entry_view(self.0@[i as int]));
            let num = self.0[i].0.0;
            let vals = &self.0[i].1;
            if vals.len() == 0 {
                assert(values_view(vals@).len() == 0);
            } else {
                let delta = ((num - last) % 0x1_0000) as u16;
                let ghost before = out@.map_values(|o: Opt| (o.delta.0, o.value@));
                push_values_opts(vals, delta, &mut out);
                assert(before + (spec_values_opts(values_view(vals@), delta) + spec_opt_list(
                    sv.skip(i + 1),
                    num,
                )) =~= (before + spec_values_opts(values_view(vals@), delta)) + spec_opt_list(
                    sv.skip(i + 1),
                    num,
                ));
                last = num;
            }
            i = i + 1;
        }
        assert(sv.skip(i as int) =~= Seq::<(u32, Seq<Seq<u8>>)>::empty());
        assert(out@.map_values(|o: Opt| (o.delta.0, o.value@)) + Seq::<(u16, Seq<u8>)>::empty()
            =~= out@.map_values(|o: Opt| (o.delta.0, o.value@)));
        out
    }
}

impl Opt {
    /// An option has no fixed capacity, so it is never full
    pub fn is_full(&self) -> (r: bool)
        ensures
            !r,
    {
        false
    }

    /// The number of bytes this option takes on the wire
    pub fn len(&self) -> (r: usize)
        requires
            self.value@.len() < 0x1_0000,
        ensures
            r == spec_opt_bytes(self.delta.0, self.value@).len(),
    {
        let d = self.delta.0;
        let n = self.value.0.len();
        let delta_size: usize = if d >= 269 {
            2
        } else if d >= 13 {
            1
        } else {
            0
        };
        let len_size: usize = if n >= 269 {
            2
        } else if n >= 13 {
            1
        } else {
            0
        };
        proof {
            assert(len_field(self.value@) == n);
        }
        1 + delta_size + len_size + n
    }
}

} // verus!

verus! {

/// Read a delta or length from its header nibble and the bytes from `pos` on,
/// giving the value and the position after the extended bytes.
pub(crate) fn parse_opt_len_or_delta(
    head: u8,
    bytes: &[u8],
    pos: usize,
    reserved_err: OptParseError,
) -> (r: Result<(u16, usize), OptParseError>)
    requires
        pos <= bytes.len(),
    ensures
        match r {
            Ok((v, p)) => pos <= p <= bytes.len() && spec_parse_ext(
                head,
                bytes@.skip(pos as int),
                reserved_err,
            ) == Ok::<(u16, int), OptParseError>((v, p - pos)),
            Err(e) => spec_parse_ext(head, bytes@.skip(pos as int), reserved_err) == Err::<
                (u16, int),
                OptParseError,
            >(e),
        },
{
    if head == 13 {
        if pos < bytes.len() {
            let n = bytes[pos];
            Ok(((n as u16) + 13, pos + 1))
        } else {
            Err(OptParseError::eof())
        }
    } else if head == 14 {
        if bytes.len() - pos >= 2 {
            let a = bytes[pos];
            let b = bytes[pos + 1];
            let x = (a as u32) * 256 + (b as u32) + 269;
            if x <= 0xFFFF {
                Ok((x as u16, pos + 2))
            } else {
                Err(reserved_err)
            }
        } else {
            Err(OptParseError::eof())
        }
    } else if head == 15 {
        Err(reserved_err)
    } else {
        Ok((head as u16, pos))
    }
}

pub(crate) fn copy_range(bytes: &[u8], from: usize, to: usize) -> (r: Vec<u8>)
    requires
        from <= to <= bytes.len(),
    ensures
        r@ == bytes@.subrange(from as int, to as int),
{
    let mut out: Vec<u8> = Vec::new();
    let mut i = from;
    while i < to
        invariant
            from <= i <= to <= bytes.len(),
            out@ == bytes@.subrange(from as int, i as int),
        decreases to - i,
    {
        out.push(bytes[i]);
        i = i + 1;
        assert(out@ =~= bytes@.subrange(from as int, i as int));
    }
    out
}

impl Opt {
    /// Read one option from `bytes` starting at `pos`, giving the option and
    /// the position after it.
    pub fn try_consume_bytes(bytes: &[u8], pos: usize) -> (r: Result<(Opt, usize), OptParseError>)
        requires
            pos <= bytes.len(),
        ensures
            match r {
                Ok((o, p)) => pos < p <= bytes.len() && spec_parse_opt(bytes@.skip(pos as int))
                    == Ok::<(u16, Seq<u8>, int), OptParseError>((o.delta.0, o.value@, p - pos)),
                Err(e) => spec_parse_opt(bytes@.skip(pos as int)) == Err::<
                    (u16, Seq<u8>, int),
                    OptParseError,
                >(e),
            },
    {
        let ghost s = bytes@.skip(pos as int);
        if pos >= bytes.len() {
            return Err(OptParseError::OptionsExhausted);
        }
        let byte1 = bytes[pos];
        if byte1 == 0b11111111 {
            return Err(OptParseError::OptionsExhausted);
        }
        assert(s.skip(1) =~= bytes@.skip(pos + 1));
        let hi = byte1 >> 4;
        let lo = byte1 & 0b00001111;
        assert(hi == byte1 / 16 && lo == byte1 % 16) by (bit_vector)
            requires
                hi == byte1 >> 4,
                lo == byte1 & 0b00001111,
        ;
        let (delta, p1) = parse_opt_len_or_delta(
            hi,
            bytes,
            pos + 1,
            OptParseError::OptionDeltaReservedValue(15),
        )?;
        assert(s.skip(1).skip(p1 - (pos + 1)) =~= bytes@.skip(p1 as int));
        let (len, p2) = parse_opt_len_or_delta(
            lo,
            bytes,
            p1,
            OptParseError::ValueLengthReservedValue(15),
        )?;
        assert(s.skip(1).skip((p1 - (pos + 1)) + (p2 - p1)) =~= bytes@.skip(p2 as int));
        let len = len as usize;
        if bytes.len() - p2 < len {
            return Err(OptParseError::UnexpectedEndOfStream);
        }
        let value = copy_range(bytes, p2, p2 + len);
        assert(bytes@.skip(p2 as int).take(len as int) =~= bytes@.subrange(
            p2 as int,
            (p2 + len) as int,
        ));
        Ok((Opt { delta: OptDelta(delta), value: OptValue(value) }, p2 + len))
    }
}

impl OptionMap {
    /// Read options from `bytes` starting at `pos` until the payload marker or
    /// the end, giving the options and the position after them (and after the
    /// marker).
    pub fn try_consume_bytes(bytes: &[u8], pos: usize) -> (r: Result<
        (OptionMap, usize),
        OptParseError,
    >)
        requires
            pos <= bytes.len(),
        ensures
            match r {
                Ok((m, p)) => m.wf() && pos <= p <= bytes.len() && spec_parse_opts(
                    bytes@.skip(pos as int),
                    0,
                    Seq::empty(),
                ) == Ok::<(Seq<(u32, Seq<Seq<u8>>)>, int), OptParseError>((m@, p - pos)),
                Err(e) => spec_parse_opts(bytes@.skip(pos as int), 0, Seq::empty()) == Err::<
                    (Seq<(u32, Seq<Seq<u8>>)>, int),
                    OptParseError,
                >(e),
            },
    {
        let ghost target = spec_parse_opts(bytes@.skip(pos as int), 0, Seq::empty());
        let mut map = OptionMap::new();
        let mut last: u32 = 0;
        let mut cur = pos;
        loop
            invariant
                pos <= cur <= bytes.len(),
                map.wf(),
                target == spec_parse_opts(bytes@.skip(pos as int), 0, Seq::empty()),
                target == shift_consumed(
                    spec_parse_opts(bytes@.skip(cur as int), last, map@),
                    cur - pos,
                ),
            decreases bytes.len() - cur,
        {
            let ghost s = bytes@.skip(cur as int);
            match Opt::try_consume_bytes(bytes, cur) {
                Ok((opt, p2)) => {
                    let num = ((last as u64 + opt.delta.0 as u64) % 0x1_0000_0000) as u32;
                    map.append(OptNumber(num), opt.value);
                    assert(s.skip(p2 - cur) =~= bytes@.skip(p2 as int));
                    last = num;
                    cur = p2;
                },
                Err(OptParseError::OptionsExhausted) => {
                    assert(s.len() == 0 <==> cur == bytes.len());
                    assert(spec_parse_opts(s, last, map@) == Ok::<
                        (Seq<(u32, Seq<Seq<u8>>)>, int),
                        OptParseError,
                    >((map@, if s.len() == 0 { 0 } else { 1 })));
                    let end = if cur == bytes.len() {
                        cur
                    } else {
                        cur + 1
                    };
                    return Ok((map, end));
                },
                Err(e) => {
                    assert(spec_parse_opts(s, last, map@) == Err::<
                        (Seq<(u32, Seq<Seq<u8>>)>, int),
                        OptParseError,
                    >(e));
                    return Err(e);
                },
            }
        }
    }
}

} // verus!

verus! {

/// A delta or length read back from its nibble and extended bytes is itself.
pub proof fn lemma_ext_roundtrip(v: u16, rest: Seq<u8>, reserved: OptParseError)
    ensures
        ext_nibble(v) < 15,
        spec_parse_ext(ext_nibble(v), ext_bytes(v) + rest, reserved) == Ok::<
            (u16, int),
            OptParseError,
        >((v, ext_bytes(v).len() as int)),
{
    let s = ext_bytes(v) + rest;
    if v >= 269 {
        let w = (v - 269) as int;
        assert(s[0] == (w / 256) as u8);
        assert(s[1] == (w % 256) as u8);
        assert((w / 256) * 256 + w % 256 == w);
    } else if v >= 13 {
        assert(s[0] == (v - 13) as u8);
    }
}

/// The options that read back as they were written: sorted, each number with
/// one or more values, each of fewer than 65536 bytes, and each number at
/// most 65535 above the one before it (the first above `last`).
pub open spec fn opts_roundtrip(s: Seq<(u32, Seq<Seq<u8>>)>, last: u32) -> bool {
    &&& keys_sorted(s)
    &&& forall|i: int| 0 <= i < s.len() ==> #[trigger] s[i].1.len() >= 1
    &&& forall|i: int, k: int| 0 <= i < s.len() && 0 <= k < s[i].1.len() ==> #[trigger] s[i].1[k].len()
        < 0x1_0000
    &&& s.len() > 0 ==> last <= s[0].0 && s[0].0 - last < 0x1_0000
    &&& forall|i: int| 0 <= i < s.len() - 1 ==> #[trigger] s[i + 1].0 - s[i].0 < 0x1_0000
}

/// One option read back from its bytes is the option written.
#[verifier::spinoff_prover]
#[verifier::rlimit(40)]
pub proof fn lemma_parse_opt_bytes(d: u16, v: Seq<u8>, rest: Seq<u8>)
    requires
        v.len() < 0x1_0000,
    ensures
        spec_parse_opt(spec_opt_bytes(d, v) + rest) == Ok::<(u16, Seq<u8>, int), OptParseError>(
            (d, v, spec_opt_bytes(d, v).len() as int),
        ),
{
    let l = len_field(v);
    assert(l == v.len());
    let s = spec_opt_bytes(d, v) + rest;
    let hd = ext_nibble(d);
    let hl = ext_nibble(l);
    lemma_ext_roundtrip(d, ext_bytes(l) + v + rest, OptParseError::OptionDeltaReservedValue(15));
    lemma_ext_roundtrip(l, v + rest, OptParseError::ValueLengthReservedValue(15));
    let h = (hd * 16 + hl) as u8;
    assert(s[0] == h);
    assert(h != 0xFF);
    assert(h / 16 == hd && h % 16 == hl);
    let r = s.skip(1);
    assert(r =~= ext_bytes(d) + (ext_bytes(l) + v + rest));
    let n1 = ext_bytes(d).len() as int;
    assert(r.skip(n1) =~= ext_bytes(l) + (v + rest));
    let n2 = ext_bytes(l).len() as int;
    assert(r.skip(n1 + n2) =~= v + rest);
    assert((v + rest).take(l as int) =~= v);
}

/// The conditions for reading options back carry over to all but the first.
proof fn lemma_opts_roundtrip_rest(s: Seq<(u32, Seq<Seq<u8>>)>, last: u32)
    requires
        opts_roundtrip(s, last),
        s.len() > 0,
    ensures
        opts_roundtrip(s.drop_first(), s[0].0),
{
    let rest = s.drop_first();
    assert forall|i: int| 0 <= i < rest.len() implies #[trigger] rest[i].1.len() >= 1 by {
        assert(rest[i] == s[i + 1]);
    }
    assert forall|i: int, k: int| 0 <= i < rest.len() && 0 <= k < rest[i].1.len() implies #[trigger] rest[i].1[k].len()
        < 0x1_0000 by {
        assert(rest[i] == s[i + 1]);
        assert(s[i + 1].1[k].len() < 0x1_0000);
    }
    assert forall|i: int| 0 <= i < rest.len() - 1 implies #[trigger] rest[i + 1].0 - rest[i].0
        < 0x1_0000 by {
        assert(rest[i] == s[i + 1]);
        assert(rest[i + 1] == s[i + 2]);
    }
    if rest.len() > 0 {
        assert(rest[0] == s[1]);
        assert(s[0int + 1].0 - s[0int].0 < 0x1_0000);
    }
}

/// The bytes of options begin with the values of the first number.
proof fn lemma_opts_bytes_first(s: Seq<(u32, Seq<Seq<u8>>)>, last: u32)
    requires
        opts_roundtrip(s, last),
        s.len() > 0,
    ensures
        spec_opts_bytes(s, last) == spec_opt_bytes((s[0].0 - last) as u16, s[0].1[0])
            + spec_values_bytes(s[0].1.drop_first(), 0) + spec_opts_bytes(s.drop_first(), s[0].0),
{
    let e = s[0];
    assert(e.1.len() >= 1);
    let d = ((e.0 - last) % 0x1_0000) as u16;
    assert(d == (e.0 - last) as u16);
    assert(spec_values_bytes(e.1, d) == spec_opt_bytes(d, e.1[0]) + spec_values_bytes(e.1.drop_first(), 0));
}

/// A parse result shifted twice is shifted by the sum.
proof fn lemma_shift_twice(r: Result<(Seq<(u32, Seq<Seq<u8>>)>, int), OptParseError>, a: int, b: int)
    ensures
        shift_consumed(shift_consumed(r, a), b) == shift_consumed(r, a + b),
        shift_consumed(r, 0) == r,
{
}

/// Storing a value for the number of the last entry, above every other
/// number, adds the value to that entry.
proof fn lemma_append_to_last(acc: Seq<(u32, Seq<Seq<u8>>)>, k: u32, pre: Seq<Seq<u8>>, v: Seq<u8>)
    requires
        forall|j: int| 0 <= j < acc.len() ==> acc[j].0 < k,
    ensures
        spec_append(acc.push((k, pre)), k, v) == acc.push((k, pre.push(v))),
{
    let t = acc.push((k, pre));
    crate::msg::opt::lemma_find_unique(t, k, acc.len() as int);
    assert(t[acc.len() as int] == (k, pre));
    assert(t.update(acc.len() as int, (k, pre.push(v))) =~= acc.push((k, pre.push(v))));
}

/// Reading back the further values of a number (each written with a delta of
/// 0) adds them, in order, to the entry for that number.
proof fn lemma_values_roundtrip(
    vals: Seq<Seq<u8>>,
    k: u32,
    acc: Seq<(u32, Seq<Seq<u8>>)>,
    pre: Seq<Seq<u8>>,
    rest: Seq<u8>,
)
    requires
        forall|j: int| 0 <= j < acc.len() ==> acc[j].0 < k,
        forall|i: int| 0 <= i < vals.len() ==> #[trigger] vals[i].len() < 0x1_0000,
    ensures
        spec_parse_opts(spec_values_bytes(vals, 0) + rest, k, acc.push((k, pre))) == shift_consumed(
            spec_parse_opts(rest, k, acc.push((k, pre + vals))),
            spec_values_bytes(vals, 0).len() as int,
        ),
    decreases vals.len(),
{
    lemma_shift_twice(spec_parse_opts(rest, k, acc.push((k, pre + vals))), 0, 0);
    if vals.len() == 0 {
        assert(spec_values_bytes(vals, 0) + rest =~= rest);
        assert(pre + vals =~= pre);
    } else {
        let v = vals[0];
        let tl = vals.drop_first();
        let ob = spec_opt_bytes(0, v);
        let tb = spec_values_bytes(tl, 0);
        let all = spec_values_bytes(vals, 0) + rest;
        let n = ob.len() as int;
        assert(all =~= ob + (tb + rest));
        lemma_parse_opt_bytes(0, v, tb + rest);
        assert(all.skip(n) =~= tb + rest);
        lemma_parse_opts_step(all, k, acc.push((k, pre)), 0, v, n);
        assert(((k + 0u16) % 0x1_0000_0000) as u32 == k);
        lemma_append_to_last(acc, k, pre, v);
        assert forall|i: int| 0 <= i < tl.len() implies #[trigger] tl[i].len() < 0x1_0000 by {
            assert(tl[i] == vals[i + 1]);
        }
        lemma_values_roundtrip(tl, k, acc, pre.push(v), rest);
        assert(pre.push(v) + tl =~= pre + vals);
        lemma_shift_twice(spec_parse_opts(rest, k, acc.push((k, pre + vals))), tb.len() as int, n);
    }
}

/// One step of reading options: a parsed option is stored and reading goes on after it.
proof fn lemma_parse_opts_step(
    all: Seq<u8>,
    last: u32,
    acc: Seq<(u32, Seq<Seq<u8>>)>,
    d: u16,
    v: Seq<u8>,
    n: int,
)
    requires
        spec_parse_opt(all) == Ok::<(u16, Seq<u8>, int), OptParseError>((d, v, n)),
    ensures
        spec_parse_opts(all, last, acc) == shift_consumed(
            spec_parse_opts(
                all.skip(n),
                ((last + d) % 0x1_0000_0000) as u32,
                spec_append(acc, ((last + d) % 0x1_0000_0000) as u32, v),
            ),
            n,
        ),
{
    lemma_parse_opt_consumed(all);
}

/// Options read back from their bytes, followed by something that ends the
/// options, are the options written, appended to those read before.
#[verifier::spinoff_prover]
#[verifier::rlimit(80)]
pub proof fn lemma_opts_roundtrip(
    s: Seq<(u32, Seq<Seq<u8>>)>,
    last: u32,
    acc: Seq<(u32, Seq<Seq<u8>>)>,
    tail: Seq<u8>,
)
    requires
        opts_roundtrip(s, last),
        spec_parse_opt(tail) == Err::<(u16, Seq<u8>, int), OptParseError>(
            OptParseError::OptionsExhausted,
        ),
        forall|i: int, j: int| 0 <= i < acc.len() && 0 <= j < s.len() ==> acc[i].0 < s[j].0,
    ensures
        spec_parse_opts(spec_opts_bytes(s, last) + tail, last, acc) == Ok::<
            (Seq<(u32, Seq<Seq<u8>>)>, int),
            OptParseError,
        >(
            (
                acc + s,
                spec_opts_bytes(s, last).len() + if tail.len() == 0 {
                    0int
                } else {
                    1int
                },
            ),
        ),
    decreases s.len(),
{
    if s.len() == 0 {
        assert(spec_opts_bytes(s, last) + tail =~= tail);
        assert(acc + s =~= acc);
    } else {
        let e = s[0];
        let v = e.1[0];
        let more = e.1.drop_first();
        let d = (e.0 - last) as u16;
        let rest = s.drop_first();
        let ob = spec_opt_bytes(d, v);
        let mb = spec_values_bytes(more, 0);
        let rb = spec_opts_bytes(rest, e.0);
        let all = spec_opts_bytes(s, last) + tail;
        let n = ob.len() as int;
        let acc1 = acc.push((e.0, seq![v]));
        let acc2 = acc.push(e);
        assert(all =~= ob + (mb + (rb + tail))) by {
            lemma_opts_bytes_first(s, last);
        }
        assert(v.len() < 0x1_0000) by {
            assert(s[0].1[0].len() < 0x1_0000);
        }
        assert(spec_parse_opt(all) == Ok::<(u16, Seq<u8>, int), OptParseError>((d, v, n))) by {
            lemma_parse_opt_bytes(d, v, mb + (rb + tail));
        }
        assert(all.skip(n) =~= mb + (rb + tail));
        assert forall|j: int| 0 <= j < acc.len() implies acc[j].0 < e.0 by {
            assert(acc[j].0 < s[0].0);
        }
        assert(spec_append(acc, e.0, v) == acc1) by {
            lemma_append_last(acc, e.0, v);
        }
        assert(((last + d) % 0x1_0000_0000) as u32 == e.0);
        assert(spec_parse_opts(all, last, acc) == shift_consumed(
            spec_parse_opts(mb + (rb + tail), e.0, acc1),
            n,
        )) by {
            lemma_parse_opts_step(all, last, acc, d, v, n);
        }
        assert forall|i: int| 0 <= i < more.len() implies #[trigger] more[i].len() < 0x1_0000 by {
            assert(more[i] == e.1[i + 1]);
            assert(s[0].1[i + 1].len() < 0x1_0000);
        }
        lemma_values_roundtrip(more, e.0, acc, seq![v], rb + tail);
        assert(seq![v] + more =~= e.1);
        lemma_opts_roundtrip_rest(s, last);
        assert forall|i: int, j: int| 0 <= i < acc2.len() && 0 <= j < rest.len() implies acc2[i].0
            < rest[j].0 by {
            assert(rest[j] == s[j + 1]);
            if i < acc.len() {
            } else {
                assert(acc2[i] == s[0]);
            }
        }
        lemma_opts_roundtrip(rest, e.0, acc2, tail);
        lemma_shift_twice(spec_parse_opts(rb + tail, e.0, acc2), rb.len() + (if tail.len() == 0 { 0int } else { 1int }), 0);
        lemma_shift_twice(
            Ok::<(Seq<(u32, Seq<Seq<u8>>)>, int), OptParseError>((acc2 + rest, rb.len() + if tail.len() == 0 { 0int } else { 1int })),
            mb.len() as int,
            n,
        );
        assert(acc2 + rest =~= acc + s);
        assert(spec_opts_bytes(s, last).len() == n + mb.len() + rb.len()) by {
            lemma_opts_bytes_first(s, last);
        }
    }
}

} // verus!
