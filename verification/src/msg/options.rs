//! Reading and writing the options of a message
use vstd::prelude::*;
use vstd::utf8::{decode_utf8, valid_utf8};
use vstd::string::StringSliceAdditionalSpecFns;

use super::opt::known::{no_repeat, repeat, Action, Block, ContentFormat};
use super::opt::known::block::spec_block_value;
use super::opt::known::content_format::{spec_content_format_num, spec_content_format_of};
use super::opt::known::observe::{spec_action_byte, spec_action_of};
use super::opt::wire::copy_range;
use super::opt::{
    keys_sorted, lemma_get_insert, lemma_get_remove, lemma_get_sorted, spec_get, values_view,
    OptNumber, OptValue,
};
use super::uint::{be_bytes, be_uint, lemma_be_roundtrip, lemma_pow256_values, pow256,
    spec_be_bytes, spec_be_uint};
use super::{Code, Id, Message, MessageView, Payload, Token, Type, Version};
use crate::utf8::{str_from_utf8, string_from_utf8};

verus! {

/// An error from adding or setting an option. The growable collections that
/// messages use here never run out of room, so these are never produced.
#[derive(Debug, Clone, PartialEq, Eq)]
pub enum SetOptionError {
    /// The option cannot hold another value
    RepeatedTooManyTimes(OptValue),
    /// The message cannot hold another option
    TooManyOptions(OptNumber, Vec<OptValue>),
}

/// The values stored for `n`, or none.
pub open spec fn spec_values(s: Seq<(u32, Seq<Seq<u8>>)>, n: u32) -> Seq<Seq<u8>> {
    match spec_get(s, n) {
        Some(vs) => vs,
        None => Seq::empty(),
    }
}

/// The first value stored for `n`, if any.
pub open spec fn spec_first(s: Seq<(u32, Seq<Seq<u8>>)>, n: u32) -> Option<Seq<u8>> {
    match spec_get(s, n) {
        Some(vs) => if vs.len() > 0 {
            Some(vs[0])
        } else {
            None
        },
        None => None,
    }
}

/// The first value stored for `n` read as a big-endian number, when it has exactly `width` bytes.
pub open spec fn spec_first_uint(s: Seq<(u32, Seq<Seq<u8>>)>, n: u32, width: nat) -> Option<nat> {
    match spec_first(s, n) {
        Some(b) => if b.len() == width {
            Some(spec_be_uint(b))
        } else {
            None
        },
        None => None,
    }
}

/// `new` holds exactly what `old` holds, except that number `n` now holds `v`.
pub open spec fn opts_updated(
    new: Seq<(u32, Seq<Seq<u8>>)>,
    old: Seq<(u32, Seq<Seq<u8>>)>,
    n: u32,
    v: Option<Seq<Seq<u8>>>,
) -> bool {
    &&& keys_sorted(new)
    &&& forall|j: u32| #[trigger]
        spec_get(new, j) == if j == n {
            v
        } else {
            spec_get(old, j)
        }
}

/// Two messages agree on everything but their options.
pub open spec fn same_but_opts(a: MessageView, b: MessageView) -> bool {
    &&& a.id == b.id
    &&& a.ty == b.ty
    &&& a.ver == b.ver
    &&& a.token == b.token
    &&& a.code == b.code
    &&& a.payload == b.payload
}

/// The position of the first `/` in `s`, or its length when there is none.
pub open spec fn slash_index(s: Seq<u8>) -> int
    decreases s.len(),
{
    if s.len() == 0 || s[0] == 47 {
        0
    } else {
        1 + slash_index(s.drop_first())
    }
}

/// `slash_index` is a position, with no `/` before it and a `/` at it.
pub proof fn lemma_slash_index(s: Seq<u8>)
    ensures
        0 <= slash_index(s) <= s.len(),
        forall|j: int| 0 <= j < slash_index(s) ==> s[j] != 47,
        slash_index(s) < s.len() ==> s[slash_index(s)] == 47,
    decreases s.len(),
{
    if s.len() > 0 && s[0] != 47 {
        lemma_slash_index(s.drop_first());
        assert forall|j: int| 0 <= j < slash_index(s) implies s[j] != 47 by {
            if j > 0 {
                assert(s[j] == s.drop_first()[j - 1]);
            }
        }
    }
}

/// The segments of a path: the pieces between `/`s (an empty path has one
/// empty segment).
pub open spec fn spec_split_path(s: Seq<u8>) -> Seq<Seq<u8>>
    decreases s.len(),
{
    let i = slash_index(s);
    if i >= s.len() {
        seq![s]
    } else {
        proof {
            lemma_slash_index(s);
        }
        seq![s.take(i)] + spec_split_path(s.skip(i + 1))
    }
}

/// A path always has at least one segment.
pub proof fn lemma_split_path_nonempty(s: Seq<u8>)
    ensures
        spec_split_path(s).len() > 0,
{
    if slash_index(s) < s.len() {
        lemma_slash_index(s);
    }
}

/// Segments joined with `/` between them.
pub open spec fn spec_join_path(segs: Seq<Seq<u8>>) -> Seq<u8>
    decreases segs.len(),
{
    if segs.len() == 0 {
        seq![]
    } else if segs.len() == 1 {
        segs[0]
    } else {
        spec_join_path(segs.drop_last()) + seq![47u8] + segs.last()
    }
}

proof fn lemma_slash_index_skip(s: Seq<u8>, start: int, i: int)
    requires
        0 <= start <= i <= s.len(),
        forall|j: int| start <= j < i ==> s[j] != 47,
        i < s.len() ==> s[i] == 47,
    ensures
        slash_index(s.skip(start)) == i - start,
    decreases i - start,
{
    if start < i {
        assert(s.skip(start).drop_first() =~= s.skip(start + 1));
        lemma_slash_index_skip(s, start + 1, i);
    }
}

fn split_path(b: &[u8]) -> (r: Vec<Vec<u8>>)
    ensures
        r@.map_values(|v: Vec<u8>| v@) == spec_split_path(b@),
{
    let ghost target = spec_split_path(b@);
    let mut segs: Vec<Vec<u8>> = Vec::new();
    let mut start: usize = 0;
    let mut i: usize = 0;
    assert(b@.skip(0) =~= b@);
    while i < b.len()
        invariant
            0 <= start <= i <= b.len(),
            forall|j: int| start <= j < i ==> b@[j] != 47,
            target == segs@.map_values(|v: Vec<u8>| v@) + spec_split_path(b@.skip(start as int)),
        decreases b.len() - i,
    {
        if b[i] == 47 {
            proof {
                lemma_slash_index_skip(b@, start as int, i as int);
                lemma_slash_index(b@.skip(start as int));
                assert(b@.skip(start as int).take(i - start) =~= b@.subrange(
                    start as int,
                    i as int,
                ));
                assert(b@.skip(start as int).skip(i - start + 1) =~= b@.skip(i + 1));
            }
            let seg = copy_range(b, start, i);
            let ghost old_segs = segs@.map_values(|v: Vec<u8>| v@);
            segs.push(seg);
            assert(segs@.map_values(|v: Vec<u8>| v@) =~= old_segs.push(
                b@.subrange(start as int, i as int),
            ));
            start = i + 1;
        }
        i = i + 1;
    }
    proof {
        lemma_slash_index_skip(b@, start as int, i as int);
        assert(b@.skip(start as int) =~= b@.subrange(start as int, b@.len() as int));
    }
    let seg = copy_range(b, start, b.len());
    let ghost old_segs = segs@.map_values(|v: Vec<u8>| v@);
    segs.push(seg);
    assert(segs@.map_values(|v: Vec<u8>| v@) =~= old_segs + spec_split_path(
        b@.skip(start as int),
    ));
    segs
}

fn to_value(b: &[u8]) -> (r: OptValue)
    ensures
        r@ == b@,
{
    OptValue(copy_range(b, 0, b.len()))
}

impl Message {
    /// Create a new message with no options and an empty payload
    pub fn new(ty: Type, code: Code, id: Id, token: Token) -> (m: Self)
        ensures
            m@ == (MessageView {
                id: id.0,
                ty,
                ver: 1,
                token: token@,
                code,
                opts: Seq::empty(),
                payload: Seq::empty(),
            }),
            m.opts.wf(),
    {
        let m = Message {
            id,
            token,
            ty,
            code,
            ver: Version(1),
            payload: Payload(Vec::new()),
            opts: super::OptionMap::new(),
        };
        assert(m.payload@ =~= Seq::<u8>::empty());
        m
    }

    /// Get the payload
    pub fn payload(&self) -> (r: &Payload)
        ensures
            r == &self.payload,
    {
        &self.payload
    }

    /// Set the payload, returning the old payload if it was not empty
    pub fn set_payload(&mut self, p: Payload) -> (r: Option<Payload>)
        ensures
            final(self)@ == (MessageView { payload: p@, ..old(self)@ }),
            final(self).opts == old(self).opts,
            r == (if old(self).payload@.len() > 0 {
                Some(old(self).payload)
            } else {
                None::<Payload>
            }),
    {
        let mut old = p;
        std::mem::swap(&mut old, &mut self.payload);
        if old.0.len() > 0 {
            Some(old)
        } else {
            None
        }
    }

    /// Create a new message that ACKs this one: same token, type ACK, code
    /// `0.00`, the given id, no options and no payload.
    pub fn ack(&self, id: Id) -> (m: Self)
        ensures
            m@ == (MessageView {
                id: id.0,
                ty: Type::Ack,
                ver: 1,
                token: self.token@,
                code: Code { class: 0, detail: 0 },
                opts: Seq::empty(),
                payload: Seq::empty(),
            }),
            m.opts.wf(),
    {
        Message::new(Type::Ack, Code::new(0, 0), id, self.token.copied())
    }

    /// Insert a new value for an option, after any values it already has
    pub fn add(&mut self, n: OptNumber, v: OptValue) -> (r: Result<(), SetOptionError>)
        requires
            old(self).opts.wf(),
        ensures
            r is Ok,
            final(self).opts.wf(),
            same_but_opts(final(self)@, old(self)@),
            opts_updated(
                final(self).opts@,
                old(self).opts@,
                n.0,
                Some(spec_values(old(self).opts@, n.0).push(v@)),
            ),
    {
        let ghost s0 = self.opts@;
        let mut vals = match self.opts.remove(n) {
            Some(vs) => vs,
            None => Vec::new(),
        };
        let ghost s1 = self.opts@;
        let ghost vv = values_view(vals@);
        assert(vv == spec_values(s0, n.0));
        vals.push(v);
        assert(values_view(vals@) =~= vv.push(v@));
        self.opts.insert(n, vals);
        proof {
            assert forall|j: u32| #[trigger]
                spec_get(self.opts@, j) == if j == n.0 {
                    Some(spec_values(s0, n.0).push(v@))
                } else {
                    spec_get(s0, j)
                } by {
                lemma_get_remove(s0, n.0, j);
                lemma_get_insert(s1, n.0, vv.push(v@), j);
            }
        }
        Ok(())
    }

    /// Replace all values of an option with a single one, yielding the
    /// values it had before
    pub fn set(&mut self, n: OptNumber, v: OptValue) -> (r: Result<
        Option<Vec<OptValue>>,
        SetOptionError,
    >)
        requires
            old(self).opts.wf(),
        ensures
            final(self).opts.wf(),
            same_but_opts(final(self)@, old(self)@),
            opts_updated(final(self).opts@, old(self).opts@, n.0, Some(seq![v@])),
            match r {
                Ok(Some(vs)) => spec_get(old(self).opts@, n.0) == Some(values_view(vs@)),
                Ok(None) => spec_get(old(self).opts@, n.0) is None,
                Err(_) => false,
            },
    {
        let ghost s0 = self.opts@;
        let old_vals = self.opts.remove(n);
        let ghost s1 = self.opts@;
        self.add(n, v)?;
        proof {
            assert forall|j: u32| #[trigger]
                spec_get(self.opts@, j) == if j == n.0 {
                    Some(seq![v@])
                } else {
                    spec_get(s0, j)
                } by {
                lemma_get_remove(s0, n.0, j);
                lemma_get_remove(s0, n.0, n.0);
                assert(spec_values(s1, n.0).push(v@) =~= seq![v@]);
            }
        }
        Ok(old_vals)
    }

    /// Get the number of values for a given option
    pub fn count(&self, n: OptNumber) -> (r: usize)
        ensures
            r == spec_values(self.opts@, n.0).len(),
    {
        match self.opts.get(n) {
            Some(vs) => vs.len(),
            None => 0,
        }
    }

    /// Get the value(s) of an option by number
    pub fn get(&self, n: OptNumber) -> (r: Option<&Vec<OptValue>>)
        ensures
            match r {
                Some(vs) => spec_get(self.opts@, n.0) == Some(values_view(vs@)),
                None => spec_get(self.opts@, n.0) is None,
            },
    {
        self.opts.get(n)
    }

    /// Get the value of an option, taking the first if there are multiple.
    pub fn get_first(&self, n: OptNumber) -> (r: Option<&OptValue>)
        ensures
            match r {
                Some(v) => spec_first(self.opts@, n.0) == Some(v@),
                None => spec_first(self.opts@, n.0) is None,
            },
    {
        match self.opts.get(n) {
            Some(vs) => {
                if vs.len() > 0 {
                    assert(values_view(vs@)[0] == vs@[0]@);
                    Some(&vs[0])
                } else {
                    None
                }
            },
            None => None,
        }
    }

    /// Get the value of an option, and interpret it as a UTF-8 string
    pub fn get_str(&self, n: OptNumber) -> (r: Result<Option<&str>, core::str::Utf8Error>)
        ensures
            match spec_first(self.opts@, n.0) {
                None => r == Ok::<Option<&str>, core::str::Utf8Error>(None),
                Some(b) => (r is Ok <==> valid_utf8(b)) && (r is Ok ==> (r matches Ok(Some(s))
                    && s@ == decode_utf8(b))),
            },
    {
        match self.get_first(n) {
            Some(v) => match str_from_utf8(v.0.as_slice()) {
                Ok(s) => Ok(Some(s)),
                Err(e) => Err(e),
            },
            None => Ok(None),
        }
    }

    /// Get all values for an option, and interpret them as UTF-8 strings
    pub fn get_strs(&self, n: OptNumber) -> (r: Result<Vec<&str>, core::str::Utf8Error>)
        ensures
            r is Ok <==> forall|i: int|
                0 <= i < spec_values(self.opts@, n.0).len() ==> #[trigger] valid_utf8(
                    spec_values(self.opts@, n.0)[i],
                ),
            r matches Ok(v) ==> v@.len() == spec_values(self.opts@, n.0).len() && forall|i: int|
                0 <= i < v@.len() ==> #[trigger] v@[i]@ == decode_utf8(
                    spec_values(self.opts@, n.0)[i],
                ),
    {
        let mut out: Vec<&str> = Vec::new();
        match self.opts.get(n) {
            Some(vs) => {
                let ghost vv = values_view(vs@);
                let mut i: usize = 0;
                while i < vs.len()
                    invariant
                        0 <= i <= vs.len(),
                        vv == values_view(vs@),
                        vv == spec_values(self.opts@, n.0),
                        out@.len() == i,
                        forall|j: int| 0 <= j < i ==> #[trigger] valid_utf8(vv[j]),
                        forall|j: int| 0 <= j < i ==> #[trigger] out@[j]@ == decode_utf8(vv[j]),
                    decreases vs.len() - i,
                {
                    assert(vv[i as int] == vs@[i as int]@);
                    match str_from_utf8(vs[i].0.as_slice()) {
                        Ok(s) => {
                            out.push(s);
                        },
                        Err(e) => {
                            return Err(e);
                        },
                    }
                    i = i + 1;
                }
                Ok(out)
            },
            None => Ok(out),
        }
    }

    /// Get the value of an option, and interpret it as a u8
    pub fn get_u8(&self, n: OptNumber) -> (r: Option<u8>)
        ensures
            r == (match spec_first_uint(self.opts@, n.0, 1) {
                Some(x) => Some(x as u8),
                None => None::<u8>,
            }),
            r matches Some(x) ==> spec_first_uint(self.opts@, n.0, 1) == Some(x as nat),
    {
        match self.get_first(n) {
            Some(v) => if v.0.len() == 1 {
                proof {
                    lemma_pow256_values();
                    super::uint::lemma_be_uint_bound(v@);
                }
                Some(be_uint(v.0.as_slice()) as u8)
            } else {
                None
            },
            None => None,
        }
    }

    /// Get the value of an option, and interpret it as a u16
    pub fn get_u16(&self, n: OptNumber) -> (r: Option<u16>)
        ensures
            r == (match spec_first_uint(self.opts@, n.0, 2) {
                Some(x) => Some(x as u16),
                None => None::<u16>,
            }),
            r matches Some(x) ==> spec_first_uint(self.opts@, n.0, 2) == Some(x as nat),
    {
        match self.get_first(n) {
            Some(v) => if v.0.len() == 2 {
                proof {
                    lemma_pow256_values();
                    super::uint::lemma_be_uint_bound(v@);
                }
                Some(be_uint(v.0.as_slice()) as u16)
            } else {
                None
            },
            None => None,
        }
    }

    /// Get the value of an option, and interpret it as a u32
    pub fn get_u32(&self, n: OptNumber) -> (r: Option<u32>)
        ensures
            r == (match spec_first_uint(self.opts@, n.0, 4) {
                Some(x) => Some(x as u32),
                None => None::<u32>,
            }),
            r matches Some(x) ==> spec_first_uint(self.opts@, n.0, 4) == Some(x as nat),
    {
        match self.get_first(n) {
            Some(v) => if v.0.len() == 4 {
                proof {
                    lemma_pow256_values();
                    super::uint::lemma_be_uint_bound(v@);
                }
                Some(be_uint(v.0.as_slice()) as u32)
            } else {
                None
            },
            None => None,
        }
    }

    /// Get the value of an option, and interpret it as a u64
    pub fn get_u64(&self, n: OptNumber) -> (r: Option<u64>)
        ensures
            r == (match spec_first_uint(self.opts@, n.0, 8) {
                Some(x) => Some(x as u64),
                None => None::<u64>,
            }),
            r matches Some(x) ==> spec_first_uint(self.opts@, n.0, 8) == Some(x as nat),
    {
        match self.get_first(n) {
            Some(v) => if v.0.len() == 8 {
                proof {
                    lemma_pow256_values();
                    super::uint::lemma_be_uint_bound(v@);
                }
                Some(be_uint(v.0.as_slice()))
            } else {
                None
            },
            None => None,
        }
    }

    /// Remove all values for the option from this message,
    /// returning them if there were any.
    pub fn remove(&mut self, n: OptNumber) -> (r: Option<Vec<OptValue>>)
        requires
            old(self).opts.wf(),
        ensures
            final(self).opts.wf(),
            same_but_opts(final(self)@, old(self)@),
            opts_updated(final(self).opts@, old(self).opts@, n.0, None),
            match r {
                Some(vs) => spec_get(old(self).opts@, n.0) == Some(values_view(vs@)),
                None => spec_get(old(self).opts@, n.0) is None,
            },
    {
        let ghost s0 = self.opts@;
        let r = self.opts.remove(n);
        proof {
            assert forall|j: u32| #[trigger]
                spec_get(self.opts@, j) == if j == n.0 {
                    None
                } else {
                    spec_get(s0, j)
                } by {
                lemma_get_remove(s0, n.0, j);
            }
        }
        r
    }
}

/// `r` is what reading the first value of an option as a string gives:
/// nothing when there is no value, the decoded text when the value is valid
/// UTF-8, an error otherwise.
pub open spec fn str_result(first: Option<Seq<u8>>, r: Result<Option<&str>, core::str::Utf8Error>) -> bool {
    match first {
        None => r == Ok::<Option<&str>, core::str::Utf8Error>(None),
        Some(b) => (r is Ok <==> valid_utf8(b)) && (r is Ok ==> (r matches Ok(Some(s)) && s@
            == decode_utf8(b))),
    }
}

/// `r` is what reading every value of an option as a string gives: the
/// decoded texts when all values are valid UTF-8, an error otherwise.
pub open spec fn strs_result(vals: Seq<Seq<u8>>, r: Result<Vec<&str>, core::str::Utf8Error>) -> bool {
    &&& r is Ok <==> forall|i: int| 0 <= i < vals.len() ==> #[trigger] valid_utf8(vals[i])
    &&& r matches Ok(v) ==> v@.len() == vals.len() && forall|i: int|
        0 <= i < v@.len() ==> #[trigger] v@[i]@ == decode_utf8(vals[i])
}

/// The values kept by `add_if_match`: the non-empty ones.
pub open spec fn spec_nonempty_values(vals: Seq<Seq<u8>>) -> Seq<Seq<u8>>
    decreases vals.len(),
{
    if vals.len() == 0 {
        vals
    } else {
        let rest = spec_nonempty_values(vals.drop_last());
        if vals.last().len() > 0 {
            rest.push(vals.last())
        } else {
            rest
        }
    }
}

impl Message {
    fn set_bytes(&mut self, n: u32, b: Vec<u8>) -> (r: Result<(), SetOptionError>)
        requires
            old(self).opts.wf(),
        ensures
            r is Ok,
            final(self).opts.wf(),
            same_but_opts(final(self)@, old(self)@),
            opts_updated(final(self).opts@, old(self).opts@, n, Some(seq![b@])),
            spec_first(final(self).opts@, n) == Some(b@),
    {
        let ghost bv = b@;
        match self.set(OptNumber(n), OptValue(b)) {
            Ok(_) => {
                assert(spec_get(self.opts@, n) == Some(seq![bv]));
                Ok(())
            },
            Err(e) => Err(e),
        }
    }

    fn set_uint(&mut self, n: u32, v: u64, width: usize) -> (r: Result<(), SetOptionError>)
        requires
            old(self).opts.wf(),
            width <= 8,
        ensures
            r is Ok,
            final(self).opts.wf(),
            same_but_opts(final(self)@, old(self)@),
            opts_updated(
                final(self).opts@,
                old(self).opts@,
                n,
                Some(seq![spec_be_bytes(v as nat, width as nat)]),
            ),
            spec_first_uint(final(self).opts@, n, width as nat) == Some(
                (v as nat) % pow256(width as nat),
            ),
    {
        let b = be_bytes(v, width);
        proof {
            lemma_be_roundtrip(v as nat, width as nat);
        }
        self.set_bytes(n, b)
    }

    fn add_bytes(&mut self, n: u32, b: &[u8]) -> (r: Result<(), SetOptionError>)
        requires
            old(self).opts.wf(),
        ensures
            r is Ok,
            final(self).opts.wf(),
            same_but_opts(final(self)@, old(self)@),
            opts_updated(
                final(self).opts@,
                old(self).opts@,
                n,
                Some(spec_values(old(self).opts@, n).push(b@)),
            ),
    {
        self.add(OptNumber(n), to_value(b))
    }

    /// Update the value for the Uri-Host option, discarding any existing values.
    pub fn set_host(&mut self, host: &str) -> (r: Result<(), SetOptionError>)
        requires
            old(self).opts.wf(),
        ensures
            r is Ok,
            final(self).opts.wf(),
            same_but_opts(final(self)@, old(self)@),
            opts_updated(
                final(self).opts@,
                old(self).opts@,
                no_repeat::HOST,
                Some(seq![host.spec_bytes()]),
            ),
    {
        let bs = host.as_bytes();
        let b = copy_range(bs, 0, bs.len());
        assert(b@ =~= host.spec_bytes());
        self.set_bytes(no_repeat::HOST, b)
    }

    /// Get the value for the Uri-Host option
    pub fn host(&self) -> (r: Result<Option<&str>, core::str::Utf8Error>)
        ensures
            str_result(spec_first(self.opts@, no_repeat::HOST), r),
    {
        self.get_str(OptNumber(no_repeat::HOST))
    }

    /// The Block1 option, if it holds exactly four bytes
    pub fn block1(&self) -> (r: Option<Block>)
        ensures
            r == (match spec_first_uint(self.opts@, no_repeat::BLOCK1, 4) {
                Some(x) => Some(Block(x as u32)),
                None => None::<Block>,
            }),
    {
        match self.get_u32(OptNumber(no_repeat::BLOCK1)) {
            Some(x) => Some(Block::from(x)),
            None => None,
        }
    }

    /// Set the Block1 option to a block of the given size, number and "more" flag
    pub fn set_block1(&mut self, size: u16, num: u32, more: bool) -> (r: Result<(), SetOptionError>)
        requires
            old(self).opts.wf(),
        ensures
            r is Ok,
            final(self).opts.wf(),
            same_but_opts(final(self)@, old(self)@),
            opts_updated(
                final(self).opts@,
                old(self).opts@,
                no_repeat::BLOCK1,
                Some(seq![spec_be_bytes(spec_block_value(size, num, more) as nat, 4)]),
            ),
            spec_first_uint(final(self).opts@, no_repeat::BLOCK1, 4) == Some(
                spec_block_value(size, num, more) as nat,
            ),
    {
        let block = Block::new(size, num, more);
        proof {
            lemma_pow256_values();
        }
        self.set_uint(no_repeat::BLOCK1, u32::from(block) as u64, 4)
    }

    /// The Block2 option, if it holds exactly four bytes
    pub fn block2(&self) -> (r: Option<Block>)
        ensures
            r == (match spec_first_uint(self.opts@, no_repeat::BLOCK2, 4) {
                Some(x) => Some(Block(x as u32)),
                None => None::<Block>,
            }),
    {
        match self.get_u32(OptNumber(no_repeat::BLOCK2)) {
            Some(x) => Some(Block::from(x)),
            None => None,
        }
    }

    /// Set the Block2 option to a block of the given size, number and "more" flag
    pub fn set_block2(&mut self, size: u16, num: u32, more: bool) -> (r: Result<(), SetOptionError>)
        requires
            old(self).opts.wf(),
        ensures
            r is Ok,
            final(self).opts.wf(),
            same_but_opts(final(self)@, old(self)@),
            opts_updated(
                final(self).opts@,
                old(self).opts@,
                no_repeat::BLOCK2,
                Some(seq![spec_be_bytes(spec_block_value(size, num, more) as nat, 4)]),
            ),
            spec_first_uint(final(self).opts@, no_repeat::BLOCK2, 4) == Some(
                spec_block_value(size, num, more) as nat,
            ),
    {
        let block = Block::new(size, num, more);
        proof {
            lemma_pow256_values();
        }
        self.set_uint(no_repeat::BLOCK2, u32::from(block) as u64, 4)
    }

    /// Update the value for the Uri-Port option, discarding any existing values.
    pub fn set_port(&mut self, port: u16) -> (r: Result<(), SetOptionError>)
        requires
            old(self).opts.wf(),
        ensures
            r is Ok,
            final(self).opts.wf(),
            same_but_opts(final(self)@, old(self)@),
            opts_updated(
                final(self).opts@,
                old(self).opts@,
                no_repeat::PORT,
                Some(seq![spec_be_bytes(port as nat, 2)]),
            ),
            spec_first_uint(final(self).opts@, no_repeat::PORT, 2) == Some(port as nat),
    {
        proof {
            lemma_pow256_values();
        }
        self.set_uint(no_repeat::PORT, port as u64, 2)
    }

    /// Get the value for the Uri-Port option
    pub fn port(&self) -> (r: Option<u16>)
        ensures
            r == (match spec_first_uint(self.opts@, no_repeat::PORT, 2) {
                Some(x) => Some(x as u16),
                None => None::<u16>,
            }),
    {
        self.get_u16(OptNumber(no_repeat::PORT))
    }

    /// Add each `/`-separated segment of `path` as a Uri-Path value, after
    /// any values already there.
    pub fn set_path(&mut self, path: &str) -> (r: Result<(), SetOptionError>)
        requires
            old(self).opts.wf(),
        ensures
            r is Ok,
            final(self).opts.wf(),
            same_but_opts(final(self)@, old(self)@),
            opts_updated(
                final(self).opts@,
                old(self).opts@,
                repeat::PATH,
                Some(spec_values(old(self).opts@, repeat::PATH) + spec_split_path(path.spec_bytes())),
            ),
    {
        let ghost s0 = self.opts@;
        let ghost base = spec_values(s0, repeat::PATH);
        let segs = split_path(path.as_bytes());
        let ghost sv = segs@.map_values(|v: Vec<u8>| v@);
        assert(sv == spec_split_path(path.spec_bytes()));
        let mut i: usize = 0;
        assert(base + sv.take(0) =~= base);
        while i < segs.len()
            invariant
                0 <= i <= segs.len(),
                sv == segs@.map_values(|v: Vec<u8>| v@),
                self.opts.wf(),
                same_but_opts(self@, old(self)@),
                s0 == old(self).opts@,
                base == spec_values(s0, repeat::PATH),
                spec_values(self.opts@, repeat::PATH) == base + sv.take(i as int),
                i > 0 ==> spec_get(self.opts@, repeat::PATH) is Some,
                forall|j: u32| j != repeat::PATH ==> #[trigger] spec_get(self.opts@, j) == spec_get(s0, j),
            decreases segs.len() - i,
        {
            let ghost before = self.opts@;
            self.add_bytes(repeat::PATH, segs[i].as_slice());
            assert(base + sv.take(i + 1) =~= (base + sv.take(i as int)).push(sv[i as int]));
            assert forall|j: u32| j != repeat::PATH implies #[trigger] spec_get(self.opts@, j)
                == spec_get(s0, j) by {
                assert(spec_get(self.opts@, j) == spec_get(before, j));
            }
            i = i + 1;
        }
        assert(sv.take(i as int) =~= sv);
        proof {
            assert(sv.len() > 0) by {
                let b = path.spec_bytes();
                if slash_index(b) >= b.len() {
                } else {
                    lemma_slash_index(b);
                }
            }
            assert forall|j: u32| #[trigger]
                spec_get(self.opts@, j) == if j == repeat::PATH {
                    Some(base + sv)
                } else {
                    spec_get(s0, j)
                } by {
            }
        }
        Ok(())
    }

    /// Get the Uri-Path values as strings
    pub fn path(&self) -> (r: Result<Vec<&str>, core::str::Utf8Error>)
        ensures
            strs_result(spec_values(self.opts@, repeat::PATH), r),
    {
        self.get_strs(OptNumber(repeat::PATH))
    }

    /// Get the fully built path, joining the Uri-Path segments with '/'.
    pub fn path_string(&self) -> (r: Result<String, core::str::Utf8Error>)
        ensures
            (r is Ok) <==> forall|i: int|
                0 <= i < spec_values(self.opts@, repeat::PATH).len() ==> #[trigger] valid_utf8(
                    spec_values(self.opts@, repeat::PATH)[i],
                ),
            r matches Ok(s) ==> s@ == decode_utf8(
                spec_join_path(spec_values(self.opts@, repeat::PATH)),
            ),
    {
        let ghost vals = spec_values(self.opts@, repeat::PATH);
        match self.get_strs(OptNumber(repeat::PATH)) {
            Err(e) => Err(e),
            Ok(_) => {
                let mut out: Vec<u8> = Vec::new();
                match self.opts.get(OptNumber(repeat::PATH)) {
                    Some(vs) => {
                        let mut i: usize = 0;
                        assert(vals.take(0) =~= Seq::<Seq<u8>>::empty());
                        while i < vs.len()
                            invariant
                                0 <= i <= vs.len(),
                                vals == values_view(vs@),
                                forall|j: int| 0 <= j < vals.len() ==> #[trigger] valid_utf8(
                                    vals[j],
                                ),
                                out@ == spec_join_path(vals.take(i as int)),
                                valid_utf8(out@),
                            decreases vs.len() - i,
                        {
                            assert(vals[i as int] == vs@[i as int]@);
                            assert(vals.take(i + 1).drop_last() =~= vals.take(i as int));
                            let ghost before = out@;
                            if i > 0 {
                                out.push(47u8);
                                proof {
                                    lemma_slash_valid();
                                    vstd::utf8::valid_utf8_concat(before, seq![47u8]);
                                    assert(out@ =~= before + seq![47u8]);
                                }
                            }
                            let ghost mid = out@;
                            super::opt::wire::append_slice(&mut out, vs[i].0.as_slice());
                            proof {
                                vstd::utf8::valid_utf8_concat(mid, vals[i as int]);
                                if i == 0 {
                                    assert(out@ =~= vals.take(1)[0]);
                                } else {
                                    assert(out@ =~= before + seq![47u8] + vals[i as int]);
                                }
                            }
                            i = i + 1;
                        }
                        assert(vals.take(i as int) =~= vals);
                    },
                    None => {
                        assert(out@ =~= spec_join_path(vals));
                    },
                }
                match string_from_utf8(out) {
                    Ok(s) => Ok(s),
                    Err(_) => {
                        assert(false);
                        Ok(String::new())
                    },
                }
            },
        }
    }

    /// Insert a new value for the Uri-Query option, alongside any existing values.
    pub fn add_query(&mut self, query: &str) -> (r: Result<(), SetOptionError>)
        requires
            old(self).opts.wf(),
        ensures
            r is Ok,
            final(self).opts.wf(),
            same_but_opts(final(self)@, old(self)@),
            opts_updated(
                final(self).opts@,
                old(self).opts@,
                repeat::QUERY,
                Some(spec_values(old(self).opts@, repeat::QUERY).push(query.spec_bytes())),
            ),
    {
        self.add_bytes(repeat::QUERY, query.as_bytes())
    }

    /// Get all query parameters for this request
    pub fn query(&self) -> (r: Result<Vec<&str>, core::str::Utf8Error>)
        ensures
            strs_result(spec_values(self.opts@, repeat::QUERY), r),
    {
        self.get_strs(OptNumber(repeat::QUERY))
    }

    /// Update the value for the Content-Format option, discarding any existing values.
    pub fn set_content_format(&mut self, format: ContentFormat) -> (r: Result<(), SetOptionError>)
        requires
            old(self).opts.wf(),
        ensures
            r is Ok,
            final(self).opts.wf(),
            same_but_opts(final(self)@, old(self)@),
            opts_updated(
                final(self).opts@,
                old(self).opts@,
                no_repeat::CONTENT_FORMAT,
                Some(seq![spec_be_bytes(spec_content_format_num(format) as nat, 2)]),
            ),
            spec_first_uint(final(self).opts@, no_repeat::CONTENT_FORMAT, 2) == Some(
                spec_content_format_num(format) as nat,
            ),
    {
        proof {
            lemma_pow256_values();
        }
        self.set_uint(no_repeat::CONTENT_FORMAT, format.num() as u64, 2)
    }

    /// Get the value for the Content-Format option
    pub fn content_format(&self) -> (r: Option<ContentFormat>)
        ensures
            r == (match spec_first_uint(self.opts@, no_repeat::CONTENT_FORMAT, 2) {
                Some(x) => Some(spec_content_format_of(x as u16)),
                None => None::<ContentFormat>,
            }),
    {
        match self.get_u16(OptNumber(no_repeat::CONTENT_FORMAT)) {
            Some(n) => Some(ContentFormat::from(n)),
            None => None,
        }
    }

    /// Set the value for the Observe option, discarding any existing values.
    pub fn set_observe(&mut self, a: Action) -> (r: Result<(), SetOptionError>)
        requires
            old(self).opts.wf(),
        ensures
            r is Ok,
            final(self).opts.wf(),
            same_but_opts(final(self)@, old(self)@),
            opts_updated(
                final(self).opts@,
                old(self).opts@,
                no_repeat::OBSERVE,
                Some(seq![seq![spec_action_byte(a)]]),
            ),
    {
        let mut b: Vec<u8> = Vec::new();
        b.push(u8::from(a));
        self.set_bytes(no_repeat::OBSERVE, b)
    }

    /// Get the value for the Observe option
    pub fn observe(&self) -> (r: Option<Action>)
        ensures
            r == (match spec_first_uint(self.opts@, no_repeat::OBSERVE, 1) {
                Some(x) => spec_action_of(x as u8),
                None => None::<Action>,
            }),
    {
        match self.get_u8(OptNumber(no_repeat::OBSERVE)) {
            Some(n) => Action::from_byte(n),
            None => None,
        }
    }

    /// Update the value for the Accept option, discarding any existing values.
    pub fn set_accept(&mut self, format: ContentFormat) -> (r: Result<(), SetOptionError>)
        requires
            old(self).opts.wf(),
        ensures
            r is Ok,
            final(self).opts.wf(),
            same_but_opts(final(self)@, old(self)@),
            opts_updated(
                final(self).opts@,
                old(self).opts@,
                no_repeat::ACCEPT,
                Some(seq![spec_be_bytes(spec_content_format_num(format) as nat, 2)]),
            ),
            spec_first_uint(final(self).opts@, no_repeat::ACCEPT, 2) == Some(
                spec_content_format_num(format) as nat,
            ),
    {
        proof {
            lemma_pow256_values();
        }
        self.set_uint(no_repeat::ACCEPT, format.num() as u64, 2)
    }

    /// Get the value for the Accept option
    pub fn accept(&self) -> (r: Option<ContentFormat>)
        ensures
            r == (match spec_first_uint(self.opts@, no_repeat::ACCEPT, 2) {
                Some(x) => Some(spec_content_format_of(x as u16)),
                None => None::<ContentFormat>,
            }),
    {
        match self.get_u16(OptNumber(no_repeat::ACCEPT)) {
            Some(n) => Some(ContentFormat::from(n)),
            None => None,
        }
    }

    /// Update the value for the Size1 option, discarding any existing values.
    pub fn set_size1(&mut self, size_bytes: u64) -> (r: Result<(), SetOptionError>)
        requires
            old(self).opts.wf(),
        ensures
            r is Ok,
            final(self).opts.wf(),
            same_but_opts(final(self)@, old(self)@),
            opts_updated(
                final(self).opts@,
                old(self).opts@,
                no_repeat::SIZE1,
                Some(seq![spec_be_bytes(size_bytes as nat, 8)]),
            ),
            spec_first_uint(final(self).opts@, no_repeat::SIZE1, 8) == Some(size_bytes as nat),
    {
        proof {
            lemma_pow256_values();
        }
        self.set_uint(no_repeat::SIZE1, size_bytes, 8)
    }

    /// Get the value for the Size1 option
    pub fn size1(&self) -> (r: Option<u64>)
        ensures
            r == (match spec_first_uint(self.opts@, no_repeat::SIZE1, 8) {
                Some(x) => Some(x as u64),
                None => None::<u64>,
            }),
    {
        self.get_u64(OptNumber(no_repeat::SIZE1))
    }

    /// Update the value for the Size2 option, discarding any existing values.
    pub fn set_size2(&mut self, size_bytes: u64) -> (r: Result<(), SetOptionError>)
        requires
            old(self).opts.wf(),
        ensures
            r is Ok,
            final(self).opts.wf(),
            same_but_opts(final(self)@, old(self)@),
            opts_updated(
                final(self).opts@,
                old(self).opts@,
                no_repeat::SIZE2,
                Some(seq![spec_be_bytes(size_bytes as nat, 8)]),
            ),
            spec_first_uint(final(self).opts@, no_repeat::SIZE2, 8) == Some(size_bytes as nat),
    {
        proof {
            lemma_pow256_values();
        }
        self.set_uint(no_repeat::SIZE2, size_bytes, 8)
    }

    /// Get the value for the Size2 option
    pub fn size2(&self) -> (r: Option<u64>)
        ensures
            r == (match spec_first_uint(self.opts@, no_repeat::SIZE2, 8) {
                Some(x) => Some(x as u64),
                None => None::<u64>,
            }),
    {
        self.get_u64(OptNumber(no_repeat::SIZE2))
    }

    /// Discard all values for If-Match and replace them with an empty value:
    /// the request should only be processed if the resource exists.
    pub fn set_if_exists(&mut self) -> (r: Result<(), SetOptionError>)
        requires
            old(self).opts.wf(),
        ensures
            r is Ok,
            final(self).opts.wf(),
            same_but_opts(final(self)@, old(self)@),
            opts_updated(
                final(self).opts@,
                old(self).opts@,
                repeat::IF_MATCH,
                Some(seq![Seq::<u8>::empty()]),
            ),
    {
        let b: Vec<u8> = Vec::new();
        assert(b@ =~= Seq::<u8>::empty());
        self.set_bytes(repeat::IF_MATCH, b)
    }

    /// Whether an empty If-Match value (see [`Message::set_if_exists`]) is present
    pub fn if_exists_flag_enabled(&self) -> (r: bool)
        ensures
            r == exists|i: int|
                0 <= i < spec_values(self.opts@, repeat::IF_MATCH).len()
                    && #[trigger] spec_values(self.opts@, repeat::IF_MATCH)[i].len() == 0,
    {
        match self.opts.get(OptNumber(repeat::IF_MATCH)) {
            Some(vs) => {
                let ghost vv = values_view(vs@);
                let mut i: usize = 0;
                while i < vs.len()
                    invariant
                        0 <= i <= vs.len(),
                        vv == values_view(vs@),
                        vv == spec_values(self.opts@, repeat::IF_MATCH),
                        forall|j: int| 0 <= j < i ==> #[trigger] vv[j].len() != 0,
                    decreases vs.len() - i,
                {
                    assert(vv[i as int] == vs@[i as int]@);
                    if vs[i].0.len() == 0 {
                        return true;
                    }
                    i = i + 1;
                }
                false
            },
            None => false,
        }
    }

    /// Enable the If-None-Match flag: the request should only be processed
    /// if the resource does not exist.
    pub fn set_if_not_exists(&mut self) -> (r: Result<(), SetOptionError>)
        requires
            old(self).opts.wf(),
        ensures
            r is Ok,
            final(self).opts.wf(),
            same_but_opts(final(self)@, old(self)@),
            opts_updated(
                final(self).opts@,
                old(self).opts@,
                no_repeat::IF_NONE_MATCH,
                Some(seq![Seq::<u8>::empty()]),
            ),
    {
        let b: Vec<u8> = Vec::new();
        assert(b@ =~= Seq::<u8>::empty());
        self.set_bytes(no_repeat::IF_NONE_MATCH, b)
    }

    /// Whether the If-None-Match option has a value
    pub fn if_not_exists_flag_enabled(&self) -> (r: bool)
        ensures
            r == spec_first(self.opts@, no_repeat::IF_NONE_MATCH) is Some,
    {
        match self.get_first(OptNumber(no_repeat::IF_NONE_MATCH)) {
            Some(_) => true,
            None => false,
        }
    }

    /// Update the value for the Max-Age option, discarding any existing values.
    pub fn set_max_age(&mut self, max_age_seconds: u32) -> (r: Result<(), SetOptionError>)
        requires
            old(self).opts.wf(),
        ensures
            r is Ok,
            final(self).opts.wf(),
            same_but_opts(final(self)@, old(self)@),
            opts_updated(
                final(self).opts@,
                old(self).opts@,
                no_repeat::MAX_AGE,
                Some(seq![spec_be_bytes(max_age_seconds as nat, 4)]),
            ),
            spec_first_uint(final(self).opts@, no_repeat::MAX_AGE, 4) == Some(
                max_age_seconds as nat,
            ),
    {
        proof {
            lemma_pow256_values();
        }
        self.set_uint(no_repeat::MAX_AGE, max_age_seconds as u64, 4)
    }

    /// Get the value for the Max-Age option, in seconds
    pub fn max_age_seconds(&self) -> (r: Option<u32>)
        ensures
            r == (match spec_first_uint(self.opts@, no_repeat::MAX_AGE, 4) {
                Some(x) => Some(x as u32),
                None => None::<u32>,
            }),
    {
        self.get_u32(OptNumber(no_repeat::MAX_AGE))
    }

    /// Update the value for the Proxy-Uri option, discarding any existing values.
    pub fn set_proxy_uri(&mut self, uri: &str) -> (r: Result<(), SetOptionError>)
        requires
            old(self).opts.wf(),
        ensures
            r is Ok,
            final(self).opts.wf(),
            same_but_opts(final(self)@, old(self)@),
            opts_updated(
                final(self).opts@,
                old(self).opts@,
                no_repeat::PROXY_URI,
                Some(seq![uri.spec_bytes()]),
            ),
    {
        let bs = uri.as_bytes();
        let b = copy_range(bs, 0, bs.len());
        assert(b@ =~= uri.spec_bytes());
        self.set_bytes(no_repeat::PROXY_URI, b)
    }

    /// Get the value for the Proxy-Uri option
    pub fn proxy_uri(&self) -> (r: Result<Option<&str>, core::str::Utf8Error>)
        ensures
            str_result(spec_first(self.opts@, no_repeat::PROXY_URI), r),
    {
        self.get_str(OptNumber(no_repeat::PROXY_URI))
    }

    /// Update the value for the Proxy-Scheme option, discarding any existing values.
    pub fn set_proxy_scheme(&mut self, scheme: &str) -> (r: Result<(), SetOptionError>)
        requires
            old(self).opts.wf(),
        ensures
            r is Ok,
            final(self).opts.wf(),
            same_but_opts(final(self)@, old(self)@),
            opts_updated(
                final(self).opts@,
                old(self).opts@,
                no_repeat::PROXY_SCHEME,
                Some(seq![scheme.spec_bytes()]),
            ),
    {
        let bs = scheme.as_bytes();
        let b = copy_range(bs, 0, bs.len());
        assert(b@ =~= scheme.spec_bytes());
        self.set_bytes(no_repeat::PROXY_SCHEME, b)
    }

    /// Get the value for the Proxy-Scheme option
    pub fn proxy_scheme(&self) -> (r: Result<Option<&str>, core::str::Utf8Error>)
        ensures
            str_result(spec_first(self.opts@, no_repeat::PROXY_SCHEME), r),
    {
        self.get_str(OptNumber(no_repeat::PROXY_SCHEME))
    }

    /// Insert a new value for the If-Match option after the non-empty values
    /// it already has (an empty value, set by [`Message::set_if_exists`], is dropped).
    pub fn add_if_match(&mut self, tag: &[u8]) -> (r: Result<(), SetOptionError>)
        requires
            old(self).opts.wf(),
        ensures
            r is Ok,
            final(self).opts.wf(),
            same_but_opts(final(self)@, old(self)@),
            opts_updated(
                final(self).opts@,
                old(self).opts@,
                repeat::IF_MATCH,
                Some(spec_nonempty_values(spec_values(old(self).opts@, repeat::IF_MATCH)).push(
                    tag@,
                )),
            ),
    {
        let ghost s0 = self.opts@;
        let ghost base = spec_values(s0, repeat::IF_MATCH);
        let others = self.remove(OptNumber(repeat::IF_MATCH));
        let ghost s1 = self.opts@;
        match others {
            Some(vs) => {
                let ghost vv = values_view(vs@);
                assert(vv == base);
                let mut i: usize = 0;
                assert(spec_nonempty_values(vv.take(0)) =~= Seq::<Seq<u8>>::empty());
                while i < vs.len()
                    invariant
                        0 <= i <= vs.len(),
                        vv == values_view(vs@),
                        self.opts.wf(),
                        same_but_opts(self@, old(self)@),
                        spec_values(self.opts@, repeat::IF_MATCH) == spec_nonempty_values(
                            vv.take(i as int),
                        ),
                        spec_get(self.opts@, repeat::IF_MATCH) is None ==> spec_nonempty_values(
                            vv.take(i as int),
                        ).len() == 0,
                        forall|j: u32| j != repeat::IF_MATCH ==> #[trigger] spec_get(self.opts@, j)
                            == spec_get(s0, j),
                    decreases vs.len() - i,
                {
                    let ghost before = self.opts@;
                    assert(vv.take(i + 1).drop_last() =~= vv.take(i as int));
                    assert(vv[i as int] == vs@[i as int]@);
                    if vs[i].0.len() > 0 {
                        self.add_bytes(repeat::IF_MATCH, vs[i].0.as_slice());
                        assert(spec_nonempty_values(vv.take(i + 1)) =~= spec_nonempty_values(
                            vv.take(i as int),
                        ).push(vv[i as int]));
                    } else {
                        assert(spec_nonempty_values(vv.take(i + 1)) =~= spec_nonempty_values(
                            vv.take(i as int),
                        ));
                    }
                    assert forall|j: u32| j != repeat::IF_MATCH implies #[trigger] spec_get(
                        self.opts@,
                        j,
                    ) == spec_get(s0, j) by {
                        assert(spec_get(self.opts@, j) == spec_get(before, j));
                    }
                    i = i + 1;
                }
                assert(vv.take(i as int) =~= vv);
            },
            None => {
                assert(base =~= Seq::<Seq<u8>>::empty());
                assert(spec_nonempty_values(base) =~= Seq::<Seq<u8>>::empty());
            },
        }
        let ghost s2 = self.opts@;
        self.add_bytes(repeat::IF_MATCH, tag);
        proof {
            assert forall|j: u32| #[trigger]
                spec_get(self.opts@, j) == if j == repeat::IF_MATCH {
                    Some(spec_nonempty_values(base).push(tag@))
                } else {
                    spec_get(s0, j)
                } by {
                if j != repeat::IF_MATCH {
                    assert(spec_get(self.opts@, j) == spec_get(s2, j));
                }
            }
        }
        Ok(())
    }

    /// Get all values for the If-Match option
    pub fn if_match(&self) -> (r: Option<&Vec<OptValue>>)
        ensures
            match r {
                Some(vs) => spec_get(self.opts@, repeat::IF_MATCH) == Some(values_view(vs@)),
                None => spec_get(self.opts@, repeat::IF_MATCH) is None,
            },
    {
        self.get(OptNumber(repeat::IF_MATCH))
    }

    /// Insert a new value for the Location-Path option, alongside any existing values.
    pub fn add_location_path(&mut self, path: &str) -> (r: Result<(), SetOptionError>)
        requires
            old(self).opts.wf(),
        ensures
            r is Ok,
            final(self).opts.wf(),
            same_but_opts(final(self)@, old(self)@),
            opts_updated(
                final(self).opts@,
                old(self).opts@,
                repeat::LOCATION_PATH,
                Some(spec_values(old(self).opts@, repeat::LOCATION_PATH).push(path.spec_bytes())),
            ),
    {
        self.add_bytes(repeat::LOCATION_PATH, path.as_bytes())
    }

    /// Get all values for the Location-Path option
    pub fn location_path(&self) -> (r: Result<Vec<&str>, core::str::Utf8Error>)
        ensures
            strs_result(spec_values(self.opts@, repeat::LOCATION_PATH), r),
    {
        self.get_strs(OptNumber(repeat::LOCATION_PATH))
    }

    /// Insert a new value for the Location-Query option, alongside any existing values.
    pub fn add_location_query(&mut self, query: &str) -> (r: Result<(), SetOptionError>)
        requires
            old(self).opts.wf(),
        ensures
            r is Ok,
            final(self).opts.wf(),
            same_but_opts(final(self)@, old(self)@),
            opts_updated(
                final(self).opts@,
                old(self).opts@,
                repeat::LOCATION_QUERY,
                Some(spec_values(old(self).opts@, repeat::LOCATION_QUERY).push(query.spec_bytes())),
            ),
    {
        self.add_bytes(repeat::LOCATION_QUERY, query.as_bytes())
    }

    /// Get all values for the Location-Query option
    pub fn location_query(&self) -> (r: Result<Vec<&str>, core::str::Utf8Error>)
        ensures
            strs_result(spec_values(self.opts@, repeat::LOCATION_QUERY), r),
    {
        self.get_strs(OptNumber(repeat::LOCATION_QUERY))
    }

    /// Insert a new value for the ETag option, alongside any existing values.
    pub fn add_etag(&mut self, tag: &[u8]) -> (r: Result<(), SetOptionError>)
        requires
            old(self).opts.wf(),
        ensures
            r is Ok,
            final(self).opts.wf(),
            same_but_opts(final(self)@, old(self)@),
            opts_updated(
                final(self).opts@,
                old(self).opts@,
                repeat::ETAG,
                Some(spec_values(old(self).opts@, repeat::ETAG).push(tag@)),
            ),
    {
        self.add_bytes(repeat::ETAG, tag)
    }

    /// Get all values for the ETag option
    pub fn etags(&self) -> (r: Option<&Vec<OptValue>>)
        ensures
            match r {
                Some(vs) => spec_get(self.opts@, repeat::ETAG) == Some(values_view(vs@)),
                None => spec_get(self.opts@, repeat::ETAG) is None,
            },
    {
        self.get(OptNumber(repeat::ETAG))
    }
}

/// A single `/` is valid UTF-8.
proof fn lemma_slash_valid()
    ensures
        valid_utf8(seq![47u8]),
{
    let s = seq![47u8];
    assert(vstd::utf8::pop_first_scalar(s) =~= Seq::<u8>::empty());
    reveal_with_fuel(valid_utf8, 2);
}

} // verus!
