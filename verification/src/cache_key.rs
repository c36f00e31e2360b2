//! Keys that identify equivalent requests, for caching responses
use vstd::prelude::*;

use crate::msg::opt::known::no_repeat;
use crate::msg::opt::{spec_is_no_cache_key, values_view};
use crate::msg::token::{blake2b_64, blake2b_digest};
use crate::msg::uint::spec_be_uint;
use crate::msg::{Message, MessageView};

verus! {

/// The `k` little-endian bytes of `n`
pub open spec fn le_bytes(n: nat, k: nat) -> Seq<u8>
    decreases k,
{
    if k == 0 {
        Seq::empty()
    } else {
        seq![(n % 256) as u8] + le_bytes(n / 256, (k - 1) as nat)
    }
}

/// Whether an option takes part in the cache key: it is not marked NoCacheKey
/// and is not Block1 or Block2
pub open spec fn in_cache_key(n: u32) -> bool {
    !spec_is_no_cache_key(n) && n != no_repeat::BLOCK1 && n != no_repeat::BLOCK2
}

/// The bytes hashing a list of option values writes: for each value its
/// length (a `usize`, as a 64-bit little-endian target writes it) and then
/// its bytes
pub open spec fn values_input(vs: Seq<Seq<u8>>) -> Seq<u8>
    decreases vs.len(),
{
    if vs.len() == 0 {
        Seq::empty()
    } else {
        values_input(vs.drop_last()) + le_bytes(vs.last().len(), 8) + vs.last()
    }
}

/// The bytes hashing the options that take part in the cache key writes
pub open spec fn opts_input(s: Seq<(u32, Seq<Seq<u8>>)>) -> Seq<u8>
    decreases s.len(),
{
    if s.len() == 0 {
        Seq::empty()
    } else {
        opts_input(s.drop_last()) + if in_cache_key(s.last().0) {
            values_input(s.last().1)
        } else {
            Seq::empty()
        }
    }
}

/// The bytes a message adds to a cache key: its code (class, then detail),
/// then the values of its options that take part in the cache key
pub open spec fn cache_key_input(m: MessageView) -> Seq<u8> {
    seq![m.code.class, m.code.detail] + opts_input(m.opts)
}

fn push_le64(out: &mut Vec<u8>, n: u64)
    ensures
        final(out)@ == old(out)@ + le_bytes(n as nat, 8),
{
    let mut v = n;
    let mut i: usize = 0;
    while i < 8
        invariant
            i <= 8,
            old(out)@ + le_bytes(n as nat, 8) == out@ + le_bytes(v as nat, (8 - i) as nat),
        decreases 8 - i,
    {
        let ghost before = out@;
        out.push((v % 256) as u8);
        assert(le_bytes(v as nat, (8 - i) as nat) == seq![(v % 256) as u8] + le_bytes(
            (v / 256) as nat,
            (8 - i - 1) as nat,
        ));
        assert(before + le_bytes(v as nat, (8 - i) as nat) =~= out@ + le_bytes(
            (v / 256) as nat,
            (8 - i - 1) as nat,
        ));
        v = v / 256;
        i = i + 1;
    }
    assert(le_bytes(v as nat, 0) =~= Seq::<u8>::empty());
    assert(out@ + Seq::<u8>::empty() =~= out@);
}

fn push_all(out: &mut Vec<u8>, b: &[u8])
    ensures
        final(out)@ == old(out)@ + b@,
{
    let mut j: usize = 0;
    while j < b.len()
        invariant
            j <= b.len(),
            out@ == old(out)@ + b@.take(j as int),
        decreases b.len() - j,
    {
        out.push(b[j]);
        assert(out@ =~= old(out)@ + b@.take(j + 1));
        j = j + 1;
    }
    assert(b@.take(j as int) =~= b@);
}

/// The default cache key: a BLAKE2b hash of what messages add to it
#[derive(Debug, Clone, Default)]
pub struct DefaultCacheKey {
    fed: Vec<u8>,
}

impl DefaultCacheKey {
    /// The bytes hashed so far
    pub closed spec fn fed(&self) -> Seq<u8> {
        self.fed@
    }

    /// A key with nothing hashed yet
    pub fn new() -> (r: DefaultCacheKey)
        ensures
            r.fed() == Seq::<u8>::empty(),
    {
        DefaultCacheKey { fed: Vec::new() }
    }

    /// Add the parts of a message that identify equivalent requests: its code
    /// and the options that take part in the cache key
    pub fn add_cache_key(&mut self, msg: &Message)
        ensures
            final(self).fed() == old(self).fed() + cache_key_input(msg@),
    {
        self.fed.push(msg.code.class);
        self.fed.push(msg.code.detail);
        let ghost base = old(self).fed() + seq![msg.code.class, msg.code.detail];
        assert(self.fed@ =~= base);
        let opts = &msg.opts.0;
        let mut i: usize = 0;
        while i < opts.len()
            invariant
                i <= opts.len(),
                msg.opts@ == opts@.map_values(|e: (crate::msg::opt::OptNumber, Vec<crate::msg::opt::OptValue>)| crate::msg::opt::entry_view(e)),
                self.fed@ == base + opts_input(msg.opts@.take(i as int)),
            decreases opts.len() - i,
        {
            let ghost before = self.fed@;
            assert(msg.opts@.take(i + 1).drop_last() =~= msg.opts@.take(i as int));
            if opts[i].0.include_in_cache_key() {
                let vals = &opts[i].1;
                let mut j: usize = 0;
                while j < vals.len()
                    invariant
                        j <= vals.len(),
                        self.fed@ == before + values_input(values_view(vals@).take(j as int)),
                    decreases vals.len() - j,
                {
                    assert(values_view(vals@).take(j + 1).drop_last() =~= values_view(vals@).take(
                        j as int,
                    ));
                    let v = vals[j].0.as_slice();
                    push_le64(&mut self.fed, v.len() as u64);
                    push_all(&mut self.fed, v);
                    assert(self.fed@ =~= before + values_input(values_view(vals@).take(j + 1)));
                    j = j + 1;
                }
                assert(values_view(vals@).take(j as int) =~= values_view(vals@));
                assert(self.fed@ =~= base + opts_input(msg.opts@.take(i + 1)));
            } else {
                assert(self.fed@ =~= base + opts_input(msg.opts@.take(i + 1)));
            }
            i = i + 1;
        }
        assert(msg.opts@.take(i as int) =~= msg.opts@);
        assert(self.fed@ =~= old(self).fed() + cache_key_input(msg@));
    }

    /// Add a message and give the key: the BLAKE2b hash of everything added
    /// so far, read as a big-endian number
    pub fn cache_key(&mut self, msg: &Message) -> (r: u64)
        ensures
            final(self).fed() == old(self).fed() + cache_key_input(msg@),
            r == spec_be_uint(blake2b_64(final(self).fed())),
    {
        self.add_cache_key(msg);
        let d = blake2b_digest(self.fed.as_slice());
        crate::msg::uint::be_uint(&d)
    }
}

/// The code (the method of a request) is fed first, class then detail, so
/// messages with different codes feed different bytes: `GET /x` and
/// `POST /x` never share a cache key input.
pub proof fn lemma_cache_key_separates_codes(m1: MessageView, m2: MessageView)
    ensures
        cache_key_input(m1).len() >= 2,
        cache_key_input(m1)[0] == m1.code.class,
        cache_key_input(m1)[1] == m1.code.detail,
        m1.code != m2.code ==> cache_key_input(m1) != cache_key_input(m2),
{
    if m1.code != m2.code && cache_key_input(m1) == cache_key_input(m2) {
        assert(cache_key_input(m1)[0] == cache_key_input(m2)[0]);
        assert(cache_key_input(m1)[1] == cache_key_input(m2)[1]);
    }
}

/// Requests that differ only in message id, type, token or payload add the
/// same bytes to a cache key, so they get the same key.
pub proof fn lemma_cache_key_ignores_identity(m1: MessageView, m2: MessageView)
    requires
        m1.code == m2.code,
        m1.opts == m2.opts,
    ensures
        cache_key_input(m1) == cache_key_input(m2),
{
}

/// Options that do not take part in the cache key add nothing to it.
pub proof fn lemma_no_cache_key_options_ignored(s: Seq<(u32, Seq<Seq<u8>>)>, n: u32, vals: Seq<Seq<u8>>)
    requires
        !in_cache_key(n),
    ensures
        opts_input(s.push((n, vals))) == opts_input(s),
{
    assert(s.push((n, vals)).drop_last() =~= s);
    assert(opts_input(s) + Seq::<u8>::empty() =~= opts_input(s));
}

} // verus!
