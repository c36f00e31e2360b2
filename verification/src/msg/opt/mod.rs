use vstd::prelude::*;

pub mod known;
pub mod wire;

verus! {

/// The "Option Delta": the difference between this option's number
/// and the previous option's number.
#[derive(Copy, Clone, Hash, PartialEq, Eq, PartialOrd, Ord, Structural, Debug, Default)]
pub struct OptDelta(pub u16);

/// The number of an option, identifying which option is set
/// (e.g. Content-Format has the number 12)
#[derive(Copy, Clone, Hash, PartialEq, Eq, PartialOrd, Ord, Structural, Debug, Default)]
pub struct OptNumber(pub u32);

/// Whether an option may be ignored by a server
#[derive(Clone, Copy, Debug, PartialEq, Eq, PartialOrd, Ord, Structural)]
pub enum OptionMustBeProcessed {
    /// The option is "critical": a response that ignores it will be rejected.
    Yes,
    /// The option is "elective": a response that ignores it will be processed anyway.
    No,
}

/// Whether an option may be forwarded blindly by a proxy that does not understand it
#[derive(Clone, Copy, Debug, PartialEq, Eq, PartialOrd, Ord, Structural)]
pub enum WhenOptionUnsupportedByProxy {
    /// "UnSafe" to forward: must be understood by proxies
    Error,
    /// "SafeToForward": may be forwarded blindly
    Forward,
}

/// Whether different values of an option unknown to a proxy yield its cached response
#[derive(Clone, Copy, Debug, PartialEq, Eq, PartialOrd, Ord, Structural)]
pub enum WhenOptionChanges {
    /// The option is part of the cache key
    ResponseChanges,
    /// The option is "NoCacheKey"
    ResponseDoesNotChange,
}

/// An option is critical when the lowest bit of its number is set.
pub open spec fn spec_is_critical(n: u32) -> bool {
    n % 2 == 1
}

/// An option is unsafe to forward when the second-lowest bit of its number is set.
pub open spec fn spec_is_unsafe(n: u32) -> bool {
    (n / 2) % 2 == 1
}

/// An option is "NoCacheKey" when its number masked with `0x1E` is `0x1C`
/// (RFC 7252 §5.4.6): bits 2 through 4 set and the unsafe bit clear.
pub open spec fn spec_is_no_cache_key(n: u32) -> bool {
    (n / 2) % 16 == 14
}

impl OptNumber {
    /// Whether or not this option may be ignored by a server
    pub fn must_be_processed(&self) -> (r: OptionMustBeProcessed)
        ensures
            r == (if spec_is_critical(self.0) {
                OptionMustBeProcessed::Yes
            } else {
                OptionMustBeProcessed::No
            }),
    {
        let n = self.0;
        let bit = n & 0b1;
        assert(bit == n % 2) by (bit_vector)
            requires
                bit == n & 0b1,
        ;
        if bit == 1 {
            OptionMustBeProcessed::Yes
        } else {
            OptionMustBeProcessed::No
        }
    }

    /// Whether or not this option may be forwarded blindly by
    /// a proxy that does not support processing it
    pub fn when_unsupported_by_proxy(&self) -> (r: WhenOptionUnsupportedByProxy)
        ensures
            r == (if spec_is_unsafe(self.0) {
                WhenOptionUnsupportedByProxy::Error
            } else {
                WhenOptionUnsupportedByProxy::Forward
            }),
    {
        let n = self.0;
        let bit = (n & 0b10) >> 1;
        assert(bit == (n / 2) % 2) by (bit_vector)
            requires
                bit == (n & 0b10) >> 1,
        ;
        if bit == 1 {
            WhenOptionUnsupportedByProxy::Error
        } else {
            WhenOptionUnsupportedByProxy::Forward
        }
    }

    /// Whether or not different values for this option should
    /// yield proxies' cached response
    pub fn when_option_changes(&self) -> (r: WhenOptionChanges)
        ensures
            r == (if spec_is_no_cache_key(self.0) {
                WhenOptionChanges::ResponseDoesNotChange
            } else {
                WhenOptionChanges::ResponseChanges
            }),
    {
        let n = self.0;
        let bits = n & 0x1E;
        assert(bits == ((n / 2) % 16) * 2) by (bit_vector)
            requires
                bits == n & 0x1E,
        ;
        if bits == 0x1C {
            WhenOptionChanges::ResponseDoesNotChange
        } else {
            WhenOptionChanges::ResponseChanges
        }
    }

    /// Whether this option should be included in a message's cache key:
    /// it must not be "NoCacheKey", and it must be neither Block1 nor Block2.
    pub fn include_in_cache_key(&self) -> (r: bool)
        ensures
            r == (!spec_is_no_cache_key(self.0) && self.0 != known::no_repeat::BLOCK1
                && self.0 != known::no_repeat::BLOCK2),
    {
        let changes = self.when_option_changes();
        match changes {
            WhenOptionChanges::ResponseChanges => self.0 != known::no_repeat::BLOCK1 && self.0
                != known::no_repeat::BLOCK2,
            WhenOptionChanges::ResponseDoesNotChange => false,
        }
    }
}

/// The value of an option: raw bytes
#[derive(Clone, Debug, PartialEq, Eq, PartialOrd, Ord, Hash, Default)]
pub struct OptValue(pub Vec<u8>);

impl View for OptValue {
    type V = Seq<u8>;

    open spec fn view(&self) -> Seq<u8> {
        self.0@
    }
}

impl OptValue {
    /// The bytes of the value
    pub fn as_bytes(&self) -> (r: &[u8])
        ensures
            r@ == self@,
    {
        self.0.as_slice()
    }

    /// A copy of this value
    pub fn copied(&self) -> (r: OptValue)
        ensures
            r@ == self@,
    {
        OptValue(self.0.clone())
    }
}

/// A single option as it stands on the wire: a delta from the previous
/// option's number, and a value.
#[derive(Clone, Debug, PartialEq, Eq, PartialOrd, Ord, Default)]
pub struct Opt {
    /// See [`OptDelta`]
    pub delta: OptDelta,
    /// See [`OptValue`]
    pub value: OptValue,
}

/// The byte views of a sequence of option values.
pub open spec fn values_view(vs: Seq<OptValue>) -> Seq<Seq<u8>> {
    vs.map_values(|v: OptValue| v@)
}

/// An option number with its values, as plain sequences.
pub open spec fn entry_view(e: (OptNumber, Vec<OptValue>)) -> (u32, Seq<Seq<u8>>) {
    (e.0.0, values_view(e.1@))
}

/// The options of a message: each number that is set, with its values,
/// kept in ascending order of number.
#[derive(Clone, Debug, PartialEq, Eq, Hash, Default)]
pub struct OptionMap(pub Vec<(OptNumber, Vec<OptValue>)>);

impl View for OptionMap {
    type V = Seq<(u32, Seq<Seq<u8>>)>;

    open spec fn view(&self) -> Seq<(u32, Seq<Seq<u8>>)> {
        self.0@.map_values(|e: (OptNumber, Vec<OptValue>)| entry_view(e))
    }
}

/// Whether two lists of option values hold the same bytes
fn values_eq(a: &Vec<OptValue>, b: &Vec<OptValue>) -> (r: bool)
    ensures
        r == (values_view(a@) == values_view(b@)),
{
    if a.len() != b.len() {
        assert(values_view(a@).len() != values_view(b@).len());
        return false;
    }
    let mut i: usize = 0;
    while i < a.len()
        invariant
            a.len() == b.len(),
            i <= a.len(),
            forall|k: int| 0 <= k < i ==> a@[k]@ == b@[k]@,
        decreases a.len() - i,
    {
        if !crate::utf8::bytes_eq(a[i].0.as_slice(), b[i].0.as_slice()) {
            assert(values_view(a@)[i as int] != values_view(b@)[i as int]);
            return false;
        }
        i = i + 1;
    }
    assert(values_view(a@) =~= values_view(b@));
    true
}

impl OptionMap {
    /// Whether two option maps hold the same options with the same values
    pub fn same_as(&self, other: &OptionMap) -> (r: bool)
        ensures
            r == (self@ == other@),
    {
        let a = &self.0;
        let b = &other.0;
        if a.len() != b.len() {
            assert(self@.len() != other@.len());
            return false;
        }
        let mut i: usize = 0;
        while i < a.len()
            invariant
                a.len() == b.len(),
                a == self.0,
                b == other.0,
                i <= a.len(),
                forall|k: int| 0 <= k < i ==> self@[k] == other@[k],
            decreases a.len() - i,
        {
            if a[i].0.0 != b[i].0.0 || !values_eq(&a[i].1, &b[i].1) {
                assert(self@[i as int] != other@[i as int]);
                return false;
            }
            i = i + 1;
        }
        assert(self@ =~= other@);
        true
    }
}

/// The numbers of the entries rise strictly.
pub open spec fn keys_sorted(s: Seq<(u32, Seq<Seq<u8>>)>) -> bool {
    forall|i: int, j: int| 0 <= i < j < s.len() ==> s[i].0 < s[j].0
}

/// The position of the first entry whose number is not below `k`.
pub open spec fn spec_find(s: Seq<(u32, Seq<Seq<u8>>)>, k: u32) -> int
    decreases s.len(),
{
    if s.len() == 0 || s[0].0 >= k {
        0
    } else {
        1 + spec_find(s.drop_first(), k)
    }
}

/// The values stored for number `k`, if any.
pub open spec fn spec_get(s: Seq<(u32, Seq<Seq<u8>>)>, k: u32) -> Option<Seq<Seq<u8>>> {
    let p = spec_find(s, k);
    if p < s.len() && s[p].0 == k {
        Some(s[p].1)
    } else {
        None
    }
}

/// The entries after storing `v` for number `k`, replacing what was there.
pub open spec fn spec_insert(s: Seq<(u32, Seq<Seq<u8>>)>, k: u32, v: Seq<Seq<u8>>) -> Seq<
    (u32, Seq<Seq<u8>>),
> {
    let p = spec_find(s, k);
    if p < s.len() && s[p].0 == k {
        s.update(p, (k, v))
    } else {
        s.insert(p, (k, v))
    }
}

/// The entries after storing `v` after the values already stored for `k`
/// (as its only value when `k` has none).
pub open spec fn spec_append(s: Seq<(u32, Seq<Seq<u8>>)>, k: u32, v: Seq<u8>) -> Seq<
    (u32, Seq<Seq<u8>>),
> {
    spec_insert(
        s,
        k,
        match spec_get(s, k) {
            Some(vs) => vs.push(v),
            None => seq![v],
        },
    )
}

/// The entries after dropping number `k`.
pub open spec fn spec_remove(s: Seq<(u32, Seq<Seq<u8>>)>, k: u32) -> Seq<(u32, Seq<Seq<u8>>)> {
    let p = spec_find(s, k);
    if p < s.len() && s[p].0 == k {
        s.remove(p)
    } else {
        s
    }
}

/// `spec_find` is a position, every entry before it has a smaller number
/// and the entry at it (if any) does not.
pub proof fn lemma_find_bounds(s: Seq<(u32, Seq<Seq<u8>>)>, k: u32)
    ensures
        0 <= spec_find(s, k) <= s.len(),
        forall|j: int| 0 <= j < spec_find(s, k) ==> s[j].0 < k,
        spec_find(s, k) < s.len() ==> s[spec_find(s, k)].0 >= k,
    decreases s.len(),
{
    if s.len() > 0 && s[0].0 < k {
        lemma_find_bounds(s.drop_first(), k);
        assert forall|j: int| 0 <= j < spec_find(s, k) implies s[j].0 < k by {
            if j > 0 {
                assert(s[j] == s.drop_first()[j - 1]);
            }
        }
    }
}

/// A position before which every number is smaller and at which none is, is `spec_find`.
pub proof fn lemma_find_unique(s: Seq<(u32, Seq<Seq<u8>>)>, k: u32, i: int)
    requires
        0 <= i <= s.len(),
        forall|j: int| 0 <= j < i ==> s[j].0 < k,
        i < s.len() ==> s[i].0 >= k,
    ensures
        spec_find(s, k) == i,
    decreases s.len(),
{
    if i > 0 {
        assert forall|j: int| 0 <= j < i - 1 implies s.drop_first()[j].0 < k by {
            assert(s.drop_first()[j] == s[j + 1]);
        }
        if i - 1 < s.drop_first().len() {
            assert(s.drop_first()[i - 1] == s[i]);
        }
        lemma_find_unique(s.drop_first(), k, i - 1);
    }
}

/// In sorted entries, a number is found exactly where it is stored.
pub proof fn lemma_get_sorted(s: Seq<(u32, Seq<Seq<u8>>)>, k: u32)
    requires
        keys_sorted(s),
    ensures
        spec_get(s, k) is Some <==> exists|i: int| 0 <= i < s.len() && s[i].0 == k,
        forall|i: int| 0 <= i < s.len() && s[i].0 == k ==> spec_get(s, k) == Some(s[i].1),
{
    lemma_find_bounds(s, k);
    let p = spec_find(s, k);
    assert forall|i: int| 0 <= i < s.len() && s[i].0 == k implies p == i by {
        if i < p {
        } else if i > p {
            assert(s[p].0 < s[i].0);
        }
    }
}

/// Storing a value keeps the entries sorted.
pub proof fn lemma_insert_sorted(s: Seq<(u32, Seq<Seq<u8>>)>, k: u32, v: Seq<Seq<u8>>)
    requires
        keys_sorted(s),
    ensures
        keys_sorted(spec_insert(s, k, v)),
        spec_insert(s, k, v).len() == (if spec_get(s, k) is Some {
            s.len()
        } else {
            s.len() + 1
        }),
{
    lemma_find_bounds(s, k);
    let p = spec_find(s, k);
    let r = spec_insert(s, k, v);
    if p < s.len() && s[p].0 == k {
        assert forall|i: int, j: int| 0 <= i < j < r.len() implies r[i].0 < r[j].0 by {
        }
    } else {
        assert forall|i: int, j: int| 0 <= i < j < r.len() implies r[i].0 < r[j].0 by {
            if j < p {
            } else if j == p {
            } else if i < p {
                assert(r[j] == s[j - 1]);
            } else if i == p {
                assert(r[j] == s[j - 1]);
                assert(s[p].0 >= k);
                if j - 1 > p {
                    assert(s[p].0 < s[j - 1].0);
                }
            } else {
                assert(r[j] == s[j - 1]);
                assert(r[i] == s[i - 1]);
            }
        }
    }
}

/// Dropping a number keeps the entries sorted.
pub proof fn lemma_remove_sorted(s: Seq<(u32, Seq<Seq<u8>>)>, k: u32)
    requires
        keys_sorted(s),
    ensures
        keys_sorted(spec_remove(s, k)),
{
    lemma_find_bounds(s, k);
    let p = spec_find(s, k);
    let r = spec_remove(s, k);
    if p < s.len() && s[p].0 == k {
        assert forall|i: int, j: int| 0 <= i < j < r.len() implies r[i].0 < r[j].0 by {
            if j < p {
            } else if i < p {
                assert(r[j] == s[j + 1]);
            } else {
                assert(r[j] == s[j + 1]);
                assert(r[i] == s[i + 1]);
            }
        }
    }
}

/// After storing `v` for `k`, reading `k` gives `v` and every other number
/// reads as before.
pub proof fn lemma_get_insert(s: Seq<(u32, Seq<Seq<u8>>)>, k: u32, v: Seq<Seq<u8>>, j: u32)
    requires
        keys_sorted(s),
    ensures
        spec_get(spec_insert(s, k, v), j) == if j == k {
            Some(v)
        } else {
            spec_get(s, j)
        },
{
    lemma_insert_sorted(s, k, v);
    lemma_find_bounds(s, k);
    let r = spec_insert(s, k, v);
    let p = spec_find(s, k);
    lemma_get_sorted(s, j);
    lemma_get_sorted(r, j);
    if p < s.len() && s[p].0 == k {
        assert(r[p] == (k, v));
        if j != k {
            assert forall|i: int| 0 <= i < r.len() && r[i].0 == j implies s[i].0 == j && r[i]
                == s[i] by {
            }
            assert forall|i: int| 0 <= i < s.len() && s[i].0 == j implies r[i].0 == j by {
            }
        }
    } else {
        assert(r[p] == (k, v));
        if j != k {
            assert forall|i: int| 0 <= i < s.len() && s[i].0 == j implies (i < p ==> r[i] == s[i])
                && (i >= p ==> r[i + 1] == s[i]) by {
            }
            assert forall|i: int| 0 <= i < r.len() && r[i].0 == j implies (i < p ==> s[i] == r[i])
                && (i > p ==> s[i - 1] == r[i]) by {
            }
        }
    }
}

/// After dropping `k`, reading `k` gives nothing and every other number
/// reads as before.
pub proof fn lemma_get_remove(s: Seq<(u32, Seq<Seq<u8>>)>, k: u32, j: u32)
    requires
        keys_sorted(s),
    ensures
        spec_get(spec_remove(s, k), j) == if j == k {
            None
        } else {
            spec_get(s, j)
        },
{
    lemma_remove_sorted(s, k);
    lemma_find_bounds(s, k);
    let r = spec_remove(s, k);
    let p = spec_find(s, k);
    lemma_get_sorted(s, j);
    lemma_get_sorted(r, j);
    if p < s.len() && s[p].0 == k {
        assert forall|i: int| 0 <= i < s.len() && s[i].0 == j && j != k implies (i < p ==> r[i]
            == s[i]) && (i > p ==> r[i - 1] == s[i]) by {
        }
        assert forall|i: int| 0 <= i < r.len() && r[i].0 == j implies (i < p ==> s[i] == r[i])
            && (i >= p ==> s[i + 1] == r[i]) by {
        }
        if j == k {
            assert forall|i: int| 0 <= i < r.len() implies r[i].0 != k by {
                if i < p {
                } else {
                    assert(s[i + 1].0 > s[p].0);
                }
            }
        }
    }
}

/// Appending a value for a number above every stored number adds an entry
/// with that value alone at the end.
pub proof fn lemma_append_last(s: Seq<(u32, Seq<Seq<u8>>)>, k: u32, v: Seq<u8>)
    requires
        forall|j: int| 0 <= j < s.len() ==> s[j].0 < k,
    ensures
        spec_append(s, k, v) == s.push((k, seq![v])),
{
    lemma_find_unique(s, k, s.len() as int);
    lemma_insert_last(s, k, seq![v]);
}

/// Storing a number above every stored number appends it.
pub proof fn lemma_insert_last(s: Seq<(u32, Seq<Seq<u8>>)>, k: u32, v: Seq<Seq<u8>>)
    requires
        forall|j: int| 0 <= j < s.len() ==> s[j].0 < k,
    ensures
        spec_insert(s, k, v) == s.push((k, v)),
{
    lemma_find_unique(s, k, s.len() as int);
    assert(s.insert(s.len() as int, (k, v)) =~= s.push((k, v)));
}

impl OptionMap {
    /// The numbers rise strictly, as they do in every map this library builds.
    pub open spec fn wf(&self) -> bool {
        keys_sorted(self@)
    }

    /// An empty option map
    pub fn new() -> (r: OptionMap)
        ensures
            r@ == Seq::<(u32, Seq<Seq<u8>>)>::empty(),
            r.wf(),
    {
        let r = OptionMap(Vec::new());
        assert(r@ =~= Seq::<(u32, Seq<Seq<u8>>)>::empty());
        r
    }

    /// Number of distinct option numbers set
    pub fn len(&self) -> (r: usize)
        ensures
            r == self@.len(),
    {
        self.0.len()
    }

    fn find(&self, n: u32) -> (p: usize)
        ensures
            p == spec_find(self@, n),
    {
        let mut i: usize = 0;
        while i < self.0.len() && self.0[i].0.0 < n
            invariant
                0 <= i <= self.0.len(),
                forall|j: int| 0 <= j < i ==> self@[j].0 < n,
            decreases self.0.len() - i,
        {
            i = i + 1;
        }
        proof {
            lemma_find_unique(self@, n, i as int);
        }
        i
    }

    /// The values for an option number, if it is set
    pub fn get(&self, n: OptNumber) -> (r: Option<&Vec<OptValue>>)
        ensures
            match r {
                Some(vs) => spec_get(self@, n.0) == Some(values_view(vs@)),
                None => spec_get(self@, n.0) is None,
            },
    {
        let p = self.find(n.0);
        if p < self.0.len() && self.0[p].0.0 == n.0 {
            Some(&self.0[p].1)
        } else {
            None
        }
    }

    /// Store values for an option number, replacing (and returning) any stored before
    pub fn insert(&mut self, n: OptNumber, vals: Vec<OptValue>) -> (r: Option<Vec<OptValue>>)
        requires
            old(self).wf(),
        ensures
            final(self).wf(),
            final(self)@ == spec_insert(old(self)@, n.0, values_view(vals@)),
            match r {
                Some(old_vals) => spec_get(old(self)@, n.0) == Some(values_view(old_vals@)),
                None => spec_get(old(self)@, n.0) is None,
            },
    {
        proof {
            lemma_insert_sorted(self@, n.0, values_view(vals@));
            lemma_find_bounds(self@, n.0);
        }
        let ghost vv = values_view(vals@);
        let p = self.find(n.0);
        if p < self.0.len() && self.0[p].0.0 == n.0 {
            let mut entry = (n, vals);
            let ghost old_self = self@;
            std::mem::swap(&mut self.0[p], &mut entry);
            assert(self@ =~= old_self.update(p as int, (n.0, vv)));
            Some(entry.1)
        } else {
            let ghost old_self = self@;
            self.0.insert(p, (n, vals));
            assert(self@ =~= old_self.insert(p as int, (n.0, vv)));
            None
        }
    }

    /// Drop an option number, returning its values if it was set
    pub fn remove(&mut self, n: OptNumber) -> (r: Option<Vec<OptValue>>)
        requires
            old(self).wf(),
        ensures
            final(self).wf(),
            final(self)@ == spec_remove(old(self)@, n.0),
            match r {
                Some(old_vals) => spec_get(old(self)@, n.0) == Some(values_view(old_vals@)),
                None => spec_get(old(self)@, n.0) is None,
            },
    {
        proof {
            lemma_remove_sorted(self@, n.0);
            lemma_find_bounds(self@, n.0);
        }
        let p = self.find(n.0);
        if p < self.0.len() && self.0[p].0.0 == n.0 {
            let ghost old_self = self@;
            let entry = self.0.remove(p);
            assert(self@ =~= old_self.remove(p as int));
            Some(entry.1)
        } else {
            None
        }
    }
}

/// A copy of a list of option values
pub fn copy_values(vs: &Vec<OptValue>) -> (r: Vec<OptValue>)
    ensures
        values_view(r@) == values_view(vs@),
{
    let mut out: Vec<OptValue> = Vec::new();
    let mut i: usize = 0;
    while i < vs.len()
        invariant
            i <= vs.len(),
            out@.len() == i,
            forall|k: int| 0 <= k < i ==> #[trigger] out@[k]@ == vs@[k]@,
        decreases vs.len() - i,
    {
        out.push(vs[i].copied());
        i = i + 1;
    }
    assert(values_view(out@) =~= values_view(vs@));
    out
}

impl OptionMap {
    /// Store `v` after the values already stored for `n`
    pub fn append(&mut self, n: OptNumber, v: OptValue)
        requires
            old(self).wf(),
        ensures
            final(self).wf(),
            final(self)@ == spec_append(old(self)@, n.0, v@),
    {
        let ghost s0 = self@;
        let mut vals = match self.get(n) {
            Some(vs) => copy_values(vs),
            None => Vec::new(),
        };
        let ghost vv = values_view(vals@);
        vals.push(v);
        assert(values_view(vals@) =~= vv.push(v@));
        proof {
            if spec_get(s0, n.0) is None {
                assert(vv =~= Seq::<Seq<u8>>::empty());
                assert(vv.push(v@) =~= seq![v@]);
            }
        }
        let _ = self.insert(n, vals);
    }

    /// A copy of this option map
    pub fn copied(&self) -> (r: OptionMap)
        ensures
            r@ == self@,
    {
        let mut out: Vec<(OptNumber, Vec<OptValue>)> = Vec::new();
        let mut i: usize = 0;
        while i < self.0.len()
            invariant
                i <= self.0.len(),
                out@.len() == i,
                forall|k: int| 0 <= k < i ==> #[trigger] entry_view(out@[k]) == entry_view(self.0@[k]),
            decreases self.0.len() - i,
        {
            let n = self.0[i].0;
            let vs = copy_values(&self.0[i].1);
            out.push((n, vs));
            i = i + 1;
        }
        let r = OptionMap(out);
        assert(r@ =~= self@);
        r
    }
}

} // verus!
