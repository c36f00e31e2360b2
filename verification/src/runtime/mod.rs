//! The state of a CoAP runtime and the decisions it makes: which message ids
//! and tokens it has seen, which responses it holds, and which confirmable
//! messages it may have to send again. The caller owns the socket and the
//! clock; it hands the current time to each step.
use no_std_net::SocketAddr;
use rand::{Rng, SeedableRng};
use rand_chacha::ChaCha8Rng;
use vstd::prelude::*;

use crate::config::Config;
use crate::msg::code::spec_code_kind;
use crate::msg::{Code, CodeKind, Id, Message, Token, Type};
use crate::net::{same_addr, Addrd};
use crate::resp::Resp;
use crate::retry::{RetryState, RetryTimer, WouldBlock, YouShould};
use crate::time::{spec_not_before, tick_range, Instant};
use crate::utf8::bytes_eq;

pub mod client;
pub mod laws;
pub mod error;

pub use error::{Error, What, When};

verus! {

/// `rand_chacha::ChaCha8Rng`, carried as an opaque value
#[verifier::external_type_specification]
#[verifier::external_body]
pub struct ExChaCha8Rng(ChaCha8Rng);

/// `ChaCha8Rng::seed_from_u64(seed)`: a generator whose state is opaque here
#[verifier::external_body]
fn seeded_rng(seed: u64) -> (r: ChaCha8Rng) {
    ChaCha8Rng::seed_from_u64(seed)
}

/// `rand::Rng::gen_range(0..=255)` on the generator: the draw depends on the
/// generator's state, so only its range is stated
#[verifier::external_body]
fn draw_id(rng: &mut ChaCha8Rng) -> (r: u16)
    ensures
        r <= 255,
{
    rng.gen_range(0..=255)
}

/// DTLS mode
#[derive(Debug, PartialEq, Eq, PartialOrd, Ord, Clone, Copy, Structural)]
pub enum Secure {
    /// Opt in to DTLS, if the platform supports it
    IfSupported,
    /// Explicitly opt out of DTLS
    No,
}

/// A value stamped with the instant it was seen
#[derive(Debug, Clone, PartialEq)]
pub struct Stamped<T>(pub T, pub Instant);

impl<T> Stamped<T> {
    /// The value
    pub fn data(&self) -> (r: &T)
        ensures
            *r == self.0,
    {
        &self.0
    }

    /// The instant
    pub fn time(&self) -> (r: Instant)
        ensures
            r == self.1,
    {
        self.1
    }
}

/// Something that may be sent again, with its retry timer
#[derive(Debug, Clone)]
pub struct Retryable<T>(pub T, pub RetryTimer);

impl<T> Retryable<T> {
    /// The thing being retried
    pub fn unwrap(self) -> (r: T)
        ensures
            r == self.0,
    {
        self.0
    }
}

/// Milliseconds from `t` to `now` on the wrapping clock
pub open spec fn age(now: u64, t: u64) -> int {
    (now - t) % tick_range()
}

/// The entries of a history stamped less than `life` milliseconds before `now`
pub open spec fn fresh<V>(h: Seq<(V, u64)>, now: u64, life: int) -> Seq<(V, u64)>
    decreases h.len(),
{
    if h.len() == 0 {
        h
    } else {
        let rest = fresh(h.drop_last(), now, life);
        if age(now, h.last().1) < life {
            rest.push(h.last())
        } else {
            rest
        }
    }
}

/// The fresh token entries, without any for `tok`
pub open spec fn fresh_other<V>(h: Seq<(V, u64)>, now: u64, life: int, tok: V) -> Seq<(V, u64)>
    decreases h.len(),
{
    if h.len() == 0 {
        h
    } else {
        let rest = fresh_other(h.drop_last(), now, life, tok);
        if h.last().0 != tok && age(now, h.last().1) < life {
            rest.push(h.last())
        } else {
            rest
        }
    }
}

/// The largest id of a history
pub open spec fn max_id(h: Seq<(u16, u64)>) -> Option<u16>
    decreases h.len(),
{
    if h.len() == 0 {
        None
    } else {
        match max_id(h.drop_last()) {
            Some(m) => Some(if m > h.last().0 {
                m
            } else {
                h.last().0
            }),
            None => Some(h.last().0),
        }
    }
}

/// Position of the first entry for `a`, or the length when there is none
pub open spec fn addr_index<V>(s: Seq<(SocketAddr, V)>, a: SocketAddr) -> int
    decreases s.len(),
{
    if s.len() == 0 {
        0
    } else if s[0].0 == a {
        0
    } else {
        1 + addr_index(s.drop_first(), a)
    }
}

/// The history kept for `a`, empty when there is none
pub open spec fn history_of<V>(s: Seq<(SocketAddr, Seq<V>)>, a: SocketAddr) -> Seq<V> {
    let i = addr_index(s, a);
    if i < s.len() {
        s[i].1
    } else {
        Seq::empty()
    }
}

/// The histories with `a`'s replaced by `h` (added at the end when new)
pub open spec fn with_history<V>(s: Seq<(SocketAddr, Seq<V>)>, a: SocketAddr, h: Seq<V>) -> Seq<
    (SocketAddr, Seq<V>),
> {
    let i = addr_index(s, a);
    if i < s.len() {
        s.update(i, (a, h))
    } else {
        s.push((a, h))
    }
}

/// Every stamp of `h` is at or before `now`
pub open spec fn stamps_before<V>(h: Seq<(V, u64)>, now: u64) -> bool {
    forall|i: int| 0 <= i < h.len() ==> spec_not_before(now, #[trigger] h[i].1)
}

proof fn lemma_addr_index<V>(s: Seq<(SocketAddr, V)>, a: SocketAddr)
    ensures
        0 <= addr_index(s, a) <= s.len(),
        addr_index(s, a) < s.len() ==> s[addr_index(s, a)].0 == a,
        forall|j: int| 0 <= j < addr_index(s, a) ==> s[j].0 != a,
    decreases s.len(),
{
    if s.len() > 0 && s[0].0 != a {
        lemma_addr_index(s.drop_first(), a);
        assert forall|j: int| 0 <= j < addr_index(s, a) implies s[j].0 != a by {
            if j > 0 {
                assert(s[j] == s.drop_first()[j - 1]);
            }
        }
    }
}

proof fn lemma_addr_index_keys<V, W>(s: Seq<(SocketAddr, V)>, t: Seq<(SocketAddr, W)>, a: SocketAddr)
    requires
        s.len() == t.len(),
        forall|i: int| 0 <= i < s.len() ==> #[trigger] s[i].0 == t[i].0,
    ensures
        addr_index(s, a) == addr_index(t, a),
    decreases s.len(),
{
    if s.len() > 0 {
        assert(s[0].0 == t[0].0);
        lemma_addr_index_keys(s.drop_first(), t.drop_first(), a);
    }
}

fn find_addr<V>(s: &Vec<(SocketAddr, V)>, a: &SocketAddr) -> (r: usize)
    ensures
        r == addr_index(s@, *a),
{
    proof {
        lemma_addr_index(s@, *a);
    }
    let mut i: usize = 0;
    while i < s.len()
        invariant
            i <= s.len(),
            forall|j: int| 0 <= j < i ==> s@[j].0 != *a,
            0 <= addr_index(s@, *a) <= s@.len(),
            addr_index(s@, *a) < s@.len() ==> s@[addr_index(s@, *a)].0 == *a,
            forall|j: int| 0 <= j < addr_index(s@, *a) ==> s@[j].0 != *a,
        decreases s.len() - i,
    {
        if same_addr(&s[i].0, a) {
            return i;
        }
        i = i + 1;
    }
    i
}

/// The id history entries as plain values
pub open spec fn id_entries(h: Seq<Stamped<Id>>) -> Seq<(u16, u64)> {
    h.map_values(|e: Stamped<Id>| (e.0.0, e.1.0))
}

/// The token history entries as plain values
pub open spec fn token_entries(h: Seq<Stamped<Token>>) -> Seq<(Seq<u8>, u64)> {
    h.map_values(|e: Stamped<Token>| (e.0@, e.1.0))
}

/// A CoAP request/response runtime's state
pub struct Core {
    msg_ids: Vec<(SocketAddr, Vec<Stamped<Id>>)>,
    msg_tokens: Vec<(SocketAddr, Vec<Stamped<Token>>)>,
    resps: Vec<Option<Addrd<Resp>>>,
    fling_q: Vec<Option<Addrd<Message>>>,
    retry_q: Vec<Retryable<Addrd<Message>>>,
    largest_msg_id_seen: Option<u16>,
    rand: ChaCha8Rng,
    config: Config,
}

impl Core {
    /// The message ids seen, by sender, with when they were seen
    pub closed spec fn ids(&self) -> Seq<(SocketAddr, Seq<(u16, u64)>)> {
        self.msg_ids@.map_values(
            |e: (SocketAddr, Vec<Stamped<Id>>)| (e.0, id_entries(e.1@)),
        )
    }

    /// The tokens seen, by peer, with when they were seen
    pub closed spec fn tokens(&self) -> Seq<(SocketAddr, Seq<(Seq<u8>, u64)>)> {
        self.msg_tokens@.map_values(
            |e: (SocketAddr, Vec<Stamped<Token>>)| (e.0, token_entries(e.1@)),
        )
    }

    /// The largest recently seen message id
    pub closed spec fn largest_id(&self) -> Option<u16> {
        self.largest_msg_id_seen
    }

    /// The received responses not yet taken (`None` where one was taken)
    pub closed spec fn resps(&self) -> Seq<Option<Addrd<Resp>>> {
        self.resps@
    }

    /// The messages to send once
    pub closed spec fn flings(&self) -> Seq<Option<Addrd<Message>>> {
        self.fling_q@
    }

    /// The confirmable messages that may be sent again, with their timers
    pub closed spec fn retries(&self) -> Seq<(Addrd<Message>, RetryState)> {
        self.retry_q@.map_values(|r: Retryable<Addrd<Message>>| (r.0, r.1@))
    }

    /// The runtime configuration
    pub closed spec fn config(&self) -> Config {
        self.config
    }

    /// How long an exchange lasts under the configuration (milliseconds)
    pub open spec fn lifetime(&self) -> int {
        self.config().spec_exchange_lifetime()
    }

    /// The configuration's timings can be computed
    pub open spec fn wf(&self) -> bool {
        &&& self.config().span_fits()
        &&& self.config().spec_exchange_lifetime() <= u64::MAX
    }

    /// Everything but the id history and the largest id is as in `old`
    pub open spec fn same_but_ids(&self, old: &Core) -> bool {
        &&& self.tokens() == old.tokens()
        &&& self.resps() == old.resps()
        &&& self.flings() == old.flings()
        &&& self.retries() == old.retries()
        &&& self.config() == old.config()
    }

    /// Everything but the token history is as in `old`
    pub open spec fn same_but_tokens(&self, old: &Core) -> bool {
        &&& self.ids() == old.ids()
        &&& self.largest_id() == old.largest_id()
        &&& self.resps() == old.resps()
        &&& self.flings() == old.flings()
        &&& self.retries() == old.retries()
        &&& self.config() == old.config()
    }

    /// A runtime with the given configuration that has seen nothing
    pub fn new_config(config: Config) -> (r: Core)
        ensures
            r.ids() == Seq::<(SocketAddr, Seq<(u16, u64)>)>::empty(),
            r.tokens() == Seq::<(SocketAddr, Seq<(Seq<u8>, u64)>)>::empty(),
            r.largest_id() is None,
            r.resps() == Seq::<Option<Addrd<Resp>>>::empty(),
            r.flings() == Seq::<Option<Addrd<Message>>>::empty(),
            r.retries() == Seq::<(Addrd<Message>, RetryState)>::empty(),
            r.config() == config,
    {
        let r = Core {
            config,
            rand: seeded_rng(0),
            msg_ids: Vec::new(),
            largest_msg_id_seen: None,
            msg_tokens: Vec::new(),
            resps: Vec::new(),
            fling_q: Vec::new(),
            retry_q: Vec::new(),
        };
        assert(r.ids() =~= Seq::<(SocketAddr, Seq<(u16, u64)>)>::empty());
        assert(r.tokens() =~= Seq::<(SocketAddr, Seq<(Seq<u8>, u64)>)>::empty());
        assert(r.retries() =~= Seq::<(Addrd<Message>, RetryState)>::empty());
        r
    }

    /// A runtime with the default configuration that has seen nothing
    pub fn new() -> (r: Core)
        ensures
            r.ids() == Seq::<(SocketAddr, Seq<(u16, u64)>)>::empty(),
            r.tokens() == Seq::<(SocketAddr, Seq<(Seq<u8>, u64)>)>::empty(),
            r.largest_id() is None,
            r.resps() == Seq::<Option<Addrd<Resp>>>::empty(),
            r.flings() == Seq::<Option<Addrd<Message>>>::empty(),
            r.retries() == Seq::<(Addrd<Message>, RetryState)>::empty(),
            r.wf(),
    {
        let c = Config::default();
        proof {
            crate::config::lemma_default_config_timings(c);
        }
        Core::new_config(c)
    }

    /// The configuration
    pub fn config_ref(&self) -> (r: &Config)
        ensures
            *r == self.config(),
    {
        &self.config
    }
}

/// What recording message id `id` from `addr` at `now` does: the ids seen
/// from `addr` more than an exchange lifetime ago are forgotten, `id` is added,
/// and the largest id becomes the largest of the ids now remembered for
/// `addr`, `id` among them.
pub open spec fn seen_id_post(old: Core, new: Core, id: u16, addr: SocketAddr, now: u64) -> bool {
    let kept = fresh(history_of(old.ids(), addr), now, old.lifetime());
    &&& new.ids() == with_history(old.ids(), addr, kept.push((id, now)))
    &&& new.largest_id() == max_id(kept.push((id, now)))
    &&& new.same_but_ids(&old)
}

/// What recording token `tok` from `addr` at `now` does: entries for the same
/// token (a retransmission) and entries older than an exchange lifetime are
/// forgotten, and `tok` is added.
pub open spec fn seen_token_post(old: Core, new: Core, tok: Seq<u8>, addr: SocketAddr, now: u64) -> bool {
    let kept = fresh_other(history_of(old.tokens(), addr), now, old.lifetime(), tok);
    &&& new.tokens() == with_history(old.tokens(), addr, kept.push((tok, now)))
    &&& new.same_but_tokens(&old)
}

fn ticks_since(now: u64, t: u64) -> (r: u64)
    ensures
        r == age(now, t),
{
    proof {
        if now < t {
            assert((now - t) % tick_range() == now - t + tick_range());
        } else {
            assert((now - t) % tick_range() == now - t);
        }
    }
    now.wrapping_sub(t)
}

impl Core {
    /// Record a message id seen from an address
    pub fn seen_id(&mut self, id: Addrd<Id>, now: Instant)
        requires
            old(self).wf(),
            stamps_before(history_of(old(self).ids(), id.1), now.0),
        ensures
            final(self).wf(),
            seen_id_post(*old(self), *final(self), id.0.0, id.1, now.0),
    {
        let addr = id.1;
        let life = self.config.exchange_lifetime_millis();
        let i = find_addr(&self.msg_ids, &addr);
        let ghost ids0 = self.ids();
        let ghost raw0 = self.msg_ids@;
        proof {
            lemma_addr_index(self.msg_ids@, addr);
            lemma_addr_index_keys(self.msg_ids@, ids0, addr);
        }
        let found = i < self.msg_ids.len();
        let h: Vec<Stamped<Id>> = if found {
            let (_, h) = self.msg_ids.remove(i);
            h
        } else {
            Vec::new()
        };
        let ghost hv = id_entries(h@);
        assert(hv == history_of(ids0, addr));
        let mut kept: Vec<Stamped<Id>> = Vec::new();
        let mut largest: Option<u16> = None;
        let mut j: usize = 0;
        while j < h.len()
            invariant
                j <= h.len(),
                hv == id_entries(h@),
                life == old(self).lifetime(),
                id_entries(kept@) == fresh(hv.take(j as int), now.0, life as int),
                largest == max_id(id_entries(kept@)),
            decreases h.len() - j,
        {
            let e_id = h[j].0;
            let e_t = h[j].1;
            assert(hv.take(j + 1).drop_last() =~= hv.take(j as int));
            assert(hv.take(j + 1).last() == (e_id.0, e_t.0));
            if ticks_since(now.0, e_t.0) < life {
                let ghost before = id_entries(kept@);
                kept.push(Stamped(e_id, e_t));
                assert(id_entries(kept@) =~= before.push((e_id.0, e_t.0)));
                assert(id_entries(kept@).drop_last() =~= before);
                largest = Some(
                    match largest {
                        Some(l) => if l > e_id.0 {
                            l
                        } else {
                            e_id.0
                        },
                        None => e_id.0,
                    },
                );
            }
            j = j + 1;
        }
        assert(hv.take(j as int) =~= hv);
        let ghost kv = id_entries(kept@);
        kept.push(Stamped(id.0, now));
        assert(id_entries(kept@) =~= kv.push((id.0.0, now.0)));
        assert(id_entries(kept@).drop_last() =~= kv);
        self.largest_msg_id_seen = Some(
            match largest {
                Some(l) => if l > id.0.0 {
                    l
                } else {
                    id.0.0
                },
                None => id.0.0,
            },
        );
        let ghost entry = (addr, kept);
        if found {
            self.msg_ids.insert(i, (addr, kept));
            assert(self.msg_ids@ =~= raw0.update(i as int, entry));
        } else {
            self.msg_ids.push((addr, kept));
            assert(self.msg_ids@ =~= raw0.push(entry));
        }
        assert(self.ids() =~= with_history(ids0, addr, kv.push((id.0.0, now.0))));
    }

    /// Record a token seen from an address
    pub fn seen_token(&mut self, token: Addrd<Token>, now: Instant)
        requires
            old(self).wf(),
            stamps_before(history_of(old(self).tokens(), token.1), now.0),
        ensures
            final(self).wf(),
            seen_token_post(*old(self), *final(self), token.0@, token.1, now.0),
    {
        let addr = token.1;
        let life = self.config.exchange_lifetime_millis();
        let i = find_addr(&self.msg_tokens, &addr);
        let ghost toks0 = self.tokens();
        let ghost raw0 = self.msg_tokens@;
        proof {
            lemma_addr_index(self.msg_tokens@, addr);
            lemma_addr_index_keys(self.msg_tokens@, toks0, addr);
        }
        let found = i < self.msg_tokens.len();
        let h: Vec<Stamped<Token>> = if found {
            let (_, h) = self.msg_tokens.remove(i);
            h
        } else {
            Vec::new()
        };
        let ghost hv = token_entries(h@);
        assert(hv == history_of(toks0, addr));
        let mut kept: Vec<Stamped<Token>> = Vec::new();
        let mut j: usize = 0;
        while j < h.len()
            invariant
                j <= h.len(),
                hv == token_entries(h@),
                life == old(self).lifetime(),
                token_entries(kept@) == fresh_other(hv.take(j as int), now.0, life as int, token.0@),
            decreases h.len() - j,
        {
            let e_t = h[j].1;
            assert(hv.take(j + 1).drop_last() =~= hv.take(j as int));
            assert(hv.take(j + 1).last() == (h@[j as int].0@, e_t.0));
            let same = bytes_eq(h[j].0.as_bytes(), token.0.as_bytes());
            if !same && ticks_since(now.0, e_t.0) < life {
                let ghost before = token_entries(kept@);
                kept.push(Stamped(h[j].0.copied(), e_t));
                assert(token_entries(kept@) =~= before.push((h@[j as int].0@, e_t.0)));
            }
            j = j + 1;
        }
        assert(hv.take(j as int) =~= hv);
        let ghost kv = token_entries(kept@);
        kept.push(Stamped(token.0, now));
        assert(token_entries(kept@) =~= kv.push((token.0@, now.0)));
        let ghost entry = (addr, kept);
        if found {
            self.msg_tokens.insert(i, (addr, kept));
            assert(self.msg_tokens@ =~= raw0.update(i as int, entry));
        } else {
            self.msg_tokens.push((addr, kept));
            assert(self.msg_tokens@ =~= raw0.push(entry));
        }
        assert(self.tokens() =~= with_history(toks0, addr, kv.push((token.0@, now.0))));
    }
}

/// The responses that are still there, in order
pub open spec fn somes<X>(s: Seq<Option<X>>) -> Seq<Option<X>>
    decreases s.len(),
{
    if s.len() == 0 {
        s
    } else if s.last() is Some {
        somes(s.drop_last()).push(s.last())
    } else {
        somes(s.drop_last())
    }
}

/// Room for 16 responses
pub open spec fn resp_capacity() -> nat {
    16
}

/// A queued message is answered by an ACK or RST with id `id` from `addr`
pub open spec fn answered_by(e: (Addrd<Message>, RetryState), id: u16, addr: SocketAddr) -> bool {
    e.0.1 == addr && e.0.0.id.0 == id
}

/// The queued messages that an ACK or RST with id `id` from `addr` does not
/// answer, in queue order
pub open spec fn unanswered(q: Seq<(Addrd<Message>, RetryState)>, id: u16, addr: SocketAddr) -> Seq<
    (Addrd<Message>, RetryState),
>
    decreases q.len(),
{
    if q.len() == 0 {
        q
    } else if answered_by(q.last(), id, addr) {
        unanswered(q.drop_last(), id, addr)
    } else {
        unanswered(q.drop_last(), id, addr).push(q.last())
    }
}

/// Position of the first response to `tok` from `addr`, or the length
pub open spec fn resp_index(s: Seq<Option<Addrd<Resp>>>, tok: Seq<u8>, addr: SocketAddr) -> int
    decreases s.len(),
{
    if s.len() == 0 {
        0
    } else if s[0] matches Some(r) && r.0.message().token@ == tok && r.1 == addr {
        0
    } else {
        1 + resp_index(s.drop_first(), tok, addr)
    }
}

/// The bytes a token is made from: the configured seed and the time in
/// milliseconds, both big-endian
pub open spec fn token_input(seed: u16, now: u64) -> Seq<u8> {
    crate::msg::uint::spec_be_bytes(seed as nat, 2) + crate::msg::uint::spec_be_bytes(now as nat, 8)
}

/// What a runtime step does to one queued confirmable message
#[derive(Debug)]
pub enum RetryDecision {
    /// Send this copy of the message again
    Send(Addrd<Message>),
    /// Not yet
    Wait,
    /// The message was never acknowledged: give up
    GiveUp,
}

/// Two runtime states agree on everything the contracts speak of
pub open spec fn same_state(a: Core, b: Core) -> bool {
    &&& a.ids() == b.ids()
    &&& a.tokens() == b.tokens()
    &&& a.largest_id() == b.largest_id()
    &&& a.resps() == b.resps()
    &&& a.flings() == b.flings()
    &&& a.retries() == b.retries()
    &&& a.config() == b.config()
}

/// What storing a response does
pub open spec fn store_resp_post(old: Core, new: Core, resp: Addrd<Resp>) -> bool {
    &&& new.resps() == if old.resps().len() < resp_capacity() {
        old.resps().push(Some(resp))
    } else {
        somes(old.resps()).push(Some(resp))
    }
    &&& new.ids() == old.ids()
    &&& new.tokens() == old.tokens()
    &&& new.largest_id() == old.largest_id()
    &&& new.flings() == old.flings()
    &&& new.retries() == old.retries()
    &&& new.config() == old.config()
}

/// What processing a possible acknowledgement does: an ACK or RST removes
/// every queued confirmable message with its address and id, keeping the
/// others in order
pub open spec fn process_acks_post(old: Core, new: Core, msg: Addrd<Message>) -> bool {
    &&& new.retries() == if msg.0.ty == Type::Ack || msg.0.ty == Type::Reset {
        unanswered(old.retries(), msg.0.id.0, msg.1)
    } else {
        old.retries()
    }
    &&& new.ids() == old.ids()
    &&& new.tokens() == old.tokens()
    &&& new.largest_id() == old.largest_id()
    &&& new.resps() == old.resps()
    &&& new.flings() == old.flings()
    &&& new.config() == old.config()
}

proof fn lemma_somes_len<X>(s: Seq<Option<X>>)
    ensures
        somes(s).len() <= s.len(),
        forall|i: int| 0 <= i < somes(s).len() ==> #[trigger] somes(s)[i] is Some,
    decreases s.len(),
{
    if s.len() > 0 {
        lemma_somes_len(s.drop_last());
        let prev = somes(s.drop_last());
        assert forall|i: int| 0 <= i < somes(s).len() implies #[trigger] somes(s)[i] is Some by {
            if i < prev.len() {
                assert(somes(s)[i] == prev[i]);
            }
        }
    }
}

impl Core {
    /// A new message id for a message to `addr`: one more than the largest id
    /// remembered, or a random one below 256 when none is; it is recorded as seen.
    pub fn next_id(&mut self, addr: SocketAddr, now: Instant) -> (r: Id)
        requires
            old(self).wf(),
            stamps_before(history_of(old(self).ids(), addr), now.0),
            old(self).largest_id() matches Some(l) ==> l < u16::MAX,
        ensures
            final(self).wf(),
            match old(self).largest_id() {
                Some(l) => r.0 == l + 1,
                None => r.0 <= 255,
            },
            seen_id_post(*old(self), *final(self), r.0, addr, now.0),
    {
        let new = match self.largest_msg_id_seen {
            Some(id) => Id(id + 1),
            None => Id(draw_id(&mut self.rand)),
        };
        self.seen_id(Addrd(new, addr), now);
        new
    }

    /// A new token for a message to `addr`: an opaque digest of the configured
    /// seed and the current time; it is recorded as seen.
    pub fn next_token(&mut self, addr: SocketAddr, now: Instant) -> (r: Token)
        requires
            old(self).wf(),
            stamps_before(history_of(old(self).tokens(), addr), now.0),
        ensures
            final(self).wf(),
            r@ == crate::msg::token::blake2b_64(token_input(old(self).config().msg.token_seed, now.0)),
            r@.len() == 8,
            seen_token_post(*old(self), *final(self), r@, addr, now.0),
    {
        let mut bytes = crate::msg::uint::be_bytes(self.config.msg.token_seed as u64, 2);
        let t = crate::msg::uint::be_bytes(now.0, 8);
        let mut k: usize = 0;
        let ghost b0 = bytes@;
        while k < t.len()
            invariant
                k <= t.len(),
                bytes@ == b0 + t@.take(k as int),
            decreases t.len() - k,
        {
            bytes.push(t[k]);
            assert(bytes@ =~= b0 + t@.take(k + 1));
            k = k + 1;
        }
        assert(t@.take(k as int) =~= t@);
        let token = Token::opaque(bytes.as_slice());
        let copy = token.copied();
        self.seen_token(Addrd(copy, addr), now);
        token
    }

    /// The largest message id recently seen, if any
    pub fn largest_id_seen(&self) -> (r: Option<u16>)
        ensures
            r == self.largest_id(),
    {
        self.largest_msg_id_seen
    }

    /// Whether there is room to keep one more response
    pub fn resp_room(&self) -> (r: bool)
        ensures
            r == has_resp_room(*self),
    {
        if self.resps.len() < 16 {
            return true;
        }
        let mut n: usize = 0;
        let mut i: usize = 0;
        while i < self.resps.len()
            invariant
                i <= self.resps.len(),
                n == somes(self.resps@.take(i as int)).len(),
                n <= i,
            decreases self.resps.len() - i,
        {
            assert(self.resps@.take(i + 1).drop_last() =~= self.resps@.take(i as int));
            if self.resps[i].is_some() {
                n = n + 1;
            }
            i = i + 1;
        }
        assert(self.resps@.take(i as int) =~= self.resps@);
        n < 16
    }

    /// Keep a received response. When 16 slots are in use, the slots of
    /// responses already taken are freed first.
    pub fn store_resp(&mut self, resp: Addrd<Resp>)
        requires
            old(self).resps().len() < resp_capacity() || somes(old(self).resps()).len()
                < resp_capacity(),
        ensures
            store_resp_post(*old(self), *final(self), resp),
    {
        if self.resps.len() < 16 {
            self.resps.push(Some(resp));
        } else {
            let mut slots: Vec<Option<Addrd<Resp>>> = Vec::new();
            std::mem::swap(&mut slots, &mut self.resps);
            let mut kept: Vec<Option<Addrd<Resp>>> = Vec::new();
            let ghost s = slots@;
            let mut i: usize = 0;
            let n = slots.len();
            while i < n
                invariant
                    i <= n,
                    n == s.len(),
                    slots@.len() == n,
                    forall|k: int| i <= k < n ==> slots@[k] == s[k],
                    kept@ == somes(s.take(i as int)),
                decreases n - i,
            {
                assert(s.take(i + 1).drop_last() =~= s.take(i as int));
                let slot = slots.remove(i);
                slots.insert(i, None);
                match slot {
                    Some(r) => {
                        kept.push(Some(r));
                    },
                    None => {},
                }
                i = i + 1;
            }
            assert(s.take(i as int) =~= s);
            kept.push(Some(resp));
            self.resps = kept;
        }
    }

    /// Drop every queued confirmable message that an incoming ACK or RST
    /// answers (same id, same address), keeping the others in order
    pub fn process_acks(&mut self, msg: &Addrd<Message>)
        ensures
            process_acks_post(*old(self), *final(self), *msg),
    {
        if msg.0.ty == Type::Ack || msg.0.ty == Type::Reset {
            let id = msg.0.id;
            let addr = msg.1;
            let ghost q = self.retries();
            let mut i: usize = 0;
            let ghost mut j: int = 0;
            assert(q.take(0) =~= Seq::<(Addrd<Message>, RetryState)>::empty());
            assert(self.retries() =~= unanswered(q.take(0), id.0, addr) + q.skip(0));
            while i < self.retry_q.len()
                invariant
                    0 <= j <= q.len(),
                    q == old(self).retries(),
                    self.retries() == unanswered(q.take(j), id.0, addr) + q.skip(j),
                    i == unanswered(q.take(j), id.0, addr).len(),
                    id == msg.0.id,
                    addr == msg.1,
                    self.msg_ids == old(self).msg_ids,
                    self.msg_tokens == old(self).msg_tokens,
                    self.largest_msg_id_seen == old(self).largest_msg_id_seen,
                    self.resps == old(self).resps,
                    self.fling_q == old(self).fling_q,
                    self.config == old(self).config,
                decreases self.retry_q.len() - i,
            {
                let ghost before = self.retries();
                let ghost kept = unanswered(q.take(j), id.0, addr);
                assert(j < q.len()) by {
                    assert(before.len() == kept.len() + q.skip(j).len());
                }
                assert(before[i as int] == q[j]);
                assert(q.take(j + 1).drop_last() =~= q.take(j));
                assert(q.take(j + 1).last() == q[j]);
                assert(q.skip(j).drop_first() =~= q.skip(j + 1));
                if same_addr(&self.retry_q[i].0.1, &addr) && self.retry_q[i].0.0.id.0 == id.0 {
                    let _ = self.retry_q.remove(i);
                    assert(self.retries() =~= before.remove(i as int));
                    assert(self.retries() =~= kept + q.skip(j + 1));
                } else {
                    assert(unanswered(q.take(j + 1), id.0, addr) == kept.push(q[j]));
                    assert(kept.push(q[j]) + q.skip(j + 1) =~= before);
                    i = i + 1;
                }
                proof {
                    j = j + 1;
                }
            }
            assert(q.skip(j) =~= Seq::<(Addrd<Message>, RetryState)>::empty()) by {
                assert(self.retries().len() == i + q.skip(j).len());
            }
            assert(q.take(j) =~= q) by {
                assert(j == q.len()) by {
                    assert(self.retries().len() == i + q.skip(j).len());
                }
            }
            assert(self.retries() =~= unanswered(q, id.0, addr));
        }
    }

    /// Take the response to `token` from `addr`, if it has been received
    pub fn try_get_resp(&mut self, token: &Token, addr: SocketAddr) -> (r: Result<Resp, WouldBlock>)
        ensures
            ({
                let k = resp_index(old(self).resps(), token@, addr);
                if k < old(self).resps().len() {
                    r == Ok::<Resp, WouldBlock>(old(self).resps()[k]->Some_0.0)
                        && final(self).resps() == old(self).resps().update(k, None)
                } else {
                    r == Err::<Resp, WouldBlock>(WouldBlock) && final(self).resps() == old(self).resps()
                }
            }),
            final(self).ids() == old(self).ids(),
            final(self).tokens() == old(self).tokens(),
            final(self).largest_id() == old(self).largest_id(),
            final(self).flings() == old(self).flings(),
            final(self).retries() == old(self).retries(),
            final(self).config() == old(self).config(),
    {
        let ghost s = self.resps@;
        let mut i: usize = 0;
        assert(s.skip(0) =~= s);
        while i < self.resps.len()
            invariant
                i <= self.resps.len(),
                *self == *old(self),
                s == self.resps@,
                resp_index(s, token@, addr) == i + resp_index(s.skip(i as int), token@, addr),
            decreases self.resps.len() - i,
        {
            assert(s.skip(i as int).drop_first() =~= s.skip(i + 1));
            assert(s.skip(i as int)[0] == s[i as int]);
            let matches = match &self.resps[i] {
                Some(rep) => bytes_eq(rep.0.msg().token.as_bytes(), token.as_bytes()) && same_addr(
                    &rep.1,
                    &addr,
                ),
                None => false,
            };
            if matches {
                assert(resp_index(s.skip(i as int), token@, addr) == 0);
                let slot = self.resps.remove(i);
                self.resps.insert(i, None);
                assert(self.resps@ =~= s.update(i as int, None));
                match slot {
                    Some(rep) => {
                        return Ok(rep.0);
                    },
                    None => {
                        return Err(WouldBlock);
                    },
                }
            }
            i = i + 1;
        }
        assert(s.skip(i as int) =~= Seq::<Option<Addrd<Resp>>>::empty());
        Err(WouldBlock)
    }

    /// Whether a ping (an empty confirmable message) has been answered: it
    /// has while no queued message to `addr` has its id
    pub fn check_ping(&self, req_id: Id, addr: SocketAddr) -> (r: Result<(), WouldBlock>)
        ensures
            r is Err <==> exists|i: int|
                0 <= i < self.retries().len() && #[trigger] self.retries()[i].0.0.id == req_id
                    && self.retries()[i].0.1 == addr,
    {
        let mut i: usize = 0;
        while i < self.retry_q.len()
            invariant
                i <= self.retry_q.len(),
                forall|k: int|
                    0 <= k < i ==> !(#[trigger] self.retries()[k].0.0.id == req_id
                        && self.retries()[k].0.1 == addr),
            decreases self.retry_q.len() - i,
        {
            if self.retry_q[i].0.0.id.0 == req_id.0 && same_addr(&self.retry_q[i].0.1, &addr) {
                assert(self.retries()[i as int].0.0.id == req_id);
                return Err(WouldBlock);
            }
            i = i + 1;
        }
        Ok(())
    }

    /// Number of slots in the queue of messages to send once
    pub fn fling_count(&self) -> (r: usize)
        ensures
            r == self.flings().len(),
    {
        self.fling_q.len()
    }

    /// Take a message to send once out of its slot
    pub fn take_fling(&mut self, i: usize) -> (r: Option<Addrd<Message>>)
        requires
            i < old(self).flings().len(),
        ensures
            r == old(self).flings()[i as int],
            final(self).flings() == old(self).flings().update(i as int, None),
            final(self).ids() == old(self).ids(),
            final(self).tokens() == old(self).tokens(),
            final(self).largest_id() == old(self).largest_id(),
            final(self).resps() == old(self).resps(),
            final(self).retries() == old(self).retries(),
            final(self).config() == old(self).config(),
    {
        let slot = self.fling_q.remove(i);
        self.fling_q.insert(i, None);
        assert(self.fling_q@ =~= old(self).flings().update(i as int, None));
        slot
    }

    /// Number of queued confirmable messages
    pub fn retry_count(&self) -> (r: usize)
        ensures
            r == self.retries().len(),
    {
        self.retry_q.len()
    }

    /// Whether the timer of the `i`th queued confirmable message may be asked
    /// what to do (see [`RetryTimer::can_ask`])
    pub fn retry_can_ask(&self, i: usize) -> (r: bool)
        requires
            i < self.retries().len(),
        ensures
            r == self.retries()[i as int].1.can_ask(),
    {
        self.retry_q[i].1.can_ask()
    }

    /// Ask the timer of the `i`th queued confirmable message what to do at
    /// `now`: send it again, wait, or give up
    pub fn retry_step(&mut self, i: usize, now: Instant) -> (r: RetryDecision)
        requires
            i < old(self).retries().len(),
            old(self).retries()[i as int].1.can_ask(),
        ensures
            ({
                let (msg, t) = old(self).retries()[i as int];
                let (t2, answer) = t.step(now.0);
                &&& final(self).retries() == old(self).retries().update(i as int, (msg, t2))
                &&& match answer {
                    Some(YouShould::Retry) => r matches RetryDecision::Send(m) && m.1 == msg.1
                        && m.0@ == msg.0@ && m.0.opts@ == msg.0.opts@,
                    Some(YouShould::Cry) => r is GiveUp,
                    None => r is Wait,
                }
            }),
            final(self).ids() == old(self).ids(),
            final(self).tokens() == old(self).tokens(),
            final(self).largest_id() == old(self).largest_id(),
            final(self).resps() == old(self).resps(),
            final(self).flings() == old(self).flings(),
            final(self).config() == old(self).config(),
    {
        let Retryable(msg, mut timer) = self.retry_q.remove(i);
        let answer = timer.what_should_i_do(now);
        let out = match answer {
            Ok(YouShould::Retry) => RetryDecision::Send(Addrd(msg.0.copied(), msg.1)),
            Ok(YouShould::Cry) => RetryDecision::GiveUp,
            Err(_) => RetryDecision::Wait,
        };
        self.retry_q.insert(i, Retryable(msg, timer));
        assert(self.retries() =~= old(self).retries().update(i as int, (self.retry_q@[i as int].0, timer@)));
        out
    }

    /// Queue a message to be sent again until it is acknowledged, when it is
    /// confirmable; its timer starts now with the configured strategy for
    /// unacknowledged confirmable messages.
    pub fn enqueue_retry(&mut self, msg: &Addrd<Message>, now: Instant)
        requires
            old(self).config().msg.con.unacked_retry_strategy.spec_bounds().0 <= old(self).config().msg.con.unacked_retry_strategy.spec_bounds().1,
            msg.0.ty == Type::Con ==> old(self).retries().len() < 16,
        ensures
            msg.0.ty == Type::Con ==> final(self).retries().len() == old(self).retries().len() + 1
                && final(self).retries().drop_last() == old(self).retries() && final(self).retries().last().0.1 == msg.1 && final(self).retries().last().0.0@ == msg.0@
                && final(self).retries().last().0.0.opts@ == msg.0.opts@ && final(self).retries().last().1 == crate::retry::new_timer_state(
                now.0,
                old(self).config().msg.con.unacked_retry_strategy,
                old(self).config().msg.con.max_attempts.0,
            ),
            msg.0.ty != Type::Con ==> final(self).retries() == old(self).retries(),
            final(self).ids() == old(self).ids(),
            final(self).tokens() == old(self).tokens(),
            final(self).largest_id() == old(self).largest_id(),
            final(self).resps() == old(self).resps(),
            final(self).flings() == old(self).flings(),
            final(self).config() == old(self).config(),
    {
        if msg.0.ty == Type::Con {
            let timer = RetryTimer::new(
                now,
                self.config.msg.con.unacked_retry_strategy,
                self.config.msg.con.max_attempts,
            );
            self.retry_q.push(Retryable(Addrd(msg.0.copied(), msg.1), timer));
            assert(self.retries().drop_last() =~= old(self).retries());
        }
    }
}

/// What receiving a message does: its id and token are recorded as seen, an
/// ACK or RST drops the confirmable message it answers, and a response is kept.
pub open spec fn msg_recvd_post(old: Core, new: Core, msg: Addrd<Message>, now: u64) -> bool {
    exists|s1: Core, s2: Core, s3: Core|
        #![trigger seen_id_post(old, s1, msg.0.id.0, msg.1, now), seen_token_post(s1, s2, msg.0.token@, msg.1, now), process_acks_post(s2, s3, msg)]
        seen_id_post(old, s1, msg.0.id.0, msg.1, now) && seen_token_post(
            s1,
            s2,
            msg.0.token@,
            msg.1,
            now,
        ) && process_acks_post(s2, s3, msg) && if crate::msg::code::spec_code_kind(msg.0.code)
            == CodeKind::Response {
            exists|rp: Addrd<Resp>|
                #![trigger store_resp_post(s3, new, rp)]
                rp.0.message() == msg.0 && rp.1 == msg.1 && store_resp_post(s3, new, rp)
        } else {
            same_state(s3, new)
        }
}

/// What a runtime needs to take in a message from `addr` at `now`: its
/// timings can be computed, and nothing it remembers of `addr` is stamped
/// after `now`
pub open spec fn can_receive(c: Core, addr: SocketAddr, now: u64) -> bool {
    &&& c.wf()
    &&& stamps_before(history_of(c.ids(), addr), now)
    &&& stamps_before(history_of(c.tokens(), addr), now)
}

/// There is room to keep one more response: fewer than 16 slots are in use,
/// or fewer than 16 hold a response not yet taken
pub open spec fn has_resp_room(c: Core) -> bool {
    c.resps().len() < resp_capacity() || somes(c.resps()).len() < resp_capacity()
}

impl Core {
    /// Take in a message received from a socket
    pub fn msg_recvd(&mut self, msg: Addrd<Message>, now: Instant)
        requires
            can_receive(*old(self), msg.1, now.0),
            spec_code_kind(msg.0.code) == CodeKind::Response ==> has_resp_room(*old(self)),
        ensures
            final(self).wf(),
            msg_recvd_post(*old(self), *final(self), msg, now.0),
    {
        let ghost m = msg;
        let addr = msg.1;
        self.seen_id(Addrd(msg.0.id, addr), now);
        let ghost s1 = *self;
        self.seen_token(Addrd(msg.0.token.copied(), addr), now);
        let ghost s2 = *self;
        self.process_acks(&msg);
        let ghost s3 = *self;
        if msg.0.code.kind() == CodeKind::Response {
            let rp = Addrd(Resp::from_message(msg.0), addr);
            self.store_resp(rp);
            assert(store_resp_post(s3, *self, rp));
        } else {
            assert(same_state(s3, *self));
        }
        assert(seen_id_post(*old(self), s1, m.0.id.0, m.1, now.0));
        assert(seen_token_post(s1, s2, m.0.token@, m.1, now.0));
        assert(process_acks_post(s2, s3, m));
    }

    /// Take in a datagram received from a socket: parse it as a message and
    /// take that in. A datagram that is not a message is refused with the
    /// parse error, and nothing changes.
    pub fn dgram_recvd(&mut self, dgram: &Addrd<Vec<u8>>, now: Instant) -> (r: Result<(), crate::msg::parse_error::MessageParseError>)
        requires
            can_receive(*old(self), dgram.1, now.0),
            (crate::from_bytes::spec_parse_message(dgram.0@) matches Ok(v) && spec_code_kind(v.code)
                == CodeKind::Response) ==> has_resp_room(*old(self)),
        ensures
            final(self).wf(),
            match crate::from_bytes::spec_parse_message(dgram.0@) {
                Ok(v) => r is Ok && exists|m: Message|
                    #![trigger msg_recvd_post(*old(self), *final(self), Addrd(m, dgram.1), now.0)]
                    m@ == v && m.wf() && msg_recvd_post(
                        *old(self),
                        *final(self),
                        Addrd(m, dgram.1),
                        now.0,
                    ),
                Err(e) => r == Err::<(), crate::msg::parse_error::MessageParseError>(e) && *final(self) == *old(self),
            },
    {
        match Message::try_from_bytes(dgram.0.as_slice()) {
            Ok(m) => {
                let ghost mv = m;
                self.msg_recvd(Addrd(m, dgram.1), now);
                assert(msg_recvd_post(*old(self), *self, Addrd(mv, dgram.1), now.0));
                Ok(())
            },
            Err(e) => Err(e),
        }
    }
}

proof fn lemma_history_of_with<V>(s: Seq<(SocketAddr, Seq<V>)>, a: SocketAddr, h: Seq<V>)
    ensures
        history_of(with_history(s, a, h), a) == h,
{
    lemma_addr_index(s, a);
    let i = addr_index(s, a);
    let t = with_history(s, a, h);
    if i < s.len() {
        assert forall|j: int| 0 <= j < i implies t[j].0 != a by {
            assert(t[j] == s[j]);
        }
        lemma_addr_index(t, a);
        if addr_index(t, a) < i {
            assert(t[addr_index(t, a)].0 == a);
        }
        if addr_index(t, a) > i {
            assert(t[i].0 == a);
        }
        assert(addr_index(t, a) == i);
    } else {
        assert forall|j: int| 0 <= j < s.len() implies t[j].0 != a by {
            assert(t[j] == s[j]);
        }
        lemma_addr_index(t, a);
        if addr_index(t, a) < s.len() {
            assert(t[addr_index(t, a)].0 == a);
        }
        if addr_index(t, a) > s.len() {
            assert(t[s.len() as int].0 == a);
        }
        assert(addr_index(t, a) == s.len());
    }
}

proof fn lemma_fresh_other_excludes<V>(h: Seq<(V, u64)>, now: u64, life: int, tok: V)
    ensures
        forall|i: int|
            0 <= i < fresh_other(h, now, life, tok).len() ==> #[trigger] fresh_other(
                h,
                now,
                life,
                tok,
            )[i].0 != tok && age(now, fresh_other(h, now, life, tok)[i].1) < life,
    decreases h.len(),
{
    if h.len() > 0 {
        lemma_fresh_other_excludes(h.drop_last(), now, life, tok);
        let prev = fresh_other(h.drop_last(), now, life, tok);
        let cur = fresh_other(h, now, life, tok);
        assert forall|i: int| 0 <= i < cur.len() implies #[trigger] cur[i].0 != tok && age(
            now,
            cur[i].1,
        ) < life by {
            if i < prev.len() {
                assert(cur[i] == prev[i]);
            }
        }
    }
}

proof fn lemma_fresh_is_fresh<V>(h: Seq<(V, u64)>, now: u64, life: int)
    ensures
        forall|i: int|
            0 <= i < fresh(h, now, life).len() ==> age(now, #[trigger] fresh(h, now, life)[i].1)
                < life,
    decreases h.len(),
{
    if h.len() > 0 {
        lemma_fresh_is_fresh(h.drop_last(), now, life);
        let prev = fresh(h.drop_last(), now, life);
        let cur = fresh(h, now, life);
        assert forall|i: int| 0 <= i < cur.len() implies age(now, #[trigger] cur[i].1) < life by {
            if i < prev.len() {
                assert(cur[i] == prev[i]);
            }
        }
    }
}

/// A token recorded from an address is remembered exactly once for it, as
/// the latest entry: a retransmission replaces the earlier record, and every
/// other entry kept for the address is younger than an exchange lifetime.
pub proof fn lemma_token_recorded_once(old: Core, new: Core, tok: Seq<u8>, addr: SocketAddr, now: u64)
    requires
        seen_token_post(old, new, tok, addr, now),
    ensures
        ({
            let h = history_of(new.tokens(), addr);
            &&& h.len() > 0
            &&& h.last() == (tok, now)
            &&& forall|i: int| 0 <= i < h.len() - 1 ==> #[trigger] h[i].0 != tok && age(now, h[i].1)
                < old.lifetime()
        }),
{
    let kept = fresh_other(history_of(old.tokens(), addr), now, old.lifetime(), tok);
    lemma_history_of_with(old.tokens(), addr, kept.push((tok, now)));
    lemma_fresh_other_excludes(history_of(old.tokens(), addr), now, old.lifetime(), tok);
    let h = history_of(new.tokens(), addr);
    assert forall|i: int| 0 <= i < h.len() - 1 implies #[trigger] h[i].0 != tok && age(now, h[i].1)
        < old.lifetime() by {
        assert(h[i] == kept[i]);
        assert(0 <= i < kept.len());
        let f = fresh_other(history_of(old.tokens(), addr), now, old.lifetime(), tok);
        lemma_fresh_other_excludes(history_of(old.tokens(), addr), now, old.lifetime(), tok);
        assert(f[i].0 != tok);
        assert(age(now, f[i].1) < old.lifetime());
    }
}

/// An id recorded from an address is the latest entry of its history, and
/// every other id remembered for the address was seen less than an exchange
/// lifetime ago.
pub proof fn lemma_ids_expire(old: Core, new: Core, id: u16, addr: SocketAddr, now: u64)
    requires
        seen_id_post(old, new, id, addr, now),
    ensures
        ({
            let h = history_of(new.ids(), addr);
            &&& h.len() > 0
            &&& h.last() == (id, now)
            &&& forall|i: int| 0 <= i < h.len() - 1 ==> age(now, #[trigger] h[i].1) < old.lifetime()
        }),
{
    let kept = fresh(history_of(old.ids(), addr), now, old.lifetime());
    lemma_history_of_with(old.ids(), addr, kept.push((id, now)));
    lemma_fresh_is_fresh(history_of(old.ids(), addr), now, old.lifetime());
    let h = history_of(new.ids(), addr);
    assert forall|i: int| 0 <= i < h.len() - 1 implies age(now, #[trigger] h[i].1) < old.lifetime() by {
        assert(h[i] == kept[i]);
    }
}

} // verus!
