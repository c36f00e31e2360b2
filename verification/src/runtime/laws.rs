//! Properties that span several steps of the runtime
use no_std_net::SocketAddr;
use vstd::prelude::*;

use crate::msg::{Message, Type};
use crate::net::Addrd;
use crate::resp::Resp;
use crate::retry::RetryState;

use super::client::{can_send, next_id_ok, queued};
use super::{
    msg_recvd_post, addr_index, answered_by, fresh, fresh_other, history_of, lemma_addr_index, max_id, process_acks_post,
    resp_index, seen_id_post, seen_token_post, somes, stamps_before, store_resp_post, unanswered,
    with_history, Core,
};

verus! {

/// A held response answers `tok` from `addr`
pub open spec fn answers(o: Option<Addrd<Resp>>, tok: Seq<u8>, addr: SocketAddr) -> bool {
    o matches Some(r) && r.0.message().token@ == tok && r.1 == addr
}

proof fn lemma_resp_index_none(s: Seq<Option<Addrd<Resp>>>, tok: Seq<u8>, addr: SocketAddr)
    ensures
        0 <= resp_index(s, tok, addr) <= s.len(),
        resp_index(s, tok, addr) == s.len() <==> forall|i: int|
            0 <= i < s.len() ==> !answers(#[trigger] s[i], tok, addr),
        resp_index(s, tok, addr) < s.len() ==> answers(s[resp_index(s, tok, addr)], tok, addr),
    decreases s.len(),
{
    if s.len() > 0 {
        let t = s.drop_first();
        lemma_resp_index_none(t, tok, addr);
        assert forall|i: int| 0 < i < s.len() implies s[i] == t[i - 1] by {}
        if resp_index(s, tok, addr) == s.len() {
            assert forall|i: int| 0 <= i < s.len() implies !answers(#[trigger] s[i], tok, addr) by {
                if i > 0 {
                    assert(s[i] == t[i - 1]);
                }
            }
        }
        if forall|i: int| 0 <= i < s.len() ==> !answers(#[trigger] s[i], tok, addr) {
            assert(!answers(s[0], tok, addr));
            assert forall|i: int| 0 <= i < t.len() implies !answers(#[trigger] t[i], tok, addr) by {
                assert(t[i] == s[i + 1]);
            }
        }
    }
}

proof fn lemma_somes_from(s: Seq<Option<Addrd<Resp>>>)
    ensures
        forall|i: int| 0 <= i < somes(s).len() ==> exists|j: int| 0 <= j < s.len() && #[trigger] somes(s)[i] == s[j],
    decreases s.len(),
{
    if s.len() > 0 {
        let p = s.drop_last();
        lemma_somes_from(p);
        assert forall|i: int| 0 <= i < somes(s).len() implies exists|j: int| 0 <= j < s.len() && #[trigger] somes(s)[i] == s[j] by {
            if i < somes(p).len() {
                assert(somes(s)[i] == somes(p)[i]);
                let j = choose|j: int| 0 <= j < p.len() && somes(p)[i] == p[j];
                assert(s[j] == p[j]);
            } else {
                assert(somes(s)[i] == s[s.len() - 1]);
            }
        }
    }
}

/// A response kept by `store_resp` is the one `try_get_resp` then finds for
/// its token and address, when no response held before answers them
pub proof fn lemma_stored_resp_found(old: Core, new: Core, resp: Addrd<Resp>)
    requires
        store_resp_post(old, new, resp),
        resp_index(old.resps(), resp.0.message().token@, resp.1) == old.resps().len(),
    ensures
        ({
            let k = resp_index(new.resps(), resp.0.message().token@, resp.1);
            k < new.resps().len() && new.resps()[k] == Some(resp)
        }),
{
    let tok = resp.0.message().token@;
    let addr = resp.1;
    lemma_resp_index_none(old.resps(), tok, addr);
    let base = if old.resps().len() < super::resp_capacity() {
        old.resps()
    } else {
        somes(old.resps())
    };
    if old.resps().len() >= super::resp_capacity() {
        lemma_somes_from(old.resps());
        assert forall|i: int| 0 <= i < base.len() implies !answers(#[trigger] base[i], tok, addr) by {
            let j = choose|j: int| 0 <= j < old.resps().len() && somes(old.resps())[i] == old.resps()[j];
            assert(!answers(old.resps()[j], tok, addr));
        }
    }
    let s = base.push(Some(resp));
    assert(new.resps() == s);
    lemma_resp_index_none(base, tok, addr);
    lemma_resp_index_none(s, tok, addr);
    assert forall|i: int| 0 <= i < base.len() implies !answers(#[trigger] s[i], tok, addr) by {
        assert(s[i] == base[i]);
    }
    assert(answers(s[base.len() as int], tok, addr));
    if resp_index(s, tok, addr) < base.len() {
        assert(!answers(s[resp_index(s, tok, addr)], tok, addr));
    }
}

proof fn lemma_unanswered_none(q: Seq<(Addrd<Message>, RetryState)>, id: u16, addr: SocketAddr)
    requires
        forall|i: int| 0 <= i < q.len() ==> !answered_by(#[trigger] q[i], id, addr),
    ensures
        unanswered(q, id, addr) == q,
    decreases q.len(),
{
    if q.len() > 0 {
        assert forall|i: int| 0 <= i < q.drop_last().len() implies !answered_by(
            #[trigger] q.drop_last()[i],
            id,
            addr,
        ) by {
            assert(q.drop_last()[i] == q[i]);
        }
        lemma_unanswered_none(q.drop_last(), id, addr);
        assert(!answered_by(q[q.len() - 1], id, addr));
        assert(q.drop_last().push(q.last()) =~= q);
    }
}

/// An ACK (or RST) for a confirmable message just queued to be sent again
/// takes it off the queue, leaving the queue as it was before, when no
/// message queued earlier has the same id and address
pub proof fn lemma_ack_cancels_retry(c0: Core, c1: Core, c2: Core, m: Addrd<Message>, ack: Addrd<Message>, now: u64)
    requires
        m.0.ty == Type::Con,
        queued(c0, c1, m, now),
        ack.0.ty == Type::Ack || ack.0.ty == Type::Reset,
        ack.0.id == m.0.id,
        ack.1 == m.1,
        forall|i: int| 0 <= i < c0.retries().len() ==> !answered_by(#[trigger] c0.retries()[i], m.0.id.0, m.1),
        process_acks_post(c1, c2, ack),
    ensures
        c2.retries() == c0.retries(),
{
    let q = c1.retries();
    assert(answered_by(q.last(), m.0.id.0, m.1));
    lemma_unanswered_none(c0.retries(), m.0.id.0, m.1);
}

proof fn lemma_max_id_push(h: Seq<(u16, u64)>, x: (u16, u64))
    ensures
        max_id(h.push(x)) matches Some(m) && m >= x.0,
{
    assert(h.push(x).drop_last() =~= h);
}

/// Message ids handed out one after another count up: once [`Core::next_id`]
/// has given `a`, the largest id seen is at least `a`, so the next call gives
/// a larger id. Ids given out in turn are therefore distinct.
pub proof fn lemma_next_ids_increase(
    s0: Core,
    s1: Core,
    s2: Core,
    a: u16,
    b: u16,
    addr_a: SocketAddr,
    addr_b: SocketAddr,
    now_a: u64,
    now_b: u64,
)
    requires
        next_id_ok(s0, a),
        seen_id_post(s0, s1, a, addr_a, now_a),
        next_id_ok(s1, b),
        seen_id_post(s1, s2, b, addr_b, now_b),
    ensures
        a < b,
{
    lemma_max_id_push(fresh(history_of(s0.ids(), addr_a), now_a, s0.lifetime()), (a, now_a));
}

/// Three message ids handed out one after another, to any peers, are
/// pairwise distinct: no id is given out twice while it is remembered.
pub proof fn lemma_three_ids_distinct(
    s0: Core,
    s1: Core,
    s2: Core,
    s3: Core,
    a: u16,
    b: u16,
    c: u16,
    addr_a: SocketAddr,
    addr_b: SocketAddr,
    addr_c: SocketAddr,
    now_a: u64,
    now_b: u64,
    now_c: u64,
)
    requires
        next_id_ok(s0, a),
        seen_id_post(s0, s1, a, addr_a, now_a),
        next_id_ok(s1, b),
        seen_id_post(s1, s2, b, addr_b, now_b),
        next_id_ok(s2, c),
        seen_id_post(s2, s3, c, addr_c, now_c),
    ensures
        a != b,
        b != c,
        a != c,
{
    lemma_next_ids_increase(s0, s1, s2, a, b, addr_a, addr_b, now_a, now_b);
    lemma_next_ids_increase(s1, s2, s3, b, c, addr_b, addr_c, now_b, now_c);
}

/// A received message whose code class is not 0 (a 2.xx, 4.xx or 5.xx
/// response) is held, and is what the runtime then hands out for its token
/// and address, when no response held before answers them; a message of
/// class 0 (a request or an empty message) leaves the held responses as they
/// were.
pub proof fn lemma_received_response_held(old: Core, new: Core, msg: Addrd<Message>, now: u64)
    requires
        msg_recvd_post(old, new, msg, now),
        resp_index(old.resps(), msg.0.token@, msg.1) == old.resps().len(),
    ensures
        msg.0.code.class != 0 ==> ({
            let k = resp_index(new.resps(), msg.0.token@, msg.1);
            &&& k < new.resps().len()
            &&& new.resps()[k] matches Some(r) && r.0.message() == msg.0 && r.1 == msg.1
        }),
        msg.0.code.class == 0 ==> new.resps() == old.resps(),
{
    let (s1, s2, s3) = choose|s1: Core, s2: Core, s3: Core|
        #![trigger seen_id_post(old, s1, msg.0.id.0, msg.1, now), seen_token_post(s1, s2, msg.0.token@, msg.1, now), process_acks_post(s2, s3, msg)]
        seen_id_post(old, s1, msg.0.id.0, msg.1, now) && seen_token_post(
            s1,
            s2,
            msg.0.token@,
            msg.1,
            now,
        ) && process_acks_post(s2, s3, msg) && if crate::msg::code::spec_code_kind(msg.0.code)
            == crate::msg::CodeKind::Response {
            exists|rp: Addrd<Resp>|
                #![trigger store_resp_post(s3, new, rp)]
                rp.0.message() == msg.0 && rp.1 == msg.1 && store_resp_post(s3, new, rp)
        } else {
            super::same_state(s3, new)
        };
    assert(s3.resps() == old.resps());
    crate::msg::code::lemma_code_kinds(msg.0.code);
    if msg.0.code.class != 0 {
        let rp = choose|rp: Addrd<Resp>|
            #![trigger store_resp_post(s3, new, rp)]
            rp.0.message() == msg.0 && rp.1 == msg.1 && store_resp_post(s3, new, rp);
        lemma_stored_resp_found(s3, new, rp);
    }
}

/// Nothing the runtime remembers of any address is stamped after `now`
pub open spec fn stamped_by(c: Core, now: u64) -> bool {
    &&& forall|a: SocketAddr| stamps_before(#[trigger] history_of(c.ids(), a), now)
    &&& forall|a: SocketAddr| stamps_before(#[trigger] history_of(c.tokens(), a), now)
}

proof fn lemma_history_of_other<V>(s: Seq<(SocketAddr, Seq<V>)>, a: SocketAddr, h: Seq<V>, b: SocketAddr)
    requires
        a != b,
    ensures
        history_of(with_history(s, a, h), b) == history_of(s, b),
{
    let t = with_history(s, a, h);
    lemma_addr_index(s, a);
    lemma_addr_index(s, b);
    lemma_addr_index(t, b);
    let i = addr_index(s, a);
    assert forall|j: int| 0 <= j < s.len() implies (#[trigger] t[j]).0 == b <==> s[j].0 == b by {
        if j == i {
            assert(s[j].0 == a);
        } else {
            assert(t[j] == s[j]);
        }
    }
    if i >= s.len() {
        assert(t[s.len() as int].0 == a);
    }
    let ib = addr_index(s, b);
    let it = addr_index(t, b);
    if it < ib {
        assert(t[it].0 == b);
    }
    if ib < it && ib < s.len() {
        assert(t[ib].0 == b);
    }
    if ib < s.len() {
        assert(it == ib);
        assert(t[ib] == (if ib == i { (a, h) } else { s[ib] }));
    } else {
        assert(it >= s.len());
    }
}

proof fn lemma_fresh_stamps<V>(h: Seq<(V, u64)>, now: u64, life: int)
    requires
        stamps_before(h, now),
    ensures
        stamps_before(fresh(h, now, life), now),
    decreases h.len(),
{
    if h.len() > 0 {
        assert(stamps_before(h.drop_last(), now)) by {
            assert forall|i: int| 0 <= i < h.drop_last().len() implies crate::time::spec_not_before(
                now,
                #[trigger] h.drop_last()[i].1,
            ) by {
                assert(h.drop_last()[i] == h[i]);
            }
        }
        lemma_fresh_stamps(h.drop_last(), now, life);
        let prev = fresh(h.drop_last(), now, life);
        let cur = fresh(h, now, life);
        assert forall|i: int| 0 <= i < cur.len() implies crate::time::spec_not_before(now, #[trigger] cur[i].1) by {
            if i < prev.len() {
                assert(cur[i] == prev[i]);
            } else {
                assert(cur[i] == h[h.len() - 1]);
            }
        }
    }
}

proof fn lemma_fresh_other_stamps<V>(h: Seq<(V, u64)>, now: u64, life: int, tok: V)
    requires
        stamps_before(h, now),
    ensures
        stamps_before(fresh_other(h, now, life, tok), now),
    decreases h.len(),
{
    if h.len() > 0 {
        assert(stamps_before(h.drop_last(), now)) by {
            assert forall|i: int| 0 <= i < h.drop_last().len() implies crate::time::spec_not_before(
                now,
                #[trigger] h.drop_last()[i].1,
            ) by {
                assert(h.drop_last()[i] == h[i]);
            }
        }
        lemma_fresh_other_stamps(h.drop_last(), now, life, tok);
        let prev = fresh_other(h.drop_last(), now, life, tok);
        let cur = fresh_other(h, now, life, tok);
        assert forall|i: int| 0 <= i < cur.len() implies crate::time::spec_not_before(now, #[trigger] cur[i].1) by {
            if i < prev.len() {
                assert(cur[i] == prev[i]);
            } else {
                assert(cur[i] == h[h.len() - 1]);
            }
        }
    }
}

proof fn lemma_push_now<V>(h: Seq<(V, u64)>, x: V, now: u64)
    requires
        stamps_before(h, now),
    ensures
        stamps_before(h.push((x, now)), now),
{
    assert forall|i: int| 0 <= i < h.push((x, now)).len() implies crate::time::spec_not_before(
        now,
        #[trigger] h.push((x, now))[i].1,
    ) by {
        if i < h.len() {
            assert(h.push((x, now))[i] == h[i]);
        }
    }
}

/// Recording a message id at `now` keeps every remembered stamp at or before
/// `now`, so the runtime can take the next step at the same instant
pub proof fn lemma_seen_id_keeps_stamps(old: Core, new: Core, id: u16, addr: SocketAddr, now: u64)
    requires
        stamped_by(old, now),
        seen_id_post(old, new, id, addr, now),
    ensures
        stamped_by(new, now),
{
    let kept = fresh(history_of(old.ids(), addr), now, old.lifetime());
    assert(stamps_before(history_of(old.ids(), addr), now));
    lemma_fresh_stamps(history_of(old.ids(), addr), now, old.lifetime());
    lemma_push_now(kept, id, now);
    assert forall|a: SocketAddr| stamps_before(#[trigger] history_of(new.ids(), a), now) by {
        if a == addr {
            super::lemma_history_of_with(old.ids(), addr, kept.push((id, now)));
        } else {
            lemma_history_of_other(old.ids(), addr, kept.push((id, now)), a);
            assert(stamps_before(history_of(old.ids(), a), now));
        }
    }
    assert forall|a: SocketAddr| stamps_before(#[trigger] history_of(new.tokens(), a), now) by {
        assert(stamps_before(history_of(old.tokens(), a), now));
    }
}

/// Recording a token at `now` keeps every remembered stamp at or before
/// `now`, so the runtime can take the next step at the same instant
pub proof fn lemma_seen_token_keeps_stamps(old: Core, new: Core, tok: Seq<u8>, addr: SocketAddr, now: u64)
    requires
        stamped_by(old, now),
        seen_token_post(old, new, tok, addr, now),
    ensures
        stamped_by(new, now),
{
    let kept = fresh_other(history_of(old.tokens(), addr), now, old.lifetime(), tok);
    assert(stamps_before(history_of(old.tokens(), addr), now));
    lemma_fresh_other_stamps(history_of(old.tokens(), addr), now, old.lifetime(), tok);
    lemma_push_now(kept, tok, now);
    assert forall|a: SocketAddr| stamps_before(#[trigger] history_of(new.tokens(), a), now) by {
        if a == addr {
            super::lemma_history_of_with(old.tokens(), addr, kept.push((tok, now)));
        } else {
            lemma_history_of_other(old.tokens(), addr, kept.push((tok, now)), a);
            assert(stamps_before(history_of(old.tokens(), a), now));
        }
    }
    assert forall|a: SocketAddr| stamps_before(#[trigger] history_of(new.ids(), a), now) by {
        assert(stamps_before(history_of(old.ids(), a), now));
    }
}

/// After [`Core::next_id`] at `now`, the runtime can give out another id at
/// `now`, unless the largest id seen has reached `u16::MAX`
pub proof fn lemma_can_send_after_next_id(old: Core, new: Core, id: u16, addr: SocketAddr, now: u64)
    requires
        can_send(old, now),
        seen_id_post(old, new, id, addr, now),
        new.largest_id() matches Some(l) ==> l < u16::MAX,
    ensures
        can_send(new, now),
{
    lemma_seen_id_keeps_stamps(old, new, id, addr, now);
}

} // verus!
