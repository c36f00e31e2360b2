//! The client side of the runtime: the messages it makes to send a request or
//! a ping. The caller sends them and polls for what comes back.
use no_std_net::SocketAddr;
use vstd::prelude::*;

use vstd::utf8::{decode_utf8, valid_utf8};

use crate::msg::opt::spec_get;
use crate::msg::{Code, Id, Message, MessageView, OptNumber, Token, Type};
use crate::net::{host_socket_addr, parse_host, Addrd};
use crate::req::Req;
use crate::retry::new_timer_state;
use crate::time::Instant;
use crate::utf8::str_from_utf8;

use super::error::{Error, What, When};
use super::{history_of, same_state, seen_id_post, seen_token_post, stamps_before, token_input, Core};

verus! {

/// The runtime can give out message ids and tokens at `now`: its timings can
/// be computed, nothing it remembers is stamped after `now`, and the largest
/// id it has seen can still be counted up from
pub open spec fn can_send(c: Core, now: u64) -> bool {
    &&& c.wf()
    &&& forall|a: SocketAddr| stamps_before(#[trigger] history_of(c.ids(), a), now)
    &&& forall|a: SocketAddr| stamps_before(#[trigger] history_of(c.tokens(), a), now)
    &&& c.largest_id() matches Some(l) ==> l < u16::MAX
}

/// The id [`Core::next_id`] gives out: one more than the largest id
/// remembered, or one below 256 when none is
pub open spec fn next_id_ok(old: Core, id: u16) -> bool {
    match old.largest_id() {
        Some(l) => id == l + 1,
        None => id <= 255,
    }
}

/// Two messages agree on everything but their id and token
pub open spec fn same_but_id_token(a: MessageView, b: MessageView) -> bool {
    &&& a.ty == b.ty
    &&& a.ver == b.ver
    &&& a.code == b.code
    &&& a.opts == b.opts
    &&& a.payload == b.payload
}

/// A message with id 0 gets a new id, recorded as seen for `addr`; another
/// keeps its id and the runtime is unchanged
pub open spec fn id_given(old: Core, new: Core, before: MessageView, after: MessageView, addr: SocketAddr, now: u64) -> bool {
    if before.id == 0 {
        next_id_ok(old, after.id) && seen_id_post(old, new, after.id, addr, now)
    } else {
        after.id == before.id && same_state(old, new)
    }
}

/// A message without a token gets a new one, recorded as seen for `addr`;
/// another keeps its token and the runtime is unchanged
pub open spec fn token_given(old: Core, new: Core, before: MessageView, after: MessageView, addr: SocketAddr, now: u64) -> bool {
    if before.token.len() == 0 {
        &&& after.token == crate::msg::token::blake2b_64(token_input(old.config().msg.token_seed, now))
        &&& seen_token_post(old, new, after.token, addr, now)
    } else {
        after.token == before.token && same_state(old, new)
    }
}

/// What [`Core::provision`] does to the runtime and to a message bound for
/// `addr`
pub open spec fn provisioned(old: Core, new: Core, before: MessageView, after: MessageView, addr: SocketAddr, now: u64) -> bool {
    &&& same_but_id_token(before, after)
    &&& exists|mid: Core|
        #![trigger id_given(old, mid, before, after, addr, now)]
        id_given(old, mid, before, after, addr, now) && token_given(mid, new, before, after, addr, now)
}

/// A confirmable message is queued to be sent again, its timer starting at
/// `now`; the runtime is otherwise unchanged
pub open spec fn queued(old: Core, new: Core, m: Addrd<Message>, now: u64) -> bool {
    &&& if m.0.ty == Type::Con {
        &&& new.retries().len() == old.retries().len() + 1
        &&& new.retries().drop_last() == old.retries()
        &&& new.retries().last().0.0@ == m.0@
        &&& new.retries().last().0.1 == m.1
        &&& new.retries().last().1 == new_timer_state(
            now,
            old.config().msg.con.unacked_retry_strategy,
            old.config().msg.con.max_attempts.0,
        )
    } else {
        new.retries() == old.retries()
    }
    &&& new.ids() == old.ids()
    &&& new.tokens() == old.tokens()
    &&& new.largest_id() == old.largest_id()
    &&& new.resps() == old.resps()
    &&& new.flings() == old.flings()
    &&& new.config() == old.config()
}

/// What [`Core::send_addrd_req`] makes of a request to `addr`: the message
/// to send (given an id and a token where it had none), queued for sending
/// again when confirmable, and the token to poll for the response with
pub open spec fn sent_req(old: Core, new: Core, req: Message, r: (Token, SocketAddr, Addrd<Message>), addr: SocketAddr, now: u64) -> bool {
    &&& r.1 == addr
    &&& r.2.1 == addr
    &&& r.0@ == r.2.0.token@
    &&& r.2.0.opts@ == req.opts@
    &&& exists|mid: Core|
        #![trigger provisioned(old, mid, req@, r.2.0@, addr, now)]
        provisioned(old, mid, req@, r.2.0@, addr, now) && queued(mid, new, r.2, now)
}

/// The retry strategy for unacknowledged confirmable messages has its bounds
/// in order, and when `ty` is confirmable there is room to queue one more
pub open spec fn can_queue(c: Core, ty: Type) -> bool {
    &&& c.config().msg.con.unacked_retry_strategy.spec_bounds().0
        <= c.config().msg.con.unacked_retry_strategy.spec_bounds().1
    &&& ty == Type::Con ==> c.retries().len() < 16
}

/// A ping: an empty confirmable message (code 0.00) with no token
pub open spec fn ping_view(id: u16) -> MessageView {
    MessageView {
        id,
        ty: Type::Con,
        ver: 1,
        token: Seq::empty(),
        code: Code { class: 0, detail: 0 },
        opts: Seq::empty(),
        payload: Seq::empty(),
    }
}

/// The port a Uri-Port value names: its first two bytes, big-endian, a
/// missing byte counting as 0
pub open spec fn spec_port_of(v: Seq<u8>) -> u16 {
    let hi: int = if v.len() > 0 {
        v[0] as int
    } else {
        0
    };
    let lo: int = if v.len() > 1 {
        v[1] as int
    } else {
        0
    };
    (hi * 256 + lo) as u16
}

fn port_of(v: &[u8]) -> (r: u16)
    ensures
        r == spec_port_of(v@),
{
    let hi: u16 = if v.len() > 0 {
        v[0] as u16
    } else {
        0
    };
    let lo: u16 = if v.len() > 1 {
        v[1] as u16
    } else {
        0
    };
    hi * 256 + lo
}

/// The first value of option `n` of a message, when it has one
pub open spec fn first_value(m: Message, n: u32) -> Option<Seq<u8>> {
    match spec_get(m.opts@, n) {
        Some(vs) => if vs.len() > 0 {
            Some(vs[0])
        } else {
            None
        },
        None => None,
    }
}

/// The Uri-Host value of a request
pub open spec fn req_host(req: Req) -> Seq<u8> {
    first_value(req.message(), 3)->Some_0
}

/// The port the Uri-Port value of a request names
pub open spec fn req_port(req: Req) -> u16 {
    spec_port_of(first_value(req.message(), 7)->Some_0)
}

/// A request names its destination: it has a Uri-Host value of at most 128
/// bytes and a Uri-Port value
pub open spec fn names_destination(req: Req) -> bool {
    &&& first_value(req.message(), 3) is Some
    &&& first_value(req.message(), 7) is Some
    &&& req_host(req).len() <= 128
}

/// What [`Core::send_req`] does: a Uri-Host that is not UTF-8 is refused and
/// nothing changes; otherwise the request is made ready for the address its
/// Uri-Host and Uri-Port name, as [`Core::send_addrd_req`] does
pub open spec fn send_req_post<S>(old: Core, new: Core, req: Req, r: Result<(Token, SocketAddr, Addrd<Message>), Error<S>>, now: u64) -> bool {
    if valid_utf8(req_host(req)) {
        &&& r matches Ok(t) && host_socket_addr(decode_utf8(req_host(req)), req_port(req)) == Some(t.1)
            && sent_req(old, new, req.message(), t, t.1, now)
        &&& new.wf()
    } else {
        &&& r matches Err(e) && e.what is HostInvalidUtf8 && e.when is Unknown
        &&& new == old
    }
}

impl Core {
    /// Give a message bound for `addr` a new id when its id is 0, and a new
    /// token when it has none (a request made by [`Req::new`] has neither)
    pub fn provision(&mut self, msg: &mut Message, addr: SocketAddr, now: Instant)
        requires
            can_send(*old(self), now.0),
        ensures
            final(self).wf(),
            provisioned(*old(self), *final(self), old(msg)@, final(msg)@, addr, now.0),
            final(msg).opts@ == old(msg).opts@,
            old(msg).wf() ==> final(msg).wf(),
    {
        let ghost s0 = *self;
        let ghost m0 = *msg;
        assert(stamps_before(history_of(s0.ids(), addr), now.0));
        assert(stamps_before(history_of(s0.tokens(), addr), now.0));
        if msg.id.0 == 0 {
            msg.id = self.next_id(addr, now);
        }
        let ghost s1 = *self;
        let ghost m1 = *msg;
        assert(id_given(s0, s1, m0@, msg@, addr, now.0));
        if msg.token.0.len() == 0 {
            msg.token = self.next_token(addr, now);
        }
        assert(token_given(s1, *self, m0@, msg@, addr, now.0));
        assert(id_given(s0, s1, m0@, msg@, addr, now.0));
    }

    /// Make the message that sends `req` to its address: it is given an id
    /// and a token where it has none, and when confirmable it is queued to be
    /// sent again until acknowledged. Gives the token and address to poll
    /// for the response with, and the message for the caller to send.
    pub fn send_addrd_req(&mut self, req: Addrd<Req>, now: Instant) -> (r: (Token, SocketAddr, Addrd<Message>))
        requires
            can_send(*old(self), now.0),
            can_queue(*old(self), req.0.message().ty),
        ensures
            final(self).wf(),
            sent_req(*old(self), *final(self), req.0.message(), r, req.1, now.0),
            req.0.message().wf() ==> r.2.0.wf(),
    {
        let Addrd(req, addr) = req;
        let ghost m0 = req.message();
        let mut msg: Message = Message::from(req);
        let ghost s0 = *self;
        self.provision(&mut msg, addr, now);
        let ghost s1 = *self;
        let token = msg.token.copied();
        let out = Addrd(msg, addr);
        self.enqueue_retry(&out, now);
        assert(queued(s1, *self, out, now.0));
        assert(provisioned(s0, s1, m0@, out.0@, addr, now.0));
        (token, addr, out)
    }

    /// Make the message that sends `req` to the address its Uri-Host and
    /// Uri-Port options name (see [`Core::send_addrd_req`]). The Uri-Port
    /// value gives the port from its first two bytes, big-endian. A Uri-Host
    /// that is not UTF-8 is refused; one that is must be an IP address.
    pub fn send_req<S>(&mut self, req: Req, now: Instant) -> (r: Result<(Token, SocketAddr, Addrd<Message>), Error<S>>)
        requires
            names_destination(req),
            valid_utf8(req_host(req)) ==> host_socket_addr(decode_utf8(req_host(req)), req_port(req)) is Some,
            can_send(*old(self), now.0),
            can_queue(*old(self), req.message().ty),
        ensures
            send_req_post(*old(self), *final(self), req, r, now.0),
            req.message().wf() ==> (r matches Ok(t) ==> t.2.0.wf()),
    {
        let port = {
            let vs = req.get_option(OptNumber(7)).unwrap();
            port_of(vs[0].0.as_slice())
        };
        let addr = {
            let vs = req.get_option(OptNumber(3)).unwrap();
            match str_from_utf8(vs[0].0.as_slice()) {
                Err(e) => {
                    return Err(When::Unknown.what(What::HostInvalidUtf8(e)));
                },
                Ok(host) => parse_host(host, port).unwrap(),
            }
        };
        let r = self.send_addrd_req(Addrd(req, addr), now);
        Ok(r)
    }

    /// [`Core::send_req`] where the Uri-Host is an IP address or not UTF-8;
    /// `None`, and nothing changes, where it is UTF-8 but not an IP address
    pub fn try_send_req<S>(&mut self, req: Req, now: Instant) -> (r: Option<Result<(Token, SocketAddr, Addrd<Message>), Error<S>>>)
        requires
            names_destination(req),
            can_send(*old(self), now.0),
            can_queue(*old(self), req.message().ty),
        ensures
            r is None <==> (valid_utf8(req_host(req)) && host_socket_addr(
                decode_utf8(req_host(req)),
                req_port(req),
            ) is None),
            r is None ==> *final(self) == *old(self),
            r matches Some(x) ==> send_req_post(*old(self), *final(self), req, x, now.0),
            req.message().wf() ==> (r matches Some(Ok(t)) ==> t.2.0.wf()),
    {
        let port = {
            let vs = req.get_option(OptNumber(7)).unwrap();
            port_of(vs[0].0.as_slice())
        };
        let parses = {
            let vs = req.get_option(OptNumber(3)).unwrap();
            match str_from_utf8(vs[0].0.as_slice()) {
                Err(_) => true,
                Ok(host) => parse_host(host, port).is_some(),
            }
        };
        if parses {
            Some(self.send_req(req, now))
        } else {
            None
        }
    }

    /// What polling for a request makes of the datagram a step received: no
    /// datagram means nothing yet (`None`); a datagram that is not a message
    /// is refused with the parse error; a message is taken as a request
    pub fn poll_req<S>(dgram: Option<Addrd<Vec<u8>>>) -> (r: Option<Result<Addrd<Req>, Error<S>>>)
        ensures
            match dgram {
                None => r is None,
                Some(d) => match crate::from_bytes::spec_parse_message(d.0@) {
                    Ok(m) => r matches Some(Ok(q)) && q.1 == d.1 && q.0.message()@ == m,
                    Err(e) => r matches Some(Err(x)) && x.what == What::<S>::FromBytes(e) && x.when is Polling,
                },
            },
    {
        match dgram {
            None => None,
            Some(Addrd(bytes, addr)) => match Message::try_from_bytes(&bytes) {
                Ok(m) => Some(Ok(Addrd(Req::from(m), addr))),
                Err(e) => Some(Err(When::Polling.what(What::FromBytes(e)))),
            },
        }
    }

    /// Make a ping for the CoAP server at `host` and `port`: an empty
    /// confirmable message with a new id and no token, for the caller to
    /// send. A host that is not an IP address is refused, and nothing changes.
    pub fn ping<S>(&mut self, host: &str, port: u16, now: Instant) -> (r: Result<(Id, Addrd<Message>), Error<S>>)
        requires
            can_send(*old(self), now.0),
        ensures
            match host_socket_addr(host@, port) {
                None => r matches Err(e) && e.what is HostInvalidIpAddress && e.when is Unknown
                    && *final(self) == *old(self),
                Some(addr) => r matches Ok((id, m)) && m.1 == addr && m.0@ == ping_view(id.0)
                    && m.0.wf() && next_id_ok(*old(self), id.0) && seen_id_post(
                    *old(self),
                    *final(self),
                    id.0,
                    addr,
                    now.0,
                ) && final(self).wf(),
            },
    {
        match parse_host(host, port) {
            None => Err(When::Unknown.what(What::HostInvalidIpAddress)),
            Some(addr) => {
                assert(stamps_before(history_of(self.ids(), addr), now.0));
                let id = self.next_id(addr, now);
                let msg = Message::new(Type::Con, Code::new(0, 0), id, Token(Vec::new()));
                Ok((id, Addrd(msg, addr)))
            },
        }
    }
}

} // verus!
