use no_std_net::{IpAddr, Ipv4Addr, Ipv6Addr, SocketAddr, SocketAddrV4};
use toad::blocking::ClientResultExt;
use toad::msg::{Code, Id, Message, OptNumber, OptionMap, Payload, Token, Type};
use toad::net::Addrd;
use toad::platform::{dgram_of, ClockError, Effect, Error as PlatformErr, PlatformError};
use toad::req::{Req, ReqBuilder};
use toad::runtime::{Core, Error, What, When};
use toad::time::{Instant, Timeout};
use toad::to_bytes::MessageToBytesError;
use toad::toad_string::String;

fn addr(port: u16) -> SocketAddr {
    SocketAddr::V4(SocketAddrV4::new(Ipv4Addr::new(127, 0, 0, 1), port))
}

fn req_to(host: &str, port: u16) -> Req {
    ReqBuilder::get("hello").host(host).port(port).build().unwrap()
}

#[test]
fn ping_is_an_empty_con() {
    let mut core = Core::new();
    let now = Instant::new(0);
    let (id, m) = core.ping::<()>("127.0.0.1", 5683, now).unwrap();
    assert_eq!(m.1, addr(5683));
    assert_eq!(m.0.ty, Type::Con);
    assert_eq!(m.0.code, Code::new(0, 0));
    assert_eq!(m.0.id, id);
    assert_eq!(m.0.token, Token(vec![]));
    assert_eq!(m.0.opts, OptionMap::default());
    assert!(id.0 <= 255);
    // the next id counts up from the one given out
    let (id2, _) = core.ping::<()>("127.0.0.1", 5683, now).unwrap();
    assert_eq!(id2.0, id.0 + 1);
}

#[test]
fn ping_accepts_ipv6() {
    let mut core = Core::new();
    let (_, m) = core.ping::<()>("::1", 1234, Instant::new(0)).unwrap();
    assert_eq!(m.1, SocketAddr::new(IpAddr::V6(Ipv6Addr::new(0, 0, 0, 0, 0, 0, 0, 1)), 1234));
}

#[test]
fn ping_refuses_a_host_name() {
    let mut core = Core::new();
    let e = core.ping::<()>("localhost", 5683, Instant::new(0)).unwrap_err();
    assert!(matches!(e.what, What::HostInvalidIpAddress));
    assert!(matches!(e.when, When::Unknown));
    // nothing was given out
    core.seen_id(Addrd(Id(41), addr(1)), Instant::new(0));
    assert_eq!(core.next_id(addr(1), Instant::new(0)), Id(42));
}

#[test]
fn send_req_provisions_and_queues() {
    let mut core = Core::new();
    let now = Instant::new(10);
    let (token, to, m) = core.send_req::<()>(req_to("127.0.0.1", 5683), now).unwrap();
    assert_eq!(to, addr(5683));
    assert_eq!(m.1, addr(5683));
    assert_eq!(m.0.token, token);
    assert_eq!(token.0.len(), 8);
    let mut seed = 0u16.to_be_bytes().to_vec();
    seed.extend_from_slice(&10u64.to_be_bytes());
    assert_eq!(token, Token::opaque(&seed));
    assert_eq!(m.0.ty, Type::Con);
    assert_eq!(m.0.code, Code::get());
    assert_eq!(core.retry_count(), 1);

    // an ACK for it takes it off the queue again
    let ack = Message::new(Type::Ack, Code::new(0, 0), m.0.id, Token(vec![]));
    core.process_acks(&Addrd(ack, addr(5683)));
    assert_eq!(core.retry_count(), 0);
}

#[test]
fn send_addrd_req_keeps_a_given_id_and_token() {
    let mut core = Core::new();
    let mut req = Req::get("x");
    req.msg_mut().id = Id(77);
    req.msg_mut().token = Token(vec![1, 2]);
    req.non();
    let (token, to, m) = core.send_addrd_req(Addrd(req, addr(9)), Instant::new(0));
    assert_eq!(token, Token(vec![1, 2]));
    assert_eq!(to, addr(9));
    assert_eq!(m.0.id, Id(77));
    // a non-confirmable request is not queued
    assert_eq!(core.retry_count(), 0);
}

#[test]
fn send_req_reads_a_short_port_as_the_high_byte() {
    let mut core = Core::new();
    let req = ReqBuilder::get("x").host("127.0.0.1").option(OptNumber(7), 0x16u8).build().unwrap();
    let (_, to, _) = core.send_req::<()>(req, Instant::new(0)).unwrap();
    assert_eq!(to, addr(0x1600));
}

#[test]
fn send_req_refuses_a_host_that_is_not_utf8() {
    let mut core = Core::new();
    let req = ReqBuilder::get("x").option(OptNumber(3), &[0xFFu8][..]).port(1).build().unwrap();
    let e = core.send_req::<()>(req, Instant::new(0)).unwrap_err();
    assert!(matches!(e.what, What::HostInvalidUtf8(_)));
    assert_eq!(core.retry_count(), 0);
}

#[test]
fn try_send_req_gives_none_for_a_host_name() {
    let mut core = Core::new();
    assert!(core.try_send_req::<()>(req_to("example.com", 5683), Instant::new(0)).is_none());
    assert_eq!(core.retry_count(), 0);
    assert!(core.try_send_req::<()>(req_to("10.0.0.1", 5683), Instant::new(0)).unwrap().is_ok());
    assert_eq!(core.retry_count(), 1);
}

#[test]
fn poll_req_parses_datagrams() {
    assert!(Core::poll_req::<()>(None).is_none());
    let msg = Message::new(Type::Non, Code::get(), Id(3), Token(vec![4]));
    let bytes = msg.clone().try_into_bytes(None).unwrap();
    let req = Core::poll_req::<()>(Some(Addrd(bytes, addr(2)))).unwrap().unwrap();
    assert_eq!(req.1, addr(2));
    assert_eq!(req.0.msg(), &msg);
    let e = Core::poll_req::<()>(Some(Addrd(vec![], addr(2)))).unwrap().unwrap_err();
    assert!(e.message_parse_error().is_some());
    assert!(matches!(e.when, When::Polling));
}

#[test]
fn timeout_ok_forgives_never_acked() {
    let ok: Result<u8, Error<()>> = Ok(1);
    assert!(matches!(ok.timeout_ok(), Ok(Some(1))));
    let never: Result<u8, Error<()>> = Err(When::Unknown.what(What::MessageNeverAcked));
    assert!(matches!(never.timeout_ok(), Ok(None)));
    let other: Result<u8, Error<()>> = Err(When::Unknown.what(What::Timeout));
    assert!(matches!(other.timeout_ok(), Err(Error { what: What::Timeout, .. })));
}

#[test]
fn timeouts() {
    let t = Timeout::Millis(100);
    assert!(!t.timed_out(Instant::new(1_000), Instant::new(1_100)));
    assert!(t.timed_out(Instant::new(1_000), Instant::new(1_101)));
    // the counter wraps
    assert!(!t.timed_out(Instant::new(u64::MAX - 10), Instant::new(50)));
    assert!(!Timeout::Never.timed_out(Instant::new(0), Instant::new(u64::MAX / 2)));
}

#[test]
fn dgram_of_writes_the_message() {
    let msg = Message::new(Type::Con, Code::get(), Id(12), Token(vec![9]));
    let bytes = msg.clone().try_into_bytes(None).unwrap();
    let (id, token, d) = dgram_of(Addrd(msg.clone(), addr(1)), Some(1152)).unwrap();
    assert_eq!(id, Id(12));
    assert_eq!(token, Token(vec![9]));
    assert_eq!(d, Addrd(bytes, addr(1)));
    // 4 header bytes and 1 token byte; no payload, so no payload marker
    assert_eq!(dgram_of(Addrd(msg, addr(1)), Some(2)),
               Err(MessageToBytesError::TooLong { capacity: 2, size: 5 }));
}

#[test]
fn message_equality_compares_every_field() {
    let a = Message::new(Type::Con, Code::get(), Id(1), Token(vec![1]));
    assert!(a == a.clone());
    assert!(a != Message::new(Type::Non, Code::get(), Id(1), Token(vec![1])));
    let mut c = a.clone();
    c.payload = Payload(vec![1]);
    assert!(a != c);
    assert!(a != Message::new(Type::Con, Code::get(), Id(2), Token(vec![1])));
    assert!(a != Message::new(Type::Con, Code::get(), Id(1), Token(vec![2])));
}

#[test]
fn effects_compare_by_content() {
    let m = Addrd(Message::new(Type::Con, Code::get(), Id(1), Token(vec![])), addr(1));
    assert!(Effect::Send(m.clone()) == Effect::Send(m.clone()));
    assert!(Effect::Send(m.clone()) != Effect::Send(Addrd(m.0.clone(), addr(2))));
    let log = || Effect::Log(log::Level::Info, String::<1000>::from_str("hi"));
    assert!(log() == log());
    assert!(log() != Effect::Log(log::Level::Warn, String::<1000>::from_str("hi")));
    // Nop equals nothing, not even itself
    assert!(Effect::Nop != Effect::Nop);
    assert!(Effect::Send(m.clone()).is_send());
    assert_eq!(Effect::Send(m.clone()).get_send(), Some(&m));
    assert!(!Effect::default().is_send());
}

#[test]
fn platform_errors_wrap_their_cause() {
    let e: PlatformErr<u8, u16> = PlatformError::msg_to_bytes(MessageToBytesError::TooLong { capacity: 1, size: 2 });
    assert!(matches!(e, PlatformErr::MessageToBytes(_)));
    assert!(matches!(<PlatformErr<u8, u16> as PlatformError<u8, u16>>::step(3), PlatformErr::Step(3)));
    assert!(matches!(<PlatformErr<u8, u16> as PlatformError<u8, u16>>::socket(4), PlatformErr::Socket(4)));
    assert!(matches!(<PlatformErr<u8, u16> as PlatformError<u8, u16>>::clock(ClockError), PlatformErr::Clock(ClockError)));
}

#[test]
fn as_mut_reaches_the_data() {
    let mut a = Addrd(5u8, addr(1));
    *a.as_mut() = 6;
    assert_eq!(a, Addrd(6, addr(1)));

    let mut r = Req::get("x");
    AsMut::<Message>::as_mut(&mut r).id = Id(3);
    assert_eq!(r.msg().id, Id(3));

    let mut p = toad::resp::Resp::from(Message::new(Type::Ack, Code::new(2, 5), Id(1), Token(vec![])));
    AsMut::<Message>::as_mut(&mut p).id = Id(4);
    assert_eq!(Message::from(p).id, Id(4));
}

#[test]
fn all_coap_devices_is_the_multicast_address() {
    assert_eq!(toad::multicast::ALL_COAP_DEVICES_IP, [224, 0, 1, 187]);
    assert_eq!(toad::multicast::all_coap_devices(5683),
               SocketAddr::V4(SocketAddrV4::new(Ipv4Addr::new(224, 0, 1, 187), 5683)));
}
