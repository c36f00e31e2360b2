use no_std_net::{Ipv4Addr, SocketAddr, SocketAddrV4};
use toad::cache_key::DefaultCacheKey;
use toad::msg::{Code, Id, Message, OptNumber, OptValue, OptionMap, Payload, Token, Type, Version};
use toad::net::Addrd;
use toad::option::{ContentFormat, ToCoapValue};
use toad::req::{Error as BuildError, Req, ReqBuilder};
use toad::resp::{code, Resp};
use toad::retry::WouldBlock;
use toad::runtime::{Core, RetryDecision};
use toad::time::Instant;

fn addr(port: u16) -> SocketAddr {
    SocketAddr::V4(SocketAddrV4::new(Ipv4Addr::new(127, 0, 0, 1), port))
}

fn msg(ty: Type, code: Code, id: u16, token: &[u8]) -> Message {
    Message::new(ty, code, Id(id), Token(token.to_vec()))
}

#[test]
fn next_id_counts_up_from_largest_seen() {
    let mut core = Core::new();
    let now = Instant::new(1_000);
    core.seen_id(Addrd(Id(41), addr(1)), now);
    assert_eq!(core.next_id(addr(1), now), Id(42));
    // the largest of the remembered ids wins
    core.seen_id(Addrd(Id(7), addr(1)), now);
    assert_eq!(core.next_id(addr(1), now), Id(43));
}

#[test]
fn first_id_is_random_below_256() {
    let mut core = Core::new();
    let id = core.next_id(addr(1), Instant::new(0));
    assert!(id.0 <= 255);
}

#[test]
fn old_ids_are_forgotten() {
    let mut core = Core::new();
    core.seen_id(Addrd(Id(900), addr(1)), Instant::new(0));
    // after an exchange lifetime the id is no longer remembered
    core.seen_id(Addrd(Id(5), addr(1)), Instant::new(208_200));
    assert_eq!(core.next_id(addr(1), Instant::new(208_200)), Id(6));
}

#[test]
fn tokens_come_from_seed_and_time() {
    let mut a = Core::new();
    let mut b = Core::new();
    let t1 = a.next_token(addr(1), Instant::new(10));
    let t2 = b.next_token(addr(1), Instant::new(10));
    let t3 = b.next_token(addr(1), Instant::new(11));
    assert_eq!(t1, t2);
    assert_ne!(t1, t3);
    let mut bytes = 0u16.to_be_bytes().to_vec();
    bytes.extend_from_slice(&10u64.to_be_bytes());
    assert_eq!(t1, Token::opaque(&bytes));
}

#[test]
fn ack_removes_queued_con() {
    let mut core = Core::new();
    let now = Instant::new(0);
    let con = Addrd(msg(Type::Con, Code::get(), 9, &[1]), addr(2));
    core.enqueue_retry(&con, now);
    core.enqueue_retry(&Addrd(msg(Type::Non, Code::get(), 10, &[2]), addr(2)), now);
    assert_eq!(core.retry_count(), 1);
    assert_eq!(core.check_ping(Id(9), addr(2)), Err(WouldBlock));

    // an ack from another address does not count
    core.process_acks(&Addrd(msg(Type::Ack, Code::empty(), 9, &[]), addr(3)));
    assert_eq!(core.retry_count(), 1);

    core.process_acks(&Addrd(msg(Type::Ack, Code::empty(), 9, &[]), addr(2)));
    assert_eq!(core.retry_count(), 0);
    assert_eq!(core.check_ping(Id(9), addr(2)), Ok(()));
}

#[test]
fn retries_follow_the_timer() {
    let mut core = Core::new();
    let con = Addrd(msg(Type::Con, Code::get(), 1, &[1]), addr(2));
    core.enqueue_retry(&con, Instant::new(0));
    assert!(matches!(core.retry_step(0, Instant::new(1)), RetryDecision::Wait));
    // the first delay is at most a second under the default strategy
    match core.retry_step(0, Instant::new(1_000)) {
        RetryDecision::Send(m) => assert_eq!(m, con),
        other => panic!("{other:?}"),
    }
    // four attempts in all, then give up
    assert!(matches!(core.retry_step(0, Instant::new(1_000_000)), RetryDecision::Send(_)));
    assert!(matches!(core.retry_step(0, Instant::new(1_000_000)), RetryDecision::Send(_)));
    assert!(matches!(core.retry_step(0, Instant::new(1_000_000)), RetryDecision::GiveUp));
}

#[test]
fn responses_are_matched_by_token_and_address() {
    let mut core = Core::new();
    let now = Instant::new(0);
    let resp = msg(Type::Ack, code::content(), 5, &[7, 7]);
    core.msg_recvd(Addrd(resp.clone(), addr(4)), now);
    assert_eq!(core.try_get_resp(&Token(vec![7, 7]), addr(5)), Err(WouldBlock));
    assert_eq!(core.try_get_resp(&Token(vec![7, 8]), addr(4)), Err(WouldBlock));
    let got = core.try_get_resp(&Token(vec![7, 7]), addr(4)).unwrap();
    assert_eq!(Message::from(got), resp);
    // taken once only
    assert_eq!(core.try_get_resp(&Token(vec![7, 7]), addr(4)), Err(WouldBlock));
}

#[test]
fn requests_are_not_stored_as_responses() {
    let mut core = Core::new();
    core.msg_recvd(Addrd(msg(Type::Con, Code::get(), 5, &[1]), addr(4)), Instant::new(0));
    assert_eq!(core.try_get_resp(&Token(vec![1]), addr(4)), Err(WouldBlock));
}

#[test]
fn full_response_store_frees_taken_slots() {
    let mut core = Core::new();
    for i in 0..16u8 {
        assert!(core.resp_room());
        core.store_resp(Addrd(Resp::from(msg(Type::Non, code::content(), 0, &[i])), addr(4)));
    }
    assert!(!core.resp_room());
    let _ = core.try_get_resp(&Token(vec![3]), addr(4)).unwrap();
    assert!(core.resp_room());
    core.store_resp(Addrd(Resp::from(msg(Type::Non, code::content(), 0, &[99])), addr(4)));
    assert!(core.try_get_resp(&Token(vec![99]), addr(4)).is_ok());
    assert!(core.try_get_resp(&Token(vec![15]), addr(4)).is_ok());
}

#[test]
fn garbage_datagram_is_refused() {
    let mut core = Core::new();
    assert!(core.dgram_recvd(&Addrd(vec![0xff], addr(1)), Instant::new(0)).is_err());
    let bytes = msg(Type::Non, code::content(), 3, &[4]).try_into_bytes(None).unwrap();
    assert!(core.dgram_recvd(&Addrd(bytes, addr(1)), Instant::new(0)).is_ok());
    assert!(core.try_get_resp(&Token(vec![4]), addr(1)).is_ok());
}

#[test]
fn resp_for_request() {
    let mut req = Req::get("hello");
    assert!(Resp::for_request(&req).unwrap().msg_type() == Type::Ack);
    req.non();
    let rep = Resp::for_request(&req).unwrap();
    assert_eq!(rep.msg_type(), Type::Non);
    assert_eq!(rep.code(), code::content());
    let mut ack = Message::new(Type::Ack, Code::empty(), Id(1), Token(vec![]));
    ack.ty = Type::Ack;
    assert!(Resp::for_request(&Req::from(ack)).is_none());
}

#[test]
fn req_helpers() {
    let mut req = Req::post("hello");
    req.set_payload("john");
    assert_eq!(req.payload_str().unwrap(), "john");
    assert_eq!(req.path(), Ok(Some("hello".to_string())));
    let path = req.get_option(OptNumber(11)).unwrap();
    assert_eq!(path.first().unwrap(), &OptValue("hello".as_bytes().to_vec()));
    assert_eq!(req.method().code(), Code::post());
}

#[test]
fn builder_refuses_repeated_single_options() {
    let built = ReqBuilder::get("a").host("example").port(5683u16).build().unwrap();
    assert_eq!(built.get_option(OptNumber(7)).unwrap()[0], OptValue(vec![0x16, 0x33]));
    match ReqBuilder::get("a").host("x").host("y").build() {
        Err(BuildError::OptionNotRepeatable { number, old, new }) => {
            assert_eq!(number, OptNumber(3));
            assert_eq!(old, OptValue(b"x".to_vec()));
            assert_eq!(new, OptValue(b"y".to_vec()));
        },
        other => panic!("{other:?}"),
    }
    // the path is set when the builder is made
    assert!(ReqBuilder::get("a").path("b").build().is_err());
}

#[test]
fn content_format_bytes() {
    assert_eq!(ContentFormat::Json.bytes(), [0, 50]);
    assert_eq!(ContentFormat::Other(0x1234).to_coap_value(), vec![0x12, 0x34]);
    assert_eq!(300u16.to_coap_value(), vec![1, 44]);
}

#[test]
fn cache_key_ignores_no_cache_key_options() {
    let mut a = msg(Type::Con, Code::get(), 1, &[1]);
    let mut b = msg(Type::Non, Code::get(), 2, &[2]);
    a.set_path("x").unwrap();
    b.set_path("x").unwrap();
    a.set_size1(10).unwrap();
    let ka = DefaultCacheKey::new().cache_key(&a);
    let kb = DefaultCacheKey::new().cache_key(&b);
    assert_eq!(ka, kb);
    let mut c = msg(Type::Con, Code::get(), 1, &[1]);
    c.set_path("y").unwrap();
    assert_ne!(ka, DefaultCacheKey::new().cache_key(&c));
}

#[test]
fn largest_id_is_tracked() {
    let mut core = Core::new();
    assert_eq!(core.largest_id_seen(), None);
    core.seen_id(Addrd(Id(9), addr(1)), Instant::new(0));
    core.seen_id(Addrd(Id(4), addr(1)), Instant::new(0));
    assert_eq!(core.largest_id_seen(), Some(9));
}

#[test]
fn a_stored_response_is_found_by_its_token() {
    let mut core = Core::new();
    let rep = Addrd(Resp::from(msg(Type::Non, code::content(), 2, &[5, 6])), addr(7));
    core.store_resp(rep.clone());
    let got = core.try_get_resp(&Token(vec![5, 6]), addr(7)).unwrap();
    assert_eq!(Message::from(got), Message::from(rep.0));
}

#[test]
fn ping() {
    let mut client = Core::new();
    let now = Instant::new(0);
    let (id, sent) = client.ping::<()>("0.0.0.0", 5632, now).unwrap();
    let addr = sent.1;

    let resp = Message { id,
                         token: Token(vec![]),
                         code: Code::new(0, 0),
                         ver: Version::default(),
                         ty: Type::Reset,
                         payload: Payload(vec![]),
                         opts: OptionMap::default() };

    let _bytes = resp.try_into_bytes(Some(1152)).unwrap();

    client.check_ping(id, addr).unwrap();
}

#[test]
fn client_flow() {
    let req = Req::get("");
    let token = req.msg().token.clone();
    let resp = Resp::for_request(&req).unwrap();
    let bytes = Message::from(resp).try_into_bytes(None).unwrap();

    let addr = SocketAddr::V4(SocketAddrV4::new(Ipv4Addr::new(0, 0, 0, 0), 1234));
    let mut client = Core::new();
    client.dgram_recvd(&Addrd(bytes.clone(), addr), Instant::new(0)).unwrap();

    let rep = client.try_get_resp(&token, addr).unwrap();
    assert_eq!(bytes, Message::from(rep).try_into_bytes(None).unwrap());
}

#[test]
fn path_joins_every_segment() {
    assert_eq!(Req::get("a/b/c").path(), Ok(Some("a/b/c".to_string())));
    let mut bare = Message::new(Type::Con, Code::get(), Id(1), Token(vec![]));
    bare.ty = Type::Con;
    assert_eq!(Req::from(bare).path(), Ok(None));
}

#[test]
fn ids_given_in_turn_are_distinct() {
    let mut core = Core::new();
    let now = Instant::new(5);
    let a = core.next_id(addr(1), now);
    let b = core.next_id(addr(1), now);
    let c = core.next_id(addr(1), now);
    assert!(a.0 < b.0 && b.0 < c.0);
    core.seen_id(Addrd(Id(500), addr(2)), now);
    assert_eq!(core.next_id(addr(2), now), Id(501));
}

#[test]
fn ack_removes_every_matching_con() {
    let mut core = Core::new();
    let now = Instant::new(0);
    core.enqueue_retry(&Addrd(msg(Type::Con, Code::get(), 9, &[1]), addr(2)), now);
    core.enqueue_retry(&Addrd(msg(Type::Con, Code::get(), 10, &[2]), addr(2)), now);
    core.enqueue_retry(&Addrd(msg(Type::Con, Code::get(), 9, &[3]), addr(2)), now);
    assert_eq!(core.retry_count(), 3);
    core.process_acks(&Addrd(msg(Type::Reset, Code::empty(), 9, &[]), addr(2)));
    assert_eq!(core.retry_count(), 1);
    assert_eq!(core.check_ping(Id(9), addr(2)), Ok(()));
    assert_eq!(core.check_ping(Id(10), addr(2)), Err(WouldBlock));
}

#[test]
fn empty_requests_get_no_response() {
    let mut req = Req::get("x");
    req.msg_mut().code = Code::new(0, 0);
    assert!(Resp::for_request(&req).is_none());
    req.non();
    assert!(Resp::for_request(&req).is_none());
}
