use no_std_net::{Ipv4Addr, SocketAddr, SocketAddrV4};
use toad::msg::{Code, Id, Message, Token, Type};
use toad::net::Addrd;
use toad::req::{Method, Req};
use toad::resp::code;
use toad::server::ap::state::{Combine, Hydrated};
use toad::server::ap::{Ap, Hydrate, Respond};
use toad::server::{method, path, respond, Error, Run, ServerAction};

fn addr(port: u16) -> SocketAddr {
    SocketAddr::V4(SocketAddrV4::new(Ipv4Addr::new(0, 0, 0, 0), port))
}

fn case<S1, S2, S3>(a: Ap<S1, (), ()>, b: Ap<S2, (), ()>, expect: Ap<S3, (), ()>)
    where S1: Combine<S2>
{
    assert_eq!(a.bind(move |_| b).pretend_unhydrated(), expect.pretend_unhydrated());
}

#[test]
fn ap_variant_precedence() {
    let addr = addr(80);
    let req = || Req::get("foo");

    let ok = || Ap::<_, (), ()>::ok(());
    let err = || Ap::<_, (), ()>::err(());
    let ok_hy = || Ap::<_, (), ()>::ok_hydrated((), Hydrate::from_request(Addrd(req(), addr)));
    let reject = || Ap::<_, (), ()>::reject();
    let respond = || Ap::<_, (), ()>::respond(Respond::new(code::content(), vec![], None));
    let reject_hy = || Ap::<_, (), ()>::reject_hydrated(Addrd(req(), addr));
    let respond_hy = || {
        Ap::<_, (), ()>::respond_hydrated(Addrd(req(), addr),
                                          Respond::new(code::content(), vec![], None))
    };

    // Ok is the lowest precedence and loses to every other variant
    case(ok(), ok(), ok());
    case(ok(), err(), err());
    case(ok(), ok_hy(), ok_hy());
    case(ok(), reject(), reject());
    case(ok(), respond(), respond());
    case(ok(), reject_hy(), reject_hy());
    case(ok(), respond_hy(), respond_hy());

    // OkHydrated will only win against Ok, and loses to (but hydrates) every other variant
    case(ok_hy(), ok(), ok_hy());
    case(ok_hy(), err(), err());
    case(ok_hy(), ok_hy(), ok_hy());
    case(ok_hy(), reject(), reject_hy());
    case(ok_hy(), respond(), respond_hy());
    case(ok_hy(), reject_hy(), reject_hy());
    case(ok_hy(), respond_hy(), respond_hy());

    // Bind is skipped on Err; loses to nothing
    case(err(), ok(), err());
    case(err(), err(), err());
    case(err(), ok_hy(), err());
    case(err(), reject(), err());
    case(err(), respond(), err());
    case(err(), reject_hy(), err());
    case(err(), respond_hy(), err());

    // Bind is skipped on Respond; loses to nothing
    case(respond(), ok(), respond());
    case(respond(), err(), respond());
    case(respond(), ok_hy(), respond());
    case(respond(), reject(), respond());
    case(respond(), respond(), respond());
    case(respond(), reject_hy(), respond());
    case(respond(), respond_hy(), respond());

    // Bind is skipped on RespondHydrated; loses to nothing
    case(respond_hy(), ok(), respond_hy());
    case(respond_hy(), err(), respond_hy());
    case(respond_hy(), ok_hy(), respond_hy());
    case(respond_hy(), reject(), respond_hy());
    case(respond_hy(), respond(), respond_hy());
    case(respond_hy(), reject_hy(), respond_hy());
    case(respond_hy(), respond_hy(), respond_hy());

    // Bind is skipped on Reject; loses to nothing
    case(reject(), ok(), reject());
    case(reject(), err(), reject());
    case(reject(), ok_hy(), reject());
    case(reject(), reject(), reject());
    case(reject(), respond(), reject());
    case(reject(), reject_hy(), reject());
    case(reject(), respond_hy(), reject());

    // Bind is skipped on RejectHydrated; loses to nothing
    case(reject_hy(), ok(), reject_hy());
    case(reject_hy(), err(), reject_hy());
    case(reject_hy(), ok_hy(), reject_hy());
    case(reject_hy(), reject(), reject_hy());
    case(reject_hy(), respond(), reject_hy());
    case(reject_hy(), reject_hy(), reject_hy());
    case(reject_hy(), respond_hy(), reject_hy());
}

fn req_with_path(p: &str) -> Addrd<Req> {
    let msg = Message::new(Type::Con, Code::get(), Id(0), Token(vec![]));
    let mut r = Addrd(Req::from(msg), addr(1111));
    r.data_mut().msg_mut().set_path(p).unwrap();
    r
}

#[test]
fn rest() {
    let ap = Ap::<_, (), ()>::ok_hydrated((), Hydrate::from_request(req_with_path("foo/bar")));
    let ap_path = ap.pipe(path::rest(|(), s| Ap::ok(s.to_string())));

    assert_eq!(ap_path.clone().try_unwrap_ok(), Ok("foo/bar".to_string()));

    assert_eq!(ap_path.pipe(path::rest(|_, s| Ap::ok(s.to_string()))).try_unwrap_ok(),
               Ok("".to_string()));
}

#[test]
fn rest_is() {
    let pass = Hydrate::from_request(req_with_path("foo/bar"));
    let fail = Hydrate::from_request(req_with_path("foot/bart"));

    let check = |hy| {
        Ap::<_, (), ()>::ok_hydrated((), hy).pipe(path::check::rest_is(|p| p == "foo/bar"))
                                            .try_unwrap_ok()
    };

    assert!(matches!(check(pass), Ok(_)));
    assert!(matches!(check(fail), Err(_)));
}

#[test]
fn rest_equals() {
    let pass = Hydrate::from_request(req_with_path("foo/bar"));
    let fail = Hydrate::from_request(req_with_path("foot/bart"));

    let check = |hy| {
        Ap::<_, (), ()>::ok_hydrated((), hy).pipe(path::check::rest_equals("foo/bar"))
                                            .try_unwrap_ok()
    };

    assert!(matches!(check(pass), Ok(_)));
    assert!(matches!(check(fail), Err(_)));
}

#[test]
fn ends_with() {
    let pass = Hydrate::from_request(req_with_path("foo/bar"));
    let fail = Hydrate::from_request(req_with_path("foot/bart"));

    let check = |hy| {
        Ap::<_, (), ()>::ok_hydrated((), hy).pipe(path::check::ends_with("bar"))
                                            .try_unwrap_ok()
    };

    assert!(matches!(check(pass), Ok(_)));
    assert!(matches!(check(fail), Err(_)));
}

#[test]
fn next_segment() {
    let hy = Hydrate::from_request(req_with_path("foot/bart"));

    let ap = Ap::<_, (), ()>::ok_hydrated((), hy).pipe(path::segment::next(|_, s| {
                                                           Ap::ok(s.unwrap().to_string())
                                                       }));

    assert_eq!(ap.clone().try_unwrap_ok(), Ok("foot".to_string()));

    assert_eq!(ap.pipe(path::segment::next(|_, s| Ap::ok(s.unwrap().to_string())))
                 .try_unwrap_ok(),
               Ok("bart".to_string()));
}

#[test]
fn segment_param() {
    let hy = Hydrate::from_request(req_with_path("users/123"));

    let ap = Ap::<_, (), ()>::ok_hydrated((), hy).pipe(path::segment::check::next_equals("users"))
                                                 .pipe(path::segment::param::u32)
                                                 .map(|(_, u)| u);

    assert_eq!(ap.clone().try_unwrap_ok(), Ok(123));
}

#[test]
fn segment_param_rejects_non_numbers() {
    let hy = Hydrate::from_request(req_with_path("users/12x"));
    let ap = Ap::<_, (), ()>::ok_hydrated((), hy).pipe(path::segment::check::next_equals("users"))
                                                 .pipe(path::segment::param::u32);
    assert!(ap.is_rejected());

    let hy = Hydrate::from_request(req_with_path("4294967296"));
    let ap = Ap::<_, (), ()>::ok_hydrated((), hy).pipe(path::segment::param::u32);
    assert!(ap.is_rejected());

    let hy = Hydrate::from_request(req_with_path("+4294967295"));
    let ap = Ap::<_, (), ()>::ok_hydrated((), hy).pipe(path::segment::param::u32);
    assert_eq!(ap.try_unwrap_ok().map(|(_, n)| n), Ok(4294967295));
}

#[test]
fn parse_u32_like_from_str_radix() {
    for s in ["0", "123", "+7", "0004294967295", "", "+", "-1", "12a", " 1", "4294967296"] {
        assert_eq!(path::segment::param::parse_u32(s), u32::from_str_radix(s, 10).ok(), "{s}");
    }
}

#[test]
fn next_past_the_end_gives_none() {
    let hy = Hydrate::from_request(req_with_path("a"));
    let ap = Ap::<_, (), ()>::ok_hydrated((), hy)
        .pipe(path::segment::next(|_, s| Ap::ok(s.map(|s| s.to_string()))))
        .pipe(path::segment::next(|_, s| Ap::ok(s.map(|s| s.to_string()))));
    assert_eq!(ap.try_unwrap_ok(), Ok(None));
}

#[test]
fn method_filters() {
    let get = Addrd(Req::get("x"), addr(1));
    let post = Addrd(Req::post("x"), addr(1));
    let ap = |r: Addrd<Req>| Ap::<_, (), ()>::ok_hydrated((), Hydrate::from_request(r));

    assert!(method::get(ap(get.clone())).is_ok());
    assert!(method::post(ap(get.clone())).is_rejected());
    assert!(method::post(ap(post.clone())).is_ok());
    assert!(method::put(ap(post.clone())).is_rejected());
    assert!(method::delete(ap(post.clone())).is_rejected());
    let either = method::is_one_of::<(), ()>(vec![Method::get(), Method::post()]);
    assert!(either(ap(get)).is_ok());
    assert!(either(ap(post)).is_ok());
    assert!(method::is::<(), ()>(Method::put())(ap(Addrd(Req::put("x"), addr(1)))).is_ok());
}

#[test]
fn run_maybe_responds() {
    let req = Addrd(Req::get("hello"), addr(5683));
    let run: Run<()> = Run::Unmatched(req);
    let run = run.maybe(|ap| {
                           ap.pipe(path::segment::check::next_equals("nope"))
                             .bind(|_| respond::ok(b"no".to_vec()))
                       });
    assert!(matches!(run, Run::Unmatched(_)));
    let run = run.maybe(|ap| {
                           ap.pipe(path::segment::check::next_equals("hello"))
                             .bind(|_| respond::ok(b"hi".to_vec()))
                       });
    match run.next_action() {
        ServerAction::Send(Addrd(m, a)) => {
            assert_eq!(a, addr(5683));
            assert_eq!(m.payload.0, b"hi".to_vec());
            assert_eq!(m.code, Code::new(2, 5));
            assert_eq!(m.ty, Type::Non);
        },
        other => panic!("{other:?}"),
    }
}

#[test]
fn run_keeps_errors_and_matches() {
    let run: Run<u8> = Run::Error(Error::Other(3));
    let run = run.maybe(|_ap| Ap::err(9));
    assert_eq!(run, Run::Error(Error::Other(3)));
}

#[test]
fn respond_helpers() {
    let ap = respond::not_found::<()>(b"x".to_vec());
    assert_eq!(ap.try_unwrap_respond().unwrap(), Respond::new(code::not_found(), b"x".to_vec(), None));
    let ap = respond::ok_serialized::<u8>(Err(4));
    assert_eq!(ap.try_unwrap_err().unwrap(), 4);
}

#[test]
fn etag_sets_response_tag() {
    let ap = respond::ok::<()>(vec![]).etag(vec![1, 2]);
    assert_eq!(ap.try_unwrap_respond().unwrap().etag, Some(vec![1, 2]));
}

#[allow(dead_code)]
fn state_types_compose(ap: Ap<Hydrated, (), ()>) -> Ap<<Hydrated as Combine<Hydrated>>::Out, (), ()> {
    ap
}

#[test]
fn hydrate_gives_reject_and_respond_the_request() {
    let req = Addrd(Req::get("foo"), addr(1));
    let rej = Ap::<_, (), ()>::reject().hydrate(req.clone());
    assert_eq!(rej.pretend_unhydrated(),
               Ap::<toad::server::ap::state::Complete, (), ()>::reject_hydrated(req.clone()).pretend_unhydrated());
    let rep = Respond::new(code::content(), vec![1], None);
    let res = Ap::<_, (), ()>::respond(rep.clone()).hydrate(req.clone());
    assert_eq!(res.pretend_unhydrated(),
               Ap::<Hydrated, (), ()>::respond_hydrated(req, rep).pretend_unhydrated());
}
