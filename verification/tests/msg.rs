use toad::msg::opt::known::Block;
use toad::msg::{
    Byte1, Code, Id, Message, Opt, OptDelta, OptNumber, OptValue, OptionMap, OptionMustBeProcessed,
    Payload, Token, Type, Version, WhenOptionChanges, WhenOptionUnsupportedByProxy,
};

fn test_msg() -> (Message, Vec<u8>) {
    let header: [u8; 4] = 0b0100_0001_0100_0101_0000_0000_0000_0001_u32.to_be_bytes();
    let token: [u8; 1] = [254u8];
    let content_format: &[u8] = b"application/json";
    let options: [&[u8]; 2] = [&[0b_1100_1101u8, 0b00000011u8], content_format];
    let payload: [&[u8]; 2] = [&[0b1111_1111_u8], b"hello, world!"];
    let bytes = [header.as_ref(),
                 token.as_ref(),
                 options.concat().as_ref(),
                 payload.concat().as_ref()].concat();

    let msg = Message { id: Id(1),
                        ty: Type::Con,
                        ver: Version(1),
                        token: Token(vec![254]),
                        opts: OptionMap(vec![(OptNumber(12),
                                              vec![OptValue(content_format.to_vec())])]),
                        code: Code { class: 2,
                                     detail: 5 },
                        payload: Payload(b"hello, world!".to_vec()) };
    (msg, bytes)
}

#[test]
fn parse_code() {
    let byte = 0b01000101_u8;
    let code = Code::from(byte);
    assert_eq!(code, Code { class: 2, detail: 5 })
}

#[test]
fn serialize_code() {
    let code = Code { class: 2, detail: 5 };
    let actual: u8 = code.into();
    let expected = 0b01000101_u8;
    assert_eq!(actual, expected)
}

#[test]
fn parse_msg() {
    let (expect, msg) = test_msg();
    assert_eq!(Message::try_from_bytes(&msg).unwrap(), expect)
}

#[test]
fn parse_byte1() {
    let byte = 0b_01_10_0011u8;
    let byte = Byte1::try_from(byte).unwrap();
    assert_eq!(byte, Byte1 { ver: Version(1), ty: Type::Ack, tkl: 3 })
}

#[test]
fn parse_id() {
    let id_bytes = 34u16.to_be_bytes();
    let (id, _) = Id::try_consume_bytes(&id_bytes, 0).unwrap();
    assert_eq!(id, Id(34));
}

#[test]
fn block() {
    let b = Block(33);
    assert_eq!(b.size(), 32);
    assert_eq!(b.num(), 2);
    assert_eq!(b.more(), false);

    let b = Block(59);
    assert_eq!(b.size(), 128);
    assert_eq!(b.num(), 3);
    assert_eq!(b.more(), true);

    assert_eq!(Block::new(32, 2, false), Block(33));
    assert_eq!(Block::new(128, 3, true), Block(59));
}

#[test]
fn size_rounds_down_to_nearest_power_of_two() {
    assert_eq!(Block::new(0, 1, false).size(), 16);
    assert_eq!(Block::new(10, 1, false).size(), 16);
    assert_eq!(Block::new(17, 1, false).size(), 16);
    assert_eq!(Block::new(31, 1, false).size(), 16);
    assert_eq!(Block::new(33, 1, false).size(), 32);
    assert_eq!(Block::new(64, 1, false).size(), 64);
    assert_eq!(Block::new(1024, 1, false).size(), 1024);
    assert_eq!(Block::new(2048, 1, false).size(), 1024);
}

#[test]
fn parse_opt() {
    let opt_bytes = [0b00010001, 0b00000001];
    let (opt, _) = Opt::try_consume_bytes(&opt_bytes, 0).unwrap();
    assert_eq!(opt, Opt { delta: OptDelta(1), value: OptValue(vec![1]) });

    let opt_bytes = [0b11010001, 0b00000001, 0b00000001];
    let (opt, _) = Opt::try_consume_bytes(&opt_bytes, 0).unwrap();
    assert_eq!(opt, Opt { delta: OptDelta(14), value: OptValue(vec![1]) });

    let opt_bytes = [0b11100001, 0b00000000, 0b00000001, 0b00000001];
    let (opt, _) = Opt::try_consume_bytes(&opt_bytes, 0).unwrap();
    assert_eq!(opt, Opt { delta: OptDelta(270), value: OptValue(vec![1]) });

    let opt_bytes = [0b00000001, 0b00000001];
    let (opt, _) = Opt::try_consume_bytes(&opt_bytes, 0).unwrap();
    assert_eq!(opt, Opt { delta: OptDelta(0), value: OptValue(vec![1]) });

    let opt_bytes = [0b00000001, 0b00000001, 0b00010001, 0b00000011, 0b11111111];
    let (opt, _) = OptionMap::try_consume_bytes(&opt_bytes, 0).unwrap();
    assert_eq!(opt,
               OptionMap(vec![(OptNumber(0), vec![OptValue(vec![1])]),
                              (OptNumber(1), vec![OptValue(vec![3])])]));
}

#[test]
fn opt_number_qualities() {
    // critical, safe-to-fwd, cache-key
    let if_match = OptNumber(1);
    // critical, unsafe-to-fwd, cache-key
    let uri_host = OptNumber(3);
    // elective, safe-to-fwd, cache-key
    let etag = OptNumber(4);
    // elective, safe-to-fwd, no-cache-key
    let size1 = OptNumber(60);

    for num in [&if_match, &uri_host] {
        assert_eq!(num.must_be_processed(), OptionMustBeProcessed::Yes);
    }
    for num in [&etag, &size1] {
        assert_eq!(num.must_be_processed(), OptionMustBeProcessed::No);
    }
    for num in [&if_match, &etag, &size1] {
        assert_eq!(num.when_unsupported_by_proxy(), WhenOptionUnsupportedByProxy::Forward);
    }
    for num in [&uri_host] {
        assert_eq!(num.when_unsupported_by_proxy(), WhenOptionUnsupportedByProxy::Error);
    }
    for num in [&if_match, &uri_host, &etag] {
        assert_eq!(num.when_option_changes(), WhenOptionChanges::ResponseChanges);
    }
    for num in [&size1] {
        assert_eq!(num.when_option_changes(), WhenOptionChanges::ResponseDoesNotChange);
    }
}

#[test]
fn msg() {
    let (msg, expected) = test_msg();
    let actual: Vec<u8> = msg.try_into_bytes(None).unwrap();
    assert_eq!(actual, expected);
}

#[test]
fn byte_1() {
    let byte = Byte1 { ver: Version(1), ty: Type::Ack, tkl: 3 };
    let actual: u8 = byte.into();
    let expected = 0b_01_10_0011u8;
    assert_eq!(actual, expected)
}

#[test]
fn code() {
    let code = Code { class: 2, detail: 5 };
    let actual: u8 = code.into();
    let expected = 0b0100_0101_u8;
    assert_eq!(actual, expected)
}

#[test]
fn id() {
    let id = Id(16);
    let actual = u16::from_be_bytes(id.into());
    assert_eq!(actual, 16)
}

#[test]
fn opt() {
    let cases: [(u16, Vec<u8>, Vec<u8>); 4] =
        [(24,
          std::iter::repeat(1).take(100).collect(),
          [[0b1101_1101u8, 24 - 13, 100 - 13].as_ref(),
           std::iter::repeat(1).take(100).collect::<Vec<u8>>().as_ref()].concat()),
         (1, vec![1], vec![0b0001_0001, 1]),
         (24, vec![1], vec![0b1101_0001, 11, 1]),
         (24,
          std::iter::repeat(1).take(300).collect(),
          [[0b1101_1110, 24 - 13].as_ref(),
           (300u16 - 269).to_be_bytes().as_ref(),
           std::iter::repeat(1).take(300).collect::<Vec<u8>>().as_ref()].concat())];

    for (delta, values, expected) in cases {
        let opt = Opt { delta: OptDelta(delta), value: OptValue(values) };
        let mut actual = Vec::<u8>::new();
        opt.extend_bytes(&mut actual);
        assert_eq!(actual, expected)
    }
}

#[test]
fn no_payload_marker() {
    let msg = Message { id: Id(0),
                        ty: Type::Con,
                        ver: Default::default(),
                        code: Code { class: 2, detail: 5 },
                        token: Token(Default::default()),
                        opts: Default::default(),
                        payload: Payload(Default::default()) };

    assert_ne!(msg.try_into_bytes(None).unwrap().last(), Some(&0b11111111));
}

#[test]
fn message_bytes_roundtrip() {
    let (msg, _) = test_msg();
    let bytes = msg.clone().try_into_bytes(None).unwrap();
    assert_eq!(Message::try_from_bytes(&bytes).unwrap(), msg);
}

#[test]
fn too_short_buffer_is_refused() {
    let (msg, bytes) = test_msg();
    assert!(msg.clone().try_into_bytes(Some(bytes.len() - 1)).is_err());
    assert_eq!(msg.try_into_bytes(Some(bytes.len() + 8)).unwrap(), bytes);
}

#[test]
fn empty_datagram_is_eof() {
    assert!(Message::try_from_bytes(&[]).is_err());
}

#[test]
fn token_longer_than_eight_is_refused() {
    assert!(Message::try_from_bytes(&[0b0100_1001, 0, 0, 0]).is_err());
}

#[test]
fn code_human_readable() {
    assert_eq!(Code::new(2, 5).to_human(), ['2', '.', '0', '5']);
    assert_eq!(Code::new(4, 4).to_human(), ['4', '.', '0', '4']);
    assert_eq!(Code { class: 2, detail: 5 }.to_string(), "2.05".to_string());
    assert_eq!(Code::new(5, 31).to_string(), "5.31".to_string());
}

#[test]
fn opaque_token_is_eight_bytes_and_deterministic() {
    let a = Token::opaque(&[0, 1, 2]);
    let b = Token::opaque(&[0, 1, 2]);
    let c = Token::opaque(&[0, 1, 3]);
    assert_eq!(a.0.len(), 8);
    assert_eq!(a, b);
    assert_ne!(a, c);
    assert_ne!(a.0, vec![0, 1, 2]);
}

#[test]
fn repeated_options_keep_every_value() {
    let bytes = [0x40u8, 0x01, 0x00, 0x01, 0xB3, b'f', b'o', b'o', 0x03, b'b', b'a', b'r'];
    let m = Message::try_from_bytes(&bytes).unwrap();
    let vals = m.opts.get(OptNumber(11)).unwrap();
    assert_eq!(vals, &vec![OptValue(b"foo".to_vec()), OptValue(b"bar".to_vec())]);
}

#[test]
fn no_cache_key_follows_the_rfc_mask() {
    assert_eq!(OptNumber(28).when_option_changes(), WhenOptionChanges::ResponseDoesNotChange);
    assert_eq!(OptNumber(60).when_option_changes(), WhenOptionChanges::ResponseDoesNotChange);
    assert_eq!(OptNumber(30).when_option_changes(), WhenOptionChanges::ResponseChanges);
    assert_eq!(OptNumber(62).when_option_changes(), WhenOptionChanges::ResponseChanges);
    assert!(!OptNumber(28).include_in_cache_key());
    assert!(OptNumber(30).include_in_cache_key());
}

#[test]
fn a_message_without_payload_needs_no_marker_byte() {
    let m = Message::new(Type::Con, Code::get(), Id(1), Token(vec![]));
    assert_eq!(m.clone().try_into_bytes(Some(4)).unwrap().len(), 4);
    assert!(m.try_into_bytes(Some(3)).is_err());
}

#[test]
fn an_extended_delta_past_16_bits_is_refused() {
    // delta nibble 14 with extension 0xFFFF would be 65535 + 269
    let bad = [0x40u8, 0x01, 0x00, 0x01, 0xE0, 0xFF, 0xFF];
    assert!(Message::try_from_bytes(&bad).is_err());
    // 0xFEF2 + 269 is 65535, the largest delta there is
    let edge = [0x40u8, 0x01, 0x00, 0x01, 0xE0, 0xFE, 0xF2];
    let m = Message::try_from_bytes(&edge).unwrap();
    assert_eq!(m.opts.get(OptNumber(65535)), Some(&vec![OptValue(vec![])]));
}

#[test]
fn options_that_cannot_be_written_are_refused() {
    let mut m = Message::new(Type::Con, Code::get(), Id(1), Token(vec![]));
    let _ = m.opts.insert(OptNumber(11), vec![OptValue(vec![0; 65536])]);
    assert_eq!(m.clone().try_into_bytes(None), Err(toad::to_bytes::MessageToBytesError::OptionOutOfRange));

    let mut far = Message::new(Type::Con, Code::get(), Id(1), Token(vec![]));
    let _ = far.opts.insert(OptNumber(70000), vec![OptValue(vec![1])]);
    assert_eq!(far.try_into_bytes(None), Err(toad::to_bytes::MessageToBytesError::OptionOutOfRange));
}

#[test]
fn repeated_options_round_trip() {
    let mut msg = Message::new(Type::Con, Code::get(), Id(9), Token(vec![1, 2]));
    msg.set_path("a/bb/ccc").unwrap();
    msg.add_query("x=1").unwrap();
    msg.add_query("y=2").unwrap();
    let bytes = msg.clone().try_into_bytes(None).unwrap();
    let back = Message::try_from_bytes(&bytes).unwrap();
    assert_eq!(back, msg);
    assert_eq!(back.opts.get(OptNumber(11)).unwrap().len(), 3);
}
