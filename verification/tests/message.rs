use coap_lite::{MessageClass, MessageType as WireType};
use coap_observe::message::{OBSERVE, UNKNOWN, URI_PATH};
use coap_observe::{CoapOption, CoapRequest, CoapResponse, Endpoint, Header, MessageType, Packet};

fn option(number: u16, value: &[u8]) -> CoapOption {
    CoapOption { number, value: value.to_vec() }
}

fn message(message_type: MessageType, code: u8, options: Vec<CoapOption>) -> Packet {
    Packet {
        header: Header { version: 1, message_type, code, message_id: 77 },
        token: vec![1, 2, 3],
        options,
        payload: b"payload".to_vec(),
    }
}

fn request(message: Packet) -> CoapRequest {
    CoapRequest::from_packet(message, Endpoint::new("127.0.0.1:1".to_string(), 0).unwrap())
}

fn path_of(segments: &[&[u8]]) -> String {
    let mut options = vec![option(15, b"query")];
    for segment in segments {
        options.push(option(URI_PATH, segment));
        options.push(option(OBSERVE, b""));
    }
    request(message(MessageType::Confirmable, 1, options)).get_path()
}

#[test]
fn paths_are_joined_by_slashes() {
    assert_eq!(path_of(&[]), "");
    assert_eq!(path_of(&[b"test"]), "test");
    assert_eq!(path_of(&[b"a", b"b", b"c"]), "a/b/c");
    assert_eq!(path_of(&[b"", b"b", b""]), "/b/");
    assert_eq!(path_of(&["gr\u{fc}n".as_bytes()]), "gr\u{fc}n");
}

#[test]
fn segments_that_are_not_utf8_are_left_out() {
    assert_eq!(path_of(&[b"a", &[0xfe, 0xff], b"c"]), "a/c");
    assert_eq!(path_of(&[&[0xc0, 0x80]]), "");
}

#[test]
fn methods_have_seven_codes() {
    for code in 0..=255u8 {
        let expected = if (1..=7).contains(&code) { code } else { UNKNOWN };
        assert_eq!(request(message(MessageType::Confirmable, code, vec![])).get_method(), expected);
    }
}

#[test]
fn statuses_have_their_codes() {
    let named: [u8; 21] = [
        0x41, 0x42, 0x43, 0x44, 0x45, 0x80, 0x81, 0x82, 0x83, 0x84, 0x85, 0x86, 0x8C, 0x8D, 0x8F,
        0xA0, 0xA1, 0xA2, 0xA3, 0xA4, 0xA5,
    ];
    for code in 0..=255u8 {
        let response = CoapResponse { message: message(MessageType::Acknowledgement, code, vec![]) };
        let expected = if named.contains(&code) { code } else { UNKNOWN };
        assert_eq!(response.get_status(), expected);
    }
}

#[test]
fn a_request_starts_with_the_reply_it_calls_for() {
    let types = [
        (MessageType::Confirmable, WireType::Confirmable, Some(MessageType::Acknowledgement)),
        (MessageType::NonConfirmable, WireType::NonConfirmable, Some(MessageType::NonConfirmable)),
        (MessageType::Acknowledgement, WireType::Acknowledgement, None),
        (MessageType::Reset, WireType::Reset, None),
    ];
    for (own, wire, expected) in types {
        let request = request(message(own, 1, vec![option(URI_PATH, b"x")]));
        let mut packet = coap_lite::Packet::new();
        packet.header.set_type(wire);
        packet.header.message_id = 77;
        packet.set_token(vec![1, 2, 3]);
        packet.payload = b"payload".to_vec();
        let outside = coap_lite::CoapRequest::from_packet(packet, ()).response;
        assert_eq!(request.response.is_some(), expected.is_some());
        assert_eq!(outside.is_some(), expected.is_some());
        if let (Some(reply), Some(outside)) = (request.response, outside) {
            assert_eq!(Some(reply.message.header.message_type), expected);
            assert_eq!(reply.message.header.version, 1);
            assert_eq!(reply.message.header.code, 0x45);
            assert_eq!(reply.message.header.message_id, 77);
            assert_eq!(reply.message.token, vec![1, 2, 3]);
            assert_eq!(reply.message.payload, b"payload".to_vec());
            assert!(reply.message.options.is_empty());
            assert_eq!(outside.message.options().count(), 0);
            assert_eq!(u8::from(outside.message.header.code), 0x45);
            assert_eq!(outside.message.header.code, MessageClass::from(0x45));
        }
        assert_eq!(request.message.options[0].value, b"x".to_vec());
        assert_eq!(request.source.unwrap().text(), "127.0.0.1:1");
    }
}

#[test]
fn setting_the_observe_value_replaces_every_other() {
    let options = vec![
        option(URI_PATH, b"b"),
        option(OBSERVE, b"old"),
        option(1, b"m"),
        option(URI_PATH, b"a"),
        option(OBSERVE, b"older"),
        option(3000, b"z"),
    ];
    let mut packet = message(MessageType::Confirmable, 1, options);
    packet.set_observe_value(0x01_02_03_04);
    let found: Vec<(u16, Vec<u8>)> =
        packet.options.iter().map(|option| (option.number, option.value.clone())).collect();
    assert_eq!(
        found,
        vec![
            (1, b"m".to_vec()),
            (OBSERVE, vec![1, 2, 3, 4]),
            (URI_PATH, b"b".to_vec()),
            (URI_PATH, b"a".to_vec()),
            (3000, b"z".to_vec()),
        ]
    );
    assert_eq!(packet.token, vec![1, 2, 3]);
    assert_eq!(packet.payload, b"payload".to_vec());
    packet.set_observe_value(0);
    assert_eq!(packet.options[1].value, Vec::<u8>::new());
    packet.set_observe_value(256);
    assert_eq!(packet.options[1].value, vec![1, 0]);
}

#[test]
fn copies_hold_the_same() {
    let original = request(message(MessageType::Confirmable, 1, vec![option(URI_PATH, b"x")]));
    let copy = original.clone();
    assert_eq!(copy.message.header, original.message.header);
    assert_eq!(copy.message.token, original.message.token);
    assert_eq!(copy.message.payload, original.message.payload);
    assert_eq!(copy.get_path(), "x");
    assert_eq!(copy.response.unwrap().message.payload, b"payload".to_vec());
}
