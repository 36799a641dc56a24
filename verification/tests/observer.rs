use coap_observe::message::{CONTENT, FETCH, GET, OBSERVE, URI_PATH, VALID};
use coap_observe::{
    CoapOption, CoapRequest, CoapResponse, Endpoint, Header, MessageType, Notification,
    ObserveError, Observer, Packet, ReplyError, SyntheticRequest,
};

const PUT: u8 = 0x03;
const NOT_FOUND: u8 = 0x84;

fn endpoint(text: &str) -> Endpoint {
    Endpoint::new(text.to_string(), 0).unwrap()
}

fn option(number: u16, value: &[u8]) -> CoapOption {
    CoapOption { number, value: value.to_vec() }
}

fn packet(message_type: MessageType, code: u8, id: u16, token: &[u8]) -> Packet {
    Packet {
        header: Header { version: 1, message_type, code, message_id: id },
        token: token.to_vec(),
        options: Vec::new(),
        payload: Vec::new(),
    }
}

/// A request for `path` from `source`, answered with `status`.
fn answered(source: &str, code: u8, path: &str, observe: Option<&[u8]>, token: &[u8], status: u8) -> CoapRequest {
    let mut message = packet(MessageType::Confirmable, code, 100, token);
    if let Some(value) = observe {
        message.options.push(option(OBSERVE, value));
    }
    for segment in path.split('/').filter(|segment| !segment.is_empty()) {
        message.options.push(option(URI_PATH, segment.as_bytes()));
    }
    let mut request = CoapRequest::from_packet(message, endpoint(source));
    if let Some(response) = &mut request.response {
        response.message.header.code = status;
        response.message.payload = b"OK".to_vec();
    }
    request
}

fn register(observer: &mut Observer, source: &str, path: &str, token: &[u8]) {
    let request = answered(source, GET, path, Some(&[]), token, CONTENT);
    assert_eq!(observer.intercept_response(&request).unwrap(), true);
}

fn deregister(observer: &mut Observer, source: &str, path: &str, token: &[u8]) {
    let request = answered(source, GET, path, Some(&[1]), token, CONTENT);
    assert_eq!(observer.intercept_response(&request).unwrap(), true);
}

fn keys(requests: &[SyntheticRequest]) -> Vec<String> {
    let mut keys: Vec<String> = requests.iter().map(|request| request.opaque_extra.clone()).collect();
    keys.sort();
    keys
}

fn signalled(observer: &mut Observer, path: &str) -> Vec<String> {
    keys(&observer.signal_resource_changed(path).unwrap())
}

/// The server answers the synthetic request with `payload`.
fn reply(observer: &mut Observer, request: &SyntheticRequest, payload: &[u8]) -> Notification {
    let mut answer = request.request.clone();
    let response = answer.response.as_mut().unwrap();
    response.message.header.code = CONTENT;
    response.message.payload = payload.to_vec();
    assert!(observer.can_notify(&request.opaque_extra));
    observer.handle_synthetic_reply(answer, request.opaque_extra.clone()).unwrap()
}

fn notify(observer: &mut Observer, path: &str) -> Notification {
    let requests = observer.signal_resource_changed(path).unwrap();
    assert_eq!(requests.len(), 1);
    reply(observer, &requests[0], b"")
}

fn acknowledge(id: u16, token: &[u8], source: &str) -> CoapRequest {
    CoapRequest::from_packet(packet(MessageType::Acknowledgement, 0, id, token), endpoint(source))
}

fn values(message: &Packet, number: u16) -> Vec<Vec<u8>> {
    message.options.iter().filter(|option| option.number == number).map(|option| option.value.clone()).collect()
}

#[test]
fn test_observe() {
    let path = "/test";
    let payload1 = b"data1".to_vec();
    let payload2 = b"data2".to_vec();
    let client = "127.0.0.1:40001";
    let client2 = "127.0.0.1:40002";
    let mut observer = Observer::new();

    let mut stored = payload1.clone();
    let mut put = answered(client, PUT, path, None, &[7], CONTENT);
    put.message.payload = payload1.clone();
    assert_eq!(observer.intercept_response(&put).unwrap(), false);

    register(&mut observer, client, path, &[1]);
    let requests = observer.signal_resource_changed("test").unwrap();
    assert_eq!(requests.len(), 1);
    let first = reply(&mut observer, &requests[0], &stored);
    assert_eq!(first.message.payload, payload1);
    assert_eq!(first.address.text(), client);

    let mut put = answered(client2, PUT, path, None, &[8], CONTENT);
    put.message.payload = payload2.clone();
    assert_eq!(observer.intercept_response(&put).unwrap(), false);
    stored = put.message.payload.clone();

    let requests = observer.signal_resource_changed("test").unwrap();
    assert_eq!(requests.len(), 1);
    let second = reply(&mut observer, &requests[0], &stored);
    assert_eq!(second.message.payload, payload2);
    assert_eq!(second.address.text(), client);
}

#[test]
fn test_unobserve() {
    let path = "/test";
    let payload1 = b"data1".to_vec();
    let payload2 = b"data2".to_vec();
    let client = "127.0.0.1:40001";
    let client3 = "127.0.0.1:40003";
    let mut observer = Observer::new();

    register(&mut observer, client, path, &[1]);
    let requests = observer.signal_resource_changed("test").unwrap();
    assert_eq!(reply(&mut observer, &requests[0], &payload1).message.payload, payload1);

    deregister(&mut observer, client, path, &[1]);

    let mut put = answered(client3, PUT, path, None, &[9], CONTENT);
    put.message.payload = payload2;
    assert_eq!(observer.intercept_response(&put).unwrap(), false);
    assert!(observer.signal_resource_changed("test").unwrap().is_empty());
    assert!(observer.timer_handler().is_empty());
}

#[test]
fn test_observe_without_resource() {
    let path = "/test";
    let mut observer = Observer::new();
    let request = answered("127.0.0.1:40001", GET, path, Some(&[]), &[1], NOT_FOUND);
    assert_eq!(observer.intercept_response(&request).unwrap(), false);
    assert_eq!(request.response.as_ref().unwrap().get_status(), NOT_FOUND);
    match observer.signal_resource_changed("test") {
        Err(ObserveError::NoObservers(subject)) => assert_eq!(subject, "test"),
        Ok(_) => panic!("nobody observes"),
    }
}

#[test]
fn a_change_nobody_observes_is_an_error() {
    let mut observer = Observer::new();
    let error = observer.signal_resource_changed("/none").unwrap_err();
    assert_eq!(error.message(), "no observes for subject /none");
    assert_eq!(error.clone().message(), error.message());
}

#[test]
fn every_observer_is_asked_once() {
    let mut observer = Observer::new();
    register(&mut observer, "10.0.0.1:1", "a/b", &[1]);
    register(&mut observer, "10.0.0.2:1", "a/b", &[2]);
    register(&mut observer, "10.0.0.1:1", "c", &[3]);
    assert_eq!(signalled(&mut observer, "a/b"), ["10.0.0.1:1$a/b", "10.0.0.2:1$a/b"]);
    assert_eq!(signalled(&mut observer, "c"), ["10.0.0.1:1$c"]);
}

#[test]
fn fetch_and_valid_register_too() {
    let mut observer = Observer::new();
    let request = answered("10.0.0.1:1", FETCH, "x", Some(&[0]), &[1], VALID);
    assert_eq!(observer.intercept_response(&request).unwrap(), true);
    assert_eq!(signalled(&mut observer, "x"), ["10.0.0.1:1$x"]);
}

#[test]
fn what_does_not_ask_is_passed_by() {
    let mut observer = Observer::new();
    let post = answered("10.0.0.1:1", 0x02, "x", Some(&[]), &[1], CONTENT);
    assert_eq!(observer.intercept_response(&post).unwrap(), false);
    let plain = answered("10.0.0.1:1", GET, "x", None, &[1], CONTENT);
    assert_eq!(observer.intercept_response(&plain).unwrap(), false);
    let mut unanswered = answered("10.0.0.1:1", GET, "x", Some(&[]), &[1], CONTENT);
    unanswered.response = None;
    assert_eq!(observer.intercept_response(&unanswered).unwrap(), false);
    assert!(observer.signal_resource_changed("x").is_err());
}

#[test]
fn an_observe_value_that_asks_nothing_is_a_bad_request() {
    let mut observer = Observer::new();
    for value in [&[2u8][..], &[0, 0, 0, 0, 0][..], b"bunch of nonsense"] {
        let request = answered("10.0.0.1:1", GET, "x", Some(value), &[1], CONTENT);
        let error = observer.intercept_response(&request).unwrap_err();
        assert_eq!(error.code, Some(0x80));
        assert_eq!(error.message, "CoAP error: invalid observe option number");
        assert_eq!(error.clone().message, error.message);
    }
    assert!(observer.signal_resource_changed("x").is_err());
}

#[test]
fn a_request_to_observe_needs_a_peer_and_a_token_that_fits() {
    let mut request = answered("10.0.0.1:1", GET, "x", Some(&[]), &[1], CONTENT);
    assert!(request.can_be_intercepted());
    request.message.token = vec![0; 16];
    assert!(!request.can_be_intercepted());
    request.message.token = vec![0; 256];
    assert!(request.can_be_intercepted());
    request.source = None;
    assert!(!request.can_be_intercepted());
    request.message.options[0].value = vec![1];
    assert!(!request.can_be_intercepted());
    request.message.options[0].value = vec![2];
    assert!(request.can_be_intercepted());
    request.message.options[0].value = vec![1];
    request.response = None;
    assert!(request.can_be_intercepted());
}

#[test]
fn leading_zeros_do_not_change_what_is_asked() {
    let mut observer = Observer::new();
    let on = answered("10.0.0.1:1", GET, "x", Some(&[0, 0]), &[1], CONTENT);
    assert_eq!(observer.intercept_response(&on).unwrap(), true);
    assert_eq!(signalled(&mut observer, "x").len(), 1);
    let off = answered("10.0.0.1:1", GET, "x", Some(&[0, 0, 0, 1]), &[1], CONTENT);
    assert_eq!(observer.intercept_response(&off).unwrap(), true);
    assert_eq!(signalled(&mut observer, "x").len(), 0);
}

#[test]
fn keys_part_address_and_path() {
    let mut observer = Observer::new();
    register(&mut observer, "10.0.0.1:1", "a$b", &[1]);
    register(&mut observer, "10.0.0.1:1", "b", &[2]);
    assert_eq!(signalled(&mut observer, "a$b"), ["10.0.0.1:1$a$b"]);
    assert_eq!(signalled(&mut observer, "b"), ["10.0.0.1:1$b"]);
    assert!(Endpoint::new("10.0.0.1:1$a".to_string(), 0).is_none());
}

#[test]
fn an_endpoint_holds_text_and_flow_information() {
    let endpoint = Endpoint::new("[fe80::1%2]:5683".to_string(), 9).unwrap();
    assert_eq!(endpoint.text(), "[fe80::1%2]:5683");
    assert_eq!(endpoint.flow_info(), 9);
    assert_eq!(endpoint.clone().text(), endpoint.text());
}

#[test]
fn synthetic_requests_are_unanswered_copies() {
    let mut observer = Observer::new();
    let mut request = answered("10.0.0.1:1", GET, "x", Some(&[]), &[1, 2], CONTENT);
    request.message.payload = b"body".to_vec();
    assert_eq!(observer.intercept_response(&request).unwrap(), true);
    let issued = observer.signal_resource_changed("x").unwrap();
    let again = issued[0].clone();
    assert_eq!(again.opaque_extra, "10.0.0.1:1$x");
    let copy = &again.request;
    assert_eq!(copy.message.header, request.message.header);
    assert_eq!(copy.message.token, vec![1, 2]);
    assert_eq!(copy.message.payload, b"body".to_vec());
    assert_eq!(values(&copy.message, URI_PATH), vec![b"x".to_vec()]);
    assert_eq!(copy.source.as_ref().unwrap().text(), "10.0.0.1:1");
    let fresh: &CoapResponse = copy.response.as_ref().unwrap();
    assert_eq!(fresh.message.payload, b"body".to_vec());
    assert_eq!(request.response.as_ref().unwrap().message.payload, b"OK".to_vec());
}

#[test]
fn registering_again_keeps_the_first_token() {
    let mut observer = Observer::new();
    register(&mut observer, "10.0.0.1:1", "x", &[1]);
    register(&mut observer, "10.0.0.1:1", "x", &[2]);
    let issued = observer.signal_resource_changed("x").unwrap();
    assert_eq!(issued.len(), 1);
    assert_eq!(issued[0].request.message.token, vec![1]);
    deregister(&mut observer, "10.0.0.1:1", "x", &[2]);
    assert_eq!(signalled(&mut observer, "x").len(), 1);
    deregister(&mut observer, "10.0.0.1:1", "x", &[1]);
    assert_eq!(signalled(&mut observer, "x").len(), 0);
}

#[test]
fn deregistering_concerns_nobody_else() {
    let mut observer = Observer::new();
    register(&mut observer, "10.0.0.1:1", "x", &[1]);
    register(&mut observer, "10.0.0.1:1", "y", &[1]);
    register(&mut observer, "10.0.0.2:1", "x", &[1]);
    deregister(&mut observer, "10.0.0.1:1", "x", &[1]);
    deregister(&mut observer, "10.0.0.9:1", "x", &[1]);
    assert_eq!(signalled(&mut observer, "x"), ["10.0.0.2:1$x"]);
    assert_eq!(signalled(&mut observer, "y"), ["10.0.0.1:1$y"]);
    deregister(&mut observer, "10.0.0.1:1", "y", &[1]);
    assert_eq!(signalled(&mut observer, "y").len(), 0);
    register(&mut observer, "10.0.0.1:1", "y", &[5]);
    assert_eq!(signalled(&mut observer, "y"), ["10.0.0.1:1$y"]);
}

#[test]
fn a_notification_is_numbered_and_confirmable() {
    let mut observer = Observer::new();
    register(&mut observer, "10.0.0.1:1", "x", &[1]);
    let first = notify(&mut observer, "x");
    let second = notify(&mut observer, "x");
    assert_eq!(first.message.header.message_type, MessageType::Confirmable);
    assert_eq!(first.message.header.message_id, 1);
    assert_eq!(second.message.header.message_id, 2);
    assert_eq!(values(&first.message, OBSERVE), vec![vec![1]]);
    assert_eq!(values(&second.message, OBSERVE), vec![vec![2]]);
    assert!(values(&second.message, URI_PATH).is_empty());
    assert_eq!(first.message.token, vec![1]);
    assert_eq!(first.message.header.code, CONTENT);
}

#[test]
fn a_notification_is_the_reply_with_its_number() {
    let mut observer = Observer::new();
    register(&mut observer, "127.0.0.1:5000", "test", &[1]);
    let mut back = observer.signal_resource_changed("test").unwrap().remove(0);
    assert_eq!(back.opaque_extra, "127.0.0.1:5000$test");
    assert_eq!(back.request.message.payload, Vec::<u8>::new());
    let response = back.request.response.as_mut().unwrap();
    response.message.header.code = VALID;
    response.message.payload = b"data2".to_vec();
    response.message.options = vec![option(4, b"tag"), option(OBSERVE, b"old")];
    let sent = observer.handle_synthetic_reply(back.request, back.opaque_extra).unwrap();
    assert_eq!(sent.address.text(), "127.0.0.1:5000");
    assert_eq!(sent.message.payload, b"data2".to_vec());
    assert_eq!(sent.message.token, vec![1]);
    assert_eq!(
        sent.message.header,
        Header { version: 1, message_type: MessageType::Confirmable, code: VALID, message_id: 1 }
    );
    assert_eq!(values(&sent.message, 4), vec![b"tag".to_vec()]);
    assert_eq!(values(&sent.message, OBSERVE), vec![vec![1]]);
    assert_eq!(sent.message.options.len(), 2);
}

#[test]
fn a_request_that_comes_back_without_a_reply_is_sent_itself() {
    let mut observer = Observer::new();
    register(&mut observer, "10.0.0.1:1", "x", &[1]);
    let mut back = observer.signal_resource_changed("x").unwrap().remove(0);
    back.request.response = None;
    let sent = observer.handle_synthetic_reply(back.request, back.opaque_extra).unwrap();
    assert_eq!(sent.message.header.code, GET);
    assert_eq!(sent.message.header.message_type, MessageType::Confirmable);
    assert_eq!(sent.message.token, vec![1]);
    assert_eq!(values(&sent.message, URI_PATH), vec![b"x".to_vec()]);
    assert_eq!(values(&sent.message, OBSERVE), vec![vec![1]]);
}

#[test]
fn no_more_notifications_wait_than_there_are_registrations() {
    let mut observer = Observer::new();
    register(&mut observer, "10.0.0.1:1", "x", &[1]);
    register(&mut observer, "10.0.0.1:1", "y", &[2]);
    for _ in 0..20 {
        notify(&mut observer, "x");
        notify(&mut observer, "y");
    }
    assert_eq!(observer.timer_handler().len(), 2);
    let mut settled = 0;
    for id in 1..=40 {
        for token in [1u8, 2] {
            if let Ok(true) = observer.intercept_request(&acknowledge(id, &[token], "10.0.0.1:1")) {
                settled += 1;
            }
        }
    }
    assert_eq!(settled, 2);
}

#[test]
fn each_resource_has_its_own_sequence() {
    let mut observer = Observer::new();
    register(&mut observer, "10.0.0.1:1", "x", &[1]);
    register(&mut observer, "10.0.0.1:1", "y", &[2]);
    notify(&mut observer, "x");
    let y = notify(&mut observer, "y");
    assert_eq!(y.message.header.message_id, 2);
    assert_eq!(values(&y.message, OBSERVE), vec![vec![1]]);
}

#[test]
fn the_sequence_is_spelled_in_the_fewest_bytes() {
    let mut observer = Observer::new();
    register(&mut observer, "10.0.0.1:1", "x", &[1]);
    let mut last = notify(&mut observer, "x");
    for _ in 1..258 {
        last = notify(&mut observer, "x");
    }
    assert_eq!(values(&last.message, OBSERVE), vec![vec![1, 2]]);
}

#[test]
fn an_acknowledgement_settles_once() {
    let mut observer = Observer::new();
    register(&mut observer, "10.0.0.1:1", "x", &[1]);
    let sent = notify(&mut observer, "x");
    let ack = acknowledge(sent.message.header.message_id, &sent.message.token, "10.0.0.1:1");
    assert_eq!(observer.intercept_request(&ack).unwrap(), true);
    assert_eq!(observer.intercept_request(&ack).unwrap(), false);
    assert!(observer.timer_handler().is_empty());
}

#[test]
fn an_acknowledgement_needs_the_token() {
    let mut observer = Observer::new();
    register(&mut observer, "10.0.0.1:1", "x", &[1]);
    let id = notify(&mut observer, "x").message.header.message_id;
    let error = observer.intercept_request(&acknowledge(id, &[9], "10.0.0.1:1")).unwrap_err();
    assert_eq!(error.code, Some(0xA0));
    assert_eq!(error.message, "message id <-> token mismatch, cannot process ack!");
    assert_eq!(observer.intercept_request(&acknowledge(id, &[1], "10.0.0.1:1")).unwrap(), true);
}

#[test]
fn only_acknowledgements_are_taken() {
    let mut observer = Observer::new();
    register(&mut observer, "10.0.0.1:1", "x", &[1]);
    let id = notify(&mut observer, "x").message.header.message_id;
    let reset = CoapRequest::from_packet(packet(MessageType::Reset, 0, id, &[1]), endpoint("10.0.0.1:1"));
    assert_eq!(observer.intercept_request(&reset).unwrap(), false);
    assert_eq!(observer.intercept_request(&acknowledge(id, &[1], "10.0.0.1:1")).unwrap(), true);
}

#[test]
fn only_the_last_notification_is_waited_for() {
    let mut observer = Observer::new();
    register(&mut observer, "10.0.0.1:1", "x", &[1]);
    notify(&mut observer, "x");
    notify(&mut observer, "x");
    assert_eq!(observer.intercept_request(&acknowledge(1, &[1], "10.0.0.1:1")).unwrap(), false);
    assert_eq!(keys(&observer.timer_handler()), ["10.0.0.1:1$x"]);
    assert_eq!(observer.intercept_request(&acknowledge(2, &[1], "10.0.0.1:1")).unwrap(), true);
    assert!(observer.timer_handler().is_empty());
}

#[test]
fn retries_end_after_ten_ticks() {
    let mut observer = Observer::new();
    register(&mut observer, "10.0.0.1:1", "x", &[1]);
    let id = notify(&mut observer, "x").message.header.message_id;
    for _ in 0..10 {
        assert_eq!(keys(&observer.timer_handler()), ["10.0.0.1:1$x"]);
    }
    assert!(observer.timer_handler().is_empty());
    assert_eq!(observer.intercept_request(&acknowledge(id, &[1], "10.0.0.1:1")).unwrap(), false);
    assert_eq!(signalled(&mut observer, "x"), ["10.0.0.1:1$x"]);
}

#[test]
fn a_tick_comes_to_every_waiting_notification() {
    let mut observer = Observer::new();
    register(&mut observer, "10.0.0.1:1", "x", &[1]);
    register(&mut observer, "10.0.0.1:1", "y", &[2]);
    register(&mut observer, "10.0.0.1:1", "z", &[3]);
    notify(&mut observer, "x");
    for _ in 0..10 {
        observer.timer_handler();
    }
    notify(&mut observer, "y");
    assert_eq!(keys(&observer.timer_handler()), ["10.0.0.1:1$y"]);
    notify(&mut observer, "z");
    assert_eq!(keys(&observer.timer_handler()), ["10.0.0.1:1$y", "10.0.0.1:1$z"]);
}

#[test]
fn a_reply_after_the_registration_is_gone_is_an_error() {
    let mut observer = Observer::new();
    register(&mut observer, "10.0.0.1:1", "x", &[1]);
    let issued = observer.signal_resource_changed("x").unwrap();
    deregister(&mut observer, "10.0.0.1:1", "x", &[1]);
    let key = issued[0].opaque_extra.clone();
    assert!(observer.can_notify(&key));
    let error = observer.handle_synthetic_reply(issued[0].request.clone(), key).unwrap_err();
    assert_eq!(error, ReplyError::RegistrationCanceled);
    assert_eq!(error.message(), "Registration canceled before synthetic reply available");
    register(&mut observer, "10.0.0.1:1", "x", &[1]);
    assert_eq!(notify(&mut observer, "x").message.header.message_id, 1);
}

#[test]
fn deregistering_forgets_the_waiting_notification() {
    let mut observer = Observer::new();
    register(&mut observer, "10.0.0.1:1", "x", &[1]);
    let id = notify(&mut observer, "x").message.header.message_id;
    deregister(&mut observer, "10.0.0.1:1", "x", &[1]);
    assert_eq!(observer.intercept_request(&acknowledge(id, &[1], "10.0.0.1:1")).unwrap(), false);
    assert!(observer.timer_handler().is_empty());
    register(&mut observer, "10.0.0.1:1", "x", &[1]);
    let again = notify(&mut observer, "x");
    assert_eq!(values(&again.message, OBSERVE), vec![vec![2]]);
}

#[test]
fn message_ids_can_run_out() {
    let mut observer = Observer::new();
    register(&mut observer, "10.0.0.1:1", "x", &[1]);
    let issued = observer.signal_resource_changed("x").unwrap();
    for _ in 0..65535 {
        reply(&mut observer, &issued[0], b"");
    }
    assert!(!observer.can_notify(&issued[0].opaque_extra));
}

#[test]
fn recording_a_resource_numbers_it() {
    let mut observer = Observer::new();
    let path = "x".to_string();
    assert_eq!(observer.record_resource(&path).sequence(), 0);
    assert_eq!(observer.record_resource(&path).sequence(), 1);
    assert!(observer.signal_resource_changed("x").unwrap().is_empty());
    register(&mut observer, "10.0.0.1:1", "x", &[1]);
    let sent = notify(&mut observer, "x");
    assert_eq!(values(&sent.message, OBSERVE), vec![vec![2]]);
}
