use coap_observe::{adopt_response, ResponseBehaviour};

#[test]
fn a_reply_is_sent_by_default() {
    assert_eq!(ResponseBehaviour::default(), ResponseBehaviour::Normal);
}

#[test]
fn a_handler_that_replies_has_its_reply_sent() {
    let mut place = Some(1);
    assert_eq!(adopt_response(&mut place, Some(2)), ResponseBehaviour::Normal);
    assert_eq!(place, Some(2));
}

#[test]
fn a_handler_that_does_not_reply_has_nothing_sent() {
    let mut place = Some(1);
    assert_eq!(adopt_response(&mut place, None), ResponseBehaviour::Swallow);
    assert_eq!(place, None);
}
