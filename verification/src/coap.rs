//! What the library takes from `coap-lite`.
//!
//! Every function here hands plain values to that crate and plain values back.
//! Their contracts are not proved: they say what the crate's code does.

use vstd::prelude::*;

use coap_lite::MessageType::{Acknowledgement, Confirmable, NonConfirmable, Reset};

use crate::message::{
    method_of, observe_option_of, observe_set, option_values, options_view, path_of_segments,
    reply_header, status_of, CoapOption, Header, MessageType, ObserveOption, OBSERVE, URI_PATH,
};

verus! {

/// The error of `coap-lite` for an Observe option that holds no value to ask
/// with. It carries nothing.
#[verifier::external_type_specification]
#[verifier::external_body]
pub struct ExInvalidObserve(coap_lite::error::InvalidObserve);

/// `CoapRequest::get_path`: the values of Uri-Path that are UTF-8, parted by
/// slashes.
#[verifier::external_body]
pub(crate) fn request_path(options: &Vec<CoapOption>) -> (path: String)
    ensures
        path@ == path_of_segments(option_values(options_view(options@), URI_PATH)),
{
    let mut packet = coap_lite::Packet::new();
    for option in options {
        packet.add_option(option.number.into(), option.value.clone());
    }
    coap_lite::CoapRequest::from_packet(packet, ()).get_path()
}

/// `CoapRequest::get_observe_flag`: what the first value of Observe asks for.
/// A value of more than four bytes, or one that spells neither 0 nor 1, is an
/// error.
#[verifier::external_body]
pub(crate) fn request_observe_flag(options: &Vec<CoapOption>) -> (flag: Option<
    Result<ObserveOption, coap_lite::error::InvalidObserve>,
>)
    ensures
        ({
            let values = option_values(options_view(options@), OBSERVE);
            match flag {
                None => values.len() == 0,
                Some(Ok(asked)) => values.len() > 0 && observe_option_of(values[0]) == Some(asked),
                Some(Err(_)) => values.len() > 0 && observe_option_of(values[0]) is None,
            }
        }),
{
    let mut packet = coap_lite::Packet::new();
    for option in options {
        packet.add_option(option.number.into(), option.value.clone());
    }
    match coap_lite::CoapRequest::from_packet(packet, ()).get_observe_flag() {
        None => None,
        Some(Ok(coap_lite::ObserveOption::Register)) => Some(Ok(ObserveOption::Register)),
        Some(Ok(coap_lite::ObserveOption::Deregister)) => Some(Ok(ObserveOption::Deregister)),
        Some(Err(error)) => Some(Err(error)),
    }
}

/// `InvalidObserve`'s `Display`: its one text.
#[verifier::external_body]
pub(crate) fn invalid_observe_text(error: &coap_lite::error::InvalidObserve) -> (text: String)
    ensures
        text@ == "CoAP error: invalid observe option number"@,
{
    error.to_string()
}

/// `CoapRequest::get_method`: the code of the method of a request with the
/// given code.
#[verifier::external_body]
pub(crate) fn request_method(code: u8) -> (method: u8)
    ensures
        method == method_of(code),
{
    let mut request = coap_lite::CoapRequest::<()>::new();
    request.message.header.code = coap_lite::MessageClass::from(code);
    coap_lite::MessageClass::Request(*request.get_method()).into()
}

/// `CoapResponse::get_status`: the code of the status of a reply with the given
/// code.
#[verifier::external_body]
pub(crate) fn response_status(code: u8) -> (status: u8)
    ensures
        status == status_of(code),
{
    let mut message = coap_lite::Packet::new();
    message.header.code = coap_lite::MessageClass::from(code);
    let response = coap_lite::CoapResponse { message };
    coap_lite::MessageClass::Response(*response.get_status()).into()
}

/// `CoapRequest::from_packet`: the header, the token and the payload of the
/// reply that the request it makes holds. That reply has no options. It depends
/// on nothing of the message but what is handed over here.
///
/// It panics where the length of the token, cut to a byte, takes more than four
/// bits.
#[verifier::external_body]
pub(crate) fn reply_to(
    message_type: MessageType,
    message_id: u16,
    token: Vec<u8>,
    payload: Vec<u8>,
) -> (reply: Option<(Header, Vec<u8>, Vec<u8>)>)
    requires
        token@.len() % 256 < 16,
    ensures
        match reply {
            Some((header, reply_token, reply_payload)) => {
                &&& reply_header(message_type, message_id) == Some(header)
                &&& reply_token@ == token@
                &&& reply_payload@ == payload@
            },
            None => reply_header(message_type, message_id) is None,
        },
{
    let mut packet = coap_lite::Packet::new();
    packet.header.set_type(match message_type {
        MessageType::Confirmable => Confirmable, MessageType::NonConfirmable => NonConfirmable,
        MessageType::Acknowledgement => Acknowledgement, MessageType::Reset => Reset,
    });
    packet.set_token(token);
    (packet.header.message_id, packet.payload) = (message_id, payload);
    let reply = coap_lite::CoapRequest::from_packet(packet, ()).response?.message;
    let (version, code) = (reply.header.get_version(), reply.header.code.into());
    let message_type = match reply.header.get_type() {
        Confirmable => MessageType::Confirmable, NonConfirmable => MessageType::NonConfirmable,
        Acknowledgement => MessageType::Acknowledgement, Reset => MessageType::Reset,
    };
    let header = Header { version, message_type, code, message_id: reply.header.message_id };
    Some((header, reply.get_token().to_vec(), reply.payload))
}

/// `Packet::set_observe_value`: the options with the shortest bytes of `value`
/// as the one value of Observe. They come back in the order of their numbers,
/// in which that crate keeps them.
#[verifier::external_body]
pub(crate) fn with_observe_value(options: &Vec<CoapOption>, value: u32) -> (changed: Vec<
    CoapOption,
>)
    ensures
        observe_set(options_view(options@), options_view(changed@), value),
{
    let mut packet = coap_lite::Packet::new();
    for option in options {
        packet.add_option(option.number.into(), option.value.clone());
    }
    packet.set_observe_value(value);
    let mut changed = Vec::new();
    for (number, values) in packet.options() {
        for value in values {
            changed.push(CoapOption { number: *number, value: value.clone() });
        }
    }
    changed
}

} // verus!
