//! CoAP messages as plain values.
//!
//! A message is held field by field, so that what the library decides from it
//! can be stated. What a message means where CoAP lays that down (its path, its
//! Observe option, its method, the reply it calls for) comes from `coap`.

use vstd::prelude::*;

use crate::coap;
use crate::endpoint::{Endpoint, EndpointView};

verus! {

/// The option number of Observe.
pub const OBSERVE: u16 = 6;

/// The option number of Uri-Path.
pub const URI_PATH: u16 = 11;

/// The code of GET, 0.01.
pub const GET: u8 = 0x01;

/// The code of FETCH, 0.05.
pub const FETCH: u8 = 0x05;

/// The code of Valid, 2.03.
pub const VALID: u8 = 0x43;

/// The code of Content, 2.05.
pub const CONTENT: u8 = 0x45;

/// The code of Bad Request, 4.00.
pub const BAD_REQUEST: u8 = 0x80;

/// The code of Internal Server Error, 5.00.
pub const INTERNAL_SERVER_ERROR: u8 = 0xA0;

/// The code that stands for a method or a status that has no name.
pub const UNKNOWN: u8 = 0xFF;

/// The type of a message.
#[derive(Clone, Copy, Debug, PartialEq, Eq, Structural)]
pub enum MessageType {
    Confirmable,
    NonConfirmable,
    Acknowledgement,
    Reset,
}

/// What a request asks for with its Observe option.
#[derive(Clone, Copy, Debug, PartialEq, Eq, Structural)]
pub enum ObserveOption {
    Register,
    Deregister,
}

/// The header of a message. The code is the byte `c.dd` of the wire format: the
/// class in the upper three bits, the detail in the lower five.
#[derive(Clone, Copy, Debug, PartialEq, Eq, Structural)]
pub struct Header {
    pub version: u8,
    pub message_type: MessageType,
    pub code: u8,
    pub message_id: u16,
}

/// One value of one option.
#[derive(Debug)]
pub struct CoapOption {
    pub number: u16,
    pub value: Vec<u8>,
}

/// A message. An option with several values has one entry for each of them;
/// only the order among the values of one option means anything.
#[derive(Debug)]
pub struct Packet {
    pub header: Header,
    pub token: Vec<u8>,
    pub options: Vec<CoapOption>,
    pub payload: Vec<u8>,
}

/// A reply.
#[derive(Debug)]
pub struct CoapResponse {
    pub message: Packet,
}

/// A request, with the reply it is to get and the peer it came from.
#[derive(Debug)]
pub struct CoapRequest {
    pub message: Packet,
    pub response: Option<CoapResponse>,
    pub source: Option<Endpoint>,
}

/// What a `CoapOption` holds.
pub struct OptionView {
    pub number: u16,
    pub value: Seq<u8>,
}

/// What a `Packet` holds.
pub struct PacketView {
    pub header: Header,
    pub token: Seq<u8>,
    pub options: Seq<OptionView>,
    pub payload: Seq<u8>,
}

/// What a `CoapRequest` holds.
pub struct RequestView {
    pub message: PacketView,
    pub response: Option<PacketView>,
    pub source: Option<EndpointView>,
}

impl View for CoapOption {
    type V = OptionView;

    open spec fn view(&self) -> OptionView {
        OptionView { number: self.number, value: self.value@ }
    }
}

/// What a list of options holds.
pub open spec fn options_view(options: Seq<CoapOption>) -> Seq<OptionView> {
    options.map_values(|option: CoapOption| option@)
}

impl View for Packet {
    type V = PacketView;

    open spec fn view(&self) -> PacketView {
        PacketView {
            header: self.header,
            token: self.token@,
            options: options_view(self.options@),
            payload: self.payload@,
        }
    }
}

impl View for CoapResponse {
    type V = PacketView;

    open spec fn view(&self) -> PacketView {
        self.message@
    }
}

impl View for CoapRequest {
    type V = RequestView;

    open spec fn view(&self) -> RequestView {
        RequestView {
            message: self.message@,
            response: match self.response {
                Some(response) => Some(response@),
                None => None,
            },
            source: match self.source {
                Some(source) => Some(source@),
                None => None,
            },
        }
    }
}

/// The values of the option `number`, in their order.
pub open spec fn option_values(options: Seq<OptionView>, number: u16) -> Seq<Seq<u8>>
    decreases options.len(),
{
    if options.len() == 0 {
        seq![]
    } else {
        let before = option_values(options.drop_last(), number);
        if options.last().number == number {
            before.push(options.last().value)
        } else {
            before
        }
    }
}

/// The options stand in the order of their numbers.
pub open spec fn ordered_by_number(options: Seq<OptionView>) -> bool {
    forall|i: int, j: int|
        0 <= i <= j < options.len() ==> (#[trigger] options[i]).number <= (
        #[trigger] options[j]).number
}

/// The texts, parted by slashes.
pub open spec fn join_path(texts: Seq<Seq<char>>) -> Seq<char>
    decreases texts.len(),
{
    if texts.len() == 0 {
        seq![]
    } else if texts.len() == 1 {
        texts[0]
    } else {
        join_path(texts.drop_last()) + seq!['/'] + texts.last()
    }
}

/// The path that the Uri-Path segments spell. A segment that is not UTF-8 is
/// left out.
pub open spec fn path_of_segments(segments: Seq<Seq<u8>>) -> Seq<char> {
    join_path(
        segments.filter(|segment: Seq<u8>| vstd::utf8::valid_utf8(segment)).map_values(
            |segment: Seq<u8>| vstd::utf8::decode_utf8(segment),
        ),
    )
}

/// The number that the bytes spell, the most significant first.
pub open spec fn uint_value(bytes: Seq<u8>) -> nat
    decreases bytes.len(),
{
    if bytes.len() == 0 {
        0
    } else {
        uint_value(bytes.drop_last()) * 256 + bytes.last() as nat
    }
}

/// The shortest bytes that spell the number; none at all for zero.
pub open spec fn uint_bytes(value: nat) -> Seq<u8>
    decreases value,
{
    if value == 0 {
        seq![]
    } else {
        uint_bytes(value / 256).push((value % 256) as u8)
    }
}

/// `after` holds the options of `before` in the order of their numbers, with
/// `value` for the one value of Observe.
pub open spec fn observe_set(before: Seq<OptionView>, after: Seq<OptionView>, value: u32) -> bool {
    &&& ordered_by_number(after)
    &&& forall|number: u16| #[trigger]
        option_values(after, number) == if number == OBSERVE {
            seq![uint_bytes(value as nat)]
        } else {
            option_values(before, number)
        }
}

/// `notification` is `message` as a confirmable message with the given id, and
/// with `sequence` for its Observe option.
pub open spec fn is_notification_of(
    message: PacketView,
    notification: PacketView,
    message_id: u16,
    sequence: u32,
) -> bool {
    &&& notification.header == Header {
        message_type: MessageType::Confirmable,
        message_id,
        ..message.header
    }
    &&& notification.token == message.token
    &&& notification.payload == message.payload
    &&& observe_set(message.options, notification.options, sequence)
}

/// What the value of an Observe option asks for; `None` if it is no such value.
pub open spec fn observe_option_of(value: Seq<u8>) -> Option<ObserveOption> {
    if value.len() <= 4 && uint_value(value) == 0 {
        Some(ObserveOption::Register)
    } else if value.len() <= 4 && uint_value(value) == 1 {
        Some(ObserveOption::Deregister)
    } else {
        None
    }
}

/// The code of a request's method: the code itself where it names a method.
pub open spec fn method_of(code: u8) -> u8 {
    if 0x01 <= code <= 0x07 {
        code
    } else {
        UNKNOWN
    }
}

/// The code of a reply's status: the code itself where a status is known by it.
pub open spec fn status_of(code: u8) -> u8 {
    if 0x41 <= code <= 0x45 || 0x80 <= code <= 0x86 || code == 0x8C || code == 0x8D || code == 0x8F
        || 0xA0 <= code <= 0xA5 {
        code
    } else {
        UNKNOWN
    }
}

/// The header of the reply that a message of the given type and id calls for.
/// Only confirmable and non-confirmable messages call for one.
pub open spec fn reply_header(message_type: MessageType, message_id: u16) -> Option<Header> {
    let reply_type = match message_type {
        MessageType::Confirmable => Some(MessageType::Acknowledgement),
        MessageType::NonConfirmable => Some(MessageType::NonConfirmable),
        _ => None,
    };
    match reply_type {
        Some(message_type) => Some(
            Header { version: 1, message_type, code: CONTENT, message_id },
        ),
        None => None,
    }
}

/// The reply that a message calls for before anyone has answered it: Content,
/// with the message's own payload, under its message id and token. Only
/// confirmable and non-confirmable messages call for one.
pub open spec fn default_reply(message: PacketView) -> Option<PacketView> {
    match reply_header(message.header.message_type, message.header.message_id) {
        Some(header) => Some(
            PacketView { header, token: message.token, options: seq![], payload: message.payload },
        ),
        None => None,
    }
}

impl PacketView {
    /// The length of the token fits the four bits that the header has for it,
    /// once it is cut to a byte.
    pub open spec fn token_fits(self) -> bool {
        self.token.len() % 256 < 16
    }
}

impl RequestView {
    /// The request that `message` from `source` makes, not yet answered.
    pub open spec fn from_packet(message: PacketView, source: EndpointView) -> RequestView {
        RequestView { message, response: default_reply(message), source: Some(source) }
    }

    /// The path that the request is for.
    pub open spec fn path(self) -> Seq<char> {
        path_of_segments(option_values(self.message.options, URI_PATH))
    }

    /// The request reads a resource, and the reply it has got shows the resource
    /// or confirms that it is unchanged.
    pub open spec fn answered_read(self) -> bool {
        &&& (method_of(self.message.header.code) == GET || method_of(self.message.header.code)
            == FETCH)
        &&& self.response matches Some(reply)
        &&& (status_of(reply.header.code) == CONTENT || status_of(reply.header.code) == VALID)
    }

    /// The reply that the request has got; its own message while it has none.
    pub open spec fn answer(self) -> PacketView {
        match self.response {
            Some(reply) => reply,
            None => self.message,
        }
    }

    /// What the first value of the request's Observe option asks for: `None`
    /// without one, `Some(None)` if the value is not one to ask with.
    pub open spec fn observe_flag(self) -> Option<Option<ObserveOption>> {
        let values = option_values(self.message.options, OBSERVE);
        if values.len() == 0 {
            None
        } else {
            Some(observe_option_of(values[0]))
        }
    }

    /// If the request asks to register or to cancel, it has come from a peer,
    /// and to register, with a token that fits.
    pub open spec fn can_be_intercepted(self) -> bool {
        self.answered_read() ==> match self.observe_flag() {
            Some(Some(ObserveOption::Register)) => self.source is Some && self.message.token_fits(),
            Some(Some(ObserveOption::Deregister)) => self.source is Some,
            _ => true,
        }
    }
}

impl CoapRequest {
    /// The request that `message` from `source` makes, not yet answered.
    pub fn from_packet(message: Packet, source: Endpoint) -> (request: CoapRequest)
        requires
            message@.token_fits(),
        ensures
            request@ == RequestView::from_packet(message@, source@),
    {
        let token = message.token.clone();
        assert(token@ =~= message.token@);
        let payload = message.payload.clone();
        assert(payload@ =~= message.payload@);
        let response = match coap::reply_to(
            message.header.message_type,
            message.header.message_id,
            token,
            payload,
        ) {
            Some((header, token, payload)) => {
                let reply = Packet { header, token, options: Vec::new(), payload };
                assert(reply@.options =~= seq![]);
                Some(CoapResponse { message: reply })
            },
            None => None,
        };
        CoapRequest { message, response, source: Some(source) }
    }

    /// The path that the request is for.
    pub fn get_path(&self) -> (path: String)
        ensures
            path@ == self@.path(),
    {
        coap::request_path(&self.message.options)
    }

    /// The code of the request's method.
    pub fn get_method(&self) -> (method: u8)
        ensures
            method == method_of(self.message.header.code),
    {
        coap::request_method(self.message.header.code)
    }

    /// Whether the request reads a resource, and the reply it has got shows the
    /// resource or confirms that it is unchanged.
    pub fn answered_read(&self) -> (answered: bool)
        ensures
            answered == self@.answered_read(),
    {
        let method: u8 = self.get_method();
        if method != GET && method != FETCH {
            return false;
        }
        match &self.response {
            Some(response) => {
                let status: u8 = response.get_status();
                status == CONTENT || status == VALID
            },
            None => false,
        }
    }

    /// Whether the request, if it asks to register or to cancel, has come from a
    /// peer, and to register, with a token that fits. Anything that has been
    /// received has.
    pub fn can_be_intercepted(&self) -> (possible: bool)
        ensures
            possible == self@.can_be_intercepted(),
    {
        if !self.answered_read() {
            return true;
        }
        match coap::request_observe_flag(&self.message.options) {
            Some(Ok(ObserveOption::Register)) => self.source.is_some() && self.message.token.len()
                % 256 < 16,
            Some(Ok(ObserveOption::Deregister)) => self.source.is_some(),
            _ => true,
        }
    }
}

impl CoapResponse {
    /// The code of the reply's status.
    pub fn get_status(&self) -> (status: u8)
        ensures
            status == status_of(self.message.header.code),
    {
        coap::response_status(self.message.header.code)
    }
}

impl Packet {
    /// Makes `value` the one value of the Observe option.
    pub fn set_observe_value(&mut self, value: u32)
        ensures
            final(self)@.header == old(self)@.header,
            final(self)@.token == old(self)@.token,
            final(self)@.payload == old(self)@.payload,
            observe_set(old(self)@.options, final(self)@.options, value),
    {
        self.options = coap::with_observe_value(&self.options, value);
    }
}

impl Clone for CoapOption {
    fn clone(&self) -> (copy: Self)
        ensures
            copy@ == self@,
    {
        let value = self.value.clone();
        assert(value@ =~= self.value@);
        CoapOption { number: self.number, value }
    }
}

/// A copy of the options.
fn clone_options(options: &Vec<CoapOption>) -> (copies: Vec<CoapOption>)
    ensures
        options_view(copies@) == options_view(options@),
{
    let mut copies: Vec<CoapOption> = Vec::new();
    for i in 0..options.len()
        invariant
            copies@.len() == i,
            forall|j: int| 0 <= j < i ==> (#[trigger] copies@[j])@ == options@[j]@,
    {
        copies.push(options[i].clone());
    }
    assert(options_view(copies@) =~= options_view(options@));
    copies
}

impl Clone for Packet {
    fn clone(&self) -> (copy: Self)
        ensures
            copy@ == self@,
    {
        let token = self.token.clone();
        assert(token@ =~= self.token@);
        let payload = self.payload.clone();
        assert(payload@ =~= self.payload@);
        Packet { header: self.header, token, options: clone_options(&self.options), payload }
    }
}

impl Clone for CoapResponse {
    fn clone(&self) -> (copy: Self)
        ensures
            copy@ == self@,
    {
        CoapResponse { message: self.message.clone() }
    }
}

impl Clone for CoapRequest {
    fn clone(&self) -> (copy: Self)
        ensures
            copy@ == self@,
    {
        CoapRequest {
            message: self.message.clone(),
            response: match &self.response {
                Some(response) => Some(response.clone()),
                None => None,
            },
            source: match &self.source {
                Some(source) => Some(source.clone()),
                None => None,
            },
        }
    }
}

} // verus!
