//! What holds of messages, whatever they say.

use vstd::prelude::*;

use crate::endpoint::EndpointView;
use crate::laws::law_uint_reads_back;
use crate::message::{
    default_reply, is_notification_of, join_path, method_of, observe_option_of, observe_set,
    option_values, path_of_segments, status_of, uint_bytes, uint_value, CoapOption, CoapRequest,
    CoapResponse, MessageType, ObserveOption, OptionView, Packet, PacketView, RequestView,
};
use crate::synthetic_request::SyntheticRequest;

verus! {

/// An option's view is its number and its bytes.
pub proof fn law_option_view_is_faithful(option: CoapOption)
    ensures
        option@.number == option.number,
        option@.value == option.value@,
{
}

/// A message's view has its header, its token, its payload and each of its
/// options in its place.
pub proof fn law_packet_view_is_faithful(packet: Packet)
    ensures
        packet@.header == packet.header,
        packet@.token == packet.token@,
        packet@.payload == packet.payload@,
        packet@.options.len() == packet.options@.len(),
        forall|i: int|
            0 <= i < packet.options@.len() ==> {
                &&& (#[trigger] packet@.options[i]).number == packet.options@[i].number
                &&& packet@.options[i].value == packet.options@[i].value@
            },
{
}

/// The view of a request, a reply or a synthetic request is made of the views of
/// its parts, none of which is lost.
pub proof fn law_request_view_is_faithful(
    request: CoapRequest,
    response: CoapResponse,
    synthetic: SyntheticRequest,
)
    ensures
        request@.message == request.message@,
        request@.response is Some <==> request.response is Some,
        request.response matches Some(reply) ==> request@.response == Some(reply.message@),
        request@.source is Some <==> request.source is Some,
        request.source matches Some(source) ==> request@.source == Some(source@),
        response@ == response.message@,
        synthetic@.request == synthetic.request@,
        synthetic@.opaque_extra == synthetic.opaque_extra@,
{
}

/// The values of an option are those of the entries with its number, in their
/// order.
pub proof fn law_option_values_are_the_matching_entries(options: Seq<OptionView>, number: u16)
    ensures
        option_values(options, number) == options.filter(
            |option: OptionView| option.number == number,
        ).map_values(|option: OptionView| option.value),
    decreases options.len(),
{
    reveal(Seq::filter);
    let matching = |option: OptionView| option.number == number;
    let value = |option: OptionView| option.value;
    if options.len() > 0 {
        law_option_values_are_the_matching_entries(options.drop_last(), number);
        let before = options.drop_last().filter(matching);
        if options.last().number == number {
            assert(options.filter(matching) == before.push(options.last()));
            assert(before.push(options.last()).map_values(value) =~= before.map_values(value).push(
                options.last().value,
            ));
        }
    }
    assert(option_values(options, number) =~= options.filter(matching).map_values(value));
}

/// The number that up to four bytes spell, the most significant byte first.
pub proof fn law_bytes_spell_a_number(bytes: Seq<u8>)
    ensures
        bytes.len() == 0 ==> uint_value(bytes) == 0,
        bytes.len() == 1 ==> uint_value(bytes) == bytes[0],
        bytes.len() == 2 ==> uint_value(bytes) == bytes[0] * 0x100 + bytes[1],
        bytes.len() == 3 ==> uint_value(bytes) == bytes[0] * 0x1_0000 + bytes[1] * 0x100 + bytes[2],
        bytes.len() == 4 ==> uint_value(bytes) == bytes[0] * 0x100_0000 + bytes[1] * 0x1_0000
            + bytes[2] * 0x100 + bytes[3],
{
    reveal_with_fuel(uint_value, 5);
}

/// A number is spelled in no more bytes than anything else that spells it, and so
/// without leading zeros.
pub proof fn law_numbers_are_spelled_shortest(value: u32, bytes: Seq<u8>)
    requires
        uint_value(bytes) == value,
    ensures
        uint_bytes(value as nat).len() <= bytes.len(),
        value > 0 ==> uint_bytes(value as nat)[0] != 0,
        value == 0 ==> uint_bytes(value as nat).len() == 0,
{
    lemma_shortest(value as nat, bytes);
    lemma_no_leading_zero(value as nat);
}

proof fn lemma_shortest(value: nat, bytes: Seq<u8>)
    requires
        uint_value(bytes) == value,
    ensures
        uint_bytes(value).len() <= bytes.len(),
    decreases value,
{
    if value > 0 {
        assert(bytes.len() > 0);
        assert(uint_value(bytes.drop_last()) == value / 256);
        lemma_shortest(value / 256, bytes.drop_last());
    }
}

proof fn lemma_no_leading_zero(value: nat)
    ensures
        value > 0 ==> uint_bytes(value).len() > 0 && uint_bytes(value)[0] != 0,
    decreases value,
{
    if value > 0 {
        lemma_no_leading_zero(value / 256);
        if value < 256 {
            assert(uint_bytes(value / 256).len() == 0);
        }
    }
}

/// A value of Observe asks to register where it is up to four zero bytes, and to
/// cancel where it is up to four bytes of which only the last is not zero, and is
/// one. Any other asks for nothing.
pub proof fn law_what_a_value_of_observe_asks_for(value: Seq<u8>)
    ensures
        observe_option_of(value) == Some(ObserveOption::Register) <==> value.len() <= 4 && forall|
            i: int,
        |
            0 <= i < value.len() ==> value[i] == 0,
        observe_option_of(value) == Some(ObserveOption::Deregister) <==> 1 <= value.len() <= 4
            && value[value.len() - 1] == 1 && forall|i: int|
            0 <= i < value.len() - 1 ==> value[i] == 0,
{
    law_bytes_spell_a_number(value);
    if value.len() <= 4 {
        assert((forall|i: int| 0 <= i < value.len() ==> value[i] == 0) <==> uint_value(value) == 0)
            by {
            lemma_zero_bytes(value);
        }
        if value.len() > 0 {
            lemma_zero_bytes(value.drop_last());
            assert(forall|i: int| 0 <= i < value.len() - 1 ==> value.drop_last()[i] == value[i]);
        }
    }
}

proof fn lemma_zero_bytes(bytes: Seq<u8>)
    ensures
        uint_value(bytes) == 0 <==> forall|i: int| 0 <= i < bytes.len() ==> bytes[i] == 0,
    decreases bytes.len(),
{
    if bytes.len() > 0 {
        lemma_zero_bytes(bytes.drop_last());
        assert(forall|i: int| 0 <= i < bytes.len() - 1 ==> bytes.drop_last()[i] == bytes[i]);
        if uint_value(bytes) == 0 {
            assert(forall|i: int| 0 <= i < bytes.len() - 1 ==> bytes.drop_last()[i] == 0);
        }
    }
}

/// The codes that name a method or a status stand for themselves, and no other
/// code is taken for one of them.
pub proof fn law_codes_stand_for_themselves(code: u8)
    ensures
        method_of(code) == code || method_of(code) == 0xFF,
        status_of(code) == code || status_of(code) == 0xFF,
        set![0x01u8, 0x02, 0x03, 0x04, 0x05, 0x06, 0x07].contains(code) ==> method_of(code) == code,
        !set![0x01u8, 0x02, 0x03, 0x04, 0x05, 0x06, 0x07].contains(code) ==> method_of(code)
            == 0xFF,
        set![
            0x41u8, 0x42, 0x43, 0x44, 0x45, 0x80, 0x81, 0x82, 0x83, 0x84, 0x85, 0x86, 0x8C, 0x8D,
            0x8F, 0xA0, 0xA1, 0xA2, 0xA3, 0xA4, 0xA5,
        ].contains(code) <==> status_of(code) != 0xFF,
{
}

/// A request is an answered read just where its code is 0.01 or 0.05 and it has a
/// reply with the code 2.05 or 2.03, in any of the four combinations.
pub proof fn law_answered_reads(request: RequestView)
    ensures
        request.answered_read() <==> {
            let code = request.message.header.code;
            &&& code == 0x01 || code == 0x05
            &&& request.response is Some
            &&& request.response->0.header.code == 0x45 || request.response->0.header.code == 0x43
        },
{
}

/// A confirmable message is acknowledged by its reply, a non-confirmable one is
/// answered in kind, and the other types get no reply. The reply says 2.05 with
/// the message's own payload, under its message id and its token, and has no
/// options.
pub proof fn law_the_reply_a_message_calls_for(message: PacketView)
    ensures
        default_reply(message) is None <==> message.header.message_type
            == MessageType::Acknowledgement || message.header.message_type == MessageType::Reset,
        default_reply(message) matches Some(reply) ==> {
            &&& message.header.message_type == MessageType::Confirmable
                ==> reply.header.message_type == MessageType::Acknowledgement
            &&& message.header.message_type == MessageType::NonConfirmable
                ==> reply.header.message_type == MessageType::NonConfirmable
            &&& reply.header.version == 1
            &&& reply.header.code == 0x45
            &&& reply.header.message_id == message.header.message_id
            &&& reply.token == message.token
            &&& reply.payload == message.payload
            &&& reply.options.len() == 0
        },
{
}

/// A request made of a message keeps the message and the peer, and starts with
/// the reply that the message calls for.
pub proof fn law_requests_keep_their_message(message: PacketView, source: EndpointView)
    ensures
        ({
            let request = RequestView::from_packet(message, source);
            &&& request.message == message
            &&& request.source == Some(source)
            &&& request.response == default_reply(message)
        }),
{
}

/// What a request is answered with is its reply, whatever that says; only one
/// without a reply is left with its own message.
pub proof fn law_the_answer_is_the_reply(request: RequestView, reply: PacketView)
    ensures
        (RequestView { response: Some(reply), ..request }).answer() == reply,
        (RequestView { response: None, ..request }).answer() == request.message,
{
}

/// A token of fewer than sixteen bytes fits, one of sixteen to 255 does not, and
/// 256 bytes more make no difference.
pub proof fn law_which_tokens_fit(message: PacketView, longer: PacketView)
    requires
        longer.token.len() == message.token.len() + 256,
    ensures
        message.token.len() < 16 ==> message.token_fits(),
        16 <= message.token.len() < 256 ==> !message.token_fits(),
        longer.token_fits() == message.token_fits(),
{
}

/// Only an answered read that asks to register or to cancel can fail to be
/// intercepted: for want of a peer, or to register with a token that does not
/// fit.
pub proof fn law_what_can_be_intercepted(request: RequestView)
    ensures
        !request.answered_read() ==> request.can_be_intercepted(),
        option_values(request.message.options, 6).len() == 0 ==> request.can_be_intercepted(),
        request.source is Some && request.message.token_fits() ==> request.can_be_intercepted(),
        request.answered_read() && option_values(request.message.options, 6).len() > 0 ==> {
            let asked = observe_option_of(option_values(request.message.options, 6)[0]);
            &&& asked is None ==> request.can_be_intercepted()
            &&& asked == Some(ObserveOption::Deregister) ==> request.can_be_intercepted()
                == request.source is Some
            &&& asked == Some(ObserveOption::Register) ==> request.can_be_intercepted() == (
            request.source is Some && request.message.token_fits())
        },
{
}

/// Texts are joined by one slash between any two neighbours.
pub proof fn law_paths_are_joined_by_slashes(left: Seq<Seq<char>>, right: Seq<Seq<char>>)
    ensures
        left.len() == 0 ==> join_path(left) == Seq::<char>::empty(),
        left.len() == 1 ==> join_path(left) == left[0],
        left.len() > 0 && right.len() > 0 ==> join_path(left + right) == join_path(left)
            + seq!['/'] + join_path(right),
    decreases right.len(),
{
    if left.len() > 0 && right.len() > 0 {
        let both = left + right;
        assert(both.drop_last() =~= left + right.drop_last());
        if right.len() == 1 {
            assert(both.drop_last() =~= left);
        } else {
            law_paths_are_joined_by_slashes(left, right.drop_last());
        }
        assert(join_path(both) =~= join_path(left) + seq!['/'] + join_path(right));
    }
}

/// One more segment adds its text to the path, after a slash unless it is the
/// first that counts. A segment that is not UTF-8 adds nothing.
pub proof fn law_segments_spell_the_path(segments: Seq<Seq<u8>>, segment: Seq<u8>)
    ensures
        path_of_segments(Seq::<Seq<u8>>::empty()) == Seq::<char>::empty(),
        !vstd::utf8::valid_utf8(segment) ==> path_of_segments(segments.push(segment))
            == path_of_segments(segments),
        vstd::utf8::valid_utf8(segment) ==> path_of_segments(segments.push(segment)) == if exists|
            i: int,
        |
            0 <= i < segments.len() && vstd::utf8::valid_utf8(#[trigger] segments[i]) {
            path_of_segments(segments) + seq!['/'] + vstd::utf8::decode_utf8(segment)
        } else {
            vstd::utf8::decode_utf8(segment)
        },
{
    reveal(Seq::filter);
    let valid = |segment: Seq<u8>| vstd::utf8::valid_utf8(segment);
    let text = |segment: Seq<u8>| vstd::utf8::decode_utf8(segment);
    let more = segments.push(segment);
    assert(more.drop_last() =~= segments);
    assert(Seq::<Seq<u8>>::empty().filter(valid).map_values(text) =~= Seq::<Seq<char>>::empty());
    let kept = segments.filter(valid);
    lemma_filter_keeps_some(segments, valid);
    if valid(segment) {
        let texts = kept.push(segment).map_values(text);
        assert(more.filter(valid) == kept.push(segment));
        assert(texts.drop_last() =~= kept.map_values(text));
        assert(texts.last() == text(segment));
    }
}

proof fn lemma_filter_keeps_some(segments: Seq<Seq<u8>>, valid: spec_fn(Seq<u8>) -> bool)
    ensures
        segments.filter(valid).len() > 0 <==> exists|i: int|
            0 <= i < segments.len() && valid(#[trigger] segments[i]),
    decreases segments.len(),
{
    reveal(Seq::filter);
    if segments.len() > 0 {
        let before = segments.drop_last();
        lemma_filter_keeps_some(before, valid);
        if exists|i: int| 0 <= i < before.len() && valid(#[trigger] before[i]) {
            let i = choose|i: int| 0 <= i < before.len() && valid(#[trigger] before[i]);
            assert(valid(segments[i]));
        }
        if valid(segments.last()) {
            assert(valid(segments[segments.len() - 1]));
        }
        if exists|i: int| 0 <= i < segments.len() && valid(#[trigger] segments[i]) {
            let i = choose|i: int| 0 <= i < segments.len() && valid(#[trigger] segments[i]);
            if i < before.len() {
                assert(valid(before[i]));
            }
        }
    }
}

/// One more option changes the path of a request just where it is a Uri-Path, and
/// then as one more segment.
pub proof fn law_only_segments_make_the_path(request: RequestView, option: OptionView)
    ensures
        ({
            let options = request.message.options;
            let longer = RequestView {
                message: PacketView { options: options.push(option), ..request.message },
                ..request
            };
            &&& options.len() == 0 ==> request.path() == Seq::<char>::empty()
            &&& option.number != 11 ==> longer.path() == request.path()
            &&& option.number == 11 ==> longer.path() == path_of_segments(
                option_values(options, 11).push(option.value),
            )
        }),
{
    reveal(Seq::filter);
    let options = request.message.options;
    assert(options.push(option).drop_last() =~= options);
    law_segments_spell_the_path(Seq::empty(), option.value);
    if options.len() == 0 {
        assert(option_values(options, 11) =~= Seq::<Seq<u8>>::empty());
    }
}

/// The first value of Observe decides what a request asks for. Later values, and
/// other options, are not looked at.
pub proof fn law_the_first_observe_value_decides(request: RequestView, option: OptionView)
    ensures
        ({
            let options = request.message.options;
            let longer = RequestView {
                message: PacketView { options: options.push(option), ..request.message },
                ..request
            };
            &&& options.len() == 0 ==> request.observe_flag() is None
            &&& option.number != 6 ==> longer.observe_flag() == request.observe_flag()
            &&& request.observe_flag() is Some ==> longer.observe_flag() == request.observe_flag()
            &&& request.observe_flag() is None && option.number == 6 ==> longer.observe_flag()
                == Some(observe_option_of(option.value))
        }),
{
    assert(request.message.options.push(option).drop_last() =~= request.message.options);
}

/// Once it is set, Observe has one value, the shortest bytes of the number. Every
/// other option has the values it had, and the options lie in the order of their
/// numbers.
pub proof fn law_setting_observe(before: Seq<OptionView>, after: Seq<OptionView>, value: u32)
    requires
        observe_set(before, after, value),
    ensures
        option_values(after, 6).len() == 1,
        uint_value(option_values(after, 6)[0]) == value,
        option_values(after, 6)[0].len() <= 4,
        option_values(after, 6)[0].len() > 0 ==> option_values(after, 6)[0][0] != 0,
        forall|number: u16|
            number != 6 ==> #[trigger] option_values(after, number) == option_values(
                before,
                number,
            ),
        forall|i: int, j: int|
            0 <= i < j < after.len() ==> (#[trigger] after[i]).number <= (
            #[trigger] after[j]).number,
{
    law_uint_reads_back(value);
    law_numbers_are_spelled_shortest(value, uint_bytes(value as nat));
}

/// Every notification is a confirmable message under the message id it was given,
/// whatever it is made of and whichever number it has.
pub proof fn law_notifications_are_confirmable(
    message: PacketView,
    notification: PacketView,
    message_id: u16,
    sequence: u32,
)
    requires
        is_notification_of(message, notification, message_id, sequence),
    ensures
        notification.header.message_type == MessageType::Confirmable,
        notification.header.message_id == message_id,
        notification.header.version == message.header.version,
        notification.header.code == message.header.code,
        notification.token == message.token,
        notification.payload == message.payload,
        option_values(notification.options, 6).len() == 1,
        uint_value(option_values(notification.options, 6)[0]) == sequence,
        forall|number: u16|
            number != 6 ==> #[trigger] option_values(notification.options, number)
                == option_values(message.options, number),
{
    law_setting_observe(message.options, notification.options, sequence);
}

} // verus!
