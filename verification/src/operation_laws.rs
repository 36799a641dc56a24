//! What each operation of the observer does, told by what is there before it and
//! after it.

use vstd::prelude::*;

use crate::consistency::lemma_key_injective;
use crate::endpoint::KEY_SEPARATOR;
use crate::error::{HandlingError, ObserveError, ReplyError};
use crate::message::{
    default_reply, observe_option_of, option_values, uint_value, MessageType, ObserveOption,
    RequestView,
};
use crate::message_laws::law_notifications_are_confirmable;
use crate::model::{registration_key, ObserverView};
use crate::observer::{
    reply_outcome, request_outcome, response_outcome, signal_outcome, timer_outcome,
};
use crate::synthetic_request::{synthetic_request_for, Notification, SyntheticRequest};

verus! {

/// `key` is entered with the peer.
pub open spec fn peer_has(observer: ObserverView, register: Seq<char>, key: Seq<char>) -> bool {
    observer.registers.contains_key(register) && observer.registers[register].contains(key)
}

/// `key` is entered with the resource.
pub open spec fn resource_has(observer: ObserverView, path: Seq<char>, key: Seq<char>) -> bool {
    observer.resources.contains_key(path) && observer.resources[path].observers.contains(key)
}

/// A key is the peer's address, a dollar sign and the path.
pub proof fn law_keys_spell_peer_and_path(register: Seq<char>, resource: Seq<char>)
    ensures
        ({
            let key = registration_key(register, resource);
            &&& key.len() == register.len() + 1 + resource.len()
            &&& key.take(register.len() as int) == register
            &&& key[register.len() as int] == '$'
            &&& key.skip(register.len() + 1int) == resource
        }),
{
    let key = registration_key(register, resource);
    assert(key.take(register.len() as int) =~= register);
    assert(key.skip(register.len() + 1int) =~= resource);
}

/// A fresh observer knows no peer, no resource and no registration, waits for
/// nothing, and has sent nothing.
pub proof fn law_a_fresh_observer_knows_nothing(text: Seq<char>, id: u16)
    ensures
        !ObserverView::empty().registers.contains_key(text),
        !ObserverView::empty().resources.contains_key(text),
        !ObserverView::empty().register_resources.contains_key(text),
        !ObserverView::empty().unacknowledge_messages.contains_key(id),
        ObserverView::empty().current_message_id == 0,
{
}

/// To record a resource that is known counts its number up by one and keeps its
/// observers; any other comes to be known with the number zero and without
/// observers. Nothing else changes.
pub proof fn law_recording_a_resource(before: ObserverView, path: Seq<char>, other: Seq<char>)
    requires
        before.resources.contains_key(path) ==> before.resources[path].sequence < u32::MAX,
        other != path,
    ensures
        ({
            let after = before.record_resource(path);
            &&& after.resources.contains_key(path)
            &&& before.resources.contains_key(path) ==> after.resources[path].sequence
                == before.resources[path].sequence + 1 && after.resources[path].observers
                == before.resources[path].observers
            &&& !before.resources.contains_key(path) ==> after.resources[path].sequence == 0
                && forall|key: Seq<char>| !after.resources[path].observers.contains(key)
            &&& after.resources.contains_key(other) == before.resources.contains_key(other)
            &&& after.resources.contains_key(other) ==> after.resources[other]
                == before.resources[other]
            &&& after.registers == before.registers
            &&& after.register_resources == before.register_resources
            &&& after.unacknowledge_messages == before.unacknowledge_messages
            &&& after.current_message_id == before.current_message_id
        }),
{
}

/// A GET or a FETCH that was answered with Content or Valid and whose first value
/// of Observe asks to register is taken, and registers its peer for its path: the
/// key is entered with both, under a bare copy of the request. A registration that
/// is there already keeps its request and what it waits for. Nothing else changes.
pub proof fn law_a_read_with_observe_registers(
    before: ObserverView,
    request: RequestView,
    result: Result<bool, HandlingError>,
    after: ObserverView,
)
    requires
        response_outcome(before, request, result, after),
        request.message.header.code == 0x01 || request.message.header.code == 0x05,
        request.response is Some,
        request.response->0.header.code == 0x45 || request.response->0.header.code == 0x43,
        option_values(request.message.options, 6).len() > 0,
        observe_option_of(option_values(request.message.options, 6)[0]) == Some(
            ObserveOption::Register,
        ),
        request.source is Some,
    ensures
        result == Ok::<bool, HandlingError>(true),
        ({
            let peer = request.source->0.text;
            let path = request.path();
            let key = registration_key(peer, path);
            let item = after.register_resources[key];
            &&& after.register_resources.contains_key(key)
            &&& before.register_resources.contains_key(key) ==> item
                == before.register_resources[key]
            &&& !before.register_resources.contains_key(key) ==> {
                &&& item.register == peer
                &&& item.resource == path
                &&& item.original_request.message == request.message
                &&& item.original_request.source == request.source
                &&& item.original_request.response == default_reply(request.message)
                &&& item.unacknowledge_message is None
            }
            &&& forall|other: Seq<char>|
                #![trigger after.register_resources.contains_key(other)]
                other != key ==> {
                    &&& after.register_resources.contains_key(other)
                        == before.register_resources.contains_key(other)
                    &&& after.register_resources.contains_key(other)
                        ==> after.register_resources[other] == before.register_resources[other]
                }
            &&& forall|r: Seq<char>, k: Seq<char>| #[trigger]
                peer_has(after, r, k) <==> peer_has(before, r, k) || (r == peer && k == key)
            &&& forall|r: Seq<char>| #[trigger]
                after.registers.contains_key(r) <==> before.registers.contains_key(r) || r == peer
            &&& forall|p: Seq<char>, k: Seq<char>| #[trigger]
                resource_has(after, p, k) <==> resource_has(before, p, k) || (p == path && k == key)
            &&& forall|p: Seq<char>|
                #![trigger after.resources.contains_key(p)]
                (after.resources.contains_key(p) <==> before.resources.contains_key(p) || p == path)
                    && (before.resources.contains_key(p) ==> after.resources[p].sequence
                    == before.resources[p].sequence)
            &&& !before.resources.contains_key(path) ==> after.resources[path].sequence == 0
            &&& after.unacknowledge_messages == before.unacknowledge_messages
            &&& after.current_message_id == before.current_message_id
        }),
{
    let peer = request.source->0.text;
    let path = request.path();
    let bare = RequestView::from_packet(request.message, request.source->0);
    assert(bare.path() == path);
}

/// The same request with a first value of Observe that asks to cancel, under the
/// very token that the registration was made with, takes the registration out
/// wherever it is entered, with the notification it waits for. A peer that is
/// left without a registration is forgotten; the resource stays known, with its
/// number. Nothing else changes.
pub proof fn law_a_read_with_observe_cancels(
    before: ObserverView,
    request: RequestView,
    result: Result<bool, HandlingError>,
    after: ObserverView,
)
    requires
        before.consistent(),
        response_outcome(before, request, result, after),
        request.message.header.code == 0x01 || request.message.header.code == 0x05,
        request.response is Some,
        request.response->0.header.code == 0x45 || request.response->0.header.code == 0x43,
        option_values(request.message.options, 6).len() > 0,
        observe_option_of(option_values(request.message.options, 6)[0]) == Some(
            ObserveOption::Deregister,
        ),
        request.source is Some,
        !request.source->0.text.contains(KEY_SEPARATOR),
        ({
            let key = registration_key(request.source->0.text, request.path());
            &&& before.register_resources.contains_key(key)
            &&& before.register_resources[key].original_request.message.token
                == request.message.token
        }),
    ensures
        result == Ok::<bool, HandlingError>(true),
        ({
            let peer = request.source->0.text;
            let key = registration_key(peer, request.path());
            &&& !after.register_resources.contains_key(key)
            &&& forall|other: Seq<char>|
                #![trigger after.register_resources.contains_key(other)]
                other != key ==> {
                    &&& after.register_resources.contains_key(other)
                        == before.register_resources.contains_key(other)
                    &&& after.register_resources.contains_key(other)
                        ==> after.register_resources[other] == before.register_resources[other]
                }
            &&& forall|r: Seq<char>, k: Seq<char>| #[trigger]
                peer_has(after, r, k) <==> peer_has(before, r, k) && k != key
            &&& forall|r: Seq<char>| #[trigger]
                after.registers.contains_key(r) <==> before.registers.contains_key(r) && exists|
                    k: Seq<char>,
                |
                    k != key && #[trigger] before.registers[r].contains(k)
            &&& forall|p: Seq<char>, k: Seq<char>| #[trigger]
                resource_has(after, p, k) <==> resource_has(before, p, k) && k != key
            &&& forall|p: Seq<char>|
                #![trigger after.resources.contains_key(p)]
                after.resources.contains_key(p) == before.resources.contains_key(p) && (
                before.resources.contains_key(p) ==> after.resources[p].sequence
                    == before.resources[p].sequence)
            &&& forall|id: u16|
                #![trigger after.unacknowledge_messages.contains_key(id)]
                (after.unacknowledge_messages.contains_key(id)
                    <==> before.unacknowledge_messages.contains_key(id)
                    && before.unacknowledge_messages[id].register_resource != key) && (
                after.unacknowledge_messages.contains_key(id) ==> after.unacknowledge_messages[id]
                    == before.unacknowledge_messages[id])
            &&& after.current_message_id == before.current_message_id
        }),
{
    let peer = request.source->0.text;
    let path = request.path();
    let key = registration_key(peer, path);
    let item = before.register_resources[key];
    assert(before.registration_consistent(key));
    lemma_key_injective(item.register, item.resource, peer, path);
    assert(after == before.without(key));
    assert forall|p: Seq<char>, k: Seq<char>| #[trigger]
        resource_has(after, p, k) <==> resource_has(before, p, k) && k != key by {
        if before.resources.contains_key(p) {
            assert(before.resource_consistent(p));
        }
    }
    let left = before.registers[peer].remove(key);
    assert forall|r: Seq<char>, k: Seq<char>| #[trigger]
        peer_has(after, r, k) <==> peer_has(before, r, k) && k != key by {
        if before.registers.contains_key(r) {
            assert(before.register_consistent(r));
        }
        if r == peer && before.registers[r].contains(k) && k != key {
            assert(left.contains(k));
        }
    }
    assert forall|r: Seq<char>| #[trigger]
        after.registers.contains_key(r) <==> before.registers.contains_key(r) && exists|
            k: Seq<char>,
        |
            k != key && #[trigger] before.registers[r].contains(k) by {
        if before.registers.contains_key(r) {
            assert(before.register_consistent(r));
            if r == peer {
                if left != Set::<Seq<char>>::empty() {
                    let k = choose|k: Seq<char>| left.contains(k);
                    assert(exists|k: Seq<char>| left.contains(k)) by {
                        if forall|k: Seq<char>| !left.contains(k) {
                            assert(left =~= Set::<Seq<char>>::empty());
                        }
                    }
                    assert(before.registers[r].contains(k));
                }
                if exists|k: Seq<char>| k != key && #[trigger] before.registers[r].contains(k) {
                    let k = choose|k: Seq<char>|
                        k != key && #[trigger] before.registers[r].contains(k);
                    assert(left.contains(k));
                }
            } else {
                assert(!before.registers[r].contains(key));
                let k = choose|k: Seq<char>| before.registers[r].contains(k);
                assert(exists|k: Seq<char>| before.registers[r].contains(k)) by {
                    if forall|k: Seq<char>| !before.registers[r].contains(k) {
                        assert(before.registers[r] =~= Set::<Seq<char>>::empty());
                    }
                }
                assert(before.registers[r].contains(k));
            }
        }
    }
    assert forall|id: u16|
        #![trigger after.unacknowledge_messages.contains_key(id)]
        (after.unacknowledge_messages.contains_key(id)
            <==> before.unacknowledge_messages.contains_key(id)
            && before.unacknowledge_messages[id].register_resource != key) && (
        after.unacknowledge_messages.contains_key(id) ==> after.unacknowledge_messages[id]
            == before.unacknowledge_messages[id]) by {
        if before.unacknowledge_messages.contains_key(id) {
            assert(before.pending_consistent(id));
        }
    }
}

/// To cancel under a token that differs in any way from the one that the
/// registration was made with changes nothing, and neither does it without a
/// registration. The request is taken all the same.
pub proof fn law_a_cancellation_needs_the_token(
    before: ObserverView,
    request: RequestView,
    result: Result<bool, HandlingError>,
    after: ObserverView,
)
    requires
        response_outcome(before, request, result, after),
        request.message.header.code == 0x01 || request.message.header.code == 0x05,
        request.response is Some,
        request.response->0.header.code == 0x45 || request.response->0.header.code == 0x43,
        option_values(request.message.options, 6).len() > 0,
        observe_option_of(option_values(request.message.options, 6)[0]) == Some(
            ObserveOption::Deregister,
        ),
        ({
            let key = registration_key(request.source->0.text, request.path());
            before.register_resources.contains_key(key)
                ==> before.register_resources[key].original_request.message.token
                != request.message.token
        }),
    ensures
        result == Ok::<bool, HandlingError>(true),
        after == before,
{
}

/// Whatever else comes with its reply is left alone. It is passed on, unless it is
/// an answered read whose first value of Observe asks for nothing: that is a bad
/// request.
pub proof fn law_what_does_not_ask_changes_nothing(
    before: ObserverView,
    request: RequestView,
    result: Result<bool, HandlingError>,
    after: ObserverView,
)
    requires
        response_outcome(before, request, result, after),
    ensures
        ({
            let code = request.message.header.code;
            let values = option_values(request.message.options, 6);
            let reads = (code == 0x01 || code == 0x05) && request.response is Some && (
            request.response->0.header.code == 0x45 || request.response->0.header.code == 0x43);
            &&& !reads || values.len() == 0 ==> {
                &&& result == Ok::<bool, HandlingError>(false)
                &&& after == before
            }
            &&& reads && values.len() > 0 && observe_option_of(values[0]) is None ==> {
                &&& result is Err
                &&& result->Err_0.code == Some(0x80u8)
                &&& result->Err_0.message@ == "CoAP error: invalid observe option number"@
                &&& after == before
            }
        }),
{
}

/// An acknowledgement of any waiting notification, under the very token of the
/// registration that waits for it, is taken and settles that notification: it is
/// gone, and its registration waits for nothing. Every other notification and
/// registration, the peers, the resources and the numbers stay as they are.
pub proof fn law_an_acknowledgement_settles_its_notification(
    before: ObserverView,
    request: RequestView,
    result: Result<bool, HandlingError>,
    after: ObserverView,
)
    requires
        before.consistent(),
        request_outcome(before, request, result, after),
        request.message.header.message_type == MessageType::Acknowledgement,
        before.unacknowledge_messages.contains_key(request.message.header.message_id),
        ({
            let id = request.message.header.message_id;
            let key = before.unacknowledge_messages[id].register_resource;
            before.register_resources[key].original_request.message.token == request.message.token
        }),
    ensures
        result == Ok::<bool, HandlingError>(true),
        ({
            let id = request.message.header.message_id;
            let key = before.unacknowledge_messages[id].register_resource;
            let item = after.register_resources[key];
            &&& !after.unacknowledge_messages.contains_key(id)
            &&& forall|other: u16|
                #![trigger after.unacknowledge_messages.contains_key(other)]
                other != id ==> {
                    &&& after.unacknowledge_messages.contains_key(other)
                        == before.unacknowledge_messages.contains_key(other)
                    &&& after.unacknowledge_messages.contains_key(other)
                        ==> after.unacknowledge_messages[other]
                        == before.unacknowledge_messages[other]
                }
            &&& after.register_resources.contains_key(key)
            &&& item.unacknowledge_message is None
            &&& item.register == before.register_resources[key].register
            &&& item.resource == before.register_resources[key].resource
            &&& item.original_request == before.register_resources[key].original_request
            &&& forall|other: Seq<char>|
                #![trigger after.register_resources.contains_key(other)]
                other != key ==> {
                    &&& after.register_resources.contains_key(other)
                        == before.register_resources.contains_key(other)
                    &&& after.register_resources.contains_key(other)
                        ==> after.register_resources[other] == before.register_resources[other]
                }
            &&& after.registers == before.registers
            &&& after.resources == before.resources
            &&& after.current_message_id == before.current_message_id
        }),
{
    assert(before.pending_consistent(request.message.header.message_id));
}

/// An acknowledgement of a waiting notification under a token that differs in any
/// way from that of the registration is an error that changes nothing.
pub proof fn law_an_acknowledgement_needs_the_token(
    before: ObserverView,
    request: RequestView,
    result: Result<bool, HandlingError>,
    after: ObserverView,
)
    requires
        before.consistent(),
        request_outcome(before, request, result, after),
        request.message.header.message_type == MessageType::Acknowledgement,
        before.unacknowledge_messages.contains_key(request.message.header.message_id),
        ({
            let id = request.message.header.message_id;
            let key = before.unacknowledge_messages[id].register_resource;
            before.register_resources[key].original_request.message.token != request.message.token
        }),
    ensures
        result is Err,
        result->Err_0.code == Some(0xA0u8),
        result->Err_0.message@ == "message id <-> token mismatch, cannot process ack!"@,
        after == before,
{
    assert(before.pending_consistent(request.message.header.message_id));
}

/// A message of another type, or an acknowledgement that nothing waits for, is
/// passed on and changes nothing.
pub proof fn law_what_is_not_waited_for_changes_nothing(
    before: ObserverView,
    request: RequestView,
    result: Result<bool, HandlingError>,
    after: ObserverView,
)
    requires
        request_outcome(before, request, result, after),
        request.message.header.message_type != MessageType::Acknowledgement
            || !before.unacknowledge_messages.contains_key(request.message.header.message_id),
    ensures
        result == Ok::<bool, HandlingError>(false),
        after == before,
{
}

/// The synthetic request for a registration is the very request that it was made
/// with, whether or not it waits for a notification, under its key.
pub proof fn law_synthetic_requests_are_the_original(observer: ObserverView, key: Seq<char>)
    ensures
        ({
            let issued = synthetic_request_for(observer, key);
            let original = observer.register_resources[key].original_request;
            &&& issued.opaque_extra == key
            &&& issued.request.message.header == original.message.header
            &&& issued.request.message.token == original.message.token
            &&& issued.request.message.options == original.message.options
            &&& issued.request.message.payload == original.message.payload
            &&& issued.request.response == original.response
            &&& issued.request.source == original.source
        }),
{
}

/// A signal of a change is answered with the original request of every observer
/// of the resource, each once and nobody else's; where the resource is not known,
/// with an error that names it. Nothing changes.
pub proof fn law_a_signal_asks_for_every_observer(
    before: ObserverView,
    path: Seq<char>,
    result: Result<Vec<SyntheticRequest>, ObserveError>,
    after: ObserverView,
)
    requires
        signal_outcome(before, path, result, after),
    ensures
        after == before,
        result is Ok <==> before.resources.contains_key(path),
        result matches Ok(requests) ==> {
            &&& forall|i: int|
                0 <= i < requests@.len() ==> {
                    let key = (#[trigger] requests@[i]).opaque_extra@;
                    &&& before.resources[path].observers.contains(key)
                    &&& requests@[i].request@ == before.register_resources[key].original_request
                }
            &&& forall|i: int, j: int|
                0 <= i < j < requests@.len() ==> (#[trigger] requests@[i]).opaque_extra@ != (
                #[trigger] requests@[j]).opaque_extra@
            &&& forall|key: Seq<char>| #[trigger]
                before.resources[path].observers.contains(key) ==> exists|i: int|
                    0 <= i < requests@.len() && (#[trigger] requests@[i]).opaque_extra@ == key
        },
        result matches Err(ObserveError::NoObservers(subject)) ==> subject@ == path,
{
    if let Ok(requests) = result {
        assert forall|key: Seq<char>| #[trigger]
            before.resources[path].observers.contains(key) implies exists|i: int|
            0 <= i < requests@.len() && (#[trigger] requests@[i]).opaque_extra@ == key by {
            let i = choose|i: int|
                0 <= i < requests@.len() && (#[trigger] requests@[i])@.opaque_extra == key;
            assert(requests@[i].opaque_extra@ == key);
        }
        assert forall|i: int, j: int| 0 <= i < j < requests@.len() implies (
        #[trigger] requests@[i]).opaque_extra@ != (#[trigger] requests@[j]).opaque_extra@ by {
            assert(requests@[i]@.opaque_extra != requests@[j]@.opaque_extra);
        }
        assert forall|i: int| 0 <= i < requests@.len() implies {
            let key = (#[trigger] requests@[i]).opaque_extra@;
            &&& before.resources[path].observers.contains(key)
            &&& requests@[i].request@ == before.register_resources[key].original_request
        } by {
            assert(before.resources[path].observers.contains(requests@[i]@.opaque_extra));
        }
    }
}

/// A tick asks with the original request of every registration that waits for a
/// notification tried no more than ten times, each once and nobody else's.
pub proof fn law_a_tick_asks_for_every_due_notification(
    before: ObserverView,
    requests: Seq<SyntheticRequest>,
    after: ObserverView,
)
    requires
        before.consistent(),
        timer_outcome(before, requests, after),
    ensures
        forall|i: int|
            0 <= i < requests.len() ==> {
                let key = (#[trigger] requests[i]).opaque_extra@;
                let id = before.register_resources[key].unacknowledge_message;
                &&& before.register_resources.contains_key(key)
                &&& id is Some
                &&& before.unacknowledge_messages.contains_key(id->0)
                &&& before.unacknowledge_messages[id->0].try_times <= 10
                &&& requests[i].request@ == before.register_resources[key].original_request
            },
        forall|i: int, j: int|
            0 <= i < j < requests.len() ==> (#[trigger] requests[i]).opaque_extra@ != (
            #[trigger] requests[j]).opaque_extra@,
        forall|id: u16| #[trigger]
            before.unacknowledge_messages.contains_key(id)
                && before.unacknowledge_messages[id].try_times <= 10 ==> exists|i: int|
                0 <= i < requests.len() && (#[trigger] requests[i]).opaque_extra@
                    == before.unacknowledge_messages[id].register_resource,
{
    let due = Set::new(|key: Seq<char>| before.due(key));
    assert forall|i: int| 0 <= i < requests.len() implies {
        let key = (#[trigger] requests[i]).opaque_extra@;
        let id = before.register_resources[key].unacknowledge_message;
        &&& before.register_resources.contains_key(key)
        &&& id is Some
        &&& before.unacknowledge_messages.contains_key(id->0)
        &&& before.unacknowledge_messages[id->0].try_times <= 10
        &&& requests[i].request@ == before.register_resources[key].original_request
    } by {
        assert(due.contains(requests[i]@.opaque_extra));
        assert(before.registration_consistent(requests[i]@.opaque_extra));
    }
    assert forall|i: int, j: int| 0 <= i < j < requests.len() implies (
    #[trigger] requests[i]).opaque_extra@ != (#[trigger] requests[j]).opaque_extra@ by {
        assert(requests[i]@.opaque_extra != requests[j]@.opaque_extra);
    }
    assert forall|id: u16| #[trigger]
        before.unacknowledge_messages.contains_key(id)
            && before.unacknowledge_messages[id].try_times <= 10 implies exists|i: int|
        0 <= i < requests.len() && (#[trigger] requests[i]).opaque_extra@
            == before.unacknowledge_messages[id].register_resource by {
        let key = before.unacknowledge_messages[id].register_resource;
        assert(before.pending_consistent(id));
        assert(due.contains(key));
        let i = choose|i: int|
            0 <= i < requests.len() && (#[trigger] requests[i])@.opaque_extra == key;
        assert(requests[i].opaque_extra@ == key);
    }
}

/// A tick counts one more try of every notification tried no more than ten times
/// and gives up every other, whose registration then waits for nothing. Nothing
/// else changes.
pub proof fn law_a_tick_counts_or_gives_up(
    before: ObserverView,
    requests: Seq<SyntheticRequest>,
    after: ObserverView,
)
    requires
        before.consistent(),
        timer_outcome(before, requests, after),
    ensures
        forall|id: u16|
            #![trigger after.unacknowledge_messages.contains_key(id)]
            #![trigger before.unacknowledge_messages.contains_key(id)]
            (after.unacknowledge_messages.contains_key(id)
                <==> before.unacknowledge_messages.contains_key(id)
                && before.unacknowledge_messages[id].try_times <= 10) && (
            after.unacknowledge_messages.contains_key(id) ==> {
                &&& after.unacknowledge_messages[id].try_times
                    == before.unacknowledge_messages[id].try_times + 1
                &&& after.unacknowledge_messages[id].register_resource
                    == before.unacknowledge_messages[id].register_resource
            }),
        forall|key: Seq<char>|
            #![trigger after.register_resources.contains_key(key)]
            #![trigger before.register_resources.contains_key(key)]
            after.register_resources.contains_key(key) == before.register_resources.contains_key(
                key,
            ) && (before.register_resources.contains_key(key) ==> {
                let old_item = before.register_resources[key];
                let new_item = after.register_resources[key];
                let id = old_item.unacknowledge_message;
                &&& new_item.register == old_item.register
                &&& new_item.resource == old_item.resource
                &&& new_item.original_request == old_item.original_request
                &&& id is Some && before.unacknowledge_messages[id->0].try_times > 10
                    ==> new_item.unacknowledge_message is None
                &&& !(id is Some && before.unacknowledge_messages[id->0].try_times > 10)
                    ==> new_item.unacknowledge_message == id
            }),
        after.registers == before.registers,
        after.resources == before.resources,
        after.current_message_id == before.current_message_id,
{
    assert forall|id: u16| #[trigger]
        before.unacknowledge_messages.contains_key(id) implies before.pending_consistent(id) by {
    }
    assert forall|key: Seq<char>| #[trigger]
        before.register_resources.contains_key(key) implies before.registration_consistent(key) by {
    }
}

/// A notification can be made just where its registration is gone, or where a
/// message id and a number of the resource's sequence are left for it.
pub proof fn law_when_a_notification_is_possible(observer: ObserverView, key: Seq<char>)
    ensures
        observer.can_notify(key) <==> {
            ||| !observer.register_resources.contains_key(key)
            ||| observer.current_message_id < 65535
                && observer.resources[observer.register_resources[key].resource].sequence
                < 0xFFFF_FFFF
        },
{
}

/// A synthetic request that comes back for a registration yields a notification
/// for the peer that registered: confirmable, under the message id after the last
/// one, and otherwise the reply, or the request where there is none, with the
/// number after the resource's last one as the one value of Observe.
pub proof fn law_a_reply_is_made_the_next_notification(
    before: ObserverView,
    request: RequestView,
    key: Seq<char>,
    result: Result<Notification, ReplyError>,
    after: ObserverView,
)
    requires
        before.consistent(),
        before.can_notify(key),
        before.register_resources.contains_key(key),
        reply_outcome(before, request, key, result, after),
    ensures
        result is Ok,
        ({
            let item = before.register_resources[key];
            let address = result->Ok_0.address@;
            let message = result->Ok_0.message@;
            let answer = if request.response is Some {
                request.response->0
            } else {
                request.message
            };
            &&& address == item.original_request.source->0
            &&& message.header.message_type == MessageType::Confirmable
            &&& message.header.message_id == before.current_message_id + 1
            &&& message.header.version == answer.header.version
            &&& message.header.code == answer.header.code
            &&& message.token == answer.token
            &&& message.payload == answer.payload
            &&& option_values(message.options, 6).len() == 1
            &&& uint_value(option_values(message.options, 6)[0])
                == before.resources[item.resource].sequence + 1
            &&& forall|number: u16|
                number != 6 ==> #[trigger] option_values(message.options, number)
                    == option_values(answer.options, number)
        }),
{
    assert(before.registration_consistent(key));
    law_notifications_are_confirmable(
        request.answer(),
        result->Ok_0.message@,
        after.current_message_id,
        after.resources[before.register_resources[key].resource].sequence,
    );
}

/// The notification is then the one that its registration waits for, tried once,
/// in place of any earlier one. The message id and the resource's number have been
/// counted up by one. Nothing else changes.
pub proof fn law_a_notification_is_then_waited_for(
    before: ObserverView,
    request: RequestView,
    key: Seq<char>,
    result: Result<Notification, ReplyError>,
    after: ObserverView,
)
    requires
        before.consistent(),
        before.can_notify(key),
        before.register_resources.contains_key(key),
        reply_outcome(before, request, key, result, after),
    ensures
        ({
            let item = before.register_resources[key];
            let new_item = after.register_resources[key];
            let new_id = after.current_message_id;
            &&& new_id == before.current_message_id + 1
            &&& after.unacknowledge_messages.contains_key(new_id)
            &&& after.unacknowledge_messages[new_id].register_resource == key
            &&& after.unacknowledge_messages[new_id].try_times == 1
            &&& forall|id: u16|
                #![trigger after.unacknowledge_messages.contains_key(id)]
                id != new_id ==> {
                    &&& after.unacknowledge_messages.contains_key(id)
                        <==> before.unacknowledge_messages.contains_key(id)
                        && before.unacknowledge_messages[id].register_resource != key
                    &&& after.unacknowledge_messages.contains_key(id)
                        ==> after.unacknowledge_messages[id] == before.unacknowledge_messages[id]
                }
            &&& after.register_resources.contains_key(key)
            &&& new_item.unacknowledge_message == Some(new_id)
            &&& new_item.register == item.register
            &&& new_item.resource == item.resource
            &&& new_item.original_request == item.original_request
            &&& forall|other: Seq<char>|
                #![trigger after.register_resources.contains_key(other)]
                other != key ==> {
                    &&& after.register_resources.contains_key(other)
                        == before.register_resources.contains_key(other)
                    &&& after.register_resources.contains_key(other)
                        ==> after.register_resources[other] == before.register_resources[other]
                }
            &&& forall|path: Seq<char>|
                #![trigger after.resources.contains_key(path)]
                after.resources.contains_key(path) == before.resources.contains_key(path) && (
                before.resources.contains_key(path) ==> {
                    &&& after.resources[path].observers == before.resources[path].observers
                    &&& after.resources[path].sequence == before.resources[path].sequence + if path
                        == item.resource {
                        1int
                    } else {
                        0int
                    }
                })
            &&& after.registers == before.registers
        }),
{
    assert(before.registration_consistent(key));
    assert forall|id: u16| #[trigger]
        before.unacknowledge_messages.contains_key(id) implies before.pending_consistent(id) by {
    }
}

/// A synthetic request that comes back for a registration that is gone is an
/// error that changes nothing.
pub proof fn law_a_reply_to_nobody_changes_nothing(
    before: ObserverView,
    request: RequestView,
    key: Seq<char>,
    result: Result<Notification, ReplyError>,
    after: ObserverView,
)
    requires
        !before.register_resources.contains_key(key),
        reply_outcome(before, request, key, result, after),
    ensures
        result is Err,
        result->Err_0 is RegistrationCanceled,
        after == before,
{
}

} // verus!
