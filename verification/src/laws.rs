//! What holds of the observer as a whole, whichever operations it goes through.

use vstd::prelude::*;
use vstd::set_lib::{lemma_len_subset, lemma_map_size_bound, lemma_set_subset_finite};

use crate::consistency::{
    lemma_await_consistent, lemma_count_up_consistent, lemma_key_injective,
    lemma_record_consistent, lemma_tick_consistent, lemma_without_consistent,
};
use crate::endpoint::KEY_SEPARATOR;
use crate::message::{
    default_reply, is_notification_of, option_values, uint_bytes, uint_value, PacketView,
    RequestView, OBSERVE,
};
use crate::model::{registration_key, ObserverView, RegistrationView, MAX_TRY_TIMES};
use crate::synthetic_request::synthetic_request_for;

verus! {

/// The key of the registration that `request` asks for.
pub open spec fn key_of(request: RequestView) -> Seq<char> {
    registration_key(request.source->0.text, request.path())
}

/// `request` can register: it has come from a peer, whose address holds no
/// separator.
pub open spec fn can_register(request: RequestView) -> bool {
    request.source is Some && !request.source->0.text.contains(KEY_SEPARATOR)
}

/// Two registrations never share a key.
pub proof fn law_keys_are_unique(request1: RequestView, request2: RequestView)
    requires
        can_register(request1),
        can_register(request2),
        key_of(request1) == key_of(request2),
    ensures
        request1.source->0.text == request2.source->0.text,
        request1.path() == request2.path(),
{
    lemma_key_injective(
        request1.source->0.text,
        request1.path(),
        request2.source->0.text,
        request2.path(),
    );
}

/// A peer that has registered for a resource is asked for when it changes, with
/// a copy of its request that carries no reply but the one every request starts
/// with.
pub proof fn law_registered_is_asked(observer: ObserverView, request: RequestView)
    requires
        observer.consistent(),
        can_register(request),
    ensures
        ({
            let after = observer.register(request);
            let key = key_of(request);
            &&& after.consistent()
            &&& after.resources.contains_key(request.path())
            &&& after.resources[request.path()].observers.contains(key)
            &&& !observer.register_resources.contains_key(key) ==> synthetic_request_for(
                after,
                key,
            ).request == RequestView::from_packet(request.message, request.source->0)
        }),
{
    let bare = RequestView::from_packet(request.message, request.source->0);
    assert(bare.path() == request.path());
    lemma_record_consistent(observer, bare);
}

/// A registration concerns nobody else: the other registrations, the other
/// resources, the waiting notifications and the numbers stay as they are.
pub proof fn law_registering_leaves_the_rest_alone(observer: ObserverView, request: RequestView)
    requires
        can_register(request),
    ensures
        ({
            let after = observer.register(request);
            &&& after.unacknowledge_messages == observer.unacknowledge_messages
            &&& after.current_message_id == observer.current_message_id
            &&& after.resources[request.path()].sequence == observer.resource_or_default(
                request.path(),
            ).sequence
            &&& forall|key: Seq<char>|
                key != key_of(request) && #[trigger] observer.register_resources.contains_key(key)
                    ==> after.register_resources.contains_key(key) && after.register_resources[key]
                    == observer.register_resources[key]
            &&& forall|path: Seq<char>|
                path != request.path() && #[trigger] observer.resources.contains_key(path)
                    ==> after.resources.contains_key(path) && after.resources[path]
                    == observer.resources[path]
        }),
{
    let bare = RequestView::from_packet(request.message, request.source->0);
    assert(bare.path() == request.path());
}

/// To register again changes nothing: the first registration stands, with its
/// request and its token.
pub proof fn law_registering_again_changes_nothing(
    observer: ObserverView,
    request: RequestView,
    again: RequestView,
)
    requires
        observer.consistent(),
        can_register(request),
        again.source is Some,
        again.source->0.text == request.source->0.text,
        again.path() == request.path(),
    ensures
        observer.register(request).register(again) == observer.register(request),
{
    let after = observer.register(request);
    let twice = after.register(again);
    let bare = RequestView::from_packet(request.message, request.source->0);
    let bare_again = RequestView::from_packet(again.message, again.source->0);
    assert(bare.path() == request.path());
    assert(bare_again.path() == again.path());
    let key = key_of(request);
    let keys = after.registers[request.source->0.text];
    assert(keys.insert(key) =~= keys);
    let observers = after.resources[request.path()].observers;
    assert(observers.insert(key) =~= observers);
    assert(twice.registers =~= after.registers);
    assert(twice.resources =~= after.resources);
    assert(twice.register_resources =~= after.register_resources);
}

/// To cancel a fresh registration undoes it: peers, registrations and waiting
/// notifications are as before, and every resource has the observers and the
/// number it had. The one trace is that the resource is known now.
pub proof fn law_deregister_undoes_register(observer: ObserverView, request: RequestView)
    requires
        observer.consistent(),
        can_register(request),
        !observer.register_resources.contains_key(key_of(request)),
    ensures
        ({
            let after = observer.register(request).deregister(
                request.source->0.text,
                request.path(),
                request.message.token,
            );
            after == ObserverView {
                resources: observer.resources.insert(
                    request.path(),
                    observer.resource_or_default(request.path()),
                ),
                ..observer
            }
        }),
{
    let key = key_of(request);
    let register = request.source->0.text;
    let path = request.path();
    let bare = RequestView::from_packet(request.message, request.source->0);
    assert(bare.path() == path);
    let between = observer.register(request);
    let after = between.deregister(register, path, request.message.token);
    assert(after == between.without(key));
    assert(after.register_resources =~= observer.register_resources);
    if observer.resources.contains_key(path) {
        assert(observer.resource_consistent(path));
    }
    let observers = observer.resource_or_default(path).observers;
    assert(observers.insert(key).remove(key) =~= observers);
    assert(after.resources =~= observer.resources.insert(path, observer.resource_or_default(path)));
    let keys = observer.registrations_of(register);
    if observer.registers.contains_key(register) {
        assert(observer.register_consistent(register));
    }
    assert(!keys.contains(key));
    assert(keys.insert(key).remove(key) =~= keys);
    assert(after.registers =~= observer.registers);
}

/// A peer that has cancelled under the token it registered with is not asked for
/// any more, nothing waits for its acknowledgement, and every other registration
/// is as before.
pub proof fn law_deregistered_is_forgotten(observer: ObserverView, key: Seq<char>)
    requires
        observer.consistent(),
        observer.register_resources.contains_key(key),
    ensures
        ({
            let item = observer.register_resources[key];
            let after = observer.deregister(item.register, item.resource, item.token());
            &&& after.consistent()
            &&& !after.register_resources.contains_key(key)
            &&& forall|path: Seq<char>| #[trigger]
                after.resources.contains_key(path) ==> !after.resources[path].observers.contains(
                    key,
                )
            &&& forall|id: u16| #[trigger]
                after.unacknowledge_messages.contains_key(id)
                    ==> after.unacknowledge_messages[id].register_resource != key
            &&& forall|other: Seq<char>| #[trigger]
                observer.register_resources.contains_key(other) && other != key ==> {
                    &&& after.register_resources.contains_key(other)
                    &&& after.register_resources[other] == observer.register_resources[other]
                }
        }),
{
    assert(observer.registration_consistent(key));
    lemma_without_consistent(observer, key);
    let after = observer.without(key);
    assert forall|path: Seq<char>| #[trigger]
        after.resources.contains_key(path) implies !after.resources[path].observers.contains(
        key,
    ) by {
        assert(after.resource_consistent(path));
    }
    assert forall|id: u16| #[trigger]
        after.unacknowledge_messages.contains_key(id) implies after.unacknowledge_messages[id].register_resource
        != key by {
        assert(after.pending_consistent(id));
    }
}

/// A registration cannot be cancelled under another token, and one that is not
/// there cannot be cancelled at all.
pub proof fn law_refused_deregister_changes_nothing(
    observer: ObserverView,
    register: Seq<char>,
    resource: Seq<char>,
    token: Seq<u8>,
)
    requires
        ({
            let key = registration_key(register, resource);
            observer.token_mismatch(key, token) || !observer.register_resources.contains_key(key)
        }),
    ensures
        observer.deregister(register, resource, token) == observer,
{
}

/// A notification gets a message id that no other notification has had, and the
/// number in the resource's sequence that follows the last one. Nothing else is
/// renumbered.
pub proof fn law_notifications_are_numbered_upwards(observer: ObserverView, key: Seq<char>)
    requires
        observer.consistent(),
        observer.register_resources.contains_key(key),
        observer.can_notify(key),
    ensures
        ({
            let after = observer.notify(key);
            let path = observer.register_resources[key].resource;
            &&& after.consistent()
            &&& after.current_message_id == observer.current_message_id + 1
            &&& !observer.unacknowledge_messages.contains_key(after.current_message_id)
            &&& after.resources.contains_key(path)
            &&& after.resources[path].sequence == observer.resources[path].sequence + 1
            &&& after.resources[path].observers == observer.resources[path].observers
            &&& forall|other: Seq<char>|
                other != path && #[trigger] observer.resources.contains_key(other)
                    ==> after.resources.contains_key(other) && after.resources[other]
                    == observer.resources[other]
        }),
{
    lemma_count_up_consistent(observer, key);
    lemma_await_consistent(observer.count_up(key), key);
}

/// After a notification the registration waits for its acknowledgement and for
/// no other, even if an earlier one was still outstanding.
pub proof fn law_only_the_last_notification_is_waited_for(observer: ObserverView, key: Seq<char>)
    requires
        observer.consistent(),
        observer.register_resources.contains_key(key),
        observer.can_notify(key),
    ensures
        ({
            let after = observer.notify(key);
            forall|id: u16|
                #![trigger after.unacknowledge_messages.contains_key(id)]
                after.unacknowledge_messages.contains_key(id)
                    && after.unacknowledge_messages[id].register_resource == key <==> id
                    == after.current_message_id
        }),
{
    law_notifications_are_numbered_upwards(observer, key);
    let after = observer.notify(key);
    assert forall|id: u16|
        #![trigger after.unacknowledge_messages.contains_key(id)]
        after.unacknowledge_messages.contains_key(id)
            && after.unacknowledge_messages[id].register_resource == key implies id
        == after.current_message_id by {
        assert(after.pending_consistent(id));
    }
}

/// In a consistent observer no registration waits for two notifications.
pub proof fn law_one_notification_per_registration(observer: ObserverView, id1: u16, id2: u16)
    requires
        observer.consistent(),
        observer.unacknowledge_messages.contains_key(id1),
        observer.unacknowledge_messages.contains_key(id2),
        observer.unacknowledge_messages[id1].register_resource
            == observer.unacknowledge_messages[id2].register_resource,
    ensures
        id1 == id2,
{
    assert(observer.pending_consistent(id1));
    assert(observer.pending_consistent(id2));
}

/// However many notifications have been sent, no more of them wait for an
/// acknowledgement than there are registrations.
pub proof fn law_no_more_waiting_than_registered(observer: ObserverView)
    requires
        observer.consistent(),
    ensures
        observer.unacknowledge_messages.dom().finite(),
        observer.unacknowledge_messages.len() <= observer.register_resources.len(),
{
    let keys = observer.register_resources.dom();
    let waited_for = |key: Seq<char>|
        observer.register_resources[key].unacknowledge_message->0;
    let ids = keys.map(waited_for);
    lemma_map_size_bound(keys, ids, waited_for);
    assert forall|id: u16| #[trigger]
        observer.unacknowledge_messages.dom().contains(id) implies ids.contains(id) by {
        assert(observer.pending_consistent(id));
        let key = observer.unacknowledge_messages[id].register_resource;
        assert(keys.contains(key) && waited_for(key) == id);
    }
    lemma_set_subset_finite(ids, observer.unacknowledge_messages.dom());
    lemma_len_subset(observer.unacknowledge_messages.dom(), ids);
}

/// The key is entered with the peer just where it is that of a registration of
/// the peer.
pub open spec fn register_tied(observer: ObserverView, register: Seq<char>, key: Seq<char>) -> bool {
    observer.registers.contains_key(register) && observer.registers[register].contains(key)
        <==> observer.register_resources.contains_key(key)
        && observer.register_resources[key].register == register
}

/// The key is entered with the resource just where it is that of a registration
/// for the resource.
pub open spec fn resource_tied(observer: ObserverView, path: Seq<char>, key: Seq<char>) -> bool {
    observer.resources.contains_key(path) && observer.resources[path].observers.contains(key)
        <==> observer.register_resources.contains_key(key)
        && observer.register_resources[key].resource == path
}

/// The notification waits for the registration just where the registration waits
/// for the notification.
pub open spec fn notification_tied(observer: ObserverView, id: u16, key: Seq<char>) -> bool {
    observer.unacknowledge_messages.contains_key(id)
        && observer.unacknowledge_messages[id].register_resource == key
        <==> observer.register_resources.contains_key(key)
        && observer.register_resources[key].unacknowledge_message == Some(id)
}

/// Peers, resources and registrations are tied both ways, no peer is entered
/// without a registration, and every key spells its peer and its path.
pub open spec fn entries_tied(observer: ObserverView) -> bool {
    &&& forall|register: Seq<char>, key: Seq<char>| #[trigger]
        register_tied(observer, register, key)
    &&& forall|path: Seq<char>, key: Seq<char>| #[trigger] resource_tied(observer, path, key)
    &&& forall|register: Seq<char>| #[trigger]
        observer.registers.contains_key(register) ==> observer.registers[register] != Set::<
            Seq<char>,
        >::empty()
    &&& forall|key: Seq<char>| #[trigger]
        observer.register_resources.contains_key(key) ==> {
            let item = observer.register_resources[key];
            &&& !item.register.contains(KEY_SEPARATOR)
            &&& key == registration_key(item.register, item.resource)
        }
}

/// Notifications and registrations are tied both ways.
pub open spec fn pending_tied(observer: ObserverView) -> bool {
    forall|id: u16, key: Seq<char>| #[trigger] notification_tied(observer, id, key)
}

/// In a consistent observer all ties hold both ways.
pub proof fn law_consistent_is_tied(observer: ObserverView)
    requires
        observer.consistent(),
    ensures
        entries_tied(observer),
        pending_tied(observer),
{
    assert forall|key: Seq<char>| #[trigger]
        observer.register_resources.contains_key(key) implies observer.registration_consistent(
        key,
    ) by {
    }
    assert forall|register: Seq<char>, key: Seq<char>| #[trigger]
        register_tied(observer, register, key) by {
        if observer.registers.contains_key(register) {
            assert(observer.register_consistent(register));
        }
    }
    assert forall|path: Seq<char>, key: Seq<char>| #[trigger]
        resource_tied(observer, path, key) by {
        if observer.resources.contains_key(path) {
            assert(observer.resource_consistent(path));
        }
    }
    assert forall|register: Seq<char>| #[trigger]
        observer.registers.contains_key(register) implies observer.registers[register] != Set::<
        Seq<char>,
    >::empty() by {
        assert(observer.register_consistent(register));
    }
    assert forall|id: u16, key: Seq<char>| #[trigger] notification_tied(observer, id, key) by {
        if observer.unacknowledge_messages.contains_key(id) {
            assert(observer.pending_consistent(id));
        }
    }
}

/// Ties that hold both ways make an observer consistent, as long as it has
/// finitely many registrations, each for the bare request it was made with, and
/// has numbered and counted the notifications that wait.
pub proof fn law_tied_is_consistent(observer: ObserverView)
    requires
        entries_tied(observer),
        pending_tied(observer),
        observer.register_resources.dom().finite(),
        forall|key: Seq<char>| #[trigger]
            observer.register_resources.contains_key(key) ==> {
                let item = observer.register_resources[key];
                let request = item.original_request;
                &&& request.source is Some
                &&& request.source->0.text == item.register
                &&& request.path() == item.resource
                &&& request.response == default_reply(request.message)
            },
        forall|id: u16| #[trigger]
            observer.unacknowledge_messages.contains_key(id) ==> {
                &&& observer.register_resources.contains_key(
                    observer.unacknowledge_messages[id].register_resource,
                )
                &&& 1 <= id <= observer.current_message_id
                &&& 1 <= observer.unacknowledge_messages[id].try_times <= 11
            },
    ensures
        observer.consistent(),
{
    assert forall|key: Seq<char>| #[trigger]
        observer.register_resources.contains_key(key) implies observer.registration_consistent(
        key,
    ) by {
        let item = observer.register_resources[key];
        assert(register_tied(observer, item.register, key));
        assert(resource_tied(observer, item.resource, key));
        if item.unacknowledge_message is Some {
            assert(notification_tied(observer, item.unacknowledge_message->0, key));
        }
    }
    assert forall|register: Seq<char>| #[trigger]
        observer.registers.contains_key(register) implies observer.register_consistent(register) by {
        assert forall|key: Seq<char>| #[trigger]
            observer.registers[register].contains(key) implies {
            &&& observer.register_resources.contains_key(key)
            &&& observer.register_resources[key].register == register
        } by {
            assert(register_tied(observer, register, key));
        }
    }
    assert forall|path: Seq<char>| #[trigger]
        observer.resources.contains_key(path) implies observer.resource_consistent(path) by {
        assert forall|key: Seq<char>| #[trigger]
            observer.resources[path].observers.contains(key) implies {
            &&& observer.register_resources.contains_key(key)
            &&& observer.register_resources[key].resource == path
        } by {
            assert(resource_tied(observer, path, key));
        }
    }
    assert forall|id: u16| #[trigger]
        observer.unacknowledge_messages.contains_key(id) implies observer.pending_consistent(id) by {
        assert(notification_tied(
            observer,
            id,
            observer.unacknowledge_messages[id].register_resource,
        ));
    }
}

/// Recording a registration keeps peers, resources and registrations tied.
pub proof fn law_recording_keeps_entries_tied(observer: ObserverView, request: RequestView)
    requires
        entries_tied(observer),
        can_register(request),
    ensures
        entries_tied(observer.record(request)),
{
    let after = observer.record(request);
    let new_register = request.source->0.text;
    let new_path = request.path();
    let new_key = key_of(request);
    if observer.register_resources.contains_key(new_key) {
        let item = observer.register_resources[new_key];
        lemma_key_injective(item.register, item.resource, new_register, new_path);
    }
    assert(after.registers[new_register].contains(new_key));
    assert forall|register: Seq<char>, key: Seq<char>| #[trigger]
        register_tied(after, register, key) by {
        assert(register_tied(observer, register, key));
    }
    assert forall|path: Seq<char>, key: Seq<char>| #[trigger] resource_tied(after, path, key) by {
        assert(resource_tied(observer, path, key));
    }
}

/// To note that the notification with the current message id is waited for keeps
/// notifications and registrations tied, unless another registration waits for
/// that id.
pub proof fn law_awaiting_keeps_pending_tied(observer: ObserverView, key: Seq<char>)
    requires
        pending_tied(observer),
        observer.register_resources.contains_key(key),
        observer.unacknowledge_messages.contains_key(observer.current_message_id)
            ==> observer.unacknowledge_messages[observer.current_message_id].register_resource
            == key,
    ensures
        pending_tied(observer.await_current(key)),
{
    let after = observer.await_current(key);
    assert forall|id: u16, other: Seq<char>| #[trigger] notification_tied(after, id, other) by {
        assert(notification_tied(observer, id, other));
        assert(notification_tied(observer, id, key));
    }
}

/// The acknowledgement that a notification waits for, under the token of the
/// registration, is accepted, and leaves the observer as if nothing had been
/// sent, but for the numbers that were used up and an earlier notification that
/// was given up. The same acknowledgement is not waited for a second time.
pub proof fn law_acknowledgement_settles(observer: ObserverView, key: Seq<char>)
    requires
        observer.consistent(),
        observer.register_resources.contains_key(key),
        observer.can_notify(key),
    ensures
        ({
            let sent = observer.notify(key);
            let id = sent.current_message_id;
            let token = observer.register_resources[key].token();
            let after = sent.acknowledge(id);
            &&& sent.unacknowledge_messages.contains_key(id)
            &&& !sent.acknowledge_mismatch(id, token)
            &&& !after.unacknowledge_messages.contains_key(id)
            &&& after.register_resources[key] == RegistrationView {
                unacknowledge_message: None,
                ..observer.register_resources[key]
            }
            &&& observer.register_resources[key].unacknowledge_message is None ==> {
                &&& after.unacknowledge_messages == observer.unacknowledge_messages
                &&& after.register_resources == observer.register_resources
                &&& after.registers == observer.registers
            }
        }),
{
    law_notifications_are_numbered_upwards(observer, key);
    let sent = observer.notify(key);
    let after = sent.acknowledge(sent.current_message_id);
    if observer.register_resources[key].unacknowledge_message is None {
        assert(after.unacknowledge_messages =~= observer.unacknowledge_messages);
        assert(after.register_resources =~= observer.register_resources);
    }
}

/// A notification is known to the observer by the token it registered with, and
/// an acknowledgement that echoes its message id and its token is accepted. The
/// reply of `answered` has the token that the synthetic request held ready for
/// it; without a reply the message has the synthetic request's own.
pub proof fn law_notification_can_be_acknowledged(
    observer: ObserverView,
    key: Seq<char>,
    answered: RequestView,
    notification: PacketView,
)
    requires
        observer.consistent(),
        observer.register_resources.contains_key(key),
        observer.can_notify(key),
        ({
            let issued = synthetic_request_for(observer, key).request;
            match answered.response {
                Some(reply) => issued.response is Some && reply.token == issued.response->0.token,
                None => answered.message.token == issued.message.token,
            }
        }),
        is_notification_of(
            answered.answer(),
            notification,
            observer.notify(key).current_message_id,
            observer.notify(key).resources[observer.register_resources[key].resource].sequence,
        ),
    ensures
        ({
            let sent = observer.notify(key);
            let id = notification.header.message_id;
            &&& notification.token == observer.register_resources[key].token()
            &&& sent.unacknowledge_messages.contains_key(id)
            &&& sent.unacknowledge_messages[id].register_resource == key
            &&& !sent.acknowledge_mismatch(id, notification.token)
        }),
{
    law_acknowledgement_settles(observer, key);
    law_synthetic_requests_are_unanswered(observer, key);
}

/// The observer after `n` timer ticks.
pub open spec fn ticks(observer: ObserverView, n: nat) -> ObserverView
    decreases n,
{
    if n == 0 {
        observer
    } else {
        ticks(observer, (n - 1) as nat).tick()
    }
}

/// Without an acknowledgement and without a reply, a waiting notification is
/// tried with every tick until it has been tried eleven times, and is given up
/// by the tick after that.
pub proof fn law_retries_end(observer: ObserverView, id: u16, n: nat)
    requires
        observer.consistent(),
        observer.unacknowledge_messages.contains_key(id),
    ensures
        ({
            let pending = observer.unacknowledge_messages[id];
            let key = pending.register_resource;
            let after = ticks(observer, n);
            &&& after.consistent()
            &&& after.register_resources.contains_key(key)
            &&& if pending.try_times + n <= MAX_TRY_TIMES + 1 {
                &&& after.unacknowledge_messages.contains_key(id)
                &&& after.unacknowledge_messages[id].register_resource == key
                &&& after.unacknowledge_messages[id].try_times == pending.try_times + n
                &&& after.due(key) <==> pending.try_times + n <= MAX_TRY_TIMES
            } else {
                &&& !after.unacknowledge_messages.contains_key(id)
                &&& after.register_resources[key].unacknowledge_message is None
                &&& !after.due(key)
            }
        }),
    decreases n,
{
    if n == 0 {
        assert(observer.pending_consistent(id));
    } else {
        let before = ticks(observer, (n - 1) as nat);
        law_retries_end(observer, id, (n - 1) as nat);
        lemma_tick_consistent(before, Set::full());
        if before.unacknowledge_messages.contains_key(id) {
            assert(before.pending_consistent(id));
        }
    }
}

/// A timer tick leaves peers, resources, numbers and the requests that the
/// registrations were made with alone.
pub proof fn law_tick_only_counts(observer: ObserverView)
    requires
        observer.consistent(),
    ensures
        ({
            let after = observer.tick();
            &&& after.consistent()
            &&& after.registers == observer.registers
            &&& after.resources == observer.resources
            &&& after.current_message_id == observer.current_message_id
            &&& after.register_resources.dom() == observer.register_resources.dom()
            &&& forall|key: Seq<char>| #[trigger]
                observer.register_resources.contains_key(key)
                    ==> after.register_resources[key].original_request
                    == observer.register_resources[key].original_request
        }),
{
    lemma_tick_consistent(observer, Set::full());
    assert(observer.tick().register_resources.dom() =~= observer.register_resources.dom());
}

/// A synthetic request never carries a reply that somebody has given: it holds
/// the one that every request starts with.
pub proof fn law_synthetic_requests_are_unanswered(observer: ObserverView, key: Seq<char>)
    requires
        observer.consistent(),
        observer.register_resources.contains_key(key),
    ensures
        ({
            let request = synthetic_request_for(observer, key).request;
            &&& request.response == default_reply(request.message)
            &&& key_of(request) == key
        }),
{
    assert(observer.registration_consistent(key));
}

/// The bytes of a number of up to four bytes are no more than four, and spell
/// the number.
pub proof fn law_uint_reads_back(value: u32)
    ensures
        uint_bytes(value as nat).len() <= 4,
        uint_value(uint_bytes(value as nat)) == value,
{
    let value = value as nat;
    assert(value / 256 / 256 / 256 / 256 == 0);
    assert(uint_bytes(value / 256 / 256 / 256 / 256).len() == 0);
    assert(uint_bytes(value / 256 / 256 / 256).len() <= 1);
    assert(uint_bytes(value / 256 / 256).len() <= 2);
    assert(uint_bytes(value / 256).len() <= 3);
    lemma_uint_bytes_spell(value);
}

proof fn lemma_uint_bytes_spell(value: nat)
    ensures
        uint_value(uint_bytes(value)) == value,
    decreases value,
{
    if value > 0 {
        lemma_uint_bytes_spell(value / 256);
        assert(uint_bytes(value).drop_last() =~= uint_bytes(value / 256));
    }
}

/// A notification agrees with the reply it is made of in everything but the type,
/// the message id and the Observe option.
pub proof fn law_notification_is_the_reply(
    answered: RequestView,
    reply: PacketView,
    notification: PacketView,
    message_id: u16,
    sequence: u32,
)
    requires
        answered.response == Some(reply),
        is_notification_of(answered.answer(), notification, message_id, sequence),
    ensures
        notification.header.version == reply.header.version,
        notification.header.code == reply.header.code,
        notification.token == reply.token,
        notification.payload == reply.payload,
        forall|number: u16|
            number != OBSERVE ==> #[trigger] option_values(notification.options, number)
                == option_values(reply.options, number),
{
}

/// Whoever reads the Observe option of a notification finds the number that the
/// resource's sequence has reached, and no second value.
pub proof fn law_notification_carries_its_number(
    message: PacketView,
    notification: PacketView,
    message_id: u16,
    sequence: u32,
)
    requires
        is_notification_of(message, notification, message_id, sequence),
    ensures
        ({
            let values = option_values(notification.options, OBSERVE);
            &&& values.len() == 1
            &&& values[0].len() <= 4
            &&& uint_value(values[0]) == sequence
        }),
{
    law_uint_reads_back(sequence);
}

} // verus!
