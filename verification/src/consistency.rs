//! Every operation keeps an observer consistent.

use vstd::prelude::*;

use crate::endpoint::KEY_SEPARATOR;
use crate::message::RequestView;
use crate::model::{registration_key, ObserverView, RegistrationView, ResourceView};

verus! {

/// A key names one peer and one path: the peer's address ends at the first
/// dollar sign, since no address holds one.
pub(crate) proof fn lemma_key_injective(
    register1: Seq<char>,
    resource1: Seq<char>,
    register2: Seq<char>,
    resource2: Seq<char>,
)
    requires
        !register1.contains(KEY_SEPARATOR),
        !register2.contains(KEY_SEPARATOR),
        registration_key(register1, resource1) == registration_key(register2, resource2),
    ensures
        register1 == register2,
        resource1 == resource2,
{
    let key1 = registration_key(register1, resource1);
    let key2 = registration_key(register2, resource2);
    assert(key1[register1.len() as int] == KEY_SEPARATOR);
    assert(key2[register2.len() as int] == KEY_SEPARATOR);
    if register1.len() < register2.len() {
        assert(register2[register1.len() as int] == KEY_SEPARATOR);
    }
    if register2.len() < register1.len() {
        assert(register1[register2.len() as int] == KEY_SEPARATOR);
    }
    assert(register1 =~= key1.take(register1.len() as int));
    assert(register2 =~= key2.take(register2.len() as int));
    assert(resource1 =~= key1.skip(register1.len() + 1int));
    assert(resource2 =~= key2.skip(register2.len() + 1int));
}

pub(crate) proof fn lemma_empty_consistent()
    ensures
        ObserverView::empty().consistent(),
{
}

/// A resource may come to be known, or be renumbered, without anything else
/// changing.
pub(crate) proof fn lemma_resource_consistent(
    observer: ObserverView,
    path: Seq<char>,
    resource: ResourceView,
)
    requires
        observer.consistent(),
        resource.observers == observer.resource_or_default(path).observers,
    ensures
        (ObserverView { resources: observer.resources.insert(path, resource), ..observer }).consistent(),
{
    let after = ObserverView { resources: observer.resources.insert(path, resource), ..observer };
    assert forall|key: Seq<char>| #[trigger]
        after.register_resources.contains_key(key) implies after.registration_consistent(key) by {
        assert(observer.registration_consistent(key));
    }
    assert forall|register: Seq<char>| #[trigger]
        after.registers.contains_key(register) implies after.register_consistent(register) by {
        assert(observer.register_consistent(register));
    }
    assert forall|other: Seq<char>| #[trigger]
        after.resources.contains_key(other) implies after.resource_consistent(other) by {
        if observer.resources.contains_key(other) {
            assert(observer.resource_consistent(other));
        }
    }
    assert forall|id: u16| #[trigger]
        after.unacknowledge_messages.contains_key(id) implies after.pending_consistent(id) by {
        assert(observer.pending_consistent(id));
    }
}

pub(crate) proof fn lemma_record_consistent(observer: ObserverView, request: RequestView)
    requires
        observer.consistent(),
        request.source is Some,
        !request.source->0.text.contains(KEY_SEPARATOR),
        request == RequestView::from_packet(request.message, request.source->0),
    ensures
        observer.record(request).consistent(),
{
    let after = observer.record(request);
    let new = RegistrationView::of(request);
    let new_key = registration_key(new.register, new.resource);
    if observer.register_resources.contains_key(new_key) {
        let item = observer.register_resources[new_key];
        assert(observer.registration_consistent(new_key));
        lemma_key_injective(item.register, item.resource, new.register, new.resource);
    }
    assert forall|key: Seq<char>| #[trigger]
        after.register_resources.contains_key(key) implies after.registration_consistent(key) by {
        if observer.register_resources.contains_key(key) {
            assert(observer.registration_consistent(key));
        }
    }
    assert forall|register: Seq<char>| #[trigger]
        after.registers.contains_key(register) implies after.register_consistent(register) by {
        if observer.registers.contains_key(register) {
            assert(observer.register_consistent(register));
        }
        if register == new.register {
            assert(after.registers[register].contains(new_key));
        }
    }
    assert forall|path: Seq<char>| #[trigger]
        after.resources.contains_key(path) implies after.resource_consistent(path) by {
        if observer.resources.contains_key(path) {
            assert(observer.resource_consistent(path));
        }
    }
    assert forall|id: u16| #[trigger]
        after.unacknowledge_messages.contains_key(id) implies after.pending_consistent(id) by {
        assert(observer.pending_consistent(id));
    }
}

pub(crate) proof fn lemma_without_consistent(observer: ObserverView, key: Seq<char>)
    requires
        observer.consistent(),
        observer.register_resources.contains_key(key),
    ensures
        observer.without(key).consistent(),
{
    let after = observer.without(key);
    let item = observer.register_resources[key];
    assert(observer.registration_consistent(key));
    assert forall|other: Seq<char>| #[trigger]
        after.register_resources.contains_key(other) implies after.registration_consistent(
        other,
    ) by {
        assert(observer.registration_consistent(other));
        let left = observer.registers[item.register].remove(key);
        if observer.register_resources[other].register == item.register {
            assert(left.contains(other));
        }
    }
    assert forall|register: Seq<char>| #[trigger]
        after.registers.contains_key(register) implies after.register_consistent(register) by {
        assert(observer.register_consistent(register));
    }
    assert forall|path: Seq<char>| #[trigger]
        after.resources.contains_key(path) implies after.resource_consistent(path) by {
        assert(observer.resource_consistent(path));
    }
    assert forall|id: u16| #[trigger]
        after.unacknowledge_messages.contains_key(id) implies after.pending_consistent(id) by {
        assert(observer.pending_consistent(id));
    }
}

pub(crate) proof fn lemma_acknowledge_consistent(observer: ObserverView, id: u16)
    requires
        observer.consistent(),
        observer.unacknowledge_messages.contains_key(id),
    ensures
        observer.acknowledge(id).consistent(),
{
    let after = observer.acknowledge(id);
    assert(observer.pending_consistent(id));
    lemma_same_entries(observer, after);
    assert forall|other: u16| #[trigger]
        after.unacknowledge_messages.contains_key(other) implies after.pending_consistent(other) by {
        assert(observer.pending_consistent(other));
    }
    assert forall|key: Seq<char>| #[trigger]
        after.register_resources.contains_key(key) implies after.registration_consistent(key) by {
        assert(observer.registration_consistent(key));
    }
}

pub(crate) proof fn lemma_count_up_consistent(observer: ObserverView, key: Seq<char>)
    requires
        observer.consistent(),
        observer.register_resources.contains_key(key),
        observer.can_notify(key),
    ensures
        observer.count_up(key).consistent(),
        !observer.count_up(key).unacknowledge_messages.contains_key(
            observer.count_up(key).current_message_id,
        ),
{
    let path = observer.register_resources[key].resource;
    let resource = observer.resources[path];
    let numbered = ResourceView { sequence: (resource.sequence + 1) as u32, ..resource };
    assert(observer.registration_consistent(key));
    lemma_resource_consistent(observer, path, numbered);
    let middle = ObserverView { resources: observer.resources.insert(path, numbered), ..observer };
    let after = observer.count_up(key);
    lemma_same_entries(middle, after);
    assert forall|other: Seq<char>| #[trigger]
        after.register_resources.contains_key(other) implies after.registration_consistent(
        other,
    ) by {
        assert(middle.registration_consistent(other));
    }
    assert forall|id: u16| #[trigger]
        after.unacknowledge_messages.contains_key(id) implies after.pending_consistent(id) && id
        != after.current_message_id by {
        assert(middle.pending_consistent(id));
    }
}

pub(crate) proof fn lemma_await_consistent(observer: ObserverView, key: Seq<char>)
    requires
        observer.consistent(),
        observer.register_resources.contains_key(key),
        observer.current_message_id > 0,
        !observer.unacknowledge_messages.contains_key(observer.current_message_id),
    ensures
        observer.await_current(key).consistent(),
{
    let after = observer.await_current(key);
    lemma_same_entries(observer, after);
    assert(observer.registration_consistent(key));
    assert forall|other: Seq<char>| #[trigger]
        after.register_resources.contains_key(other) implies after.registration_consistent(
        other,
    ) by {
        assert(observer.registration_consistent(other));
    }
    assert forall|id: u16| #[trigger]
        after.unacknowledge_messages.contains_key(id) implies after.pending_consistent(id) by {
        if id != observer.current_message_id {
            assert(observer.pending_consistent(id));
        }
    }
}

/// Peers and resources stay consistent while the registrations keep their
/// peers and paths.
proof fn lemma_same_entries(before: ObserverView, after: ObserverView)
    requires
        before.consistent(),
        after.registers == before.registers,
        after.resources == before.resources,
        forall|key: Seq<char>| #[trigger]
            before.register_resources.contains_key(key) ==> {
                &&& after.register_resources.contains_key(key)
                &&& after.register_resources[key].register
                    == before.register_resources[key].register
                &&& after.register_resources[key].resource
                    == before.register_resources[key].resource
            },
    ensures
        forall|register: Seq<char>| #[trigger]
            after.registers.contains_key(register) ==> after.register_consistent(register),
        forall|path: Seq<char>| #[trigger]
            after.resources.contains_key(path) ==> after.resource_consistent(path),
{
    assert forall|register: Seq<char>| #[trigger]
        after.registers.contains_key(register) implies after.register_consistent(register) by {
        assert(before.register_consistent(register));
    }
    assert forall|path: Seq<char>| #[trigger]
        after.resources.contains_key(path) implies after.resource_consistent(path) by {
        assert(before.resource_consistent(path));
    }
}

pub(crate) proof fn lemma_tick_consistent(observer: ObserverView, keys: Set<Seq<char>>)
    requires
        observer.consistent(),
    ensures
        observer.tick_for(keys).consistent(),
{
    let after = observer.tick_for(keys);
    assert(after.register_resources.dom() =~= observer.register_resources.dom());
    lemma_same_entries(observer, after);
    assert forall|key: Seq<char>| #[trigger]
        after.register_resources.contains_key(key) implies after.registration_consistent(key) by {
        assert(observer.registration_consistent(key));
    }
    assert forall|id: u16| #[trigger]
        after.unacknowledge_messages.contains_key(id) implies after.pending_consistent(id) by {
        assert(observer.pending_consistent(id));
    }
}

/// One more try is a tick for one registration.
pub(crate) proof fn lemma_try_once_is_tick(observer: ObserverView, key: Seq<char>)
    requires
        observer.consistent(),
        observer.register_resources.contains_key(key),
        observer.register_resources[key].unacknowledge_message is Some,
    ensures
        observer.try_once(key) == observer.tick_for(set![key]),
{
    let one = observer.try_once(key);
    let tick = observer.tick_for(set![key]);
    assert(observer.registration_consistent(key));
    assert forall|id: u16| #[trigger]
        observer.unacknowledge_messages.contains_key(id) implies observer.pending_consistent(id) by {
    }
    assert(one.register_resources =~= tick.register_resources);
    assert(one.unacknowledge_messages =~= tick.unacknowledge_messages);
}

/// A tick can go from registration to registration.
pub(crate) proof fn lemma_tick_step(observer: ObserverView, keys: Set<Seq<char>>, key: Seq<char>)
    requires
        observer.consistent(),
        observer.register_resources.contains_key(key),
        observer.register_resources[key].unacknowledge_message is Some,
        !keys.contains(key),
    ensures
        observer.tick_for(keys).register_resources[key] == observer.register_resources[key],
        observer.tick_for(keys).due(key) == observer.due(key),
        observer.tick_for(keys).try_once(key) == observer.tick_for(keys.insert(key)),
{
    let middle = observer.tick_for(keys);
    let after = observer.tick_for(keys.insert(key));
    assert(observer.registration_consistent(key));
    lemma_tick_consistent(observer, keys);
    lemma_try_once_is_tick(middle, key);
    assert forall|id: u16| #[trigger]
        observer.unacknowledge_messages.contains_key(id) implies observer.pending_consistent(id) by {
    }
    let one = middle.tick_for(set![key]);
    assert(one.register_resources =~= after.register_resources);
    assert(one.unacknowledge_messages =~= after.unacknowledge_messages);
}

/// Only the registrations that wait for an acknowledgement matter to a tick.
pub(crate) proof fn lemma_tick_all(observer: ObserverView, keys: Set<Seq<char>>)
    requires
        observer.consistent(),
        forall|id: u16| #[trigger]
            observer.unacknowledge_messages.contains_key(id) ==> keys.contains(
                observer.unacknowledge_messages[id].register_resource,
            ),
    ensures
        observer.tick_for(keys) == observer.tick(),
{
    assert forall|key: Seq<char>| #[trigger]
        observer.register_resources.contains_key(key) implies observer.registration_consistent(
        key,
    ) by {
    }
    assert(observer.tick_for(keys).register_resources =~= observer.tick().register_resources);
    assert(observer.tick_for(keys).unacknowledge_messages
        =~= observer.tick().unacknowledge_messages);
}

} // verus!
