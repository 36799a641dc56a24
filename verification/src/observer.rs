//! The server's side of observing resources: who observes what, and which
//! notifications still wait for an acknowledgement.

use std::collections::HashMap;

use vstd::prelude::*;

use crate::coap;
use crate::consistency::{
    lemma_acknowledge_consistent, lemma_await_consistent, lemma_count_up_consistent,
    lemma_empty_consistent, lemma_key_injective, lemma_record_consistent,
    lemma_resource_consistent, lemma_tick_all, lemma_tick_consistent, lemma_tick_step,
    lemma_try_once_is_tick, lemma_without_consistent,
};
use crate::endpoint::{Endpoint, KEY_SEPARATOR};
use crate::error::{HandlingError, ObserveError, ReplyError};
use crate::message::{
    is_notification_of, CoapRequest, MessageType, ObserveOption, Packet, RequestView, BAD_REQUEST,
    INTERNAL_SERVER_ERROR,
};
use crate::model::{
    registration_key, ObserverView, PendingView, RegistrationView, ResourceView, MAX_TRY_TIMES,
};
use crate::string_map::StringMap;
use crate::synthetic_request::{
    asks_once_for_each, lemma_asks_for_one_more, synthetic_request_for, Notification,
    SyntheticRequest,
};

verus! {

broadcast use vstd::std_specs::hash::group_hash_axioms;

/// A peer that observes something.
struct RegisterItem {
    register_resources: StringMap<()>,
}

/// A resource that has been observed.
pub struct ResourceItem {
    register_resources: StringMap<()>,
    sequence: u32,
}

/// A registration of a peer for a resource.
struct RegisterResourceItem {
    register: String,
    resource: String,
    original_request: CoapRequest,
    unacknowledge_message: Option<u16>,
}

/// A notification that waits for an acknowledgement.
struct UnacknowledgeMessageItem {
    register_resource: String,
    try_times: usize,
}

/// The observers of a server.
pub struct Observer {
    registers: StringMap<RegisterItem>,
    resources: StringMap<ResourceItem>,
    register_resources: StringMap<RegisterResourceItem>,
    unacknowledge_messages: HashMap<u16, UnacknowledgeMessageItem>,
    current_message_id: u16,
}

impl View for RegisterItem {
    type V = Set<Seq<char>>;

    closed spec fn view(&self) -> Set<Seq<char>> {
        self.register_resources@.dom()
    }
}

impl View for ResourceItem {
    type V = ResourceView;

    closed spec fn view(&self) -> ResourceView {
        ResourceView { observers: self.register_resources@.dom(), sequence: self.sequence }
    }
}

impl View for RegisterResourceItem {
    type V = RegistrationView;

    closed spec fn view(&self) -> RegistrationView {
        RegistrationView {
            register: self.register@,
            resource: self.resource@,
            original_request: self.original_request@,
            unacknowledge_message: self.unacknowledge_message,
        }
    }
}

impl View for UnacknowledgeMessageItem {
    type V = PendingView;

    closed spec fn view(&self) -> PendingView {
        PendingView { register_resource: self.register_resource@, try_times: self.try_times }
    }
}

impl View for Observer {
    type V = ObserverView;

    closed spec fn view(&self) -> ObserverView {
        ObserverView {
            registers: self.registers@.map_values(|item: RegisterItem| item@),
            resources: self.resources@.map_values(|item: ResourceItem| item@),
            register_resources: self.register_resources@.map_values(
                |item: RegisterResourceItem| item@,
            ),
            unacknowledge_messages: self.unacknowledge_messages@.map_values(
                |item: UnacknowledgeMessageItem| item@,
            ),
            current_message_id: self.current_message_id,
        }
    }
}

impl ResourceItem {
    /// The number of the last notification about the resource.
    pub fn sequence(&self) -> (sequence: u32)
        ensures
            sequence == self@.sequence,
    {
        self.sequence
    }
}

impl RegisterItem {
    /// Whether the peer observes nothing any more.
    fn is_empty(&self) -> (empty: bool)
        requires
            self.register_resources.wf(),
        ensures
            empty == (self@ == Set::<Seq<char>>::empty()),
    {
        proof {
            if self@ == Set::<Seq<char>>::empty() {
                assert(self.register_resources@ =~= Map::<Seq<char>, ()>::empty());
            }
        }
        self.register_resources.is_empty()
    }
}

impl RegisterResourceItem {
    /// Whether `token` is the one that the observer registered with.
    fn has_token(&self, token: &Vec<u8>) -> (same: bool)
        ensures
            same == (self@.token() == token@),
    {
        let same: bool = self.original_request.message.token == *token;
        proof {
            let own = self.original_request.message.token@;
            if same {
                assert(own =~= token@);
            }
        }
        same
    }
}

impl Observer {
    /// The maps hold together, each by itself.
    pub closed spec fn maps_wf(&self) -> bool {
        &&& self.registers.wf()
        &&& self.resources.wf()
        &&& self.register_resources.wf()
        &&& forall|register: Seq<char>| #[trigger]
            self.registers@.contains_key(register)
                ==> self.registers@[register].register_resources.wf()
        &&& forall|path: Seq<char>| #[trigger]
            self.resources@.contains_key(path) ==> self.resources@[path].register_resources.wf()
    }

    /// The observer is one that `new` and the operations make.
    pub open spec fn wf(&self) -> bool {
        self.maps_wf() && self@.consistent()
    }

    /// Creates an observer that nobody has registered with.
    pub fn new() -> (observer: Observer)
        ensures
            observer.wf(),
            observer@ == ObserverView::empty(),
    {
        let observer = Observer {
            registers: StringMap::new(),
            resources: StringMap::new(),
            register_resources: StringMap::new(),
            unacknowledge_messages: HashMap::new(),
            current_message_id: 0,
        };
        proof {
            lemma_empty_consistent();
            assert(observer@ =~= ObserverView::empty());
        }
        observer
    }

    /// The key of a peer.
    fn format_register(address: &Endpoint) -> (key: String)
        ensures
            key@ == address@.text,
            !key@.contains(KEY_SEPARATOR),
    {
        address.text().clone()
    }

    /// The key of a registration.
    fn format_register_resource(address: &Endpoint, path: &String) -> (key: String)
        ensures
            key@ == registration_key(address@.text, path@),
    {
        proof {
            reveal_strlit("$");
        }
        let key = address.text().clone().concat("$").concat(path.as_str());
        assert("$"@ =~= seq![KEY_SEPARATOR]);
        key
    }

    /// Records the registration that `request` makes, for a resource that is
    /// known.
    fn record_register_resource(&mut self, request: CoapRequest)
        requires
            old(self).wf(),
            request.source is Some,
            request@ == RequestView::from_packet(request@.message, request@.source->0),
            old(self)@.resources.contains_key(request@.path()),
        ensures
            final(self).wf(),
            final(self)@ == old(self)@.record(request@),
    {
        let address: &Endpoint = request.source.as_ref().unwrap();
        let path = request.get_path();
        let register_key = Self::format_register(address);
        let register_resource_key = Self::format_register_resource(address, &path);
        proof {
            lemma_record_consistent(old(self)@, request@);
        }

        if !self.register_resources.contains_key(register_resource_key.as_str()) {
            self.register_resources.insert(
                register_resource_key.clone(),
                RegisterResourceItem {
                    register: register_key.clone(),
                    resource: path.clone(),
                    original_request: request,
                    unacknowledge_message: None,
                },
            );
        }
        match self.resources.get_mut(path.as_str()) {
            Some(resource) => {
                resource.register_resources.insert(register_resource_key.clone(), ());
            },
            None => {},
        }
        match self.registers.get_mut(register_key.as_str()) {
            Some(register) => {
                register.register_resources.insert(register_resource_key, ());
            },
            None => {
                let mut register_resources: StringMap<()> = StringMap::new();
                register_resources.insert(register_resource_key, ());
                self.registers.insert(register_key, RegisterItem { register_resources });
            },
        }
        proof {
            let after = old(self)@.record(request@);
            assert(self@.register_resources =~= after.register_resources);
            assert(self@.resources =~= after.resources);
            assert(self@.registers =~= after.registers);
            assert(self@ =~= after);
        }
    }

    /// Enters the registration that `request` asks for.
    fn register(&mut self, request: &CoapRequest)
        requires
            old(self).wf(),
            request.source is Some,
            request@.message.token_fits(),
        ensures
            final(self).wf(),
            final(self)@ == old(self)@.register(request@),
    {
        let source: &Endpoint = request.source.as_ref().unwrap();
        let resource_path = request.get_path();
        let ghost path = resource_path@;
        proof {
            lemma_resource_consistent(old(self)@, path, old(self)@.resource_or_default(path));
        }
        if !self.resources.contains_key(resource_path.as_str()) {
            let item = ResourceItem { register_resources: StringMap::new(), sequence: 0 };
            assert(item@ =~= old(self)@.resource_or_default(path));
            self.resources.insert(resource_path, item);
        }
        proof {
            let known = ObserverView {
                resources: old(self)@.resources.insert(path, old(self)@.resource_or_default(path)),
                ..old(self)@
            };
            assert(self@.resources =~= known.resources);
            assert(self@ =~= known);
        }
        // Made again from the message, so that the reply it has got is not kept
        // and sent with every synthetic request.
        let original_request = CoapRequest::from_packet(request.message.clone(), source.clone());
        let ghost known = self@;
        self.record_register_resource(original_request);
        proof {
            let bare = original_request@;
            assert(known.record(bare).resources =~= old(self)@.record(bare).resources);
            assert(self@ =~= old(self)@.record(bare));
        }
    }

    /// Cancels the registration that `request` names.
    fn deregister(&mut self, request: &CoapRequest)
        requires
            old(self).wf(),
            request.source is Some,
        ensures
            final(self).wf(),
            final(self)@ == old(self)@.deregister(
                request@.source->0.text,
                request@.path(),
                request@.message.token,
            ),
    {
        let register_address: &Endpoint = request.source.as_ref().unwrap();
        let resource_path = request.get_path();
        self.remove_register_resource(register_address, &resource_path, &request.message.token);
    }

    /// Cancels the registration of the peer for the path, if there is one.
    /// Returns false, and changes nothing, if it has another token.
    fn remove_register_resource(
        &mut self,
        address: &Endpoint,
        path: &String,
        token: &Vec<u8>,
    ) -> (done: bool)
        requires
            old(self).wf(),
        ensures
            final(self).wf(),
            done == !old(self)@.token_mismatch(registration_key(address@.text, path@), token@),
            final(self)@ == old(self)@.deregister(address@.text, path@, token@),
    {
        let register_resource_key = Self::format_register_resource(address, path);
        let ghost key = register_resource_key@;
        let (register, unacknowledge_message): (String, Option<u16>) = match self.register_resources.get(
            register_resource_key.as_str(),
        ) {
            Some(register_resource) => {
                if !register_resource.has_token(token) {
                    return false;
                }
                (register_resource.register.clone(), register_resource.unacknowledge_message)
            },
            None => {
                return true;
            },
        };
        let register_text = Self::format_register(address);
        proof {
            let item = self@.register_resources[key];
            assert(self@.register_resources.contains_key(key));
            assert(self@.registration_consistent(key));
            lemma_key_injective(item.register, item.resource, register_text@, path@);
            lemma_without_consistent(self@, key);
        }

        if let Some(message_id) = unacknowledge_message {
            self.unacknowledge_messages.remove(&message_id);
        }
        match self.resources.get_mut(path.as_str()) {
            Some(resource) => {
                resource.register_resources.remove(register_resource_key.as_str());
            },
            None => {},
        }
        let remove_register: bool = match self.registers.get_mut(register.as_str()) {
            Some(item) => {
                item.register_resources.remove(register_resource_key.as_str());
                item.is_empty()
            },
            None => false,
        };
        if remove_register {
            self.registers.remove(register.as_str());
        }
        self.register_resources.remove(register_resource_key.as_str());
        proof {
            let after = old(self)@.without(key);
            assert(self@.unacknowledge_messages =~= after.unacknowledge_messages);
            assert(self@.resources =~= after.resources);
            assert(self@.registers =~= after.registers);
            assert(self@.register_resources =~= after.register_resources);
            assert(self@ =~= after);
        }
        true
    }

    /// Records the resource with the given path and returns it. One that is
    /// known already is renumbered.
    pub fn record_resource(&mut self, path: &String) -> (item: &ResourceItem)
        requires
            old(self).wf(),
            old(self)@.resources.contains_key(path@) ==> old(self)@.resources[path@].sequence
                < u32::MAX,
        ensures
            final(self).wf(),
            final(self)@ == old(self)@.record_resource(path@),
            item@ == final(self)@.resources[path@],
    {
        let ghost after = old(self)@.record_resource(path@);
        proof {
            lemma_resource_consistent(old(self)@, path@, after.resources[path@]);
        }
        match self.resources.get_mut(path.as_str()) {
            Some(resource) => {
                resource.sequence = resource.sequence + 1;
            },
            None => {
                let item = ResourceItem { register_resources: StringMap::new(), sequence: 0 };
                assert(item@ =~= old(self)@.resource_or_default(path@));
                self.resources.insert(path.clone(), item);
            },
        }
        proof {
            assert(self@.resources =~= after.resources);
            assert(self@ =~= after);
        }
        self.resources.get(path.as_str()).unwrap()
    }

    /// Notes that the notification with the current message id waits for an
    /// acknowledgement.
    fn record_unacknowledge_message(&mut self, register_resource_key: &String)
        requires
            old(self).wf(),
            old(self)@.register_resources.contains_key(register_resource_key@),
            old(self)@.current_message_id > 0,
            !old(self)@.unacknowledge_messages.contains_key(old(self)@.current_message_id),
        ensures
            final(self).wf(),
            final(self)@ == old(self)@.await_current(register_resource_key@),
    {
        let ghost key = register_resource_key@;
        proof {
            lemma_await_consistent(old(self)@, key);
        }
        let message_id: u16 = self.current_message_id;
        match self.register_resources.get_mut(register_resource_key.as_str()) {
            Some(register_resource) => {
                if let Some(old_message_id) = register_resource.unacknowledge_message {
                    self.unacknowledge_messages.remove(&old_message_id);
                }
                register_resource.unacknowledge_message = Some(message_id);
            },
            None => {},
        }
        self.unacknowledge_messages.insert(
            message_id,
            UnacknowledgeMessageItem {
                register_resource: register_resource_key.clone(),
                try_times: 1,
            },
        );
        proof {
            let after = old(self)@.await_current(key);
            assert(self@.register_resources =~= after.register_resources);
            assert(self@.unacknowledge_messages =~= after.unacknowledge_messages);
            assert(self@ =~= after);
        }
    }

    /// Counts one more try of the notification that the registration waits for,
    /// or gives it up if it has been tried too often. Returns whether it is to
    /// be tried.
    fn try_unacknowledge_message(&mut self, register_resource_key: &String) -> (try_again: bool)
        requires
            old(self).wf(),
            old(self)@.register_resources.contains_key(register_resource_key@),
            old(self)@.register_resources[register_resource_key@].unacknowledge_message is Some,
        ensures
            final(self).wf(),
            try_again == old(self)@.due(register_resource_key@),
            final(self)@ == old(self)@.try_once(register_resource_key@),
    {
        let ghost key = register_resource_key@;
        proof {
            lemma_try_once_is_tick(old(self)@, key);
            lemma_tick_consistent(old(self)@, set![key]);
            assert(old(self)@.registration_consistent(key));
        }
        let message_id: u16 = self.register_resources.get(
            register_resource_key.as_str(),
        ).unwrap().unacknowledge_message.unwrap();
        let unacknowledge_message = self.unacknowledge_messages.remove(&message_id).unwrap();
        let try_again: bool = unacknowledge_message.try_times <= MAX_TRY_TIMES;
        if try_again {
            self.unacknowledge_messages.insert(
                message_id,
                UnacknowledgeMessageItem {
                    register_resource: unacknowledge_message.register_resource,
                    try_times: unacknowledge_message.try_times + 1,
                },
            );
        } else {
            match self.register_resources.get_mut(register_resource_key.as_str()) {
                Some(register_resource) => {
                    register_resource.unacknowledge_message = None;
                },
                None => {},
            }
        }
        proof {
            let after = old(self)@.try_once(key);
            assert(self@.register_resources =~= after.register_resources);
            assert(self@.unacknowledge_messages =~= after.unacknowledge_messages);
            assert(self@ =~= after);
        }
        try_again
    }

    /// Notes that the notification with the given message id has been
    /// acknowledged. Returns whether it was waited for; it is an error if the
    /// acknowledgement has another token than the registration.
    fn remove_unacknowledge_message(&mut self, message_id: &u16, token: &Vec<u8>) -> (result: Result<
        bool,
        HandlingError,
    >)
        requires
            old(self).wf(),
        ensures
            final(self).wf(),
            acknowledge_outcome(old(self)@, *message_id, token@, result, final(self)@),
    {
        let register_resource_key: String = match self.unacknowledge_messages.get(message_id) {
            Some(message) => message.register_resource.clone(),
            None => {
                return Ok(false);
            },
        };
        let ghost key = register_resource_key@;
        proof {
            assert(self@.unacknowledge_messages.contains_key(*message_id));
            assert(self@.pending_consistent(*message_id));
            lemma_acknowledge_consistent(self@, *message_id);
        }
        if !self.register_resources.get(register_resource_key.as_str()).unwrap().has_token(token) {
            return Err(
                HandlingError::internal(
                    "message id <-> token mismatch, cannot process ack!".to_owned(),
                ),
            );
        }
        match self.register_resources.get_mut(register_resource_key.as_str()) {
            Some(register_resource) => {
                register_resource.unacknowledge_message = None;
            },
            None => {},
        }
        self.unacknowledge_messages.remove(message_id);
        proof {
            let after = old(self)@.acknowledge(*message_id);
            assert(self@.register_resources =~= after.register_resources);
            assert(self@.unacknowledge_messages =~= after.unacknowledge_messages);
            assert(self@ =~= after);
        }
        Ok(true)
    }

    /// Takes the acknowledgements of notifications out of the incoming messages.
    /// Returns whether the message was one.
    pub fn intercept_request(&mut self, request: &CoapRequest) -> (result: Result<
        bool,
        HandlingError,
    >)
        requires
            old(self).wf(),
        ensures
            final(self).wf(),
            request_outcome(old(self)@, request@, result, final(self)@),
    {
        if request.message.header.message_type == MessageType::Acknowledgement {
            self.remove_unacknowledge_message(
                &request.message.header.message_id,
                &request.message.token,
            )
        } else {
            Ok(false)
        }
    }

    /// Looks at a request once it has got its reply: one that reads a resource
    /// with success can register for it, or cancel a registration. Returns
    /// whether it did.
    pub fn intercept_response(&mut self, request: &CoapRequest) -> (result: Result<
        bool,
        HandlingError,
    >)
        requires
            old(self).wf(),
            request@.can_be_intercepted(),
        ensures
            final(self).wf(),
            response_outcome(old(self)@, request@, result, final(self)@),
    {
        if !request.answered_read() {
            return Ok(false);
        }
        match coap::request_observe_flag(&request.message.options) {
            Some(Ok(ObserveOption::Register)) => {
                self.register(request);
                Ok(true)
            },
            Some(Ok(ObserveOption::Deregister)) => {
                self.deregister(request);
                Ok(true)
            },
            Some(Err(error)) => Err(
                HandlingError::bad_request(coap::invalid_observe_text(&error)),
            ),
            None => Ok(false),
        }
    }

    /// A copy of the request that the registration was made with, to be handled
    /// by the server itself. The reply comes back to `handle_synthetic_reply`.
    fn send_synthetic_request(&self, register_resource_key: &String) -> (request: SyntheticRequest)
        requires
            self.wf(),
            self@.register_resources.contains_key(register_resource_key@),
        ensures
            request@ == synthetic_request_for(self@, register_resource_key@),
    {
        let register_item = self.register_resources.get(register_resource_key.as_str()).unwrap();
        SyntheticRequest {
            request: register_item.original_request.clone(),
            opaque_extra: register_resource_key.clone(),
        }
    }

    /// Tells that the resource with the given path has changed. Returns the
    /// synthetic requests to issue, one for each observer; it is an error if
    /// nobody has ever observed the resource.
    pub fn signal_resource_changed(&mut self, path: &str) -> (result: Result<
        Vec<SyntheticRequest>,
        ObserveError,
    >)
        requires
            old(self).wf(),
        ensures
            final(self).wf(),
            final(self)@ == old(self)@,
            signal_outcome(old(self)@, path@, result, final(self)@),
    {
        let resource = match self.resources.get(path) {
            Some(resource) => resource,
            None => {
                return Err(ObserveError::NoObservers(path.to_owned()));
            },
        };
        let ghost keys = resource.register_resources.keys();
        proof {
            resource.register_resources.lemma_keys();
            assert(self@.resources.contains_key(path@));
            assert(self@.resource_consistent(path@));
        }
        let mut requests: Vec<SyntheticRequest> = Vec::new();
        let count: usize = resource.register_resources.len();
        for i in 0..count
            invariant
                count == keys.len(),
                self.wf(),
                self@ == old(self)@,
                self@.resource_consistent(path@),
                keys == resource.register_resources.keys(),
                keys.no_duplicates(),
                forall|key: Seq<char>| #[trigger]
                    keys.contains(key) <==> self@.resources[path@].observers.contains(key),
                requests@.len() == i,
                forall|j: int|
                    0 <= j < i ==> (#[trigger] requests@[j])@ == synthetic_request_for(
                        self@,
                        keys[j],
                    ),
        {
            let register_resource_key = resource.register_resources.key_at(i);
            assert(keys.contains(register_resource_key@));
            requests.push(self.send_synthetic_request(register_resource_key));
        }
        proof {
            assert forall|key: Seq<char>| #[trigger]
                self@.resources[path@].observers.contains(key) implies exists|i: int|
                0 <= i < requests.len() && (#[trigger] requests[i])@.opaque_extra == key by {
                assert(keys.contains(key));
                let i = choose|i: int| 0 <= i < keys.len() && keys[i] == key;
                assert(requests[i]@.opaque_extra == key);
            }
            assert forall|i: int| 0 <= i < requests.len() implies self@.resources[path@].observers.contains(
                (#[trigger] requests[i])@.opaque_extra,
            ) by {
                assert(keys.contains(keys[i]));
            }
        }
        Ok(requests)
    }

    /// Has the notifications that wait for an acknowledgement tried once more,
    /// and gives up those that have been tried too often. Returns the synthetic
    /// requests to issue, one for each notification to try.
    pub fn timer_handler(&mut self) -> (requests: Vec<SyntheticRequest>)
        requires
            old(self).wf(),
        ensures
            final(self).wf(),
            timer_outcome(old(self)@, requests@, final(self)@),
    {
        let ghost before = self@;
        let register_resource_keys = self.waiting_registrations();
        let ghost keys = register_resource_keys@;
        let mut requests: Vec<SyntheticRequest> = Vec::new();
        let ghost mut done: Set<Seq<char>> = Set::empty();
        assert(before.tick_for(done).register_resources =~= before.register_resources);
        assert(before.tick_for(done).unacknowledge_messages =~= before.unacknowledge_messages);
        for i in 0..register_resource_keys.len()
            invariant
                keys == register_resource_keys@,
                self.wf(),
                before.consistent(),
                self@ == before.tick_for(done),
                forall|j: int|
                    0 <= j < keys.len() ==> {
                        &&& before.register_resources.contains_key((#[trigger] keys[j])@)
                        &&& before.register_resources[keys[j]@].unacknowledge_message is Some
                    },
                forall|j: int, k: int|
                    0 <= j < k < keys.len() ==> (#[trigger] keys[j])@ != (#[trigger] keys[k])@,
                forall|j: int| 0 <= j < i ==> done.contains((#[trigger] keys[j])@),
                forall|key: Seq<char>| #[trigger]
                    done.contains(key) ==> exists|j: int|
                        0 <= j < i && (#[trigger] keys[j])@ == key,
                asks_once_for_each(
                    requests@,
                    before,
                    Set::new(|key: Seq<char>| done.contains(key) && before.due(key)),
                ),
        {
            let register_resource_key = &register_resource_keys[i];
            let ghost key = register_resource_key@;
            assert(key == keys[i as int]@);
            proof {
                lemma_tick_step(before, done, key);
            }
            let ghost asked = Set::new(|key: Seq<char>| done.contains(key) && before.due(key));
            let try_again: bool = self.try_unacknowledge_message(register_resource_key);
            proof {
                done = done.insert(key);
            }
            let ghost asked_now = Set::new(|key: Seq<char>| done.contains(key) && before.due(key));
            if try_again {
                let request = self.send_synthetic_request(register_resource_key);
                proof {
                    lemma_asks_for_one_more(requests@, before, asked, request);
                    assert(asked.insert(key) =~= asked_now);
                }
                requests.push(request);
            } else {
                assert(asked =~= asked_now);
            }
        }
        proof {
            assert forall|id: u16| #[trigger]
                before.unacknowledge_messages.contains_key(id) implies done.contains(
                before.unacknowledge_messages[id].register_resource,
            ) by {
            }
            lemma_tick_all(before, done);
            assert forall|key: Seq<char>| before.due(key) implies #[trigger] done.contains(key) by {
                assert(before.registration_consistent(key));
            }
            assert(Set::new(|key: Seq<char>| done.contains(key) && before.due(key)) =~= Set::new(
                |key: Seq<char>| old(self)@.due(key),
            ));
        }
        requests
    }

    /// The keys of the registrations that wait for an acknowledgement, in no
    /// particular order.
    fn waiting_registrations(&self) -> (keys: Vec<String>)
        requires
            self.wf(),
        ensures
            forall|i: int|
                0 <= i < keys@.len() ==> {
                    &&& self@.register_resources.contains_key((#[trigger] keys@[i])@)
                    &&& self@.register_resources[keys@[i]@].unacknowledge_message is Some
                },
            forall|i: int, j: int|
                0 <= i < j < keys@.len() ==> (#[trigger] keys@[i])@ != (#[trigger] keys@[j])@,
            forall|id: u16| #[trigger]
                self@.unacknowledge_messages.contains_key(id) ==> exists|i: int|
                    0 <= i < keys@.len() && (#[trigger] keys@[i])@
                        == self@.unacknowledge_messages[id].register_resource,
    {
        let mut keys: Vec<String> = Vec::new();
        let ghost messages = self.unacknowledge_messages@;
        let ghost mut ids: Seq<u16> = seq![];
        for entry in iter: self.unacknowledge_messages.iter()
            invariant
                messages == self.unacknowledge_messages@,
                keys@.len() == iter.index(),
                ids.len() == iter.index(),
                forall|i: int| 0 <= i < iter.seq().len() ==> {
                    &&& messages.contains_key(*(#[trigger] iter.seq()[i]).0)
                    &&& messages[*iter.seq()[i].0] == *iter.seq()[i].1
                },
                forall|i: int| 0 <= i < ids.len() ==> {
                    &&& (#[trigger] ids[i]) == *iter.seq()[i].0
                    &&& messages.contains_key(ids[i])
                    &&& keys@[i]@ == messages[ids[i]].register_resource@
                },
                iter.seq().no_duplicates(),
                ids.no_duplicates(),
                forall|id: u16| #[trigger]
                    messages.contains_key(id) ==> ids.contains(id) || exists|i: int|
                        iter.index() <= i < iter.seq().len() && *(#[trigger] iter.seq()[i]).0 == id,
        {
            let ghost before = ids;
            proof {
                assert(iter.seq()[iter.index() as int] == entry);
                ids = ids.push(*entry.0);
                assert(ids.last() == *entry.0);
                assert forall|id: u16| before.contains(id) implies ids.contains(id) by {
                    let i = choose|i: int| 0 <= i < before.len() && before[i] == id;
                    assert(ids[i] == id);
                }
            }
            keys.push(entry.1.register_resource.clone());
        }
        proof {
            assert forall|i: int| 0 <= i < keys@.len() implies {
                &&& self@.register_resources.contains_key((#[trigger] keys@[i])@)
                &&& self@.register_resources[keys@[i]@].unacknowledge_message == Some(ids[i])
            } by {
                assert(self@.unacknowledge_messages.contains_key(ids[i]));
                assert(self@.pending_consistent(ids[i]));
            }
            assert forall|id: u16| #[trigger]
                self@.unacknowledge_messages.contains_key(id) implies exists|i: int|
                0 <= i < keys@.len() && (#[trigger] keys@[i])@
                    == self@.unacknowledge_messages[id].register_resource by {
                assert(ids.contains(id));
                let i = choose|i: int| 0 <= i < ids.len() && ids[i] == id;
                assert(keys@[i]@ == self@.unacknowledge_messages[id].register_resource);
            }
        }
        keys
    }

    /// Whether the two numbers that a notification for the registration takes, a
    /// message id and a number in the resource's sequence, can still be counted
    /// up.
    pub fn can_notify(&self, register_resource_key: &String) -> (possible: bool)
        requires
            self.wf(),
        ensures
            possible == self@.can_notify(register_resource_key@),
    {
        match self.register_resources.get(register_resource_key.as_str()) {
            Some(register_item) => {
                proof {
                    assert(self@.register_resources.contains_key(register_resource_key@));
                    assert(self@.registration_consistent(register_resource_key@));
                }
                let resource = self.resources.get(register_item.resource.as_str()).unwrap();
                self.current_message_id < u16::MAX && resource.sequence < u32::MAX
            },
            None => true,
        }
    }

    /// Makes a notification of the reply that `request`, a synthetic request, has
    /// come back with: that reply as a confirmable message, with the next message
    /// id and the next number of the resource's sequence, for the peer that
    /// registered. It then waits for an acknowledgement. It is an error if the
    /// registration is gone by now. A request that has come back without a reply
    /// is itself made the notification.
    pub fn handle_synthetic_reply(
        &mut self,
        request: CoapRequest,
        register_resource_key: String,
    ) -> (result: Result<Notification, ReplyError>)
        requires
            old(self).wf(),
            old(self)@.can_notify(register_resource_key@),
        ensures
            final(self).wf(),
            reply_outcome(old(self)@, request@, register_resource_key@, result, final(self)@),
            result matches Ok(notification) ==> notification.message.header.message_type
                == MessageType::Confirmable,
    {
        let ghost key = register_resource_key@;
        let (path, address): (String, Endpoint) = match self.register_resources.get(
            register_resource_key.as_str(),
        ) {
            Some(register_item) => {
                proof {
                    assert(self@.register_resources.contains_key(key));
                    assert(self@.registration_consistent(key));
                }
                (
                    register_item.resource.clone(),
                    register_item.original_request.source.as_ref().unwrap().clone(),
                )
            },
            None => {
                return Err(ReplyError::RegistrationCanceled);
            },
        };
        proof {
            lemma_count_up_consistent(self@, key);
        }

        let mut message: Packet = match request.response {
            Some(reply) => reply.message,
            None => request.message,
        };
        message.header.message_type = MessageType::Confirmable;
        self.current_message_id = self.current_message_id + 1;
        message.header.message_id = self.current_message_id;
        let mut sequence: u32 = 0;
        match self.resources.get_mut(path.as_str()) {
            Some(resource) => {
                resource.sequence = resource.sequence + 1;
                sequence = resource.sequence;
            },
            None => {},
        }
        message.set_observe_value(sequence);
        proof {
            let counted = old(self)@.count_up(key);
            assert(self@.resources =~= counted.resources);
            assert(self@ =~= counted);
        }
        self.record_unacknowledge_message(&register_resource_key);
        Ok(Notification { message, address })
    }
}

/// What comes of an acknowledgement of the notification `id` under `token`.
pub open spec fn acknowledge_outcome(
    before: ObserverView,
    id: u16,
    token: Seq<u8>,
    result: Result<bool, HandlingError>,
    after: ObserverView,
) -> bool {
    if before.acknowledge_mismatch(id, token) {
        &&& result matches Err(error)
        &&& error.code == Some(INTERNAL_SERVER_ERROR)
        &&& error.message@ == "message id <-> token mismatch, cannot process ack!"@
        &&& after == before
    } else if before.unacknowledge_messages.contains_key(id) {
        result == Ok::<bool, HandlingError>(true) && after == before.acknowledge(id)
    } else {
        result == Ok::<bool, HandlingError>(false) && after == before
    }
}

/// What comes of a message that comes in: only an acknowledgement is looked at.
pub open spec fn request_outcome(
    before: ObserverView,
    request: RequestView,
    result: Result<bool, HandlingError>,
    after: ObserverView,
) -> bool {
    let header = request.message.header;
    if header.message_type == MessageType::Acknowledgement {
        acknowledge_outcome(before, header.message_id, request.message.token, result, after)
    } else {
        result == Ok::<bool, HandlingError>(false) && after == before
    }
}

/// What comes of a request that has got its reply.
pub open spec fn response_outcome(
    before: ObserverView,
    request: RequestView,
    result: Result<bool, HandlingError>,
    after: ObserverView,
) -> bool {
    if !request.answered_read() {
        result == Ok::<bool, HandlingError>(false) && after == before
    } else {
        match request.observe_flag() {
            None => result == Ok::<bool, HandlingError>(false) && after == before,
            Some(None) => {
                &&& result matches Err(error)
                &&& error.code == Some(BAD_REQUEST)
                &&& error.message@ == "CoAP error: invalid observe option number"@
                &&& after == before
            },
            Some(Some(ObserveOption::Register)) => {
                &&& result == Ok::<bool, HandlingError>(true)
                &&& after == before.register(request)
            },
            Some(Some(ObserveOption::Deregister)) => {
                &&& result == Ok::<bool, HandlingError>(true)
                &&& after == before.deregister(
                    request.source->0.text,
                    request.path(),
                    request.message.token,
                )
            },
        }
    }
}

/// What comes of a signal that the resource with the given path has changed.
pub open spec fn signal_outcome(
    before: ObserverView,
    path: Seq<char>,
    result: Result<Vec<SyntheticRequest>, ObserveError>,
    after: ObserverView,
) -> bool {
    &&& after == before
    &&& match result {
        Ok(requests) => {
            &&& before.resources.contains_key(path)
            &&& asks_once_for_each(requests@, before, before.resources[path].observers)
        },
        Err(ObserveError::NoObservers(subject)) => {
            &&& !before.resources.contains_key(path)
            &&& subject@ == path
        },
    }
}

/// What comes of a timer tick.
pub open spec fn timer_outcome(
    before: ObserverView,
    requests: Seq<SyntheticRequest>,
    after: ObserverView,
) -> bool {
    &&& after == before.tick()
    &&& asks_once_for_each(requests, before, Set::new(|key: Seq<char>| before.due(key)))
}

/// What comes of a synthetic request that has come back under `key`.
pub open spec fn reply_outcome(
    before: ObserverView,
    request: RequestView,
    key: Seq<char>,
    result: Result<Notification, ReplyError>,
    after: ObserverView,
) -> bool {
    match result {
        Ok(notification) => {
            let item = before.register_resources[key];
            &&& before.register_resources.contains_key(key)
            &&& after == before.notify(key)
            &&& Some(notification.address@) == item.original_request.source
            &&& is_notification_of(
                request.answer(),
                notification.message@,
                after.current_message_id,
                after.resources[item.resource].sequence,
            )
        },
        Err(ReplyError::RegistrationCanceled) => {
            &&& !before.register_resources.contains_key(key)
            &&& after == before
        },
    }
}

} // verus!
