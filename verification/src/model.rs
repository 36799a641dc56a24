//! The observer as a mathematical value: what it knows, what ties that
//! together, and what each operation makes of it.

use vstd::prelude::*;

use crate::endpoint::KEY_SEPARATOR;
use crate::message::RequestView;

verus! {

/// How often a notification is tried before a timer tick gives it up.
pub const MAX_TRY_TIMES: usize = 10;

/// The key of the registration of the peer `register` for `resource`.
pub open spec fn registration_key(register: Seq<char>, resource: Seq<char>) -> Seq<char> {
    register + seq![KEY_SEPARATOR] + resource
}

/// A resource that has been observed: the keys of the registrations for it, and
/// the number of the last notification about it.
#[verifier::ext_equal]
pub struct ResourceView {
    pub observers: Set<Seq<char>>,
    pub sequence: u32,
}

/// A registration: the peer, the path, the request it was made with, and the
/// message id of the notification that still waits for an acknowledgement.
#[verifier::ext_equal]
pub struct RegistrationView {
    pub register: Seq<char>,
    pub resource: Seq<char>,
    pub original_request: RequestView,
    pub unacknowledge_message: Option<u16>,
}

/// A notification that waits for an acknowledgement: the key of the
/// registration, and how often it has been tried.
#[verifier::ext_equal]
pub struct PendingView {
    pub register_resource: Seq<char>,
    pub try_times: usize,
}

/// What an observer knows.
#[verifier::ext_equal]
pub struct ObserverView {
    /// The keys of each peer's registrations.
    pub registers: Map<Seq<char>, Set<Seq<char>>>,
    /// The resources, by path.
    pub resources: Map<Seq<char>, ResourceView>,
    /// The registrations, by key.
    pub register_resources: Map<Seq<char>, RegistrationView>,
    /// The notifications that wait for an acknowledgement, by message id.
    pub unacknowledge_messages: Map<u16, PendingView>,
    /// The message id of the last notification.
    pub current_message_id: u16,
}

impl RegistrationView {
    /// The token that the observer knows its notifications by.
    pub open spec fn token(self) -> Seq<u8> {
        self.original_request.message.token
    }

    /// The registration that `request` makes.
    pub open spec fn of(request: RequestView) -> RegistrationView {
        RegistrationView {
            register: request.source->0.text,
            resource: request.path(),
            original_request: request,
            unacknowledge_message: None,
        }
    }
}

impl ObserverView {
    /// An observer that knows nothing.
    pub open spec fn empty() -> ObserverView {
        ObserverView {
            registers: Map::empty(),
            resources: Map::empty(),
            register_resources: Map::empty(),
            unacknowledge_messages: Map::empty(),
            current_message_id: 0,
        }
    }

    /// The registration under `key` is the one its request asks for, and is
    /// entered with its peer, with its resource and with its notification.
    pub open spec fn registration_consistent(self, key: Seq<char>) -> bool {
        let item = self.register_resources[key];
        let request = item.original_request;
        &&& key == registration_key(item.register, item.resource)
        &&& !item.register.contains(KEY_SEPARATOR)
        &&& request.source is Some
        &&& request == RequestView::from_packet(request.message, request.source->0)
        &&& item.register == request.source->0.text
        &&& item.resource == request.path()
        &&& self.registers.contains_key(item.register)
        &&& self.registers[item.register].contains(key)
        &&& self.resources.contains_key(item.resource)
        &&& self.resources[item.resource].observers.contains(key)
        &&& item.unacknowledge_message matches Some(id) ==> {
            &&& self.unacknowledge_messages.contains_key(id)
            &&& self.unacknowledge_messages[id].register_resource == key
        }
    }

    /// The keys entered with the peer are those of its registrations, and there
    /// is at least one.
    pub open spec fn register_consistent(self, register: Seq<char>) -> bool {
        &&& self.registers[register] != Set::<Seq<char>>::empty()
        &&& forall|key: Seq<char>| #[trigger]
            self.registers[register].contains(key) ==> {
                &&& self.register_resources.contains_key(key)
                &&& self.register_resources[key].register == register
            }
    }

    /// The keys entered with the resource are those of the registrations for it.
    pub open spec fn resource_consistent(self, path: Seq<char>) -> bool {
        forall|key: Seq<char>| #[trigger]
            self.resources[path].observers.contains(key) ==> {
                &&& self.register_resources.contains_key(key)
                &&& self.register_resources[key].resource == path
            }
    }

    /// The notification belongs to a registration that waits for it, and was
    /// numbered by this observer.
    pub open spec fn pending_consistent(self, id: u16) -> bool {
        let pending = self.unacknowledge_messages[id];
        &&& self.register_resources.contains_key(pending.register_resource)
        &&& self.register_resources[pending.register_resource].unacknowledge_message == Some(id)
        &&& 0 < id <= self.current_message_id
        &&& 0 < pending.try_times <= MAX_TRY_TIMES + 1
    }

    /// What ties the parts of an observer together, and that there are finitely
    /// many registrations. Every operation keeps it.
    pub open spec fn consistent(self) -> bool {
        &&& self.register_resources.dom().finite()
        &&& forall|key: Seq<char>| #[trigger]
            self.register_resources.contains_key(key) ==> self.registration_consistent(key)
        &&& forall|register: Seq<char>| #[trigger]
            self.registers.contains_key(register) ==> self.register_consistent(register)
        &&& forall|path: Seq<char>| #[trigger]
            self.resources.contains_key(path) ==> self.resource_consistent(path)
        &&& forall|id: u16| #[trigger]
            self.unacknowledge_messages.contains_key(id) ==> self.pending_consistent(id)
    }

    /// The resource with the given path; a fresh one if there is none.
    pub open spec fn resource_or_default(self, path: Seq<char>) -> ResourceView {
        if self.resources.contains_key(path) {
            self.resources[path]
        } else {
            ResourceView { observers: Set::empty(), sequence: 0 }
        }
    }

    /// The keys of the peer's registrations.
    pub open spec fn registrations_of(self, register: Seq<char>) -> Set<Seq<char>> {
        if self.registers.contains_key(register) {
            self.registers[register]
        } else {
            Set::empty()
        }
    }

    /// The observer after it has recorded the resource: one that it knows is
    /// renumbered, any other comes to be known.
    pub open spec fn record_resource(self, path: Seq<char>) -> ObserverView {
        let resource = self.resource_or_default(path);
        ObserverView {
            resources: self.resources.insert(
                path,
                if self.resources.contains_key(path) {
                    ResourceView { sequence: (resource.sequence + 1) as u32, ..resource }
                } else {
                    resource
                },
            ),
            ..self
        }
    }

    /// The observer after it has recorded the registration that `request`
    /// makes. One that is already there stays as it is.
    pub open spec fn record(self, request: RequestView) -> ObserverView {
        let item = RegistrationView::of(request);
        let key = registration_key(item.register, item.resource);
        let resource = self.resource_or_default(item.resource);
        ObserverView {
            registers: self.registers.insert(
                item.register,
                self.registrations_of(item.register).insert(key),
            ),
            resources: self.resources.insert(
                item.resource,
                ResourceView { observers: resource.observers.insert(key), ..resource },
            ),
            register_resources: if self.register_resources.contains_key(key) {
                self.register_resources
            } else {
                self.register_resources.insert(key, item)
            },
            ..self
        }
    }

    /// The observer after the registration that `request` asks for. What is
    /// recorded is the bare request, without the reply it has got.
    pub open spec fn register(self, request: RequestView) -> ObserverView {
        self.record(RequestView::from_packet(request.message, request.source->0))
    }

    /// Whether `token` is not the one of the registration under `key`.
    pub open spec fn token_mismatch(self, key: Seq<char>, token: Seq<u8>) -> bool {
        self.register_resources.contains_key(key) && self.register_resources[key].token() != token
    }

    /// The observer without the registration under `key`.
    pub open spec fn without(self, key: Seq<char>) -> ObserverView {
        let item = self.register_resources[key];
        let resource = self.resources[item.resource];
        let left = self.registers[item.register].remove(key);
        ObserverView {
            registers: if left == Set::<Seq<char>>::empty() {
                self.registers.remove(item.register)
            } else {
                self.registers.insert(item.register, left)
            },
            resources: self.resources.insert(
                item.resource,
                ResourceView { observers: resource.observers.remove(key), ..resource },
            ),
            register_resources: self.register_resources.remove(key),
            unacknowledge_messages: match item.unacknowledge_message {
                Some(id) => self.unacknowledge_messages.remove(id),
                None => self.unacknowledge_messages,
            },
            ..self
        }
    }

    /// The observer after the peer `register` has cancelled its registration
    /// for `resource`. Nothing changes without such a registration, or under
    /// another token than that of the registration.
    pub open spec fn deregister(
        self,
        register: Seq<char>,
        resource: Seq<char>,
        token: Seq<u8>,
    ) -> ObserverView {
        let key = registration_key(register, resource);
        if self.register_resources.contains_key(key) && !self.token_mismatch(key, token) {
            self.without(key)
        } else {
            self
        }
    }

    /// The registrations, with the one under `key` waiting for the notification
    /// `id`, or for none.
    pub open spec fn awaiting(self, key: Seq<char>, id: Option<u16>) -> Map<
        Seq<char>,
        RegistrationView,
    > {
        self.register_resources.insert(
            key,
            RegistrationView { unacknowledge_message: id, ..self.register_resources[key] },
        )
    }

    /// Whether an acknowledgement of `id` comes under another token than that
    /// of the registration that was notified.
    pub open spec fn acknowledge_mismatch(self, id: u16, token: Seq<u8>) -> bool {
        self.unacknowledge_messages.contains_key(id) && self.token_mismatch(
            self.unacknowledge_messages[id].register_resource,
            token,
        )
    }

    /// The observer after the notification `id` has been acknowledged.
    pub open spec fn acknowledge(self, id: u16) -> ObserverView {
        ObserverView {
            register_resources: self.awaiting(
                self.unacknowledge_messages[id].register_resource,
                None,
            ),
            unacknowledge_messages: self.unacknowledge_messages.remove(id),
            ..self
        }
    }

    /// The observer after it has noted that the notification with the current
    /// message id, for the registration under `key`, waits for an
    /// acknowledgement. One that the registration waited for until now is
    /// forgotten.
    pub open spec fn await_current(self, key: Seq<char>) -> ObserverView {
        let others = match self.register_resources[key].unacknowledge_message {
            Some(old_id) => self.unacknowledge_messages.remove(old_id),
            None => self.unacknowledge_messages,
        };
        ObserverView {
            register_resources: self.awaiting(key, Some(self.current_message_id)),
            unacknowledge_messages: others.insert(
                self.current_message_id,
                PendingView { register_resource: key, try_times: 1 },
            ),
            ..self
        }
    }

    /// Both numbers that a notification for the registration under `key` takes
    /// can still be counted up.
    pub open spec fn can_notify(self, key: Seq<char>) -> bool {
        self.register_resources.contains_key(key) ==> {
            &&& self.current_message_id < u16::MAX
            &&& self.resources[self.register_resources[key].resource].sequence < u32::MAX
        }
    }

    /// The observer with both numbers counted up for a notification for the
    /// registration under `key`.
    pub open spec fn count_up(self, key: Seq<char>) -> ObserverView {
        let path = self.register_resources[key].resource;
        let resource = self.resources[path];
        ObserverView {
            resources: self.resources.insert(
                path,
                ResourceView { sequence: (resource.sequence + 1) as u32, ..resource },
            ),
            current_message_id: (self.current_message_id + 1) as u16,
            ..self
        }
    }

    /// The observer after a notification for the registration under `key`.
    pub open spec fn notify(self, key: Seq<char>) -> ObserverView {
        self.count_up(key).await_current(key)
    }

    /// The registration under `key` waits for a notification that is to be
    /// tried once more.
    pub open spec fn due(self, key: Seq<char>) -> bool {
        &&& self.register_resources.contains_key(key)
        &&& self.register_resources[key].unacknowledge_message matches Some(id)
        &&& self.unacknowledge_messages[id].try_times <= MAX_TRY_TIMES
    }

    /// The observer after one more try for the registration under `key`, or
    /// after the notification has been given up.
    pub open spec fn try_once(self, key: Seq<char>) -> ObserverView {
        let id = self.register_resources[key].unacknowledge_message->0;
        let pending = self.unacknowledge_messages[id];
        if self.due(key) {
            ObserverView {
                unacknowledge_messages: self.unacknowledge_messages.insert(
                    id,
                    PendingView { try_times: (pending.try_times + 1) as usize, ..pending },
                ),
                ..self
            }
        } else {
            ObserverView {
                register_resources: self.awaiting(key, None),
                unacknowledge_messages: self.unacknowledge_messages.remove(id),
                ..self
            }
        }
    }

    /// The observer after a timer tick has come to the registrations in `keys`:
    /// a notification that is due has been tried once more, any other has been
    /// given up.
    pub open spec fn tick_for(self, keys: Set<Seq<char>>) -> ObserverView {
        ObserverView {
            register_resources: Map::new(
                |key: Seq<char>| self.register_resources.contains_key(key),
                |key: Seq<char>|
                    if keys.contains(key) && !self.due(key) {
                        RegistrationView {
                            unacknowledge_message: None,
                            ..self.register_resources[key]
                        }
                    } else {
                        self.register_resources[key]
                    },
            ),
            unacknowledge_messages: Map::new(
                |id: u16|
                    {
                        &&& self.unacknowledge_messages.contains_key(id)
                        &&& keys.contains(self.unacknowledge_messages[id].register_resource)
                            ==> self.unacknowledge_messages[id].try_times <= MAX_TRY_TIMES
                    },
                |id: u16|
                    {
                        let pending = self.unacknowledge_messages[id];
                        if keys.contains(pending.register_resource) {
                            PendingView { try_times: (pending.try_times + 1) as usize, ..pending }
                        } else {
                            pending
                        }
                    },
            ),
            ..self
        }
    }

    /// The observer after a timer tick.
    pub open spec fn tick(self) -> ObserverView {
        self.tick_for(Set::full())
    }
}

} // verus!
