//! What the observer hands out to be sent.

use vstd::prelude::*;

use crate::endpoint::Endpoint;
use crate::message::{CoapRequest, Packet, RequestView};
use crate::model::ObserverView;

verus! {

/// A request that the server issues to itself, to learn what an observer is to
/// be told.
#[derive(Debug)]
pub struct SyntheticRequest {
    /// The request, as the observer first made it.
    pub request: CoapRequest,
    /// The key of the registration; it goes with the request and comes back
    /// with the reply.
    pub opaque_extra: String,
}

/// A message that tells an observer of a change.
#[derive(Debug)]
pub struct Notification {
    pub message: Packet,
    pub address: Endpoint,
}

/// What a `SyntheticRequest` holds.
pub struct SyntheticRequestView {
    pub request: RequestView,
    pub opaque_extra: Seq<char>,
}

impl View for SyntheticRequest {
    type V = SyntheticRequestView;

    open spec fn view(&self) -> SyntheticRequestView {
        SyntheticRequestView { request: self.request@, opaque_extra: self.opaque_extra@ }
    }
}

impl Clone for SyntheticRequest {
    fn clone(&self) -> (copy: Self)
        ensures
            copy@ == self@,
    {
        SyntheticRequest {
            request: self.request.clone(),
            opaque_extra: self.opaque_extra.clone(),
        }
    }
}

/// The synthetic request for the registration under `key`: a copy of the
/// request that the registration was made with.
pub open spec fn synthetic_request_for(observer: ObserverView, key: Seq<char>) -> SyntheticRequestView {
    SyntheticRequestView {
        request: observer.register_resources[key].original_request,
        opaque_extra: key,
    }
}

/// `requests` holds the synthetic request for each registration in `keys` once,
/// in some order, and nothing else.
pub open spec fn asks_once_for_each(
    requests: Seq<SyntheticRequest>,
    observer: ObserverView,
    keys: Set<Seq<char>>,
) -> bool {
    &&& forall|i: int|
        0 <= i < requests.len() ==> {
            &&& keys.contains((#[trigger] requests[i])@.opaque_extra)
            &&& requests[i]@ == synthetic_request_for(observer, requests[i]@.opaque_extra)
        }
    &&& forall|i: int, j: int|
        0 <= i < j < requests.len() ==> (#[trigger] requests[i])@.opaque_extra != (
        #[trigger] requests[j])@.opaque_extra
    &&& forall|key: Seq<char>| #[trigger]
        keys.contains(key) ==> exists|i: int|
            0 <= i < requests.len() && (#[trigger] requests[i])@.opaque_extra == key
}

/// One more request asks for one more registration.
pub(crate) proof fn lemma_asks_for_one_more(
    requests: Seq<SyntheticRequest>,
    observer: ObserverView,
    keys: Set<Seq<char>>,
    request: SyntheticRequest,
)
    requires
        asks_once_for_each(requests, observer, keys),
        !keys.contains(request@.opaque_extra),
        request@ == synthetic_request_for(observer, request@.opaque_extra),
    ensures
        asks_once_for_each(
            requests.push(request),
            observer,
            keys.insert(request@.opaque_extra),
        ),
{
    let more = requests.push(request);
    assert forall|key: Seq<char>| #[trigger]
        keys.insert(request@.opaque_extra).contains(key) implies exists|i: int|
        0 <= i < more.len() && (#[trigger] more[i])@.opaque_extra == key by {
        if key == request@.opaque_extra {
            assert(more[requests.len() as int]@.opaque_extra == key);
        } else {
            let i = choose|i: int|
                0 <= i < requests.len() && (#[trigger] requests[i])@.opaque_extra == key;
            assert(more[i]@.opaque_extra == key);
        }
    }
}

} // verus!
