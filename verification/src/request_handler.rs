//! What becomes of the reply that a request handler has left behind.

use vstd::prelude::*;

verus! {

/// Whether the reply to a request is sent.
#[derive(Debug, Clone, Copy, PartialEq, Eq, Structural)]
pub enum ResponseBehaviour {
    /// The reply is sent.
    Normal,
    /// Nothing is sent.
    Swallow,
}

impl Default for ResponseBehaviour {
    fn default() -> (behaviour: Self)
        ensures
            behaviour == ResponseBehaviour::Normal,
    {
        ResponseBehaviour::Normal
    }
}

/// Puts the answer of a handler that returns its reply, or none, in the place
/// that the request has for a reply. Without a reply nothing is sent.
pub fn adopt_response<R>(place: &mut Option<R>, response: Option<R>) -> (behaviour:
    ResponseBehaviour)
    ensures
        *final(place) == response,
        behaviour == match response {
            Some(_) => ResponseBehaviour::Normal,
            None => ResponseBehaviour::Swallow,
        },
{
    let behaviour = match &response {
        Some(_) => ResponseBehaviour::Normal,
        None => ResponseBehaviour::Swallow,
    };
    *place = response;
    behaviour
}

} // verus!
