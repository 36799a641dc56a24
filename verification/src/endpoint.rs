//! The address of a CoAP peer.

use vstd::prelude::*;

verus! {

/// The character that parts an address from a path in a registration key.
pub const KEY_SEPARATOR: char = '$';

/// A peer, known by the text of its socket address.
///
/// The text is what a socket address prints as, `127.0.0.1:5683` or
/// `[fe80::1%2]:5683`. It names everything of the address but the flow
/// information of IPv6, which is carried beside it. No socket address prints a
/// dollar sign, and no `Endpoint` holds one.
#[derive(Debug)]
pub struct Endpoint {
    text: String,
    flow_info: u32,
}

/// What an `Endpoint` holds.
pub struct EndpointView {
    pub text: Seq<char>,
    pub flow_info: u32,
}

impl View for Endpoint {
    type V = EndpointView;

    closed spec fn view(&self) -> EndpointView {
        EndpointView { text: self.text@, flow_info: self.flow_info }
    }
}

impl Endpoint {
    #[verifier::type_invariant]
    spec fn inv(self) -> bool {
        !self.text@.contains(KEY_SEPARATOR)
    }

    /// The peer whose socket address prints as `text`; `None` if and only if
    /// the text holds a dollar sign, which no socket address does.
    pub fn new(text: String, flow_info: u32) -> (endpoint: Option<Endpoint>)
        ensures
            match endpoint {
                Some(endpoint) => {
                    &&& !text@.contains(KEY_SEPARATOR)
                    &&& endpoint@ == (EndpointView { text: text@, flow_info })
                },
                None => text@.contains(KEY_SEPARATOR),
            },
    {
        for c in iter: text.as_str().chars()
            invariant
                iter.seq() == text@,
                forall|i: int| 0 <= i < iter.index() ==> text@[i] != KEY_SEPARATOR,
        {
            if c == KEY_SEPARATOR {
                assert(text@[iter.index() as int] == KEY_SEPARATOR);
                return None;
            }
        }
        Some(Endpoint { text, flow_info })
    }

    /// The text of the socket address.
    pub fn text(&self) -> (text: &String)
        ensures
            text@ == self@.text,
            !text@.contains(KEY_SEPARATOR),
    {
        proof {
            use_type_invariant(self);
        }
        &self.text
    }

    /// The flow information of an IPv6 address.
    pub fn flow_info(&self) -> (flow_info: u32)
        ensures
            flow_info == self@.flow_info,
    {
        self.flow_info
    }
}

impl Clone for Endpoint {
    fn clone(&self) -> (copy: Self)
        ensures
            copy@ == self@,
    {
        proof {
            use_type_invariant(self);
        }
        Endpoint { text: self.text.clone(), flow_info: self.flow_info }
    }
}

} // verus!
