//! The errors of the library.

use vstd::prelude::*;

use crate::message::{BAD_REQUEST, INTERNAL_SERVER_ERROR};

verus! {

/// A request that cannot be handled: the code to answer it with, if it is to be
/// answered, and the reason.
#[derive(Debug)]
pub struct HandlingError {
    pub code: Option<u8>,
    pub message: String,
}

impl HandlingError {
    /// The request is at fault.
    pub fn bad_request(message: String) -> (error: HandlingError)
        ensures
            error.code == Some(BAD_REQUEST),
            error.message@ == message@,
    {
        HandlingError { code: Some(BAD_REQUEST), message }
    }

    /// The server is at fault.
    pub fn internal(message: String) -> (error: HandlingError)
        ensures
            error.code == Some(INTERNAL_SERVER_ERROR),
            error.message@ == message@,
    {
        HandlingError { code: Some(INTERNAL_SERVER_ERROR), message }
    }
}

impl Clone for HandlingError {
    fn clone(&self) -> (copy: Self)
        ensures
            copy.code == self.code,
            copy.message@ == self.message@,
    {
        HandlingError { code: self.code, message: self.message.clone() }
    }
}

/// A change that cannot be signalled.
#[derive(Debug)]
pub enum ObserveError {
    /// Nobody has ever observed the resource with this path.
    NoObservers(String),
}

impl ObserveError {
    /// The error in words.
    pub fn message(&self) -> (message: String)
        ensures
            message@ == "no observes for subject "@ + self->NoObservers_0@,
    {
        match self {
            ObserveError::NoObservers(path) => "no observes for subject ".to_owned().concat(
                path.as_str(),
            ),
        }
    }
}

impl Clone for ObserveError {
    fn clone(&self) -> (copy: Self)
        ensures
            copy->NoObservers_0@ == self->NoObservers_0@,
    {
        match self {
            ObserveError::NoObservers(path) => ObserveError::NoObservers(path.clone()),
        }
    }
}

/// A reply that cannot be passed on.
#[derive(Clone, Copy, Debug, PartialEq, Eq, Structural)]
pub enum ReplyError {
    /// The observer has gone since the request was issued.
    RegistrationCanceled,
}

impl ReplyError {
    /// The error in words.
    pub fn message(&self) -> (message: String)
        ensures
            message@ == "Registration canceled before synthetic reply available"@,
    {
        match self {
            ReplyError::RegistrationCanceled =>
                "Registration canceled before synthetic reply available".to_owned(),
        }
    }
}

} // verus!
