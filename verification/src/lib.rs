//! Observing CoAP resources, from the server's side.
//!
//! A peer registers for a resource with a request that reads it. When the
//! resource changes, the server issues each such request to itself once more and
//! sends the reply to the peer as a notification, which the peer has to
//! acknowledge. `Observer` keeps the registrations and the notifications that
//! wait; it sends nothing itself, but returns what is to be sent.
//!
//! `model` says what an observer is and what each operation makes of it.
//! `operation_laws` tells each operation by what is there before and after it,
//! `message_laws` what is read from messages, and `laws` what follows for the
//! observer as a whole. `coap` is where `coap-lite` is called.

mod coap;
mod consistency;
pub mod endpoint;
pub mod error;
pub mod laws;
pub mod message;
pub mod message_laws;
pub mod model;
pub mod observer;
pub mod operation_laws;
pub mod request_handler;
mod string_map;
pub mod synthetic_request;

pub use endpoint::Endpoint;
pub use error::{HandlingError, ObserveError, ReplyError};
pub use message::{CoapOption, CoapRequest, CoapResponse, Header, MessageType, ObserveOption, Packet};
pub use observer::Observer;
pub use request_handler::{adopt_response, ResponseBehaviour};
pub use synthetic_request::{Notification, SyntheticRequest};
