//! Discovery of an Internet Gateway Device on the local network, and the
//! requests that are sent to it once it is found.
//!
//! Everything in this library is a function from plain values to plain
//! values: it decides what has to be sent and reads what came back, and
//! leaves the sockets to its caller.

use vstd::prelude::*;

pub mod addr;
pub mod common;
pub mod engine;
pub mod engine_proofs;
pub mod errors;
pub mod exchange;
pub mod gateway;
pub mod messages;
pub mod options;
pub mod parsing;
pub mod schema;
pub mod text;
pub mod xml;

pub use crate::common::random_port;
pub use crate::engine::{Action, Engine, Event, Phase, Step};
pub use crate::errors::{HttpError, IoFailure, ParseError, RequestError, SearchError};
pub use crate::gateway::Gateway;
pub use crate::options::SearchOptions;
pub use crate::schema::ControlSchema;

verus! {

/// Represents the protocols available for port mapping.
#[derive(Debug, Clone, Copy, PartialEq, Eq, Structural)]
pub enum PortMappingProtocol {
    /// TCP protocol
    TCP,
    /// UDP protocol
    UDP,
}

impl PortMappingProtocol {
    /// The name under which a gateway knows the protocol.
    pub open spec fn name(self) -> Seq<char> {
        match self {
            PortMappingProtocol::TCP => "TCP"@,
            PortMappingProtocol::UDP => "UDP"@,
        }
    }

    /// The protocol's name as text, as it is written into a request.
    pub fn to_string(&self) -> (text: String)
        ensures
            text@ == self.name(),
    {
        match *self {
            PortMappingProtocol::TCP => "TCP".to_owned(),
            PortMappingProtocol::UDP => "UDP".to_owned(),
        }
    }
}

} // verus!
