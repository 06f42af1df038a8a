//! What can go wrong, as plain values.

use vstd::prelude::*;

verus! {

/// A reply or a document from one responder that cannot be used.
#[derive(Debug, Clone, Copy, PartialEq, Eq, Structural)]
pub enum ParseError {
    /// The reply to the search has no location header.
    MissingLocation,
    /// The location header does not name an address and a path.
    InvalidAddress,
    /// The device description lists no service that maps ports.
    ServiceNotFound,
    /// The document is not XML.
    MalformedXml,
}

/// The step of a search at which the socket failed.
#[derive(Debug, Clone, Copy, PartialEq, Eq, Structural)]
pub enum IoFailure {
    /// The socket could not be bound to the local address.
    Bind,
    /// The search request could not be sent.
    Send,
    /// Nothing could be received from the socket.
    Receive,
}

/// A request over HTTP that brought no usable response.
#[derive(Debug, Clone, Copy, PartialEq, Eq, Structural)]
pub enum HttpError {
    /// The response came with this status, which is not one of success.
    Status(u16),
    /// No response came: the connection failed, or the time ran out.
    Transport,
}

/// Why a search ended without a gateway, or why one responder was passed over.
#[derive(Debug, Clone, Copy, PartialEq, Eq, Structural)]
pub enum SearchError {
    /// The socket failed.
    Io(IoFailure),
    /// A reply or a document could not be read.
    Parse(ParseError),
    /// A description could not be fetched.
    Http(HttpError),
    /// A reply is not valid UTF-8.
    Utf8,
    /// No responder was resolved before the time ran out.
    NoResponseWithinTimeout,
}

/// Why a request to a gateway brought no answer.
#[derive(Debug, Clone, Copy, PartialEq, Eq, Structural)]
pub enum RequestError {
    /// The request could not be made.
    Http(HttpError),
    /// The response is not valid UTF-8.
    Utf8,
    /// The response does not fit in the largest buffer that is tried.
    ResponseTooLarge,
}

} // verus!
