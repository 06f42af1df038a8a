//! The fixed texts of the protocol.

use vstd::prelude::*;

verus! {

/// The request that a search sends to the multicast group.
pub const SEARCH_REQUEST: &'static str =
    "M-SEARCH * HTTP/1.1\r\nHost:239.255.255.250:1900\r\nST:urn:schemas-upnp-org:device:InternetGatewayDevice:1\r\nMan:\"ssdp:discover\"\r\nMX:3\r\n\r\n";

/// The largest reply to a search that is read; what exceeds it is cut off.
pub const MAX_RESPONSE_SIZE: usize = 1500;

/// The name of the header that carries the action of a request.
pub const HEADER_NAME: &'static str = "SOAPAction";

/// The name of the header that carries the type of a request's body.
pub const CONTENT_TYPE: &'static str = "Content-Type";

/// The name of the header that carries the length of a request's body.
pub const CONTENT_LENGTH: &'static str = "Content-Length";

/// The type of the body of a request to a gateway.
pub const TEXT_XML: &'static str = "text/xml";

/// The type of a service that maps ports over an IP connection, version 1.
pub const WAN_IP_CONNECTION_1: &'static str = "urn:schemas-upnp-org:service:WANIPConnection:1";

/// The type of a service that maps ports over an IP connection, version 2.
pub const WAN_IP_CONNECTION_2: &'static str = "urn:schemas-upnp-org:service:WANIPConnection:2";

/// The type of a service that maps ports over a PPP connection.
pub const WAN_PPP_CONNECTION_1: &'static str = "urn:schemas-upnp-org:service:WANPPPConnection:1";

} // verus!
