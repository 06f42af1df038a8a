use igd_next::messages::{
    CONTENT_LENGTH, CONTENT_TYPE, HEADER_NAME, MAX_RESPONSE_SIZE, SEARCH_REQUEST, TEXT_XML,
    WAN_IP_CONNECTION_1, WAN_IP_CONNECTION_2, WAN_PPP_CONNECTION_1,
};
use igd_next::{random_port, SearchOptions};

#[test]
fn search_request_is_the_fixed_datagram() {
    let expected: &[u8] = b"M-SEARCH * HTTP/1.1\r\n\
Host:239.255.255.250:1900\r\n\
ST:urn:schemas-upnp-org:device:InternetGatewayDevice:1\r\n\
Man:\"ssdp:discover\"\r\n\
MX:3\r\n\r\n";
    assert_eq!(SEARCH_REQUEST.as_bytes(), expected);
    assert!(SEARCH_REQUEST.is_ascii());
    assert!(SEARCH_REQUEST.len() < MAX_RESPONSE_SIZE);
}

#[test]
fn names_of_the_protocol() {
    assert_eq!(MAX_RESPONSE_SIZE, 1500);
    assert_eq!(HEADER_NAME, "SOAPAction");
    assert_eq!(CONTENT_TYPE, "Content-Type");
    assert_eq!(CONTENT_LENGTH, "Content-Length");
    assert_eq!(TEXT_XML, "text/xml");
    assert_eq!(WAN_IP_CONNECTION_1, "urn:schemas-upnp-org:service:WANIPConnection:1");
    assert_eq!(WAN_IP_CONNECTION_2, "urn:schemas-upnp-org:service:WANIPConnection:2");
    assert_eq!(WAN_PPP_CONNECTION_1, "urn:schemas-upnp-org:service:WANPPPConnection:1");
}

#[test]
fn names_at_the_root() {
    let mut generator = <rand::rngs::SmallRng as rand::SeedableRng>::seed_from_u64(1);
    assert!(random_port(&mut generator) >= 32768);
    assert_eq!(SearchOptions::default().timeout(), Some(10_000));
}
