use igd_next::addr::{pick_address, push_address, push_ip, AddrType, IpAddress, SocketAddress};
use igd_next::common::random_port;
use rand::rngs::SmallRng;
use rand::SeedableRng;
use igd_next::errors::RequestError;
use igd_next::gateway::{decode_response, format_url, get_request, soap_request, Gateway, Method};
use igd_next::options::{SearchOptions, DEFAULT_TIMEOUT, RESPONSE_TIMEOUT};
use igd_next::schema::ControlSchema;
use igd_next::text::{ascii_text, bytes_eq, decode_text, find_first, parse_decimal, push_decimal, text_eq};
use igd_next::PortMappingProtocol;

fn gateway() -> Gateway {
    let mut schema = ControlSchema::new();
    schema.insert("GetExternalIPAddress".to_string(), Vec::new());
    Gateway {
        addr: SocketAddress { ip: IpAddress::V4(192, 168, 0, 1), port: 5000 },
        root_url: "/rootDesc.xml".to_string(),
        control_url: "/ctl/IPConn".to_string(),
        control_schema_url: "/WANIPCn.xml".to_string(),
        control_schema: schema,
    }
}

#[test]
fn url_of_address_and_path() {
    let v4 = SocketAddress { ip: IpAddress::V4(192, 168, 0, 1), port: 5000 };
    assert_eq!(format_url(v4, "/rootDesc.xml"), "http://192.168.0.1:5000/rootDesc.xml");
    assert_eq!(format_url(SocketAddress { ip: IpAddress::V4(0, 0, 0, 0), port: 0 }, ""), "http://0.0.0.0:0");
    assert_eq!(
        format_url(SocketAddress { ip: IpAddress::V4(255, 255, 255, 255), port: 65535 }, "/\u{fc}"),
        "http://255.255.255.255:65535/\u{fc}"
    );
    let v6 = SocketAddress { ip: IpAddress::V6(0xfe80, 0, 0, 0, 0x1, 0xabcd, 0x10, 0xffff), port: 80 };
    assert_eq!(format_url(v6, "/x"), "http://[fe80:0:0:0:1:abcd:10:ffff]:80/x");
}

#[test]
fn address_as_text() {
    let mut out = b"at ".to_vec();
    push_address(&mut out, SocketAddress { ip: IpAddress::V4(10, 20, 30, 40), port: 1900 });
    assert_eq!(out, b"at 10.20.30.40:1900");
    let mut out = Vec::new();
    push_ip(&mut out, IpAddress::V6(0, 0, 0, 0, 0, 0, 0, 1));
    assert_eq!(out, b"[0:0:0:0:0:0:0:1]");
}

#[test]
fn request_for_an_action() {
    let request = gateway().action_request("GetExternalIPAddress", "<body/>");
    assert_eq!(request.method, Method::Post);
    assert_eq!(request.url, "http://192.168.0.1:5000/ctl/IPConn");
    assert_eq!(
        request.headers,
        vec![
            (
                "SOAPAction".to_string(),
                "\"urn:schemas-upnp-org:service:WANIPConnection:1#GetExternalIPAddress\"".to_string()
            ),
            ("Content-Type".to_string(), "text/xml".to_string()),
        ]
    );
    assert_eq!(request.body, "<body/>");
    assert_eq!(request.content_length(), 7);
    assert_eq!(request.content_length_text(), "7");
    assert_eq!(gateway().control_address(), "http://192.168.0.1:5000/ctl/IPConn");
}

#[test]
fn request_carries_length_in_bytes() {
    let request = soap_request("http://h/c", "\"a#b\"", "gr\u{fc}\u{df}e \u{1f600}");
    assert_eq!(request.content_length(), 12);
    assert_eq!(request.content_length_text(), "12");
    assert_eq!(request.headers.len(), 2);
    assert_eq!(request.headers[0], ("SOAPAction".to_string(), "\"a#b\"".to_string()));
    assert_eq!(request.url, "http://h/c");
    let empty = soap_request("u", "a", "");
    assert_eq!(empty.content_length_text(), "0");
    let get = get_request("http://h/d".to_string());
    assert_eq!(get.method, Method::Get);
    assert!(get.headers.is_empty());
    assert!(get.body.is_empty());
    assert_eq!(get.content_length(), 0);
}

#[test]
fn response_must_be_utf8() {
    assert_eq!(decode_response("gr\u{fc}n".as_bytes()), Ok("gr\u{fc}n".to_string()));
    assert_eq!(decode_response(b""), Ok(String::new()));
    assert_eq!(decode_response(&[b'a', 0xc3]), Err(RequestError::Utf8));
    assert_eq!(decode_response(&[0xed, 0xa0, 0x80]), Err(RequestError::Utf8));
    assert_eq!(decode_text(&[0xc0, 0x80]), None);
    assert_eq!(decode_text(b"ok"), Some("ok".to_string()));
}

#[test]
fn options_default_and_setters() {
    let options = SearchOptions::default();
    assert_eq!(options.bind_addr(), SocketAddress { ip: IpAddress::V4(0, 0, 0, 0), port: 0 });
    assert_eq!(
        options.broadcast_address(),
        SocketAddress { ip: IpAddress::V4(239, 255, 255, 250), port: 1900 }
    );
    assert_eq!(options.timeout(), Some(10_000));
    assert_eq!(options.single_search_timeout(), Some(5_000));
    assert_eq!(DEFAULT_TIMEOUT, 10_000);
    assert_eq!(RESPONSE_TIMEOUT, 5_000);
    assert!(options.is_consistent());

    let bind = SocketAddress { ip: IpAddress::V4(192, 168, 0, 7), port: 4000 };
    let group = SocketAddress { ip: IpAddress::V6(0xff02, 0, 0, 0, 0, 0, 0, 0xc), port: 1900 };
    let changed = options
        .set_bind_addr(bind)
        .set_broadcast_address(group)
        .set_timeout(Some(100))
        .set_single_search_timeout(Some(200));
    assert_eq!(changed.bind_addr(), bind);
    assert_eq!(changed.broadcast_address(), group);
    assert_eq!(changed.timeout(), Some(100));
    assert_eq!(changed.single_search_timeout(), Some(200));
    assert!(!changed.is_consistent());
    assert!(changed.set_timeout(None).is_consistent());
    assert_eq!(changed.set_timeout(None).single_search_timeout(), Some(200));
    assert_eq!(options.timeout(), Some(10_000));
}

#[test]
fn protocol_names() {
    assert_eq!(PortMappingProtocol::TCP.to_string(), "TCP");
    assert_eq!(PortMappingProtocol::UDP.to_string(), "UDP");
}

#[test]
fn random_ports_are_high() {
    let mut generator = SmallRng::seed_from_u64(7);
    let mut seen = std::collections::HashSet::new();
    for _ in 0..2000 {
        let port = random_port(&mut generator);
        assert!(port >= 32768);
        assert!(port < 65535);
        seen.insert(port);
    }
    assert!(seen.len() > 100);
}

#[test]
fn first_address_of_the_wanted_kind() {
    let a = IpAddress::V4(10, 0, 0, 1);
    let b = IpAddress::V6(0xfe80, 0, 0, 0, 0, 0, 0, 1);
    let c = IpAddress::V4(10, 0, 0, 2);
    assert_eq!(pick_address(&[b, a, c], AddrType::IPv4), Some(a));
    assert_eq!(pick_address(&[a, c, b], AddrType::IPv6), Some(b));
    assert_eq!(pick_address(&[b, a, c], AddrType::Either), Some(b));
    assert_eq!(pick_address(&[a, c], AddrType::IPv6), None);
    assert_eq!(pick_address(&[b], AddrType::IPv4), None);
    assert_eq!(pick_address(&[], AddrType::Either), None);
}

#[test]
fn numbers_and_texts() {
    let mut out = Vec::new();
    push_decimal(&mut out, 0);
    out.push(b' ');
    push_decimal(&mut out, 1900);
    out.push(b' ');
    push_decimal(&mut out, u64::MAX);
    assert_eq!(out, b"0 1900 18446744073709551615");
    assert_eq!(parse_decimal(b"0", 255), Some(0));
    assert_eq!(parse_decimal(b"255", 255), Some(255));
    assert_eq!(parse_decimal(b"256", 255), None);
    assert_eq!(parse_decimal(b"65535", 65535), Some(65535));
    assert_eq!(parse_decimal(b"4294967295", u32::MAX), Some(u32::MAX));
    assert_eq!(parse_decimal(b"4294967296", u32::MAX), None);
    assert_eq!(parse_decimal(b"99999999999999999999999", u32::MAX), None);
    assert_eq!(parse_decimal(b"", 255), None);
    assert_eq!(parse_decimal(b"01", 255), None);
    assert_eq!(parse_decimal(b"+1", 255), None);
    assert_eq!(parse_decimal(b"1a", 255), None);
    assert!(text_eq("service", "service"));
    assert!(!text_eq("service", "Service"));
    assert!(!text_eq("service", "serviceList"));
    assert!(bytes_eq(b"", b""));
    assert!(!bytes_eq(b"a", b"b"));
    assert_eq!(ascii_text(b"10.0.0.1:80"), "10.0.0.1:80");
    assert_eq!(find_first(b"a/b?c#d", 0, 7, b'?', b'#', b'#'), 3);
    assert_eq!(find_first(b"a/b?c#d", 4, 7, b'?', b'?', b'?'), 7);
    assert_eq!(find_first(b"a/b?c#d", 2, 2, b'b', b'b', b'b'), 2);
}
