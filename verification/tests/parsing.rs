use igd_next::addr::{IpAddress, SocketAddress};
use igd_next::errors::ParseError;
use igd_next::parsing::device::{find_child, find_child_text, find_control_urls, parse_control_urls};
use igd_next::parsing::location::{parse_ipv4, parse_location, parse_search_result};
use igd_next::parsing::scpd::{collect_schema, parse_schemas};
use igd_next::xml::{parse_document, XmlElement};

fn v4(a: u8, b: u8, c: u8, d: u8, port: u16) -> SocketAddress {
    SocketAddress { ip: IpAddress::V4(a, b, c, d), port }
}

fn element(name: &str, text: Option<&str>, children: Vec<XmlElement>) -> XmlElement {
    XmlElement::new(name.to_string(), text.map(|t| t.to_string()), children)
}

fn leaf(name: &str, text: &str) -> XmlElement {
    element(name, Some(text), Vec::new())
}

fn service(kind: &str, control: &str, scpd: &str) -> XmlElement {
    element(
        "service",
        None,
        vec![leaf("serviceType", kind), leaf("controlURL", control), leaf("SCPDURL", scpd)],
    )
}

const IP1: &str = "urn:schemas-upnp-org:service:WANIPConnection:1";
const IP2: &str = "urn:schemas-upnp-org:service:WANIPConnection:2";
const PPP1: &str = "urn:schemas-upnp-org:service:WANPPPConnection:1";

#[test]
fn search_result_with_port_and_path() {
    let text = "HTTP/1.1 200 OK\r\nCACHE-CONTROL: max-age=120\r\nLOCATION: http://192.168.1.1:5431/dyndev/uuid:0000.xml\r\nST: upnp:rootdevice\r\n\r\n";
    let (addr, path) = parse_search_result(text).unwrap();
    assert_eq!(addr, v4(192, 168, 1, 1, 5431));
    assert_eq!(path, "/dyndev/uuid:0000.xml");
}

#[test]
fn search_result_without_location() {
    let text = "HTTP/1.1 200 OK\r\nST: upnp:rootdevice\r\n\r\n";
    assert_eq!(parse_search_result(text), Err(ParseError::MissingLocation));
    assert_eq!(parse_search_result(""), Err(ParseError::MissingLocation));
    assert_eq!(parse_search_result("\n\n\n"), Err(ParseError::MissingLocation));
    assert_eq!(parse_search_result("X-LOCATION: http://1.2.3.4/"), Err(ParseError::MissingLocation));
}

#[test]
fn search_result_header_in_any_case() {
    for name in ["location:", "Location:", "LOCATION:", "LoCaTiOn:"] {
        let text = format!("HTTP/1.1 200 OK\r\n{} http://10.0.0.138:80/desc.xml\r\n\r\n", name);
        let (addr, path) = parse_search_result(&text).unwrap();
        assert_eq!(addr, v4(10, 0, 0, 138, 80));
        assert_eq!(path, "/desc.xml");
    }
}

#[test]
fn search_result_blanks_around_header_and_value() {
    let text = "HTTP/1.1 200 OK\n  \tLocation:\t  http://10.0.0.1:1900/igd.xml \t\r\nEXT:\r\n";
    assert_eq!(parse_search_result(text), Ok((v4(10, 0, 0, 1, 1900), "/igd.xml".to_string())));
    let tight = "location:http://10.0.0.1:1900/igd.xml";
    assert_eq!(parse_search_result(tight), Ok((v4(10, 0, 0, 1, 1900), "/igd.xml".to_string())));
}

#[test]
fn search_result_defaults() {
    assert_eq!(
        parse_search_result("LOCATION: http://192.168.0.1/root.xml\r\n"),
        Ok((v4(192, 168, 0, 1, 80), "/root.xml".to_string()))
    );
    assert_eq!(
        parse_search_result("LOCATION: http://192.168.0.1:49152\r\n"),
        Ok((v4(192, 168, 0, 1, 49152), "/".to_string()))
    );
    assert_eq!(
        parse_search_result("LOCATION: http://192.168.0.1:49152/a/b.xml?x=1#frag\r\n"),
        Ok((v4(192, 168, 0, 1, 49152), "/a/b.xml".to_string()))
    );
    assert_eq!(
        parse_search_result("LOCATION: HTTP://192.168.0.1:0?x\r\n"),
        Ok((v4(192, 168, 0, 1, 0), "/".to_string()))
    );
}

#[test]
fn search_result_keeps_path_as_written() {
    assert_eq!(
        parse_search_result("LOCATION: http://192.168.0.1:5000/r\u{e9}sum\u{e9} 1.xml\r\n"),
        Ok((v4(192, 168, 0, 1, 5000), "/r\u{e9}sum\u{e9} 1.xml".to_string()))
    );
}

#[test]
fn search_result_invalid_address() {
    for value in [
        "",
        "192.168.0.1:80/x",
        "https://192.168.0.1/x",
        "http://gateway.local:80/x",
        "http://[fe80::1]:80/x",
        "http://192.168.0:80/x",
        "http://192.168.0.1.5:80/x",
        "http://192.168.0.256:80/x",
        "http://192.168.00.1:80/x",
        "http://192.168.0.1:65536/x",
        "http://192.168.0.1:/x",
        "http://192.168.0.1:80a/x",
        "http://192.168.0.1:080/x",
        "http://user@192.168.0.1/x",
        "http:// 192.168.0.1/x",
    ] {
        let text = format!("HTTP/1.1 200 OK\r\nLOCATION: {}\r\n\r\n", value);
        assert_eq!(parse_search_result(&text), Err(ParseError::InvalidAddress), "{}", value);
    }
}

#[test]
fn search_result_first_location_decides() {
    let text = "LOCATION: nonsense\r\nLOCATION: http://192.168.0.1:80/x\r\n";
    assert_eq!(parse_search_result(text), Err(ParseError::InvalidAddress));
    let text = "LOCATION: http://192.168.0.1:80/x\r\nLOCATION: nonsense\r\n";
    assert_eq!(parse_search_result(text), Ok((v4(192, 168, 0, 1, 80), "/x".to_string())));
}

#[test]
fn location_and_ipv4_alone() {
    assert_eq!(parse_ipv4(b"0.0.0.0"), Some(IpAddress::V4(0, 0, 0, 0)));
    assert_eq!(parse_ipv4(b"255.255.255.255"), Some(IpAddress::V4(255, 255, 255, 255)));
    assert_eq!(parse_ipv4(b"1.2.3"), None);
    assert_eq!(parse_ipv4(b"1.2.3."), None);
    assert_eq!(parse_ipv4(b".1.2.3"), None);
    assert_eq!(parse_ipv4(b"1..2.3"), None);
    assert_eq!(parse_ipv4(b""), None);
    assert_eq!(
        parse_location(b"http://1.2.3.4:5/six"),
        Some((v4(1, 2, 3, 4, 5), "/six".to_string()))
    );
    assert_eq!(parse_location(b"http://1.2.3.4:5/\xff"), None);
    assert_eq!(parse_location(b"http:/"), None);
}

#[test]
fn control_urls_of_nested_device() {
    let xml = r#"<?xml version="1.0"?>
<root xmlns="urn:schemas-upnp-org:device-1-0">
  <specVersion><major>1</major><minor>0</minor></specVersion>
  <device>
    <deviceType>urn:schemas-upnp-org:device:InternetGatewayDevice:1</deviceType>
    <serviceList>
      <service>
        <serviceType>urn:schemas-upnp-org:service:Layer3Forwarding:1</serviceType>
        <controlURL>/ctl/L3F</controlURL>
        <SCPDURL>/L3F.xml</SCPDURL>
      </service>
    </serviceList>
    <deviceList>
      <device>
        <deviceList>
          <!-- the connection device -->
          <device>
            <serviceList>
              <service>
                <serviceType>urn:schemas-upnp-org:service:WANIPConnection:1</serviceType>
                <controlURL>/ctl/IPConn</controlURL>
                <eventSubURL>/evt/IPConn</eventSubURL>
                <SCPDURL>/WANIPCn.xml</SCPDURL>
              </service>
            </serviceList>
          </device>
        </deviceList>
      </device>
    </deviceList>
  </device>
</root>"#;
    let (schema_path, control_path) = parse_control_urls(xml.as_bytes()).unwrap();
    assert_eq!(schema_path, "/WANIPCn.xml");
    assert_eq!(control_path, "/ctl/IPConn");
}

#[test]
fn control_urls_prefer_type_over_place() {
    let xml = format!(
        "<root><device><serviceList>\
         <service><serviceType>{}</serviceType><controlURL>/ppp</controlURL><SCPDURL>/ppp.xml</SCPDURL></service>\
         <service><serviceType>{}</serviceType><controlURL>/ip2</controlURL><SCPDURL>/ip2.xml</SCPDURL></service>\
         <service><serviceType>{}</serviceType><controlURL>/ip1</controlURL><SCPDURL>/ip1.xml</SCPDURL></service>\
         <service><serviceType>{}</serviceType><controlURL>/ip1b</controlURL><SCPDURL>/ip1b.xml</SCPDURL></service>\
         </serviceList></device></root>",
        PPP1, IP2, IP1, IP1
    );
    assert_eq!(
        parse_control_urls(xml.as_bytes()),
        Ok(("/ip1.xml".to_string(), "/ip1".to_string()))
    );
    let xml = format!(
        "<root><device><serviceList>\
         <service><serviceType>{}</serviceType><controlURL>/ppp</controlURL><SCPDURL>/ppp.xml</SCPDURL></service>\
         <service><serviceType>{}</serviceType><controlURL>/ip2</controlURL><SCPDURL>/ip2.xml</SCPDURL></service>\
         </serviceList></device></root>",
        PPP1, IP2
    );
    assert_eq!(
        parse_control_urls(xml.as_bytes()),
        Ok(("/ip2.xml".to_string(), "/ip2".to_string()))
    );
    let xml = format!(
        "<root><device><serviceList>\
         <service><serviceType>{}</serviceType><controlURL>/ppp</controlURL><SCPDURL>/ppp.xml</SCPDURL></service>\
         </serviceList></device></root>",
        PPP1
    );
    assert_eq!(
        parse_control_urls(xml.as_bytes()),
        Ok(("/ppp.xml".to_string(), "/ppp".to_string()))
    );
}

#[test]
fn control_urls_service_not_found() {
    let none = "<root><device><serviceList><service><serviceType>urn:schemas-upnp-org:service:Layer3Forwarding:1</serviceType><controlURL>/c</controlURL><SCPDURL>/s</SCPDURL></service></serviceList></device></root>";
    assert_eq!(parse_control_urls(none.as_bytes()), Err(ParseError::ServiceNotFound));
    let no_control = format!(
        "<root><device><serviceList><service><serviceType>{}</serviceType><SCPDURL>/s</SCPDURL></service></serviceList></device></root>",
        IP1
    );
    assert_eq!(parse_control_urls(no_control.as_bytes()), Err(ParseError::ServiceNotFound));
    let empty_scpd = format!(
        "<root><device><serviceList><service><serviceType>{}</serviceType><controlURL>/c</controlURL><SCPDURL></SCPDURL></service></serviceList></device></root>",
        IP1
    );
    assert_eq!(parse_control_urls(empty_scpd.as_bytes()), Err(ParseError::ServiceNotFound));
    let outside_device = format!(
        "<root><serviceList><service><serviceType>{}</serviceType><controlURL>/c</controlURL><SCPDURL>/s</SCPDURL></service></serviceList></root>",
        IP1
    );
    assert_eq!(parse_control_urls(outside_device.as_bytes()), Err(ParseError::ServiceNotFound));
    assert_eq!(parse_control_urls(b"<root/>"), Err(ParseError::ServiceNotFound));
}

#[test]
fn control_urls_malformed_xml() {
    assert_eq!(parse_control_urls(b""), Err(ParseError::MalformedXml));
    assert_eq!(parse_control_urls(b"not xml at all"), Err(ParseError::MalformedXml));
    assert_eq!(parse_control_urls(b"<root><device></root>"), Err(ParseError::MalformedXml));
    assert_eq!(parse_control_urls(b"<root>"), Err(ParseError::MalformedXml));
}

#[test]
fn control_urls_in_a_tree() {
    let root = element(
        "root",
        None,
        vec![
            element("specVersion", None, Vec::new()),
            element(
                "device",
                None,
                vec![
                    element(
                        "deviceList",
                        None,
                        vec![element(
                            "device",
                            None,
                            vec![element("serviceList", None, vec![service(IP1, "/inner", "/inner.xml")])],
                        )],
                    ),
                    element("serviceList", None, vec![service(IP1, "/own", "/own.xml")]),
                ],
            ),
        ],
    );
    assert_eq!(
        find_control_urls(&root),
        Ok(("/own.xml".to_string(), "/own".to_string()))
    );
    assert_eq!(find_child(&root, "device").unwrap().children.len(), 2);
    assert!(find_child(&root, "service").is_none());
    let svc = service(PPP1, "/c", "/s");
    assert_eq!(find_child_text(&svc, "controlURL"), Some(&"/c".to_string()));
    assert_eq!(find_child_text(&svc, "eventSubURL"), None);
}

#[test]
fn document_keeps_elements_only() {
    let root = parse_document(b"<a><!-- c --><b>text<![CDATA[ more]]></b>  <?pi x?><c/>tail</a>").unwrap();
    assert_eq!(root.name, "a");
    assert_eq!(root.text, Some("tail".to_string()));
    assert_eq!(root.children.len(), 2);
    assert_eq!(root.children[0].name, "b");
    assert_eq!(root.children[0].text, Some("text more".to_string()));
    assert_eq!(root.children[1].name, "c");
    assert_eq!(root.children[1].text, None);
    assert!(root.children[1].children.is_empty());
    assert!(parse_document(b"<a><b></a>").is_none());
}

#[test]
fn schema_with_actions() {
    let xml = r#"<?xml version="1.0"?>
<scpd xmlns="urn:schemas-upnp-org:service-1-0">
  <specVersion><major>1</major><minor>0</minor></specVersion>
  <actionList>
    <action><name>GetExternalIPAddress</name></action>
    <action>
      <name>AddPortMapping</name>
      <argumentList>
        <argument><name>NewRemoteHost</name><direction>in</direction></argument>
        <argument><name>NewExternalPort</name><direction>in</direction></argument>
        <argument><direction>in</direction></argument>
        <argument><name>NewProtocol</name><direction>out</direction></argument>
      </argumentList>
    </action>
    <action><name>ForceTermination</name><argumentList></argumentList></action>
    <action><argumentList><argument><name>Lost</name></argument></argumentList></action>
  </actionList>
  <serviceStateTable/>
</scpd>"#;
    let schema = parse_schemas(xml.as_bytes()).unwrap();
    assert_eq!(schema.len(), 3);
    assert_eq!(schema.get("GetExternalIPAddress"), Some(&Vec::<String>::new()));
    assert_eq!(
        schema.get("AddPortMapping"),
        Some(&vec![
            "NewRemoteHost".to_string(),
            "NewExternalPort".to_string(),
            "NewProtocol".to_string()
        ])
    );
    assert_eq!(schema.get("ForceTermination"), Some(&Vec::<String>::new()));
    assert_eq!(schema.get("Lost"), None);
    assert!(schema.contains("AddPortMapping"));
    assert!(!schema.contains("addportmapping"));
    assert_eq!(schema.entry(0).unwrap().0, "GetExternalIPAddress");
    assert_eq!(schema.entry(1).unwrap().0, "AddPortMapping");
    assert_eq!(schema.entry(2).unwrap().0, "ForceTermination");
    assert!(schema.entry(3).is_none());
}

#[test]
fn schema_later_action_of_same_name_stands() {
    let xml = "<scpd><actionList>\
        <action><name>A</name><argumentList><argument><name>x</name></argument></argumentList></action>\
        <action><name>B</name></action>\
        <action><name>A</name><argumentList><argument><name>y</name></argument><argument><name>z</name></argument></argumentList></action>\
        </actionList></scpd>";
    let schema = parse_schemas(xml.as_bytes()).unwrap();
    assert_eq!(schema.len(), 2);
    assert_eq!(schema.get("A"), Some(&vec!["y".to_string(), "z".to_string()]));
    assert_eq!(schema.entry(0).unwrap().0, "A");
    assert_eq!(schema.entry(1).unwrap().0, "B");
}

#[test]
fn schema_without_actions() {
    assert_eq!(parse_schemas(b"<scpd><actionList></actionList></scpd>").unwrap().len(), 0);
    assert_eq!(parse_schemas(b"<scpd><actionList/></scpd>").unwrap().len(), 0);
    assert_eq!(parse_schemas(b"<scpd/>").unwrap().len(), 0);
    assert_eq!(
        parse_schemas(b"<scpd><action><name>Stray</name></action></scpd>").unwrap().len(),
        0
    );
}

#[test]
fn schema_malformed_xml() {
    assert_eq!(parse_schemas(b"<scpd><actionList>").err(), Some(ParseError::MalformedXml));
    assert_eq!(parse_schemas(b"").err(), Some(ParseError::MalformedXml));
    assert_eq!(parse_schemas(&[0xff, 0xfe, 0x00]).err(), Some(ParseError::MalformedXml));
}

#[test]
fn schema_in_a_tree() {
    let root = element(
        "scpd",
        None,
        vec![element(
            "actionList",
            None,
            vec![
                element("action", None, vec![leaf("name", "One")]),
                element("other", None, vec![leaf("name", "NotAnAction")]),
                element(
                    "action",
                    None,
                    vec![
                        leaf("name", "Two"),
                        element(
                            "argumentList",
                            None,
                            vec![
                                element("argument", None, vec![leaf("name", "a")]),
                                element("comment", None, vec![leaf("name", "skipped")]),
                                element("argument", None, vec![leaf("name", "b")]),
                            ],
                        ),
                    ],
                ),
            ],
        )],
    );
    let schema = collect_schema(&root);
    assert_eq!(schema.len(), 2);
    assert_eq!(schema.get("One"), Some(&Vec::<String>::new()));
    assert_eq!(schema.get("Two"), Some(&vec!["a".to_string(), "b".to_string()]));
}

#[test]
fn reading_twice_gives_the_same() {
    let device = format!(
        "<root><device><serviceList><service><serviceType>{}</serviceType><controlURL>/c</controlURL><SCPDURL>/s</SCPDURL></service></serviceList></device></root>",
        IP2
    );
    assert_eq!(parse_control_urls(device.as_bytes()), parse_control_urls(device.as_bytes()));
    assert_eq!(parse_control_urls(b"<x"), parse_control_urls(b"<x"));
    let scpd = b"<scpd><actionList><action><name>A</name><argumentList><argument><name>x</name></argument></argumentList></action></actionList></scpd>";
    let first = parse_schemas(scpd).unwrap();
    let second = parse_schemas(scpd).unwrap();
    assert_eq!(first.len(), second.len());
    assert_eq!(first.entry(0), second.entry(0));
    assert_eq!(first.get("A"), second.get("A"));
}
