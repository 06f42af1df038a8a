use igd_next::addr::{IpAddress, SocketAddress};
use igd_next::engine::{
    get_control_urls, get_schemas, handle_broadcast_resp, Action, Engine, Event, Phase, Step,
};
use igd_next::errors::{HttpError, IoFailure, ParseError, SearchError};
use igd_next::gateway::Method;
use igd_next::messages::SEARCH_REQUEST;
use igd_next::options::SearchOptions;

const DEVICE: &str = "<root><device><serviceList><service>\
    <serviceType>urn:schemas-upnp-org:service:WANIPConnection:1</serviceType>\
    <controlURL>/ctl/IPConn</controlURL><SCPDURL>/WANIPCn.xml</SCPDURL>\
    </service></serviceList></device></root>";

const SCPD: &str = "<scpd><actionList><action><name>GetExternalIPAddress</name></action></actionList></scpd>";

fn reply(location: &str) -> Vec<u8> {
    format!("HTTP/1.1 200 OK\r\nST: upnp:rootdevice\r\nLOCATION: {}\r\n\r\n", location).into_bytes()
}

fn started(options: SearchOptions) -> Engine {
    let mut engine = Engine::new(options);
    assert!(matches!(engine.phase(), Phase::Idle));
    let step = engine.step(Event::Start, 0).unwrap();
    match step.action {
        Action::Search { bind, to, payload } => {
            assert_eq!(bind, options.bind_addr());
            assert_eq!(to, options.broadcast_address());
            assert_eq!(payload, SEARCH_REQUEST);
        }
        other => panic!("unexpected action {:?}", other),
    }
    assert!(step.skipped.is_none());
    assert!(matches!(engine.phase(), Phase::Searching));
    engine
}

fn waiting(options: SearchOptions) -> Engine {
    let mut engine = started(options);
    let step = engine.step(Event::SearchSent, 1).unwrap();
    assert!(matches!(step.action, Action::Receive { .. }));
    assert!(matches!(engine.phase(), Phase::AwaitingReply));
    engine
}

fn expect_receive(step: &Step, expected: u64) {
    match &step.action {
        Action::Receive { max_len, timeout } => {
            assert_eq!(*max_len, 1500);
            assert_eq!(*timeout, expected);
        }
        other => panic!("unexpected action {:?}", other),
    }
}

fn expect_fetch(step: &Step, url: &str, expected: u64) {
    match &step.action {
        Action::Fetch { request, timeout } => {
            assert_eq!(request.method, Method::Get);
            assert_eq!(request.url, url);
            assert!(request.headers.is_empty());
            assert!(request.body.is_empty());
            assert_eq!(*timeout, expected);
        }
        other => panic!("unexpected action {:?}", other),
    }
}

#[test]
fn search_finds_gateway() {
    let mut engine = waiting(SearchOptions::default());
    let step = engine.step(Event::Datagram(reply("http://192.168.1.1:5000/rootDesc.xml")), 20).unwrap();
    expect_fetch(&step, "http://192.168.1.1:5000/rootDesc.xml", 9980);
    assert!(step.skipped.is_none());
    assert!(matches!(engine.phase(), Phase::ResolvingDevice { .. }));

    let step = engine
        .step(Event::Fetched { status: 200, body: DEVICE.as_bytes().to_vec() }, 35)
        .unwrap();
    expect_fetch(&step, "http://192.168.1.1:5000/WANIPCn.xml", 9965);
    assert!(matches!(engine.phase(), Phase::ResolvingSchema { .. }));
    assert!(!engine.is_finished());

    let step = engine
        .step(Event::Fetched { status: 200, body: SCPD.as_bytes().to_vec() }, 50)
        .unwrap();
    assert!(matches!(step.action, Action::Finish));
    assert!(step.skipped.is_none());
    assert!(engine.is_finished());

    let gateway = engine.into_result().unwrap().unwrap();
    assert_eq!(gateway.addr, SocketAddress { ip: IpAddress::V4(192, 168, 1, 1), port: 5000 });
    assert_eq!(gateway.root_url, "/rootDesc.xml");
    assert_eq!(gateway.control_url, "/ctl/IPConn");
    assert_eq!(gateway.control_schema_url, "/WANIPCn.xml");
    assert_eq!(gateway.control_schema.len(), 1);
    assert_eq!(gateway.control_schema.get("GetExternalIPAddress"), Some(&Vec::<String>::new()));
}

#[test]
fn search_ignores_malformed_reply() {
    let mut engine = waiting(SearchOptions::default().set_timeout(Some(3000)));
    let step = engine.step(Event::Datagram(reply("http://not an address/")), 100).unwrap();
    expect_receive(&step, 2900);
    assert_eq!(step.skipped, Some(SearchError::Parse(ParseError::InvalidAddress)));
    assert!(matches!(engine.phase(), Phase::AwaitingReply));

    let step = engine.step(Event::Datagram(b"NOTIFY * HTTP/1.1\r\n\r\n".to_vec()), 150).unwrap();
    expect_receive(&step, 2850);
    assert_eq!(step.skipped, Some(SearchError::Parse(ParseError::MissingLocation)));

    let step = engine.step(Event::Datagram(vec![0xff, 0xfe, 0xfd]), 160).unwrap();
    expect_receive(&step, 2840);
    assert_eq!(step.skipped, Some(SearchError::Utf8));

    let step = engine.step(Event::Datagram(reply("http://10.0.0.2:80/d.xml")), 200).unwrap();
    expect_fetch(&step, "http://10.0.0.2:80/d.xml", 2800);
    let step = engine.step(Event::Fetched { status: 200, body: DEVICE.as_bytes().to_vec() }, 300).unwrap();
    expect_fetch(&step, "http://10.0.0.2:80/WANIPCn.xml", 2700);
    let step = engine.step(Event::Fetched { status: 200, body: SCPD.as_bytes().to_vec() }, 400).unwrap();
    assert!(matches!(step.action, Action::Finish));
    let gateway = engine.into_result().unwrap().unwrap();
    assert_eq!(gateway.addr, SocketAddress { ip: IpAddress::V4(10, 0, 0, 2), port: 80 });
}

#[test]
fn search_times_out_without_reply() {
    let options = SearchOptions::default().set_timeout(Some(200));
    let mut engine = started(options);
    let step = engine.step(Event::SearchSent, 0).unwrap();
    expect_receive(&step, 200);
    let step = engine.step(Event::ReceiveTimedOut, 199).unwrap();
    expect_receive(&step, 1);
    assert!(!engine.is_finished());
    let step = engine.step(Event::ReceiveTimedOut, 200).unwrap();
    assert!(matches!(step.action, Action::Finish));
    assert!(step.skipped.is_none());
    assert!(engine.is_finished());
    assert_eq!(engine.into_result().unwrap().err(), Some(SearchError::NoResponseWithinTimeout));
}

#[test]
fn search_waits_in_single_attempts() {
    let options = SearchOptions::default().set_timeout(Some(1000)).set_single_search_timeout(Some(300));
    assert!(options.is_consistent());
    let mut engine = started(options);
    expect_receive(&engine.step(Event::SearchSent, 0).unwrap(), 300);
    expect_receive(&engine.step(Event::ReceiveTimedOut, 300).unwrap(), 300);
    expect_receive(&engine.step(Event::ReceiveTimedOut, 600).unwrap(), 300);
    expect_receive(&engine.step(Event::ReceiveTimedOut, 900).unwrap(), 100);
    let step = engine.step(Event::ReceiveTimedOut, 1001).unwrap();
    assert!(matches!(step.action, Action::Finish));
    assert_eq!(engine.into_result().unwrap().err(), Some(SearchError::NoResponseWithinTimeout));
}

#[test]
fn search_uses_defaults_where_no_time_is_set() {
    let options = SearchOptions::default().set_timeout(None).set_single_search_timeout(None);
    let mut engine = started(options);
    assert_eq!(engine.search_plan().max_time, 10_000);
    assert_eq!(engine.search_plan().attempt_time, 5_000);
    expect_receive(&engine.step(Event::SearchSent, 0).unwrap(), 5000);
    expect_receive(&engine.step(Event::ReceiveTimedOut, 5000).unwrap(), 5000);
    expect_receive(&engine.step(Event::ReceiveTimedOut, 9000).unwrap(), 1000);
}

#[test]
fn search_goes_on_after_failed_description() {
    let mut engine = waiting(SearchOptions::default());
    engine.step(Event::Datagram(reply("http://10.0.0.1:80/a.xml")), 10).unwrap();
    let step = engine.step(Event::Fetched { status: 200, body: DEVICE.as_bytes().to_vec() }, 20).unwrap();
    expect_fetch(&step, "http://10.0.0.1:80/WANIPCn.xml", 9980);
    let step = engine.step(Event::Fetched { status: 404, body: b"gone".to_vec() }, 30).unwrap();
    expect_receive(&step, 5000);
    assert_eq!(step.skipped, Some(SearchError::Http(HttpError::Status(404))));
    assert!(matches!(engine.phase(), Phase::AwaitingReply));
    assert!(!engine.is_finished());

    engine.step(Event::Datagram(reply("http://10.0.0.2:80/b.xml")), 6000).unwrap();
    let step = engine.step(Event::FetchFailed, 6010).unwrap();
    expect_receive(&step, 3990);
    assert_eq!(step.skipped, Some(SearchError::Http(HttpError::Transport)));

    engine.step(Event::Datagram(reply("http://10.0.0.3:80/c.xml")), 6020).unwrap();
    let step = engine.step(Event::Fetched { status: 200, body: b"<root/>".to_vec() }, 6030).unwrap();
    assert_eq!(step.skipped, Some(SearchError::Parse(ParseError::ServiceNotFound)));

    engine.step(Event::Datagram(reply("http://10.0.0.4:80/d.xml")), 6040).unwrap();
    engine.step(Event::Fetched { status: 200, body: DEVICE.as_bytes().to_vec() }, 6050).unwrap();
    let step = engine.step(Event::Fetched { status: 200, body: b"<scpd>".to_vec() }, 6060).unwrap();
    assert_eq!(step.skipped, Some(SearchError::Parse(ParseError::MalformedXml)));
    let step = engine.step(Event::ReceiveFailed, 6070).unwrap();
    assert_eq!(step.skipped, Some(SearchError::Io(IoFailure::Receive)));

    engine.step(Event::Datagram(reply("http://10.0.0.5:80/e.xml")), 6080).unwrap();
    engine.step(Event::Fetched { status: 200, body: DEVICE.as_bytes().to_vec() }, 6090).unwrap();
    engine.step(Event::Fetched { status: 299, body: SCPD.as_bytes().to_vec() }, 9999).unwrap();
    let gateway = engine.into_result().unwrap().unwrap();
    assert_eq!(gateway.addr, SocketAddress { ip: IpAddress::V4(10, 0, 0, 5), port: 80 });
    assert_eq!(gateway.root_url, "/e.xml");
}

#[test]
fn search_fails_when_request_cannot_be_sent() {
    let mut engine = started(SearchOptions::default());
    let step = engine.step(Event::SearchFailed(IoFailure::Send), 3).unwrap();
    assert!(matches!(step.action, Action::Finish));
    assert_eq!(engine.into_result().unwrap().err(), Some(SearchError::Io(IoFailure::Send)));
    let mut engine = started(SearchOptions::default());
    engine.step(Event::SearchFailed(IoFailure::Bind), 0).unwrap();
    assert_eq!(engine.into_result().unwrap().err(), Some(SearchError::Io(IoFailure::Bind)));
}

#[test]
fn search_gives_up_before_a_late_request() {
    let mut engine = waiting(SearchOptions::default().set_timeout(Some(500)));
    let step = engine.step(Event::Datagram(reply("http://10.0.0.1:80/a.xml")), 500).unwrap();
    assert!(matches!(step.action, Action::Finish));
    assert_eq!(engine.into_result().unwrap().err(), Some(SearchError::NoResponseWithinTimeout));

    let mut engine = waiting(SearchOptions::default().set_timeout(Some(500)));
    engine.step(Event::Datagram(reply("http://10.0.0.1:80/a.xml")), 100).unwrap();
    let step = engine.step(Event::Fetched { status: 200, body: DEVICE.as_bytes().to_vec() }, 700).unwrap();
    assert!(matches!(step.action, Action::Finish));
    assert_eq!(engine.into_result().unwrap().err(), Some(SearchError::NoResponseWithinTimeout));

    let mut engine = waiting(SearchOptions::default().set_timeout(Some(500)));
    engine.step(Event::Datagram(reply("http://10.0.0.1:80/a.xml")), 100).unwrap();
    engine.step(Event::Fetched { status: 200, body: DEVICE.as_bytes().to_vec() }, 200).unwrap();
    let step = engine.step(Event::Fetched { status: 200, body: SCPD.as_bytes().to_vec() }, 700).unwrap();
    assert!(matches!(step.action, Action::Finish));
    assert!(engine.into_result().unwrap().is_ok());
}

#[test]
fn search_refuses_events_out_of_turn() {
    let mut engine = Engine::new(SearchOptions::default());
    assert!(engine.step(Event::SearchSent, 0).is_none());
    assert!(engine.step(Event::Datagram(reply("http://10.0.0.1:80/a.xml")), 0).is_none());
    assert!(matches!(engine.phase(), Phase::Idle));
    assert!(engine.into_result().is_none());

    let mut engine = started(SearchOptions::default());
    assert!(engine.step(Event::Start, 0).is_none());
    assert!(engine.step(Event::ReceiveTimedOut, 0).is_none());
    assert!(matches!(engine.phase(), Phase::Searching));

    let mut engine = waiting(SearchOptions::default());
    assert!(engine.step(Event::FetchFailed, 5).is_none());
    assert!(engine.step(Event::Fetched { status: 200, body: Vec::new() }, 5).is_none());
    assert!(matches!(engine.phase(), Phase::AwaitingReply));
    engine.step(Event::Datagram(reply("http://10.0.0.1:80/a.xml")), 10).unwrap();
    assert!(engine.step(Event::ReceiveTimedOut, 11).is_none());
    assert!(engine.step(Event::Datagram(Vec::new()), 11).is_none());
    match engine.phase() {
        Phase::ResolvingDevice { addr, root_url } => {
            assert_eq!(*addr, SocketAddress { ip: IpAddress::V4(10, 0, 0, 1), port: 80 });
            assert_eq!(root_url, "/a.xml");
        }
        other => panic!("unexpected phase {:?}", other),
    }
    engine.step(Event::Fetched { status: 200, body: DEVICE.as_bytes().to_vec() }, 20).unwrap();
    assert!(engine.step(Event::SearchSent, 21).is_none());
    assert!(matches!(engine.phase(), Phase::ResolvingSchema { .. }));
    engine.step(Event::Fetched { status: 200, body: SCPD.as_bytes().to_vec() }, 30).unwrap();
    assert!(engine.step(Event::Start, 31).is_none());
    assert!(engine.step(Event::ReceiveTimedOut, 20_000).is_none());
    assert!(matches!(engine.phase(), Phase::Done(_)));
}

#[test]
fn search_reads_no_more_than_one_datagram_holds() {
    let mut long = vec![b' '; 1500];
    long.extend_from_slice(b"\r\nLOCATION: http://10.0.0.1:80/a.xml\r\n");
    let mut engine = waiting(SearchOptions::default());
    let step = engine.step(Event::Datagram(long), 10).unwrap();
    assert_eq!(step.skipped, Some(SearchError::Parse(ParseError::MissingLocation)));

    let header = b"LOCATION: http://10.0.0.1:80/";
    let mut cut = header.to_vec();
    cut.extend(std::iter::repeat(b'a').take(1500 - header.len()));
    cut.extend_from_slice(b"bcd\r\n");
    let mut engine = waiting(SearchOptions::default());
    engine.step(Event::Datagram(cut), 10).unwrap();
    match engine.phase() {
        Phase::ResolvingDevice { root_url, .. } => {
            assert_eq!(root_url.len(), 1500 - header.len() + 1);
            assert!(root_url.ends_with('a'));
        }
        other => panic!("unexpected phase {:?}", other),
    }
}

#[test]
fn replies_and_responses_alone() {
    assert_eq!(
        handle_broadcast_resp(&reply("http://1.2.3.4:5/six")),
        Ok((SocketAddress { ip: IpAddress::V4(1, 2, 3, 4), port: 5 }, "/six".to_string()))
    );
    assert_eq!(handle_broadcast_resp(&[0x80]), Err(SearchError::Utf8));
    assert_eq!(handle_broadcast_resp(b""), Err(SearchError::Parse(ParseError::MissingLocation)));
    assert_eq!(
        get_control_urls(200, DEVICE.as_bytes()),
        Ok(("/WANIPCn.xml".to_string(), "/ctl/IPConn".to_string()))
    );
    assert_eq!(get_control_urls(199, DEVICE.as_bytes()), Err(SearchError::Http(HttpError::Status(199))));
    assert_eq!(get_control_urls(300, DEVICE.as_bytes()), Err(SearchError::Http(HttpError::Status(300))));
    assert_eq!(get_control_urls(204, b""), Err(SearchError::Parse(ParseError::MalformedXml)));
    assert_eq!(get_schemas(200, SCPD.as_bytes()).unwrap().len(), 1);
    assert_eq!(get_schemas(500, SCPD.as_bytes()).err(), Some(SearchError::Http(HttpError::Status(500))));
    assert_eq!(get_schemas(200, b"<").err(), Some(SearchError::Parse(ParseError::MalformedXml)));
}
