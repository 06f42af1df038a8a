use igd_next::errors::{HttpError, RequestError};
use igd_next::exchange::{Attempt, Exchange, Verdict, INITIAL_BUFFER_SIZE, MAX_BUFFER_SIZE};
use igd_next::gateway::{decode_response, get_request, Method};

#[test]
fn response_fits_after_two_growths() {
    let body = "<s:Envelope>caf\u{e9}</s:Envelope>".as_bytes().to_vec();
    let mut outcomes = vec![
        Attempt::BufferTooSmall,
        Attempt::BufferTooSmall,
        Attempt::Complete(body.clone()),
    ]
    .into_iter();
    let mut exchange = Exchange::new(get_request("http://10.0.0.1:80/scpd.xml".to_string()));
    let mut requests: Vec<(String, Method, usize)> = Vec::new();
    let delivered = loop {
        let request = exchange.request();
        requests.push((request.url.clone(), request.method, exchange.buffer_size()));
        match exchange.on_attempt(outcomes.next().unwrap()) {
            Verdict::Retry => continue,
            Verdict::Deliver(bytes) => break bytes,
            Verdict::GiveUp(error) => panic!("gave up: {:?}", error),
        }
    };
    assert_eq!(
        requests,
        vec![
            ("http://10.0.0.1:80/scpd.xml".to_string(), Method::Get, 4096),
            ("http://10.0.0.1:80/scpd.xml".to_string(), Method::Get, 8192),
            ("http://10.0.0.1:80/scpd.xml".to_string(), Method::Get, 16384),
        ]
    );
    assert!(outcomes.next().is_none());
    assert_eq!(delivered, body);
    assert_eq!(decode_response(&delivered), Ok("<s:Envelope>caf\u{e9}</s:Envelope>".to_string()));
}

#[test]
fn buffer_grows_ten_times_at_most() {
    let mut exchange = Exchange::new(get_request("http://10.0.0.1:80/big".to_string()));
    assert_eq!(exchange.buffer_size(), INITIAL_BUFFER_SIZE);
    let mut growths = 0;
    loop {
        let before = exchange.buffer_size();
        match exchange.on_attempt(Attempt::BufferTooSmall) {
            Verdict::Retry => {
                growths += 1;
                assert_eq!(exchange.buffer_size(), before * 2);
            }
            Verdict::GiveUp(error) => {
                assert_eq!(error, RequestError::ResponseTooLarge);
                assert_eq!(exchange.buffer_size(), before);
                break;
            }
            Verdict::Deliver(_) => panic!("nothing to deliver"),
        }
    }
    assert_eq!(growths, 10);
    assert_eq!(exchange.buffer_size(), MAX_BUFFER_SIZE);
    assert_eq!(exchange.request().url, "http://10.0.0.1:80/big");
}

#[test]
fn failed_request_is_given_up() {
    let mut exchange = Exchange::new(get_request("http://10.0.0.1:80/x".to_string()));
    match exchange.on_attempt(Attempt::Failed(HttpError::Status(503))) {
        Verdict::GiveUp(error) => assert_eq!(error, RequestError::Http(HttpError::Status(503))),
        other => panic!("unexpected verdict {:?}", other),
    }
    assert_eq!(exchange.buffer_size(), INITIAL_BUFFER_SIZE);
    match exchange.on_attempt(Attempt::Failed(HttpError::Transport)) {
        Verdict::GiveUp(error) => assert_eq!(error, RequestError::Http(HttpError::Transport)),
        other => panic!("unexpected verdict {:?}", other),
    }
    match exchange.on_attempt(Attempt::Complete(Vec::new())) {
        Verdict::Deliver(bytes) => assert!(bytes.is_empty()),
        other => panic!("unexpected verdict {:?}", other),
    }
}
