//! The gateway that a search found, and the requests that are sent to it.

use vstd::prelude::*;
use vstd::string::{StringExecFns, StringSliceAdditionalSpecFns};
use vstd::utf8::{decode_utf8, encode_utf8, valid_utf8};
use crate::addr::{address_text, hex_digits, push_address, IpAddress, SocketAddress};
use crate::errors::RequestError;
use crate::messages::{CONTENT_TYPE, HEADER_NAME, TEXT_XML, WAN_IP_CONNECTION_1};
use crate::schema::{ControlSchema, Entry};
use crate::text::{
    all_ascii, ascii_chars, ascii_text, decimal_digits, decode_text, lemma_decimal_digits,
    push_decimal,
};

verus! {

/// The URL of `path` on the host at `address`: `http://`, the host and its
/// port, and the path.
pub open spec fn url_text(address: SocketAddress, path: Seq<char>) -> Seq<char> {
    "http://"@ + ascii_chars(address_text(address)) + path
}

/// The digits of a number to base sixteen are ASCII.
pub proof fn lemma_hex_digits_ascii(n: nat)
    ensures
        all_ascii(hex_digits(n)),
    decreases n,
{
    if n >= 16 {
        lemma_hex_digits_ascii(n / 16);
        let front = hex_digits(n / 16);
        assert forall|i: int| 0 <= i < hex_digits(n).len() implies #[trigger] hex_digits(n)[i]
            < 128 by {
            if i < front.len() {
                assert(hex_digits(n)[i] == front[i]);
            }
        }
    }
}

/// The digits of a decimal number are ASCII.
pub proof fn lemma_decimal_digits_ascii(n: nat)
    ensures
        all_ascii(decimal_digits(n)),
{
    lemma_decimal_digits(n);
    assert forall|i: int| 0 <= i < decimal_digits(n).len() implies #[trigger] decimal_digits(n)[i]
        < 128 by {
        assert(crate::text::is_digit(decimal_digits(n)[i]));
    }
}

/// The text of an address is ASCII.
pub proof fn lemma_address_text_ascii(address: SocketAddress)
    ensures
        all_ascii(address_text(address)),
{
    lemma_decimal_digits_ascii(address.port as nat);
    match address.ip {
        IpAddress::V4(a, b, c, d) => {
            lemma_decimal_digits_ascii(a as nat);
            lemma_decimal_digits_ascii(b as nat);
            lemma_decimal_digits_ascii(c as nat);
            lemma_decimal_digits_ascii(d as nat);
        },
        IpAddress::V6(a, b, c, d, e, f, g, h) => {
            lemma_hex_digits_ascii(a as nat);
            lemma_hex_digits_ascii(b as nat);
            lemma_hex_digits_ascii(c as nat);
            lemma_hex_digits_ascii(d as nat);
            lemma_hex_digits_ascii(e as nat);
            lemma_hex_digits_ascii(f as nat);
            lemma_hex_digits_ascii(g as nat);
            lemma_hex_digits_ascii(h as nat);
        },
    }
}

/// Writes the URL of `path` on the host at `address`.
pub fn format_url(address: SocketAddress, path: &str) -> (url: String)
    ensures
        url@ == url_text(address, path@),
{
    let mut host: Vec<u8> = Vec::new();
    push_address(&mut host, address);
    assert(host@ =~= address_text(address));
    proof {
        lemma_address_text_ascii(address);
    }
    let host_text = ascii_text(host.as_slice());
    let mut url = String::from_str("http://");
    url.append(host_text.as_str());
    url.append(path);
    url
}

/// A gateway: where it was found, and what the service that maps ports offers.
#[derive(Debug)]
pub struct Gateway {
    /// The address of the gateway.
    pub addr: SocketAddress,
    /// The path of the gateway's description.
    pub root_url: String,
    /// The path at which the service is controlled.
    pub control_url: String,
    /// The path of the service's description.
    pub control_schema_url: String,
    /// The actions of the service.
    pub control_schema: ControlSchema,
}

/// A gateway as a value of mathematics.
pub ghost struct GatewayView {
    /// The address of the gateway.
    pub addr: SocketAddress,
    /// The path of the gateway's description.
    pub root_url: Seq<char>,
    /// The path at which the service is controlled.
    pub control_url: Seq<char>,
    /// The path of the service's description.
    pub control_schema_url: Seq<char>,
    /// The actions of the service.
    pub control_schema: Seq<Entry>,
}

impl View for Gateway {
    type V = GatewayView;

    open spec fn view(&self) -> GatewayView {
        GatewayView {
            addr: self.addr,
            root_url: self.root_url@,
            control_url: self.control_url@,
            control_schema_url: self.control_schema_url@,
            control_schema: self.control_schema@,
        }
    }
}

/// What a request asks of the server.
#[derive(Debug, Clone, Copy, PartialEq, Eq, Structural)]
pub enum Method {
    /// Fetch what the URL names.
    Get,
    /// Hand the body to what the URL names.
    Post,
}

/// A request over HTTP, ready to be sent.
#[derive(Debug)]
pub struct HttpRequest {
    /// What is asked.
    pub method: Method,
    /// Where the request goes.
    pub url: String,
    /// The headers, each a name and a value, in the order in which they are sent.
    pub headers: Vec<(String, String)>,
    /// The body; empty where the request has none.
    pub body: String,
}

/// A request as a value of mathematics.
pub ghost struct HttpRequestView {
    /// What is asked.
    pub method: Method,
    /// Where the request goes.
    pub url: Seq<char>,
    /// The headers, each a name and a value.
    pub headers: Seq<(Seq<char>, Seq<char>)>,
    /// The body.
    pub body: Seq<char>,
}

/// The headers that `headers` stand for, in their order.
pub open spec fn headers_of(headers: Seq<(String, String)>) -> Seq<(Seq<char>, Seq<char>)> {
    Seq::new(headers.len(), |i: int| (headers[i].0@, headers[i].1@))
}

impl View for HttpRequest {
    type V = HttpRequestView;

    open spec fn view(&self) -> HttpRequestView {
        HttpRequestView {
            method: self.method,
            url: self.url@,
            headers: headers_of(self.headers@),
            body: self.body@,
        }
    }
}

/// The request that fetches what `url` names.
pub open spec fn get_request_view(url: Seq<char>) -> HttpRequestView {
    HttpRequestView { method: Method::Get, url, headers: Seq::empty(), body: Seq::empty() }
}

/// The request that hands `body` to the service at `url` for the action that
/// `action` names. It carries the action, and the type of the body, which is
/// `text/xml`.
pub open spec fn soap_request_view(url: Seq<char>, action: Seq<char>, body: Seq<char>)
    -> HttpRequestView {
    HttpRequestView {
        method: Method::Post,
        url,
        headers: seq![(HEADER_NAME@, action), (CONTENT_TYPE@, TEXT_XML@)],
        body,
    }
}

/// The value of the action header for the action `name`: the type of the
/// service and the name, with `#` between them, in double quotes.
pub open spec fn action_header(name: Seq<char>) -> Seq<char> {
    "\""@ + WAN_IP_CONNECTION_1@ + "#"@ + name + "\""@
}

/// The request that fetches what `url` names.
pub fn get_request(url: String) -> (request: HttpRequest)
    ensures
        request@ == get_request_view(url@),
{
    let request = HttpRequest {
        method: Method::Get,
        url,
        headers: Vec::new(),
        body: String::new(),
    };
    assert(request@.headers =~= Seq::empty());
    request
}

/// The request that hands `body` to the service at `url` for the action that
/// the header value `action` names.
pub fn soap_request(url: &str, action: &str, body: &str) -> (request: HttpRequest)
    ensures
        request@ == soap_request_view(url@, action@, body@),
{
    let mut headers: Vec<(String, String)> = Vec::new();
    headers.push((String::from_str(HEADER_NAME), String::from_str(action)));
    headers.push((String::from_str(CONTENT_TYPE), String::from_str(TEXT_XML)));
    let request = HttpRequest {
        method: Method::Post,
        url: String::from_str(url),
        headers,
        body: String::from_str(body),
    };
    assert(request@.headers =~= soap_request_view(url@, action@, body@).headers);
    request
}

impl HttpRequest {
    /// The length of the body in bytes, as the request states it to the server.
    pub fn content_length(&self) -> (length: usize)
        ensures
            length == encode_utf8(self.body@).len(),
    {
        self.body.as_str().as_bytes().len()
    }

    /// The length of the body in bytes, written as the value of the header
    /// that states it.
    pub fn content_length_text(&self) -> (text: String)
        ensures
            text@ == ascii_chars(decimal_digits(encode_utf8(self.body@).len())),
    {
        let mut length: Vec<u8> = Vec::new();
        push_decimal(&mut length, self.content_length() as u64);
        proof {
            lemma_decimal_digits_ascii(encode_utf8(self.body@).len());
            assert(length@ =~= decimal_digits(encode_utf8(self.body@).len()));
        }
        ascii_text(length.as_slice())
    }
}

/// The text of a response, which is UTF-8, or `Utf8` where it is not.
pub fn decode_response(bytes: &[u8]) -> (text: Result<String, RequestError>)
    ensures
        match text {
            Ok(decoded) => valid_utf8(bytes@) && decoded@ == decode_utf8(bytes@),
            Err(error) => !valid_utf8(bytes@) && error == RequestError::Utf8,
        },
{
    match decode_text(bytes) {
        Some(decoded) => Ok(decoded),
        None => Err(RequestError::Utf8),
    }
}

impl Gateway {
    /// The URL at which the service is controlled.
    pub fn control_address(&self) -> (url: String)
        ensures
            url@ == url_text(self.addr, self.control_url@),
    {
        format_url(self.addr, self.control_url.as_str())
    }

    /// The request that invokes the action `name` with the envelope `body`:
    /// it goes to the URL at which the service is controlled, and names the
    /// action in its header.
    pub fn action_request(&self, name: &str, body: &str) -> (request: HttpRequest)
        ensures
            request@ == soap_request_view(
                url_text(self.addr, self.control_url@),
                action_header(name@),
                body@,
            ),
    {
        let url = self.control_address();
        let mut header = String::from_str("\"");
        header.append(WAN_IP_CONNECTION_1);
        header.append("#");
        header.append(name);
        header.append("\"");
        soap_request(url.as_str(), header.as_str(), body)
    }
}

} // verus!
