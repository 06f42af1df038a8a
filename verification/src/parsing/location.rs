//! The reply to a search: a text of header lines, one of which says where the
//! responder's description is to be fetched.

use vstd::prelude::*;
use vstd::slice::slice_subrange;
use vstd::string::StringSliceAdditionalSpecFns;
use vstd::utf8::{decode_utf8, valid_utf8};
use crate::addr::{IpAddress, SocketAddress};
use crate::errors::ParseError;
use crate::text::{
    decimal_value, decode_text, find_first, first_of, is_blank, is_decimal, lemma_first_of, lower,
    parse_decimal,
};

verus! {

/// The name of the location header with its colon, in lower case.
pub open spec fn location_name() -> Seq<u8> {
    seq![0x6cu8, 0x6f, 0x63, 0x61, 0x74, 0x69, 0x6f, 0x6e, 0x3a]
}

/// The scheme that a location begins with, in lower case: `http://`.
pub open spec fn location_scheme() -> Seq<u8> {
    seq![0x68u8, 0x74, 0x74, 0x70, 0x3a, 0x2f, 0x2f]
}

/// The port of a location that names none.
pub const DEFAULT_PORT: u16 = 80;

/// The first place in `bytes[from..to]` that holds no blank; `to` if all are blank.
pub open spec fn skip_blank(bytes: Seq<u8>, from: int, to: int) -> int
    decreases to - from,
{
    if from < to && is_blank(bytes[from]) {
        skip_blank(bytes, from + 1, to)
    } else {
        from
    }
}

/// The place behind the last byte of `bytes[from..to]` that is no blank;
/// `from` if all are blank.
pub open spec fn drop_blank(bytes: Seq<u8>, from: int, to: int) -> int
    decreases to - from,
{
    if from < to && is_blank(bytes[to - 1]) {
        drop_blank(bytes, from, to - 1)
    } else {
        to
    }
}

/// Whether `bytes[at..]` begins with `pattern`, letters compared without
/// regard to case. `pattern` is in lower case.
pub open spec fn begins_with(bytes: Seq<u8>, at: int, to: int, pattern: Seq<u8>) -> bool {
    &&& at + pattern.len() <= to
    &&& forall|k: int| 0 <= k < pattern.len() ==> lower(#[trigger] bytes[at + k]) == pattern[k]
}

/// The place where the line that begins at `from` ends: that of the next
/// line feed, or the end of the text.
pub open spec fn line_end(text: Seq<u8>, from: int) -> int {
    first_of(text, from, text.len() as int, 0x0a, 0x0a, 0x0a)
}

/// The value of the first location header among the lines of `text` from
/// `from` on, without the blanks around it. A line is a location header if,
/// after the blanks in front of it, it begins with the header's name and a colon.
pub open spec fn location_value(text: Seq<u8>, from: int) -> Option<Seq<u8>>
    decreases text.len() - from,
{
    if from < 0 || from >= text.len() {
        None
    } else {
        let end = line_end(text, from);
        let start = skip_blank(text, from, end);
        let stop = drop_blank(text, start, end);
        if begins_with(text, start, stop, location_name()) {
            let value_start = skip_blank(text, start + 9, stop);
            Some(text.subrange(value_start, drop_blank(text, value_start, stop)))
        } else if end < text.len() {
            proof {
                lemma_first_of(text, from, text.len() as int, 0x0a, 0x0a, 0x0a);
            }
            location_value(text, end + 1)
        } else {
            None
        }
    }
}

/// The byte that `digits` write as a decimal number, if they write one.
pub open spec fn octet_of(digits: Seq<u8>) -> Option<u8> {
    if is_decimal(digits) && decimal_value(digits) <= 255 {
        Some(decimal_value(digits) as u8)
    } else {
        None
    }
}

/// The port that `digits` write as a decimal number, if they write one.
pub open spec fn port_of(digits: Seq<u8>) -> Option<u16> {
    if is_decimal(digits) && decimal_value(digits) <= 65535 {
        Some(decimal_value(digits) as u16)
    } else {
        None
    }
}

/// The IPv4 address that `host` writes in dotted decimal, if it writes one:
/// four numbers up to 255 with a dot between them, none with a zero in front.
pub open spec fn ipv4_of(host: Seq<u8>) -> Option<IpAddress> {
    let n = host.len() as int;
    let first = first_of(host, 0, n, 0x2e, 0x2e, 0x2e);
    let second = first_of(host, first + 1, n, 0x2e, 0x2e, 0x2e);
    let third = first_of(host, second + 1, n, 0x2e, 0x2e, 0x2e);
    if third < n {
        match (
            octet_of(host.subrange(0, first)),
            octet_of(host.subrange(first + 1, second)),
            octet_of(host.subrange(second + 1, third)),
            octet_of(host.subrange(third + 1, n)),
        ) {
            (Some(a), Some(b), Some(c), Some(d)) => Some(IpAddress::V4(a, b, c, d)),
            _ => None,
        }
    } else {
        None
    }
}

/// The place in `value` where the host and port end: that of the first
/// `/`, `?` or `#` behind the scheme, or the end.
pub open spec fn authority_end(value: Seq<u8>) -> int {
    first_of(value, 7, value.len() as int, 0x2f, 0x3f, 0x23)
}

/// The address that a location names: the host, which is an IPv4 address, and
/// the port behind the colon, or 80 where there is no colon.
pub open spec fn location_address(value: Seq<u8>) -> Option<SocketAddress> {
    let end = authority_end(value);
    let colon = first_of(value, 7, end, 0x3a, 0x3a, 0x3a);
    let port = if colon < end {
        port_of(value.subrange(colon + 1, end))
    } else {
        Some(DEFAULT_PORT)
    };
    match (ipv4_of(value.subrange(7, colon)), port) {
        (Some(ip), Some(port)) => Some(SocketAddress { ip, port }),
        _ => None,
    }
}

/// The path that a location names, as bytes: from the `/` behind the host and
/// port up to the first `?` or `#`, or `/` alone where no path is written.
pub open spec fn location_path(value: Seq<u8>) -> Seq<u8> {
    let n = value.len() as int;
    let end = authority_end(value);
    if end < n && value[end] == 0x2f {
        value.subrange(end, first_of(value, end, n, 0x3f, 0x23, 0x23))
    } else {
        seq![0x2fu8]
    }
}

/// The address and the path that the value of a location header names, if it
/// is of the form `http://<host>[:<port>]<path>`.
pub open spec fn location_target(value: Seq<u8>) -> Option<(SocketAddress, Seq<char>)> {
    if begins_with(value, 0, value.len() as int, location_scheme()) && valid_utf8(
        location_path(value),
    ) {
        match location_address(value) {
            Some(address) => Some((address, decode_utf8(location_path(value)))),
            None => None,
        }
    } else {
        None
    }
}

/// What a reply to a search says: the responder's address and the path of its
/// description, taken from the first location header.
pub open spec fn search_result(text: Seq<u8>) -> Result<(SocketAddress, Seq<char>), ParseError> {
    match location_value(text, 0) {
        None => Err(ParseError::MissingLocation),
        Some(value) => match location_target(value) {
            Some(target) => Ok(target),
            None => Err(ParseError::InvalidAddress),
        },
    }
}

fn skip_blanks(bytes: &[u8], from: usize, to: usize) -> (at: usize)
    requires
        from <= to <= bytes@.len(),
    ensures
        at == skip_blank(bytes@, from as int, to as int),
        from <= at <= to,
{
    let mut index: usize = from;
    while index < to && is_blank_byte(bytes[index])
        invariant
            from <= index <= to <= bytes@.len(),
            skip_blank(bytes@, from as int, to as int) == skip_blank(bytes@, index as int, to as int),
        decreases to - index,
    {
        index = index + 1;
    }
    index
}

fn drop_blanks(bytes: &[u8], from: usize, to: usize) -> (at: usize)
    requires
        from <= to <= bytes@.len(),
    ensures
        at == drop_blank(bytes@, from as int, to as int),
        from <= at <= to,
{
    let mut index: usize = to;
    while from < index && is_blank_byte(bytes[index - 1])
        invariant
            from <= index <= to <= bytes@.len(),
            drop_blank(bytes@, from as int, to as int) == drop_blank(bytes@, from as int, index as int),
        decreases index - from,
    {
        index = index - 1;
    }
    index
}

fn is_blank_byte(byte: u8) -> (blank: bool)
    ensures
        blank == is_blank(byte),
{
    byte == 0x20 || (0x09 <= byte && byte <= 0x0d)
}

fn lower_byte(byte: u8) -> (low: u8)
    ensures
        low == lower(byte),
{
    if 0x41 <= byte && byte <= 0x5a {
        byte + 0x20
    } else {
        byte
    }
}

fn begins_with_pattern(bytes: &[u8], at: usize, to: usize, pattern: &[u8]) -> (found: bool)
    requires
        at <= to <= bytes@.len(),
    ensures
        found == begins_with(bytes@, at as int, to as int, pattern@),
{
    if pattern.len() > to - at {
        return false;
    }
    let mut k: usize = 0;
    while k < pattern.len()
        invariant
            at + pattern@.len() <= to <= bytes@.len(),
            k <= pattern@.len(),
            forall|j: int| 0 <= j < k ==> lower(#[trigger] bytes@[at + j]) == pattern@[j],
        decreases pattern@.len() - k,
    {
        if lower_byte(bytes[at + k]) != pattern[k] {
            return false;
        }
        k = k + 1;
    }
    true
}

fn parse_octet(digits: &[u8]) -> (octet: Option<u8>)
    ensures
        octet == octet_of(digits@),
{
    match parse_decimal(digits, 255) {
        Some(value) => Some(value as u8),
        None => None,
    }
}

fn parse_port(digits: &[u8]) -> (port: Option<u16>)
    ensures
        port == port_of(digits@),
{
    match parse_decimal(digits, 65535) {
        Some(value) => Some(value as u16),
        None => None,
    }
}

/// Reads an IPv4 address in dotted decimal.
pub fn parse_ipv4(host: &[u8]) -> (ip: Option<IpAddress>)
    ensures
        ip == ipv4_of(host@),
{
    let n: usize = host.len();
    let first: usize = find_first(host, 0, n, 0x2e, 0x2e, 0x2e);
    if first >= n {
        return None;
    }
    let second: usize = find_first(host, first + 1, n, 0x2e, 0x2e, 0x2e);
    if second >= n {
        return None;
    }
    let third: usize = find_first(host, second + 1, n, 0x2e, 0x2e, 0x2e);
    if third >= n {
        return None;
    }
    let a = parse_octet(slice_subrange(host, 0, first));
    let b = parse_octet(slice_subrange(host, first + 1, second));
    let c = parse_octet(slice_subrange(host, second + 1, third));
    let d = parse_octet(slice_subrange(host, third + 1, n));
    match (a, b, c, d) {
        (Some(a), Some(b), Some(c), Some(d)) => Some(IpAddress::V4(a, b, c, d)),
        _ => None,
    }
}

/// Reads the value of a location header.
pub fn parse_location(value: &[u8]) -> (target: Option<(SocketAddress, String)>)
    ensures
        match target {
            Some((address, path)) => location_target(value@) == Some((address, path@)),
            None => location_target(value@) is None,
        },
{
    let n: usize = value.len();
    let scheme: [u8; 7] = [0x68, 0x74, 0x74, 0x70, 0x3a, 0x2f, 0x2f];
    assert(scheme@ =~= location_scheme());
    if !begins_with_pattern(value, 0, n, scheme.as_slice()) {
        return None;
    }
    let end: usize = find_first(value, 7, n, 0x2f, 0x3f, 0x23);
    let colon: usize = find_first(value, 7, end, 0x3a, 0x3a, 0x3a);
    let port = if colon < end {
        parse_port(slice_subrange(value, colon + 1, end))
    } else {
        Some(DEFAULT_PORT)
    };
    let ip = parse_ipv4(slice_subrange(value, 7, colon));
    let path = if end < n && value[end] == 0x2f {
        let path_end: usize = find_first(value, end, n, 0x3f, 0x23, 0x23);
        decode_text(slice_subrange(value, end, path_end))
    } else {
        let root: [u8; 1] = [0x2f];
        assert(root@ =~= seq![0x2fu8]);
        decode_text(root.as_slice())
    };
    match (ip, port, path) {
        (Some(ip), Some(port), Some(path)) => Some((SocketAddress { ip, port }, path)),
        _ => None,
    }
}

/// Reads the reply to a search: the responder's address and the path of its
/// description, from the first location header. The header's name is matched
/// without regard to case.
pub fn parse_search_result(text: &str) -> (result: Result<(SocketAddress, String), ParseError>)
    ensures
        match result {
            Ok((address, path)) => search_result(text.spec_bytes()) == Ok::<
                (SocketAddress, Seq<char>),
                ParseError,
            >((address, path@)),
            Err(error) => search_result(text.spec_bytes()) == Err::<
                (SocketAddress, Seq<char>),
                ParseError,
            >(error),
        },
{
    let bytes = text.as_bytes();
    let n: usize = bytes.len();
    let name: [u8; 9] = [0x6c, 0x6f, 0x63, 0x61, 0x74, 0x69, 0x6f, 0x6e, 0x3a];
    assert(name@ =~= location_name());
    let mut from: usize = 0;
    while from < n
        invariant
            n == bytes@.len(),
            bytes@ == text.spec_bytes(),
            from <= n,
            name@ == location_name(),
            location_value(bytes@, 0) == location_value(bytes@, from as int),
        decreases n - from,
    {
        let end: usize = find_first(bytes, from, n, 0x0a, 0x0a, 0x0a);
        let start: usize = skip_blanks(bytes, from, end);
        let stop: usize = drop_blanks(bytes, start, end);
        if begins_with_pattern(bytes, start, stop, name.as_slice()) {
            let value_start: usize = skip_blanks(bytes, start + 9, stop);
            let value_stop: usize = drop_blanks(bytes, value_start, stop);
            return match parse_location(slice_subrange(bytes, value_start, value_stop)) {
                Some(target) => Ok(target),
                None => Err(ParseError::InvalidAddress),
            };
        }
        if end >= n {
            return Err(ParseError::MissingLocation);
        }
        from = end + 1;
    }
    Err(ParseError::MissingLocation)
}

} // verus!
