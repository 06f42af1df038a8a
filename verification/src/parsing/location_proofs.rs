//! What is proved of the reading of replies: an address that is written
//! into a location is read back from it.

use vstd::prelude::*;
use vstd::utf8::{decode_utf8, encode_utf8, encode_utf8_decode_utf8, valid_utf8};
use crate::addr::{address_text, ipv4_text, IpAddress, SocketAddress};
use crate::errors::ParseError;
use crate::gateway::{lemma_address_text_ascii, url_text};
use crate::parsing::location::{
    authority_end, begins_with, drop_blank, ipv4_of, line_end, location_address, location_name,
    location_path, location_scheme, location_target, location_value, octet_of, port_of,
    search_result, skip_blank,
};
use crate::text::{
    all_ascii, ascii_chars, decimal_digits, is_blank, is_digit, lemma_ascii_encoding,
    lemma_decimal_digits, lemma_first_of, lemma_first_of_is, lower,
};

verus! {

/// What `skip_blank` finds: all before it is blank, and the byte at it is
/// not, unless it is `to`.
pub proof fn lemma_skip_blank(bytes: Seq<u8>, from: int, to: int)
    requires
        from <= to,
    ensures
        from <= skip_blank(bytes, from, to) <= to,
        forall|i: int| from <= i < skip_blank(bytes, from, to) ==> is_blank(#[trigger] bytes[i]),
        skip_blank(bytes, from, to) < to ==> !is_blank(bytes[skip_blank(bytes, from, to)]),
    decreases to - from,
{
    if from < to && is_blank(bytes[from]) {
        lemma_skip_blank(bytes, from + 1, to);
    }
}

/// A place with only blanks before it, and with a byte at it that is not
/// blank unless it is `to`, is the place that `skip_blank` finds.
pub proof fn lemma_skip_blank_is(bytes: Seq<u8>, from: int, to: int, at: int)
    requires
        from <= at <= to,
        forall|i: int| from <= i < at ==> is_blank(#[trigger] bytes[i]),
        at < to ==> !is_blank(bytes[at]),
    ensures
        skip_blank(bytes, from, to) == at,
    decreases at - from,
{
    if from < at {
        assert(is_blank(bytes[from]));
        lemma_skip_blank_is(bytes, from + 1, to, at);
    }
}

/// What `drop_blank` finds: all from it on is blank, and the byte before it
/// is not, unless it is `from`.
pub proof fn lemma_drop_blank(bytes: Seq<u8>, from: int, to: int)
    requires
        from <= to,
    ensures
        from <= drop_blank(bytes, from, to) <= to,
        forall|i: int| drop_blank(bytes, from, to) <= i < to ==> is_blank(#[trigger] bytes[i]),
        from < drop_blank(bytes, from, to) ==> !is_blank(bytes[drop_blank(bytes, from, to) - 1]),
    decreases to - from,
{
    if from < to && is_blank(bytes[to - 1]) {
        lemma_drop_blank(bytes, from, to - 1);
    }
}

/// A place with only blanks from it on, and with a byte before it that is
/// not blank unless it is `from`, is the place that `drop_blank` finds.
pub proof fn lemma_drop_blank_is(bytes: Seq<u8>, from: int, to: int, at: int)
    requires
        from <= at <= to,
        forall|i: int| at <= i < to ==> is_blank(#[trigger] bytes[i]),
        from < at ==> !is_blank(bytes[at - 1]),
    ensures
        drop_blank(bytes, from, to) == at,
    decreases to - at,
{
    if at < to {
        assert(is_blank(bytes[to - 1]));
        lemma_drop_blank_is(bytes, from, to - 1, at);
    }
}

/// The digits of a decimal number are digits, and at least one.
pub proof fn lemma_digits(n: nat)
    ensures
        decimal_digits(n).len() >= 1,
        forall|i: int| 0 <= i < decimal_digits(n).len() ==> is_digit(#[trigger] decimal_digits(n)[i]),
{
    lemma_decimal_digits(n);
}

/// An IPv4 address that is written in dotted decimal is read back from it.
pub proof fn lemma_ipv4_round_trip(a: u8, b: u8, c: u8, d: u8)
    ensures
        ipv4_of(ipv4_text(a, b, c, d)) == Some(IpAddress::V4(a, b, c, d)),
        ipv4_text(a, b, c, d).len() >= 7,
        forall|i: int|
            0 <= i < ipv4_text(a, b, c, d).len() ==> is_digit(#[trigger] ipv4_text(a, b, c, d)[i])
                || ipv4_text(a, b, c, d)[i] == 0x2e,
{
    let da = decimal_digits(a as nat);
    let db = decimal_digits(b as nat);
    let dc = decimal_digits(c as nat);
    let dd = decimal_digits(d as nat);
    lemma_digits(a as nat);
    lemma_digits(b as nat);
    lemma_digits(c as nat);
    lemma_digits(d as nat);
    lemma_decimal_digits(a as nat);
    lemma_decimal_digits(b as nat);
    lemma_decimal_digits(c as nat);
    lemma_decimal_digits(d as nat);
    let host = ipv4_text(a, b, c, d);
    let n = host.len() as int;
    let first = da.len() as int;
    let second = first + 1 + db.len();
    let third = second + 1 + dc.len();
    assert(n == third + 1 + dd.len());
    assert forall|i: int| 0 <= i < n implies is_digit(#[trigger] host[i]) || host[i] == 0x2e by {
        if i < first {
            assert(host[i] == da[i]);
        } else if i == first {
        } else if i < second {
            assert(host[i] == db[i - first - 1]);
        } else if i == second {
        } else if i < third {
            assert(host[i] == dc[i - second - 1]);
        } else if i == third {
        } else {
            assert(host[i] == dd[i - third - 1]);
        }
    }
    assert forall|i: int| 0 <= i < first implies #[trigger] host[i] != 0x2e by {
        assert(host[i] == da[i]);
        assert(is_digit(da[i]));
    }
    assert(host[first] == 0x2e);
    lemma_first_of_is(host, 0, n, 0x2e, 0x2e, 0x2e, first);
    assert forall|i: int| first + 1 <= i < second implies #[trigger] host[i] != 0x2e by {
        assert(host[i] == db[i - first - 1]);
        assert(is_digit(db[i - first - 1]));
    }
    assert(host[second] == 0x2e);
    lemma_first_of_is(host, first + 1, n, 0x2e, 0x2e, 0x2e, second);
    assert forall|i: int| second + 1 <= i < third implies #[trigger] host[i] != 0x2e by {
        assert(host[i] == dc[i - second - 1]);
        assert(is_digit(dc[i - second - 1]));
    }
    assert(host[third] == 0x2e);
    lemma_first_of_is(host, second + 1, n, 0x2e, 0x2e, 0x2e, third);
    assert(host.subrange(0, first) =~= da);
    assert(host.subrange(first + 1, second) =~= db);
    assert(host.subrange(second + 1, third) =~= dc);
    assert(host.subrange(third + 1, n) =~= dd);
    assert(octet_of(da) == Some(a));
    assert(octet_of(db) == Some(b));
    assert(octet_of(dc) == Some(c));
    assert(octet_of(dd) == Some(d));
}

/// Whether `path` can stand in a location as it is: it begins with `/`,
/// holds no `?`, no `#` and no line feed, does not end in a blank, and is
/// valid UTF-8.
pub open spec fn is_plain_path(path: Seq<u8>) -> bool {
    &&& path.len() > 0
    &&& path[0] == 0x2f
    &&& forall|i: int|
        0 <= i < path.len() ==> #[trigger] path[i] != 0x3f && path[i] != 0x23 && path[i] != 0x0a
    &&& !is_blank(path.last())
    &&& valid_utf8(path)
}

/// The location that names the description at `path` on the host at `address`.
pub open spec fn location_text(address: SocketAddress, path: Seq<u8>) -> Seq<u8> {
    location_scheme() + address_text(address) + path
}

/// The address and the path that are written into a location are read back
/// from it.
pub proof fn lemma_location_round_trip(address: SocketAddress, path: Seq<u8>)
    requires
        address.ip is V4,
        is_plain_path(path),
    ensures
        location_target(location_text(address, path)) == Some((address, decode_utf8(path))),
{
    let value = location_text(address, path);
    let n = value.len() as int;
    let (a, b, c, d) = match address.ip {
        IpAddress::V4(a, b, c, d) => (a, b, c, d),
        _ => (0u8, 0u8, 0u8, 0u8),
    };
    let host = ipv4_text(a, b, c, d);
    let port = decimal_digits(address.port as nat);
    lemma_ipv4_round_trip(a, b, c, d);
    lemma_digits(address.port as nat);
    lemma_decimal_digits(address.port as nat);
    let colon = 7 + host.len() as int;
    let end = colon + 1 + port.len();
    assert(address_text(address) =~= host + seq![0x3au8] + port);
    assert(n == end + path.len());
    assert forall|k: int| 0 <= k < 7 implies lower(#[trigger] value[0 + k]) == location_scheme()[k] by {
        assert(value[k] == location_scheme()[k]);
    }
    assert(begins_with(value, 0, n, location_scheme()));
    assert forall|i: int| 7 <= i < colon implies is_digit(#[trigger] value[i]) || value[i] == 0x2e by {
        assert(value[i] == host[i - 7]);
    }
    assert(value[colon] == 0x3a);
    assert forall|i: int| colon < i < end implies is_digit(#[trigger] value[i]) by {
        assert(value[i] == port[i - colon - 1]);
    }
    assert forall|i: int| end <= i < n implies #[trigger] value[i] == path[i - end] by {}
    assert(value[end] == path[0]);
    assert forall|i: int| 7 <= i < end implies #[trigger] value[i] != 0x2f && value[i] != 0x3f
        && value[i] != 0x23 by {
        if i < colon {
            assert(is_digit(value[i]) || value[i] == 0x2e);
        } else if i > colon {
            assert(is_digit(value[i]));
        }
    }
    lemma_first_of_is(value, 7, n, 0x2f, 0x3f, 0x23, end);
    assert(authority_end(value) == end);
    assert forall|i: int| 7 <= i < colon implies #[trigger] value[i] != 0x3a by {
        assert(is_digit(value[i]) || value[i] == 0x2e);
    }
    lemma_first_of_is(value, 7, end, 0x3a, 0x3a, 0x3a, colon);
    assert(value.subrange(7, colon) =~= host);
    assert(value.subrange(colon + 1, end) =~= port);
    assert(port_of(port) == Some(address.port));
    assert(location_address(value) == Some(address));
    assert forall|i: int| end <= i < n implies #[trigger] value[i] != 0x3f && value[i] != 0x23 by {
        assert(value[i] == path[i - end]);
    }
    lemma_first_of_is(value, end, n, 0x3f, 0x23, 0x23, n);
    assert(value.subrange(end, n) =~= path);
    assert(location_path(value) == path);
}

/// Whether `name` is the name of the location header with its colon, in
/// upper or lower case or a mixture of them.
pub open spec fn is_location_name(name: Seq<u8>) -> bool {
    &&& name.len() == 9
    &&& forall|k: int| 0 <= k < 9 ==> lower(#[trigger] name[k]) == location_name()[k]
}

/// Whether `blanks` holds nothing but spaces and tabs.
pub open spec fn is_padding(blanks: Seq<u8>) -> bool {
    forall|i: int| 0 <= i < blanks.len() ==> #[trigger] blanks[i] == 0x20 || blanks[i] == 0x09
}

/// Whether `tail` can follow a line: it is empty, or begins with a line
/// feed, alone or behind a carriage return.
pub open spec fn is_line_break(tail: Seq<u8>) -> bool {
    ||| tail.len() == 0
    ||| tail[0] == 0x0a
    ||| (tail.len() >= 2 && tail[0] == 0x0d && tail[1] == 0x0a)
}

/// Whether `value` can stand as the value of a header: it is not empty,
/// holds no line feed, and neither begins nor ends with a blank.
pub open spec fn is_header_value(value: Seq<u8>) -> bool {
    &&& value.len() > 0
    &&& forall|i: int| 0 <= i < value.len() ==> #[trigger] value[i] != 0x0a
    &&& !is_blank(value[0])
    &&& !is_blank(value.last())
}

/// A line that is made of the name of the location header, padding and a
/// value is read as a location header with that value.
pub proof fn lemma_header_line(
    before: Seq<u8>,
    name: Seq<u8>,
    blanks: Seq<u8>,
    value: Seq<u8>,
    tail: Seq<u8>,
)
    requires
        is_location_name(name),
        is_padding(blanks),
        is_header_value(value),
        is_line_break(tail),
    ensures
        location_value(before + name + blanks + value + tail, before.len() as int) == Some(value),
{
    let text = before + name + blanks + value + tail;
    let from = before.len() as int;
    let name_end = from + 9;
    let value_start = name_end + blanks.len();
    let value_end = value_start + value.len();
    let end = if tail.len() > 0 && tail[0] == 0x0d {
        value_end + 1
    } else {
        value_end
    };
    let n = text.len() as int;
    assert(n == value_end + tail.len());
    assert forall|i: int| from <= i < name_end implies #[trigger] text[i] == name[i - from] by {}
    assert forall|i: int| name_end <= i < value_start implies #[trigger] text[i] == blanks[i - name_end] by {}
    assert forall|i: int| value_start <= i < value_end implies #[trigger] text[i] == value[i - value_start] by {}
    assert forall|i: int| value_end <= i < n implies #[trigger] text[i] == tail[i - value_end] by {}
    assert forall|i: int| from <= i < end implies #[trigger] text[i] != 0x0a by {
        if i < name_end {
            assert(lower(name[i - from]) == location_name()[i - from]);
        } else if i < value_start {
            assert(blanks[i - name_end] == 0x20 || blanks[i - name_end] == 0x09);
        } else if i < value_end {
            assert(value[i - value_start] != 0x0a);
        } else {
            assert(text[i] == tail[0]);
        }
    }
    assert(end < n ==> text[end] == 0x0a) by {
        if end < n {
            if tail[0] == 0x0d {
                assert(text[end] == tail[1]);
            } else {
                assert(text[end] == tail[0]);
            }
        }
    }
    lemma_first_of_is(text, from, n, 0x0a, 0x0a, 0x0a, end);
    assert(line_end(text, from) == end);
    assert(!is_blank(text[from])) by {
        assert(lower(name[0]) == location_name()[0]);
    }
    lemma_skip_blank_is(text, from, end, from);
    assert forall|i: int| value_end <= i < end implies is_blank(#[trigger] text[i]) by {
        assert(text[i] == tail[0]);
    }
    assert(text[value_end - 1] == value.last());
    lemma_drop_blank_is(text, from, end, value_end);
    assert forall|k: int| 0 <= k < 9 implies lower(#[trigger] text[from + k]) == location_name()[k] by {
        assert(text[from + k] == name[k]);
    }
    assert(begins_with(text, from, value_end, location_name()));
    assert forall|i: int| name_end <= i < value_start implies is_blank(#[trigger] text[i]) by {
        assert(blanks[i - name_end] == 0x20 || blanks[i - name_end] == 0x09);
    }
    assert(text[value_start] == value[0]);
    lemma_skip_blank_is(text, name_end, value_end, value_start);
    lemma_drop_blank_is(text, value_start, value_end, value_end);
    assert(text.subrange(value_start, value_end) =~= value);
}

/// The lines of `head`, which are complete and hold no location header, do
/// not matter to what follows them: the search for the header goes on
/// behind them.
pub proof fn lemma_lines_before(head: Seq<u8>, rest: Seq<u8>, from: int)
    requires
        0 <= from <= head.len(),
        head.len() == 0 || head.last() == 0x0a,
        location_value(head, from) is None,
    ensures
        location_value(head + rest, from) == location_value(head + rest, head.len() as int),
    decreases head.len() - from,
{
    let text = head + rest;
    let m = head.len() as int;
    if from < m {
        assert forall|i: int| 0 <= i < m implies #[trigger] text[i] == head[i] by {}
        let end = line_end(head, from);
        lemma_first_of(head, from, m, 0x0a, 0x0a, 0x0a);
        assert(end < m) by {
            if end == m {
                assert(head[m - 1] != 0x0a);
            }
        }
        assert forall|i: int| from <= i < end implies #[trigger] text[i] != 0x0a by {
            assert(head[i] != 0x0a);
        }
        assert(text[end] == head[end]);
        lemma_first_of_is(text, from, text.len() as int, 0x0a, 0x0a, 0x0a, end);
        let start = skip_blank(head, from, end);
        lemma_skip_blank(head, from, end);
        assert forall|i: int| from <= i < start implies is_blank(#[trigger] text[i]) by {
            assert(is_blank(head[i]));
        }
        assert(start < end ==> text[start] == head[start]);
        lemma_skip_blank_is(text, from, end, start);
        let stop = drop_blank(head, start, end);
        lemma_drop_blank(head, start, end);
        assert forall|i: int| stop <= i < end implies is_blank(#[trigger] text[i]) by {
            assert(is_blank(head[i]));
        }
        assert(start < stop ==> text[stop - 1] == head[stop - 1]);
        lemma_drop_blank_is(text, start, end, stop);
        assert(begins_with(text, start, stop, location_name()) == begins_with(
            head,
            start,
            stop,
            location_name(),
        )) by {
            let pattern = location_name();
            if begins_with(head, start, stop, pattern) {
                assert forall|k: int| 0 <= k < pattern.len() implies lower(
                    #[trigger] text[start + k],
                ) == pattern[k] by {
                    assert(text[start + k] == head[start + k]);
                }
            }
            if begins_with(text, start, stop, pattern) {
                assert forall|k: int| 0 <= k < pattern.len() implies lower(
                    #[trigger] head[start + k],
                ) == pattern[k] by {
                    assert(text[start + k] == head[start + k]);
                }
            }
        }
        assert(!begins_with(head, start, stop, location_name()));
        assert(location_value(head, end + 1) is None);
        lemma_lines_before(head, rest, end + 1);
    }
}

/// A reply is read as the address and the path that its first location
/// header names.
///
/// The reply is made of `head`, which holds complete lines and no location
/// header; then the header: its name in any case, padding, and the location
/// that names `path` on the host at `address`; then `tail`, which is empty or
/// begins with the end of the header's line.
pub proof fn lemma_reply_round_trip(
    head: Seq<u8>,
    name: Seq<u8>,
    blanks: Seq<u8>,
    address: SocketAddress,
    path: Seq<u8>,
    tail: Seq<u8>,
)
    requires
        head.len() == 0 || head.last() == 0x0a,
        location_value(head, 0) is None,
        is_location_name(name),
        is_padding(blanks),
        address.ip is V4,
        is_plain_path(path),
        is_line_break(tail),
    ensures
        search_result(head + name + blanks + location_text(address, path) + tail) == Ok::<
            (SocketAddress, Seq<char>),
            ParseError,
        >((address, decode_utf8(path))),
{
    let value = location_text(address, path);
    let rest = name + blanks + value + tail;
    let text = head + name + blanks + value + tail;
    assert(text =~= head + rest);
    lemma_location_round_trip(address, path);
    let (a, b, c, d) = match address.ip {
        IpAddress::V4(a, b, c, d) => (a, b, c, d),
        _ => (0u8, 0u8, 0u8, 0u8),
    };
    lemma_ipv4_round_trip(a, b, c, d);
    lemma_digits(address.port as nat);
    let host = ipv4_text(a, b, c, d);
    let port = decimal_digits(address.port as nat);
    assert(address_text(address) =~= host + seq![0x3au8] + port);
    assert(is_header_value(value)) by {
        let colon = 7 + host.len() as int;
        let end = colon + 1 + port.len();
        assert(value.len() == end + path.len());
        assert forall|i: int| 0 <= i < value.len() implies #[trigger] value[i] != 0x0a by {
            if i < 7 {
                assert(value[i] == location_scheme()[i]);
            } else if i < colon {
                assert(value[i] == host[i - 7]);
                assert(is_digit(host[i - 7]) || host[i - 7] == 0x2e);
            } else if i == colon {
                assert(value[i] == 0x3a);
            } else if i < end {
                assert(value[i] == port[i - colon - 1]);
                assert(is_digit(port[i - colon - 1]));
            } else {
                assert(value[i] == path[i - end]);
            }
        }
        assert(value[0] == location_scheme()[0]);
        assert(value.last() == path.last());
    }
    lemma_header_line(head, name, blanks, value, tail);
    lemma_lines_before(head, rest, 0);
}

/// The encoding of two texts in a row is the encoding of the first followed
/// by that of the second.
pub proof fn lemma_encoding_of_joined(first: Seq<char>, second: Seq<char>)
    ensures
        encode_utf8(first + second) == encode_utf8(first) + encode_utf8(second),
    decreases first.len(),
{
    if first.len() == 0 {
        assert(first + second =~= second);
        assert(encode_utf8(first) + encode_utf8(second) =~= encode_utf8(second));
    } else {
        lemma_encoding_of_joined(first.drop_first(), second);
        assert((first + second).drop_first() =~= first.drop_first() + second);
        assert((first + second)[0] == first[0]);
        assert(encode_utf8(first + second) =~= encode_utf8(first) + encode_utf8(second));
    }
}

/// The URL that is written for an address and a path is, as bytes, the
/// location that names them.
pub proof fn lemma_url_is_location(address: SocketAddress, path: Seq<char>)
    ensures
        encode_utf8(url_text(address, path)) == location_text(address, encode_utf8(path)),
{
    reveal_strlit("http://");
    let scheme = "http://"@;
    assert(scheme =~= ascii_chars(location_scheme()));
    assert(all_ascii(location_scheme()));
    lemma_ascii_encoding(location_scheme());
    lemma_address_text_ascii(address);
    lemma_ascii_encoding(address_text(address));
    let host = ascii_chars(address_text(address));
    lemma_encoding_of_joined(scheme + host, path);
    lemma_encoding_of_joined(scheme, host);
}

/// The URL that is written for an address and a path is read back as that
/// address and that path.
pub proof fn lemma_url_round_trip(address: SocketAddress, path: Seq<char>)
    requires
        address.ip is V4,
        is_plain_path(encode_utf8(path)),
    ensures
        location_target(encode_utf8(url_text(address, path))) == Some((address, path)),
{
    lemma_url_is_location(address, path);
    lemma_location_round_trip(address, encode_utf8(path));
    encode_utf8_decode_utf8(path);
}

/// A reply without a location header is refused as `MissingLocation`.
pub proof fn lemma_reply_without_location(text: Seq<u8>)
    requires
        location_value(text, 0) is None,
    ensures
        search_result(text) == Err::<(SocketAddress, Seq<char>), ParseError>(
            ParseError::MissingLocation,
        ),
{
}

} // verus!
