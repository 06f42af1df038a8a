//! Addresses as plain values, and the way they are written in a URL.

use vstd::prelude::*;
use crate::text::{decimal_digits, push_decimal};

verus! {

/// An IP address: the four bytes of an IPv4 address, or the eight groups of
/// an IPv6 address.
#[derive(Debug, Clone, Copy, PartialEq, Eq, Structural)]
pub enum IpAddress {
    /// An IPv4 address, first byte first.
    V4(u8, u8, u8, u8),
    /// An IPv6 address, first group first.
    V6(u16, u16, u16, u16, u16, u16, u16, u16),
}

/// An IP address and a port.
#[derive(Debug, Clone, Copy, PartialEq, Eq, Structural)]
pub struct SocketAddress {
    /// The address.
    pub ip: IpAddress,
    /// The port.
    pub port: u16,
}

/// The kind of address that is asked for.
#[derive(Debug, Clone, Copy, PartialEq, Eq, Structural)]
pub enum AddrType {
    /// An IPv4 address.
    IPv4,
    /// An IPv6 address.
    IPv6,
    /// Either of the two.
    Either,
}

/// Whether `ip` is of the kind `wanted`.
pub open spec fn is_of_type(ip: IpAddress, wanted: AddrType) -> bool {
    match ip {
        IpAddress::V4(..) => wanted == AddrType::IPv4 || wanted == AddrType::Either,
        IpAddress::V6(..) => wanted == AddrType::IPv6 || wanted == AddrType::Either,
    }
}

/// The first of `candidates` that is of the kind `wanted`.
pub open spec fn first_of_type(candidates: Seq<IpAddress>, wanted: AddrType) -> Option<IpAddress>
    decreases candidates.len(),
{
    if candidates.len() == 0 {
        None
    } else if is_of_type(candidates[0], wanted) {
        Some(candidates[0])
    } else {
        first_of_type(candidates.drop_first(), wanted)
    }
}

/// Picks, among the addresses that a name resolves to, the first that is of
/// the kind that is asked for.
pub fn pick_address(candidates: &[IpAddress], wanted: AddrType) -> (picked: Option<IpAddress>)
    ensures
        picked == first_of_type(candidates@, wanted),
{
    let mut index: usize = 0;
    assert(candidates@.skip(0) =~= candidates@);
    while index < candidates.len()
        invariant
            index <= candidates@.len(),
            first_of_type(candidates@, wanted) == first_of_type(
                candidates@.skip(index as int),
                wanted,
            ),
        decreases candidates@.len() - index,
    {
        let candidate = candidates[index];
        assert(candidates@.skip(index as int)[0] == candidates@[index as int]);
        assert(candidates@.skip(index as int).drop_first() == candidates@.skip(index + 1));
        let fits = match candidate {
            IpAddress::V4(..) => match wanted {
                AddrType::IPv6 => false,
                _ => true,
            },
            IpAddress::V6(..) => match wanted {
                AddrType::IPv4 => false,
                _ => true,
            },
        };
        if fits {
            return Some(candidate);
        }
        index = index + 1;
    }
    None
}

/// The digits that write `n` to base sixteen, in lower case and with no zero in front.
pub open spec fn hex_digits(n: nat) -> Seq<u8>
    decreases n,
{
    if n < 16 {
        seq![hex_digit(n)]
    } else {
        hex_digits(n / 16).push(hex_digit(n % 16))
    }
}

/// The digit for `n`, which is below sixteen.
pub open spec fn hex_digit(n: nat) -> u8 {
    if n < 10 {
        (0x30 + n) as u8
    } else {
        (0x61 + n - 10) as u8
    }
}

/// An IPv4 address in dotted decimal.
pub open spec fn ipv4_text(a: u8, b: u8, c: u8, d: u8) -> Seq<u8> {
    decimal_digits(a as nat) + seq![0x2eu8] + decimal_digits(b as nat) + seq![0x2eu8]
        + decimal_digits(c as nat) + seq![0x2eu8] + decimal_digits(d as nat)
}

/// An address as a URL names a host: an IPv4 address in dotted decimal, an
/// IPv6 address as its eight groups between square brackets.
pub open spec fn ip_text(ip: IpAddress) -> Seq<u8> {
    match ip {
        IpAddress::V4(a, b, c, d) => ipv4_text(a, b, c, d),
        IpAddress::V6(a, b, c, d, e, f, g, h) => seq![0x5bu8] + hex_digits(a as nat) + seq![0x3au8]
            + hex_digits(b as nat) + seq![0x3au8] + hex_digits(c as nat) + seq![0x3au8]
            + hex_digits(d as nat) + seq![0x3au8] + hex_digits(e as nat) + seq![0x3au8]
            + hex_digits(f as nat) + seq![0x3au8] + hex_digits(g as nat) + seq![0x3au8]
            + hex_digits(h as nat) + seq![0x5du8],
    }
}

/// An address and its port as a URL names them: the host, a colon, the port.
pub open spec fn address_text(address: SocketAddress) -> Seq<u8> {
    ip_text(address.ip) + seq![0x3au8] + decimal_digits(address.port as nat)
}

/// Appends to `out` the digits of `n` to base sixteen.
pub fn push_hex(out: &mut Vec<u8>, n: u16)
    ensures
        final(out)@ == old(out)@ + hex_digits(n as nat),
    decreases n,
{
    if n >= 16 {
        push_hex(out, n / 16);
    }
    let low: u8 = (n % 16) as u8;
    if low < 10 {
        out.push(0x30 + low);
    } else {
        out.push(0x61 + (low - 10));
    }
    assert(final(out)@ =~= old(out)@ + hex_digits(n as nat));
}

/// Appends to `out` the text of `ip`.
pub fn push_ip(out: &mut Vec<u8>, ip: IpAddress)
    ensures
        final(out)@ == old(out)@ + ip_text(ip),
{
    match ip {
        IpAddress::V4(a, b, c, d) => {
            push_decimal(out, a as u64);
            out.push(0x2e);
            push_decimal(out, b as u64);
            out.push(0x2e);
            push_decimal(out, c as u64);
            out.push(0x2e);
            push_decimal(out, d as u64);
        },
        IpAddress::V6(a, b, c, d, e, f, g, h) => {
            out.push(0x5b);
            push_hex(out, a);
            out.push(0x3a);
            push_hex(out, b);
            out.push(0x3a);
            push_hex(out, c);
            out.push(0x3a);
            push_hex(out, d);
            out.push(0x3a);
            push_hex(out, e);
            out.push(0x3a);
            push_hex(out, f);
            out.push(0x3a);
            push_hex(out, g);
            out.push(0x3a);
            push_hex(out, h);
            out.push(0x5d);
        },
    }
    assert(final(out)@ =~= old(out)@ + ip_text(ip));
}

/// Appends to `out` the text of `address`.
pub fn push_address(out: &mut Vec<u8>, address: SocketAddress)
    ensures
        final(out)@ == old(out)@ + address_text(address),
{
    push_ip(out, address.ip);
    out.push(0x3a);
    push_decimal(out, address.port as u64);
    assert(final(out)@ =~= old(out)@ + address_text(address));
}

} // verus!
