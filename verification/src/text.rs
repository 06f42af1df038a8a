//! Text as bytes: what the parsers and the request builders share.
//!
//! Replies and documents arrive as bytes, and headers are matched byte by
//! byte. A `&str` is tied to its bytes by `spec_bytes`, its UTF-8 encoding.

use vstd::prelude::*;
use vstd::string::StringSliceAdditionalSpecFns;
use vstd::utf8::*;

verus! {

/// The characters that a sequence of ASCII bytes stands for.
pub open spec fn ascii_chars(bytes: Seq<u8>) -> Seq<char> {
    Seq::new(bytes.len(), |i: int| bytes[i] as char)
}

/// Every byte of `bytes` is an ASCII character.
pub open spec fn all_ascii(bytes: Seq<u8>) -> bool {
    forall|i: int| 0 <= i < bytes.len() ==> #[trigger] bytes[i] < 128
}

/// ASCII bytes are the UTF-8 encoding of the characters they stand for.
pub proof fn lemma_ascii_encoding(bytes: Seq<u8>)
    requires
        all_ascii(bytes),
    ensures
        is_ascii_chars(ascii_chars(bytes)),
        encode_utf8(ascii_chars(bytes)) == bytes,
        valid_utf8(bytes),
        decode_utf8(bytes) == ascii_chars(bytes),
{
    let chars = ascii_chars(bytes);
    assert forall|i: int| 0 <= i < chars.len() implies '\0' <= #[trigger] chars[i] <= '\u{7f}' by {
        assert(bytes[i] < 128);
    }
    is_ascii_chars_encode_utf8(chars);
    assert forall|i: int| 0 <= i < bytes.len() implies encode_utf8(chars)[i] == bytes[i] by {
        assert(bytes[i] < 128);
        assert(chars[i] as u8 == encode_utf8(chars)[i]);
    }
    assert(encode_utf8(chars) =~= bytes);
    encode_utf8_valid_utf8(chars);
    encode_utf8_decode_utf8(chars);
}

/// Texts with the same bytes are the same text.
pub proof fn lemma_same_bytes_same_text(a: Seq<char>, b: Seq<char>)
    requires
        encode_utf8(a) == encode_utf8(b),
    ensures
        a == b,
{
    encode_utf8_decode_utf8(a);
    encode_utf8_decode_utf8(b);
}

/// `core::str::from_utf8`: the text that `bytes` encode, where they are
/// valid UTF-8, and `None` where they are not. The text borrows the bytes, so
/// its encoding is `bytes` itself.
#[verifier::external_body]
pub(crate) fn utf8_text(bytes: &[u8]) -> (text: Option<&str>)
    ensures
        match text {
            Some(t) => valid_utf8(bytes@) && t.spec_bytes() == bytes@,
            None => !valid_utf8(bytes@),
        },
{
    match core::str::from_utf8(bytes) {
        Ok(text) => Some(text),
        Err(_) => None,
    }
}

/// The text that `bytes` encode, where they are valid UTF-8.
pub fn decode_text(bytes: &[u8]) -> (text: Option<String>)
    ensures
        match text {
            Some(t) => valid_utf8(bytes@) && t@ == decode_utf8(bytes@),
            None => !valid_utf8(bytes@),
        },
{
    match utf8_text(bytes) {
        Some(text) => {
            proof {
                encode_utf8_decode_utf8(text@);
            }
            Some(text.to_owned())
        },
        None => None,
    }
}

/// The text that ASCII bytes stand for.
pub fn ascii_text(bytes: &[u8]) -> (text: String)
    requires
        all_ascii(bytes@),
    ensures
        text@ == ascii_chars(bytes@),
{
    proof {
        lemma_ascii_encoding(bytes@);
    }
    match decode_text(bytes) {
        Some(text) => text,
        None => String::new(),
    }
}

/// Whether two byte slices hold the same bytes.
pub fn bytes_eq(a: &[u8], b: &[u8]) -> (same: bool)
    ensures
        same == (a@ == b@),
{
    if a.len() != b.len() {
        return false;
    }
    let mut index: usize = 0;
    while index < a.len()
        invariant
            a@.len() == b@.len(),
            index <= a@.len(),
            forall|i: int| 0 <= i < index ==> a@[i] == b@[i],
        decreases a@.len() - index,
    {
        if a[index] != b[index] {
            return false;
        }
        index = index + 1;
    }
    assert(a@ =~= b@);
    true
}

/// Whether two texts are the same text.
pub fn text_eq(a: &str, b: &str) -> (same: bool)
    ensures
        same == (a@ == b@),
{
    let same = bytes_eq(a.as_bytes(), b.as_bytes());
    proof {
        if same {
            lemma_same_bytes_same_text(a@, b@);
        }
    }
    same
}

/// Whether `byte` is one of the ten digits.
pub open spec fn is_digit(byte: u8) -> bool {
    0x30 <= byte <= 0x39
}

/// Whether `byte` is blank: a space, a tab, or one of the bytes that end a line.
pub open spec fn is_blank(byte: u8) -> bool {
    byte == 0x20 || (0x09 <= byte <= 0x0d)
}

/// `byte` in lower case, where it is an ASCII letter.
pub open spec fn lower(byte: u8) -> u8 {
    if 0x41 <= byte <= 0x5a {
        (byte + 0x20) as u8
    } else {
        byte
    }
}

/// The number that the decimal digits `digits` write.
pub open spec fn decimal_value(digits: Seq<u8>) -> nat
    decreases digits.len(),
{
    if digits.len() == 0 {
        0
    } else {
        decimal_value(digits.drop_last()) * 10 + (digits.last() - 0x30) as nat
    }
}

/// The decimal digits that write `n`: no sign, and no zero in front.
pub open spec fn decimal_digits(n: nat) -> Seq<u8>
    decreases n,
{
    if n < 10 {
        seq![(0x30 + n) as u8]
    } else {
        decimal_digits(n / 10).push((0x30 + n % 10) as u8)
    }
}

/// Whether `digits` writes a number the way `decimal_digits` does.
pub open spec fn is_decimal(digits: Seq<u8>) -> bool {
    &&& digits.len() > 0
    &&& forall|i: int| 0 <= i < digits.len() ==> is_digit(#[trigger] digits[i])
    &&& digits.len() > 1 ==> digits[0] != 0x30
}

/// What `decimal_digits` writes is a decimal number, and reads back as `n`.
pub proof fn lemma_decimal_digits(n: nat)
    ensures
        is_decimal(decimal_digits(n)),
        decimal_value(decimal_digits(n)) == n,
        n > 0 ==> decimal_digits(n)[0] != 0x30,
    decreases n,
{
    if n < 10 {
        let digits = decimal_digits(n);
        assert(digits.drop_last() =~= Seq::<u8>::empty());
        assert(decimal_value(digits.drop_last()) == 0);
    } else {
        lemma_decimal_digits(n / 10);
        let front = decimal_digits(n / 10);
        let digits = decimal_digits(n);
        assert(digits.drop_last() =~= front);
        assert(digits[0] == front[0]);
        assert forall|i: int| 0 <= i < digits.len() implies is_digit(#[trigger] digits[i]) by {
            if i < front.len() {
                assert(digits[i] == front[i]);
            }
        }
    }
}

/// Appends to `out` the decimal digits of `n`.
pub fn push_decimal(out: &mut Vec<u8>, n: u64)
    ensures
        final(out)@ == old(out)@ + decimal_digits(n as nat),
    decreases n,
{
    if n >= 10 {
        push_decimal(out, n / 10);
    }
    let digit: u8 = (n % 10) as u8;
    out.push(0x30 + digit);
    proof {
        if n < 10 {
            assert(final(out)@ =~= old(out)@ + decimal_digits(n as nat));
        } else {
            assert(final(out)@ =~= old(out)@ + decimal_digits(n as nat));
        }
    }
}

/// Reads `digits` as a decimal number that is at most `limit`: no sign, no
/// zero in front, nothing but digits.
pub fn parse_decimal(digits: &[u8], limit: u32) -> (value: Option<u32>)
    ensures
        value is Some <==> is_decimal(digits@) && decimal_value(digits@) <= limit,
        value matches Some(v) ==> v == decimal_value(digits@),
{
    let length: usize = digits.len();
    if length == 0 {
        return None;
    }
    if length > 1 && digits[0] == 0x30 {
        return None;
    }
    let mut total: u64 = 0;
    let mut index: usize = 0;
    while index < length
        invariant
            length == digits@.len(),
            index <= length,
            total == decimal_value(digits@.take(index as int)),
            total <= limit,
            forall|i: int| 0 <= i < index ==> is_digit(#[trigger] digits@[i]),
        decreases length - index,
    {
        let byte: u8 = digits[index];
        if byte < 0x30 || byte > 0x39 {
            return None;
        }
        let ghost seen = digits@.take(index + 1);
        assert(seen.drop_last() =~= digits@.take(index as int));
        let next: u64 = total * 10 + (byte - 0x30) as u64;
        if next > limit as u64 {
            proof {
                lemma_decimal_prefix(digits@, index + 1);
            }
            return None;
        }
        total = next;
        index = index + 1;
    }
    assert(digits@.take(length as int) =~= digits@);
    Some(total as u32)
}

/// The number written by the first digits of a number is no larger than
/// the number itself.
pub proof fn lemma_decimal_prefix(digits: Seq<u8>, count: int)
    requires
        0 <= count <= digits.len(),
    ensures
        decimal_value(digits.take(count)) <= decimal_value(digits),
    decreases digits.len() - count,
{
    if count == digits.len() {
        assert(digits.take(count) =~= digits);
    } else {
        lemma_decimal_prefix(digits.drop_last(), count);
        assert(digits.drop_last().take(count) =~= digits.take(count));
    }
}

/// The place of the first of the bytes `a`, `b` and `c` in `bytes`, at or
/// after `from` and before `to`; `to` where none of them occurs there.
pub open spec fn first_of(bytes: Seq<u8>, from: int, to: int, a: u8, b: u8, c: u8) -> int
    decreases to - from,
{
    if from >= to {
        to
    } else if bytes[from] == a || bytes[from] == b || bytes[from] == c {
        from
    } else {
        first_of(bytes, from + 1, to, a, b, c)
    }
}

/// What `first_of` finds: nothing before it is one of the three bytes, and
/// the byte at it is, unless it is `to`.
pub proof fn lemma_first_of(bytes: Seq<u8>, from: int, to: int, a: u8, b: u8, c: u8)
    requires
        from <= to,
    ensures
        from <= first_of(bytes, from, to, a, b, c) <= to,
        forall|i: int|
            from <= i < first_of(bytes, from, to, a, b, c) ==> #[trigger] bytes[i] != a && bytes[i]
                != b && bytes[i] != c,
        first_of(bytes, from, to, a, b, c) < to ==> {
            let at = bytes[first_of(bytes, from, to, a, b, c)];
            at == a || at == b || at == c
        },
    decreases to - from,
{
    if from < to && !(bytes[from] == a || bytes[from] == b || bytes[from] == c) {
        lemma_first_of(bytes, from + 1, to, a, b, c);
    }
}

/// A place with nothing to find before it, and with one of the three bytes
/// at it unless it is `to`, is the place that `first_of` finds.
pub proof fn lemma_first_of_is(bytes: Seq<u8>, from: int, to: int, a: u8, b: u8, c: u8, at: int)
    requires
        from <= at <= to,
        forall|i: int| from <= i < at ==> #[trigger] bytes[i] != a && bytes[i] != b && bytes[i] != c,
        at < to ==> bytes[at] == a || bytes[at] == b || bytes[at] == c,
    ensures
        first_of(bytes, from, to, a, b, c) == at,
    decreases at - from,
{
    if from < at {
        assert(bytes[from] != a && bytes[from] != b && bytes[from] != c);
        lemma_first_of_is(bytes, from + 1, to, a, b, c, at);
    }
}

/// Finds the first of the bytes `a`, `b` and `c` in `bytes[from..to]`.
pub fn find_first(bytes: &[u8], from: usize, to: usize, a: u8, b: u8, c: u8) -> (at: usize)
    requires
        from <= to <= bytes@.len(),
    ensures
        at == first_of(bytes@, from as int, to as int, a, b, c),
        from <= at <= to,
{
    let mut index: usize = from;
    while index < to
        invariant
            from <= index <= to <= bytes@.len(),
            first_of(bytes@, from as int, to as int, a, b, c) == first_of(
                bytes@,
                index as int,
                to as int,
                a,
                b,
                c,
            ),
        decreases to - index,
    {
        let byte: u8 = bytes[index];
        if byte == a || byte == b || byte == c {
            return index;
        }
        index = index + 1;
    }
    index
}

} // verus!
