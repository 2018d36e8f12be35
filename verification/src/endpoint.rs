//! The text form of an address: `host:port`.

use vstd::prelude::*;
use vstd::string::*;

verus! {

/// The byte of the colon that parts host and port.
pub const COLON: u8 = 0x3a;

/// The largest port.
pub const MAX_PORT: u32 = 65535;

/// Whether a byte is a decimal digit.
pub open spec fn is_digit(byte: u8) -> bool {
    0x30 <= byte <= 0x39
}

/// The number that a run of decimal digits writes.
pub open spec fn decimal(digits: Seq<u8>) -> nat
    decreases digits.len(),
{
    if digits.len() == 0 {
        0
    } else {
        decimal(digits.drop_last()) * 10 + (digits.last() - 0x30) as nat
    }
}

/// The bytes of `text` behind position `colon`.
pub open spec fn port_digits(text: Seq<u8>, colon: int) -> Seq<u8> {
    text.subrange(colon + 1, text.len() as int)
}

/// Whether `text` is a host and a port parted by the colon at `colon`: the
/// host is not empty, the port is one or more decimal digits, and its
/// number is at most [`MAX_PORT`].
pub open spec fn splits_at(text: Seq<u8>, colon: int) -> bool {
    &&& 0 < colon < text.len() - 1
    &&& text[colon] == COLON
    &&& forall|i: int| colon < i < text.len() ==> is_digit(#[trigger] text[i])
    &&& decimal(port_digits(text, colon)) <= MAX_PORT
}

/// Whether `text` has the form `host:port`.
pub open spec fn well_formed(text: Seq<u8>) -> bool {
    exists|colon: int| splits_at(text, colon)
}

/// The port that a text of the form `host:port` names.
pub open spec fn port_of(text: Seq<u8>) -> nat
    recommends
        well_formed(text),
{
    decimal(port_digits(text, choose|colon: int| splits_at(text, colon)))
}

/// A text splits at one place at most: at its last colon.
pub proof fn lemma_split_is_unique(text: Seq<u8>, first: int, second: int)
    requires
        splits_at(text, first),
        splits_at(text, second),
    ensures
        first == second,
{
}

/// A run of digits writes a number that is no smaller than the one that
/// any run it starts with writes.
proof fn lemma_decimal_grows(digits: Seq<u8>, count: int)
    requires
        0 <= count <= digits.len(),
    ensures
        decimal(digits.subrange(0, count)) <= decimal(digits),
    decreases digits.len(),
{
    if count == digits.len() {
        assert(digits.subrange(0, count) =~= digits);
    } else {
        lemma_decimal_grows(digits.drop_last(), count);
        assert(digits.drop_last().subrange(0, count) =~= digits.subrange(0, count));
    }
}

/// Reads the port of an address of the form `host:port`, and gives `None`
/// for a text of any other form.
pub fn parse_port(text: &str) -> (result: Option<u16>)
    ensures
        well_formed(text.spec_bytes()) ==> (result matches Some(port) && port == port_of(
            text.spec_bytes(),
        )),
        !well_formed(text.spec_bytes()) ==> result is None,
{
    let bytes = text.as_bytes();
    let length = bytes.len();
    let mut start: usize = length;
    while start > 0 && 0x30 <= bytes[start - 1] && bytes[start - 1] <= 0x39
        invariant
            0 <= start <= length,
            length == bytes@.len(),
            forall|i: int| start <= i < length ==> is_digit(#[trigger] bytes@[i]),
        decreases start,
    {
        start -= 1;
    }
    if start == length || start < 2 || bytes[start - 1] != COLON {
        return None;
    }
    let ghost colon = start - 1;
    let ghost digits = port_digits(bytes@, colon);
    let mut value: u32 = 0;
    let mut next: usize = start;
    while next < length
        invariant
            start <= next <= length,
            length == bytes@.len(),
            bytes@ == text.spec_bytes(),
            digits == port_digits(bytes@, start - 1),
            forall|i: int| start <= i < length ==> is_digit(#[trigger] bytes@[i]),
            forall|c: int| #[trigger] splits_at(bytes@, c) ==> c == start - 1,
            value == decimal(digits.subrange(0, next - start)),
            value <= MAX_PORT,
        decreases length - next,
    {
        let digit: u32 = (bytes[next] - 0x30) as u32;
        proof {
            let longer = digits.subrange(0, next - start + 1);
            assert(longer.drop_last() =~= digits.subrange(0, next - start));
        }
        value = value * 10 + digit;
        next += 1;
        if value > MAX_PORT {
            proof {
                lemma_decimal_grows(digits, next - start);
            }
            return None;
        }
    }
    proof {
        assert(digits.subrange(0, next - start) =~= digits);
        lemma_split_is_unique(bytes@, colon, choose|c: int| splits_at(bytes@, c));
    }
    Some(value as u16)
}

} // verus!
