//! The one kind of text that the JSON parser cannot be handed.
//!
//! The parser counts the digits of a fraction in a 16-bit exponent, one
//! down for each digit that it takes into the mantissa, and its arithmetic
//! overflows beyond the range. Only the number zero can have that many
//! digits taken: the mantissa of any other number is full after twenty.
//! What is found here is the first place in a text at which a zero, where
//! a value may begin and outside every string literal, is followed by a
//! fraction of which more than [`MAX_FRACTION`] digits go into the mantissa.
//! The text up to that zero holds no such place, and can be parsed.

use crate::endpoint::is_digit;
use vstd::prelude::*;
use vstd::slice::*;

verus! {

/// The most digits of a fraction that the parser's exponent can count.
pub const MAX_FRACTION: usize = 32768;

/// Where a byte stands with regard to string literals.
#[derive(Clone, Copy, Debug, PartialEq, Eq, Structural)]
pub enum Lexical {
    /// Outside every string literal.
    Outside,
    /// Inside a string literal.
    Inside,
    /// Inside a string literal, behind a backslash.
    Escaped,
}

/// Where the byte behind `byte` stands, given where `byte` stands: a quote
/// opens and closes a string literal, and a backslash in one escapes the
/// next byte.
pub open spec fn lexical_step(state: Lexical, byte: u8) -> Lexical {
    match state {
        Lexical::Outside => if byte == 0x22 {
            Lexical::Inside
        } else {
            Lexical::Outside
        },
        Lexical::Inside => if byte == 0x5c {
            Lexical::Escaped
        } else if byte == 0x22 {
            Lexical::Outside
        } else {
            Lexical::Inside
        },
        Lexical::Escaped => Lexical::Inside,
    }
}

/// Where the byte at `at` stands.
pub open spec fn lexical(bytes: Seq<u8>, at: int) -> Lexical
    decreases at,
{
    if at <= 0 {
        Lexical::Outside
    } else {
        lexical_step(lexical(bytes, at - 1), bytes[at - 1])
    }
}

/// Whether a value may begin behind `byte`: it is white space, an opening
/// bracket, a comma or a colon.
pub open spec fn opens_value(byte: u8) -> bool {
    9 <= byte <= 13 || byte == 0x20 || byte == 0x5b || byte == 0x2c || byte == 0x3a
}

/// Whether a value may begin at `at`: at the start of the text, or behind a
/// byte that opens one.
pub open spec fn value_start(bytes: Seq<u8>, at: int) -> bool {
    at == 0 || (0 < at <= bytes.len() && opens_value(bytes[at - 1]))
}

/// Whether a number may have its first digit at `at`: a value may begin
/// there, or at the minus sign before it.
pub open spec fn number_start(bytes: Seq<u8>, at: int) -> bool {
    value_start(bytes, at) || (0 < at <= bytes.len() && bytes[at - 1] == 0x2d && value_start(
        bytes,
        at - 1,
    ))
}

/// Whether the number zero with a fraction begins at `at`, outside every
/// string literal: a zero where a number may begin, and a point behind it.
pub open spec fn zero_point_at(bytes: Seq<u8>, at: int) -> bool {
    &&& 0 <= at
    &&& at + 1 < bytes.len()
    &&& bytes[at] == 0x30
    &&& bytes[at + 1] == 0x2e
    &&& lexical(bytes, at) == Lexical::Outside
    &&& number_start(bytes, at)
}

/// How many of the digits from `from` on go into a mantissa that so far is
/// `mantissa`: each digit that leaves it within 64 bits does, and any other
/// is passed over.
pub open spec fn absorbed(bytes: Seq<u8>, from: int, mantissa: nat) -> nat
    decreases bytes.len() - from,
{
    if from < 0 || from >= bytes.len() || !is_digit(bytes[from]) {
        0
    } else {
        let longer = mantissa * 10 + (bytes[from] - 0x30);
        if longer <= u64::MAX {
            1 + absorbed(bytes, from + 1, longer as nat)
        } else {
            absorbed(bytes, from + 1, mantissa)
        }
    }
}

/// Whether the fraction of a zero that begins at `at` is too long for the
/// parser's exponent.
pub open spec fn overflows_at(bytes: Seq<u8>, at: int) -> bool {
    zero_point_at(bytes, at) && absorbed(bytes, at + 2, 0) > MAX_FRACTION
}

/// Whether a text holds a fraction that is too long for the parser's
/// exponent.
pub open spec fn fraction_overflows(bytes: Seq<u8>) -> bool {
    exists|at: int| overflows_at(bytes, at)
}

/// Whether more than [`MAX_FRACTION`] of the digits from `from` on go into
/// an empty mantissa.
fn overlong(bytes: &[u8], from: usize) -> (long: bool)
    requires
        from <= bytes@.len(),
    ensures
        long == (absorbed(bytes@, from as int, 0) > MAX_FRACTION),
{
    let mut mantissa: u64 = 0;
    let mut count: usize = 0;
    let mut next: usize = from;
    while next < bytes.len() && 0x30 <= bytes[next] && bytes[next] <= 0x39
        invariant
            from <= next <= bytes@.len(),
            count <= MAX_FRACTION,
            absorbed(bytes@, from as int, 0) == count + absorbed(
                bytes@,
                next as int,
                mantissa as nat,
            ),
        decreases bytes@.len() - next,
    {
        let digit: u64 = (bytes[next] - 0x30) as u64;
        if mantissa <= (u64::MAX - digit) / 10 {
            if count == MAX_FRACTION {
                return true;
            }
            count += 1;
            mantissa = mantissa * 10 + digit;
        }
        next += 1;
    }
    false
}

/// Whether a number may have its first digit at `at`.
fn begins_number(bytes: &[u8], at: usize) -> (begins: bool)
    requires
        at <= bytes@.len(),
    ensures
        begins == number_start(bytes@, at as int),
{
    if at == 0 {
        return true;
    }
    let before = bytes[at - 1];
    if before == 0x2d {
        at == 1 || begins_value(bytes[at - 2])
    } else {
        begins_value(before)
    }
}

/// Whether a value may begin behind `byte`.
fn begins_value(byte: u8) -> (begins: bool)
    ensures
        begins == opens_value(byte),
{
    (9 <= byte && byte <= 13) || byte == 0x20 || byte == 0x5b || byte == 0x2c || byte == 0x3a
}

/// Whether `at` is the first place at which a fraction is too long.
pub open spec fn first_overflow_at(bytes: Seq<u8>, at: int) -> bool {
    overflows_at(bytes, at) && forall|earlier: int|
        0 <= earlier < at ==> !#[trigger] overflows_at(bytes, earlier)
}

/// The first place at which a fraction is too long for the parser's
/// exponent, if there is one.
pub open spec fn first_overflow(bytes: Seq<u8>) -> Option<int> {
    if exists|at: int| first_overflow_at(bytes, at) {
        Some(choose|at: int| first_overflow_at(bytes, at))
    } else {
        None
    }
}

/// The text up to and with the zero at `at`.
pub open spec fn head(bytes: Seq<u8>, at: int) -> Seq<u8> {
    bytes.subrange(0, at + 1)
}

/// There is one first place at most.
pub proof fn lemma_first_is_unique(bytes: Seq<u8>, first: int, second: int)
    requires
        first_overflow_at(bytes, first),
        first_overflow_at(bytes, second),
    ensures
        first == second,
{
    if first < second {
        assert(!overflows_at(bytes, first));
    }
    if second < first {
        assert(!overflows_at(bytes, second));
    }
}

/// A byte stands in the start of a text where it stands in the text.
proof fn lemma_lexical_of_start(bytes: Seq<u8>, length: int, at: int)
    requires
        0 <= at <= length <= bytes.len(),
    ensures
        lexical(bytes.subrange(0, length), at) == lexical(bytes, at),
    decreases at,
{
    if at > 0 {
        lemma_lexical_of_start(bytes, length, at - 1);
    }
}

/// No more digits go into a mantissa from the start of a text than from
/// the text.
proof fn lemma_absorbed_of_start(bytes: Seq<u8>, length: int, from: int, mantissa: nat)
    requires
        0 <= length <= bytes.len(),
    ensures
        absorbed(bytes.subrange(0, length), from, mantissa) <= absorbed(bytes, from, mantissa),
    decreases length - from,
{
    let start = bytes.subrange(0, length);
    if 0 <= from < length && is_digit(start[from]) {
        let longer = mantissa * 10 + (bytes[from] - 0x30);
        if longer <= u64::MAX {
            lemma_absorbed_of_start(bytes, length, from + 1, longer as nat);
        } else {
            lemma_absorbed_of_start(bytes, length, from + 1, mantissa);
        }
    }
}

/// The text up to the first zero with a fraction that is too long holds no
/// fraction that is too long.
pub proof fn lemma_head_fits(bytes: Seq<u8>, at: int)
    requires
        first_overflow_at(bytes, at),
    ensures
        !fraction_overflows(head(bytes, at)),
{
    let start = head(bytes, at);
    assert forall|earlier: int| !overflows_at(start, earlier) by {
        if overflows_at(start, earlier) {
            lemma_lexical_of_start(bytes, at + 1, earlier);
            lemma_absorbed_of_start(bytes, at + 1, earlier + 2, 0);
            assert(overflows_at(bytes, earlier));
        }
    }
}

/// Finds the first place in `bytes` at which a fraction is too long for the
/// parser's exponent.
pub fn find_overflow(bytes: &[u8]) -> (found: Option<usize>)
    ensures
        found matches Some(at) ==> first_overflow_at(bytes@, at as int) && first_overflow(bytes@)
            == Some(at as int),
        found is None ==> first_overflow(bytes@) is None,
        found is None <==> !fraction_overflows(bytes@),
{
    let mut state = Lexical::Outside;
    let mut at: usize = 0;
    while at < bytes.len()
        invariant
            0 <= at <= bytes@.len(),
            state == lexical(bytes@, at as int),
            forall|earlier: int| 0 <= earlier < at ==> !#[trigger] overflows_at(bytes@, earlier),
        decreases bytes@.len() - at,
    {
        let byte = bytes[at];
        if state == Lexical::Outside && byte == 0x30 && at + 1 < bytes.len() && bytes[at + 1]
            == 0x2e && begins_number(bytes, at) {
            if overlong(bytes, at + 2) {
                proof {
                    assert(first_overflow_at(bytes@, at as int));
                    lemma_first_is_unique(
                        bytes@,
                        at as int,
                        choose|first: int| first_overflow_at(bytes@, first),
                    );
                }
                return Some(at);
            }
        }
        state =
        match state {
            Lexical::Outside => if byte == 0x22 {
                Lexical::Inside
            } else {
                Lexical::Outside
            },
            Lexical::Inside => if byte == 0x5c {
                Lexical::Escaped
            } else if byte == 0x22 {
                Lexical::Outside
            } else {
                Lexical::Inside
            },
            Lexical::Escaped => Lexical::Inside,
        };
        at += 1;
    }
    None
}

} // verus!
