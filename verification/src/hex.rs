//! The hexadecimal alphabet, and what encoding and decoding mean as
//! mathematical functions on byte sequences.
//!
//! Everything here is specification: the executable codec in
//! [`crate::encode`] and [`crate::decode`] is stated and proved against it.

use crate::text::{as_text, is_ascii_bytes, lemma_ascii_is_utf8};
use vstd::prelude::*;
use vstd::utf8::encode_utf8;

verus! {

/// ASCII `0`.
pub const ASCII_0: u8 = 0x30;

/// ASCII `9`.
pub const ASCII_9: u8 = 0x39;

/// ASCII `A`.
pub const ASCII_UPPER_A: u8 = 0x41;

/// ASCII `F`.
pub const ASCII_UPPER_F: u8 = 0x46;

/// ASCII `Z`.
pub const ASCII_UPPER_Z: u8 = 0x5a;

/// ASCII `a`.
pub const ASCII_LOWER_A: u8 = 0x61;

/// ASCII `f`.
pub const ASCII_LOWER_F: u8 = 0x66;

/// ASCII `z`.
pub const ASCII_LOWER_Z: u8 = 0x7a;

/// The bit in which an ASCII lowercase letter differs from its uppercase form.
pub const CASE_BIT: u8 = 0x20;

/// A hex character: one of `0-9`, `a-f`, `A-F`.
pub open spec fn is_hex_digit(c: u8) -> bool {
    ||| ASCII_0 <= c <= ASCII_9
    ||| ASCII_LOWER_A <= c <= ASCII_LOWER_F
    ||| ASCII_UPPER_A <= c <= ASCII_UPPER_F
}

/// The letter that stands for ten in the chosen case.
pub open spec fn first_letter(upper: bool) -> u8 {
    if upper {
        ASCII_UPPER_A
    } else {
        ASCII_LOWER_A
    }
}

/// The hex character that stands for `nibble`.
pub open spec fn hex_digit(nibble: u8, upper: bool) -> u8
    recommends
        nibble < 16,
{
    if nibble < 10 {
        (ASCII_0 + nibble) as u8
    } else {
        (first_letter(upper) + (nibble - 10)) as u8
    }
}

/// The nibble that the hex character `c` stands for, whatever its case.
pub open spec fn hex_value(c: u8) -> u8
    recommends
        is_hex_digit(c),
{
    if c <= ASCII_9 {
        (c - ASCII_0) as u8
    } else if c <= ASCII_UPPER_F {
        (c - ASCII_UPPER_A + 10) as u8
    } else {
        (c - ASCII_LOWER_A + 10) as u8
    }
}

/// An ASCII uppercase letter.
pub open spec fn is_upper_letter(c: u8) -> bool {
    ASCII_UPPER_A <= c <= ASCII_UPPER_Z
}

/// An ASCII lowercase letter.
pub open spec fn is_lower_letter(c: u8) -> bool {
    ASCII_LOWER_A <= c <= ASCII_LOWER_Z
}

/// `c` is no letter of the case that was not chosen.
pub open spec fn has_case(c: u8, upper: bool) -> bool {
    if upper {
        !is_lower_letter(c)
    } else {
        !is_upper_letter(c)
    }
}

/// `c` with its case swapped if it is an ASCII letter, and `c` itself
/// otherwise.
pub open spec fn swap_case(c: u8) -> u8 {
    if is_upper_letter(c) {
        (c + CASE_BIT) as u8
    } else if is_lower_letter(c) {
        (c - CASE_BIT) as u8
    } else {
        c
    }
}

/// `b` is `a` with the case of some of its ASCII letters swapped.
pub open spec fn same_up_to_case(a: Seq<u8>, b: Seq<u8>) -> bool {
    &&& a.len() == b.len()
    &&& forall|i: int| 0 <= i < a.len() ==> #[trigger] b[i] == a[i] || b[i] == swap_case(a[i])
}

/// The upper four bits of `byte`.
pub open spec fn high_nibble(byte: u8) -> u8 {
    byte / 16
}

/// The lower four bits of `byte`.
pub open spec fn low_nibble(byte: u8) -> u8 {
    byte % 16
}

/// The byte that a pair of hex characters stands for, the first one being the
/// high nibble.
pub open spec fn pair_value(high: u8, low: u8) -> u8
    recommends
        is_hex_digit(high),
        is_hex_digit(low),
{
    (16 * hex_value(high) + hex_value(low)) as u8
}

/// Every byte of `input` is a hex character.
pub open spec fn all_hex(input: Seq<u8>) -> bool {
    forall|i: int| 0 <= i < input.len() ==> is_hex_digit(#[trigger] input[i])
}

/// The hex encoding of `input`: two characters per byte, high nibble first,
/// letters in one case throughout.
pub open spec fn encoded(input: Seq<u8>, upper: bool) -> Seq<u8> {
    Seq::new(
        2 * input.len(),
        |i: int|
            if i % 2 == 0 {
                hex_digit(high_nibble(input[i / 2]), upper)
            } else {
                hex_digit(low_nibble(input[i / 2]), upper)
            },
    )
}

/// The hex encoding of `input` as text.
pub open spec fn encoded_text(input: Seq<u8>, upper: bool) -> Seq<char> {
    as_text(encoded(input, upper))
}

/// The bytes that the hex characters of `input` stand for, pair by pair. A
/// trailing unpaired character is ignored.
pub open spec fn decoded(input: Seq<u8>) -> Seq<u8>
    recommends
        input.len() % 2 == 0,
        all_hex(input),
{
    Seq::new(input.len() / 2, |i: int| pair_value(input[2 * i], input[2 * i + 1]))
}

/// A result with its success value replaced by that value's view.
pub open spec fn viewed<T: View, E>(result: Result<T, E>) -> Result<T::V, E> {
    match result {
        Ok(value) => Ok(value@),
        Err(error) => Err(error),
    }
}

/// Every nibble maps to a hex character, in either case.
pub proof fn lemma_hex_digit_is_hex(nibble: u8, upper: bool)
    requires
        nibble < 16,
    ensures
        is_hex_digit(hex_digit(nibble, upper)),
{
}

/// Both characters that encode a byte are hex characters, in either case.
pub proof fn lemma_byte_digits_are_hex(byte: u8, upper: bool)
    ensures
        is_hex_digit(hex_digit(high_nibble(byte), upper)),
        is_hex_digit(hex_digit(low_nibble(byte), upper)),
{
}

/// Reading a hex character written for a nibble gives the nibble back.
pub proof fn lemma_hex_value_of_digit(nibble: u8, upper: bool)
    requires
        nibble < 16,
    ensures
        hex_value(hex_digit(nibble, upper)) == nibble,
{
}

/// The two characters that encode a byte decode to that byte.
pub proof fn lemma_pair_value_of_digits(byte: u8, upper: bool)
    ensures
        pair_value(
            hex_digit(high_nibble(byte), upper),
            hex_digit(low_nibble(byte), upper),
        ) == byte,
{
    lemma_hex_value_of_digit(high_nibble(byte), upper);
    lemma_hex_value_of_digit(low_nibble(byte), upper);
}

/// Swapping the case of a character changes neither whether it is a hex
/// character nor the nibble it stands for.
pub proof fn lemma_swap_case_keeps_value(c: u8)
    ensures
        is_hex_digit(swap_case(c)) == is_hex_digit(c),
        is_hex_digit(c) ==> hex_value(swap_case(c)) == hex_value(c),
{
}

/// The encoding has two characters per byte, all of them hex characters, and
/// so ASCII, and its letters are all of the chosen case.
pub proof fn lemma_encoded_shape(input: Seq<u8>, upper: bool)
    ensures
        encoded(input, upper).len() == 2 * input.len(),
        all_hex(encoded(input, upper)),
        is_ascii_bytes(encoded(input, upper)),
        forall|i: int|
            0 <= i < 2 * input.len() ==> has_case(#[trigger] encoded(input, upper)[i], upper),
{
}

/// The bytes of the encoded text are the encoding.
pub proof fn lemma_encoded_text_bytes(input: Seq<u8>, upper: bool)
    ensures
        encode_utf8(encoded_text(input, upper)) == encoded(input, upper),
{
    lemma_encoded_shape(input, upper);
    lemma_ascii_is_utf8(encoded(input, upper));
}

} // verus!
