//! The portable decoder: plain integer arithmetic, one character at a time.

use crate::decode::{decoding, decoding_into, lemma_first_invalid, validation, Error};
use crate::hex::{
    all_hex, decoded, hex_value, is_hex_digit, pair_value, viewed, ASCII_0, ASCII_9,
    ASCII_LOWER_A, ASCII_LOWER_F, ASCII_UPPER_A, ASCII_UPPER_F, CASE_BIT,
};
use vstd::prelude::*;

verus! {

/// Tells whether `value` is a hex character.
pub fn is_hex_char(value: u8) -> (yes: bool)
    ensures
        yes == is_hex_digit(value),
{
    (ASCII_0 <= value && value <= ASCII_9) || (ASCII_LOWER_A <= value && value <= ASCII_LOWER_F)
        || (ASCII_UPPER_A <= value && value <= ASCII_UPPER_F)
}

/// Decodes one hex character to the nibble it stands for.
///
/// A letter has its case bit cleared, which makes it uppercase, and is then
/// counted from `A`; a digit is counted from `0`.
pub fn decode_trusted_char(nibble: u8) -> (value: u8)
    requires
        is_hex_digit(nibble),
    ensures
        value == hex_value(nibble),
        value < 16,
{
    if nibble > ASCII_9 {
        let letter: u8 = nibble & !CASE_BIT;
        assert(letter == if nibble >= 0x61 {
            (nibble - 0x20) as u8
        } else {
            nibble
        }) by (bit_vector)
            requires
                letter == nibble & !0x20u8,
                0x41 <= nibble <= 0x46 || 0x61 <= nibble <= 0x66,
        ;
        letter - ASCII_UPPER_A + 10
    } else {
        nibble - ASCII_0
    }
}

/// Checks that every byte of `input` is a hex character, and reports the
/// first one that is not.
pub fn validate_hex(input: &[u8]) -> (result: Result<(), Error>)
    ensures
        result == validation(input@),
{
    let mut offset: usize = 0;
    while offset < input.len()
        invariant
            offset <= input.len(),
            forall|i: int| 0 <= i < offset ==> is_hex_digit(#[trigger] input@[i]),
        decreases input.len() - offset,
    {
        let value: u8 = input[offset];
        if !is_hex_char(value) {
            proof {
                lemma_first_invalid(input@, offset as int);
            }
            return Err(Error::InvalidHex { offset, value });
        }
        offset += 1;
    }
    Ok(())
}

/// Decodes two hex characters to the byte they stand for, the first one
/// being the high nibble.
pub fn decode_trusted_nibbles(nibbles: [u8; 2]) -> (byte: u8)
    requires
        is_hex_digit(nibbles[0]),
        is_hex_digit(nibbles[1]),
    ensures
        byte == pair_value(nibbles[0], nibbles[1]),
{
    let high: u8 = decode_trusted_char(nibbles[0]);
    let low: u8 = decode_trusted_char(nibbles[1]);
    assert(high << 4 | low == 16 * high + low) by (bit_vector)
        requires
            high < 16,
            low < 16,
    ;
    high << 4 | low
}

/// Decodes `input` into a freshly allocated vector.
pub fn decode(input: &[u8]) -> (result: Result<Vec<u8>, Error>)
    ensures
        viewed(result) == decoding(input@),
{
    if input.len() % 2 != 0 {
        return Err(Error::OddLength);
    }
    match validate_hex(input) {
        Ok(_) => {},
        Err(error) => {
            return Err(error);
        },
    }
    let pairs: usize = input.len() / 2;
    let mut output: Vec<u8> = Vec::with_capacity(pairs);
    let mut i: usize = 0;
    while i < pairs
        invariant
            i <= pairs,
            input.len() == 2 * pairs,
            all_hex(input@),
            output@.len() == i,
            forall|j: int| 0 <= j < i ==> output@[j] == decoded(input@)[j],
        decreases pairs - i,
    {
        output.push(decode_trusted_nibbles([input[2 * i], input[2 * i + 1]]));
        i += 1;
    }
    assert(output@ =~= decoded(input@));
    Ok(output)
}

/// Decodes `input` into `output` and returns the written bytes.
///
/// Fails, leaving `output` as it was, unless `output` has exactly one byte
/// of room per two input characters and every input character is a hex
/// character.
pub fn decode_to_slice<'a>(input: &[u8], output: &'a mut [u8]) -> (result: Result<&'a [u8], Error>)
    ensures
        viewed(result) == decoding_into(input@, old(output)@.len()),
        result is Ok ==> final(output)@ == decoded(input@),
        result is Err ==> final(output)@ == old(output)@,
{
    if input.len() % 2 != 0 || input.len() / 2 != output.len() {
        return Err(
            Error::MismatchedLength { source_len: input.len(), dest_len: output.len() },
        );
    }
    match validate_hex(input) {
        Ok(_) => {},
        Err(error) => {
            return Err(error);
        },
    }
    let mut i: usize = 0;
    while i < output.len()
        invariant
            i <= output.len(),
            input.len() == 2 * output.len(),
            all_hex(input@),
            forall|j: int| 0 <= j < i ==> output@[j] == decoded(input@)[j],
        decreases output.len() - i,
    {
        output[i] = decode_trusted_nibbles([input[2 * i], input[2 * i + 1]]);
        i += 1;
    }
    assert(output@ =~= decoded(input@));
    Ok(output)
}

} // verus!
