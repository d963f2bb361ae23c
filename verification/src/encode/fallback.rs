//! The portable encoder: plain integer arithmetic, one byte at a time.

use crate::encode::{encoding_into, Error};
use crate::hex::{
    encoded, encoded_text, hex_digit, high_nibble, is_hex_digit, lemma_encoded_shape, low_nibble,
    viewed, ASCII_0, ASCII_9, ASCII_LOWER_A, ASCII_UPPER_A,
};
use crate::text::{ascii_str, ascii_string};
use vstd::prelude::*;

verus! {

/// Maps a nibble to its hex character without branching on the nibble.
///
/// `'0' + nibble` is right for 0 to 9. For 10 to 15 it lands on the six
/// characters after `'9'`, so the distance from there to the first letter is
/// added, multiplied by whether the digit overshot.
pub fn nibble_to_hex<const UPPER: bool>(nibble: u8) -> (c: u8)
    requires
        nibble < 16,
    ensures
        c == hex_digit(nibble, UPPER),
        is_hex_digit(c),
{
    let ascii_a: u8 = if UPPER {
        ASCII_UPPER_A
    } else {
        ASCII_LOWER_A
    };
    let digit: u8 = nibble + ASCII_0;
    let adjustment: u8 = ascii_a - 1 - ASCII_9;
    digit + (digit > ASCII_9) as u8 * adjustment
}

/// Maps a byte to its two hex characters, high nibble first.
pub fn byte_to_hex<const UPPER: bool>(byte: u8) -> (pair: [u8; 2])
    ensures
        pair[0] == hex_digit(high_nibble(byte), UPPER),
        pair[1] == hex_digit(low_nibble(byte), UPPER),
        is_hex_digit(pair[0]),
        is_hex_digit(pair[1]),
{
    assert(byte >> 4 == byte / 16) by (bit_vector);
    assert(byte & 0xf == byte % 16) by (bit_vector);
    [nibble_to_hex::<UPPER>(byte >> 4), nibble_to_hex::<UPPER>(byte & 0xf)]
}

/// Encodes `input` into a freshly allocated string.
pub fn encode<const UPPER: bool>(input: &[u8]) -> (text: String)
    ensures
        text@ == encoded_text(input@, UPPER),
{
    let mut output: Vec<u8> = match input.len().checked_mul(2) {
        Some(room) => Vec::with_capacity(room),
        None => Vec::new(),
    };
    let mut i: usize = 0;
    while i < input.len()
        invariant
            i <= input.len(),
            output@.len() == 2 * i,
            forall|j: int| 0 <= j < 2 * i ==> output@[j] == encoded(input@, UPPER)[j],
        decreases input.len() - i,
    {
        let pair: [u8; 2] = byte_to_hex::<UPPER>(input[i]);
        output.push(pair[0]);
        output.push(pair[1]);
        i += 1;
    }
    assert(output@ =~= encoded(input@, UPPER));
    proof {
        lemma_encoded_shape(input@, UPPER);
    }
    ascii_string(output)
}

/// Encodes `input` into `output`, which has exactly the room for it.
fn encode_impl<const UPPER: bool>(input: &[u8], output: &mut [u8])
    requires
        old(output)@.len() == 2 * input@.len(),
    ensures
        final(output)@ == encoded(input@, UPPER),
{
    let mut i: usize = 0;
    while i < input.len()
        invariant
            i <= input.len(),
            output.len() == 2 * input.len(),
            forall|j: int| 0 <= j < 2 * i ==> output@[j] == encoded(input@, UPPER)[j],
        decreases input.len() - i,
    {
        let pair: [u8; 2] = byte_to_hex::<UPPER>(input[i]);
        output[2 * i] = pair[0];
        output[2 * i + 1] = pair[1];
        i += 1;
    }
    assert(output@ =~= encoded(input@, UPPER));
}

/// Encodes `input` into `output` and returns the written bytes as text.
///
/// Fails, leaving `output` as it was, unless `output` has exactly two bytes
/// of room per input byte.
pub fn encode_to_slice<'a, const UPPER: bool>(
    input: &[u8],
    output: &'a mut [u8],
) -> (result: Result<&'a str, Error>)
    ensures
        viewed(result) == encoding_into(input@, UPPER, old(output)@.len()),
        result is Ok ==> final(output)@ == encoded(input@, UPPER),
        result is Err ==> final(output)@ == old(output)@,
{
    if output.len() % 2 != 0 || output.len() / 2 != input.len() {
        return Err(Error);
    }
    encode_impl::<UPPER>(input, output);
    proof {
        lemma_encoded_shape(input@, UPPER);
    }
    Ok(ascii_str(output))
}

/// Encodes the array `input` into the array `output`, which has twice its
/// length, and returns the written bytes as text.
pub fn encode_array<'a, const N: usize, const M: usize, const UPPER: bool>(
    input: &[u8; N],
    output: &'a mut [u8; M],
) -> (text: &'a str)
    requires
        M == 2 * N,
    ensures
        text@ == encoded_text(input@, UPPER),
        final(output)@ == encoded(input@, UPPER),
{
    match encode_to_slice::<UPPER>(input, output) {
        Ok(text) => text,
        Err(_) => vstd::pervasive::unreached(),
    }
}

} // verus!
