//! Encoding bytes as hex text.

use crate::hex::{encoded, encoded_text, viewed};
use vstd::prelude::*;

pub mod fallback;

verus! {

/// The output buffer does not have exactly two bytes of room per input byte.
#[derive(Debug, PartialEq, Eq)]
pub struct Error;

/// What encoding `input` into a buffer with room for `room` bytes yields:
/// the hex text if the buffer has exactly two bytes per input byte, and the
/// error otherwise.
pub open spec fn encoding_into(input: Seq<u8>, upper: bool, room: nat) -> Result<Seq<char>, Error> {
    if room == 2 * input.len() {
        Ok(encoded_text(input, upper))
    } else {
        Err(Error)
    }
}

/// Into a buffer of the right size, encoding succeeds and gives the same
/// text as encoding into a fresh string.
pub proof fn lemma_encoding_into_fitting(input: Seq<u8>, upper: bool, room: nat)
    requires
        room == 2 * input.len(),
    ensures
        encoding_into(input, upper, room) == Ok::<Seq<char>, Error>(encoded_text(input, upper)),
{
}

/// Encodes `input` to a lowercase hex string.
#[must_use]
pub fn encode(input: &[u8]) -> (text: String)
    ensures
        text@ == encoded_text(input@, false),
{
    fallback::encode::<false>(input)
}

/// Encodes `input` to an uppercase hex string.
#[must_use]
pub fn encode_upper(input: &[u8]) -> (text: String)
    ensures
        text@ == encoded_text(input@, true),
{
    fallback::encode::<true>(input)
}

/// Encodes `input` to lowercase hex in `output`, and returns the written
/// bytes as text.
///
/// Fails, leaving `output` as it was, unless `output` has exactly two bytes
/// of room per input byte.
pub fn encode_to_slice<'a>(input: &[u8], output: &'a mut [u8]) -> (result: Result<&'a str, Error>)
    ensures
        viewed(result) == encoding_into(input@, false, old(output)@.len()),
        result is Ok ==> final(output)@ == encoded(input@, false),
        result is Err ==> final(output)@ == old(output)@,
{
    fallback::encode_to_slice::<false>(input, output)
}

/// Encodes `input` to uppercase hex in `output`, and returns the written
/// bytes as text.
///
/// Fails, leaving `output` as it was, unless `output` has exactly two bytes
/// of room per input byte.
pub fn encode_to_slice_upper<'a>(
    input: &[u8],
    output: &'a mut [u8],
) -> (result: Result<&'a str, Error>)
    ensures
        viewed(result) == encoding_into(input@, true, old(output)@.len()),
        result is Ok ==> final(output)@ == encoded(input@, true),
        result is Err ==> final(output)@ == old(output)@,
{
    fallback::encode_to_slice::<true>(input, output)
}

/// Encodes the array `input` to lowercase hex in the array `output`, and
/// returns the written bytes as text.
///
/// The output array must be twice as long as the input array.
pub fn encode_to_array<'a, const N: usize, const M: usize>(
    input: &[u8; N],
    output: &'a mut [u8; M],
) -> (text: &'a str)
    requires
        M == 2 * N,
    ensures
        text@ == encoded_text(input@, false),
        final(output)@ == encoded(input@, false),
{
    fallback::encode_array::<N, M, false>(input, output)
}

/// Encodes the array `input` to uppercase hex in the array `output`, and
/// returns the written bytes as text.
///
/// The output array must be twice as long as the input array.
pub fn encode_to_array_upper<'a, const N: usize, const M: usize>(
    input: &[u8; N],
    output: &'a mut [u8; M],
) -> (text: &'a str)
    requires
        M == 2 * N,
    ensures
        text@ == encoded_text(input@, true),
        final(output)@ == encoded(input@, true),
{
    fallback::encode_array::<N, M, true>(input, output)
}

} // verus!
