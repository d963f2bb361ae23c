//! Decoding hex text to bytes.

use crate::hex::{
    all_hex, decoded, encoded, encoded_text, hex_value, is_hex_digit, lemma_encoded_text_bytes,
    lemma_pair_value_of_digits, lemma_swap_case_keeps_value, same_up_to_case, viewed,
};
use vstd::prelude::*;
use vstd::utf8::encode_utf8;

pub mod fallback;

verus! {

/// Why an input could not be decoded.
#[derive(Debug, Copy, Clone, PartialEq, Eq)]
pub enum Error {
    /// The source buffer had an odd number of characters.
    OddLength,
    /// The byte at `offset` was not a valid hex character.
    InvalidHex {
        /// The offset into the source buffer that the error occurred at.
        offset: usize,
        /// The character in question.
        value: u8,
    },
    /// The destination buffer size was incorrect for the provided source
    /// buffer: `source_len != dest_len * 2`.
    MismatchedLength {
        /// The length of the source buffer.
        source_len: usize,
        /// The length of the destination buffer.
        dest_len: usize,
    },
}

/// The byte of `input` at `offset` is no hex character, and every byte
/// before it is one.
pub open spec fn is_first_invalid(input: Seq<u8>, offset: int) -> bool {
    &&& 0 <= offset < input.len()
    &&& !is_hex_digit(input[offset])
    &&& forall|i: int| 0 <= i < offset ==> is_hex_digit(#[trigger] input[i])
}

/// The offset of the first byte of `input` that is no hex character, if
/// there is one.
pub open spec fn first_invalid(input: Seq<u8>) -> int
    recommends
        !all_hex(input),
{
    choose|offset: int| is_first_invalid(input, offset)
}

/// The error that reports the byte of `input` at `offset`.
pub open spec fn invalid_hex(input: Seq<u8>, offset: int) -> Error
    recommends
        0 <= offset < input.len(),
{
    Error::InvalidHex { offset: offset as usize, value: input[offset] }
}

/// What checking the characters of `input` yields: success if all of them
/// are hex characters, and otherwise the first one that is not, with its
/// offset.
pub open spec fn validation(input: Seq<u8>) -> Result<(), Error> {
    if all_hex(input) {
        Ok(())
    } else {
        Err(invalid_hex(input, first_invalid(input)))
    }
}

/// What decoding `input` yields: an odd length is rejected first, then the
/// first character that is no hex character; otherwise every pair of
/// characters gives one byte.
pub open spec fn decoding(input: Seq<u8>) -> Result<Seq<u8>, Error> {
    if input.len() % 2 != 0 {
        Err(Error::OddLength)
    } else {
        match validation(input) {
            Ok(_) => Ok(decoded(input)),
            Err(error) => Err(error),
        }
    }
}

/// What decoding `input` into a buffer with room for `room` bytes yields: a
/// buffer of any but half the input's length is rejected first, then the
/// first character that is no hex character; otherwise every pair of
/// characters gives one byte.
pub open spec fn decoding_into(input: Seq<u8>, room: nat) -> Result<Seq<u8>, Error> {
    if input.len() != 2 * room {
        Err(Error::MismatchedLength { source_len: input.len() as usize, dest_len: room as usize })
    } else {
        match validation(input) {
            Ok(_) => Ok(decoded(input)),
            Err(error) => Err(error),
        }
    }
}

/// The invalid character at or before `bound` that only hex characters
/// precede.
proof fn lemma_least_invalid(input: Seq<u8>, bound: int) -> (offset: int)
    requires
        0 <= bound < input.len(),
        !is_hex_digit(input[bound]),
    ensures
        is_first_invalid(input, offset),
    decreases bound,
{
    if forall|i: int| 0 <= i < bound ==> is_hex_digit(#[trigger] input[i]) {
        bound
    } else {
        let earlier = choose|i: int| 0 <= i < bound && !is_hex_digit(#[trigger] input[i]);
        lemma_least_invalid(input, earlier)
    }
}

/// An input that is not all hex characters has a first character that is
/// none, and that is the one reported.
pub proof fn lemma_first_invalid_exists(input: Seq<u8>)
    requires
        !all_hex(input),
    ensures
        is_first_invalid(input, first_invalid(input)),
{
    let some = choose|i: int| 0 <= i < input.len() && !is_hex_digit(#[trigger] input[i]);
    lemma_least_invalid(input, some);
}

/// An invalid character that only hex characters precede is the one that is
/// reported, whatever follows it.
pub proof fn lemma_first_invalid(input: Seq<u8>, offset: int)
    requires
        is_first_invalid(input, offset),
    ensures
        !all_hex(input),
        first_invalid(input) == offset,
        validation(input) == Err::<(), Error>(invalid_hex(input, offset)),
{
    let chosen = first_invalid(input);
    assert(is_first_invalid(input, chosen));
    if chosen < offset {
        assert(is_hex_digit(input[chosen]));
    } else if offset < chosen {
        assert(is_hex_digit(input[offset]));
    }
}

/// Decoding undoes encoding, in either case: the encoding of any bytes
/// decodes, and to those bytes, whether it is taken as bytes or as the bytes
/// of the encoded text, and whether it goes to a fresh vector or into a
/// buffer with one byte of room for each of them.
pub proof fn lemma_decoding_undoes_encoding(bytes: Seq<u8>, upper: bool)
    ensures
        decoding(encoded(bytes, upper)) == Ok::<Seq<u8>, Error>(bytes),
        decoding(encode_utf8(encoded_text(bytes, upper))) == Ok::<Seq<u8>, Error>(bytes),
        decoding_into(encoded(bytes, upper), bytes.len()) == Ok::<Seq<u8>, Error>(bytes),
{
    let hex = encoded(bytes, upper);
    lemma_encoded_text_bytes(bytes, upper);
    assert forall|i: int| 0 <= i < bytes.len() implies #[trigger] decoded(hex)[i] == bytes[i] by {
        lemma_pair_value_of_digits(bytes[i], upper);
    }
    assert(decoded(hex) =~= bytes);
}

/// Decoding ignores case: two inputs that differ only in the case of some
/// letters either both fail or both decode, and then to the same bytes.
pub proof fn lemma_decoding_ignores_case(a: Seq<u8>, b: Seq<u8>)
    requires
        same_up_to_case(a, b),
    ensures
        decoding(a) is Ok <==> decoding(b) is Ok,
        decoding(a) is Ok ==> decoding(b) == decoding(a),
{
    assert forall|i: int| 0 <= i < a.len() implies {
        &&& is_hex_digit(#[trigger] a[i]) == is_hex_digit(b[i])
        &&& is_hex_digit(a[i]) ==> hex_value(a[i]) == hex_value(b[i])
    } by {
        lemma_swap_case_keeps_value(a[i]);
    }
    if all_hex(a) {
        assert(all_hex(b));
        assert(decoded(a) =~= decoded(b));
    }
    if all_hex(b) {
        assert(all_hex(a));
    }
}

/// Into a buffer of the right size, decoding yields what decoding into a
/// fresh vector yields.
pub proof fn lemma_decoding_into_fitting(input: Seq<u8>, room: nat)
    requires
        input.len() == 2 * room,
    ensures
        decoding_into(input, room) == decoding(input),
{
}

/// Decodes the hex text `input`, of either or mixed case.
///
/// Fails if the input has an odd length, and else if one of its bytes is no
/// hex character, with the first such byte and its offset.
pub fn decode(input: &[u8]) -> (result: Result<Vec<u8>, Error>)
    ensures
        viewed(result) == decoding(input@),
{
    fallback::decode(input)
}

/// Decodes the hex text `input`, of either or mixed case, into `output`, and
/// returns the written bytes.
///
/// Fails, leaving `output` as it was, if `output` does not have exactly one
/// byte of room per two input bytes, and else if one of the input bytes is
/// no hex character, with the first such byte and its offset.
pub fn decode_to_slice<'a>(input: &[u8], output: &'a mut [u8]) -> (result: Result<&'a [u8], Error>)
    ensures
        viewed(result) == decoding_into(input@, old(output)@.len()),
        result is Ok ==> final(output)@ == decoded(input@),
        result is Err ==> final(output)@ == old(output)@,
{
    fallback::decode_to_slice(input, output)
}

} // verus!
