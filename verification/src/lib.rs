//! A hexadecimal codec: bytes to hex text and back, into fresh or
//! caller-supplied buffers, with every function verified against the
//! mathematical definitions in [`hex`].

pub mod decode;
pub mod encode;
pub mod hex;
pub mod text;

pub use decode::Error as DecodeError;
pub use encode::Error as EncodeError;

pub use decode::{decode, decode_to_slice};
pub use encode::{
    encode, encode_to_array, encode_to_array_upper, encode_to_slice, encode_to_slice_upper,
    encode_upper,
};
