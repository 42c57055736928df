//! Binary serialization core for structured blockchain data.
//!
//! Every serializable type implements the [`codec::Packer`] contract:
//! `size` reports the exact wire length of the current value, `pack`
//! appends the canonical little-endian byte layout to an [`codec::Encoder`],
//! and `unpack` reads a value back from the front of a byte region.
//! Encoding is deterministic and decoding is proved to invert it.

pub mod authority;
pub mod codec;
pub mod hexstr;
pub mod ints;
pub mod keys;
pub mod laws;
pub mod name;
pub mod tester;
pub mod times;
pub mod values;
pub mod varint;

pub use codec::CodecError;
pub use codec::Decoder;
pub use codec::Encoder;
pub use codec::Packer;
