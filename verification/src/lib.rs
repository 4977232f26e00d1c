//! Endian-aware reading and writing of integers, raw bytes and strings on seekable byte
//! streams, with utilities that move the stream position.

pub mod binary_reader;
pub mod binary_utils;
pub mod binary_writer;
pub mod encoding;
pub mod endianness;
pub mod error;
pub mod roundtrip;
pub mod stream;
pub mod text;

pub use binary_reader::BinaryReader;
pub use binary_utils::BinaryUtils;
pub use binary_writer::BinaryWriterExt;
pub use endianness::{native_endianness, swap_inplace, Endianness};
pub use error::CodecError;
pub use stream::{MemoryStream, SeekableStream, StreamState};
