//! Typed writes: integers in either byte order, raw bytes, and strings with or without a
//! zero byte behind them.

use crate::encoding::{
    encode_unsigned, encoding, i16_to_bits, i32_to_bits, i64_to_bits, i8_to_bits,
    lemma_little_endian_len, signed_bits, signed_encoding,
};
use crate::endianness::{native_endianness, Endianness};
use crate::error::CodecError;
use crate::stream::{lemma_written_twice, SeekableStream, StreamState};
use vstd::prelude::*;
use vstd::utf8::encode_utf8;

verus! {

/// How a write of `count` bytes ends on a stream in state `start`: well where there is room
/// for all of them, and with `Truncated` where there is not.
pub open spec fn write_result(start: StreamState, count: nat) -> Result<(), CodecError> {
    if count <= start.room() {
        Ok(())
    } else {
        Err(CodecError::Truncated)
    }
}

/// Writes all of `bytes`, or fails with `Truncated` after the part that found room.
pub fn write_all<S: SeekableStream>(stream: &mut S, bytes: &[u8]) -> (r: Result<(), CodecError>)
    requires
        old(stream)@.wf(),
    ensures
        final(stream)@ == old(stream)@.written(bytes@),
        r == write_result(old(stream)@, bytes@.len()),
{
    let accepted = stream.write(bytes);
    if accepted != bytes.len() {
        return Err(CodecError::Truncated);
    }
    Ok(())
}

/// Writes `value` as an unsigned number of `width` bytes in byte order `order`. A value
/// that does not fit `width` bytes loses its high digits.
pub fn write_unsigned<S: SeekableStream>(
    stream: &mut S,
    value: u64,
    width: usize,
    order: Endianness,
) -> (r: Result<(), CodecError>)
    requires
        old(stream)@.wf(),
    ensures
        final(stream)@ == old(stream)@.written(encoding(value as nat, width as nat, order)),
        r == write_result(old(stream)@, width as nat),
{
    let bytes = encode_unsigned(value, width, order);
    proof {
        lemma_little_endian_len(value as nat, width as nat);
    }
    write_all(stream, bytes.as_slice())
}

/// Typed writes on a seekable stream: integers of every width in either byte order, raw
/// bytes and strings. A write for which the stream has too little room places the bytes
/// that fit and fails with `Truncated`.
pub trait BinaryWriterExt: SeekableStream {
    /// Writes `bytes` as they are.
    fn write_raw(&mut self, bytes: &[u8]) -> (r: Result<(), CodecError>)
        requires
            old(self)@.wf(),
        ensures
            final(self)@ == old(self)@.written(bytes@),
            r == write_result(old(self)@, bytes@.len()),
    ;

    /// Writes one byte.
    fn write_u8(&mut self, value: u8) -> (r: Result<(), CodecError>)
        requires
            old(self)@.wf(),
        ensures
            final(self)@ == old(self)@.written(seq![value]),
            r == write_result(old(self)@, 1),
    ;

    /// Writes `value` in one byte, in two's complement.
    fn write_i8(&mut self, value: i8) -> (r: Result<(), CodecError>)
        requires
            old(self)@.wf(),
        ensures
            final(self)@ == old(self)@.written(seq![signed_bits(value as int, 1) as u8]),
            r == write_result(old(self)@, 1),
    ;

    /// Writes `value` in 2 bytes, in byte order `endianness`.
    fn write_u16(&mut self, value: u16, endianness: Endianness) -> (r: Result<(), CodecError>)
        requires
            old(self)@.wf(),
        ensures
            final(self)@ == old(self)@.written(encoding(value as nat, 2, endianness)),
            r == write_result(old(self)@, 2),
    ;

    /// Writes `value` in 2 bytes, most significant byte first.
    fn write_be_u16(&mut self, value: u16) -> (r: Result<(), CodecError>)
        requires
            old(self)@.wf(),
        ensures
            final(self)@ == old(self)@.written(encoding(value as nat, 2, Endianness::Big)),
            r == write_result(old(self)@, 2),
    ;

    /// Writes `value` in 2 bytes, least significant byte first.
    fn write_le_u16(&mut self, value: u16) -> (r: Result<(), CodecError>)
        requires
            old(self)@.wf(),
        ensures
            final(self)@ == old(self)@.written(encoding(value as nat, 2, Endianness::Little)),
            r == write_result(old(self)@, 2),
    ;

    /// Writes `value` in 2 bytes, in the byte order of the machine, which
    /// is one of the two.
    fn write_ne_u16(&mut self, value: u16) -> (r: Result<(), CodecError>)
        requires
            old(self)@.wf(),
        ensures
            ({
                let little = encoding(value as nat, 2, Endianness::Little);
                let big = encoding(value as nat, 2, Endianness::Big);
                ||| final(self)@ == old(self)@.written(little)
                ||| final(self)@ == old(self)@.written(big)
            }),
            r == write_result(old(self)@, 2),
    ;

    /// Writes `value` in 2 bytes, in two's complement, in byte order `endianness`.
    fn write_i16(&mut self, value: i16, endianness: Endianness) -> (r: Result<(), CodecError>)
        requires
            old(self)@.wf(),
        ensures
            final(self)@ == old(self)@.written(signed_encoding(value as int, 2, endianness)),
            r == write_result(old(self)@, 2),
    ;

    /// Writes `value` in 2 bytes, in two's complement, most significant byte first.
    fn write_be_i16(&mut self, value: i16) -> (r: Result<(), CodecError>)
        requires
            old(self)@.wf(),
        ensures
            final(self)@ == old(self)@.written(signed_encoding(value as int, 2, Endianness::Big)),
            r == write_result(old(self)@, 2),
    ;

    /// Writes `value` in 2 bytes, in two's complement, least significant byte first.
    fn write_le_i16(&mut self, value: i16) -> (r: Result<(), CodecError>)
        requires
            old(self)@.wf(),
        ensures
            final(self)@ == old(self)@.written(
                signed_encoding(value as int, 2, Endianness::Little),
            ),
            r == write_result(old(self)@, 2),
    ;

    /// Writes `value` in 2 bytes, in two's complement, in the byte order of the machine, which
    /// is one of the two.
    fn write_ne_i16(&mut self, value: i16) -> (r: Result<(), CodecError>)
        requires
            old(self)@.wf(),
        ensures
            ({
                let little = signed_encoding(value as int, 2, Endianness::Little);
                let big = signed_encoding(value as int, 2, Endianness::Big);
                ||| final(self)@ == old(self)@.written(little)
                ||| final(self)@ == old(self)@.written(big)
            }),
            r == write_result(old(self)@, 2),
    ;

    /// Writes `value` in 4 bytes, in byte order `endianness`.
    fn write_u32(&mut self, value: u32, endianness: Endianness) -> (r: Result<(), CodecError>)
        requires
            old(self)@.wf(),
        ensures
            final(self)@ == old(self)@.written(encoding(value as nat, 4, endianness)),
            r == write_result(old(self)@, 4),
    ;

    /// Writes `value` in 4 bytes, most significant byte first.
    fn write_be_u32(&mut self, value: u32) -> (r: Result<(), CodecError>)
        requires
            old(self)@.wf(),
        ensures
            final(self)@ == old(self)@.written(encoding(value as nat, 4, Endianness::Big)),
            r == write_result(old(self)@, 4),
    ;

    /// Writes `value` in 4 bytes, least significant byte first.
    fn write_le_u32(&mut self, value: u32) -> (r: Result<(), CodecError>)
        requires
            old(self)@.wf(),
        ensures
            final(self)@ == old(self)@.written(encoding(value as nat, 4, Endianness::Little)),
            r == write_result(old(self)@, 4),
    ;

    /// Writes `value` in 4 bytes, in the byte order of the machine, which
    /// is one of the two.
    fn write_ne_u32(&mut self, value: u32) -> (r: Result<(), CodecError>)
        requires
            old(self)@.wf(),
        ensures
            ({
                let little = encoding(value as nat, 4, Endianness::Little);
                let big = encoding(value as nat, 4, Endianness::Big);
                ||| final(self)@ == old(self)@.written(little)
                ||| final(self)@ == old(self)@.written(big)
            }),
            r == write_result(old(self)@, 4),
    ;

    /// Writes `value` in 4 bytes, in two's complement, in byte order `endianness`.
    fn write_i32(&mut self, value: i32, endianness: Endianness) -> (r: Result<(), CodecError>)
        requires
            old(self)@.wf(),
        ensures
            final(self)@ == old(self)@.written(signed_encoding(value as int, 4, endianness)),
            r == write_result(old(self)@, 4),
    ;

    /// Writes `value` in 4 bytes, in two's complement, most significant byte first.
    fn write_be_i32(&mut self, value: i32) -> (r: Result<(), CodecError>)
        requires
            old(self)@.wf(),
        ensures
            final(self)@ == old(self)@.written(signed_encoding(value as int, 4, Endianness::Big)),
            r == write_result(old(self)@, 4),
    ;

    /// Writes `value` in 4 bytes, in two's complement, least significant byte first.
    fn write_le_i32(&mut self, value: i32) -> (r: Result<(), CodecError>)
        requires
            old(self)@.wf(),
        ensures
            final(self)@ == old(self)@.written(
                signed_encoding(value as int, 4, Endianness::Little),
            ),
            r == write_result(old(self)@, 4),
    ;

    /// Writes `value` in 4 bytes, in two's complement, in the byte order of the machine, which
    /// is one of the two.
    fn write_ne_i32(&mut self, value: i32) -> (r: Result<(), CodecError>)
        requires
            old(self)@.wf(),
        ensures
            ({
                let little = signed_encoding(value as int, 4, Endianness::Little);
                let big = signed_encoding(value as int, 4, Endianness::Big);
                ||| final(self)@ == old(self)@.written(little)
                ||| final(self)@ == old(self)@.written(big)
            }),
            r == write_result(old(self)@, 4),
    ;

    /// Writes `value` in 8 bytes, in byte order `endianness`.
    fn write_u64(&mut self, value: u64, endianness: Endianness) -> (r: Result<(), CodecError>)
        requires
            old(self)@.wf(),
        ensures
            final(self)@ == old(self)@.written(encoding(value as nat, 8, endianness)),
            r == write_result(old(self)@, 8),
    ;

    /// Writes `value` in 8 bytes, most significant byte first.
    fn write_be_u64(&mut self, value: u64) -> (r: Result<(), CodecError>)
        requires
            old(self)@.wf(),
        ensures
            final(self)@ == old(self)@.written(encoding(value as nat, 8, Endianness::Big)),
            r == write_result(old(self)@, 8),
    ;

    /// Writes `value` in 8 bytes, least significant byte first.
    fn write_le_u64(&mut self, value: u64) -> (r: Result<(), CodecError>)
        requires
            old(self)@.wf(),
        ensures
            final(self)@ == old(self)@.written(encoding(value as nat, 8, Endianness::Little)),
            r == write_result(old(self)@, 8),
    ;

    /// Writes `value` in 8 bytes, in the byte order of the machine, which
    /// is one of the two.
    fn write_ne_u64(&mut self, value: u64) -> (r: Result<(), CodecError>)
        requires
            old(self)@.wf(),
        ensures
            ({
                let little = encoding(value as nat, 8, Endianness::Little);
                let big = encoding(value as nat, 8, Endianness::Big);
                ||| final(self)@ == old(self)@.written(little)
                ||| final(self)@ == old(self)@.written(big)
            }),
            r == write_result(old(self)@, 8),
    ;

    /// Writes `value` in 8 bytes, in two's complement, in byte order `endianness`.
    fn write_i64(&mut self, value: i64, endianness: Endianness) -> (r: Result<(), CodecError>)
        requires
            old(self)@.wf(),
        ensures
            final(self)@ == old(self)@.written(signed_encoding(value as int, 8, endianness)),
            r == write_result(old(self)@, 8),
    ;

    /// Writes `value` in 8 bytes, in two's complement, most significant byte first.
    fn write_be_i64(&mut self, value: i64) -> (r: Result<(), CodecError>)
        requires
            old(self)@.wf(),
        ensures
            final(self)@ == old(self)@.written(signed_encoding(value as int, 8, Endianness::Big)),
            r == write_result(old(self)@, 8),
    ;

    /// Writes `value` in 8 bytes, in two's complement, least significant byte first.
    fn write_le_i64(&mut self, value: i64) -> (r: Result<(), CodecError>)
        requires
            old(self)@.wf(),
        ensures
            final(self)@ == old(self)@.written(
                signed_encoding(value as int, 8, Endianness::Little),
            ),
            r == write_result(old(self)@, 8),
    ;

    /// Writes `value` in 8 bytes, in two's complement, in the byte order of the machine, which
    /// is one of the two.
    fn write_ne_i64(&mut self, value: i64) -> (r: Result<(), CodecError>)
        requires
            old(self)@.wf(),
        ensures
            ({
                let little = signed_encoding(value as int, 8, Endianness::Little);
                let big = signed_encoding(value as int, 8, Endianness::Big);
                ||| final(self)@ == old(self)@.written(little)
                ||| final(self)@ == old(self)@.written(big)
            }),
            r == write_result(old(self)@, 8),
    ;

    /// Writes the UTF-8 bytes of `value`, with nothing before or after them.
    fn write_string(&mut self, value: &str) -> (r: Result<(), CodecError>)
        requires
            old(self)@.wf(),
        ensures
            final(self)@ == old(self)@.written(encode_utf8(value@)),
            r == write_result(old(self)@, encode_utf8(value@).len()),
    ;

    /// Writes the UTF-8 bytes of `value` and a zero byte after them.
    fn write_nt_string(&mut self, value: &str) -> (r: Result<(), CodecError>)
        requires
            old(self)@.wf(),
        ensures
            final(self)@ == old(self)@.written(encode_utf8(value@) + seq![0u8]),
            r == write_result(old(self)@, encode_utf8(value@).len() + 1),
    ;
}

impl<S: SeekableStream> BinaryWriterExt for S {
    fn write_raw(&mut self, bytes: &[u8]) -> (r: Result<(), CodecError>) {
        write_all(self, bytes)
    }

    fn write_u8(&mut self, value: u8) -> (r: Result<(), CodecError>) {
        let bytes = [value];
        assert(bytes@ =~= seq![value]);
        write_all(self, bytes.as_slice())
    }

    fn write_i8(&mut self, value: i8) -> (r: Result<(), CodecError>) {
        self.write_u8(i8_to_bits(value))
    }

    fn write_u16(&mut self, value: u16, endianness: Endianness) -> (r: Result<(), CodecError>) {
        write_unsigned(self, value as u64, 2, endianness)
    }

    fn write_be_u16(&mut self, value: u16) -> (r: Result<(), CodecError>) {
        self.write_u16(value, Endianness::Big)
    }

    fn write_le_u16(&mut self, value: u16) -> (r: Result<(), CodecError>) {
        self.write_u16(value, Endianness::Little)
    }

    fn write_ne_u16(&mut self, value: u16) -> (r: Result<(), CodecError>) {
        self.write_u16(value, native_endianness())
    }

    fn write_i16(&mut self, value: i16, endianness: Endianness) -> (r: Result<(), CodecError>) {
        self.write_u16(i16_to_bits(value), endianness)
    }

    fn write_be_i16(&mut self, value: i16) -> (r: Result<(), CodecError>) {
        self.write_i16(value, Endianness::Big)
    }

    fn write_le_i16(&mut self, value: i16) -> (r: Result<(), CodecError>) {
        self.write_i16(value, Endianness::Little)
    }

    fn write_ne_i16(&mut self, value: i16) -> (r: Result<(), CodecError>) {
        self.write_i16(value, native_endianness())
    }

    fn write_u32(&mut self, value: u32, endianness: Endianness) -> (r: Result<(), CodecError>) {
        write_unsigned(self, value as u64, 4, endianness)
    }

    fn write_be_u32(&mut self, value: u32) -> (r: Result<(), CodecError>) {
        self.write_u32(value, Endianness::Big)
    }

    fn write_le_u32(&mut self, value: u32) -> (r: Result<(), CodecError>) {
        self.write_u32(value, Endianness::Little)
    }

    fn write_ne_u32(&mut self, value: u32) -> (r: Result<(), CodecError>) {
        self.write_u32(value, native_endianness())
    }

    fn write_i32(&mut self, value: i32, endianness: Endianness) -> (r: Result<(), CodecError>) {
        self.write_u32(i32_to_bits(value), endianness)
    }

    fn write_be_i32(&mut self, value: i32) -> (r: Result<(), CodecError>) {
        self.write_i32(value, Endianness::Big)
    }

    fn write_le_i32(&mut self, value: i32) -> (r: Result<(), CodecError>) {
        self.write_i32(value, Endianness::Little)
    }

    fn write_ne_i32(&mut self, value: i32) -> (r: Result<(), CodecError>) {
        self.write_i32(value, native_endianness())
    }

    fn write_u64(&mut self, value: u64, endianness: Endianness) -> (r: Result<(), CodecError>) {
        write_unsigned(self, value, 8, endianness)
    }

    fn write_be_u64(&mut self, value: u64) -> (r: Result<(), CodecError>) {
        self.write_u64(value, Endianness::Big)
    }

    fn write_le_u64(&mut self, value: u64) -> (r: Result<(), CodecError>) {
        self.write_u64(value, Endianness::Little)
    }

    fn write_ne_u64(&mut self, value: u64) -> (r: Result<(), CodecError>) {
        self.write_u64(value, native_endianness())
    }

    fn write_i64(&mut self, value: i64, endianness: Endianness) -> (r: Result<(), CodecError>) {
        self.write_u64(i64_to_bits(value), endianness)
    }

    fn write_be_i64(&mut self, value: i64) -> (r: Result<(), CodecError>) {
        self.write_i64(value, Endianness::Big)
    }

    fn write_le_i64(&mut self, value: i64) -> (r: Result<(), CodecError>) {
        self.write_i64(value, Endianness::Little)
    }

    fn write_ne_i64(&mut self, value: i64) -> (r: Result<(), CodecError>) {
        self.write_i64(value, native_endianness())
    }

    fn write_string(&mut self, value: &str) -> (r: Result<(), CodecError>) {
        write_all(self, value.as_bytes())
    }

    fn write_nt_string(&mut self, value: &str) -> (r: Result<(), CodecError>) {
        proof {
            lemma_written_twice(self@, encode_utf8(value@), seq![0u8]);
        }
        write_all(self, value.as_bytes())?;
        self.write_u8(0)
    }
}

} // verus!
