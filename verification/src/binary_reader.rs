//! Typed reads: integers in either byte order, raw and delimited bytes, and strings that are
//! fixed in size, end with a zero byte, or stand behind their length.

use crate::encoding::{
    byte_range, decode_unsigned, decoding, i16_from_bits, i32_from_bits, i64_from_bits,
    i8_from_bits, lemma_byte_range_values, lemma_encode_decode, signed_decoding, signed_value,
};
use crate::endianness::{native_endianness, Endianness};
use crate::error::CodecError;
use crate::stream::{SeekableStream, StreamState};
use crate::text::{decode_text, decoded_text, viewed};
use vstd::prelude::*;

verus! {

/// The bytes of `bytes` that come before its first `delimiter`, if it holds one.
pub open spec fn delimited(bytes: Seq<u8>, delimiter: u8) -> Option<Seq<u8>> {
    match bytes.index_of_first(delimiter) {
        Some(index) => Some(bytes.take(index)),
        None => None,
    }
}

/// The widths, in bytes, that the length before a size-prefixed string can have.
pub open spec fn is_prefix_width(width: nat) -> bool {
    width == 1 || width == 2 || width == 4 || width == 8
}

/// What reading `size` bytes as text gives on a stream in state `start`, and the state in
/// which that leaves the stream. The bytes are consumed whether or not they are valid text.
pub open spec fn fixed_string_read(start: StreamState, size: nat) -> (
    Result<Seq<char>, CodecError>,
    StreamState,
) {
    (
        if start.available() < size {
            Err(CodecError::Truncated)
        } else {
            decoded_text(start.upcoming(size))
        },
        start.consumed(size),
    )
}

/// What reading up to the first `delimiter` gives on a stream in state `start`, and the state
/// in which that leaves the stream: past the delimiter, or at the end where there is none.
pub open spec fn delimited_read(start: StreamState, delimiter: u8) -> (
    Result<Seq<u8>, CodecError>,
    StreamState,
) {
    match delimited(start.remaining(), delimiter) {
        Some(field) => (Ok(field), start.at(start.position + field.len() + 1)),
        None => (Err(CodecError::Truncated), start.at(start.bytes.len())),
    }
}

/// What reading a string that ends with a zero byte gives on a stream in state `start`, and
/// the state in which that leaves the stream.
pub open spec fn terminated_string_read(start: StreamState) -> (
    Result<Seq<char>, CodecError>,
    StreamState,
) {
    (
        match delimited_read(start, 0).0 {
            Ok(field) => decoded_text(field),
            Err(error) => Err(error),
        },
        delimited_read(start, 0).1,
    )
}

/// What reading a string behind its length gives on a stream in state `start`, and the
/// state in which that leaves the stream. The length is an unsigned number of `prefix_width`
/// bytes in byte order `order`; a width that is none of 1, 2, 4 and 8 is refused before
/// anything is read.
pub open spec fn prefixed_string_read(start: StreamState, prefix_width: nat, order: Endianness) -> (
    Result<Seq<char>, CodecError>,
    StreamState,
) {
    if !is_prefix_width(prefix_width) {
        (Err(CodecError::InvalidArgument), start)
    } else if start.available() < prefix_width {
        (Err(CodecError::Truncated), start.consumed(prefix_width))
    } else {
        fixed_string_read(
            start.consumed(prefix_width),
            decoding(start.upcoming(prefix_width), order),
        )
    }
}

/// Where a delimiter stands with none before it, the field is what comes before that place.
pub proof fn lemma_delimited_found(bytes: Seq<u8>, delimiter: u8, index: int)
    requires
        0 <= index < bytes.len(),
        bytes[index] == delimiter,
        forall|j: int| 0 <= j < index ==> bytes[j] != delimiter,
    ensures
        delimited(bytes, delimiter) == Some(bytes.take(index)),
{
    bytes.index_of_first_ensures(delimiter);
}

/// Bytes that hold no delimiter hold no field.
pub proof fn lemma_delimited_missing(bytes: Seq<u8>, delimiter: u8)
    requires
        forall|j: int| 0 <= j < bytes.len() ==> bytes[j] != delimiter,
    ensures
        delimited(bytes, delimiter) is None,
{
    bytes.index_of_first_ensures(delimiter);
}

/// A read of as many bytes as are left gets them all and leaves the stream at its end; a
/// read of more fails.
pub proof fn lemma_read_to_the_end(start: StreamState, count: nat)
    requires
        start.wf(),
    ensures
        count == start.available() ==> start.consumed(count).position == start.bytes.len()
            && start.upcoming(count) == start.remaining(),
        count > start.available() ==> start.consumed(count).position == start.bytes.len(),
        start.consumed(count).wf(),
{
}

/// Reads `width` bytes as an unsigned number in byte order `order`.
pub fn read_unsigned<S: SeekableStream>(stream: &mut S, width: usize, order: Endianness) -> (r:
    Result<u64, CodecError>)
    requires
        old(stream)@.wf(),
        width <= 8,
    ensures
        final(stream)@ == old(stream)@.consumed(width as nat),
        r is Ok <==> old(stream)@.available() >= width,
        r matches Ok(value) ==> value == decoding(old(stream)@.upcoming(width as nat), order)
            && value < byte_range(width as nat),
        r matches Err(error) ==> error == CodecError::Truncated,
{
    let bytes = stream.read(width);
    if bytes.len() != width {
        return Err(CodecError::Truncated);
    }
    proof {
        lemma_encode_decode(bytes@, order);
    }
    Ok(decode_unsigned(bytes.as_slice(), order))
}

/// Typed reads on a seekable stream: integers of every width in either byte order, raw and
/// delimited bytes, and strings in three encodings. A read that finds too few bytes fails
/// with `Truncated` and leaves the stream at its end.
pub trait BinaryReader: SeekableStream {
    /// Reads exactly `size` bytes.
    fn read_raw(&mut self, size: usize) -> (r: Result<Vec<u8>, CodecError>)
        requires
            old(self)@.wf(),
        ensures
            final(self)@ == old(self)@.consumed(size as nat),
            r is Ok <==> old(self)@.available() >= size,
            r matches Ok(bytes) ==> bytes@ == old(self)@.upcoming(size as nat),
            r matches Err(error) ==> error == CodecError::Truncated,
    ;

    /// Reads the bytes up to the first `delim`, byte by byte. The delimiter is consumed and
    /// left out of the result. Where the stream ends before one is found, the read fails
    /// with `Truncated`; nothing bounds the length of what is read before that.
    fn read_to_delim(&mut self, delim: u8) -> (r: Result<Vec<u8>, CodecError>)
        requires
            old(self)@.wf(),
        ensures
            final(self)@ == delimited_read(old(self)@, delim).1,
            r is Ok <==> delimited_read(old(self)@, delim).0 is Ok,
            r matches Ok(bytes) ==> delimited_read(old(self)@, delim).0 == Ok::<
                Seq<u8>,
                CodecError,
            >(bytes@),
            r matches Err(error) ==> error == CodecError::Truncated,
    ;

    /// Reads one byte as an unsigned number.
    fn read_u8(&mut self) -> (r: Result<u8, CodecError>)
        requires
            old(self)@.wf(),
        ensures
            final(self)@ == old(self)@.consumed(1),
            r is Ok <==> old(self)@.available() >= 1,
            r matches Ok(value) ==> value == old(self)@.upcoming(1)[0],
            r matches Err(error) ==> error == CodecError::Truncated,
    ;

    /// Reads one byte as an unsigned number into `target`, which keeps its value where the
    /// read fails.
    fn read_into_u8(&mut self, target: &mut u8) -> (r: Result<(), CodecError>)
        requires
            old(self)@.wf(),
        ensures
            final(self)@ == old(self)@.consumed(1),
            r is Ok <==> old(self)@.available() >= 1,
            r is Ok ==> *final(target) == old(self)@.upcoming(1)[0],
            r matches Err(error) ==> error == CodecError::Truncated && *final(target) == *old(
                target,
            ),
    ;

    /// Reads one byte as a signed number in two's complement.
    fn read_i8(&mut self) -> (r: Result<i8, CodecError>)
        requires
            old(self)@.wf(),
        ensures
            final(self)@ == old(self)@.consumed(1),
            r is Ok <==> old(self)@.available() >= 1,
            r matches Ok(value) ==> value == signed_value(old(self)@.upcoming(1)[0] as nat, 1),
            r matches Err(error) ==> error == CodecError::Truncated,
    ;

    /// Reads one byte as a signed number in two's complement into `target`, which keeps its
    /// value where the read fails.
    fn read_into_i8(&mut self, target: &mut i8) -> (r: Result<(), CodecError>)
        requires
            old(self)@.wf(),
        ensures
            final(self)@ == old(self)@.consumed(1),
            r is Ok <==> old(self)@.available() >= 1,
            r is Ok ==> *final(target) == signed_value(old(self)@.upcoming(1)[0] as nat, 1),
            r matches Err(error) ==> error == CodecError::Truncated && *final(target) == *old(
                target,
            ),
    ;

    /// Reads 2 bytes as an unsigned number in byte order `endianness`.
    fn read_u16(&mut self, endianness: Endianness) -> (r: Result<u16, CodecError>)
        requires
            old(self)@.wf(),
        ensures
            final(self)@ == old(self)@.consumed(2),
            r is Ok <==> old(self)@.available() >= 2,
            r matches Ok(value) ==> value == decoding(old(self)@.upcoming(2), endianness),
            r matches Err(error) ==> error == CodecError::Truncated,
    ;

    /// Reads 2 bytes as an unsigned number least significant byte first.
    fn read_le_u16(&mut self) -> (r: Result<u16, CodecError>)
        requires
            old(self)@.wf(),
        ensures
            final(self)@ == old(self)@.consumed(2),
            r is Ok <==> old(self)@.available() >= 2,
            r matches Ok(value) ==> value == decoding(old(self)@.upcoming(2), Endianness::Little),
            r matches Err(error) ==> error == CodecError::Truncated,
    ;

    /// Reads 2 bytes as an unsigned number most significant byte first.
    fn read_be_u16(&mut self) -> (r: Result<u16, CodecError>)
        requires
            old(self)@.wf(),
        ensures
            final(self)@ == old(self)@.consumed(2),
            r is Ok <==> old(self)@.available() >= 2,
            r matches Ok(value) ==> value == decoding(old(self)@.upcoming(2), Endianness::Big),
            r matches Err(error) ==> error == CodecError::Truncated,
    ;

    /// Reads 2 bytes as an unsigned number in the byte order of the
    /// machine, which is one of the two.
    fn read_ne_u16(&mut self) -> (r: Result<u16, CodecError>)
        requires
            old(self)@.wf(),
        ensures
            final(self)@ == old(self)@.consumed(2),
            r is Ok <==> old(self)@.available() >= 2,
            r matches Ok(value) ==> ({
                let bytes = old(self)@.upcoming(2);
                ||| value == decoding(bytes, Endianness::Little)
                ||| value == decoding(bytes, Endianness::Big)
            }),
            r matches Err(error) ==> error == CodecError::Truncated,
    ;

    /// Reads as `read_u16` does, into `target`, which keeps its value where the read fails.
    fn read_into_u16(&mut self, target: &mut u16, endianness: Endianness) -> (r: Result<
        (),
        CodecError,
    >)
        requires
            old(self)@.wf(),
        ensures
            final(self)@ == old(self)@.consumed(2),
            r is Ok <==> old(self)@.available() >= 2,
            r is Ok ==> *final(target) == decoding(old(self)@.upcoming(2), endianness),
            r matches Err(error) ==> error == CodecError::Truncated && *final(target) == *old(
                target,
            ),
    ;

    /// Reads as `read_le_u16` does, into `target`, which keeps its value where the read
    /// fails.
    fn read_into_le_u16(&mut self, target: &mut u16) -> (r: Result<(), CodecError>)
        requires
            old(self)@.wf(),
        ensures
            final(self)@ == old(self)@.consumed(2),
            r is Ok <==> old(self)@.available() >= 2,
            r is Ok ==> *final(target) == decoding(old(self)@.upcoming(2), Endianness::Little),
            r matches Err(error) ==> error == CodecError::Truncated && *final(target) == *old(
                target,
            ),
    ;

    /// Reads as `read_be_u16` does, into `target`, which keeps its value where the read
    /// fails.
    fn read_into_be_u16(&mut self, target: &mut u16) -> (r: Result<(), CodecError>)
        requires
            old(self)@.wf(),
        ensures
            final(self)@ == old(self)@.consumed(2),
            r is Ok <==> old(self)@.available() >= 2,
            r is Ok ==> *final(target) == decoding(old(self)@.upcoming(2), Endianness::Big),
            r matches Err(error) ==> error == CodecError::Truncated && *final(target) == *old(
                target,
            ),
    ;

    /// Reads as `read_ne_u16` does, into `target`, which keeps its value where the read
    /// fails.
    fn read_into_ne_u16(&mut self, target: &mut u16) -> (r: Result<(), CodecError>)
        requires
            old(self)@.wf(),
        ensures
            final(self)@ == old(self)@.consumed(2),
            r is Ok <==> old(self)@.available() >= 2,
            r is Ok ==> ({
                let bytes = old(self)@.upcoming(2);
                ||| *final(target) == decoding(bytes, Endianness::Little)
                ||| *final(target) == decoding(bytes, Endianness::Big)
            }),
            r matches Err(error) ==> error == CodecError::Truncated && *final(target) == *old(
                target,
            ),
    ;

    /// Reads 2 bytes as a signed number, in two's complement, in byte order `endianness`.
    fn read_i16(&mut self, endianness: Endianness) -> (r: Result<i16, CodecError>)
        requires
            old(self)@.wf(),
        ensures
            final(self)@ == old(self)@.consumed(2),
            r is Ok <==> old(self)@.available() >= 2,
            r matches Ok(value) ==> value == signed_decoding(old(self)@.upcoming(2), endianness),
            r matches Err(error) ==> error == CodecError::Truncated,
    ;

    /// Reads 2 bytes as a signed number, in two's complement, least significant byte first.
    fn read_le_i16(&mut self) -> (r: Result<i16, CodecError>)
        requires
            old(self)@.wf(),
        ensures
            final(self)@ == old(self)@.consumed(2),
            r is Ok <==> old(self)@.available() >= 2,
            r matches Ok(value) ==> value == signed_decoding(
                old(self)@.upcoming(2),
                Endianness::Little,
            ),
            r matches Err(error) ==> error == CodecError::Truncated,
    ;

    /// Reads 2 bytes as a signed number, in two's complement, most significant byte first.
    fn read_be_i16(&mut self) -> (r: Result<i16, CodecError>)
        requires
            old(self)@.wf(),
        ensures
            final(self)@ == old(self)@.consumed(2),
            r is Ok <==> old(self)@.available() >= 2,
            r matches Ok(value) ==> value == signed_decoding(
                old(self)@.upcoming(2),
                Endianness::Big,
            ),
            r matches Err(error) ==> error == CodecError::Truncated,
    ;

    /// Reads 2 bytes as a signed number, in two's complement, in the byte order of the
    /// machine, which is one of the two.
    fn read_ne_i16(&mut self) -> (r: Result<i16, CodecError>)
        requires
            old(self)@.wf(),
        ensures
            final(self)@ == old(self)@.consumed(2),
            r is Ok <==> old(self)@.available() >= 2,
            r matches Ok(value) ==> ({
                let bytes = old(self)@.upcoming(2);
                ||| value == signed_decoding(bytes, Endianness::Little)
                ||| value == signed_decoding(bytes, Endianness::Big)
            }),
            r matches Err(error) ==> error == CodecError::Truncated,
    ;

    /// Reads as `read_i16` does, into `target`, which keeps its value where the read fails.
    fn read_into_i16(&mut self, target: &mut i16, endianness: Endianness) -> (r: Result<
        (),
        CodecError,
    >)
        requires
            old(self)@.wf(),
        ensures
            final(self)@ == old(self)@.consumed(2),
            r is Ok <==> old(self)@.available() >= 2,
            r is Ok ==> *final(target) == signed_decoding(old(self)@.upcoming(2), endianness),
            r matches Err(error) ==> error == CodecError::Truncated && *final(target) == *old(
                target,
            ),
    ;

    /// Reads as `read_le_i16` does, into `target`, which keeps its value where the read
    /// fails.
    fn read_into_le_i16(&mut self, target: &mut i16) -> (r: Result<(), CodecError>)
        requires
            old(self)@.wf(),
        ensures
            final(self)@ == old(self)@.consumed(2),
            r is Ok <==> old(self)@.available() >= 2,
            r is Ok ==> *final(target) == signed_decoding(
                old(self)@.upcoming(2),
                Endianness::Little,
            ),
            r matches Err(error) ==> error == CodecError::Truncated && *final(target) == *old(
                target,
            ),
    ;

    /// Reads as `read_be_i16` does, into `target`, which keeps its value where the read
    /// fails.
    fn read_into_be_i16(&mut self, target: &mut i16) -> (r: Result<(), CodecError>)
        requires
            old(self)@.wf(),
        ensures
            final(self)@ == old(self)@.consumed(2),
            r is Ok <==> old(self)@.available() >= 2,
            r is Ok ==> *final(target) == signed_decoding(old(self)@.upcoming(2), Endianness::Big),
            r matches Err(error) ==> error == CodecError::Truncated && *final(target) == *old(
                target,
            ),
    ;

    /// Reads as `read_ne_i16` does, into `target`, which keeps its value where the read
    /// fails.
    fn read_into_ne_i16(&mut self, target: &mut i16) -> (r: Result<(), CodecError>)
        requires
            old(self)@.wf(),
        ensures
            final(self)@ == old(self)@.consumed(2),
            r is Ok <==> old(self)@.available() >= 2,
            r is Ok ==> ({
                let bytes = old(self)@.upcoming(2);
                ||| *final(target) == signed_decoding(bytes, Endianness::Little)
                ||| *final(target) == signed_decoding(bytes, Endianness::Big)
            }),
            r matches Err(error) ==> error == CodecError::Truncated && *final(target) == *old(
                target,
            ),
    ;

    /// Reads 4 bytes as an unsigned number in byte order `endianness`.
    fn read_u32(&mut self, endianness: Endianness) -> (r: Result<u32, CodecError>)
        requires
            old(self)@.wf(),
        ensures
            final(self)@ == old(self)@.consumed(4),
            r is Ok <==> old(self)@.available() >= 4,
            r matches Ok(value) ==> value == decoding(old(self)@.upcoming(4), endianness),
            r matches Err(error) ==> error == CodecError::Truncated,
    ;

    /// Reads 4 bytes as an unsigned number least significant byte first.
    fn read_le_u32(&mut self) -> (r: Result<u32, CodecError>)
        requires
            old(self)@.wf(),
        ensures
            final(self)@ == old(self)@.consumed(4),
            r is Ok <==> old(self)@.available() >= 4,
            r matches Ok(value) ==> value == decoding(old(self)@.upcoming(4), Endianness::Little),
            r matches Err(error) ==> error == CodecError::Truncated,
    ;

    /// Reads 4 bytes as an unsigned number most significant byte first.
    fn read_be_u32(&mut self) -> (r: Result<u32, CodecError>)
        requires
            old(self)@.wf(),
        ensures
            final(self)@ == old(self)@.consumed(4),
            r is Ok <==> old(self)@.available() >= 4,
            r matches Ok(value) ==> value == decoding(old(self)@.upcoming(4), Endianness::Big),
            r matches Err(error) ==> error == CodecError::Truncated,
    ;

    /// Reads 4 bytes as an unsigned number in the byte order of the
    /// machine, which is one of the two.
    fn read_ne_u32(&mut self) -> (r: Result<u32, CodecError>)
        requires
            old(self)@.wf(),
        ensures
            final(self)@ == old(self)@.consumed(4),
            r is Ok <==> old(self)@.available() >= 4,
            r matches Ok(value) ==> ({
                let bytes = old(self)@.upcoming(4);
                ||| value == decoding(bytes, Endianness::Little)
                ||| value == decoding(bytes, Endianness::Big)
            }),
            r matches Err(error) ==> error == CodecError::Truncated,
    ;

    /// Reads as `read_u32` does, into `target`, which keeps its value where the read fails.
    fn read_into_u32(&mut self, target: &mut u32, endianness: Endianness) -> (r: Result<
        (),
        CodecError,
    >)
        requires
            old(self)@.wf(),
        ensures
            final(self)@ == old(self)@.consumed(4),
            r is Ok <==> old(self)@.available() >= 4,
            r is Ok ==> *final(target) == decoding(old(self)@.upcoming(4), endianness),
            r matches Err(error) ==> error == CodecError::Truncated && *final(target) == *old(
                target,
            ),
    ;

    /// Reads as `read_le_u32` does, into `target`, which keeps its value where the read
    /// fails.
    fn read_into_le_u32(&mut self, target: &mut u32) -> (r: Result<(), CodecError>)
        requires
            old(self)@.wf(),
        ensures
            final(self)@ == old(self)@.consumed(4),
            r is Ok <==> old(self)@.available() >= 4,
            r is Ok ==> *final(target) == decoding(old(self)@.upcoming(4), Endianness::Little),
            r matches Err(error) ==> error == CodecError::Truncated && *final(target) == *old(
                target,
            ),
    ;

    /// Reads as `read_be_u32` does, into `target`, which keeps its value where the read
    /// fails.
    fn read_into_be_u32(&mut self, target: &mut u32) -> (r: Result<(), CodecError>)
        requires
            old(self)@.wf(),
        ensures
            final(self)@ == old(self)@.consumed(4),
            r is Ok <==> old(self)@.available() >= 4,
            r is Ok ==> *final(target) == decoding(old(self)@.upcoming(4), Endianness::Big),
            r matches Err(error) ==> error == CodecError::Truncated && *final(target) == *old(
                target,
            ),
    ;

    /// Reads as `read_ne_u32` does, into `target`, which keeps its value where the read
    /// fails.
    fn read_into_ne_u32(&mut self, target: &mut u32) -> (r: Result<(), CodecError>)
        requires
            old(self)@.wf(),
        ensures
            final(self)@ == old(self)@.consumed(4),
            r is Ok <==> old(self)@.available() >= 4,
            r is Ok ==> ({
                let bytes = old(self)@.upcoming(4);
                ||| *final(target) == decoding(bytes, Endianness::Little)
                ||| *final(target) == decoding(bytes, Endianness::Big)
            }),
            r matches Err(error) ==> error == CodecError::Truncated && *final(target) == *old(
                target,
            ),
    ;

    /// Reads 4 bytes as a signed number, in two's complement, in byte order `endianness`.
    fn read_i32(&mut self, endianness: Endianness) -> (r: Result<i32, CodecError>)
        requires
            old(self)@.wf(),
        ensures
            final(self)@ == old(self)@.consumed(4),
            r is Ok <==> old(self)@.available() >= 4,
            r matches Ok(value) ==> value == signed_decoding(old(self)@.upcoming(4), endianness),
            r matches Err(error) ==> error == CodecError::Truncated,
    ;

    /// Reads 4 bytes as a signed number, in two's complement, least significant byte first.
    fn read_le_i32(&mut self) -> (r: Result<i32, CodecError>)
        requires
            old(self)@.wf(),
        ensures
            final(self)@ == old(self)@.consumed(4),
            r is Ok <==> old(self)@.available() >= 4,
            r matches Ok(value) ==> value == signed_decoding(
                old(self)@.upcoming(4),
                Endianness::Little,
            ),
            r matches Err(error) ==> error == CodecError::Truncated,
    ;

    /// Reads 4 bytes as a signed number, in two's complement, most significant byte first.
    fn read_be_i32(&mut self) -> (r: Result<i32, CodecError>)
        requires
            old(self)@.wf(),
        ensures
            final(self)@ == old(self)@.consumed(4),
            r is Ok <==> old(self)@.available() >= 4,
            r matches Ok(value) ==> value == signed_decoding(
                old(self)@.upcoming(4),
                Endianness::Big,
            ),
            r matches Err(error) ==> error == CodecError::Truncated,
    ;

    /// Reads 4 bytes as a signed number, in two's complement, in the byte order of the
    /// machine, which is one of the two.
    fn read_ne_i32(&mut self) -> (r: Result<i32, CodecError>)
        requires
            old(self)@.wf(),
        ensures
            final(self)@ == old(self)@.consumed(4),
            r is Ok <==> old(self)@.available() >= 4,
            r matches Ok(value) ==> ({
                let bytes = old(self)@.upcoming(4);
                ||| value == signed_decoding(bytes, Endianness::Little)
                ||| value == signed_decoding(bytes, Endianness::Big)
            }),
            r matches Err(error) ==> error == CodecError::Truncated,
    ;

    /// Reads as `read_i32` does, into `target`, which keeps its value where the read fails.
    fn read_into_i32(&mut self, target: &mut i32, endianness: Endianness) -> (r: Result<
        (),
        CodecError,
    >)
        requires
            old(self)@.wf(),
        ensures
            final(self)@ == old(self)@.consumed(4),
            r is Ok <==> old(self)@.available() >= 4,
            r is Ok ==> *final(target) == signed_decoding(old(self)@.upcoming(4), endianness),
            r matches Err(error) ==> error == CodecError::Truncated && *final(target) == *old(
                target,
            ),
    ;

    /// Reads as `read_le_i32` does, into `target`, which keeps its value where the read
    /// fails.
    fn read_into_le_i32(&mut self, target: &mut i32) -> (r: Result<(), CodecError>)
        requires
            old(self)@.wf(),
        ensures
            final(self)@ == old(self)@.consumed(4),
            r is Ok <==> old(self)@.available() >= 4,
            r is Ok ==> *final(target) == signed_decoding(
                old(self)@.upcoming(4),
                Endianness::Little,
            ),
            r matches Err(error) ==> error == CodecError::Truncated && *final(target) == *old(
                target,
            ),
    ;

    /// Reads as `read_be_i32` does, into `target`, which keeps its value where the read
    /// fails.
    fn read_into_be_i32(&mut self, target: &mut i32) -> (r: Result<(), CodecError>)
        requires
            old(self)@.wf(),
        ensures
            final(self)@ == old(self)@.consumed(4),
            r is Ok <==> old(self)@.available() >= 4,
            r is Ok ==> *final(target) == signed_decoding(old(self)@.upcoming(4), Endianness::Big),
            r matches Err(error) ==> error == CodecError::Truncated && *final(target) == *old(
                target,
            ),
    ;

    /// Reads as `read_ne_i32` does, into `target`, which keeps its value where the read
    /// fails.
    fn read_into_ne_i32(&mut self, target: &mut i32) -> (r: Result<(), CodecError>)
        requires
            old(self)@.wf(),
        ensures
            final(self)@ == old(self)@.consumed(4),
            r is Ok <==> old(self)@.available() >= 4,
            r is Ok ==> ({
                let bytes = old(self)@.upcoming(4);
                ||| *final(target) == signed_decoding(bytes, Endianness::Little)
                ||| *final(target) == signed_decoding(bytes, Endianness::Big)
            }),
            r matches Err(error) ==> error == CodecError::Truncated && *final(target) == *old(
                target,
            ),
    ;

    /// Reads 8 bytes as an unsigned number in byte order `endianness`.
    fn read_u64(&mut self, endianness: Endianness) -> (r: Result<u64, CodecError>)
        requires
            old(self)@.wf(),
        ensures
            final(self)@ == old(self)@.consumed(8),
            r is Ok <==> old(self)@.available() >= 8,
            r matches Ok(value) ==> value == decoding(old(self)@.upcoming(8), endianness),
            r matches Err(error) ==> error == CodecError::Truncated,
    ;

    /// Reads 8 bytes as an unsigned number least significant byte first.
    fn read_le_u64(&mut self) -> (r: Result<u64, CodecError>)
        requires
            old(self)@.wf(),
        ensures
            final(self)@ == old(self)@.consumed(8),
            r is Ok <==> old(self)@.available() >= 8,
            r matches Ok(value) ==> value == decoding(old(self)@.upcoming(8), Endianness::Little),
            r matches Err(error) ==> error == CodecError::Truncated,
    ;

    /// Reads 8 bytes as an unsigned number most significant byte first.
    fn read_be_u64(&mut self) -> (r: Result<u64, CodecError>)
        requires
            old(self)@.wf(),
        ensures
            final(self)@ == old(self)@.consumed(8),
            r is Ok <==> old(self)@.available() >= 8,
            r matches Ok(value) ==> value == decoding(old(self)@.upcoming(8), Endianness::Big),
            r matches Err(error) ==> error == CodecError::Truncated,
    ;

    /// Reads 8 bytes as an unsigned number in the byte order of the
    /// machine, which is one of the two.
    fn read_ne_u64(&mut self) -> (r: Result<u64, CodecError>)
        requires
            old(self)@.wf(),
        ensures
            final(self)@ == old(self)@.consumed(8),
            r is Ok <==> old(self)@.available() >= 8,
            r matches Ok(value) ==> ({
                let bytes = old(self)@.upcoming(8);
                ||| value == decoding(bytes, Endianness::Little)
                ||| value == decoding(bytes, Endianness::Big)
            }),
            r matches Err(error) ==> error == CodecError::Truncated,
    ;

    /// Reads as `read_u64` does, into `target`, which keeps its value where the read fails.
    fn read_into_u64(&mut self, target: &mut u64, endianness: Endianness) -> (r: Result<
        (),
        CodecError,
    >)
        requires
            old(self)@.wf(),
        ensures
            final(self)@ == old(self)@.consumed(8),
            r is Ok <==> old(self)@.available() >= 8,
            r is Ok ==> *final(target) == decoding(old(self)@.upcoming(8), endianness),
            r matches Err(error) ==> error == CodecError::Truncated && *final(target) == *old(
                target,
            ),
    ;

    /// Reads as `read_le_u64` does, into `target`, which keeps its value where the read
    /// fails.
    fn read_into_le_u64(&mut self, target: &mut u64) -> (r: Result<(), CodecError>)
        requires
            old(self)@.wf(),
        ensures
            final(self)@ == old(self)@.consumed(8),
            r is Ok <==> old(self)@.available() >= 8,
            r is Ok ==> *final(target) == decoding(old(self)@.upcoming(8), Endianness::Little),
            r matches Err(error) ==> error == CodecError::Truncated && *final(target) == *old(
                target,
            ),
    ;

    /// Reads as `read_be_u64` does, into `target`, which keeps its value where the read
    /// fails.
    fn read_into_be_u64(&mut self, target: &mut u64) -> (r: Result<(), CodecError>)
        requires
            old(self)@.wf(),
        ensures
            final(self)@ == old(self)@.consumed(8),
            r is Ok <==> old(self)@.available() >= 8,
            r is Ok ==> *final(target) == decoding(old(self)@.upcoming(8), Endianness::Big),
            r matches Err(error) ==> error == CodecError::Truncated && *final(target) == *old(
                target,
            ),
    ;

    /// Reads as `read_ne_u64` does, into `target`, which keeps its value where the read
    /// fails.
    fn read_into_ne_u64(&mut self, target: &mut u64) -> (r: Result<(), CodecError>)
        requires
            old(self)@.wf(),
        ensures
            final(self)@ == old(self)@.consumed(8),
            r is Ok <==> old(self)@.available() >= 8,
            r is Ok ==> ({
                let bytes = old(self)@.upcoming(8);
                ||| *final(target) == decoding(bytes, Endianness::Little)
                ||| *final(target) == decoding(bytes, Endianness::Big)
            }),
            r matches Err(error) ==> error == CodecError::Truncated && *final(target) == *old(
                target,
            ),
    ;

    /// Reads 8 bytes as a signed number, in two's complement, in byte order `endianness`.
    fn read_i64(&mut self, endianness: Endianness) -> (r: Result<i64, CodecError>)
        requires
            old(self)@.wf(),
        ensures
            final(self)@ == old(self)@.consumed(8),
            r is Ok <==> old(self)@.available() >= 8,
            r matches Ok(value) ==> value == signed_decoding(old(self)@.upcoming(8), endianness),
            r matches Err(error) ==> error == CodecError::Truncated,
    ;

    /// Reads 8 bytes as a signed number, in two's complement, least significant byte first.
    fn read_le_i64(&mut self) -> (r: Result<i64, CodecError>)
        requires
            old(self)@.wf(),
        ensures
            final(self)@ == old(self)@.consumed(8),
            r is Ok <==> old(self)@.available() >= 8,
            r matches Ok(value) ==> value == signed_decoding(
                old(self)@.upcoming(8),
                Endianness::Little,
            ),
            r matches Err(error) ==> error == CodecError::Truncated,
    ;

    /// Reads 8 bytes as a signed number, in two's complement, most significant byte first.
    fn read_be_i64(&mut self) -> (r: Result<i64, CodecError>)
        requires
            old(self)@.wf(),
        ensures
            final(self)@ == old(self)@.consumed(8),
            r is Ok <==> old(self)@.available() >= 8,
            r matches Ok(value) ==> value == signed_decoding(
                old(self)@.upcoming(8),
                Endianness::Big,
            ),
            r matches Err(error) ==> error == CodecError::Truncated,
    ;

    /// Reads 8 bytes as a signed number, in two's complement, in the byte order of the
    /// machine, which is one of the two.
    fn read_ne_i64(&mut self) -> (r: Result<i64, CodecError>)
        requires
            old(self)@.wf(),
        ensures
            final(self)@ == old(self)@.consumed(8),
            r is Ok <==> old(self)@.available() >= 8,
            r matches Ok(value) ==> ({
                let bytes = old(self)@.upcoming(8);
                ||| value == signed_decoding(bytes, Endianness::Little)
                ||| value == signed_decoding(bytes, Endianness::Big)
            }),
            r matches Err(error) ==> error == CodecError::Truncated,
    ;

    /// Reads as `read_i64` does, into `target`, which keeps its value where the read fails.
    fn read_into_i64(&mut self, target: &mut i64, endianness: Endianness) -> (r: Result<
        (),
        CodecError,
    >)
        requires
            old(self)@.wf(),
        ensures
            final(self)@ == old(self)@.consumed(8),
            r is Ok <==> old(self)@.available() >= 8,
            r is Ok ==> *final(target) == signed_decoding(old(self)@.upcoming(8), endianness),
            r matches Err(error) ==> error == CodecError::Truncated && *final(target) == *old(
                target,
            ),
    ;

    /// Reads as `read_le_i64` does, into `target`, which keeps its value where the read
    /// fails.
    fn read_into_le_i64(&mut self, target: &mut i64) -> (r: Result<(), CodecError>)
        requires
            old(self)@.wf(),
        ensures
            final(self)@ == old(self)@.consumed(8),
            r is Ok <==> old(self)@.available() >= 8,
            r is Ok ==> *final(target) == signed_decoding(
                old(self)@.upcoming(8),
                Endianness::Little,
            ),
            r matches Err(error) ==> error == CodecError::Truncated && *final(target) == *old(
                target,
            ),
    ;

    /// Reads as `read_be_i64` does, into `target`, which keeps its value where the read
    /// fails.
    fn read_into_be_i64(&mut self, target: &mut i64) -> (r: Result<(), CodecError>)
        requires
            old(self)@.wf(),
        ensures
            final(self)@ == old(self)@.consumed(8),
            r is Ok <==> old(self)@.available() >= 8,
            r is Ok ==> *final(target) == signed_decoding(old(self)@.upcoming(8), Endianness::Big),
            r matches Err(error) ==> error == CodecError::Truncated && *final(target) == *old(
                target,
            ),
    ;

    /// Reads as `read_ne_i64` does, into `target`, which keeps its value where the read
    /// fails.
    fn read_into_ne_i64(&mut self, target: &mut i64) -> (r: Result<(), CodecError>)
        requires
            old(self)@.wf(),
        ensures
            final(self)@ == old(self)@.consumed(8),
            r is Ok <==> old(self)@.available() >= 8,
            r is Ok ==> ({
                let bytes = old(self)@.upcoming(8);
                ||| *final(target) == signed_decoding(bytes, Endianness::Little)
                ||| *final(target) == signed_decoding(bytes, Endianness::Big)
            }),
            r matches Err(error) ==> error == CodecError::Truncated && *final(target) == *old(
                target,
            ),
    ;

    /// Reads `size` bytes as UTF-8 text. Bytes that are not valid UTF-8 give
    /// `InvalidEncoding`, and are consumed all the same.
    fn read_fixed_size_string(&mut self, size: usize) -> (r: Result<String, CodecError>)
        requires
            old(self)@.wf(),
        ensures
            viewed(r) == fixed_string_read(old(self)@, size as nat).0,
            final(self)@ == fixed_string_read(old(self)@, size as nat).1,
    ;

    /// Reads as `read_fixed_size_string` does, into `target`, which keeps its value where
    /// the read fails.
    fn read_into_fixed_size_string(&mut self, size: usize, target: &mut String) -> (r: Result<
        (),
        CodecError,
    >)
        requires
            old(self)@.wf(),
        ensures
            final(self)@ == fixed_string_read(old(self)@, size as nat).1,
            match fixed_string_read(old(self)@, size as nat).0 {
                Ok(text) => r is Ok && final(target)@ == text,
                Err(error) => r == Err::<(), CodecError>(error) && *final(target) == *old(target),
            },
    ;

    /// Reads UTF-8 text up to a zero byte, which is consumed and left out of the text.
    fn read_null_terminated_string(&mut self) -> (r: Result<String, CodecError>)
        requires
            old(self)@.wf(),
        ensures
            viewed(r) == terminated_string_read(old(self)@).0,
            final(self)@ == terminated_string_read(old(self)@).1,
    ;

    /// Reads as `read_null_terminated_string` does, into `target`, which keeps its value
    /// where the read fails.
    fn read_into_null_terminated_string(&mut self, target: &mut String) -> (r: Result<
        (),
        CodecError,
    >)
        requires
            old(self)@.wf(),
        ensures
            final(self)@ == terminated_string_read(old(self)@).1,
            match terminated_string_read(old(self)@).0 {
                Ok(text) => r is Ok && final(target)@ == text,
                Err(error) => r == Err::<(), CodecError>(error) && *final(target) == *old(target),
            },
    ;

    /// Reads an unsigned length of `prefix_width` bytes in byte order `endianness`, then
    /// that many bytes as UTF-8 text. A width that is none of 1, 2, 4 and 8 gives
    /// `InvalidArgument` and reads nothing.
    fn read_size_prefixed_string(&mut self, prefix_width: usize, endianness: Endianness) -> (r:
        Result<String, CodecError>)
        requires
            old(self)@.wf(),
        ensures
            viewed(r) == prefixed_string_read(old(self)@, prefix_width as nat, endianness).0,
            final(self)@ == prefixed_string_read(old(self)@, prefix_width as nat, endianness).1,
    ;

    /// Reads as `read_size_prefixed_string` does, into `target`, which keeps its value
    /// where the read fails.
    fn read_into_size_prefixed_string(
        &mut self,
        target: &mut String,
        prefix_width: usize,
        endianness: Endianness,
    ) -> (r: Result<(), CodecError>)
        requires
            old(self)@.wf(),
        ensures
            final(self)@ == prefixed_string_read(old(self)@, prefix_width as nat, endianness).1,
            match prefixed_string_read(old(self)@, prefix_width as nat, endianness).0 {
                Ok(text) => r is Ok && final(target)@ == text,
                Err(error) => r == Err::<(), CodecError>(error) && *final(target) == *old(target),
            },
    ;
}

impl<S: SeekableStream> BinaryReader for S {
    fn read_raw(&mut self, size: usize) -> (r: Result<Vec<u8>, CodecError>) {
        let bytes = self.read(size);
        if bytes.len() != size {
            return Err(CodecError::Truncated);
        }
        Ok(bytes)
    }

    fn read_to_delim(&mut self, delim: u8) -> (r: Result<Vec<u8>, CodecError>) {
        let ghost start = self@;
        let ghost rest = self@.remaining();
        let mut field: Vec<u8> = Vec::new();
        loop
            invariant
                start == old(self)@,
                start.wf(),
                rest == start.remaining(),
                self@ == start.at(start.position + field@.len()),
                field@.len() <= rest.len(),
                field@ == rest.take(field@.len() as int),
                forall|j: int| 0 <= j < field@.len() ==> rest[j] != delim,
            decreases rest.len() - field@.len(),
        {
            let bytes = self.read(1);
            if bytes.len() != 1 {
                proof {
                    lemma_delimited_missing(rest, delim);
                }
                return Err(CodecError::Truncated);
            }
            let byte = bytes[0];
            if byte == delim {
                proof {
                    lemma_delimited_found(rest, delim, field@.len() as int);
                }
                return Ok(field);
            }
            field.push(byte);
        }
    }

    fn read_u8(&mut self) -> (r: Result<u8, CodecError>) {
        let bytes = self.read(1);
        if bytes.len() != 1 {
            return Err(CodecError::Truncated);
        }
        Ok(bytes[0])
    }

    fn read_into_u8(&mut self, target: &mut u8) -> (r: Result<(), CodecError>) {
        *target = self.read_u8()?;
        Ok(())
    }

    fn read_i8(&mut self) -> (r: Result<i8, CodecError>) {
        Ok(i8_from_bits(self.read_u8()?))
    }

    fn read_into_i8(&mut self, target: &mut i8) -> (r: Result<(), CodecError>) {
        *target = self.read_i8()?;
        Ok(())
    }

    fn read_u16(&mut self, endianness: Endianness) -> (r: Result<u16, CodecError>) {
        proof {
            lemma_byte_range_values();
        }
        let value = read_unsigned(self, 2, endianness)?;
        Ok(value as u16)
    }

    fn read_le_u16(&mut self) -> (r: Result<u16, CodecError>) {
        self.read_u16(Endianness::Little)
    }

    fn read_be_u16(&mut self) -> (r: Result<u16, CodecError>) {
        self.read_u16(Endianness::Big)
    }

    fn read_ne_u16(&mut self) -> (r: Result<u16, CodecError>) {
        self.read_u16(native_endianness())
    }

    fn read_into_u16(&mut self, target: &mut u16, endianness: Endianness) -> (r: Result<
        (),
        CodecError,
    >) {
        *target = self.read_u16(endianness)?;
        Ok(())
    }

    fn read_into_le_u16(&mut self, target: &mut u16) -> (r: Result<(), CodecError>) {
        *target = self.read_u16(Endianness::Little)?;
        Ok(())
    }

    fn read_into_be_u16(&mut self, target: &mut u16) -> (r: Result<(), CodecError>) {
        *target = self.read_u16(Endianness::Big)?;
        Ok(())
    }

    fn read_into_ne_u16(&mut self, target: &mut u16) -> (r: Result<(), CodecError>) {
        *target = self.read_u16(native_endianness())?;
        Ok(())
    }

    fn read_i16(&mut self, endianness: Endianness) -> (r: Result<i16, CodecError>) {
        Ok(i16_from_bits(self.read_u16(endianness)?))
    }

    fn read_le_i16(&mut self) -> (r: Result<i16, CodecError>) {
        self.read_i16(Endianness::Little)
    }

    fn read_be_i16(&mut self) -> (r: Result<i16, CodecError>) {
        self.read_i16(Endianness::Big)
    }

    fn read_ne_i16(&mut self) -> (r: Result<i16, CodecError>) {
        self.read_i16(native_endianness())
    }

    fn read_into_i16(&mut self, target: &mut i16, endianness: Endianness) -> (r: Result<
        (),
        CodecError,
    >) {
        *target = self.read_i16(endianness)?;
        Ok(())
    }

    fn read_into_le_i16(&mut self, target: &mut i16) -> (r: Result<(), CodecError>) {
        *target = self.read_i16(Endianness::Little)?;
        Ok(())
    }

    fn read_into_be_i16(&mut self, target: &mut i16) -> (r: Result<(), CodecError>) {
        *target = self.read_i16(Endianness::Big)?;
        Ok(())
    }

    fn read_into_ne_i16(&mut self, target: &mut i16) -> (r: Result<(), CodecError>) {
        *target = self.read_i16(native_endianness())?;
        Ok(())
    }

    fn read_u32(&mut self, endianness: Endianness) -> (r: Result<u32, CodecError>) {
        proof {
            lemma_byte_range_values();
        }
        let value = read_unsigned(self, 4, endianness)?;
        Ok(value as u32)
    }

    fn read_le_u32(&mut self) -> (r: Result<u32, CodecError>) {
        self.read_u32(Endianness::Little)
    }

    fn read_be_u32(&mut self) -> (r: Result<u32, CodecError>) {
        self.read_u32(Endianness::Big)
    }

    fn read_ne_u32(&mut self) -> (r: Result<u32, CodecError>) {
        self.read_u32(native_endianness())
    }

    fn read_into_u32(&mut self, target: &mut u32, endianness: Endianness) -> (r: Result<
        (),
        CodecError,
    >) {
        *target = self.read_u32(endianness)?;
        Ok(())
    }

    fn read_into_le_u32(&mut self, target: &mut u32) -> (r: Result<(), CodecError>) {
        *target = self.read_u32(Endianness::Little)?;
        Ok(())
    }

    fn read_into_be_u32(&mut self, target: &mut u32) -> (r: Result<(), CodecError>) {
        *target = self.read_u32(Endianness::Big)?;
        Ok(())
    }

    fn read_into_ne_u32(&mut self, target: &mut u32) -> (r: Result<(), CodecError>) {
        *target = self.read_u32(native_endianness())?;
        Ok(())
    }

    fn read_i32(&mut self, endianness: Endianness) -> (r: Result<i32, CodecError>) {
        Ok(i32_from_bits(self.read_u32(endianness)?))
    }

    fn read_le_i32(&mut self) -> (r: Result<i32, CodecError>) {
        self.read_i32(Endianness::Little)
    }

    fn read_be_i32(&mut self) -> (r: Result<i32, CodecError>) {
        self.read_i32(Endianness::Big)
    }

    fn read_ne_i32(&mut self) -> (r: Result<i32, CodecError>) {
        self.read_i32(native_endianness())
    }

    fn read_into_i32(&mut self, target: &mut i32, endianness: Endianness) -> (r: Result<
        (),
        CodecError,
    >) {
        *target = self.read_i32(endianness)?;
        Ok(())
    }

    fn read_into_le_i32(&mut self, target: &mut i32) -> (r: Result<(), CodecError>) {
        *target = self.read_i32(Endianness::Little)?;
        Ok(())
    }

    fn read_into_be_i32(&mut self, target: &mut i32) -> (r: Result<(), CodecError>) {
        *target = self.read_i32(Endianness::Big)?;
        Ok(())
    }

    fn read_into_ne_i32(&mut self, target: &mut i32) -> (r: Result<(), CodecError>) {
        *target = self.read_i32(native_endianness())?;
        Ok(())
    }

    fn read_u64(&mut self, endianness: Endianness) -> (r: Result<u64, CodecError>) {
        proof {
            lemma_byte_range_values();
        }
        let value = read_unsigned(self, 8, endianness)?;
        Ok(value)
    }

    fn read_le_u64(&mut self) -> (r: Result<u64, CodecError>) {
        self.read_u64(Endianness::Little)
    }

    fn read_be_u64(&mut self) -> (r: Result<u64, CodecError>) {
        self.read_u64(Endianness::Big)
    }

    fn read_ne_u64(&mut self) -> (r: Result<u64, CodecError>) {
        self.read_u64(native_endianness())
    }

    fn read_into_u64(&mut self, target: &mut u64, endianness: Endianness) -> (r: Result<
        (),
        CodecError,
    >) {
        *target = self.read_u64(endianness)?;
        Ok(())
    }

    fn read_into_le_u64(&mut self, target: &mut u64) -> (r: Result<(), CodecError>) {
        *target = self.read_u64(Endianness::Little)?;
        Ok(())
    }

    fn read_into_be_u64(&mut self, target: &mut u64) -> (r: Result<(), CodecError>) {
        *target = self.read_u64(Endianness::Big)?;
        Ok(())
    }

    fn read_into_ne_u64(&mut self, target: &mut u64) -> (r: Result<(), CodecError>) {
        *target = self.read_u64(native_endianness())?;
        Ok(())
    }

    fn read_i64(&mut self, endianness: Endianness) -> (r: Result<i64, CodecError>) {
        Ok(i64_from_bits(self.read_u64(endianness)?))
    }

    fn read_le_i64(&mut self) -> (r: Result<i64, CodecError>) {
        self.read_i64(Endianness::Little)
    }

    fn read_be_i64(&mut self) -> (r: Result<i64, CodecError>) {
        self.read_i64(Endianness::Big)
    }

    fn read_ne_i64(&mut self) -> (r: Result<i64, CodecError>) {
        self.read_i64(native_endianness())
    }

    fn read_into_i64(&mut self, target: &mut i64, endianness: Endianness) -> (r: Result<
        (),
        CodecError,
    >) {
        *target = self.read_i64(endianness)?;
        Ok(())
    }

    fn read_into_le_i64(&mut self, target: &mut i64) -> (r: Result<(), CodecError>) {
        *target = self.read_i64(Endianness::Little)?;
        Ok(())
    }

    fn read_into_be_i64(&mut self, target: &mut i64) -> (r: Result<(), CodecError>) {
        *target = self.read_i64(Endianness::Big)?;
        Ok(())
    }

    fn read_into_ne_i64(&mut self, target: &mut i64) -> (r: Result<(), CodecError>) {
        *target = self.read_i64(native_endianness())?;
        Ok(())
    }

    fn read_fixed_size_string(&mut self, size: usize) -> (r: Result<String, CodecError>) {
        let bytes = self.read(size);
        if bytes.len() != size {
            return Err(CodecError::Truncated);
        }
        decode_text(bytes)
    }

    fn read_into_fixed_size_string(&mut self, size: usize, target: &mut String) -> (r: Result<
        (),
        CodecError,
    >) {
        *target = self.read_fixed_size_string(size)?;
        Ok(())
    }

    fn read_null_terminated_string(&mut self) -> (r: Result<String, CodecError>) {
        let field = self.read_to_delim(0)?;
        decode_text(field)
    }

    fn read_into_null_terminated_string(&mut self, target: &mut String) -> (r: Result<
        (),
        CodecError,
    >) {
        *target = self.read_null_terminated_string()?;
        Ok(())
    }

    fn read_size_prefixed_string(&mut self, prefix_width: usize, endianness: Endianness) -> (r:
        Result<String, CodecError>) {
        if !(prefix_width == 1 || prefix_width == 2 || prefix_width == 4 || prefix_width == 8) {
            return Err(CodecError::InvalidArgument);
        }
        let length = read_unsigned(self, prefix_width, endianness)?;
        if length > usize::MAX as u64 {
            self.seek_to_end();
            return Err(CodecError::Truncated);
        }
        self.read_fixed_size_string(length as usize)
    }

    fn read_into_size_prefixed_string(
        &mut self,
        target: &mut String,
        prefix_width: usize,
        endianness: Endianness,
    ) -> (r: Result<(), CodecError>) {
        *target = self.read_size_prefixed_string(prefix_width, endianness)?;
        Ok(())
    }
}

} // verus!
