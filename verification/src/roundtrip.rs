//! What holds between writes and reads: a value that was written is read back.

use crate::binary_reader::{
    fixed_string_read, is_prefix_width, lemma_delimited_found, prefixed_string_read,
    terminated_string_read,
};
use crate::encoding::{
    byte_range, decoding, encoding, lemma_decode_encode, lemma_decode_encode_signed,
    signed_decoding, signed_encoding,
};
use crate::endianness::{reordered, Endianness};
use crate::error::CodecError;
use crate::stream::{lemma_overlaid_holds_data, lemma_written_twice, StreamState};
use crate::text::lemma_text_roundtrip;
use vstd::prelude::*;
use vstd::utf8::{encode_scalar, encode_utf8, is_scalar};

verus! {

/// What a write put on a stream is there to read from where the write began, and reading
/// it leaves the stream where the write left it.
pub proof fn lemma_written_is_upcoming(start: StreamState, data: Seq<u8>)
    requires
        start.wf(),
        data.len() <= start.room(),
    ensures
        start.written(data).wf(),
        start.written(data).position == start.position + data.len(),
        start.written(data).at(start.position).wf(),
        start.written(data).at(start.position).available() >= data.len(),
        start.written(data).at(start.position).upcoming(data.len()) == data,
        start.written(data).at(start.position).consumed(data.len()) == start.written(data),
{
    lemma_overlaid_holds_data(start.bytes, start.position, data);
}

/// An unsigned number that was written is read back: for every value that fits `width`
/// bytes, either byte order, and every stream with room for the bytes.
pub proof fn lemma_unsigned_roundtrip(
    start: StreamState,
    value: nat,
    width: nat,
    order: Endianness,
)
    requires
        start.wf(),
        value < byte_range(width),
        width <= start.room(),
    ensures
        ({
            let after = start.written(encoding(value, width, order));
            let back = after.at(start.position);
            &&& back.wf()
            &&& back.available() >= width
            &&& decoding(back.upcoming(width), order) == value
            &&& back.consumed(width) == after
        }),
{
    lemma_decode_encode(value, width, order);
    lemma_written_is_upcoming(start, encoding(value, width, order));
}

/// A signed number that was written is read back: for every value that fits `width` bytes
/// in two's complement, either byte order, and every stream with room for the bytes.
pub proof fn lemma_signed_roundtrip(start: StreamState, value: int, width: nat, order: Endianness)
    requires
        start.wf(),
        width > 0,
        -(byte_range(width) / 2) <= value < byte_range(width) / 2,
        width <= start.room(),
    ensures
        ({
            let after = start.written(signed_encoding(value, width, order));
            let back = after.at(start.position);
            &&& back.wf()
            &&& back.available() >= width
            &&& signed_decoding(back.upcoming(width), order) == value
            &&& back.consumed(width) == after
        }),
{
    lemma_decode_encode_signed(value, width, order);
    lemma_written_is_upcoming(start, signed_encoding(value, width, order));
}

/// Whichever byte order `native` the machine has, bytes laid out in it and then brought
/// to the order asked for are the encoding in the order asked for, and a value encoded in
/// the order of the machine is decoded in it to the same value.
pub proof fn lemma_native_order_roundtrip(
    value: nat,
    width: nat,
    native: Endianness,
    order: Endianness,
)
    requires
        value < byte_range(width),
    ensures
        reordered(encoding(value, width, native), native, order) == encoding(value, width, order),
        decoding(encoding(value, width, native), native) == value,
{
    lemma_decode_encode(value, width, native);
}

/// Text that was written with nothing around it is read back by a read of as many bytes as
/// its UTF-8 form has.
pub proof fn lemma_fixed_string_roundtrip(start: StreamState, text: Seq<char>)
    requires
        start.wf(),
        encode_utf8(text).len() <= start.room(),
    ensures
        ({
            let after = start.written(encode_utf8(text));
            let back = after.at(start.position);
            &&& back.wf()
            &&& fixed_string_read(back, encode_utf8(text).len()) == (
                Ok::<Seq<char>, CodecError>(text),
                after,
            )
        }),
{
    lemma_text_roundtrip(text);
    lemma_written_is_upcoming(start, encode_utf8(text));
}

/// The UTF-8 form of a character other than NUL holds no zero byte.
proof fn lemma_scalar_has_no_zero(scalar: u32)
    requires
        scalar != 0,
        is_scalar(scalar),
    ensures
        forall|i: int| 0 <= i < encode_scalar(scalar).len() ==> encode_scalar(scalar)[i] != 0,
{
    assert(0 < scalar <= 0x7F ==> (scalar & 0x7F) as u8 != 0) by (bit_vector);
    assert(0xC0u8 | ((scalar >> 6) & 0x1F) as u8 != 0) by (bit_vector);
    assert(0xE0u8 | ((scalar >> 12) & 0x0F) as u8 != 0) by (bit_vector);
    assert(0xF0u8 | ((scalar >> 18) & 0x7) as u8 != 0) by (bit_vector);
    assert(0x80u8 | (scalar & 0x3F) as u8 != 0) by (bit_vector);
    assert(0x80u8 | ((scalar >> 6) & 0x3F) as u8 != 0) by (bit_vector);
    assert(0x80u8 | ((scalar >> 12) & 0x3F) as u8 != 0) by (bit_vector);
}

/// The UTF-8 form of text without a NUL character holds no zero byte.
pub proof fn lemma_text_has_no_zero(text: Seq<char>)
    requires
        !text.contains('\0'),
    ensures
        forall|i: int| 0 <= i < encode_utf8(text).len() ==> encode_utf8(text)[i] != 0,
    decreases text.len(),
{
    if text.len() > 0 {
        let rest = text.drop_first();
        let first = text[0] as u32;
        assert forall|c: char| rest.contains(c) implies text.contains(c) by {
            let i = choose|i: int| 0 <= i < rest.len() && rest[i] == c;
            assert(text[i + 1] == c);
        }
        lemma_text_has_no_zero(rest);
        vstd::utf8::char_is_scalar(text[0]);
        if first == 0 {
            vstd::utf8::char_u32_cast(text[0], 0u32);
        }
        lemma_scalar_has_no_zero(first);
        let head = encode_scalar(first);
        let tail = encode_utf8(rest);
        assert forall|i: int| 0 <= i < encode_utf8(text).len() implies encode_utf8(text)[i]
            != 0 by {
            assert(encode_utf8(text) == head + tail);
            if i >= head.len() {
                assert(encode_utf8(text)[i] == tail[i - head.len()]);
            }
        }
    }
}

/// Text without a NUL character that was written with a zero byte behind it is read back
/// by a read up to the zero byte, which leaves the stream behind that byte and the byte out
/// of the text.
pub proof fn lemma_terminated_string_roundtrip(start: StreamState, text: Seq<char>)
    requires
        start.wf(),
        !text.contains('\0'),
        encode_utf8(text).len() + 1 <= start.room(),
    ensures
        ({
            let after = start.written(encode_utf8(text) + seq![0u8]);
            let back = after.at(start.position);
            &&& back.wf()
            &&& terminated_string_read(back) == (Ok::<Seq<char>, CodecError>(text), after)
        }),
{
    let field = encode_utf8(text);
    let data = field + seq![0u8];
    let after = start.written(data);
    let back = after.at(start.position);
    lemma_written_is_upcoming(start, data);
    lemma_text_has_no_zero(text);
    lemma_text_roundtrip(text);
    let rest = back.remaining();
    assert forall|j: int| 0 <= j < field.len() implies rest[j] != 0 by {
        assert(rest[j] == data[j]);
    }
    lemma_delimited_found(rest, 0, field.len() as int);
    assert(rest.take(field.len() as int) =~= field);
}

/// Text that was written behind its length is read back, for each of the four widths of
/// the length and either byte order, where the length fits the width.
pub proof fn lemma_prefixed_string_roundtrip(
    start: StreamState,
    text: Seq<char>,
    prefix_width: nat,
    order: Endianness,
)
    requires
        start.wf(),
        is_prefix_width(prefix_width),
        encode_utf8(text).len() < byte_range(prefix_width),
        prefix_width + encode_utf8(text).len() <= start.room(),
    ensures
        ({
            let prefix = encoding(encode_utf8(text).len(), prefix_width, order);
            let after = start.written(prefix).written(encode_utf8(text));
            let back = after.at(start.position);
            &&& back.wf()
            &&& prefixed_string_read(back, prefix_width, order) == (
                Ok::<Seq<char>, CodecError>(text),
                after,
            )
        }),
{
    let body = encode_utf8(text);
    let prefix = encoding(body.len(), prefix_width, order);
    let middle = start.written(prefix);
    let after = middle.written(body);
    let back = after.at(start.position);
    lemma_decode_encode(body.len(), prefix_width, order);
    lemma_written_twice(start, prefix, body);
    lemma_written_is_upcoming(start, prefix);
    lemma_written_is_upcoming(start, prefix + body);
    lemma_written_is_upcoming(middle, body);
    lemma_text_roundtrip(text);
    assert(back.upcoming(prefix_width) =~= prefix);
}

} // verus!
