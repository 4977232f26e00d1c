//! How integers stand in bytes: base-256 digits in little or big order, and two's
//! complement for signed values.

use crate::endianness::{reordered, swap_between, Endianness};
use vstd::prelude::*;
use vstd::slice::slice_to_vec;

verus! {

/// How many values `width` bytes can tell apart: 256 to the power `width`.
pub open spec fn byte_range(width: nat) -> nat
    decreases width,
{
    if width == 0 {
        1
    } else {
        256 * byte_range((width - 1) as nat)
    }
}

/// The `width` lowest base-256 digits of `value`, least significant first.
pub open spec fn little_endian(value: nat, width: nat) -> Seq<u8>
    decreases width,
{
    if width == 0 {
        Seq::empty()
    } else {
        seq![(value % 256) as u8] + little_endian(value / 256, (width - 1) as nat)
    }
}

/// The number whose base-256 digits, least significant first, are `bytes`.
pub open spec fn little_endian_value(bytes: Seq<u8>) -> nat
    decreases bytes.len(),
{
    if bytes.len() == 0 {
        0
    } else {
        bytes[0] as nat + 256 * little_endian_value(bytes.drop_first())
    }
}

/// The `width` bytes that stand for `value` in byte order `order`.
pub open spec fn encoding(value: nat, width: nat, order: Endianness) -> Seq<u8> {
    reordered(little_endian(value, width), Endianness::Little, order)
}

/// The number that `bytes` stand for in byte order `order`.
pub open spec fn decoding(bytes: Seq<u8>, order: Endianness) -> nat {
    little_endian_value(reordered(bytes, order, Endianness::Little))
}

/// The two's complement bit pattern of `value` in `width` bytes, read as an unsigned number.
pub open spec fn signed_bits(value: int, width: nat) -> nat {
    if value >= 0 {
        value as nat
    } else {
        (value + byte_range(width)) as nat
    }
}

/// The signed number whose two's complement bit pattern in `width` bytes is `bits`.
pub open spec fn signed_value(bits: nat, width: nat) -> int {
    if 2 * bits < byte_range(width) {
        bits as int
    } else {
        bits - byte_range(width)
    }
}

/// The signed number that `bytes` stand for, in two's complement, in byte order `order`.
pub open spec fn signed_decoding(bytes: Seq<u8>, order: Endianness) -> int {
    signed_value(decoding(bytes, order), bytes.len())
}

/// The `width` bytes that stand for the signed `value`, in two's complement, in byte order
/// `order`.
pub open spec fn signed_encoding(value: int, width: nat, order: Endianness) -> Seq<u8> {
    encoding(signed_bits(value, width), width, order)
}

/// The ranges of the widths that the integer types have.
pub proof fn lemma_byte_range_values()
    ensures
        byte_range(0) == 1,
        byte_range(1) == 0x100,
        byte_range(2) == 0x1_0000,
        byte_range(3) == 0x100_0000,
        byte_range(4) == 0x1_0000_0000,
        byte_range(5) == 0x100_0000_0000,
        byte_range(6) == 0x1_0000_0000_0000,
        byte_range(7) == 0x100_0000_0000_0000,
        byte_range(8) == 0x1_0000_0000_0000_0000,
{
    reveal_with_fuel(byte_range, 9);
}

/// A wider field has a range that is at least as large.
pub proof fn lemma_byte_range_grows(narrow: nat, wide: nat)
    requires
        narrow <= wide,
    ensures
        0 < byte_range(narrow) <= byte_range(wide),
    decreases wide,
{
    if wide == 0 {
    } else if narrow == wide {
        lemma_byte_range_grows((narrow - 1) as nat, (wide - 1) as nat);
    } else {
        lemma_byte_range_grows(narrow, (wide - 1) as nat);
    }
}

/// An encoding has as many bytes as the width asked for.
pub proof fn lemma_little_endian_len(value: nat, width: nat)
    ensures
        little_endian(value, width).len() == width,
    decreases width,
{
    if width > 0 {
        lemma_little_endian_len(value / 256, (width - 1) as nat);
    }
}

/// What some bytes stand for fits the range of their number.
pub proof fn lemma_little_endian_value_bound(bytes: Seq<u8>)
    ensures
        little_endian_value(bytes) < byte_range(bytes.len()),
    decreases bytes.len(),
{
    if bytes.len() > 0 {
        lemma_little_endian_value_bound(bytes.drop_first());
    }
}

/// A value that fits `width` bytes is read back from its little-endian bytes.
pub proof fn lemma_little_endian_value_of_bytes(value: nat, width: nat)
    requires
        value < byte_range(width),
    ensures
        little_endian_value(little_endian(value, width)) == value,
    decreases width,
{
    if width > 0 {
        let rest = little_endian(value / 256, (width - 1) as nat);
        lemma_little_endian_value_of_bytes(value / 256, (width - 1) as nat);
        assert(little_endian(value, width).drop_first() =~= rest);
    }
}

/// Bytes are written back from the value that they stand for.
pub proof fn lemma_little_endian_bytes_of_value(bytes: Seq<u8>)
    ensures
        little_endian(little_endian_value(bytes), bytes.len()) == bytes,
    decreases bytes.len(),
{
    if bytes.len() > 0 {
        lemma_little_endian_bytes_of_value(bytes.drop_first());
    }
}

/// Decoding what was encoded gives the value back: for every value that fits `width` bytes
/// and either byte order.
pub proof fn lemma_decode_encode(value: nat, width: nat, order: Endianness)
    requires
        value < byte_range(width),
    ensures
        encoding(value, width, order).len() == width,
        decoding(encoding(value, width, order), order) == value,
{
    let digits = little_endian(value, width);
    lemma_little_endian_len(value, width);
    lemma_little_endian_value_of_bytes(value, width);
    assert(digits.reverse().reverse() =~= digits);
}

/// One byte stands for itself in either byte order.
pub proof fn lemma_single_byte(byte: u8, order: Endianness)
    ensures
        encoding(byte as nat, 1, order) == seq![byte],
        decoding(seq![byte], order) == byte,
{
    reveal_with_fuel(little_endian, 2);
    reveal_with_fuel(little_endian_value, 2);
}

/// Encoding what was decoded gives the bytes back, in either byte order.
pub proof fn lemma_encode_decode(bytes: Seq<u8>, order: Endianness)
    ensures
        decoding(bytes, order) < byte_range(bytes.len()),
        encoding(decoding(bytes, order), bytes.len(), order) == bytes,
{
    let digits = reordered(bytes, order, Endianness::Little);
    lemma_little_endian_value_bound(digits);
    lemma_little_endian_bytes_of_value(digits);
}

/// A signed value that fits `width` bytes is read back from its bit pattern, and the
/// pattern fits `width` bytes.
pub proof fn lemma_signed_value_of_bits(value: int, width: nat)
    requires
        width > 0,
        -(byte_range(width) / 2) <= value < byte_range(width) / 2,
    ensures
        signed_bits(value, width) < byte_range(width),
        signed_value(signed_bits(value, width), width) == value,
{
    lemma_byte_range_grows(0, (width - 1) as nat);
}

/// Decoding what was encoded gives a signed value back: for every value that fits `width`
/// bytes in two's complement and either byte order.
pub proof fn lemma_decode_encode_signed(value: int, width: nat, order: Endianness)
    requires
        width > 0,
        -(byte_range(width) / 2) <= value < byte_range(width) / 2,
    ensures
        signed_encoding(value, width, order).len() == width,
        signed_decoding(signed_encoding(value, width, order), order) == value,
{
    lemma_signed_value_of_bits(value, width);
    lemma_decode_encode(signed_bits(value, width), width, order);
}

/// The two byte orders give mirrored encodings, which differ unless the bytes read the same
/// in both directions.
pub proof fn lemma_orders_mirror(value: nat, width: nat)
    ensures
        encoding(value, width, Endianness::Little) == encoding(
            value,
            width,
            Endianness::Big,
        ).reverse(),
        encoding(value, width, Endianness::Big) == encoding(
            value,
            width,
            Endianness::Little,
        ).reverse(),
        encoding(value, width, Endianness::Little) != encoding(
            value,
            width,
            Endianness::Little,
        ).reverse() ==> encoding(value, width, Endianness::Little) != encoding(
            value,
            width,
            Endianness::Big,
        ),
{
}

/// The `width` lowest base-256 digits of `value`, least significant first.
pub fn to_little_endian(value: u64, width: usize) -> (bytes: Vec<u8>)
    ensures
        bytes@ == little_endian(value as nat, width as nat),
{
    let mut bytes: Vec<u8> = Vec::new();
    let mut rest: u64 = value;
    let mut count: usize = 0;
    while count < width
        invariant
            count <= width,
            bytes@.len() == count,
            bytes@ + little_endian(rest as nat, (width - count) as nat) == little_endian(
                value as nat,
                width as nat,
            ),
        decreases width - count,
    {
        bytes.push((rest % 256) as u8);
        rest = rest / 256;
        count = count + 1;
    }
    bytes
}

/// The number whose base-256 digits, least significant first, are `bytes`.
pub fn from_little_endian(bytes: &[u8]) -> (value: u64)
    requires
        bytes@.len() <= 8,
    ensures
        value == little_endian_value(bytes@),
{
    let len = bytes.len();
    let mut value: u64 = 0;
    let mut index: usize = len;
    while index > 0
        invariant
            len == bytes@.len(),
            len <= 8,
            index <= len,
            value == little_endian_value(bytes@.skip(index as int)),
        decreases index,
    {
        proof {
            lemma_little_endian_value_bound(bytes@.skip(index as int));
            lemma_byte_range_grows((len - index + 1) as nat, 8);
            lemma_byte_range_values();
            assert(bytes@.skip(index - 1).drop_first() =~= bytes@.skip(index as int));
        }
        index = index - 1;
        value = value * 256 + bytes[index] as u64;
    }
    assert(bytes@.skip(0) =~= bytes@);
    value
}

/// The `width` bytes that stand for `value` in byte order `order`. A value that does not fit
/// `width` bytes loses its high digits.
pub fn encode_unsigned(value: u64, width: usize, order: Endianness) -> (bytes: Vec<u8>)
    ensures
        bytes@ == encoding(value as nat, width as nat, order),
{
    let mut bytes = to_little_endian(value, width);
    swap_between(bytes.as_mut_slice(), Endianness::Little, order);
    bytes
}

/// The number that `bytes` stand for in byte order `order`.
pub fn decode_unsigned(bytes: &[u8], order: Endianness) -> (value: u64)
    requires
        bytes@.len() <= 8,
    ensures
        value == decoding(bytes@, order),
{
    let mut digits = slice_to_vec(bytes);
    swap_between(digits.as_mut_slice(), order, Endianness::Little);
    from_little_endian(digits.as_slice())
}

/// The two's complement bit pattern of `value`.
pub fn i8_to_bits(value: i8) -> (bits: u8)
    ensures
        bits == signed_bits(value as int, 1),
{
    proof {
        lemma_byte_range_values();
    }
    assert((value as u8) as int == (if value >= 0i8 {
        value as int
    } else {
        value as int + 0x100
    })) by (bit_vector);
    value as u8
}

/// The signed value whose two's complement bit pattern is `bits`.
pub fn i8_from_bits(bits: u8) -> (value: i8)
    ensures
        value == signed_value(bits as nat, 1),
{
    proof {
        lemma_byte_range_values();
    }
    assert((bits as i8) as int == (if bits < 0x80u8 {
        bits as int
    } else {
        bits as int - 0x100
    })) by (bit_vector);
    bits as i8
}

/// The two's complement bit pattern of `value`.
pub fn i16_to_bits(value: i16) -> (bits: u16)
    ensures
        bits == signed_bits(value as int, 2),
{
    proof {
        lemma_byte_range_values();
    }
    assert((value as u16) as int == (if value >= 0i16 {
        value as int
    } else {
        value as int + 0x1_0000
    })) by (bit_vector);
    value as u16
}

/// The signed value whose two's complement bit pattern is `bits`.
pub fn i16_from_bits(bits: u16) -> (value: i16)
    ensures
        value == signed_value(bits as nat, 2),
{
    proof {
        lemma_byte_range_values();
    }
    assert((bits as i16) as int == (if bits < 0x8000u16 {
        bits as int
    } else {
        bits as int - 0x1_0000
    })) by (bit_vector);
    bits as i16
}

/// The two's complement bit pattern of `value`.
pub fn i32_to_bits(value: i32) -> (bits: u32)
    ensures
        bits == signed_bits(value as int, 4),
{
    proof {
        lemma_byte_range_values();
    }
    assert((value as u32) as int == (if value >= 0i32 {
        value as int
    } else {
        value as int + 0x1_0000_0000
    })) by (bit_vector);
    value as u32
}

/// The signed value whose two's complement bit pattern is `bits`.
pub fn i32_from_bits(bits: u32) -> (value: i32)
    ensures
        value == signed_value(bits as nat, 4),
{
    proof {
        lemma_byte_range_values();
    }
    assert((bits as i32) as int == (if bits < 0x8000_0000u32 {
        bits as int
    } else {
        bits as int - 0x1_0000_0000
    })) by (bit_vector);
    bits as i32
}

/// The two's complement bit pattern of `value`.
pub fn i64_to_bits(value: i64) -> (bits: u64)
    ensures
        bits == signed_bits(value as int, 8),
{
    proof {
        lemma_byte_range_values();
    }
    assert((value as u64) as int == (if value >= 0i64 {
        value as int
    } else {
        value as int + 0x1_0000_0000_0000_0000
    })) by (bit_vector);
    value as u64
}

/// The signed value whose two's complement bit pattern is `bits`.
pub fn i64_from_bits(bits: u64) -> (value: i64)
    ensures
        value == signed_value(bits as nat, 8),
{
    proof {
        lemma_byte_range_values();
    }
    assert((bits as i64) as int == (if bits < 0x8000_0000_0000_0000u64 {
        bits as int
    } else {
        bits as int - 0x1_0000_0000_0000_0000
    })) by (bit_vector);
    bits as i64
}

} // verus!
