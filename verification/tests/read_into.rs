use binary_stream::{BinaryReader, CodecError, Endianness, MemoryStream, SeekableStream};

#[test]
fn read_into_u8_fills_the_target() {
    let mut stream = MemoryStream::from_bytes(vec![0xfe]);
    let mut target = 0u8;
    assert_eq!(stream.read_into_u8(&mut target), Ok(()));
    assert_eq!(target, 0xfe);
    assert_eq!(stream.position(), 1);
    assert_eq!(stream.read_into_u8(&mut target), Err(CodecError::Truncated));
    assert_eq!(target, 0xfe);
}

#[test]
fn read_into_i8_fills_the_target() {
    let mut stream = MemoryStream::from_bytes(vec![0xfe]);
    let mut target = 5i8;
    assert_eq!(stream.read_into_i8(&mut target), Ok(()));
    assert_eq!(target, -2);
    assert_eq!(stream.position(), 1);
    assert_eq!(stream.read_into_i8(&mut target), Err(CodecError::Truncated));
    assert_eq!(target, -2);
}

#[test]
fn read_into_u16_fills_the_target_in_the_order_asked_for() {
    let mut stream = MemoryStream::from_bytes(vec![0x34, 0x12]);
    let mut target: u16 = 0;
    assert_eq!(stream.read_into_u16(&mut target, Endianness::Little), Ok(()));
    assert_eq!(target, 0x1234);
    assert_eq!(stream.position(), 2);
    stream.seek(0);
    target = 0;
    assert_eq!(stream.read_into_le_u16(&mut target), Ok(()));
    assert_eq!(target, 0x1234);
    let mut big = MemoryStream::from_bytes(vec![0x12, 0x34]);
    target = 0;
    assert_eq!(big.read_into_u16(&mut target, Endianness::Big), Ok(()));
    assert_eq!(target, 0x1234);
    big.seek(0);
    target = 0;
    assert_eq!(big.read_into_be_u16(&mut target), Ok(()));
    assert_eq!(target, 0x1234);
    let value: u16 = 0x1234;
    let mut native = MemoryStream::from_bytes(value.to_ne_bytes().to_vec());
    target = 0;
    assert_eq!(native.read_into_ne_u16(&mut target), Ok(()));
    assert_eq!(target, 0x1234);
}

#[test]
fn read_into_u16_that_fails_keeps_the_target() {
    let mut stream = MemoryStream::from_bytes(vec![0xaa; 1]);
    let mut target: u16 = 77;
    assert_eq!(stream.read_into_u16(&mut target, Endianness::Big), Err(CodecError::Truncated));
    assert_eq!(target, 77);
    assert_eq!(stream.position(), 1);
    stream.seek(0);
    assert_eq!(stream.read_into_le_u16(&mut target), Err(CodecError::Truncated));
    stream.seek(0);
    assert_eq!(stream.read_into_be_u16(&mut target), Err(CodecError::Truncated));
    stream.seek(0);
    assert_eq!(stream.read_into_ne_u16(&mut target), Err(CodecError::Truncated));
    assert_eq!(target, 77);
}

#[test]
fn read_into_i16_fills_the_target_in_the_order_asked_for() {
    let mut stream = MemoryStream::from_bytes(vec![0xfe, 0xff]);
    let mut target: i16 = 0;
    assert_eq!(stream.read_into_i16(&mut target, Endianness::Little), Ok(()));
    assert_eq!(target, -2);
    assert_eq!(stream.position(), 2);
    stream.seek(0);
    target = 0;
    assert_eq!(stream.read_into_le_i16(&mut target), Ok(()));
    assert_eq!(target, -2);
    let mut big = MemoryStream::from_bytes(vec![0xff, 0xfe]);
    target = 0;
    assert_eq!(big.read_into_i16(&mut target, Endianness::Big), Ok(()));
    assert_eq!(target, -2);
    big.seek(0);
    target = 0;
    assert_eq!(big.read_into_be_i16(&mut target), Ok(()));
    assert_eq!(target, -2);
    let value: i16 = -2;
    let mut native = MemoryStream::from_bytes(value.to_ne_bytes().to_vec());
    target = 0;
    assert_eq!(native.read_into_ne_i16(&mut target), Ok(()));
    assert_eq!(target, -2);
}

#[test]
fn read_into_i16_that_fails_keeps_the_target() {
    let mut stream = MemoryStream::from_bytes(vec![0xaa; 1]);
    let mut target: i16 = 77;
    assert_eq!(stream.read_into_i16(&mut target, Endianness::Big), Err(CodecError::Truncated));
    assert_eq!(target, 77);
    assert_eq!(stream.position(), 1);
    stream.seek(0);
    assert_eq!(stream.read_into_le_i16(&mut target), Err(CodecError::Truncated));
    stream.seek(0);
    assert_eq!(stream.read_into_be_i16(&mut target), Err(CodecError::Truncated));
    stream.seek(0);
    assert_eq!(stream.read_into_ne_i16(&mut target), Err(CodecError::Truncated));
    assert_eq!(target, 77);
}

#[test]
fn read_into_u32_fills_the_target_in_the_order_asked_for() {
    let mut stream = MemoryStream::from_bytes(vec![0x78, 0x56, 0x34, 0x12]);
    let mut target: u32 = 0;
    assert_eq!(stream.read_into_u32(&mut target, Endianness::Little), Ok(()));
    assert_eq!(target, 0x1234_5678);
    assert_eq!(stream.position(), 4);
    stream.seek(0);
    target = 0;
    assert_eq!(stream.read_into_le_u32(&mut target), Ok(()));
    assert_eq!(target, 0x1234_5678);
    let mut big = MemoryStream::from_bytes(vec![0x12, 0x34, 0x56, 0x78]);
    target = 0;
    assert_eq!(big.read_into_u32(&mut target, Endianness::Big), Ok(()));
    assert_eq!(target, 0x1234_5678);
    big.seek(0);
    target = 0;
    assert_eq!(big.read_into_be_u32(&mut target), Ok(()));
    assert_eq!(target, 0x1234_5678);
    let value: u32 = 0x1234_5678;
    let mut native = MemoryStream::from_bytes(value.to_ne_bytes().to_vec());
    target = 0;
    assert_eq!(native.read_into_ne_u32(&mut target), Ok(()));
    assert_eq!(target, 0x1234_5678);
}

#[test]
fn read_into_u32_that_fails_keeps_the_target() {
    let mut stream = MemoryStream::from_bytes(vec![0xaa; 3]);
    let mut target: u32 = 77;
    assert_eq!(stream.read_into_u32(&mut target, Endianness::Big), Err(CodecError::Truncated));
    assert_eq!(target, 77);
    assert_eq!(stream.position(), 3);
    stream.seek(0);
    assert_eq!(stream.read_into_le_u32(&mut target), Err(CodecError::Truncated));
    stream.seek(0);
    assert_eq!(stream.read_into_be_u32(&mut target), Err(CodecError::Truncated));
    stream.seek(0);
    assert_eq!(stream.read_into_ne_u32(&mut target), Err(CodecError::Truncated));
    assert_eq!(target, 77);
}

#[test]
fn read_into_i32_fills_the_target_in_the_order_asked_for() {
    let mut stream = MemoryStream::from_bytes(vec![0xfe, 0xff, 0xff, 0xff]);
    let mut target: i32 = 0;
    assert_eq!(stream.read_into_i32(&mut target, Endianness::Little), Ok(()));
    assert_eq!(target, -2);
    assert_eq!(stream.position(), 4);
    stream.seek(0);
    target = 0;
    assert_eq!(stream.read_into_le_i32(&mut target), Ok(()));
    assert_eq!(target, -2);
    let mut big = MemoryStream::from_bytes(vec![0xff, 0xff, 0xff, 0xfe]);
    target = 0;
    assert_eq!(big.read_into_i32(&mut target, Endianness::Big), Ok(()));
    assert_eq!(target, -2);
    big.seek(0);
    target = 0;
    assert_eq!(big.read_into_be_i32(&mut target), Ok(()));
    assert_eq!(target, -2);
    let value: i32 = -2;
    let mut native = MemoryStream::from_bytes(value.to_ne_bytes().to_vec());
    target = 0;
    assert_eq!(native.read_into_ne_i32(&mut target), Ok(()));
    assert_eq!(target, -2);
}

#[test]
fn read_into_i32_that_fails_keeps_the_target() {
    let mut stream = MemoryStream::from_bytes(vec![0xaa; 3]);
    let mut target: i32 = 77;
    assert_eq!(stream.read_into_i32(&mut target, Endianness::Big), Err(CodecError::Truncated));
    assert_eq!(target, 77);
    assert_eq!(stream.position(), 3);
    stream.seek(0);
    assert_eq!(stream.read_into_le_i32(&mut target), Err(CodecError::Truncated));
    stream.seek(0);
    assert_eq!(stream.read_into_be_i32(&mut target), Err(CodecError::Truncated));
    stream.seek(0);
    assert_eq!(stream.read_into_ne_i32(&mut target), Err(CodecError::Truncated));
    assert_eq!(target, 77);
}

#[test]
fn read_into_u64_fills_the_target_in_the_order_asked_for() {
    let mut stream = MemoryStream::from_bytes(vec![8, 7, 6, 5, 4, 3, 2, 1]);
    let mut target: u64 = 0;
    assert_eq!(stream.read_into_u64(&mut target, Endianness::Little), Ok(()));
    assert_eq!(target, 0x0102_0304_0506_0708);
    assert_eq!(stream.position(), 8);
    stream.seek(0);
    target = 0;
    assert_eq!(stream.read_into_le_u64(&mut target), Ok(()));
    assert_eq!(target, 0x0102_0304_0506_0708);
    let mut big = MemoryStream::from_bytes(vec![1, 2, 3, 4, 5, 6, 7, 8]);
    target = 0;
    assert_eq!(big.read_into_u64(&mut target, Endianness::Big), Ok(()));
    assert_eq!(target, 0x0102_0304_0506_0708);
    big.seek(0);
    target = 0;
    assert_eq!(big.read_into_be_u64(&mut target), Ok(()));
    assert_eq!(target, 0x0102_0304_0506_0708);
    let value: u64 = 0x0102_0304_0506_0708;
    let mut native = MemoryStream::from_bytes(value.to_ne_bytes().to_vec());
    target = 0;
    assert_eq!(native.read_into_ne_u64(&mut target), Ok(()));
    assert_eq!(target, 0x0102_0304_0506_0708);
}

#[test]
fn read_into_u64_that_fails_keeps_the_target() {
    let mut stream = MemoryStream::from_bytes(vec![0xaa; 7]);
    let mut target: u64 = 77;
    assert_eq!(stream.read_into_u64(&mut target, Endianness::Big), Err(CodecError::Truncated));
    assert_eq!(target, 77);
    assert_eq!(stream.position(), 7);
    stream.seek(0);
    assert_eq!(stream.read_into_le_u64(&mut target), Err(CodecError::Truncated));
    stream.seek(0);
    assert_eq!(stream.read_into_be_u64(&mut target), Err(CodecError::Truncated));
    stream.seek(0);
    assert_eq!(stream.read_into_ne_u64(&mut target), Err(CodecError::Truncated));
    assert_eq!(target, 77);
}

#[test]
fn read_into_i64_fills_the_target_in_the_order_asked_for() {
    let mut stream = MemoryStream::from_bytes(vec![0xfe, 0xff, 0xff, 0xff, 0xff, 0xff, 0xff, 0xff]);
    let mut target: i64 = 0;
    assert_eq!(stream.read_into_i64(&mut target, Endianness::Little), Ok(()));
    assert_eq!(target, -2);
    assert_eq!(stream.position(), 8);
    stream.seek(0);
    target = 0;
    assert_eq!(stream.read_into_le_i64(&mut target), Ok(()));
    assert_eq!(target, -2);
    let mut big = MemoryStream::from_bytes(vec![0xff, 0xff, 0xff, 0xff, 0xff, 0xff, 0xff, 0xfe]);
    target = 0;
    assert_eq!(big.read_into_i64(&mut target, Endianness::Big), Ok(()));
    assert_eq!(target, -2);
    big.seek(0);
    target = 0;
    assert_eq!(big.read_into_be_i64(&mut target), Ok(()));
    assert_eq!(target, -2);
    let value: i64 = -2;
    let mut native = MemoryStream::from_bytes(value.to_ne_bytes().to_vec());
    target = 0;
    assert_eq!(native.read_into_ne_i64(&mut target), Ok(()));
    assert_eq!(target, -2);
}

#[test]
fn read_into_i64_that_fails_keeps_the_target() {
    let mut stream = MemoryStream::from_bytes(vec![0xaa; 7]);
    let mut target: i64 = 77;
    assert_eq!(stream.read_into_i64(&mut target, Endianness::Big), Err(CodecError::Truncated));
    assert_eq!(target, 77);
    assert_eq!(stream.position(), 7);
    stream.seek(0);
    assert_eq!(stream.read_into_le_i64(&mut target), Err(CodecError::Truncated));
    stream.seek(0);
    assert_eq!(stream.read_into_be_i64(&mut target), Err(CodecError::Truncated));
    stream.seek(0);
    assert_eq!(stream.read_into_ne_i64(&mut target), Err(CodecError::Truncated));
    assert_eq!(target, 77);
}

#[test]
fn read_into_fixed_size_string_fills_the_target() {
    let mut stream = MemoryStream::from_bytes(b"hello\xff".to_vec());
    let mut target = String::from("before");
    assert_eq!(stream.read_into_fixed_size_string(5, &mut target), Ok(()));
    assert_eq!(target, "hello");
    assert_eq!(stream.position(), 5);
    assert_eq!(
        stream.read_into_fixed_size_string(1, &mut target),
        Err(CodecError::InvalidEncoding)
    );
    assert_eq!(target, "hello");
    assert_eq!(stream.read_into_fixed_size_string(1, &mut target), Err(CodecError::Truncated));
    assert_eq!(target, "hello");
}

#[test]
fn read_into_null_terminated_string_fills_the_target() {
    let mut stream = MemoryStream::from_bytes(b"hi\x00world".to_vec());
    let mut target = String::from("before");
    assert_eq!(stream.read_into_null_terminated_string(&mut target), Ok(()));
    assert_eq!(target, "hi");
    assert_eq!(stream.position(), 3);
    assert_eq!(stream.read_into_null_terminated_string(&mut target), Err(CodecError::Truncated));
    assert_eq!(target, "hi");
    assert_eq!(stream.position(), 8);
}

#[test]
fn read_into_size_prefixed_string_fills_the_target() {
    let mut stream = MemoryStream::from_bytes(vec![0, 2, 0x68, 0x69, 0, 9]);
    let mut target = String::from("before");
    assert_eq!(
        stream.read_into_size_prefixed_string(&mut target, 3, Endianness::Big),
        Err(CodecError::InvalidArgument)
    );
    assert_eq!(target, "before");
    assert_eq!(stream.position(), 0);
    assert_eq!(stream.read_into_size_prefixed_string(&mut target, 2, Endianness::Big), Ok(()));
    assert_eq!(target, "hi");
    assert_eq!(stream.position(), 4);
    assert_eq!(
        stream.read_into_size_prefixed_string(&mut target, 2, Endianness::Big),
        Err(CodecError::Truncated)
    );
    assert_eq!(target, "hi");
}
