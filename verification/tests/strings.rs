use binary_stream::text::decode_text;
use binary_stream::{
    BinaryReader, BinaryWriterExt, CodecError, Endianness, MemoryStream, SeekableStream,
};

#[test]
fn decode_text_reads_valid_utf8() {
    assert_eq!(decode_text(b"hello".to_vec()), Ok(String::from("hello")));
    assert_eq!(decode_text(Vec::new()), Ok(String::new()));
    assert_eq!(
        decode_text(vec![0x68, 0xc3, 0xa9, 0xe2, 0x9c, 0x93, 0xf0, 0x9f, 0x98, 0x80]),
        Ok(String::from("h\u{e9}\u{2713}\u{1f600}"))
    );
}

#[test]
fn decode_text_refuses_invalid_utf8() {
    assert_eq!(decode_text(vec![0xff]), Err(CodecError::InvalidEncoding));
    assert_eq!(decode_text(vec![0x68, 0x80]), Err(CodecError::InvalidEncoding));
    assert_eq!(decode_text(vec![0xc3]), Err(CodecError::InvalidEncoding));
    assert_eq!(decode_text(vec![0xc0, 0x80]), Err(CodecError::InvalidEncoding));
    assert_eq!(decode_text(vec![0xed, 0xa0, 0x80]), Err(CodecError::InvalidEncoding));
    assert_eq!(decode_text(vec![0xf4, 0x90, 0x80, 0x80]), Err(CodecError::InvalidEncoding));
}

#[test]
fn fixed_size_string_is_read_from_exactly_its_bytes() {
    let mut stream = MemoryStream::from_bytes(b"helloworld".to_vec());
    assert_eq!(stream.read_fixed_size_string(5), Ok(String::from("hello")));
    assert_eq!(stream.position(), 5);
    assert_eq!(stream.read_fixed_size_string(5), Ok(String::from("world")));
    assert_eq!(stream.position(), 10);
}

#[test]
fn fixed_size_string_of_no_bytes_is_empty() {
    let mut stream = MemoryStream::from_bytes(b"abc".to_vec());
    assert_eq!(stream.read_fixed_size_string(0), Ok(String::new()));
    assert_eq!(stream.position(), 0);
}

#[test]
fn fixed_size_string_beyond_the_end_is_truncated() {
    let mut stream = MemoryStream::from_bytes(b"abc".to_vec());
    assert_eq!(stream.read_fixed_size_string(4), Err(CodecError::Truncated));
    assert_eq!(stream.position(), 3);
}

#[test]
fn fixed_size_string_of_invalid_bytes_is_refused_and_consumed() {
    let mut stream = MemoryStream::from_bytes(vec![0x61, 0xff, 0x62, 0x63]);
    assert_eq!(stream.read_fixed_size_string(3), Err(CodecError::InvalidEncoding));
    assert_eq!(stream.position(), 3);
    assert_eq!(stream.read_fixed_size_string(1), Ok(String::from("c")));
}

#[test]
fn fixed_size_string_cut_inside_a_character_is_refused() {
    let mut stream = MemoryStream::from_bytes("h\u{e9}".as_bytes().to_vec());
    assert_eq!(stream.read_fixed_size_string(2), Err(CodecError::InvalidEncoding));
}

#[test]
fn truncation_is_told_before_invalid_bytes() {
    let mut stream = MemoryStream::from_bytes(vec![0xff, 0xff]);
    assert_eq!(stream.read_fixed_size_string(3), Err(CodecError::Truncated));
}

#[test]
fn written_string_has_neither_prefix_nor_terminator() {
    let mut stream = MemoryStream::new();
    assert_eq!(stream.write_string("hi"), Ok(()));
    assert_eq!(stream.as_slice(), &[0x68, 0x69]);
    assert_eq!(stream.position(), 2);
    assert_eq!(stream.write_string(""), Ok(()));
    assert_eq!(stream.as_slice(), &[0x68, 0x69]);
}

#[test]
fn written_string_is_in_utf8() {
    let mut stream = MemoryStream::new();
    assert_eq!(stream.write_string("h\u{e9}\u{2713}\u{1f600}"), Ok(()));
    assert_eq!(
        stream.as_slice(),
        &[0x68, 0xc3, 0xa9, 0xe2, 0x9c, 0x93, 0xf0, 0x9f, 0x98, 0x80]
    );
}

#[test]
fn string_write_without_room_is_truncated() {
    let mut stream = MemoryStream::fixed(vec![0; 3]);
    assert_eq!(stream.write_string("hello"), Err(CodecError::Truncated));
    assert_eq!(stream.as_slice(), b"hel");
    assert_eq!(stream.position(), 3);
}

#[test]
fn fixed_size_string_is_read_back_as_written() {
    for text in ["", "a", "hello world", "h\u{e9}llo \u{2713} \u{1f600}", "nul\0inside"] {
        let mut stream = MemoryStream::new();
        assert_eq!(stream.write_string(text), Ok(()));
        assert_eq!(stream.position(), text.len() as u64);
        stream.seek(0);
        assert_eq!(stream.read_fixed_size_string(text.len()), Ok(String::from(text)));
        assert_eq!(stream.position(), text.len() as u64);
    }
}

#[test]
fn null_terminated_string_ends_before_the_zero_byte() {
    let mut stream = MemoryStream::from_bytes(b"hi\x00world".to_vec());
    assert_eq!(stream.read_null_terminated_string(), Ok(String::from("hi")));
    assert_eq!(stream.position(), 3);
    assert_eq!(stream.read_fixed_size_string(5), Ok(String::from("world")));
}

#[test]
fn null_terminated_string_without_terminator_is_truncated() {
    let mut stream = MemoryStream::from_bytes(b"world".to_vec());
    assert_eq!(stream.read_null_terminated_string(), Err(CodecError::Truncated));
    assert_eq!(stream.position(), 5);
}

#[test]
fn null_terminated_string_can_be_empty() {
    let mut stream = MemoryStream::from_bytes(vec![0, 0x61, 0]);
    assert_eq!(stream.read_null_terminated_string(), Ok(String::new()));
    assert_eq!(stream.position(), 1);
    assert_eq!(stream.read_null_terminated_string(), Ok(String::from("a")));
    assert_eq!(stream.position(), 3);
}

#[test]
fn null_terminated_string_of_invalid_bytes_is_refused_and_consumed() {
    let mut stream = MemoryStream::from_bytes(vec![0xff, 0xfe, 0, 0x61, 0]);
    assert_eq!(stream.read_null_terminated_string(), Err(CodecError::InvalidEncoding));
    assert_eq!(stream.position(), 3);
    assert_eq!(stream.read_null_terminated_string(), Ok(String::from("a")));
}

#[test]
fn written_null_terminated_string_ends_with_one_zero_byte() {
    let mut stream = MemoryStream::new();
    assert_eq!(stream.write_nt_string("hi"), Ok(()));
    assert_eq!(stream.as_slice(), &[0x68, 0x69, 0x00]);
    assert_eq!(stream.position(), 3);
    assert_eq!(stream.write_nt_string(""), Ok(()));
    assert_eq!(stream.as_slice(), &[0x68, 0x69, 0x00, 0x00]);
}

#[test]
fn null_terminated_write_without_room_for_the_text_is_truncated() {
    let mut stream = MemoryStream::fixed(vec![0; 2]);
    assert_eq!(stream.write_nt_string("hello"), Err(CodecError::Truncated));
    assert_eq!(stream.as_slice(), b"he");
    assert_eq!(stream.position(), 2);
}

#[test]
fn null_terminated_write_without_room_for_the_terminator_is_truncated() {
    let mut stream = MemoryStream::fixed(vec![0xaa; 5]);
    assert_eq!(stream.write_nt_string("hello"), Err(CodecError::Truncated));
    assert_eq!(stream.as_slice(), b"hello");
    assert_eq!(stream.position(), 5);
    let mut exact = MemoryStream::fixed(vec![0xaa; 6]);
    assert_eq!(exact.write_nt_string("hello"), Ok(()));
    assert_eq!(exact.as_slice(), b"hello\0");
}

#[test]
fn null_terminated_string_is_read_back_as_written() {
    for text in ["", "a", "hello world", "h\u{e9}llo \u{2713} \u{1f600}"] {
        let mut stream = MemoryStream::new();
        assert_eq!(stream.write_nt_string(text), Ok(()));
        assert_eq!(stream.write_u8(0x7f), Ok(()));
        stream.seek(0);
        let back = stream.read_null_terminated_string().unwrap();
        assert_eq!(back, text);
        assert!(!back.contains('\0'));
        assert_eq!(stream.position(), text.len() as u64 + 1);
    }
}

#[test]
fn null_terminated_text_with_a_nul_inside_is_cut_there() {
    let mut stream = MemoryStream::new();
    assert_eq!(stream.write_nt_string("nul\0inside"), Ok(()));
    stream.seek(0);
    assert_eq!(stream.read_null_terminated_string(), Ok(String::from("nul")));
    assert_eq!(stream.position(), 4);
}

#[test]
fn size_prefixed_string_is_read_behind_its_length() {
    let mut stream = MemoryStream::from_bytes(vec![2, 0, 0x68, 0x69, 0x21]);
    assert_eq!(
        stream.read_size_prefixed_string(2, Endianness::Little),
        Ok(String::from("hi"))
    );
    assert_eq!(stream.position(), 4);
    let mut big = MemoryStream::from_bytes(vec![0, 0, 0, 2, 0x68, 0x69, 0x21]);
    assert_eq!(big.read_size_prefixed_string(4, Endianness::Big), Ok(String::from("hi")));
    assert_eq!(big.position(), 6);
}

#[test]
fn size_prefix_is_unsigned_whatever_its_high_bit() {
    let mut bytes = vec![0x80u8];
    bytes.extend(std::iter::repeat(0x61).take(0x80));
    let mut stream = MemoryStream::from_bytes(bytes);
    let text = stream.read_size_prefixed_string(1, Endianness::Little).unwrap();
    assert_eq!(text.len(), 128);
    assert_eq!(stream.position(), 129);
}

#[test]
fn size_prefixed_string_of_length_zero_is_empty() {
    let mut stream = MemoryStream::from_bytes(vec![0, 0x61]);
    assert_eq!(stream.read_size_prefixed_string(1, Endianness::Big), Ok(String::new()));
    assert_eq!(stream.position(), 1);
}

#[test]
fn size_prefix_of_an_unsupported_width_is_refused_and_nothing_read() {
    for width in [0usize, 3, 5, 6, 7, 9, 16, usize::MAX] {
        for order in [Endianness::Little, Endianness::Big] {
            let mut stream = MemoryStream::from_bytes(vec![1, 0x61, 0, 0, 0, 0, 0, 0, 0, 0]);
            assert_eq!(
                stream.read_size_prefixed_string(width, order),
                Err(CodecError::InvalidArgument)
            );
            assert_eq!(stream.position(), 0);
        }
    }
}

#[test]
fn size_prefix_cut_short_is_truncated() {
    let mut stream = MemoryStream::from_bytes(vec![0, 0, 1]);
    assert_eq!(
        stream.read_size_prefixed_string(4, Endianness::Little),
        Err(CodecError::Truncated)
    );
    assert_eq!(stream.position(), 3);
}

#[test]
fn size_prefixed_body_cut_short_is_truncated() {
    let mut stream = MemoryStream::from_bytes(vec![5, 0x68, 0x69]);
    assert_eq!(
        stream.read_size_prefixed_string(1, Endianness::Little),
        Err(CodecError::Truncated)
    );
    assert_eq!(stream.position(), 3);
}

#[test]
fn size_prefix_larger_than_any_stream_is_truncated() {
    let mut stream = MemoryStream::from_bytes(vec![0xff; 12]);
    assert_eq!(
        stream.read_size_prefixed_string(8, Endianness::Big),
        Err(CodecError::Truncated)
    );
    assert_eq!(stream.position(), 12);
}

#[test]
fn size_prefixed_body_of_invalid_bytes_is_refused() {
    let mut stream = MemoryStream::from_bytes(vec![0, 2, 0xc3, 0x28, 0x61]);
    assert_eq!(
        stream.read_size_prefixed_string(2, Endianness::Big),
        Err(CodecError::InvalidEncoding)
    );
    assert_eq!(stream.position(), 4);
}

#[test]
fn size_prefix_is_read_in_the_order_asked_for() {
    let mut stream = MemoryStream::from_bytes(vec![1, 0, 0x61, 0x62]);
    assert_eq!(
        stream.read_size_prefixed_string(2, Endianness::Little),
        Ok(String::from("a"))
    );
    stream.seek(0);
    assert_eq!(
        stream.read_size_prefixed_string(2, Endianness::Big),
        Err(CodecError::Truncated)
    );
}

#[test]
fn size_prefixed_string_is_read_back_for_every_width_and_order() {
    for text in ["", "hi", "h\u{e9}llo \u{2713} \u{1f600}"] {
        for order in [Endianness::Little, Endianness::Big] {
            let mut stream = MemoryStream::new();
            assert_eq!(stream.write_u8(text.len() as u8), Ok(()));
            assert_eq!(stream.write_string(text), Ok(()));
            assert_eq!(stream.write_u16(text.len() as u16, order), Ok(()));
            assert_eq!(stream.write_string(text), Ok(()));
            assert_eq!(stream.write_u32(text.len() as u32, order), Ok(()));
            assert_eq!(stream.write_string(text), Ok(()));
            assert_eq!(stream.write_u64(text.len() as u64, order), Ok(()));
            assert_eq!(stream.write_string(text), Ok(()));
            let end = stream.position();
            stream.seek(0);
            for width in [1usize, 2, 4, 8] {
                assert_eq!(
                    stream.read_size_prefixed_string(width, order),
                    Ok(String::from(text))
                );
            }
            assert_eq!(stream.position(), end);
        }
    }
}
