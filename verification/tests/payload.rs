use std::io::Read;

use extracthvp::error::DecodeError;
use extracthvp::inflate::fit_to_size;
use extracthvp::name::decode_name;

/// zlib stream of `hello`, one block with fixed codes.
const HELLO_Z: [u8; 13] = [120, 218, 203, 72, 205, 201, 201, 7, 0, 6, 44, 2, 21];

/// zlib stream of `hello`, one stored block.
const HELLO_STORED_Z: [u8; 16] = [120, 1, 1, 5, 0, 250, 255, 104, 101, 108, 108, 111, 6, 44, 2, 21];

/// zlib stream of nothing.
const EMPTY_Z: [u8; 8] = [120, 218, 3, 0, 0, 0, 0, 1];

/// zlib stream of `hello world, hello world, hello world`, in which the text repeats.
const REPEATED_Z: [u8; 24] = [
    120, 218, 203, 72, 205, 201, 201, 87, 40, 207, 47, 202, 73, 209, 81, 200, 192, 193, 1, 0, 3,
    140, 13, 173,
];

/// 300 bytes of text and their zlib stream, one block with dynamic codes.
const TEXT: [u8; 300] = [
    99, 32, 98, 101, 98, 104, 104, 104, 10, 103, 100, 98, 104, 97, 103, 103, 32, 97, 104, 101,
    100, 32, 98, 102, 97, 97, 97, 10, 32, 97, 103, 10, 100, 103, 97, 32, 100, 104, 104, 32, 100,
    102, 100, 10, 100, 104, 101, 97, 103, 32, 10, 98, 99, 10, 101, 98, 102, 32, 103, 32, 10, 100,
    101, 101, 32, 104, 32, 103, 32, 97, 104, 100, 103, 103, 10, 99, 102, 32, 10, 102, 98, 104, 10,
    32, 98, 99, 32, 103, 102, 104, 97, 104, 97, 101, 32, 32, 32, 103, 10, 99, 99, 32, 100, 97,
    100, 32, 32, 100, 103, 32, 102, 32, 102, 104, 101, 10, 32, 32, 97, 103, 32, 99, 32, 32, 100,
    103, 97, 104, 102, 32, 32, 100, 32, 103, 104, 102, 103, 102, 97, 32, 32, 32, 32, 102, 104, 32,
    97, 100, 10, 99, 32, 32, 99, 98, 32, 101, 97, 10, 98, 98, 97, 104, 97, 101, 100, 101, 98, 32,
    99, 102, 101, 98, 99, 99, 101, 32, 99, 10, 101, 10, 101, 104, 102, 104, 104, 98, 97, 101, 103,
    102, 103, 100, 101, 98, 101, 32, 100, 32, 103, 97, 100, 97, 103, 99, 97, 99, 104, 32, 10, 103,
    32, 100, 10, 32, 104, 100, 32, 10, 97, 103, 10, 32, 102, 10, 10, 103, 97, 101, 99, 100, 97,
    101, 98, 98, 101, 101, 99, 103, 32, 101, 99, 97, 32, 97, 32, 100, 32, 104, 99, 32, 32, 97,
    103, 100, 102, 98, 100, 32, 10, 103, 32, 100, 104, 98, 10, 103, 101, 32, 104, 97, 102, 32,
    103, 101, 97, 99, 100, 102, 32, 99, 102, 103, 100, 101, 10, 98, 103, 32, 102, 10, 32, 104, 32,
    100, 98, 97, 98, 99, 99, 99,
];

const TEXT_Z: [u8; 163] = [
    120, 218, 29, 143, 193, 17, 0, 49, 8, 2, 255, 86, 65, 107, 40, 42, 253, 87, 112, 230, 94, 201,
    136, 46, 80, 200, 78, 219, 177, 74, 115, 23, 116, 11, 57, 36, 3, 220, 208, 18, 178, 161, 81,
    200, 205, 69, 100, 69, 231, 224, 126, 234, 134, 241, 110, 180, 27, 53, 136, 73, 7, 178, 176,
    99, 154, 13, 224, 230, 5, 81, 128, 22, 131, 113, 7, 14, 140, 122, 3, 122, 238, 193, 122, 118,
    120, 203, 39, 131, 138, 211, 42, 209, 140, 204, 71, 81, 39, 106, 58, 171, 26, 231, 29, 237,
    177, 147, 189, 179, 39, 245, 3, 80, 220, 98, 25, 177, 80, 192, 66, 92, 120, 76, 196, 178, 75,
    236, 204, 238, 90, 116, 17, 87, 8, 174, 23, 66, 147, 250, 47, 156, 177, 87, 133, 215, 170, 89,
    154, 179, 59, 116, 228, 37, 62, 24, 148, 60, 243, 250, 0, 233, 216, 91, 254,
];

/// zlib stream of `abcde` in two stored blocks, `abc` and `de`.
const TWO_BLOCKS_Z: [u8; 21] = [
    120, 1, 0, 3, 0, 252, 255, 97, 98, 99, 1, 2, 0, 253, 255, 100, 101, 5, 200, 1, 240,
];

/// What the zlib decoder hands out for `stream`, whether it ends well or not.
fn inflate(stream: &[u8]) -> Vec<u8> {
    let mut out = Vec::new();
    let _ = compress::zlib::Decoder::new(stream).read_to_end(&mut out);
    out
}

/// The content of a compressed file of `size` bytes with the stream `stream`.
fn content(stream: &[u8], size: usize) -> Vec<u8> {
    fit_to_size(inflate(stream), size)
}

#[test]
fn fit_to_size_keeps_bytes_of_the_right_length() {
    assert_eq!(fit_to_size(vec![1, 2, 3], 3), vec![1, 2, 3]);
    assert_eq!(fit_to_size(vec![], 0), Vec::<u8>::new());
}

#[test]
fn fit_to_size_cuts_what_is_too_long() {
    assert_eq!(fit_to_size(vec![1, 2, 3, 4, 5], 2), vec![1, 2]);
    assert_eq!(fit_to_size(vec![1, 2, 3], 0), Vec::<u8>::new());
}

#[test]
fn fit_to_size_pads_with_zero_bytes() {
    assert_eq!(fit_to_size(vec![1, 2, 3], 6), vec![1, 2, 3, 0, 0, 0]);
    assert_eq!(fit_to_size(vec![], 4), vec![0, 0, 0, 0]);
}

#[test]
fn fit_to_size_gives_the_size_asked_for() {
    for len in 0..6usize {
        for size in 0..9usize {
            let bytes: Vec<u8> = (1..=len as u8).collect();
            let out = fit_to_size(bytes.clone(), size);
            assert_eq!(out.len(), size);
            for (i, byte) in out.iter().enumerate() {
                assert_eq!(*byte, if i < len { bytes[i] } else { 0 });
            }
        }
    }
}

#[test]
fn content_of_a_block_with_fixed_codes() {
    assert_eq!(content(&HELLO_Z, 5), b"hello".to_vec());
}

#[test]
fn content_of_a_stored_block() {
    assert_eq!(content(&HELLO_STORED_Z, 5), b"hello".to_vec());
}

#[test]
fn content_of_a_stream_in_which_the_text_repeats() {
    assert_eq!(content(&REPEATED_Z, 37), b"hello world, hello world, hello world".to_vec());
}

#[test]
fn content_of_a_block_with_dynamic_codes() {
    assert_eq!(content(&TEXT_Z, 300), TEXT.to_vec());
}

#[test]
fn content_of_two_blocks() {
    assert_eq!(content(&TWO_BLOCKS_Z, 5), b"abcde".to_vec());
}

#[test]
fn content_of_an_empty_stream_is_all_padding() {
    assert_eq!(content(&EMPTY_Z, 0), Vec::<u8>::new());
    assert_eq!(content(&EMPTY_Z, 3), vec![0, 0, 0]);
}

#[test]
fn content_is_cut_to_the_declared_size() {
    assert_eq!(content(&HELLO_Z, 4), b"hell".to_vec());
    assert_eq!(content(&HELLO_Z, 0), Vec::<u8>::new());
}

#[test]
fn content_is_padded_to_the_declared_size() {
    assert_eq!(content(&HELLO_Z, 8), b"hello\0\0\0".to_vec());
}

#[test]
fn content_of_a_stream_cut_short_is_zero_filled() {
    assert_eq!(content(&HELLO_Z[..6], 5), vec![0, 0, 0, 0, 0]);
    assert_eq!(content(&HELLO_Z[..1], 5), vec![0, 0, 0, 0, 0]);
    assert_eq!(content(&[], 5), vec![0, 0, 0, 0, 0]);
}

#[test]
fn content_keeps_the_blocks_before_the_damage() {
    assert_eq!(content(&TWO_BLOCKS_Z[..10], 5), b"abc\0\0".to_vec());
    assert_eq!(content(&TWO_BLOCKS_Z[..13], 5), b"abc\0\0".to_vec());
}

#[test]
fn content_of_a_stream_with_a_wrong_checksum_keeps_the_data() {
    let mut stream = HELLO_Z.to_vec();
    let last = stream.len() - 1;
    stream[last] ^= 0xff;
    assert_eq!(content(&stream, 5), b"hello".to_vec());
}

#[test]
fn content_of_a_stream_with_a_bad_header_is_zero_filled() {
    let mut stream = HELLO_Z.to_vec();
    stream[0] = 0x79;
    assert_eq!(content(&stream, 5), vec![0, 0, 0, 0, 0]);
    assert_eq!(content(b"not a zlib stream", 4), vec![0, 0, 0, 0]);
    assert_eq!(content(&[0xff, 0xff, 0xff, 0xff], 3), vec![0, 0, 0]);
}

#[test]
fn decode_name_accepts_utf8() {
    assert_eq!(decode_name(b"a.txt".to_vec()), Ok(String::from("a.txt")));
    assert_eq!(decode_name(vec![]), Ok(String::new()));
    assert_eq!(
        decode_name(vec![0xc3, 0xa9, 0x74, 0xc3, 0xa9, 0x20, 0xe2, 0x82, 0xac, 0xf0, 0x9f, 0x98, 0x80]),
        Ok(String::from("\u{e9}t\u{e9} \u{20ac}\u{1f600}"))
    );
}

#[test]
fn decode_name_rejects_what_is_not_utf8() {
    assert_eq!(decode_name(vec![0xff]), Err(DecodeError::InvalidEncoding));
    assert_eq!(decode_name(vec![0x61, 0x80]), Err(DecodeError::InvalidEncoding));
    assert_eq!(decode_name(vec![0xc3]), Err(DecodeError::InvalidEncoding));
    assert_eq!(decode_name(vec![0xc0, 0xaf]), Err(DecodeError::InvalidEncoding));
    assert_eq!(decode_name(vec![0xed, 0xa0, 0x80]), Err(DecodeError::InvalidEncoding));
    assert_eq!(decode_name(vec![0xf4, 0x90, 0x80, 0x80]), Err(DecodeError::InvalidEncoding));
}
