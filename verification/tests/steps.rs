use mozlz4::error::Error;
use mozlz4::format::{begin_container, read_header, starts_with_magic, HEADER_LEN, MAGIC_LEN, MAGIC_NUMBER};
use mozlz4::runs::longest_ff_run;
use mozlz4::{buffer_len, decoder_can_take, finish_compress, finish_decompress};

#[test]
fn magic_number_is_the_tag_with_its_nul() {
    assert_eq!(&MAGIC_NUMBER, b"mozLz40\0");
    assert_eq!(MAGIC_NUMBER, [0x6D, 0x6F, 0x7A, 0x4C, 0x7A, 0x34, 0x30, 0x00]);
    assert_eq!(MAGIC_LEN, 8);
    assert_eq!(HEADER_LEN, 12);
}

#[test]
fn starts_with_magic_wants_all_eight_bytes() {
    assert!(starts_with_magic(b"mozLz40\0"));
    assert!(starts_with_magic(b"mozLz40\0 and more"));
    assert!(!starts_with_magic(b"mozLz40"));
    assert!(!starts_with_magic(b""));
    assert!(!starts_with_magic(b"mozLz40\x01"));
    assert!(!starts_with_magic(b"nozLz40\0"));
    assert!(!starts_with_magic(b"\0mozLz40\0"));
}

#[test]
fn read_header_gives_the_declared_size() {
    assert_eq!(read_header(b"mozLz40\0\0\0\0\0"), Ok(0));
    assert_eq!(read_header(b"mozLz40\0\x01\0\0\0"), Ok(1));
    assert_eq!(read_header(b"mozLz40\0\x04\x03\x02\x01"), Ok(0x0102_0304));
    assert_eq!(read_header(b"mozLz40\0\xFF\xFF\xFF\xFF"), Ok(u32::MAX));
    assert_eq!(read_header(b"mozLz40\0\0\0\0\x80payload"), Ok(0x8000_0000));
    assert_eq!(read_header(b"mozLz40\0\x40\xE2\x01\x00"), Ok(123_456));
}

#[test]
fn read_header_rejects_what_is_no_header() {
    assert_eq!(read_header(b""), Err(Error::UnrecognizedFormat));
    assert_eq!(read_header(b"mozLz40\0"), Err(Error::UnrecognizedFormat));
    assert_eq!(read_header(b"mozLz40\0\0\0\0"), Err(Error::UnrecognizedFormat));
    assert_eq!(read_header(b"mozLz41\0\0\0\0\0"), Err(Error::UnrecognizedFormat));
    assert_eq!(read_header(b"MOZLZ40\0\0\0\0\0"), Err(Error::UnrecognizedFormat));
    assert_eq!(read_header(&[0u8; 12]), Err(Error::UnrecognizedFormat));
}

#[test]
fn begin_container_writes_the_header_and_leaves_room() {
    assert_eq!(begin_container(0, 0), b"mozLz40\0\0\0\0\0".to_vec());
    assert_eq!(begin_container(5, 3), b"mozLz40\0\x05\0\0\0\0\0\0".to_vec());
    assert_eq!(begin_container(0x0102_0304, 1), b"mozLz40\0\x04\x03\x02\x01\0".to_vec());
    assert_eq!(begin_container(u32::MAX, 0), b"mozLz40\0\xFF\xFF\xFF\xFF".to_vec());
    let buffer: Vec<u8> = begin_container(123_456, 1000);
    assert_eq!(buffer.len(), 1012);
    assert_eq!(&buffer[8..12], &[0x40, 0xE2, 0x01, 0x00]);
    assert!(buffer[12..].iter().all(|b| *b == 0));
    assert_eq!(read_header(&buffer), Ok(123_456));
}

#[test]
fn finish_decompress_keeps_what_was_written() {
    assert_eq!(finish_decompress(vec![1, 2, 3, 4], Some(4)), Ok(vec![1, 2, 3, 4]));
    assert_eq!(finish_decompress(vec![1, 2, 3, 4], Some(2)), Ok(vec![1, 2]));
    assert_eq!(finish_decompress(vec![1, 2, 3, 4], Some(0)), Ok(Vec::new()));
    assert_eq!(finish_decompress(Vec::new(), Some(0)), Ok(Vec::new()));
}

#[test]
fn finish_decompress_fails_on_a_failure_and_on_a_count_beyond_the_buffer() {
    assert_eq!(finish_decompress(vec![1, 2, 3, 4], None), Err(Error::MalformedPayload));
    assert_eq!(finish_decompress(vec![1, 2, 3, 4], Some(5)), Err(Error::MalformedPayload));
    assert_eq!(finish_decompress(Vec::new(), Some(1)), Err(Error::MalformedPayload));
    assert_eq!(finish_decompress(Vec::new(), None), Err(Error::MalformedPayload));
    assert_eq!(finish_decompress(vec![0; 8], Some(usize::MAX)), Err(Error::MalformedPayload));
}

#[test]
fn finish_compress_keeps_the_header_and_the_block() {
    let mut buffer: Vec<u8> = begin_container(5, 25);
    buffer[12] = 0x50;
    buffer[13..18].copy_from_slice(b"hello");
    assert_eq!(finish_compress(buffer.clone(), Some(6)), Ok(b"mozLz40\0\x05\0\0\0\x50hello".to_vec()));
    assert_eq!(finish_compress(buffer.clone(), Some(1)), Ok(b"mozLz40\0\x05\0\0\0\x50".to_vec()));
    assert_eq!(finish_compress(buffer.clone(), Some(25)), Ok(buffer.clone()));
}

#[test]
fn finish_compress_fails_on_a_failure_on_nothing_written_and_on_too_much() {
    let buffer: Vec<u8> = begin_container(5, 25);
    assert_eq!(finish_compress(buffer.clone(), None), Err(Error::CompressionFailed));
    assert_eq!(finish_compress(buffer.clone(), Some(0)), Err(Error::CompressionFailed));
    assert_eq!(finish_compress(buffer.clone(), Some(26)), Err(Error::CompressionFailed));
    assert_eq!(finish_compress(buffer, Some(usize::MAX)), Err(Error::CompressionFailed));
    assert_eq!(finish_compress(vec![0; 11], Some(1)), Err(Error::CompressionFailed));
    assert_eq!(finish_compress(vec![0; 12], Some(1)), Err(Error::CompressionFailed));
    assert_eq!(finish_compress(Vec::new(), Some(1)), Err(Error::CompressionFailed));
}

#[test]
fn error_messages() {
    assert_eq!(Error::UnrecognizedFormat.message(), "Unrecognized input file");
    assert_eq!(Error::MalformedPayload.message(), "Malformed input file");
    assert_eq!(Error::CompressionFailed.message(), "Compression failed");
    assert_eq!(Error::AllocationFailed.message(), "Allocation failed");
}

#[test]
fn errors_compare_and_copy() {
    let e: Error = Error::MalformedPayload;
    let f: Error = e;
    assert_eq!(e, f);
    assert_ne!(e, Error::UnrecognizedFormat);
    assert_eq!(format!("{:?}", Error::AllocationFailed), "AllocationFailed");
}

#[test]
fn buffer_len_is_the_size_where_a_buffer_can_exist() {
    assert_eq!(buffer_len(0), Ok(0));
    assert_eq!(buffer_len(3), Ok(3));
    assert_eq!(buffer_len(1_000_000), Ok(1_000_000));
    assert_eq!(buffer_len(0x7FFF_FFFF), Ok(0x7FFF_FFFF));
    assert_eq!(buffer_len(isize::MAX as u64), Ok(isize::MAX as usize));
}

#[test]
fn buffer_len_fails_beyond_the_platform() {
    assert_eq!(buffer_len(isize::MAX as u64 + 1), Err(Error::AllocationFailed));
    assert_eq!(buffer_len(u64::MAX), Err(Error::AllocationFailed));
    if usize::BITS == 32 {
        assert_eq!(buffer_len(0x8000_0000), Err(Error::AllocationFailed));
    } else {
        assert_eq!(buffer_len(u32::MAX as u64), Ok(u32::MAX as usize));
    }
}

#[test]
fn longest_ff_run_counts_the_longest_run() {
    assert_eq!(longest_ff_run(&[]), 0);
    assert_eq!(longest_ff_run(&[0x00]), 0);
    assert_eq!(longest_ff_run(&[0xFE, 0x7F, 0x0F]), 0);
    assert_eq!(longest_ff_run(&[0xFF]), 1);
    assert_eq!(longest_ff_run(&[0xFF, 0xFF, 0xFF]), 3);
    assert_eq!(longest_ff_run(&[0xFF, 0x00, 0xFF, 0xFF]), 2);
    assert_eq!(longest_ff_run(&[0xFF, 0xFF, 0x00, 0xFF]), 2);
    assert_eq!(longest_ff_run(&[0x01, 0xFF, 0xFF, 0xFF, 0x02, 0xFF, 0xFF, 0x03]), 3);
    assert_eq!(longest_ff_run(&[0xFF, 0xFE, 0xFF, 0xFE, 0xFF]), 1);
    assert_eq!(longest_ff_run(&vec![0xFF; 1000]), 1000);
}

#[test]
fn decoder_can_take_goes_by_the_longest_run() {
    assert!(decoder_can_take(&[], 0));
    assert!(decoder_can_take(&[0x30, b'a', b'4', b'9'], 3));
    assert!(decoder_can_take(&[0xFF; 64], 1_000_000));
    assert!(decoder_can_take(&[0xFF; 64], isize::MAX as usize));
    // capacity + 255 * (run + 1) + 19 <= usize::MAX
    assert!(decoder_can_take(&[], usize::MAX - 19 - 255));
    assert!(!decoder_can_take(&[], usize::MAX - 19 - 254));
    assert!(decoder_can_take(&[0x00, 0x00, 0x00], usize::MAX - 19 - 255));
    assert!(decoder_can_take(&[0xFF], usize::MAX - 19 - 510));
    assert!(!decoder_can_take(&[0xFF], usize::MAX - 19 - 509));
    assert!(decoder_can_take(&[0xFF, 0x00, 0xFF], usize::MAX - 19 - 510));
    assert!(!decoder_can_take(&[0xFF, 0xFF, 0x00], usize::MAX - 19 - 510));
    assert!(decoder_can_take(&[0x00, 0xFF, 0xFF], usize::MAX - 19 - 765));
    assert!(!decoder_can_take(&[], usize::MAX));
    assert!(!decoder_can_take(&[], usize::MAX - 18));
}
