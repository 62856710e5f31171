use hif::bitmap::Bitmap;
use hif::byte_order::ByteOrder;
use hif::compression::{CompressError, CHUNK_LEN};
use hif::sam::Sam;
use std::io::Read;

fn sample(len: usize) -> Vec<u8> {
    (0..len).map(|k| (k * k % 253) as u8).collect()
}

fn inflate(stream: &[u8]) -> Vec<u8> {
    let mut data = Vec::new();
    flate2::read::GzDecoder::new(stream).read_to_end(&mut data).unwrap();
    data
}

#[test]
fn chunk_is_4096_bytes() {
    assert_eq!(CHUNK_LEN, 4096);
}

#[test]
fn compressed_container_inflates_to_the_container() {
    let bitmap = Bitmap::new(40, 30, sample(40 * 30 * 3)).unwrap();
    let contents = Sam::encode(&bitmap, ByteOrder::Little);
    let stream = Sam::compress_hif_file(&contents).unwrap();
    assert_eq!(Sam::decompress_hif_file(&stream), Some(contents.clone()));
    assert_eq!(inflate(&stream), contents);
}

#[test]
fn every_chunking_inflates_to_the_input() {
    for len in [0usize, 1, 11, 4095, 4096, 4097, 8192, 8193, 20_000] {
        let contents = sample(len);
        let stream = Sam::compress_hif_file(&contents).unwrap();
        assert_eq!(inflate(&stream), contents);
        assert_eq!(Sam::decompress_hif_file(&stream), Some(contents));
    }
}

#[test]
fn compressed_stream_is_gzip_and_not_the_input() {
    let contents = sample(5000);
    let stream = Sam::compress_hif_file(&contents).unwrap();
    assert_eq!(&stream[..3], &[0x1f, 0x8b, 8]);
    assert_ne!(stream, contents);
}

#[test]
fn repetitive_container_gets_smaller() {
    let contents = vec![7u8; 100_000];
    let stream = Sam::compress_hif_file(&contents).unwrap();
    assert!(stream.len() < contents.len());
    assert_eq!(Sam::decompress_hif_file(&stream), Some(contents));
}

#[test]
fn decompress_gives_the_bytes_and_not_the_stream() {
    let stream = Sam::compress_hif_file(b"hif").unwrap();
    let contents = Sam::decompress_hif_file(&stream).unwrap();
    assert_eq!(contents, b"hif");
    assert_ne!(contents, stream);
}

#[test]
fn decompress_rejects_what_is_no_gzip_stream() {
    assert_eq!(Sam::decompress_hif_file(&[]), None);
    assert_eq!(Sam::decompress_hif_file(b"not a gzip stream"), None);
    assert_eq!(Sam::decompress_hif_file(&[1, 0, 0, 0, 1, 0, 0, 0, 1, 2, 3]), None);
}

#[test]
fn decompress_rejects_a_damaged_stream() {
    let mut stream = Sam::compress_hif_file(&sample(3000)).unwrap();
    let last = stream.len() - 1;
    stream[last] ^= 0xff;
    assert_eq!(Sam::decompress_hif_file(&stream), None);
    let whole = Sam::compress_hif_file(&sample(3000)).unwrap();
    assert_eq!(Sam::decompress_hif_file(&whole[..whole.len() / 2]), None);
}

#[test]
fn compressed_keeps_a_finished_stream() {
    assert_eq!(Sam::compressed(Ok(vec![1, 2, 3])), Ok(vec![1, 2, 3]));
    assert_eq!(Sam::compressed(Ok(Vec::new())), Ok(Vec::new()));
}

#[test]
fn compressed_reports_a_failed_encoder() {
    let error = std::io::Error::new(std::io::ErrorKind::Other, "no");
    assert_eq!(Sam::compressed(Err(error)), Err(CompressError));
}

#[test]
fn decompressed_keeps_what_was_read() {
    assert_eq!(Sam::decompressed(Ok(vec![4, 5])), Some(vec![4, 5]));
}

#[test]
fn decompressed_drops_a_failed_read() {
    let error = std::io::Error::new(std::io::ErrorKind::InvalidInput, "no");
    assert_eq!(Sam::decompressed(Err(error)), None);
}

#[test]
fn one_byte_over_a_chunk_comes_back_whole() {
    let contents = vec![7u8; 4097];
    let stream = Sam::compress_hif_file(&contents).unwrap();
    let back = Sam::decompress_hif_file(&stream).unwrap();
    assert_eq!(back.len(), 4097);
    assert_eq!(back, contents);
}

#[test]
fn empty_input_gives_a_complete_stream() {
    let stream = Sam::compress_hif_file(&[]).unwrap();
    assert!(stream.len() > 0);
    assert_eq!(&stream[..2], &[0x1f, 0x8b]);
    assert_eq!(Sam::decompress_hif_file(&stream), Some(Vec::new()));
}

#[test]
fn bytes_that_are_no_container_are_compressed_unexamined() {
    let stream = Sam::compress_hif_file(&[1, 2, 3]).unwrap();
    assert_eq!(Sam::decompress_hif_file(&stream), Some(vec![1, 2, 3]));
}
