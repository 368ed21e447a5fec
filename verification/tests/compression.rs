use webxr_graph::compression::{compress_message, decompress_message, CompressionError};

#[test]
fn test_compression_roundtrip() {
    let original = "Hello, World!";
    let compressed = compress_message(original).unwrap();
    let decompressed = decompress_message(&compressed).unwrap();
    assert_eq!(original, decompressed);
}

#[test]
fn test_compression_magic_header() {
    let message = "Test message";
    let compressed = compress_message(message).unwrap();
    assert_eq!(&compressed[..4], b"COMP");
}

#[test]
fn test_invalid_compression_header() {
    let invalid_data = vec![0; 10];
    let result = decompress_message(&invalid_data);
    assert!(result.is_err());
}

#[test]
fn test_empty_message() {
    let empty = "";
    let compressed = compress_message(empty).unwrap();
    let decompressed = decompress_message(&compressed).unwrap();
    assert_eq!(empty, decompressed);
}

#[test]
fn test_large_message() {
    let large_message = "A".repeat(1000000);
    let compressed = compress_message(&large_message).unwrap();
    let decompressed = decompress_message(&compressed).unwrap();
    assert_eq!(large_message, decompressed);
    // Verify compression actually reduces size
    assert!(compressed.len() < large_message.len());
}

#[test]
fn compression_round_trip_non_ascii() {
    let message = "Grüße, 世界 — \u{1F600}";
    let compressed = compress_message(message).unwrap();
    assert_eq!(decompress_message(&compressed).unwrap(), message);
}

#[test]
fn compression_body_is_deflated_not_copied() {
    let message = "abcabcabcabcabcabcabcabcabcabcabcabcabcabcabcabcabcabc";
    let compressed = compress_message(message).unwrap();
    assert_ne!(&compressed[4..], message.as_bytes());
    assert!(compressed.len() < 4 + message.len());
}

#[test]
fn decompress_too_short() {
    assert_eq!(decompress_message(b"COM"), Err(CompressionError::TooShort));
    assert_eq!(decompress_message(b""), Err(CompressionError::TooShort));
}

#[test]
fn decompress_invalid_header() {
    assert_eq!(decompress_message(b"ABCD\x03\x00"), Err(CompressionError::InvalidHeader));
}

#[test]
fn decompress_invalid_stream() {
    assert_eq!(
        decompress_message(b"COMP\xff\xff\xff\xff\xff"),
        Err(CompressionError::DecompressFailed)
    );
}

#[test]
fn decompress_invalid_utf8() {
    let body = miniz_oxide::deflate::compress_to_vec(&[0xff, 0xfe, 0xfd], 6);
    let mut payload = b"COMP".to_vec();
    payload.extend_from_slice(&body);
    assert_eq!(decompress_message(&payload), Err(CompressionError::InvalidUtf8));
}
