use enochian_core::ordinals::{
    compress_for_ordinals, decompress_from_ordinals, validate_ordinals_size_limit,
};
use enochian_core::strutil::{contains_substr, parse_u32, str_eq};
use enochian_core::EnochianError;

#[test]
fn compression_round_trip() {
    let content = "The vision of the thirty Aethyrs, recorded in the watchtower journal.";
    let payload = compress_for_ordinals(content).unwrap();
    let recovered = decompress_from_ordinals(&payload).unwrap();
    assert_eq!(recovered, content);
}

#[test]
fn compression_shrinks_repetitive_content() {
    let content = "aethyr ".repeat(4096);
    let payload = compress_for_ordinals(&content).unwrap();
    assert!(payload.len() < content.len());
    assert_eq!(decompress_from_ordinals(&payload).unwrap(), content);
}

#[test]
fn malformed_payload_rejected() {
    assert_eq!(
        decompress_from_ordinals("%%% not base64 %%%").unwrap_err(),
        EnochianError::SerializationError
    );
    let not_gzip = base64::encode(b"plain bytes, no gzip stream");
    assert_eq!(
        decompress_from_ordinals(&not_gzip).unwrap_err(),
        EnochianError::SerializationError
    );
}

#[test]
fn size_limit_gate() {
    assert!(validate_ordinals_size_limit("small"));
    let big = "x".repeat(1048577);
    assert!(!validate_ordinals_size_limit(&big));
    let exact = "x".repeat(1048576);
    assert!(validate_ordinals_size_limit(&exact));
}

#[test]
fn decimal_parser() {
    assert_eq!(parse_u32("0"), Some(0));
    assert_eq!(parse_u32("17"), Some(17));
    assert_eq!(parse_u32("4294967295"), Some(u32::MAX));
    assert_eq!(parse_u32("4294967296"), None);
    assert_eq!(parse_u32(""), None);
    assert_eq!(parse_u32("12a"), None);
    assert_eq!(parse_u32("-3"), None);
}

#[test]
fn string_utilities() {
    assert!(str_eq("aethyr", "aethyr"));
    assert!(!str_eq("aethyr", "aethyrs"));
    assert!(contains_substr("a truly enochian sigil", "enochian"));
    assert!(!contains_substr("a hermetic sigil", "enochian"));
    assert!(contains_substr("anything", ""));
}
