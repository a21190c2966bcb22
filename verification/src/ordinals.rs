//! Inscription payload helpers: size gating, compression and encoding.
//!
//! Content bound for an inscription must fit in [`constants::MAX_ORDINALS_SIZE`]
//! bytes. Compression and the textual encoding come from outside libraries;
//! the size gate and the plumbing around them are verified.

use vstd::prelude::*;
use vstd::string::StringSliceAdditionalSpecFns;
use crate::constants;
use crate::EnochianError;

verus! {

/// What flate2's gzip encoder produces for these bytes at the best level.
pub uninterp spec fn gzip_of(data: Seq<u8>) -> Seq<u8>;

/// What flate2's gzip decoder recovers from these bytes, if anything.
pub uninterp spec fn gunzip_of(data: Seq<u8>) -> Option<Seq<u8>>;

/// What base64's standard encoding renders these bytes as.
pub uninterp spec fn base64_of(data: Seq<u8>) -> Seq<char>;

/// What base64's standard decoding recovers from this text, if anything.
pub uninterp spec fn base64_decoded(text: Seq<char>) -> Option<Seq<u8>>;

/// Relies on flate2's `GzEncoder` at the best compression level: the output
/// is a function of the input bytes alone, and flate2's decoder recovers
/// the input from it.
#[verifier::external_body]
fn gzip_compress(data: &[u8]) -> (r: Result<Vec<u8>, ()>)
    ensures
        match r {
            Ok(c) => c@ == gzip_of(data@) && gunzip_of(c@) == Some(data@),
            Err(e) => true,
        },
{
    let mut encoder = flate2::write::GzEncoder::new(Vec::new(), flate2::Compression::best());
    if std::io::Write::write_all(&mut encoder, data).is_err() {
        return Err(());
    }
    encoder.finish().map_err(|_| ())
}

/// Relies on flate2's `GzDecoder`: what these bytes decompress to is a
/// function of the bytes alone, and failure means they hold no gzip stream.
#[verifier::external_body]
fn gzip_decompress(data: &[u8]) -> (r: Result<Vec<u8>, ()>)
    ensures
        match r {
            Ok(d) => gunzip_of(data@) == Some(d@),
            Err(e) => gunzip_of(data@) is None,
        },
{
    let mut decoder = flate2::read::GzDecoder::new(data);
    let mut out: Vec<u8> = Vec::new();
    match std::io::Read::read_to_end(&mut decoder, &mut out) {
        Ok(_) => Ok(out),
        Err(_) => Err(()),
    }
}

/// Relies on base64's `encode`: the standard alphabet with padding, a
/// function of the bytes alone, inverted by base64's `decode`.
#[verifier::external_body]
fn base64_encode(data: &[u8]) -> (r: String)
    ensures
        r@ == base64_of(data@),
        base64_decoded(r@) == Some(data@),
{
    base64::encode(data)
}

/// Relies on base64's `decode`: succeeds exactly on well-formed standard
/// base64 and recovers the encoded bytes.
#[verifier::external_body]
fn base64_decode_text(text: &str) -> (r: Result<Vec<u8>, ()>)
    ensures
        match r {
            Ok(b) => base64_decoded(text@) == Some(b@),
            Err(e) => base64_decoded(text@) is None,
        },
{
    base64::decode(text).map_err(|_| ())
}

/// Relies on std's `String::from_utf8`: succeeds exactly on valid UTF-8
/// and decodes it.
#[verifier::external_body]
fn string_from_utf8(bytes: Vec<u8>) -> (r: Result<String, ()>)
    ensures
        match r {
            Ok(s) => vstd::utf8::valid_utf8(bytes@) && s@ == vstd::utf8::decode_utf8(bytes@),
            Err(e) => !vstd::utf8::valid_utf8(bytes@),
        },
{
    String::from_utf8(bytes).map_err(|_| ())
}

/// Whether content of this byte length fits an inscription unchanged.
pub fn validate_ordinals_size_limit(content: &str) -> (r: bool)
    ensures
        r == (content.spec_bytes().len() <= constants::MAX_ORDINALS_SIZE),
{
    let bytes = content.as_bytes();
    bytes.len() <= constants::MAX_ORDINALS_SIZE
}

/// The encoded payload of content whose compressed form fits the
/// inscription bound, if it fits.
pub open spec fn spec_compressed_payload(raw: Seq<u8>) -> Option<Seq<char>> {
    let g = gzip_of(raw);
    if g.len() <= constants::MAX_ORDINALS_SIZE {
        Some(base64_of(g))
    } else {
        None
    }
}

/// Compresses content and encodes it as text for inscription.
///
/// Content whose compressed form exceeds the inscription bound is
/// rejected as out of bounds; a failure inside the compressor surfaces as
/// a serialization failure.
pub fn compress_for_ordinals(content: &str) -> (r: Result<String, EnochianError>)
    ensures
        match r {
            Ok(s) => spec_compressed_payload(content.spec_bytes()) == Some(s@)
                && gunzip_of(gzip_of(content.spec_bytes())) == Some(content.spec_bytes()),
            Err(e) => e == EnochianError::SerializationError || (e
                == EnochianError::InvariantViolation && spec_compressed_payload(
                content.spec_bytes(),
            ) is None),
        },
{
    let compressed = match gzip_compress(content.as_bytes()) {
        Ok(c) => c,
        Err(_) => {
            return Err(EnochianError::SerializationError);
        },
    };
    if compressed.len() > constants::MAX_ORDINALS_SIZE {
        return Err(EnochianError::InvariantViolation);
    }
    Ok(base64_encode(compressed.as_slice()))
}

/// What a decode of an inscription payload recovers: the base64 decoding,
/// decompressed, read as UTF-8 text.
pub open spec fn spec_decompressed_text(text: Seq<char>) -> Option<Seq<char>> {
    match base64_decoded(text) {
        None => None,
        Some(c) => match gunzip_of(c) {
            None => None,
            Some(d) => if vstd::utf8::valid_utf8(d) {
                Some(vstd::utf8::decode_utf8(d))
            } else {
                None
            },
        },
    }
}

/// Decodes and decompresses an inscription payload back into text.
pub fn decompress_from_ordinals(compressed_base64: &str) -> (r: Result<String, EnochianError>)
    ensures
        match r {
            Ok(s) => spec_decompressed_text(compressed_base64@) == Some(s@),
            Err(e) => e == EnochianError::SerializationError && spec_decompressed_text(
                compressed_base64@,
            ) is None,
        },
{
    let decoded = match base64_decode_text(compressed_base64) {
        Ok(b) => b,
        Err(_) => {
            return Err(EnochianError::SerializationError);
        },
    };
    let decompressed = match gzip_decompress(decoded.as_slice()) {
        Ok(d) => d,
        Err(_) => {
            return Err(EnochianError::SerializationError);
        },
    };
    match string_from_utf8(decompressed) {
        Ok(s) => Ok(s),
        Err(_) => Err(EnochianError::SerializationError),
    }
}

} // verus!
