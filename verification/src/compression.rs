//! Compressed WebSocket payloads: the ASCII magic `COMP` followed by the raw
//! DEFLATE stream of the message's UTF-8 bytes.

use vstd::prelude::*;
use vstd::utf8::*;

verus! {

broadcast use {encode_utf8_valid_utf8, encode_utf8_decode_utf8};

/// DEFLATE level used for outgoing messages.
pub const COMPRESSION_LEVEL: u8 = 6;

/// The four header bytes `b"COMP"`.
pub open spec fn compression_magic() -> Seq<u8> {
    seq![0x43u8, 0x4Fu8, 0x4Du8, 0x50u8]
}

/// Why a payload could not be decompressed.
#[derive(Debug, Clone, Copy, PartialEq, Eq, Structural)]
pub enum CompressionError {
    /// Fewer bytes than the magic header.
    TooShort,
    /// The payload does not start with `COMP`.
    InvalidHeader,
    /// The bytes after the header are not a valid DEFLATE stream.
    DecompressFailed,
    /// The inflated bytes are not UTF-8.
    InvalidUtf8,
}

/// What `miniz_oxide::deflate::compress_to_vec(data, level)` returns.
pub uninterp spec fn deflated(data: Seq<u8>, level: u8) -> Seq<u8>;

/// What `miniz_oxide::inflate::decompress_to_vec(data)` returns, `None`
/// standing for its error.
pub uninterp spec fn inflated(data: Seq<u8>) -> Option<Seq<u8>>;

/// Calls `miniz_oxide::deflate::compress_to_vec`. Beyond naming the result,
/// the contract claims that inflating it gives back `data` (DEFLATE is
/// lossless; miniz_oxide's own tests check this round trip).
#[verifier::external_body]
fn deflate(data: &[u8], level: u8) -> (res: Vec<u8>)
    ensures
        res@ == deflated(data@, level),
        inflated(res@) == Some(data@),
{
    miniz_oxide::deflate::compress_to_vec(data, level)
}

/// Calls `miniz_oxide::inflate::decompress_to_vec`; its error becomes `None`.
#[verifier::external_body]
fn inflate(data: &[u8]) -> (res: Option<Vec<u8>>)
    ensures
        match res {
            Some(v) => inflated(data@) == Some(v@),
            None => inflated(data@) is None,
        },
{
    miniz_oxide::inflate::decompress_to_vec(data).ok()
}

/// Calls `String::from_utf8`: it succeeds exactly on valid UTF-8 and then
/// holds the decoded characters (std documentation); the error becomes `None`.
#[verifier::external_body]
fn string_from_utf8(bytes: Vec<u8>) -> (res: Option<String>)
    ensures
        res is Some <==> valid_utf8(bytes@),
        res matches Some(s) ==> s@ == decode_utf8(bytes@),
{
    String::from_utf8(bytes).ok()
}

/// The payload `compress_message` produces for a message with characters `m`.
pub open spec fn compressed_payload(m: Seq<char>) -> Seq<u8> {
    compression_magic() + deflated(encode_utf8(m), COMPRESSION_LEVEL)
}

/// What `decompress_message` returns for the payload `data`.
pub open spec fn decompressed_payload(data: Seq<u8>) -> Result<Seq<char>, CompressionError> {
    if data.len() < 4 {
        Err(CompressionError::TooShort)
    } else if data.take(4) != compression_magic() {
        Err(CompressionError::InvalidHeader)
    } else {
        match inflated(data.skip(4)) {
            None => Err(CompressionError::DecompressFailed),
            Some(bytes) => if valid_utf8(bytes) {
                Ok(decode_utf8(bytes))
            } else {
                Err(CompressionError::InvalidUtf8)
            },
        }
    }
}

/// Compresses `message` into `COMP` followed by the DEFLATE stream of its
/// UTF-8 bytes. It never fails, and decompressing its result gives back
/// `message`.
pub fn compress_message(message: &str) -> (res: Result<Vec<u8>, CompressionError>)
    ensures
        res matches Ok(v) && v@ == compressed_payload(message@),
        res matches Ok(v) && decompressed_payload(v@) == Ok::<Seq<char>, CompressionError>(
            message@,
        ),
        res matches Ok(v) && v@.len() >= 4 && v@.take(4) == seq![0x43u8, 0x4Fu8, 0x4Du8, 0x50u8]
            && inflated(v@.skip(4)) == Some(encode_utf8(message@)),
{
    let body = deflate(message.as_bytes(), COMPRESSION_LEVEL);
    let mut out: Vec<u8> = Vec::new();
    out.push(0x43u8);
    out.push(0x4Fu8);
    out.push(0x4Du8);
    out.push(0x50u8);
    assert(out@ =~= compression_magic());
    let mut i: usize = 0;
    while i < body.len()
        invariant
            i <= body.len(),
            out@ == compression_magic() + body@.take(i as int),
        decreases body.len() - i,
    {
        out.push(body[i]);
        i = i + 1;
        assert(out@ =~= compression_magic() + body@.take(i as int));
    }
    assert(body@.take(body@.len() as int) =~= body@);
    proof {
        encode_utf8_valid_utf8(message@);
        encode_utf8_decode_utf8(message@);
        assert(out@.take(4) =~= compression_magic());
        assert(out@.skip(4) =~= body@);
    }
    Ok(out)
}

/// Checks the `COMP` header, inflates the rest and decodes it as UTF-8.
pub fn decompress_message(compressed: &[u8]) -> (res: Result<String, CompressionError>)
    ensures
        match (res, decompressed_payload(compressed@)) {
            (Ok(s), Ok(m)) => s@ == m,
            (Err(e), Err(f)) => e == f,
            _ => false,
        },
        forall|t: Seq<char>|
            compressed@.len() >= 4 && compressed@.take(4) == seq![0x43u8, 0x4Fu8, 0x4Du8, 0x50u8]
                && inflated(compressed@.skip(4)) == Some(#[trigger] encode_utf8(t)) ==> (res matches Ok(
                s,
            ) && s@ == t),
{
    proof {
        assert forall|t: Seq<char>|
            compressed@.len() >= 4 && compressed@.take(4) == seq![0x43u8, 0x4Fu8, 0x4Du8, 0x50u8]
                && inflated(compressed@.skip(4)) == Some(#[trigger] encode_utf8(t)) implies decompressed_payload(
            compressed@,
        ) == Ok::<Seq<char>, CompressionError>(t) by {
            lemma_any_deflate_stream_of_text(compressed@, t);
        }
    }
    if compressed.len() < 4 {
        return Err(CompressionError::TooShort);
    }
    if compressed[0] != 0x43u8 || compressed[1] != 0x4Fu8 || compressed[2] != 0x4Du8
        || compressed[3] != 0x50u8 {
        assert(compressed@.take(4) != compression_magic()) by {
            if compressed@.take(4) == compression_magic() {
                assert(compressed@.take(4)[0] == compressed@[0]);
                assert(compressed@.take(4)[1] == compressed@[1]);
                assert(compressed@.take(4)[2] == compressed@[2]);
                assert(compressed@.take(4)[3] == compressed@[3]);
            }
        }
        return Err(CompressionError::InvalidHeader);
    }
    assert(compressed@.take(4) =~= compression_magic());
    let rest = vstd::slice::slice_subrange(compressed, 4, compressed.len());
    assert(rest@ =~= compressed@.skip(4));
    match inflate(rest) {
        None => Err(CompressionError::DecompressFailed),
        Some(bytes) => match string_from_utf8(bytes) {
            None => Err(CompressionError::InvalidUtf8),
            Some(s) => Ok(s),
        },
    }
}

/// Decompression reads any DEFLATE stream, not only the ones this crate
/// writes: `COMP` followed by a DEFLATE stream whose inflated bytes are the
/// UTF-8 encoding of a text gives back that text.
pub proof fn lemma_any_deflate_stream_of_text(data: Seq<u8>, t: Seq<char>)
    requires
        data.len() >= 4,
        data.take(4) == seq![0x43u8, 0x4Fu8, 0x4Du8, 0x50u8],
        inflated(data.skip(4)) == Some(encode_utf8(t)),
    ensures
        decompressed_payload(data) == Ok::<Seq<char>, CompressionError>(t),
{
    encode_utf8_valid_utf8(t);
    encode_utf8_decode_utf8(t);
    assert(compression_magic() =~= seq![0x43u8, 0x4Fu8, 0x4Du8, 0x50u8]);
}

/// Every compressed payload starts with the `COMP` header.
pub proof fn lemma_compressed_has_magic(m: Seq<char>)
    ensures
        compressed_payload(m).len() >= 4,
        compressed_payload(m).take(4) == compression_magic(),
{
    assert(compressed_payload(m).take(4) =~= compression_magic());
}

/// A payload that does not start with `COMP` is refused, whatever follows.
pub proof fn lemma_bad_header_refused(data: Seq<u8>)
    requires
        data.len() < 4 || data.take(4) != compression_magic(),
    ensures
        decompressed_payload(data) is Err,
{
}

} // verus!
