//! Digests, encodings and compression, computed by the crates that implement them.

use base64::Engine;
use sha2::{Digest, Sha256, Sha512};
use std::io::Write;
use vstd::prelude::*;
use vstd::utf8::{decode_utf8, encode_utf8, valid_utf8};

verus! {

/// What `sha2::Sha256::digest` computes.
pub uninterp spec fn sha256_digest(data: Seq<u8>) -> Seq<u8>;

/// What `sha2::Sha512::digest` computes.
pub uninterp spec fn sha512_digest(data: Seq<u8>) -> Seq<u8>;

/// What the standard engine of `base64` writes for some bytes.
pub uninterp spec fn base64_text(data: Seq<u8>) -> Seq<char>;

/// What the standard engine of `base64` reads from a text; `None` where it reports an error.
pub uninterp spec fn base64_bytes(text: Seq<char>) -> Option<Seq<u8>>;

/// What `flate2::write::GzEncoder` writes for some bytes at the best compression.
pub uninterp spec fn gzip_of(data: Seq<u8>) -> Seq<u8>;

/// What `String::from_utf8_lossy` makes of some bytes.
pub uninterp spec fn utf8_lossy(data: Seq<u8>) -> Seq<char>;

/// `sha2::Sha256::digest`: the SHA-256 digest of the data, which is 32 bytes long.
#[verifier::external_body]
pub(crate) fn sha256(data: &[u8]) -> (digest: Vec<u8>)
    ensures
        digest@ == sha256_digest(data@),
        digest@.len() == 32,
{
    Sha256::digest(data).to_vec()
}

/// `sha2::Sha512::digest`: the SHA-512 digest of the data, which is 64 bytes long.
#[verifier::external_body]
pub(crate) fn sha512(data: &[u8]) -> (digest: Vec<u8>)
    ensures
        digest@ == sha512_digest(data@),
        digest@.len() == 64,
{
    Sha512::digest(data).to_vec()
}

/// `encode` of `base64::engine::general_purpose::STANDARD`: a text from which the same engine
/// reads the data back. Data is kept small enough for the text to fit in memory on any machine.
#[verifier::external_body]
pub(crate) fn base64_encode(data: &[u8]) -> (text: String)
    requires
        data@.len() <= 0x1000_0000,
    ensures
        text@ == base64_text(data@),
        base64_bytes(text@) == Some(data@),
{
    base64::engine::general_purpose::STANDARD.encode(data)
}

/// `decode` of `base64::engine::general_purpose::STANDARD`: the bytes that a text stands for, or
/// `None` where the engine reports that it stands for none.
#[verifier::external_body]
pub(crate) fn base64_decode(text: &str) -> (data: Option<Vec<u8>>)
    ensures
        match data {
            Some(bytes) => base64_bytes(text@) == Some(bytes@),
            None => base64_bytes(text@) is None,
        },
{
    base64::engine::general_purpose::STANDARD.decode(text).ok()
}

/// `flate2::write::GzEncoder` over a growing buffer, at `flate2::Compression::best()`. Writing to a
/// buffer in memory does not fail.
#[verifier::external_body]
pub(crate) fn gzip(data: &[u8]) -> (compressed: Vec<u8>)
    ensures
        compressed@ == gzip_of(data@),
{
    let mut encoder = flate2::write::GzEncoder::new(Vec::new(), flate2::Compression::best());
    match encoder.write_all(data) {
        Ok(()) => encoder.finish().unwrap_or_default(),
        Err(_) => Vec::new(),
    }
}

/// `String::from_utf8`: the string that some bytes encode, or `None` when they are not UTF-8.
#[verifier::external_body]
pub(crate) fn utf8_string(data: Vec<u8>) -> (text: Option<String>)
    ensures
        match text {
            Some(text) => valid_utf8(data@) && text@ == decode_utf8(data@),
            None => !valid_utf8(data@),
        },
{
    String::from_utf8(data).ok()
}

/// `String::from_utf8_lossy`: the string that some bytes encode, unchanged when they are UTF-8.
#[verifier::external_body]
pub(crate) fn utf8_string_lossy(data: &[u8]) -> (text: String)
    ensures
        text@ == utf8_lossy(data@),
        valid_utf8(data@) ==> text@ == decode_utf8(data@),
{
    String::from_utf8_lossy(data).into_owned()
}

/// Whether a byte may stand in a header value.
pub open spec fn header_byte(byte: u8) -> bool {
    (byte >= 32 && byte != 127) || byte == 9
}

/// Whether every byte of a text may stand in a header value.
pub open spec fn header_safe(text: Seq<char>) -> bool {
    forall|i: int| 0 <= i < encode_utf8(text).len() ==> header_byte(#[trigger] encode_utf8(text)[i])
}

/// `axum::http::HeaderValue::from_str` accepts exactly the texts without control bytes, the tab
/// being allowed.
#[verifier::external_body]
pub(crate) fn is_header_value(text: &str) -> (accepted: bool)
    ensures
        accepted == header_safe(text@),
{
    axum::http::HeaderValue::from_str(text).is_ok()
}

} // verus!
