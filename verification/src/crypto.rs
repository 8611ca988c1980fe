//! Hashes, message authentication codes and Base64, from the RustCrypto and `base64` crates.

use vstd::prelude::*;
use vstd::utf8::*;
use base64::Engine;
use hmac::Mac;
use sha2::Digest;
use crate::text::push_char;

verus! {

/// The SHA-256 digest of a byte sequence.
pub uninterp spec fn sha256(data: Seq<u8>) -> Seq<u8>;

/// The HMAC-SHA1 tag of `message` under `key`.
pub uninterp spec fn hmac_sha1(key: Seq<u8>, message: Seq<u8>) -> Seq<u8>;

/// The HMAC-SHA256 tag of `message` under `key`.
pub uninterp spec fn hmac_sha256(key: Seq<u8>, message: Seq<u8>) -> Seq<u8>;

/// Base64 text of bytes with the standard alphabet and `=` padding.
pub uninterp spec fn base64_standard(data: Seq<u8>) -> Seq<char>;

/// Base64 text of bytes with the URL-safe alphabet and no padding.
pub uninterp spec fn base64_url(data: Seq<u8>) -> Seq<char>;

/// The bytes that URL-safe, unpadded Base64 text decodes to, or `None` if it is not valid.
pub uninterp spec fn base64_url_decoded(text: Seq<char>) -> Option<Seq<u8>>;

/// A character of the URL-safe Base64 alphabet.
pub open spec fn is_url_safe_b64_char(c: char) -> bool {
    ('A' <= c && c <= 'Z') || ('a' <= c && c <= 'z') || ('0' <= c && c <= '9') || c == '-' || c == '_'
}

/// The SHA-256 digest of `data` (wraps `sha2::Sha256::digest`); 32 bytes long.
#[verifier::external_body]
pub(crate) fn sha256_digest(data: &[u8]) -> (r: Vec<u8>)
    ensures
        r@ == sha256(data@),
        r@.len() == 32,
{
    sha2::Sha256::digest(data).to_vec()
}

/// The HMAC-SHA1 tag of `message` under `key` (wraps `hmac::Hmac<sha1::Sha1>`); 20 bytes long.
/// HMAC accepts keys of any length, so building the MAC cannot fail.
#[verifier::external_body]
pub(crate) fn hmac_sha1_tag(key: &[u8], message: &[u8]) -> (r: Vec<u8>)
    ensures
        r@ == hmac_sha1(key@, message@),
        r@.len() == 20,
{
    let mut mac = <hmac::Hmac<sha1::Sha1> as Mac>::new_from_slice(key).expect("HMAC can take key of any size");
    mac.update(message);
    mac.finalize().into_bytes().to_vec()
}

/// The HMAC-SHA256 tag of `message` under `key` (wraps `hmac::Hmac<sha2::Sha256>`); 32 bytes
/// long. HMAC accepts keys of any length, so building the MAC cannot fail.
#[verifier::external_body]
pub(crate) fn hmac_sha256_tag(key: &[u8], message: &[u8]) -> (r: Vec<u8>)
    ensures
        r@ == hmac_sha256(key@, message@),
        r@.len() == 32,
{
    let mut mac = <hmac::Hmac<sha2::Sha256> as Mac>::new_from_slice(key).expect("HMAC can take key of any size");
    mac.update(message);
    mac.finalize().into_bytes().to_vec()
}

/// Standard padded Base64 of `data` (wraps `base64::engine::general_purpose::STANDARD.encode`).
/// The input must be small enough for the output length to fit a `usize`.
#[verifier::external_body]
pub(crate) fn base64_standard_encode(data: &[u8]) -> (r: String)
    requires
        data@.len() <= usize::MAX / 2,
    ensures
        r@ == base64_standard(data@),
{
    base64::engine::general_purpose::STANDARD.encode(data)
}

/// URL-safe unpadded Base64 of `data` (wraps `base64::engine::general_purpose::URL_SAFE_NO_PAD.encode`).
/// The text uses only the URL-safe alphabet, and decoding it gives `data` back.
#[verifier::external_body]
pub(crate) fn base64_url_encode(data: &[u8]) -> (r: String)
    requires
        data@.len() <= usize::MAX / 2,
    ensures
        r@ == base64_url(data@),
        forall|i: int| 0 <= i < r@.len() ==> is_url_safe_b64_char(#[trigger] r@[i]),
        base64_url_decoded(r@) == Some(data@),
{
    base64::engine::general_purpose::URL_SAFE_NO_PAD.encode(data)
}

/// Decodes URL-safe unpadded Base64 (wraps `base64::engine::general_purpose::URL_SAFE_NO_PAD.decode`).
#[verifier::external_body]
pub(crate) fn base64_url_decode(text: &str) -> (r: Option<Vec<u8>>)
    ensures
        match r {
            Some(v) => base64_url_decoded(text@) == Some(v@),
            None => base64_url_decoded(text@) is None,
        },
{
    base64::engine::general_purpose::URL_SAFE_NO_PAD.decode(text).ok()
}

/// The text of UTF-8 bytes, or `None` if they are not valid UTF-8 (wraps `String::from_utf8`).
#[verifier::external_body]
pub(crate) fn string_from_utf8(bytes: Vec<u8>) -> (r: Option<String>)
    ensures
        r is Some <==> valid_utf8(bytes@),
        r matches Some(s) ==> s@ == decode_utf8(bytes@),
{
    String::from_utf8(bytes).ok()
}

/// The lowercase hexadecimal digit of a value below 16.
pub open spec fn hex_digit(d: nat) -> char {
    if d == 0 { '0' }
    else if d == 1 { '1' }
    else if d == 2 { '2' }
    else if d == 3 { '3' }
    else if d == 4 { '4' }
    else if d == 5 { '5' }
    else if d == 6 { '6' }
    else if d == 7 { '7' }
    else if d == 8 { '8' }
    else if d == 9 { '9' }
    else if d == 10 { 'a' }
    else if d == 11 { 'b' }
    else if d == 12 { 'c' }
    else if d == 13 { 'd' }
    else if d == 14 { 'e' }
    else { 'f' }
}

/// Lowercase hexadecimal text of bytes, two digits per byte.
pub open spec fn hex_lower(data: Seq<u8>) -> Seq<char>
    decreases data.len(),
{
    if data.len() == 0 {
        Seq::empty()
    } else {
        hex_lower(data.drop_last()).push(hex_digit((data.last() / 16) as nat)).push(hex_digit((data.last() % 16) as nat))
    }
}

fn hex_char(d: u8) -> (c: char)
    requires
        d < 16,
    ensures
        c == hex_digit(d as nat),
{
    if d == 0 { '0' }
    else if d == 1 { '1' }
    else if d == 2 { '2' }
    else if d == 3 { '3' }
    else if d == 4 { '4' }
    else if d == 5 { '5' }
    else if d == 6 { '6' }
    else if d == 7 { '7' }
    else if d == 8 { '8' }
    else if d == 9 { '9' }
    else if d == 10 { 'a' }
    else if d == 11 { 'b' }
    else if d == 12 { 'c' }
    else if d == 13 { 'd' }
    else if d == 14 { 'e' }
    else { 'f' }
}

/// Lowercase hexadecimal text of bytes.
pub fn to_hex_lower(data: &[u8]) -> (r: String)
    ensures
        r@ == hex_lower(data@),
{
    let mut r = String::new();
    let mut i: usize = 0;
    while i < data.len()
        invariant
            i <= data@.len(),
            r@ == hex_lower(data@.take(i as int)),
        decreases data.len() - i,
    {
        let b = data[i];
        push_char(&mut r, hex_char(b / 16));
        push_char(&mut r, hex_char(b % 16));
        assert(data@.take(i + 1).drop_last() == data@.take(i as int));
        i = i + 1;
    }
    assert(data@.take(data@.len() as int) == data@);
    r
}

/// The SHA-256 digest of `data` in lowercase hexadecimal.
pub fn compute_sha256(data: &[u8]) -> (r: String)
    ensures
        r@ == hex_lower(sha256(data@)),
{
    let d = sha256_digest(data);
    to_hex_lower(d.as_slice())
}

} // verus!
