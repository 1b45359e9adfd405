//! Hashing and encodings provided by outside crates (`sha1`, `md-5`, `hex`,
//! `uuid`, `base64`), each behind a small trusted wrapper.
use vstd::prelude::*;
use crate::text::{hex_digit_lower, hex_lower};
use sha1::Digest;
use base64::Engine;

verus! {

/// The SHA-1 digest of a byte sequence.
pub uninterp spec fn sha1_of(data: Seq<u8>) -> Seq<u8>;

/// `sha1::Sha1::digest`: the SHA-1 digest of `data`, which is 20 bytes long
/// (the hasher's output size).
#[verifier::external_body]
pub(crate) fn sha1_digest(data: &[u8]) -> (r: Vec<u8>)
    ensures
        r@ == sha1_of(data@),
        r@.len() == 20,
{
    sha1::Sha1::digest(data).to_vec()
}

/// The MD5 digest of a byte sequence.
pub uninterp spec fn md5_of(data: Seq<u8>) -> Seq<u8>;

/// `md5::Md5::digest`: the MD5 digest of `data`, which is 16 bytes long
/// (the hasher's output size).
#[verifier::external_body]
pub(crate) fn md5_digest(data: &[u8]) -> (r: Vec<u8>)
    ensures
        r@ == md5_of(data@),
        r@.len() == 16,
{
    md5::Md5::digest(data).to_vec()
}

/// `hex::encode`: two lowercase hexadecimal digits per byte.
#[verifier::external_body]
pub(crate) fn hex_encode(data: &[u8]) -> (r: String)
    ensures
        r@ == hex_lower(data@),
{
    hex::encode(data)
}

/// The hyphenated lowercase form `xxxxxxxx-xxxx-xxxx-xxxx-xxxxxxxxxxxx` of 16 bytes.
pub open spec fn hyphenated(b: Seq<u8>) -> Seq<char> {
    hex_lower(b.subrange(0, 4)) + seq!['-'] + hex_lower(b.subrange(4, 6)) + seq!['-']
        + hex_lower(b.subrange(6, 8)) + seq!['-'] + hex_lower(b.subrange(8, 10)) + seq!['-']
        + hex_lower(b.subrange(10, 16))
}

/// Two digits per byte.
proof fn lemma_hex_lower_len(b: Seq<u8>)
    ensures
        hex_lower(b).len() == 2 * b.len(),
        b.len() > 0 ==> hex_lower(b)[0] == hex_digit_lower(b[0] / 16),
    decreases b.len(),
{
    if b.len() > 0 {
        lemma_hex_lower_len(b.drop_first());
    }
}

/// The hyphenated form of 16 bytes is 36 characters long; its characters at
/// 14 and 19 are the high digits of bytes 6 and 8.
pub proof fn lemma_hyphenated_digits(b: Seq<u8>)
    requires
        b.len() == 16,
    ensures
        hyphenated(b).len() == 36,
        hyphenated(b)[14] == hex_digit_lower(b[6] / 16),
        hyphenated(b)[19] == hex_digit_lower(b[8] / 16),
{
    lemma_hex_lower_len(b.subrange(0, 4));
    lemma_hex_lower_len(b.subrange(4, 6));
    lemma_hex_lower_len(b.subrange(6, 8));
    lemma_hex_lower_len(b.subrange(8, 10));
    lemma_hex_lower_len(b.subrange(10, 16));
}

/// `uuid::Uuid::from_bytes(..).to_string()`: a UUID's `Display` form is its
/// hyphenated lowercase hexadecimal rendering.
#[verifier::external_body]
pub(crate) fn uuid_string(bytes: &Vec<u8>) -> (r: String)
    requires
        bytes@.len() == 16,
    ensures
        r@ == hyphenated(bytes@),
{
    let arr: [u8; 16] = bytes.as_slice().try_into().unwrap();
    uuid::Uuid::from_bytes(arr).to_string()
}

/// The standard-alphabet, padded Base64 text of a byte sequence.
pub uninterp spec fn base64_of(data: Seq<u8>) -> Seq<char>;

/// `base64::engine::general_purpose::STANDARD.encode`.
#[verifier::external_body]
pub(crate) fn base64_encode(data: &[u8]) -> (r: String)
    ensures
        r@ == base64_of(data@),
{
    base64::engine::general_purpose::STANDARD.encode(data)
}

/// The bytes that standard-alphabet Base64 text decodes to, if it is valid.
pub uninterp spec fn base64_decoded(text: Seq<char>) -> Option<Seq<u8>>;

#[verifier::external_type_specification]
#[verifier::external_body]
pub struct ExDecodeError(base64::DecodeError);

/// `base64::engine::general_purpose::STANDARD.decode`: the decoded bytes, or
/// the crate's error when the text is not valid Base64.
#[verifier::external_body]
pub(crate) fn base64_decode(text: &str) -> (r: Result<Vec<u8>, base64::DecodeError>)
    ensures
        r matches Ok(b) ==> base64_decoded(text@) == Some(b@),
        r is Err ==> base64_decoded(text@) is None,
{
    base64::engine::general_purpose::STANDARD.decode(text)
}

/// The `Display` text of a Base64 decoding error.
#[verifier::external_body]
pub(crate) fn decode_error_text(e: &base64::DecodeError) -> (r: String) {
    format!("{e}")
}

} // verus!
