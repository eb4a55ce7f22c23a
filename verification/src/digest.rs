//! Digests, message authentication codes and hexadecimal notation.

use hmac::Mac;
use sha2::Digest;
use vstd::prelude::*;

use crate::text::{digit_char, hex_chars, lemma_hex_chars_index};

verus! {

/// The SHA-256 digest of a byte string.
pub uninterp spec fn sha256_digest(data: Seq<u8>) -> Seq<u8>;

/// The HMAC-SHA-256 code of a message under a key.
pub uninterp spec fn hmac_sha256_code(key: Seq<u8>, message: Seq<u8>) -> Seq<u8>;

/// The SHA-256 digest of `data`.
///
/// Calls `sha2::Sha256::digest`, whose result is named by `sha256_digest`.
#[verifier::external_body]
pub(crate) fn sha256(data: &[u8]) -> (r: [u8; 32])
    ensures
        r@ == sha256_digest(data@),
{
    sha2::Sha256::digest(data).into()
}

/// The HMAC-SHA-256 code of `message` under `key`.
///
/// Calls `hmac::Hmac::<sha2::Sha256>::new_from_slice`, which takes keys of every length, and
/// then `update` and `finalize`. The result is named by `hmac_sha256_code`.
#[verifier::external_body]
pub(crate) fn hmac_sha256(key: &[u8], message: &[u8]) -> (r: [u8; 32])
    ensures
        r@ == hmac_sha256_code(key@, message@),
{
    let mut mac = <hmac::Hmac<sha2::Sha256> as Mac>::new_from_slice(key).expect(
        "HMAC accepts a key of any length",
    );
    mac.update(message);
    mac.finalize().into_bytes().into()
}

/// The lower-case hexadecimal notation of `data`.
///
/// Calls `hex::encode`, which writes two lower-case digits for each byte.
#[verifier::external_body]
pub(crate) fn hex_encode(data: &[u8]) -> (r: String)
    ensures
        r@ == hex_chars(data@),
{
    hex::encode(data)
}

/// The value of a hexadecimal digit, of either case.
pub open spec fn hex_value(c: char) -> Option<u8> {
    if '0' <= c <= '9' {
        Some((c as int - '0' as int) as u8)
    } else if 'a' <= c <= 'f' {
        Some((c as int - 'a' as int + 10) as u8)
    } else if 'A' <= c <= 'F' {
        Some((c as int - 'A' as int + 10) as u8)
    } else {
        None
    }
}

/// Whether a text is an even number of hexadecimal digits.
pub open spec fn is_hex(s: Seq<char>) -> bool {
    s.len() % 2 == 0 && forall|i: int| 0 <= i < s.len() ==> hex_value(#[trigger] s[i]) is Some
}

/// The bytes that a text of hexadecimal digits writes.
pub open spec fn hex_bytes(s: Seq<char>) -> Seq<u8> {
    Seq::new(
        s.len() / 2,
        |i: int| (hex_value(s[2 * i])->0 * 16 + hex_value(s[2 * i + 1])->0) as u8,
    )
}

/// What is said of a text that is not hexadecimal.
pub uninterp spec fn hex_error_text(text: Seq<char>) -> Seq<char>;

/// The bytes that `text` writes, or what is wrong with it.
///
/// Calls `hex::decode`, which takes an even number of digits of either case and nothing else.
/// The text of its error is named by `hex_error_text`.
#[verifier::external_body]
pub(crate) fn hex_decode(text: &str) -> (r: Result<Vec<u8>, String>)
    ensures
        r is Ok <==> is_hex(text@),
        r matches Ok(v) ==> v@ == hex_bytes(text@),
        r matches Err(e) ==> e@ == hex_error_text(text@),
{
    hex::decode(text).map_err(|e| e.to_string())
}

/// What is written in hexadecimal reads back.
pub proof fn law_hex_roundtrip(data: Seq<u8>)
    ensures
        is_hex(hex_chars(data)),
        hex_bytes(hex_chars(data)) == data,
{
    let s = hex_chars(data);
    lemma_hex_chars_index(data);
    assert forall|d: nat| d < 16 implies hex_value(#[trigger] digit_char(d)) == Some(d as u8) by {}
    assert forall|i: int| 0 <= i < s.len() implies hex_value(#[trigger] s[i]) is Some by {
        let k = i / 2;
        if i % 2 == 0 {
            assert(s[2 * k] == digit_char((data[k] / 16) as nat));
        } else {
            assert(s[2 * k + 1] == digit_char((data[k] % 16) as nat));
        }
    }
    assert forall|k: int| 0 <= k < data.len() implies hex_bytes(s)[k] == data[k] by {
        assert(s[2 * k] == digit_char((data[k] / 16) as nat));
        assert(s[2 * k + 1] == digit_char((data[k] % 16) as nat));
    }
    assert(hex_bytes(s) =~= data);
}

} // verus!
