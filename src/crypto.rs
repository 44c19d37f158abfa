use vstd::prelude::*;

use base64::Engine;
use hmac::Mac;
use rand::Rng;
use sha2::Digest;
use vstd::utf8::{encode_utf8, valid_utf8};

verus! {

/// The SHA-256 digest of `data`.
pub uninterp spec fn sha256_of(data: Seq<u8>) -> Seq<u8>;

/// The HMAC-SHA-256 tag of `msg` under `key`.
pub uninterp spec fn hmac_sha256_of(key: Seq<u8>, msg: Seq<u8>) -> Seq<u8>;

/// The Unicode lowercase form of `s`.
pub uninterp spec fn lower_of(s: Seq<char>) -> Seq<char>;

/// The padded base64 text of `b` in the standard alphabet.
pub uninterp spec fn b64_of(b: Seq<u8>) -> Seq<char>;

/// The padded base64 text of `b` in the URL-safe alphabet.
pub uninterp spec fn b64url_of(b: Seq<u8>) -> Seq<char>;

/// Relies on sha2's `Sha256::digest`: a 32-byte digest of the input.
#[verifier::external_body]
pub(crate) fn sha256(data: &[u8]) -> (r: Vec<u8>)
    ensures
        r@ == sha256_of(data@),
        r@.len() == 32,
{
    sha2::Sha256::digest(data).to_vec()
}

/// Relies on hmac's `Hmac<Sha256>`: keys of any length are accepted, and the tag
/// is 32 bytes long.
#[verifier::external_body]
pub(crate) fn hmac_sha256(key: &[u8], msg: &[u8]) -> (r: Vec<u8>)
    ensures
        r@ == hmac_sha256_of(key@, msg@),
        r@.len() == 32,
{
    let mut mac = <hmac::Hmac<sha2::Sha256> as Mac>::new_from_slice(key)
        .expect("HMAC accepts keys of any length");
    mac.update(msg);
    mac.finalize().into_bytes().to_vec()
}

/// Relies on `str::to_lowercase` for the characters given.
#[verifier::external_body]
pub(crate) fn lowercase(s: &[char]) -> (r: String)
    ensures
        r@ == lower_of(s@),
{
    let text: String = s.iter().collect();
    text.to_lowercase()
}

/// Relies on base64's `STANDARD` engine to encode.
#[verifier::external_body]
pub(crate) fn b64_encode(b: &[u8]) -> (r: String)
    ensures
        r@ == b64_of(b@),
{
    base64::engine::general_purpose::STANDARD.encode(b)
}

/// Relies on base64's `URL_SAFE` engine to encode: its output is drawn from
/// `A-Z`, `a-z`, `0-9`, `-`, `_` and the padding `=`, and distinct inputs give
/// distinct texts, since the engine decodes each text back to its input.
#[verifier::external_body]
pub(crate) fn b64url_encode(b: &[u8]) -> (r: String)
    ensures
        r@ == b64url_of(b@),
        forall|i: int| 0 <= i < r@.len() ==> r@[i] != '.',
        forall|c: Seq<u8>| #[trigger] b64url_of(c) == r@ ==> c == b@,
{
    base64::engine::general_purpose::URL_SAFE.encode(b)
}

/// Relies on base64's `URL_SAFE` engine to decode. Its configuration requires
/// canonical padding and rejects trailing bits, so it accepts exactly the texts
/// that its encoder produces and gives back the encoded bytes.
#[verifier::external_body]
pub(crate) fn b64url_decode(text: &[char]) -> (r: Option<Vec<u8>>)
    ensures
        r matches Some(b) ==> b64url_of(b@) == text@,
        forall|b: Seq<u8>| #[trigger] b64url_of(b) == text@ ==> r is Some && r->0@ == b,
{
    let s: String = text.iter().collect();
    base64::engine::general_purpose::URL_SAFE.decode(s).ok()
}

/// Relies on `String::from_utf8`: it succeeds exactly on valid UTF-8 and keeps
/// the bytes.
#[verifier::external_body]
pub(crate) fn utf8_string(b: Vec<u8>) -> (r: Option<String>)
    ensures
        r is Some == valid_utf8(b@),
        r matches Some(s) ==> encode_utf8(s@) == b@,
{
    String::from_utf8(b).ok()
}

/// An ASCII letter or digit.
pub open spec fn is_alnum(c: char) -> bool {
    ('a' <= c && c <= 'z') || ('A' <= c && c <= 'Z') || ('0' <= c && c <= '9')
}

/// Relies on rand's `Alphanumeric` distribution, which draws from `A-Z`, `a-z`
/// and `0-9`, one character per sample.
#[verifier::external_body]
pub(crate) fn random_alphanumeric(len: usize) -> (r: String)
    ensures
        r@.len() == len,
        forall|i: int| 0 <= i < len ==> is_alnum(#[trigger] r@[i]),
{
    rand::thread_rng().sample_iter(&rand::distributions::Alphanumeric).take(len).map(char::from).collect()
}

} // verus!
