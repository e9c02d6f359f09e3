//! Signatures of webhook payloads: HMAC-SHA256 of the payload under the
//! subscription's secret, in standard Base64.

use base64::Engine;
use hmac::Mac;
use vstd::prelude::*;
use vstd::utf8::encode_utf8;

verus! {

/// The HMAC-SHA256 tag of `message` under `key`.
pub uninterp spec fn hmac_sha256_tag(key: Seq<u8>, message: Seq<u8>) -> Seq<u8>;

/// The standard Base64 text (with padding) of `bytes`.
pub uninterp spec fn base64_standard(bytes: Seq<u8>) -> Seq<char>;

/// Computes HMAC-SHA256 with the `hmac` and `sha2` crates
/// (`Hmac::<Sha256>::new_from_slice`, `update`, `finalize`). The contract
/// says that the tag depends on the key and message alone and has the
/// 32 bytes of a SHA-256 output; `new_from_slice` accepts keys of any length.
#[verifier::external_body]
fn hmac_sha256(key: &[u8], message: &[u8]) -> (res: Vec<u8>)
    ensures
        res@ == hmac_sha256_tag(key@, message@),
        res@.len() == 32,
{
    let mut mac = hmac::Hmac::<sha2::Sha256>::new_from_slice(key).expect("HMAC can take key of any size");
    mac.update(message);
    mac.finalize().into_bytes().to_vec()
}

/// Encodes bytes in standard Base64 with `base64::engine::general_purpose::STANDARD.encode`.
/// The contract says that the text depends on the bytes alone; the length
/// bound excludes inputs whose encoded length overflows, on which the crate panics.
#[verifier::external_body]
fn base64_encode(bytes: &[u8]) -> (res: String)
    requires
        (bytes@.len() / 3) * 4 + 4 <= usize::MAX,
    ensures
        res@ == base64_standard(bytes@),
{
    base64::engine::general_purpose::STANDARD.encode(bytes)
}

/// The signature of a payload text under a secret.
pub open spec fn signature_spec(payload: Seq<char>, secret: Seq<char>) -> Seq<char> {
    base64_standard(hmac_sha256_tag(encode_utf8(secret), encode_utf8(payload)))
}

/// Signs a payload: the standard Base64 text of its HMAC-SHA256 tag under
/// the secret, both taken as UTF-8.
pub fn sign_payload(payload: &str, secret: &str) -> (res: String)
    ensures
        res@ == signature_spec(payload@, secret@),
{
    let tag = hmac_sha256(secret.as_bytes(), payload.as_bytes());
    base64_encode(tag.as_slice())
}

/// A payload is signed with its subscription's secret as the HMAC key and
/// the payload text as the message, both as UTF-8, and the tag is written
/// in standard Base64.
pub proof fn law_signature(payload: Seq<char>, secret: Seq<char>)
    ensures
        signature_spec(payload, secret) == base64_standard(hmac_sha256_tag(encode_utf8(secret), encode_utf8(payload))),
{
}

} // verus!
