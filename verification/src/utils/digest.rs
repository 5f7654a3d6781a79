use hmac::{Mac, NewMac};
use sha2::Digest;
use vstd::prelude::*;

verus! {

/// The HMAC-SHA256 of a message under a key.
pub uninterp spec fn hmac_sha256(key: Seq<u8>, message: Seq<u8>) -> Seq<u8>;

/// The SHA-256 digest of a message.
pub uninterp spec fn sha256(message: Seq<u8>) -> Seq<u8>;

/// Bytes in lower-case hexadecimal digits, two for each byte.
pub uninterp spec fn hex(bytes: Seq<u8>) -> Seq<char>;

/// Bytes in the standard base64 alphabet, padded.
pub uninterp spec fn base64(bytes: Seq<u8>) -> Seq<char>;

/// The bytes that a text in the standard base64 alphabet stands for, if it
/// stands for any.
pub uninterp spec fn base64_bytes(text: Seq<u8>) -> Option<Seq<u8>>;

/// `hmac::Hmac<sha2::Sha256>`: `new_varkey`, which takes a key of any
/// length, then `update` with the message, `finalize` and `into_bytes`.
#[verifier::external_body]
pub(crate) fn mac(key: &[u8], message: &[u8]) -> (code: Vec<u8>)
    ensures
        code@ == hmac_sha256(key@, message@),
{
    let mut mac = hmac::Hmac::<sha2::Sha256>::new_varkey(key).expect("any key length is taken");
    mac.update(message);
    mac.finalize().into_bytes().to_vec()
}

/// `sha2::Sha256::digest`.
#[verifier::external_body]
pub(crate) fn digest(message: &[u8]) -> (hash: Vec<u8>)
    ensures
        hash@ == sha256(message@),
{
    sha2::Sha256::digest(message).to_vec()
}

/// `hex::encode`: two lower-case digits for each byte.
#[verifier::external_body]
pub(crate) fn hex_text(bytes: &[u8]) -> (text: String)
    ensures
        text@ == hex(bytes@),
        text@.len() == 2 * bytes@.len(),
{
    hex::encode(bytes)
}

/// `base64::encode`.
#[verifier::external_body]
pub(crate) fn base64_text(bytes: &[u8]) -> (text: String)
    ensures
        text@ == base64(bytes@),
{
    base64::encode(bytes)
}

/// `base64::decode`: the bytes, or nothing where the text is not base64.
#[verifier::external_body]
pub(crate) fn base64_decode(text: &[u8]) -> (bytes: Option<Vec<u8>>)
    ensures
        match bytes {
            Some(bytes) => base64_bytes(text@) == Some(bytes@),
            None => base64_bytes(text@).is_none(),
        },
{
    base64::decode(text).ok()
}

} // verus!
