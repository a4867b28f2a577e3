//! Sealing of secret values against a repository's public key.

use vstd::prelude::*;
use crate::error::Error;
use vstd::string::StringSliceAdditionalSpecFns;

verus! {

/// The bytes that a text decodes to in standard base64 with padding, or
/// `None` when it is not such an encoding.
pub uninterp spec fn base64_decoded(s: Seq<char>) -> Option<Seq<u8>>;

/// The standard base64 encoding, with padding, of bytes.
pub uninterp spec fn base64_encoded(b: Seq<u8>) -> Seq<char>;

/// Relies on base64's `Engine::decode` with the `STANDARD` engine: the same
/// text always decodes to the same bytes, or always fails.
#[verifier::external_body]
fn decode_base64(s: &str) -> (r: Result<Vec<u8>, base64::DecodeError>)
    ensures
        match r {
            Ok(v) => base64_decoded(s@) == Some(v@),
            Err(_) => base64_decoded(s@) is None,
        },
{
    base64::Engine::decode(&base64::engine::general_purpose::STANDARD, s)
}

/// Relies on base64's `Engine::encode` with the `STANDARD` engine.
#[verifier::external_body]
fn encode_base64(b: &[u8]) -> (r: String)
    ensures
        r@ == base64_encoded(b@),
{
    base64::Engine::encode(&base64::engine::general_purpose::STANDARD, b)
}

/// The sealed box of `plaintext` for the recipient with public key
/// `recipient`, made with the ephemeral secret key `ephemeral_secret`: the
/// ephemeral public key, then the authenticated ciphertext.
pub uninterp spec fn sealed_box(
    recipient: Seq<u8>,
    plaintext: Seq<u8>,
    ephemeral_secret: Seq<u8>,
) -> Seq<u8>;

/// Size in bytes of a public key of a sealed box.
pub const KEY_SIZE: usize = 32;

/// Bytes that sealing adds to a plaintext: the 32-byte ephemeral public key
/// and the 16-byte authentication tag.
pub const SEAL_OVERHEAD: usize = 48;

/// Relies on crypto_box's `PublicKey::from_slice` (which accepts the 32
/// bytes of a key) and `PublicKey::seal` with the operating system's random
/// generator: the result is the ephemeral public key followed by the
/// ciphertext and its 16-byte tag, for an ephemeral secret key drawn anew on
/// every call.
#[verifier::external_body]
fn seal(recipient: &[u8], plaintext: &[u8]) -> (r: Option<Vec<u8>>)
    requires
        recipient@.len() == KEY_SIZE,
    ensures
        r matches Some(v) ==> v@.len() == plaintext@.len() + SEAL_OVERHEAD && exists|
            eph: Seq<u8>,
        | v@ == sealed_box(recipient@, plaintext@, eph),
{
    let key = crypto_box::PublicKey::from_slice(recipient).ok()?;
    key.seal(&mut crypto_box::aead::OsRng, plaintext).ok()
}

/// Whether `t` is the standard base64 of a sealed box of `plaintext` for the
/// recipient key `recipient`.
pub open spec fn is_sealed_text(t: Seq<char>, recipient: Seq<u8>, plaintext: Seq<u8>) -> bool {
    exists|sealed: Seq<u8>, eph: Seq<u8>|
        t == base64_encoded(sealed) && sealed.len() == plaintext.len() + SEAL_OVERHEAD && sealed
            == sealed_box(recipient, plaintext, eph)
}

/// Seals the UTF-8 bytes of `secret` against the raw bytes of a repository
/// key and returns the sealed box in standard base64; a key that is not 32
/// bytes long is refused.
pub fn seal_with_key_bytes(secret: &str, key_bytes: &[u8]) -> (r: Result<String, Error>)
    ensures
        key_bytes@.len() != KEY_SIZE ==> r matches Err(Error::InvalidKey),
        key_bytes@.len() == KEY_SIZE ==> match r {
            Ok(t) => is_sealed_text(t@, key_bytes@, secret.spec_bytes()),
            Err(e) => e is Encrypt,
        },
{
    if key_bytes.len() != KEY_SIZE {
        return Err(Error::InvalidKey);
    }
    let plaintext = secret.as_bytes();
    match seal(key_bytes, plaintext) {
        Some(sealed) => {
            let t = encode_base64(sealed.as_slice());
            proof {
                let eph = choose|eph: Seq<u8>| sealed@ == sealed_box(key_bytes@, plaintext@, eph);
                assert(t@ == base64_encoded(sealed@) && sealed@.len() == plaintext@.len()
                    + SEAL_OVERHEAD && sealed@ == sealed_box(key_bytes@, plaintext@, eph));
            }
            Ok(t)
        },
        None => Err(Error::Encrypt),
    }
}

/// Seals the UTF-8 bytes of `secret` against the repository key
/// `public_key` (standard base64) and returns the sealed box in standard
/// base64.
pub fn encrypt_secret(secret: &str, public_key: &str) -> (r: Result<String, Error>)
    ensures
        match base64_decoded(public_key@) {
            None => r matches Err(Error::Decode(_)),
            Some(k) => if k.len() != KEY_SIZE {
                r matches Err(Error::InvalidKey)
            } else {
                match r {
                    Ok(t) => is_sealed_text(t@, k, secret.spec_bytes()),
                    Err(e) => e is Encrypt,
                }
            },
        },
{
    match decode_base64(public_key) {
        Ok(key_bytes) => seal_with_key_bytes(secret, key_bytes.as_slice()),
        Err(e) => Err(Error::Decode(e)),
    }
}

} // verus!
