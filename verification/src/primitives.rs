//! The outside primitives the library rests on: SHA-256, hex and base64
//! encodings, Ed25519, and the system's entropy and clock.

use vstd::prelude::*;
use sha2::Digest;
use base64::Engine;
use ed25519_dalek::Signer;
use rand::RngCore;

verus! {

// ------------------------------------------------------------------ SHA-256

/// The SHA-256 digest of a byte string.
pub uninterp spec fn sha256_digest(data: Seq<u8>) -> Seq<u8>;

/// Calls `sha2::Sha256::digest`. Claimed: the result is the SHA-256 digest of
/// the argument (named `sha256_digest`) and is 32 bytes long, as the
/// hasher's `OutputSize` of 32 bytes fixes it.
#[verifier::external_body]
pub(crate) fn sha256(data: &[u8]) -> (res: Vec<u8>)
    ensures
        res@ == sha256_digest(data@),
        res@.len() == 32,
{
    sha2::Sha256::digest(data).to_vec()
}

// ------------------------------------------------------------------ hex

/// The lower-case hex digit of a nibble.
pub open spec fn hex_digit(nibble: int) -> char {
    if nibble < 10 {
        (48 + nibble) as char
    } else {
        (87 + nibble) as char
    }
}

/// Lower-case hex: two digits per byte, high nibble first.
pub open spec fn hex_lower(data: Seq<u8>) -> Seq<char> {
    Seq::new(
        2 * data.len(),
        |i: int|
            if i % 2 == 0 {
                hex_digit(data[i / 2] as int / 16)
            } else {
                hex_digit(data[i / 2] as int % 16)
            },
    )
}

/// Calls `hex::encode`, documented to write each byte as two lower-case hex
/// digits; claimed: the result is `hex_lower` of the argument.
#[verifier::external_body]
pub(crate) fn hex_encode(data: &[u8]) -> (res: String)
    ensures
        res@ == hex_lower(data@),
{
    hex::encode(data)
}

// ------------------------------------------------------------------ base64

/// The standard (padded, RFC 4648) base64 encoding of a byte string.
pub uninterp spec fn base64_encoding(data: Seq<u8>) -> Seq<char>;

/// The standard base64 decoding of a text, `None` where the text is not a
/// canonical padded standard base64 string.
pub uninterp spec fn base64_decoding(text: Seq<char>) -> Option<Seq<u8>>;

/// The text (`Display`) of the `base64::DecodeError` with which standard
/// base64 decoding refuses a text.
pub uninterp spec fn base64_decode_error_text(text: Seq<char>) -> Seq<char>;

/// The length of the padded base64 text of `n` bytes: four characters for
/// every three bytes, the last group rounded up.
pub open spec fn base64_encoded_len(n: nat) -> nat {
    4 * ((n + 2) / 3)
}

/// Calls `base64::engine::general_purpose::STANDARD.encode`; claimed: the
/// result is `base64_encoding` of the argument, it is as long as the padded
/// encoding of that many bytes is (four characters per three bytes, rounded
/// up), and the standard decoder gives the bytes back from it.
#[verifier::external_body]
pub(crate) fn base64_encode(data: &[u8]) -> (res: String)
    ensures
        res@ == base64_encoding(data@),
        res@.len() == base64_encoded_len(data@.len()),
        base64_decoding(res@) == Some(data@),
{
    base64::engine::general_purpose::STANDARD.encode(data)
}

/// Calls `base64::engine::general_purpose::STANDARD.decode` on the text's
/// bytes and turns a refusal into the `DecodeError`'s text; claimed: it
/// succeeds exactly where `base64_decoding` of the text is some byte string,
/// and then gives that byte string; otherwise the text is
/// `base64_decode_error_text` of the input.
#[verifier::external_body]
pub(crate) fn base64_decode(text: &str) -> (res: Result<Vec<u8>, String>)
    ensures
        match res {
            Ok(bytes) => base64_decoding(text@) == Some(bytes@),
            Err(msg) => base64_decoding(text@) is None && msg@ == base64_decode_error_text(text@),
        },
{
    match base64::engine::general_purpose::STANDARD.decode(text.as_bytes()) {
        Ok(bytes) => Ok(bytes),
        Err(e) => Err(e.to_string()),
    }
}

// ------------------------------------------------------------------ Ed25519

/// Whether 32 bytes decompress to a curve point, so that
/// `VerifyingKey::from_bytes` accepts them.
pub uninterp spec fn ed25519_key_valid(public_key: Seq<u8>) -> bool;

/// Whether `VerifyingKey::verify_strict` accepts a 64-byte signature on a
/// message under a valid 32-byte public key.
pub uninterp spec fn ed25519_strict_accepts(
    public_key: Seq<u8>,
    message: Seq<u8>,
    signature: Seq<u8>,
) -> bool;

/// The 32-byte public key that a 32-byte secret seed determines.
pub uninterp spec fn ed25519_public_key(seed: Seq<u8>) -> Seq<u8>;

/// The (deterministic) Ed25519 signature of a message under a 32-byte seed.
pub uninterp spec fn ed25519_signature(seed: Seq<u8>, message: Seq<u8>) -> Seq<u8>;

/// The text (`Display`) of the `SignatureError` with which
/// `VerifyingKey::from_bytes` refuses 32 bytes.
pub uninterp spec fn ed25519_key_error_text(public_key: Seq<u8>) -> Seq<char>;

/// The text (`Display`) of the `SignatureError` with which
/// `VerifyingKey::verify_strict` refuses a signature on a message under a
/// valid key.
pub uninterp spec fn ed25519_verify_error_text(
    public_key: Seq<u8>,
    message: Seq<u8>,
    signature: Seq<u8>,
) -> Seq<char>;

/// Calls `ed25519_dalek::VerifyingKey::from_bytes` and turns a refusal into
/// the error's text; claimed: it succeeds exactly where
/// `ed25519_key_valid` holds of the bytes, and otherwise the text is
/// `ed25519_key_error_text` of them.
#[verifier::external_body]
pub(crate) fn ed25519_key_decodes(public_key: &[u8]) -> (res: Result<(), String>)
    requires
        public_key@.len() == 32,
    ensures
        match res {
            Ok(()) => ed25519_key_valid(public_key@),
            Err(msg) => !ed25519_key_valid(public_key@) && msg@ == ed25519_key_error_text(
                public_key@,
            ),
        },
{
    let bytes: [u8; 32] = public_key.try_into().unwrap();
    match ed25519_dalek::VerifyingKey::from_bytes(&bytes) {
        Ok(_) => Ok(()),
        Err(e) => Err(e.to_string()),
    }
}

/// Calls `ed25519_dalek::VerifyingKey::verify_strict` with the key and the
/// signature built from their bytes (`from_bytes`) and turns a refusal into
/// the error's text; claimed: it accepts exactly where the key decodes
/// (`ed25519_key_valid`) and `ed25519_strict_accepts` holds; a refusal
/// carries `ed25519_key_error_text` where the key does not decode and
/// `ed25519_verify_error_text` where it does.
#[verifier::external_body]
pub(crate) fn ed25519_verify_strict(public_key: &[u8], message: &[u8], signature: &[u8]) -> (res:
    Result<(), String>)
    requires
        public_key@.len() == 32,
        signature@.len() == 64,
    ensures
        match res {
            Ok(()) => ed25519_key_valid(public_key@) && ed25519_strict_accepts(
                public_key@,
                message@,
                signature@,
            ),
            Err(msg) => if ed25519_key_valid(public_key@) {
                !ed25519_strict_accepts(public_key@, message@, signature@) && msg@
                    == ed25519_verify_error_text(public_key@, message@, signature@)
            } else {
                msg@ == ed25519_key_error_text(public_key@)
            },
        },
{
    let key_bytes: [u8; 32] = public_key.try_into().unwrap();
    let sig_bytes: [u8; 64] = signature.try_into().unwrap();
    match ed25519_dalek::VerifyingKey::from_bytes(&key_bytes) {
        Ok(key) => match key.verify_strict(message, &ed25519_dalek::Signature::from_bytes(&sig_bytes)) {
            Ok(()) => Ok(()),
            Err(e) => Err(e.to_string()),
        },
        Err(e) => Err(e.to_string()),
    }
}

/// Calls `ed25519_dalek::VerifyingKey::from(&SigningKey::from_bytes(seed))`
/// and returns the key's bytes; claimed: they are `ed25519_public_key` of the
/// seed, 32 bytes long, and `from_bytes` accepts them (they are the
/// compression of the point the seed's scalar determines, which always
/// decompresses).
#[verifier::external_body]
pub(crate) fn ed25519_public_from_seed(seed: &[u8]) -> (res: Vec<u8>)
    requires
        seed@.len() == 32,
    ensures
        res@ == ed25519_public_key(seed@),
        res@.len() == 32,
        ed25519_key_valid(res@),
{
    let seed_bytes: [u8; 32] = seed.try_into().unwrap();
    let signing = ed25519_dalek::SigningKey::from_bytes(&seed_bytes);
    ed25519_dalek::VerifyingKey::from(&signing).to_bytes().to_vec()
}

/// Calls `Signer::sign` of `ed25519_dalek::SigningKey::from_bytes(seed)` and
/// returns the signature's bytes; claimed: they are `ed25519_signature` of the
/// seed and message, 64 bytes long.
#[verifier::external_body]
pub(crate) fn ed25519_sign(seed: &[u8], message: &[u8]) -> (res: Vec<u8>)
    requires
        seed@.len() == 32,
    ensures
        res@ == ed25519_signature(seed@, message@),
        res@.len() == 64,
{
    let seed_bytes: [u8; 32] = seed.try_into().unwrap();
    let signing = ed25519_dalek::SigningKey::from_bytes(&seed_bytes);
    signing.sign(message).to_bytes().to_vec()
}

// ------------------------------------------------------------------ entropy and time

/// Calls `rand::rngs::OsRng.try_fill_bytes` on a buffer of `len` bytes and
/// gives the buffer, or `None` where the operating system could not supply
/// entropy. Nothing is claimed of the bytes but their number.
#[verifier::external_body]
pub(crate) fn os_random_bytes(len: usize) -> (res: Option<Vec<u8>>)
    ensures
        res matches Some(v) ==> v@.len() == len,
{
    let mut buf = vec![0u8; len];
    match rand::rngs::OsRng.try_fill_bytes(&mut buf) {
        Ok(()) => Some(buf),
        Err(_) => None,
    }
}

/// Calls `std::time::SystemTime::now` and returns its whole seconds since
/// the Unix epoch, `None` where the clock reads earlier than the epoch.
/// Nothing is claimed of the value: it is the time.
#[verifier::external_body]
pub(crate) fn system_unix_secs() -> (res: Option<u64>) {
    match std::time::SystemTime::now().duration_since(std::time::UNIX_EPOCH) {
        Ok(elapsed) => Some(elapsed.as_secs()),
        Err(_) => None,
    }
}

} // verus!
