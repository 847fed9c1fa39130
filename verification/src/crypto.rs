//! Node identity: key pairs, node ids, and the challenge-response proof of a
//! peer's identity.

use vstd::prelude::*;
use crate::primitives::{
    base64_decode, base64_decode_error_text, base64_decoding, base64_encode, base64_encoding,
    ed25519_key_decodes, ed25519_key_error_text, ed25519_key_valid, ed25519_public_from_seed,
    ed25519_public_key, ed25519_sign, ed25519_signature, ed25519_strict_accepts,
    ed25519_verify_error_text, ed25519_verify_strict, hex_encode, hex_lower, os_random_bytes,
    sha256, sha256_digest,
};

verus! {

/// An Ed25519 key pair held as its 32-byte secret seed and 32-byte public key.
pub struct Keypair {
    pub seed: Vec<u8>,
    pub public_key: Vec<u8>,
}

impl Keypair {
    /// The seed is 32 bytes and the public key is the one it determines,
    /// 32 bytes that decode to a curve point.
    pub open spec fn wf(&self) -> bool {
        &&& self.seed@.len() == 32
        &&& self.public_key@ == ed25519_public_key(self.seed@)
        &&& self.public_key@.len() == 32
        &&& ed25519_key_valid(self.public_key@)
    }

    /// The key pair of a 32-byte seed.
    pub fn from_seed(seed: Vec<u8>) -> (keys: Keypair)
        requires
            seed@.len() == 32,
        ensures
            keys.wf(),
            keys.seed@ == seed@,
    {
        let public_key = ed25519_public_from_seed(seed.as_slice());
        Keypair { seed, public_key }
    }
}

/// A fresh key pair from 32 bytes of operating-system entropy; `None` where
/// the operating system supplies none.
pub fn gen_keypair() -> (keys: Option<Keypair>)
    ensures
        keys matches Some(k) ==> k.wf(),
{
    match os_random_bytes(32) {
        Some(seed) => Some(Keypair::from_seed(seed)),
        None => None,
    }
}

/// A node's id: the lower-case hex SHA-256 of its public key.
pub open spec fn node_id_of(public_key: Seq<u8>) -> Seq<char> {
    hex_lower(sha256_digest(public_key))
}

/// The node id of a public key; it is always 64 hex digits.
pub fn node_id(public_key: &[u8]) -> (id: String)
    ensures
        id@ == node_id_of(public_key@),
        id@.len() == 64,
{
    let digest = sha256(public_key);
    hex_encode(digest.as_slice())
}

/// `sig_b64` carries the node's signature of `nonce`: the base64 of the
/// 64-byte signature, which decodes back to it.
pub open spec fn carries_nonce_signature(
    keys: Keypair,
    nonce: Seq<u8>,
    sig_b64: Seq<char>,
) -> bool {
    let sig = ed25519_signature(keys.seed@, nonce);
    &&& sig_b64 == base64_encoding(sig)
    &&& base64_decoding(sig_b64) == Some(sig)
    &&& sig.len() == 64
}

/// `pubkey_b64` carries the node's public key: its base64, which decodes
/// back to it.
pub open spec fn carries_public_key(keys: Keypair, pubkey_b64: Seq<char>) -> bool {
    &&& pubkey_b64 == base64_encoding(keys.public_key@)
    &&& base64_decoding(pubkey_b64) == Some(keys.public_key@)
}

/// The base64 signature of a challenge nonce under the node's key: 88
/// characters, the padded base64 of 64 bytes.
pub fn sign_nonce(keys: &Keypair, nonce: &[u8]) -> (sig_b64: String)
    requires
        keys.wf(),
    ensures
        sig_b64@ == base64_encoding(ed25519_signature(keys.seed@, nonce@)),
        carries_nonce_signature(*keys, nonce@, sig_b64@),
        sig_b64@.len() == 88,
{
    let sig = ed25519_sign(keys.seed.as_slice(), nonce);
    base64_encode(sig.as_slice())
}

/// Why a peer's identity proof was refused. Where an outside decoder or the
/// signature library refused it, the refusal carries that library's own
/// error text.
#[derive(Debug, PartialEq, Eq)]
pub enum IdentityError {
    /// The public key is not base64: the decoder's error text.
    PubkeyEncoding(String),
    PubkeyLength,
    /// The public key is no curve point: the key parser's error text.
    PubkeyInvalid(String),
    NodeIdMismatch,
    /// The signature is not base64: the decoder's error text.
    SignatureEncoding(String),
    SignatureLength,
    /// The signature does not verify: the signature library's error text.
    VerifyFailed(String),
}

/// An identity refusal as the contracts see it, its texts as character
/// sequences.
pub enum IdentityFault {
    PubkeyEncoding(Seq<char>),
    PubkeyLength,
    PubkeyInvalid(Seq<char>),
    NodeIdMismatch,
    SignatureEncoding(Seq<char>),
    SignatureLength,
    VerifyFailed(Seq<char>),
}

impl View for IdentityError {
    type V = IdentityFault;

    open spec fn view(&self) -> IdentityFault {
        match self {
            IdentityError::PubkeyEncoding(t) => IdentityFault::PubkeyEncoding(t@),
            IdentityError::PubkeyLength => IdentityFault::PubkeyLength,
            IdentityError::PubkeyInvalid(t) => IdentityFault::PubkeyInvalid(t@),
            IdentityError::NodeIdMismatch => IdentityFault::NodeIdMismatch,
            IdentityError::SignatureEncoding(t) => IdentityFault::SignatureEncoding(t@),
            IdentityError::SignatureLength => IdentityFault::SignatureLength,
            IdentityError::VerifyFailed(t) => IdentityFault::VerifyFailed(t@),
        }
    }
}

/// A result with its identity refusal taken by its view.
pub open spec fn identity_view<T>(r: Result<T, IdentityError>) -> Result<T, IdentityFault> {
    match r {
        Ok(v) => Ok(v),
        Err(e) => Err(e@),
    }
}

/// The text an identity refusal is reported with: the outside library's own
/// text for a key or signature it could not decode, `verify failed: ` and
/// the signature library's text for a signature that does not verify.
pub open spec fn identity_error_text(e: IdentityFault) -> Seq<char> {
    match e {
        IdentityFault::PubkeyEncoding(t) => t,
        IdentityFault::PubkeyLength => "bad pubkey len"@,
        IdentityFault::PubkeyInvalid(t) => t,
        IdentityFault::NodeIdMismatch => "node_id mismatch"@,
        IdentityFault::SignatureEncoding(t) => t,
        IdentityFault::SignatureLength => "bad sig len"@,
        IdentityFault::VerifyFailed(t) => "verify failed: "@ + t,
    }
}

impl IdentityError {
    /// The text this refusal is reported with.
    pub fn message(&self) -> (text: String)
        ensures
            text@ == identity_error_text(self@),
    {
        match self {
            IdentityError::PubkeyEncoding(t) => t.clone(),
            IdentityError::PubkeyLength => "bad pubkey len".to_owned(),
            IdentityError::PubkeyInvalid(t) => t.clone(),
            IdentityError::NodeIdMismatch => "node_id mismatch".to_owned(),
            IdentityError::SignatureEncoding(t) => t.clone(),
            IdentityError::SignatureLength => "bad sig len".to_owned(),
            IdentityError::VerifyFailed(t) => {
                let prefix = "verify failed: ".to_owned();
                prefix.concat(t.as_str())
            },
        }
    }
}

/// The outcome of checking an identity proof: the public key must be base64
/// of 32 bytes that decode to a curve point, the claimed node id must be the
/// key's node id, and the signature must be base64 of 64 bytes that strictly
/// verify on the nonce; the first failing check gives the error.
pub open spec fn identity_check(
    nonce: Seq<u8>,
    node_id_hex: Seq<char>,
    pubkey_b64: Seq<char>,
    sig_b64: Seq<char>,
) -> Result<(), IdentityFault> {
    match base64_decoding(pubkey_b64) {
        None => Err(IdentityFault::PubkeyEncoding(base64_decode_error_text(pubkey_b64))),
        Some(pk) => if pk.len() != 32 {
            Err(IdentityFault::PubkeyLength)
        } else if !ed25519_key_valid(pk) {
            Err(IdentityFault::PubkeyInvalid(ed25519_key_error_text(pk)))
        } else if node_id_of(pk) != node_id_hex {
            Err(IdentityFault::NodeIdMismatch)
        } else {
            match base64_decoding(sig_b64) {
                None => Err(IdentityFault::SignatureEncoding(base64_decode_error_text(sig_b64))),
                Some(sig) => if sig.len() != 64 {
                    Err(IdentityFault::SignatureLength)
                } else if !ed25519_strict_accepts(pk, nonce, sig) {
                    Err(IdentityFault::VerifyFailed(ed25519_verify_error_text(pk, nonce, sig)))
                } else {
                    Ok(())
                },
            }
        },
    }
}

/// Checks a peer's proof of identity for a challenge nonce.
pub fn verify_identity(nonce: &[u8], node_id_hex: &str, pubkey_b64: &str, sig_b64: &str) -> (res:
    Result<(), IdentityError>)
    ensures
        identity_view(res) == identity_check(nonce@, node_id_hex@, pubkey_b64@, sig_b64@),
{
    let pk = match base64_decode(pubkey_b64) {
        Ok(bytes) => bytes,
        Err(msg) => {
            return Err(IdentityError::PubkeyEncoding(msg));
        },
    };
    if pk.len() != 32 {
        return Err(IdentityError::PubkeyLength);
    }
    match ed25519_key_decodes(pk.as_slice()) {
        Ok(()) => {},
        Err(msg) => {
            return Err(IdentityError::PubkeyInvalid(msg));
        },
    }
    let expect = node_id(pk.as_slice());
    let claimed = node_id_hex.to_owned();
    if expect != claimed {
        return Err(IdentityError::NodeIdMismatch);
    }
    let sig = match base64_decode(sig_b64) {
        Ok(bytes) => bytes,
        Err(msg) => {
            return Err(IdentityError::SignatureEncoding(msg));
        },
    };
    if sig.len() != 64 {
        return Err(IdentityError::SignatureLength);
    }
    match ed25519_verify_strict(pk.as_slice(), nonce, sig.as_slice()) {
        Ok(()) => {},
        Err(text) => {
            return Err(IdentityError::VerifyFailed(text));
        },
    }
    Ok(())
}

/// A node's own proof of identity is accepted: with its key and its nonce
/// signature carried as `identity_message` carries them, the check finds
/// its own node id, the key and the signature, wherever Ed25519 strictly
/// accepts the signature; claimed with any other node id (an upper-case
/// spelling of it too) it is refused as a node id mismatch.
pub proof fn lemma_own_identity_accepted(
    keys: Keypair,
    nonce: Seq<u8>,
    pubkey_b64: Seq<char>,
    sig_b64: Seq<char>,
)
    requires
        keys.wf(),
        carries_public_key(keys, pubkey_b64),
        carries_nonce_signature(keys, nonce, sig_b64),
        ed25519_strict_accepts(keys.public_key@, nonce, ed25519_signature(keys.seed@, nonce)),
    ensures
        identity_check(nonce, node_id_of(keys.public_key@), pubkey_b64, sig_b64) is Ok,
        forall|claimed: Seq<char>|
            claimed != node_id_of(keys.public_key@) ==> #[trigger] identity_check(
                nonce,
                claimed,
                pubkey_b64,
                sig_b64,
            ) == Err::<(), IdentityFault>(IdentityFault::NodeIdMismatch),
{
}

/// An accepted identity proof binds the claimed node id to a valid public key
/// whose strict signature on the nonce was shown.
pub proof fn lemma_accepted_identity_is_bound(
    nonce: Seq<u8>,
    node_id_hex: Seq<char>,
    pubkey_b64: Seq<char>,
    sig_b64: Seq<char>,
)
    requires
        identity_check(nonce, node_id_hex, pubkey_b64, sig_b64) is Ok,
    ensures
        exists|pk: Seq<u8>, sig: Seq<u8>|
            {
                &&& base64_decoding(pubkey_b64) == Some(pk)
                &&& base64_decoding(sig_b64) == Some(sig)
                &&& pk.len() == 32
                &&& sig.len() == 64
                &&& ed25519_key_valid(pk)
                &&& node_id_hex == node_id_of(pk)
                &&& ed25519_strict_accepts(pk, nonce, sig)
            },
{
    let pk = base64_decoding(pubkey_b64).unwrap();
    let sig = base64_decoding(sig_b64).unwrap();
    assert(base64_decoding(pubkey_b64) == Some(pk));
}

} // verus!
