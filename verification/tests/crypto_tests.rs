use base64::Engine;
use p2p_ledger::crypto::{gen_keypair, node_id, sign_nonce, verify_identity, IdentityError, Keypair};

const RFC_SEED: &str = "9d61b19deffd5a60ba844af492ec2cc44449c5697b326919703bac031cae7f60";
const RFC_PUBLIC: &str = "d75a980182b10ab7d54bfed3c964073a0ee172f3daa62325af021a68f707511a";
const RFC_EMPTY_SIG: &str = "e5564300c360ac729086e2cc806e828a84877f1eb8e5d974d873e065224901555fb8821590a33bacc61e39701cf9b46bd25bf5f0595bbe24655141438e7a100b";

fn b64(bytes: &[u8]) -> String {
    base64::engine::general_purpose::STANDARD.encode(bytes)
}

fn rfc_keys() -> Keypair {
    Keypair::from_seed(hex::decode(RFC_SEED).unwrap())
}

fn invalid_point() -> Vec<u8> {
    for first in 0u8..=255 {
        let mut bytes = [0u8; 32];
        bytes[0] = first;
        bytes[31] = 0x10;
        if ed25519_dalek::VerifyingKey::from_bytes(&bytes).is_err() {
            return bytes.to_vec();
        }
    }
    panic!("no undecodable point found");
}

#[test]
fn node_id_is_hex_sha256_of_key() {
    assert_eq!(
        node_id(b"abc"),
        "ba7816bf8f01cfea414140de5dae2223b00361a396177a9cb410ff61f20015ad"
    );
    let pk = hex::decode(RFC_PUBLIC).unwrap();
    assert_eq!(
        node_id(&pk),
        "21fe31dfa154a261626bf854046fd2271b7bed4b6abe45aa58877ef47f9721b9"
    );
}

#[test]
fn keypair_from_rfc8032_seed() {
    let keys = rfc_keys();
    assert_eq!(hex::encode(&keys.public_key), RFC_PUBLIC);
}

#[test]
fn sign_nonce_matches_rfc8032_vector() {
    let keys = rfc_keys();
    let sig = sign_nonce(&keys, b"");
    assert_eq!(sig, b64(&hex::decode(RFC_EMPTY_SIG).unwrap()));
    assert_eq!(sig.len(), 88);
}

#[test]
fn generated_keypairs_differ_and_sign() {
    let a = gen_keypair().unwrap();
    let b = gen_keypair().unwrap();
    assert_eq!(a.seed.len(), 32);
    assert_eq!(a.public_key.len(), 32);
    assert_ne!(a.seed, b.seed);
    let nonce = [7u8; 32];
    let id = node_id(&a.public_key);
    let sig = sign_nonce(&a, &nonce);
    assert_eq!(verify_identity(&nonce, &id, &b64(&a.public_key), &sig), Ok(()));
}

#[test]
fn identity_proof_accepted() {
    let keys = rfc_keys();
    let nonce = [1u8; 32];
    let id = node_id(&keys.public_key);
    let sig = sign_nonce(&keys, &nonce);
    assert_eq!(verify_identity(&nonce, &id, &b64(&keys.public_key), &sig), Ok(()));
}

#[test]
fn identity_errors_in_order() {
    let keys = rfc_keys();
    let nonce = [1u8; 32];
    let id = node_id(&keys.public_key);
    let pk = b64(&keys.public_key);
    let sig = sign_nonce(&keys, &nonce);
    let decoder_text = |t: &str| base64::engine::general_purpose::STANDARD.decode(t).unwrap_err().to_string();
    let e = verify_identity(&nonce, &id, "not base64!", &sig).unwrap_err();
    assert_eq!(e, IdentityError::PubkeyEncoding(decoder_text("not base64!")));
    assert_eq!(e.message(), decoder_text("not base64!"));
    assert_eq!(verify_identity(&nonce, &id, &b64(&[0u8; 31]), &sig), Err(IdentityError::PubkeyLength));
    assert_eq!(
        verify_identity(&nonce, &id, &b64(&invalid_point()), &sig),
        Err(IdentityError::PubkeyInvalid("signature error: Cannot decompress Edwards point".to_string()))
    );
    assert_eq!(verify_identity(&nonce, "deadbeef", &pk, &sig), Err(IdentityError::NodeIdMismatch));
    assert_eq!(IdentityError::NodeIdMismatch.message(), "node_id mismatch");
    assert_eq!(verify_identity(&nonce, &id, &pk, "@@@"), Err(IdentityError::SignatureEncoding(decoder_text("@@@"))));
    assert_eq!(verify_identity(&nonce, &id, &pk, &b64(&[0u8; 63])), Err(IdentityError::SignatureLength));
    let e = verify_identity(&[2u8; 32], &id, &pk, &sig).unwrap_err();
    assert_eq!(
        e,
        IdentityError::VerifyFailed("signature error: Verification equation was not satisfied".to_string())
    );
    assert_eq!(e.message(), "verify failed: signature error: Verification equation was not satisfied");
}
