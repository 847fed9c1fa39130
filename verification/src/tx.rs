//! Signed account-style transactions: their canonical signing bytes, ids,
//! signing and verification.

use vstd::prelude::*;
use crate::bytes::{append_bytes, be_bytes, push_be, u64_from_be};
use crate::clock::now_secs;
use crate::crypto::Keypair;
use crate::primitives::{
    base64_decode, base64_decode_error_text, base64_decoding, base64_encode, base64_encoding,
    ed25519_key_decodes, ed25519_key_error_text, ed25519_key_valid, ed25519_sign,
    ed25519_signature, ed25519_strict_accepts, ed25519_verify_error_text, ed25519_verify_strict,
    hex_encode, hex_lower, os_random_bytes, sha256, sha256_digest,
};

verus! {

/// A transaction with its sender's public key and Ed25519 signature, both in
/// base64. The signature covers the canonical bytes, which leave out
/// `version`, `sig_alg` and `sig_b64`.
#[derive(Debug)]
pub struct SignedTx {
    pub version: u16,
    pub chain_id: u32,
    pub from_pubkey_b64: String,
    pub nonce: u64,
    pub to: Option<String>,
    pub value: u128,
    pub max_fee: u64,
    pub data_b64: String,
    pub timestamp: u64,
    pub expiry: u64,
    pub sig_alg: String,
    pub sig_b64: String,
}

impl Clone for SignedTx {
    fn clone(&self) -> (res: Self)
        ensures
            res == *self,
    {
        SignedTx {
            version: self.version,
            chain_id: self.chain_id,
            from_pubkey_b64: self.from_pubkey_b64.clone(),
            nonce: self.nonce,
            to: match &self.to {
                Some(t) => Some(t.clone()),
                None => None,
            },
            value: self.value,
            max_fee: self.max_fee,
            data_b64: self.data_b64.clone(),
            timestamp: self.timestamp,
            expiry: self.expiry,
            sig_alg: self.sig_alg.clone(),
            sig_b64: self.sig_b64.clone(),
        }
    }
}

/// The domain tag that starts the canonical bytes: ASCII `TX|v1|`.
pub open spec fn tx_domain_tag() -> Seq<u8> {
    seq![84u8, 88u8, 124u8, 118u8, 49u8, 124u8]
}

/// The bytes that a base64 field decodes to, or none where it does not decode.
pub open spec fn decoded_or_empty(text: Seq<char>) -> Seq<u8> {
    match base64_decoding(text) {
        Some(bytes) => bytes,
        None => Seq::empty(),
    }
}

/// The canonical signing bytes of a transaction: the domain tag, the chain id
/// (4 bytes big-endian), the sender's decoded public key, the nonce (8), the
/// UTF-8 recipient if any, the value (16), the fee (8), the decoded data, the
/// timestamp (8) and the expiry (8).
pub open spec fn canonical_bytes_of(tx: SignedTx) -> Seq<u8> {
    tx_domain_tag() + be_bytes(tx.chain_id as nat, 4) + decoded_or_empty(tx.from_pubkey_b64@)
        + be_bytes(tx.nonce as nat, 8) + match tx.to {
        Some(t) => vstd::utf8::encode_utf8(t@),
        None => Seq::empty(),
    } + be_bytes(tx.value as nat, 16) + be_bytes(tx.max_fee as nat, 8) + decoded_or_empty(
        tx.data_b64@,
    ) + be_bytes(tx.timestamp as nat, 8) + be_bytes(tx.expiry as nat, 8)
}

/// A transaction's id: lower-case hex SHA-256 of its canonical bytes.
pub open spec fn tx_id_of(tx: SignedTx) -> Seq<char> {
    hex_lower(sha256_digest(canonical_bytes_of(tx)))
}

/// The canonical signing bytes of a transaction.
pub fn canonical_bytes(tx: &SignedTx) -> (out: Vec<u8>)
    ensures
        out@ == canonical_bytes_of(*tx),
{
    let mut out: Vec<u8> = Vec::with_capacity(256);
    out.push(84u8);
    out.push(88u8);
    out.push(124u8);
    out.push(118u8);
    out.push(49u8);
    out.push(124u8);
    assert(out@ =~= tx_domain_tag());
    push_be(&mut out, tx.chain_id as u128, 4);
    match base64_decode(tx.from_pubkey_b64.as_str()) {
        Ok(pk) => append_bytes(&mut out, pk.as_slice()),
        Err(_) => {},
    }
    push_be(&mut out, tx.nonce as u128, 8);
    match &tx.to {
        Some(to) => append_bytes(&mut out, to.as_str().as_bytes()),
        None => {},
    }
    push_be(&mut out, tx.value, 16);
    push_be(&mut out, tx.max_fee as u128, 8);
    match base64_decode(tx.data_b64.as_str()) {
        Ok(data) => append_bytes(&mut out, data.as_slice()),
        Err(_) => {},
    }
    push_be(&mut out, tx.timestamp as u128, 8);
    push_be(&mut out, tx.expiry as u128, 8);
    assert(out@ =~= canonical_bytes_of(*tx));
    out
}

/// The id of a transaction; it is always 64 hex digits.
pub fn tx_id(tx: &SignedTx) -> (id: String)
    ensures
        id@ == tx_id_of(*tx),
        id@.len() == 64,
{
    let bytes = canonical_bytes(tx);
    let digest = sha256(bytes.as_slice());
    hex_encode(digest.as_slice())
}

/// Why a transaction was refused. Where an outside decoder or the
/// signature library refused it, the refusal carries that library's own
/// error text.
#[derive(Debug, PartialEq, Eq)]
pub enum TxError {
    UnsupportedSigAlg,
    Expired,
    /// The sender key is not base64: the decoder's error text.
    PubkeyEncoding(String),
    PubkeyLength,
    /// The sender key is no curve point: the key parser's error text.
    PubkeyInvalid(String),
    /// The signature is not base64: the decoder's error text.
    SignatureEncoding(String),
    SignatureLength,
    /// The signature does not verify: the signature library's error text.
    VerifyFailed(String),
    FeeTooLow,
    NonceTooLow,
}

/// A refusal as the contracts see it, its texts as character sequences.
pub enum TxFault {
    UnsupportedSigAlg,
    Expired,
    PubkeyEncoding(Seq<char>),
    PubkeyLength,
    PubkeyInvalid(Seq<char>),
    SignatureEncoding(Seq<char>),
    SignatureLength,
    VerifyFailed(Seq<char>),
    FeeTooLow,
    NonceTooLow,
}

impl View for TxError {
    type V = TxFault;

    open spec fn view(&self) -> TxFault {
        match self {
            TxError::UnsupportedSigAlg => TxFault::UnsupportedSigAlg,
            TxError::Expired => TxFault::Expired,
            TxError::PubkeyEncoding(t) => TxFault::PubkeyEncoding(t@),
            TxError::PubkeyLength => TxFault::PubkeyLength,
            TxError::PubkeyInvalid(t) => TxFault::PubkeyInvalid(t@),
            TxError::SignatureEncoding(t) => TxFault::SignatureEncoding(t@),
            TxError::SignatureLength => TxFault::SignatureLength,
            TxError::VerifyFailed(t) => TxFault::VerifyFailed(t@),
            TxError::FeeTooLow => TxFault::FeeTooLow,
            TxError::NonceTooLow => TxFault::NonceTooLow,
        }
    }
}

/// A result with its refusal taken by its view.
pub open spec fn fault_view<T>(r: Result<T, TxError>) -> Result<T, TxFault> {
    match r {
        Ok(v) => Ok(v),
        Err(e) => Err(e@),
    }
}

/// The text a refusal is reported with: the outside library's own text for
/// a key or signature it could not decode, `verify failed: ` and the
/// signature library's text for a signature that does not verify.
pub open spec fn tx_error_text(e: TxFault) -> Seq<char> {
    match e {
        TxFault::UnsupportedSigAlg => "unsupported sig_alg"@,
        TxFault::Expired => "expired"@,
        TxFault::PubkeyEncoding(t) => t,
        TxFault::PubkeyLength => "bad pubkey len"@,
        TxFault::PubkeyInvalid(t) => t,
        TxFault::SignatureEncoding(t) => t,
        TxFault::SignatureLength => "bad sig len"@,
        TxFault::VerifyFailed(t) => "verify failed: "@ + t,
        TxFault::FeeTooLow => "fee too low"@,
        TxFault::NonceTooLow => "nonce too low"@,
    }
}

impl TxError {
    /// The text this refusal is reported with.
    pub fn message(&self) -> (text: String)
        ensures
            text@ == tx_error_text(self@),
    {
        match self {
            TxError::UnsupportedSigAlg => "unsupported sig_alg".to_owned(),
            TxError::Expired => "expired".to_owned(),
            TxError::PubkeyEncoding(t) => t.clone(),
            TxError::PubkeyLength => "bad pubkey len".to_owned(),
            TxError::PubkeyInvalid(t) => t.clone(),
            TxError::SignatureEncoding(t) => t.clone(),
            TxError::SignatureLength => "bad sig len".to_owned(),
            TxError::VerifyFailed(t) => {
                let prefix = "verify failed: ".to_owned();
                prefix.concat(t.as_str())
            },
            TxError::FeeTooLow => "fee too low".to_owned(),
            TxError::NonceTooLow => "nonce too low".to_owned(),
        }
    }
}

/// The signature algorithm this chain accepts.
pub open spec fn ed25519_label() -> Seq<char> {
    seq!['e', 'd', '2', '5', '5', '1', '9']
}

/// The outcome of verifying a transaction at time `now`: the algorithm must
/// be `ed25519`, the expiry not before `now`, the sender key base64 of 32
/// bytes that decode to a curve point, and the signature base64 of 64 bytes
/// that strictly verify on the canonical bytes; the first failing check gives
/// the error.
pub open spec fn tx_check(tx: SignedTx, now: u64) -> Result<(), TxFault> {
    if tx.sig_alg@ != ed25519_label() {
        Err(TxFault::UnsupportedSigAlg)
    } else if tx.expiry < now {
        Err(TxFault::Expired)
    } else {
        match base64_decoding(tx.from_pubkey_b64@) {
            None => Err(TxFault::PubkeyEncoding(base64_decode_error_text(tx.from_pubkey_b64@))),
            Some(pk) => if pk.len() != 32 {
                Err(TxFault::PubkeyLength)
            } else if !ed25519_key_valid(pk) {
                Err(TxFault::PubkeyInvalid(ed25519_key_error_text(pk)))
            } else {
                match base64_decoding(tx.sig_b64@) {
                    None => Err(TxFault::SignatureEncoding(base64_decode_error_text(tx.sig_b64@))),
                    Some(sig) => if sig.len() != 64 {
                        Err(TxFault::SignatureLength)
                    } else if !ed25519_strict_accepts(pk, canonical_bytes_of(tx), sig) {
                        Err(TxFault::VerifyFailed(ed25519_verify_error_text(pk, canonical_bytes_of(tx), sig)))
                    } else {
                        Ok(())
                    },
                }
            },
        }
    }
}

/// Verifies a transaction as of time `now`.
pub fn verify_tx_at(tx: &SignedTx, now: u64) -> (res: Result<(), TxError>)
    ensures
        fault_view(res) == tx_check(*tx, now),
{
    let label = "ed25519".to_owned();
    proof {
        reveal_strlit("ed25519");
    }
    assert(label@ =~= ed25519_label());
    if tx.sig_alg != label {
        return Err(TxError::UnsupportedSigAlg);
    }
    if tx.expiry < now {
        return Err(TxError::Expired);
    }
    let pk = match base64_decode(tx.from_pubkey_b64.as_str()) {
        Ok(bytes) => bytes,
        Err(msg) => {
            return Err(TxError::PubkeyEncoding(msg));
        },
    };
    if pk.len() != 32 {
        return Err(TxError::PubkeyLength);
    }
    match ed25519_key_decodes(pk.as_slice()) {
        Ok(()) => {},
        Err(msg) => {
            return Err(TxError::PubkeyInvalid(msg));
        },
    }
    let sig = match base64_decode(tx.sig_b64.as_str()) {
        Ok(bytes) => bytes,
        Err(msg) => {
            return Err(TxError::SignatureEncoding(msg));
        },
    };
    if sig.len() != 64 {
        return Err(TxError::SignatureLength);
    }
    let msg = canonical_bytes(tx);
    match ed25519_verify_strict(pk.as_slice(), msg.as_slice(), sig.as_slice()) {
        Ok(()) => {},
        Err(text) => {
            return Err(TxError::VerifyFailed(text));
        },
    }
    Ok(())
}

/// Verifies a transaction as of the current time; `None` where the clock
/// reads earlier than the Unix epoch.
pub fn verify_tx(tx: &SignedTx) -> (res: Option<Result<(), TxError>>)
    ensures
        res matches Some(r) ==> exists|now: u64| fault_view(r) == tx_check(*tx, now),
{
    match now_secs() {
        Some(now) => Some(verify_tx_at(tx, now)),
        None => None,
    }
}

/// `tx` is the transaction that `sign_tx_at` builds from these arguments:
/// version 1, `ed25519`, the sender key in base64, timestamp `now`, expiry
/// `now + ttl_secs`, and the base64 signature of its canonical bytes under
/// the key pair's seed; both base64 fields decode back to the key and to the
/// 64-byte signature.
pub open spec fn is_signed_tx_of(
    tx: SignedTx,
    keys: Keypair,
    chain_id: u32,
    nonce: u64,
    to: Option<Seq<char>>,
    value: u128,
    max_fee: u64,
    data_b64: Seq<char>,
    ttl_secs: u64,
    now: u64,
) -> bool {
    &&& tx.version == 1
    &&& tx.chain_id == chain_id
    &&& tx.from_pubkey_b64@ == base64_encoding(keys.public_key@)
    &&& tx.nonce == nonce
    &&& opt_view(tx.to) == to
    &&& tx.value == value
    &&& tx.max_fee == max_fee
    &&& tx.data_b64@ == data_b64
    &&& tx.timestamp == now
    &&& tx.expiry == now + ttl_secs
    &&& tx.sig_alg@ == ed25519_label()
    &&& tx.sig_b64@ == base64_encoding(ed25519_signature(keys.seed@, canonical_bytes_of(tx)))
    &&& base64_decoding(tx.from_pubkey_b64@) == Some(keys.public_key@)
    &&& base64_decoding(tx.sig_b64@) == Some(ed25519_signature(keys.seed@, canonical_bytes_of(tx)))
    &&& ed25519_signature(keys.seed@, canonical_bytes_of(tx)).len() == 64
}

/// The text of an optional string.
pub open spec fn opt_view(s: Option<String>) -> Option<Seq<char>> {
    match s {
        Some(t) => Some(t@),
        None => None,
    }
}

/// Builds and signs a transaction with timestamp `now`.
pub fn sign_tx_at(
    keys: &Keypair,
    chain_id: u32,
    nonce: u64,
    to: Option<String>,
    value: u128,
    max_fee: u64,
    data_b64: String,
    ttl_secs: u64,
    now: u64,
) -> (tx: SignedTx)
    requires
        keys.wf(),
        now + ttl_secs <= u64::MAX,
    ensures
        is_signed_tx_of(
            tx,
            *keys,
            chain_id,
            nonce,
            opt_view(to),
            value,
            max_fee,
            data_b64@,
            ttl_secs,
            now,
        ),
{
    let expiry = now + ttl_secs;
    let from_pubkey_b64 = base64_encode(keys.public_key.as_slice());
    let label = "ed25519".to_owned();
    proof {
        reveal_strlit("ed25519");
    }
    assert(label@ =~= ed25519_label());
    let mut tx = SignedTx {
        version: 1,
        chain_id,
        from_pubkey_b64,
        nonce,
        to,
        value,
        max_fee,
        data_b64,
        timestamp: now,
        expiry,
        sig_alg: label,
        sig_b64: String::new(),
    };
    let msg = canonical_bytes(&tx);
    let sig = ed25519_sign(keys.seed.as_slice(), msg.as_slice());
    tx.sig_b64 = base64_encode(sig.as_slice());
    assert(canonical_bytes_of(tx) == msg@);
    tx
}

/// What `sign_tx` returns when the current time is `now`.
pub open spec fn sign_outcome(
    res: Option<SignedTx>,
    keys: Keypair,
    chain_id: u32,
    nonce: u64,
    to: Option<String>,
    value: u128,
    max_fee: u64,
    data_b64: String,
    ttl_secs: u64,
    now: u64,
) -> bool {
    match res {
        Some(tx) => is_signed_tx_of(
            tx,
            keys,
            chain_id,
            nonce,
            opt_view(to),
            value,
            max_fee,
            data_b64@,
            ttl_secs,
            now,
        ),
        None => now + ttl_secs > u64::MAX,
    }
}

/// Builds and signs a transaction stamped with the current time; `None`
/// where the current time plus `ttl_secs` does not fit in a `u64`, or the
/// clock reads earlier than the Unix epoch.
pub fn sign_tx(
    keys: &Keypair,
    chain_id: u32,
    nonce: u64,
    to: Option<String>,
    value: u128,
    max_fee: u64,
    data_b64: String,
    ttl_secs: u64,
) -> (res: Option<SignedTx>)
    requires
        keys.wf(),
    ensures
        res is Some ==> exists|now: u64|
            #[trigger] sign_outcome(
                res,
                *keys,
                chain_id,
                nonce,
                to,
                value,
                max_fee,
                data_b64,
                ttl_secs,
                now,
            ),
{
    let now = match now_secs() {
        Some(now) => now,
        None => {
            return None;
        },
    };
    let ghost args = (to, data_b64);
    let res = if ttl_secs > u64::MAX - now {
        None
    } else {
        Some(sign_tx_at(keys, chain_id, nonce, to, value, max_fee, data_b64, ttl_secs, now))
    };
    assert(sign_outcome(res, *keys, chain_id, nonce, args.0, value, max_fee, args.1, ttl_secs, now));
    res
}

/// A random nonce: eight bytes of operating-system entropy read big-endian;
/// `None` where the operating system supplies none.
pub fn random_nonce() -> Option<u64> {
    match os_random_bytes(8) {
        Some(bytes) => Some(u64_from_be(bytes.as_slice())),
        None => None,
    }
}

/// A transaction's id depends only on its canonical bytes: the version, the
/// algorithm label and the signature do not change it.
pub proof fn lemma_tx_id_ignores_signature(a: SignedTx, b: SignedTx)
    requires
        a.chain_id == b.chain_id,
        a.from_pubkey_b64 == b.from_pubkey_b64,
        a.nonce == b.nonce,
        a.to == b.to,
        a.value == b.value,
        a.max_fee == b.max_fee,
        a.data_b64 == b.data_b64,
        a.timestamp == b.timestamp,
        a.expiry == b.expiry,
    ensures
        canonical_bytes_of(a) == canonical_bytes_of(b),
        tx_id_of(a) == tx_id_of(b),
{
}

/// A transaction signed by `sign_tx_at` verifies at any time up to its
/// expiry wherever Ed25519 strictly accepts its signature (signing and
/// verifying agree on the canonical bytes and on how key and signature are
/// carried), and is refused as expired after it.
pub proof fn lemma_signed_tx_verifies(
    tx: SignedTx,
    keys: Keypair,
    chain_id: u32,
    nonce: u64,
    to: Option<Seq<char>>,
    value: u128,
    max_fee: u64,
    data_b64: Seq<char>,
    ttl_secs: u64,
    now: u64,
    at: u64,
)
    requires
        keys.wf(),
        is_signed_tx_of(tx, keys, chain_id, nonce, to, value, max_fee, data_b64, ttl_secs, now),
        ed25519_strict_accepts(
            keys.public_key@,
            canonical_bytes_of(tx),
            ed25519_signature(keys.seed@, canonical_bytes_of(tx)),
        ),
    ensures
        at <= now + ttl_secs ==> tx_check(tx, at) is Ok,
        at > now + ttl_secs ==> tx_check(tx, at) == Err::<(), TxFault>(TxFault::Expired),
{
}

/// Verification does not read the version: two transactions that differ in
/// nothing else verify alike at any time.
pub proof fn lemma_check_ignores_version(a: SignedTx, b: SignedTx, at: u64)
    requires
        a.chain_id == b.chain_id,
        a.from_pubkey_b64 == b.from_pubkey_b64,
        a.nonce == b.nonce,
        a.to == b.to,
        a.value == b.value,
        a.max_fee == b.max_fee,
        a.data_b64 == b.data_b64,
        a.timestamp == b.timestamp,
        a.expiry == b.expiry,
        a.sig_alg == b.sig_alg,
        a.sig_b64 == b.sig_b64,
    ensures
        tx_check(a, at) == tx_check(b, at),
{
    assert(canonical_bytes_of(a) == canonical_bytes_of(b));
}

/// Expiry is enforced against the time of the check: a transaction is
/// accepted only at times up to its expiry; one under the chain's algorithm
/// is refused as expired at any later time, before its key or signature is
/// looked at; and one accepted at some time is accepted at every earlier
/// time.
pub proof fn lemma_expiry_is_enforced(tx: SignedTx, now: u64)
    ensures
        tx_check(tx, now) is Ok ==> now <= tx.expiry,
        tx.sig_alg@ == ed25519_label() && tx.expiry < now ==> tx_check(tx, now) == Err::<
            (),
            TxFault,
        >(TxFault::Expired),
        forall|earlier: u64|
            earlier <= now && tx_check(tx, now) is Ok ==> (#[trigger] tx_check(tx, earlier)) is Ok,
{
}

} // verus!
