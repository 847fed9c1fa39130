//! The mutual-authentication handshake: the listener challenges with a
//! random nonce, each side proves its identity by signing it, and the
//! listener welcomes the newcomer; plus how a connected node turns a typed
//! line into a message.

use vstd::prelude::*;
use crate::crypto::{
    carries_nonce_signature, carries_public_key, identity_check, node_id_of, sign_nonce,
    verify_identity, IdentityError, Keypair,
};
use crate::primitives::{
    base64_decode, base64_decode_error_text, base64_decoding, base64_encode, base64_encoding,
    ed25519_key_decodes,
    ed25519_key_valid, ed25519_signature, os_random_bytes,
};
use crate::protocol::Msg;
use crate::tx::{is_signed_tx_of, sign_tx_at};

verus! {

/// Why a handshake step failed.
#[derive(Debug, PartialEq, Eq)]
pub enum HandshakeError {
    /// The peer sent another message than the step expects.
    UnexpectedMessage,
    /// The challenge nonce is not valid base64: the decoder's error text.
    NonceEncoding(String),
    /// The peer's identity proof was refused.
    Identity(IdentityError),
}

/// A fresh 32-byte challenge nonce from operating-system entropy; `None`
/// where the operating system supplies none.
pub fn new_challenge_nonce() -> (nonce: Option<Vec<u8>>)
    ensures
        nonce matches Some(n) ==> n@.len() == 32,
{
    os_random_bytes(32)
}

/// The challenge carrying a nonce in base64.
pub fn challenge(nonce: &[u8]) -> (m: Msg)
    ensures
        m matches Msg::Challenge { nonce_b64 } && nonce_b64@ == base64_encoding(nonce@),
{
    Msg::Challenge { nonce_b64: base64_encode(nonce) }
}

/// The challenged side's reading of the challenge: the nonce it carries.
pub fn read_challenge(m: &Msg) -> (res: Result<Vec<u8>, HandshakeError>)
    ensures
        match m {
            Msg::Challenge { nonce_b64 } => match base64_decoding(nonce_b64@) {
                Some(bytes) => res matches Ok(n) && n@ == bytes,
                None => res matches Err(HandshakeError::NonceEncoding(t)) && t@
                    == base64_decode_error_text(nonce_b64@),
            },
            _ => res == Err::<Vec<u8>, HandshakeError>(HandshakeError::UnexpectedMessage),
        },
{
    match m {
        Msg::Challenge { nonce_b64 } => match base64_decode(nonce_b64.as_str()) {
            Ok(bytes) => Ok(bytes),
            Err(msg) => Err(HandshakeError::NonceEncoding(msg)),
        },
        _ => Err(HandshakeError::UnexpectedMessage),
    }
}

/// A node's identity proof for a nonce: its name, node id, public key
/// (base64) and signature of the nonce (base64).
pub fn identity_message(keys: &Keypair, name: String, node_id: String, nonce: &[u8]) -> (m: Msg)
    requires
        keys.wf(),
    ensures
        m matches Msg::Identity { name: n, node_id: i, pubkey_b64, sig_b64 } && n == name && i
            == node_id && pubkey_b64@ == base64_encoding(keys.public_key@) && sig_b64@
            == base64_encoding(ed25519_signature(keys.seed@, nonce@)) && carries_public_key(
            *keys,
            pubkey_b64@,
        ) && carries_nonce_signature(*keys, nonce@, sig_b64@),
{
    let pubkey_b64 = base64_encode(keys.public_key.as_slice());
    let sig_b64 = sign_nonce(keys, nonce);
    Msg::Identity { name, node_id, pubkey_b64, sig_b64 }
}

/// The listener's check of the newcomer's identity proof for its nonce;
/// on success, the newcomer's name and node id.
pub fn accept_identity(nonce: &[u8], m: &Msg) -> (res: Result<(String, String), HandshakeError>)
    ensures
        match m {
            Msg::Identity { name, node_id, pubkey_b64, sig_b64 } => match identity_check(
                nonce@,
                node_id@,
                pubkey_b64@,
                sig_b64@,
            ) {
                Ok(_) => res matches Ok(p) && p.0@ == name@ && p.1@ == node_id@,
                Err(e) => res matches Err(HandshakeError::Identity(x)) && x@ == e,
            },
            _ => res == Err::<(String, String), HandshakeError>(
                HandshakeError::UnexpectedMessage,
            ),
        },
{
    match m {
        Msg::Identity { name, node_id, pubkey_b64, sig_b64 } => {
            match verify_identity(nonce, node_id.as_str(), pubkey_b64.as_str(), sig_b64.as_str()) {
                Ok(()) => Ok((name.clone(), node_id.clone())),
                Err(e) => Err(HandshakeError::Identity(e)),
            }
        },
        _ => Err(HandshakeError::UnexpectedMessage),
    }
}

/// The connecting side's check of the listener's identity proof for the
/// nonce it signed; on success, the listener's name and public key.
pub fn accept_server_identity(nonce: &[u8], m: &Msg) -> (res: Result<(String, Vec<u8>), HandshakeError>)
    ensures
        match m {
            Msg::Identity { name, node_id, pubkey_b64, sig_b64 } => match identity_check(
                nonce@,
                node_id@,
                pubkey_b64@,
                sig_b64@,
            ) {
                Ok(_) => res matches Ok(p) && p.0@ == name@ && base64_decoding(pubkey_b64@) == Some(
                    p.1@,
                ) && p.1@.len() == 32 && ed25519_key_valid(p.1@) && node_id@ == node_id_of(p.1@),
                Err(e) => res matches Err(HandshakeError::Identity(x)) && x@ == e,
            },
            _ => res == Err::<(String, Vec<u8>), HandshakeError>(
                HandshakeError::UnexpectedMessage,
            ),
        },
{
    match m {
        Msg::Identity { name, node_id, pubkey_b64, sig_b64 } => {
            let pk = match base64_decode(pubkey_b64.as_str()) {
                Ok(bytes) => bytes,
                Err(msg) => {
                    return Err(HandshakeError::Identity(IdentityError::PubkeyEncoding(msg)));
                },
            };
            if pk.len() != 32 {
                return Err(HandshakeError::Identity(IdentityError::PubkeyLength));
            }
            match ed25519_key_decodes(pk.as_slice()) {
                Ok(()) => {},
                Err(msg) => {
                    return Err(HandshakeError::Identity(IdentityError::PubkeyInvalid(msg)));
                },
            }
            match verify_identity(nonce, node_id.as_str(), pubkey_b64.as_str(), sig_b64.as_str()) {
                Ok(()) => Ok((name.clone(), pk)),
                Err(e) => Err(HandshakeError::Identity(e)),
            }
        },
        _ => Err(HandshakeError::UnexpectedMessage),
    }
}

/// The first eight characters of an ASCII id, as logs and names show it.
pub fn short_id(id: &str) -> (s: String)
    requires
        vstd::utf8::is_ascii_chars(id@),
        id@.len() >= 8,
    ensures
        s@ == id@.subrange(0, 8),
{
    id.substring_ascii(0, 8).to_owned()
}

/// The listener's greeting: `Welcome <peer>, connected to <me> (id
/// <first 8 of my id>...)`.
pub fn welcome_message(peer_name: &str, my_name: &str, my_id: &str) -> (m: Msg)
    requires
        vstd::utf8::is_ascii_chars(my_id@),
        my_id@.len() >= 8,
    ensures
        m matches Msg::Welcome { text } && text@ == "Welcome "@ + peer_name@ + ", connected to "@
            + my_name@ + " (id "@ + my_id@.subrange(0, 8) + "...)"@,
{
    let mut text = "Welcome ".to_owned();
    text.append(peer_name);
    text.append(", connected to ");
    text.append(my_name);
    text.append(" (id ");
    let short = short_id(my_id);
    text.append(short.as_str());
    text.append("...)");
    Msg::Welcome { text }
}

/// The name a node goes by: the one given, or for "auto", `node-` and the
/// first eight characters of its id.
pub fn display_name(name: String, my_id: &str) -> (shown: String)
    requires
        vstd::utf8::is_ascii_chars(my_id@),
        my_id@.len() >= 8,
    ensures
        shown@ == if name@ == "auto"@ {
            "node-"@ + my_id@.subrange(0, 8)
        } else {
            name@
        },
{
    let auto = "auto".to_owned();
    if name == auto {
        let mut shown = "node-".to_owned();
        let short = short_id(my_id);
        shown.append(short.as_str());
        shown
    } else {
        name
    }
}

/// Node ids are ASCII (hex digits).
pub proof fn lemma_node_id_is_ascii(public_key: Seq<u8>)
    ensures
        vstd::utf8::is_ascii_chars(node_id_of(public_key)),
{
    let id = node_id_of(public_key);
    assert forall|i: int| 0 <= i < id.len() implies '\0' <= #[trigger] id[i] <= '\u{7f}' by {
        let d = crate::primitives::sha256_digest(public_key);
        let b = d[i / 2] as int;
        assert(0 <= b / 16 < 16);
        assert(0 <= b % 16 < 16);
    }
}

// ------------------------------------------------------------------ typed lines

/// The command prefix that submits a transaction.
pub open spec fn tx_command() -> Seq<char> {
    seq!['/', 't', 'x', ' ']
}

/// Whether a line starts with the transaction command.
pub open spec fn has_tx_command(line: Seq<char>) -> bool {
    line.len() >= 4 && line.take(4) == tx_command()
}

/// A line with every leading transaction command removed.
pub open spec fn strip_tx_commands(line: Seq<char>) -> Seq<char>
    decreases line.len(),
{
    if has_tx_command(line) {
        strip_tx_commands(line.skip(4))
    } else {
        line
    }
}

/// Whether the transaction command stands at character `start` of a line.
fn tx_command_at(line: &str, start: usize) -> (yes: bool)
    requires
        start <= line@.len(),
    ensures
        yes == has_tx_command(line@.skip(start as int)),
{
    let n = line.unicode_len();
    if n - start < 4 {
        return false;
    }
    let yes = line.get_char(start) == '/' && line.get_char(start + 1) == 't' && line.get_char(
        start + 2,
    ) == 'x' && line.get_char(start + 3) == ' ';
    proof {
        let here = line@.skip(start as int);
        if yes {
            assert(here.take(4) =~= tx_command());
        } else {
            if here.take(4) == tx_command() {
                assert(here.take(4)[0] == line@[start as int]);
                assert(here.take(4)[1] == line@[start + 1]);
                assert(here.take(4)[2] == line@[start + 2]);
                assert(here.take(4)[3] == line@[start + 3]);
            }
        }
    }
    yes
}

/// Whether a line starts with the transaction command.
pub fn starts_with_tx_command(line: &str) -> (yes: bool)
    ensures
        yes == has_tx_command(line@),
{
    assert(line@.skip(0) =~= line@);
    tx_command_at(line, 0)
}

/// What a connected node sends for a typed line: a line starting with
/// `/tx ` submits a transaction signed at time `now` (chain 1, the given
/// nonce, no recipient, value 0, fee 1, valid 600 s) whose data is the base64
/// of the line with its leading `/tx ` commands removed; any other non-empty
/// line is a chat line from this node; an empty line sends nothing.
pub fn message_for_line(line: &str, keys: &Keypair, my_id: &String, nonce: u64, now: u64) -> (m:
    Option<Msg>)
    requires
        keys.wf(),
        has_tx_command(line@) ==> now + 600 <= u64::MAX,
    ensures
        if has_tx_command(line@) {
            m matches Some(Msg::TxSubmit { tx }) && is_signed_tx_of(
                tx,
                *keys,
                1,
                nonce,
                None,
                0,
                1,
                base64_encoding(vstd::utf8::encode_utf8(strip_tx_commands(line@))),
                600,
                now,
            )
        } else if line@.len() > 0 {
            m matches Some(Msg::App { from, text }) && from@ == my_id@ && text@ == line@
        } else {
            m is None
        },
{
    if starts_with_tx_command(line) {
        let n = line.unicode_len();
        let mut start: usize = 0;
        assert(line@.skip(0) =~= line@);
        while tx_command_at(line, start)
            invariant
                n == line@.len(),
                start <= n,
                strip_tx_commands(line@.skip(start as int)) == strip_tx_commands(line@),
            decreases n - start,
        {
            let ghost here = line@.skip(start as int);
            assert(here.skip(4) =~= line@.skip(start + 4));
            start = start + 4;
        }
        let payload = line.substring_char(start, n);
        assert(payload@ =~= line@.skip(start as int));
        let data = base64_encode(payload.as_bytes());
        let tx = sign_tx_at(keys, 1, nonce, None, 0, 1, data, 600, now);
        Some(Msg::TxSubmit { tx })
    } else if line.unicode_len() > 0 {
        Some(Msg::App { from: my_id.clone(), text: line.to_owned() })
    } else {
        None
    }
}

} // verus!
