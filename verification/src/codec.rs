//! Envelope encryption for one wallet session.
//!
//! Every payload on the wire is encrypted under the session's shared secret
//! with the session's identity key as the asymmetric peer key. The cipher
//! itself comes from the nostr crate; the library states its behaviour here
//! and proves everything around it.

use vstd::prelude::*;

verus! {

/// Whether this pair of hex-encoded keys yields an encryption key: the
/// secret parses, the peer key parses and lies on the curve. Decided by
/// the key material alone.
pub uninterp spec fn nip04_keys_ok(secret_hex: Seq<char>, peer_hex: Seq<char>) -> bool;

/// What `nip04::decrypt` returns for these hex-encoded keys and this
/// ciphertext: the plaintext, or `None` for malformed or foreign-key
/// input. Deterministic in its arguments.
pub uninterp spec fn nip04_decrypt_of(
    secret_hex: Seq<char>,
    peer_hex: Seq<char>,
    cipher: Seq<char>,
) -> Option<Seq<char>>;

/// Relies on `nostr::nips::nip04::encrypt`: AES-256-CBC under the ECDH
/// shared key of the two keys, with a fresh random IV appended. It succeeds
/// exactly when the keys yield a shared key, and `nip04::decrypt` with the
/// same keys recovers the plaintext from every ciphertext it produces.
/// Like the crate itself, it aborts only if the operating system's
/// randomness is unavailable; no input reaches that path.
#[verifier::external_body]
pub(crate) fn nip04_encrypt(secret_hex: &str, peer_hex: &str, plain: &str) -> (r: Option<String>)
    ensures
        r is Some <==> nip04_keys_ok(secret_hex@, peer_hex@),
        r matches Some(c) ==> nip04_decrypt_of(secret_hex@, peer_hex@, c@) == Some(plain@),
{
    let secret = match nostr::key::SecretKey::from_hex(secret_hex) {
        Ok(s) => s,
        Err(_) => return None,
    };
    let peer = match nostr::key::PublicKey::from_hex(peer_hex) {
        Ok(p) => p,
        Err(_) => return None,
    };
    nostr::nips::nip04::encrypt(&secret, &peer, plain).ok()
}

/// Relies on `nostr::nips::nip04::decrypt`: the deterministic inverse of
/// the cipher above; any malformed envelope or failing key material is an
/// error.
#[verifier::external_body]
pub(crate) fn nip04_decrypt(secret_hex: &str, peer_hex: &str, cipher: &str) -> (r: Option<String>)
    ensures
        match r {
            Some(p) => nip04_decrypt_of(secret_hex@, peer_hex@, cipher@) == Some(p@),
            None => nip04_decrypt_of(secret_hex@, peer_hex@, cipher@) is None,
        },
{
    let secret = match nostr::key::SecretKey::from_hex(secret_hex) {
        Ok(s) => s,
        Err(_) => return None,
    };
    let peer = match nostr::key::PublicKey::from_hex(peer_hex) {
        Ok(p) => p,
        Err(_) => return None,
    };
    nostr::nips::nip04::decrypt(&secret, &peer, cipher).ok()
}

} // verus!
