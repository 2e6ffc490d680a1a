//! A wallet session: one client's identity key, shared secret and relay
//! set, immutable once built. Construction checks the key material once;
//! afterwards every envelope operation on the session is total.

use vstd::prelude::*;

use crate::codec::{nip04_decrypt, nip04_decrypt_of, nip04_encrypt, nip04_keys_ok};

verus! {

/// The mathematical content of a session.
pub struct SessionV {
    pub pubkey: Seq<char>,
    pub secret: Seq<char>,
    pub relays: Seq<Seq<char>>,
}

pub struct WalletSession {
    pubkey: String,
    secret: String,
    relays: Vec<String>,
}

impl View for WalletSession {
    type V = SessionV;

    closed spec fn view(&self) -> SessionV {
        SessionV {
            pubkey: self.pubkey@,
            secret: self.secret@,
            relays: self.relays.deep_view(),
        }
    }
}

impl WalletSession {
    /// Key material that parses and derives a shared key; established at
    /// construction and never broken afterwards.
    #[verifier::type_invariant]
    spec fn inv(self) -> bool {
        nip04_keys_ok(self.secret@, self.pubkey@)
    }

    /// Builds a session, accepting exactly the key pairs under which
    /// envelopes can be encrypted.
    pub fn new(pubkey_hex: String, secret_hex: String, relays: Vec<String>) -> (r: Option<
        WalletSession,
    >)
        ensures
            r is Some <==> nip04_keys_ok(secret_hex@, pubkey_hex@),
            r matches Some(s) ==> s@.pubkey == pubkey_hex@ && s@.secret == secret_hex@
                && s@.relays == relays.deep_view(),
    {
        // One probe encryption decides validity: encryption succeeds for a
        // key pair exactly when the shared key derives.
        match nip04_encrypt(secret_hex.as_str(), pubkey_hex.as_str(), "") {
            Some(_) => Some(WalletSession { pubkey: pubkey_hex, secret: secret_hex, relays }),
            None => None,
        }
    }

    /// A second handle on the same session, for a spawned watcher task.
    pub fn duplicate(&self) -> (r: WalletSession)
        ensures
            r@ == self@,
    {
        proof {
            use_type_invariant(self);
        }
        let mut relays: Vec<String> = Vec::new();
        let mut i: usize = 0;
        while i < self.relays.len()
            invariant
                i <= self.relays@.len(),
                relays@.len() == i,
                forall|k: int| 0 <= k < i ==> #[trigger] relays@[k]@ == self.relays@[k]@,
            decreases self.relays@.len() - i,
        {
            relays.push(String::from_str(self.relays[i].as_str()));
            i = i + 1;
        }
        proof {
            assert forall|k: int|
                0 <= k < relays.deep_view().len() implies #[trigger] relays.deep_view()[k]
                == self.relays.deep_view()[k] by {
                assert(relays@[k]@ == self.relays@[k]@);
            }
            assert(relays.deep_view() =~= self.relays.deep_view());
        }
        let r = WalletSession {
            pubkey: String::from_str(self.pubkey.as_str()),
            secret: String::from_str(self.secret.as_str()),
            relays,
        };
        proof {
            assert(r@ =~~= self@);
        }
        r
    }

    pub fn pubkey(&self) -> (r: &String)
        ensures
            r@ == self@.pubkey,
    {
        &self.pubkey
    }

    pub fn relays(&self) -> (r: &Vec<String>)
        ensures
            r.deep_view() == self@.relays,
    {
        &self.relays
    }

    /// Encrypts a payload for this session. Decrypting the result under the
    /// same session yields the payload back.
    pub fn encrypt(&self, plain: &str) -> (r: String)
        ensures
            nip04_decrypt_of(self@.secret, self@.pubkey, r@) == Some(plain@),
    {
        proof {
            use_type_invariant(self);
        }
        match nip04_encrypt(self.secret.as_str(), self.pubkey.as_str(), plain) {
            Some(c) => c,
            None => unreached(),
        }
    }

    /// Decrypts an inbound payload; `None` for an envelope that is malformed
    /// or was not produced under this session's keys.
    pub fn decrypt(&self, cipher: &str) -> (r: Option<String>)
        ensures
            match r {
                Some(p) => nip04_decrypt_of(self@.secret, self@.pubkey, cipher@) == Some(p@),
                None => nip04_decrypt_of(self@.secret, self@.pubkey, cipher@) is None,
            },
    {
        nip04_decrypt(self.secret.as_str(), self.pubkey.as_str(), cipher)
    }
}

} // verus!
