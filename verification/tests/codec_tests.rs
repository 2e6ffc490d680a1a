use lnd_nwc::session::WalletSession;

fn fresh_session(relays: Vec<String>) -> (WalletSession, String, String) {
    let keys = nostr::key::Keys::generate();
    let secret_hex = keys.secret_key().to_secret_hex();
    let pub_hex = keys.public_key().to_hex();
    let session = WalletSession::new(pub_hex.clone(), secret_hex.clone(), relays)
        .expect("valid key material");
    (session, pub_hex, secret_hex)
}

#[test]
fn encrypt_then_decrypt_returns_plaintext() {
    let (session, _, _) = fresh_session(vec!["wss://relay.example.com".to_string()]);
    let plain = "{\"method\":\"get_info\",\"params\":{}}";
    let cipher = session.encrypt(plain);
    assert_ne!(cipher, plain);
    let back = session.decrypt(&cipher).expect("own ciphertext decrypts");
    assert_eq!(back, plain);
}

#[test]
fn encrypt_twice_both_decrypt() {
    let (session, _, _) = fresh_session(vec![]);
    let plain = "hello over the relay";
    let c1 = session.encrypt(plain);
    let c2 = session.encrypt(plain);
    assert_eq!(session.decrypt(&c1).unwrap(), plain);
    assert_eq!(session.decrypt(&c2).unwrap(), plain);
}

#[test]
fn session_rejects_bad_key_material() {
    assert!(WalletSession::new("zz".to_string(), "11".repeat(32), vec![]).is_none());
    assert!(WalletSession::new("".to_string(), "".to_string(), vec![]).is_none());
    // A secret of zero is outside the curve order.
    assert!(
        WalletSession::new("ab".repeat(32), "00".repeat(32), vec![]).is_none()
    );
}

#[test]
fn foreign_session_cannot_read_ciphertext() {
    let (a, _, _) = fresh_session(vec!["wss://r1.example".to_string()]);
    let (b, _, _) = fresh_session(vec!["wss://r1.example".to_string()]);
    let cipher = a.encrypt("addressed to session a");
    assert!(b.decrypt(&cipher).is_none());
    assert_eq!(a.decrypt(&cipher).unwrap(), "addressed to session a");
}

#[test]
fn notification_content_decrypts_for_owner_only() {
    let (a, _, _) = fresh_session(vec![]);
    let (b, _, _) = fresh_session(vec![]);
    let n = lnd_nwc::notify::SettlementNotification {
        incoming: true,
        invoice: None,
        preimage: "00".repeat(32).chars().collect(),
        payment_hash: "11".repeat(32).chars().collect(),
        amount_msat: 50000,
        fees_msat: 0,
        created_at: 1700000000,
        expires_at: None,
        settled_at: 1700000100,
    };
    let content = lnd_nwc::notify::notify_content(&a, &n);
    let plain = a.decrypt(&content).expect("owner reads the push");
    assert!(plain.contains("\"notification_type\":\"payment_received\""));
    assert!(plain.contains("\"amount_msat\":50000"));
    assert!(b.decrypt(&content).is_none());
}
