use lnd_nwc::engine::{
    announcement_content, handle_event, next_state, relay_union, EngineEvent, EngineState,
    EngineStep, InboundEvent, REQUEST_KIND, RESPONSE_KIND,
};
use lnd_nwc::registry::SessionRegistry;
use lnd_nwc::lifecycle::{daemon_status, may_start, stop_action, DaemonStatus, StopAction};
use lnd_nwc::session::WalletSession;

fn fresh_session(relays: Vec<String>) -> WalletSession {
    let keys = nostr::key::Keys::generate();
    WalletSession::new(keys.public_key().to_hex(), keys.secret_key().to_secret_hex(), relays)
        .expect("valid key material")
}

fn event(handle: &str, kind: u16, content: String) -> InboundEvent {
    InboundEvent {
        subscription_handle: handle.to_string(),
        kind,
        sender: "02ab".to_string(),
        content,
        id: "evt-1".to_string(),
        created_at: 1700000000,
    }
}

#[test]
fn non_request_kind_is_ignored_before_any_codec_work() {
    let session = fresh_session(vec![]);
    let cipher = session.encrypt("{\"method\":\"get_info\"}");
    let reg = SessionRegistry::new(vec![("sub-a".to_string(), session)]);
    let step = handle_event(&reg, &event("sub-a", 1, cipher));
    assert!(matches!(step, EngineStep::IgnoredKind));
}

#[test]
fn unknown_subscription_is_discarded_with_zero_outbound_events() {
    let session = fresh_session(vec![]);
    let cipher = session.encrypt("{\"method\":\"get_info\"}");
    let reg = SessionRegistry::new(vec![("sub-a".to_string(), session)]);
    let step = handle_event(&reg, &event("sub-unknown", REQUEST_KIND, cipher));
    assert!(matches!(step, EngineStep::UnknownSubscription));
}

#[test]
fn owned_request_is_decoded_under_the_owning_session() {
    let session = fresh_session(vec![]);
    let cipher = session.encrypt("{\"method\":\"get_balance\"}");
    let other = fresh_session(vec![]);
    let reg = SessionRegistry::new(vec![
        ("sub-x".to_string(), other),
        ("sub-a".to_string(), session),
    ]);
    match handle_event(&reg, &event("sub-a", REQUEST_KIND, cipher)) {
        EngineStep::Dispatch { session_index, request } => {
            assert_eq!(session_index, 1);
            assert!(matches!(request, lnd_nwc::nwc_types::NwcRequest::GetBalance(_)));
        },
        _ => panic!("expected a dispatchable request"),
    }
}

#[test]
fn request_for_one_session_is_never_dispatchable_under_another() {
    // Two sessions watching the same relay; the payload is addressed to a.
    let relay = vec!["wss://shared.example".to_string()];
    let a = fresh_session(relay.clone());
    let b = fresh_session(relay.clone());
    let cipher_for_a = a.encrypt("{\"method\":\"get_info\"}");
    let reg = SessionRegistry::new(vec![("sub-a".to_string(), a), ("sub-b".to_string(), b)]);
    // Delivered on b's subscription, it cannot be opened with b's secret.
    match handle_event(&reg, &event("sub-b", REQUEST_KIND, cipher_for_a.clone())) {
        EngineStep::Undecryptable { session_index } => assert_eq!(session_index, 1),
        _ => panic!("foreign ciphertext must not decode"),
    }
    // Delivered on a's subscription it decodes, and the response is
    // addressed back to a.
    match handle_event(&reg, &event("sub-a", REQUEST_KIND, cipher_for_a)) {
        EngineStep::Dispatch { session_index, .. } => assert_eq!(session_index, 0),
        _ => panic!("owner's ciphertext must decode"),
    }
}

#[test]
fn undecodable_plaintext_gets_an_error_response() {
    let session = fresh_session(vec![]);
    let cipher = session.encrypt("this is not a request");
    let pubkey = session.pubkey().clone();
    let reg = SessionRegistry::new(vec![("sub-a".to_string(), session)]);
    match handle_event(&reg, &event("sub-a", REQUEST_KIND, cipher)) {
        EngineStep::RespondError { session_index, parts } => {
            assert_eq!(session_index, 0);
            assert_eq!(parts.kind, RESPONSE_KIND);
            assert_eq!(parts.reply_to, "evt-1");
            assert_eq!(parts.audience, pubkey);
            let plain = reg.session_at(0).decrypt(&parts.content).unwrap();
            assert!(plain.contains("\"error\""));
            assert!(plain.contains("OTHER"));
        },
        _ => panic!("a decryptable but malformed request is answered"),
    }
}

#[test]
fn lookup_returns_the_first_matching_subscription() {
    let a = fresh_session(vec![]);
    let b = fresh_session(vec![]);
    let c = fresh_session(vec![]);
    let reg = SessionRegistry::new(vec![
        ("dup".to_string(), a),
        ("dup".to_string(), b),
        ("other".to_string(), c),
    ]);
    assert_eq!(reg.lookup("dup"), Some(0));
    assert_eq!(reg.lookup("other"), Some(2));
    assert_eq!(reg.lookup("absent"), None);
}

#[test]
fn announcement_lists_every_method_in_order() {
    assert_eq!(
        announcement_content(),
        "get_info get_balance pay_invoice pay_keysend make_invoice lookup_invoice"
    );
}

#[test]
fn relay_union_deduplicates_across_sessions() {
    let a = fresh_session(vec!["wss://one.example".to_string(), "wss://two.example".to_string()]);
    let b = fresh_session(vec!["wss://two.example".to_string(), "wss://three.example".to_string()]);
    let union = relay_union(&vec![a, b]);
    let mut urls: Vec<String> = union.clone();
    urls.sort();
    assert_eq!(
        urls,
        vec![
            "wss://one.example".to_string(),
            "wss://three.example".to_string(),
            "wss://two.example".to_string()
        ]
    );
    assert_eq!(union.len(), 3);
}

#[test]
fn engine_phases_advance_in_order_and_shutdown_interrupts() {
    let s0 = EngineState::Idle;
    let s1 = next_state(s0, EngineEvent::Start);
    assert_eq!(s1, EngineState::Announcing);
    let s2 = next_state(s1, EngineEvent::Announced);
    assert_eq!(s2, EngineState::Subscribing);
    let s3 = next_state(s2, EngineEvent::Subscribed);
    assert_eq!(s3, EngineState::Serving);
    let s4 = next_state(s3, EngineEvent::Shutdown);
    assert_eq!(s4, EngineState::ShuttingDown);
    let s5 = next_state(s4, EngineEvent::Drained);
    assert_eq!(s5, EngineState::Stopped);
    // Stray events change nothing.
    assert_eq!(next_state(EngineState::Idle, EngineEvent::Drained), EngineState::Idle);
    assert_eq!(next_state(EngineState::Serving, EngineEvent::Start), EngineState::Serving);
}

#[test]
fn uri_round_trip_through_create_and_parse() {
    let keys = nostr::key::Keys::generate();
    let pub_hex = keys.public_key().to_hex();
    let relay = "wss://relay.example.com/path?x=1&y=2";
    let uri = lnd_nwc::uri::create_uri(&pub_hex, relay).expect("randomness available");
    assert!(uri.starts_with("nostr+walletconnect://"));
    let parts = lnd_nwc::uri::parse_wallet_uri(&uri).expect("own uri parses");
    assert_eq!(parts.pubkey, pub_hex);
    assert_eq!(parts.relays, vec![relay.to_string()]);
    assert_eq!(parts.secret.len(), 64);
    let session = lnd_nwc::uri::session_from_uri(&uri).expect("own uri yields a session");
    assert_eq!(session.pubkey(), &pub_hex);
}

#[test]
fn uri_parsing_rejects_missing_pieces() {
    assert!(lnd_nwc::uri::parse_wallet_uri("http://example.com").is_none());
    assert!(lnd_nwc::uri::parse_wallet_uri("nostr+walletconnect://abcd").is_none());
    assert!(
        lnd_nwc::uri::parse_wallet_uri("nostr+walletconnect://abcd?secret=0011").is_none()
    );
    assert!(
        lnd_nwc::uri::parse_wallet_uri(
            "nostr+walletconnect://abcd?relay=wss%3A%2F%2Fr.example"
        )
        .is_none()
    );
    assert!(
        lnd_nwc::uri::parse_wallet_uri(
            "nostr+walletconnect://abcd?relay=wss%3A%2F%2Fr.example&secret=0011"
        )
        .is_some()
    );
}

#[test]
fn parseable_uri_with_unusable_keys_yields_no_session() {
    // A well-shaped URI whose identity key is 32 bytes beyond the curve's
    // field: it parses, but no session can encrypt under it.
    let uri = format!(
        "nostr+walletconnect://{}?relay=wss%3A%2F%2Fr.example&secret={}",
        "ff".repeat(32),
        "11".repeat(32)
    );
    assert!(lnd_nwc::uri::parse_wallet_uri(&uri).is_some());
    assert!(lnd_nwc::uri::session_from_uri(&uri).is_none());
}

#[test]
fn generated_secrets_are_64_hex_characters() {
    let s = lnd_nwc::uri::generate_secret().expect("randomness available");
    assert_eq!(s.len(), 64);
    assert!(s.chars().all(|c| c.is_ascii_hexdigit()));
}

#[test]
fn uri_map_insert_and_remove_follow_presence() {
    let mut m = lnd_nwc::config::UriMap::new();
    assert!(m.insert("alice".to_string(), "uri-1".to_string()).is_ok());
    assert!(m.insert("alice".to_string(), "uri-2".to_string()).is_err());
    assert!(m.insert("bob".to_string(), "uri-3".to_string()).is_ok());
    assert!(m.contains_name("alice"));
    assert!(m.remove("alice").is_ok());
    assert!(!m.contains_name("alice"));
    assert!(m.remove("alice").is_err());
    assert!(m.contains_name("bob"));
    assert_eq!(m.len(), 1);
}

#[test]
fn daemon_status_reflects_pid_file_and_process() {
    assert_eq!(daemon_status(false, false), DaemonStatus::Stopped);
    assert_eq!(daemon_status(true, true), DaemonStatus::Running);
    assert_eq!(daemon_status(true, false), DaemonStatus::Stale);
    assert!(may_start(false));
    assert!(!may_start(true));
    assert_eq!(stop_action(true, true), StopAction::SignalAndRemove);
    assert_eq!(stop_action(true, false), StopAction::RemoveStale);
    assert_eq!(stop_action(false, true), StopAction::Nothing);
}
