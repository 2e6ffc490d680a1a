use lnd_nwc::dispatch::{
    apply_outcome, plan, BackendCall, BackendInvoiceState, BackendOutcome, DispatchPlan, FollowUp,
    KEYSEND_PREIMAGE_TLV,
};
use lnd_nwc::nwc_types::{InvoiceState, NwcError, NwcRequest, NwcResponse};
use sha2::Digest;

fn text(s: &str) -> Vec<char> {
    s.chars().collect()
}

fn keysend_request(pubkey: &str, amount: u64, extra: &str) -> NwcRequest {
    let payload = format!(
        "{{\"method\":\"pay_keysend\",\"params\":{{\"pubkey\":\"{}\",\"amount_msat\":{}{}}}}}",
        pubkey, amount, extra
    );
    NwcRequest::from_value(&payload).unwrap()
}

#[test]
fn keysend_without_preimage_derives_hash_from_fresh_preimage() {
    let pubkey = format!("02{}", "00".repeat(32));
    let req = keysend_request(&pubkey, 1000, "");
    match plan(&req) {
        DispatchPlan::Call(BackendCall::PayKeysend(k)) => {
            assert_eq!(k.preimage.len(), 32);
            let digest = sha2::Sha256::digest(&k.preimage).to_vec();
            assert_eq!(k.payment_hash, digest);
            assert_eq!(k.amount_msat, 1000);
            assert_eq!(k.pubkey.len(), 33);
        },
        _ => panic!("expected a backend call"),
    }
}

#[test]
fn keysend_caller_records_never_override_the_preimage_record() {
    let pubkey = format!("02{}", "11".repeat(32));
    let extra = format!(
        ",\"tlv_records\":[{{\"type\":{},\"value\":\"beef\"}},{{\"type\":7000,\"value\":\"cafe\"}}]",
        KEYSEND_PREIMAGE_TLV
    );
    let req = keysend_request(&pubkey, 5, &extra);
    match plan(&req) {
        DispatchPlan::Call(BackendCall::PayKeysend(k)) => {
            let reserved: Vec<&(u64, Vec<u8>)> = k
                .tlv_records
                .iter()
                .filter(|(t, _)| *t == KEYSEND_PREIMAGE_TLV)
                .collect();
            assert_eq!(reserved.len(), 1);
            assert_eq!(reserved[0].1, k.preimage);
            assert!(k.tlv_records.iter().any(|(t, v)| *t == 7000 && v == &vec![0xca, 0xfe]));
        },
        _ => panic!("expected a backend call"),
    }
}

#[test]
fn keysend_with_wrong_length_pubkey_is_refused_without_backend_call() {
    // 32 bytes instead of 33 after decoding.
    let short = format!("02{}", "00".repeat(31));
    let req = keysend_request(&short, 1000, "");
    match plan(&req) {
        DispatchPlan::Refuse(e) => assert_eq!(e, NwcError::ValidationFailed),
        _ => panic!("expected a refusal before any backend call"),
    }
    let odd = "02zz".to_string();
    let req = keysend_request(&odd, 1000, "");
    assert!(matches!(plan(&req), DispatchPlan::Refuse(NwcError::ValidationFailed)));
}

#[test]
fn keysend_keeps_a_given_preimage() {
    let pubkey = format!("02{}", "22".repeat(32));
    let preimage = "ab".repeat(32);
    let extra = format!(",\"preimage\":\"{}\"", preimage);
    let req = keysend_request(&pubkey, 42, &extra);
    match plan(&req) {
        DispatchPlan::Call(BackendCall::PayKeysend(k)) => {
            assert_eq!(k.preimage, vec![0xabu8; 32]);
            assert_eq!(k.payment_hash, sha2::Sha256::digest(&k.preimage).to_vec());
        },
        _ => panic!("expected a backend call"),
    }
}

#[test]
fn get_info_is_answered_without_the_backend() {
    let req = NwcRequest::from_value("{\"method\":\"get_info\"}").unwrap();
    match plan(&req) {
        DispatchPlan::Respond(NwcResponse::GetInfo(info)) => {
            assert_eq!(info.methods.len(), 6);
            assert!(info.methods.contains(&"pay_keysend".to_string()));
        },
        _ => panic!("expected an immediate answer"),
    }
}

fn lookup_call() -> BackendCall {
    BackendCall::LookupInvoice { payment_hash: Some(vec![0x11u8; 32]), invoice: None }
}

fn looked(state: BackendInvoiceState) -> BackendOutcome {
    BackendOutcome::Looked {
        state,
        invoice: Some(text("lnbc1xyz")),
        payment_hash_hex: text(&"11".repeat(32)),
        amount_msat: 50000,
        fee_msat: 0,
        created_at: 1700000000,
        settled_at: Some(1700000100),
        preimage_hex: Some(text(&"22".repeat(32))),
    }
}

#[test]
fn settled_lookup_notifies_exactly_once_per_call() {
    let (result, follow) = apply_outcome(&lookup_call(), &looked(BackendInvoiceState::Settled), 1);
    match result.unwrap() {
        NwcResponse::LookupInvoice(l) => assert_eq!(l.state, InvoiceState::Settled),
        _ => panic!("wrong result variant"),
    }
    match follow {
        FollowUp::Notify(n) => {
            assert!(n.incoming);
            assert_eq!(n.payment_hash, text(&"11".repeat(32)));
            assert_eq!(n.amount_msat, 50000);
            assert_eq!(n.settled_at, 1700000100);
        },
        _ => panic!("a settled lookup pushes one incoming notification"),
    }
}

#[test]
fn unsettled_lookup_states_notify_nobody() {
    for (backend, mapped) in [
        (BackendInvoiceState::Open, InvoiceState::Pending),
        (BackendInvoiceState::Accepted, InvoiceState::Pending),
        (BackendInvoiceState::Canceled, InvoiceState::Failed),
    ] {
        let (result, follow) = apply_outcome(&lookup_call(), &looked(backend), 1);
        match result.unwrap() {
            NwcResponse::LookupInvoice(l) => assert_eq!(l.state, mapped),
            _ => panic!("wrong result variant"),
        }
        assert!(matches!(follow, FollowUp::Nothing));
    }
}

#[test]
fn make_invoice_returns_immediately_and_spawns_a_watcher() {
    let req = NwcRequest::from_value(
        "{\"method\":\"make_invoice\",\"params\":{\"amount_msat\":50000,\"description\":\"coffee\"}}",
    )
    .unwrap();
    let call = match plan(&req) {
        DispatchPlan::Call(c) => c,
        _ => panic!("expected a backend call"),
    };
    let hash_hex = "33".repeat(32);
    let outcome = BackendOutcome::Created {
        invoice: text("lnbc500n1coffee"),
        payment_hash_hex: text(&hash_hex),
        created_at: 1700000000,
    };
    let (result, follow) = apply_outcome(&call, &outcome, 1700000001);
    let resp = result.unwrap();
    match &resp {
        NwcResponse::MakeInvoice(m) => {
            assert!(!m.invoice.is_empty());
            assert_eq!(m.payment_hash.len(), 64);
            assert_eq!(m.amount_msat, 50000);
        },
        _ => panic!("wrong result variant"),
    }
    // The result envelope never carries a preimage for a fresh invoice.
    let encoded = resp.to_event_content().unwrap();
    assert!(!encoded.contains("preimage"));
    match follow {
        FollowUp::Watch { payment_hash } => assert_eq!(payment_hash, text(&hash_hex)),
        _ => panic!("a fresh invoice gets a settlement watcher"),
    }
    // Later settlement, observed by the watcher: one incoming push.
    let settled = lnd_nwc::notify::WatchEvent::Settled {
        invoice: Some(text("lnbc500n1coffee")),
        payment_hash: text(&hash_hex),
        amount_msat: 50000,
        created_at: 1700000000,
        settled_at: 1700000300,
        preimage: text(&"44".repeat(32)),
    };
    let push = lnd_nwc::notify::watch_step(&settled).expect("settlement notifies");
    assert!(push.incoming);
    assert_eq!(push.amount_msat, 50000);
    let body = push.to_event_content();
    assert!(body.contains("\"notification_type\":\"payment_received\""));
    assert!(body.contains("\"amount_msat\":50000"));
}

#[test]
fn watcher_exits_silently_on_cancel_or_stream_end() {
    assert!(lnd_nwc::notify::watch_step(&lnd_nwc::notify::WatchEvent::Canceled).is_none());
    assert!(lnd_nwc::notify::watch_step(&lnd_nwc::notify::WatchEvent::Ended).is_none());
}

#[test]
fn pay_invoice_success_notifies_outgoing() {
    let call = BackendCall::PayInvoice { invoice: text("lnbc1abc"), amount_msat: Some(2500) };
    let outcome = BackendOutcome::Payment {
        success: true,
        preimage_hex: text(&"55".repeat(32)),
        payment_hash_hex: text(&"66".repeat(32)),
        amount_msat: 2500,
        fee_msat: 3,
    };
    let (result, follow) = apply_outcome(&call, &outcome, 1700000500);
    match result.unwrap() {
        NwcResponse::PayInvoice(p) => {
            assert_eq!(p.preimage, text(&"55".repeat(32)));
            assert_eq!(p.fees_paid_msat, 3);
        },
        _ => panic!("wrong result variant"),
    }
    match follow {
        FollowUp::Notify(n) => {
            assert!(!n.incoming);
            assert_eq!(n.settled_at, 1700000500);
        },
        _ => panic!("a settled payment pushes an outgoing notification"),
    }
}

#[test]
fn failed_payment_is_an_error_with_no_notification() {
    let call = BackendCall::PayInvoice { invoice: text("lnbc1abc"), amount_msat: None };
    let outcome = BackendOutcome::Payment {
        success: false,
        preimage_hex: text(""),
        payment_hash_hex: text(""),
        amount_msat: 0,
        fee_msat: 0,
    };
    let (result, follow) = apply_outcome(&call, &outcome, 7);
    assert_eq!(result.unwrap_err(), NwcError::BackendUnavailable);
    assert!(matches!(follow, FollowUp::Nothing));
}

#[test]
fn backend_timeout_and_outage_map_to_their_errors() {
    let call = BackendCall::GetBalance;
    let (r1, _) = apply_outcome(&call, &BackendOutcome::TimedOut, 0);
    assert_eq!(r1.unwrap_err(), NwcError::Timeout);
    let (r2, _) = apply_outcome(&call, &BackendOutcome::Unavailable, 0);
    assert_eq!(r2.unwrap_err(), NwcError::BackendUnavailable);
    let (r3, _) = apply_outcome(&call, &BackendOutcome::Balance { confirmed_msat: 123 }, 0);
    match r3.unwrap() {
        NwcResponse::GetBalance(b) => assert_eq!(b.balance, 123),
        _ => panic!("wrong result variant"),
    }
}

#[test]
fn keysend_empty_backend_preimage_falls_back_to_planned_one() {
    let pubkey = format!("02{}", "00".repeat(32));
    let req = keysend_request(&pubkey, 9, "");
    let call = match plan(&req) {
        DispatchPlan::Call(c) => c,
        _ => panic!("expected a backend call"),
    };
    let planned_preimage_hex = match &call {
        BackendCall::PayKeysend(k) => lnd_nwc::hexstr::buffer_as_hex(k.preimage.clone()),
        _ => unreachable!(),
    };
    let outcome = BackendOutcome::Payment {
        success: true,
        preimage_hex: Vec::new(),
        payment_hash_hex: text(&"77".repeat(32)),
        amount_msat: 9,
        fee_msat: 0,
    };
    let (result, _) = apply_outcome(&call, &outcome, 0);
    match result.unwrap() {
        NwcResponse::PayKeysend(p) => {
            let got: String = p.preimage.iter().collect();
            assert_eq!(got, planned_preimage_hex);
        },
        _ => panic!("wrong result variant"),
    }
}
