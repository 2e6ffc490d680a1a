use lnd_nwc::nwc_types::{NwcError, NwcRequest, NwcResponse, GetBalanceResult, GetInfoResult};

fn text(s: &str) -> Vec<char> {
    s.chars().collect()
}

#[test]
fn decodes_get_info_request() {
    let req = NwcRequest::from_value("{\"method\":\"get_info\",\"params\":{}}").unwrap();
    assert!(matches!(req, NwcRequest::GetInfo(_)));
}

#[test]
fn decodes_get_balance_without_params() {
    let req = NwcRequest::from_value("{\"method\":\"get_balance\"}").unwrap();
    assert!(matches!(req, NwcRequest::GetBalance(_)));
}

#[test]
fn decodes_pay_invoice_with_amount() {
    let req = NwcRequest::from_value(
        "{\"method\":\"pay_invoice\",\"params\":{\"invoice\":\"lnbc1abc\",\"amount_msat\":2500}}",
    )
    .unwrap();
    match req {
        NwcRequest::PayInvoice(p) => {
            assert_eq!(p.invoice, text("lnbc1abc"));
            assert_eq!(p.amount_msat, Some(2500));
        },
        _ => panic!("wrong variant"),
    }
}

#[test]
fn decodes_pay_keysend_with_tlv_records() {
    let req = NwcRequest::from_value(
        "{\"method\":\"pay_keysend\",\"params\":{\"pubkey\":\"02abcd\",\"amount_msat\":1000,\
         \"tlv_records\":[{\"type\":7000,\"value\":\"beef\"}]}}",
    )
    .unwrap();
    match req {
        NwcRequest::PayKeysend(k) => {
            assert_eq!(k.pubkey, text("02abcd"));
            assert_eq!(k.amount_msat, 1000);
            assert!(k.preimage.is_none());
            assert_eq!(k.tlv_records.len(), 1);
            assert_eq!(k.tlv_records[0].tlv_type, 7000);
            assert_eq!(k.tlv_records[0].value, text("beef"));
        },
        _ => panic!("wrong variant"),
    }
}

#[test]
fn decodes_make_invoice_with_description() {
    let req = NwcRequest::from_value(
        "{\"method\":\"make_invoice\",\"params\":{\"amount_msat\":50000,\"description\":\"coffee\"}}",
    )
    .unwrap();
    match req {
        NwcRequest::MakeInvoice(m) => {
            assert_eq!(m.amount_msat, 50000);
            assert_eq!(m.description, Some(text("coffee")));
            assert!(m.description_hash.is_none());
            assert!(m.expiry.is_none());
        },
        _ => panic!("wrong variant"),
    }
}

#[test]
fn lookup_requires_exactly_one_selector() {
    let both = NwcRequest::from_value(
        "{\"method\":\"lookup_invoice\",\"params\":{\"payment_hash\":\"aa\",\"invoice\":\"lnbc1\"}}",
    );
    assert_eq!(both.unwrap_err(), NwcError::ValidationFailed);
    let neither = NwcRequest::from_value("{\"method\":\"lookup_invoice\",\"params\":{}}");
    assert_eq!(neither.unwrap_err(), NwcError::ValidationFailed);
    let one = NwcRequest::from_value(
        "{\"method\":\"lookup_invoice\",\"params\":{\"payment_hash\":\"aa\"}}",
    )
    .unwrap();
    assert!(matches!(one, NwcRequest::LookupInvoice(_)));
}

#[test]
fn unknown_method_is_its_own_error() {
    let e = NwcRequest::from_value("{\"method\":\"multi_pay_invoice\",\"params\":{}}");
    assert_eq!(e.unwrap_err(), NwcError::UnknownMethod);
}

#[test]
fn malformed_payloads_are_rejected() {
    assert_eq!(NwcRequest::from_value("").unwrap_err(), NwcError::Malformed);
    assert_eq!(NwcRequest::from_value("not json").unwrap_err(), NwcError::Malformed);
    assert_eq!(NwcRequest::from_value("{\"params\":{}}").unwrap_err(), NwcError::Malformed);
    assert_eq!(
        NwcRequest::from_value("{\"method\":\"pay_invoice\",\"params\":{}}").unwrap_err(),
        NwcError::Malformed
    );
    assert_eq!(
        NwcRequest::from_value("{\"method\":\"make_invoice\",\"params\":{\"amount_msat\":-3}}")
            .unwrap_err(),
        NwcError::Malformed
    );
    // Fractions are not protocol numbers.
    assert_eq!(
        NwcRequest::from_value("{\"method\":\"make_invoice\",\"params\":{\"amount_msat\":1.5}}")
            .unwrap_err(),
        NwcError::Malformed
    );
}

#[test]
fn whitespace_and_escapes_are_accepted() {
    let req = NwcRequest::from_value(
        "{ \"method\" : \"make_invoice\" ,\n \"params\" : { \"amount_msat\" : 1 , \
         \"description\" : \"a \\\"b\\\" \\n c\" } }",
    )
    .unwrap();
    match req {
        NwcRequest::MakeInvoice(m) => {
            assert_eq!(m.description, Some(text("a \"b\" \n c")));
        },
        _ => panic!("wrong variant"),
    }
}

#[test]
fn encodes_get_balance_result_exactly() {
    let resp = NwcResponse::GetBalance(GetBalanceResult { balance: 21000 });
    let s = resp.to_event_content().unwrap();
    assert_eq!(s, "{\"result_type\":\"get_balance\",\"result\":{\"balance\":21000}}");
}

#[test]
fn encodes_negative_balance() {
    let resp = NwcResponse::GetBalance(GetBalanceResult { balance: -7 });
    let s = resp.to_event_content().unwrap();
    assert_eq!(s, "{\"result_type\":\"get_balance\",\"result\":{\"balance\":-7}}");
}

#[test]
fn encodes_get_info_result_exactly() {
    let resp = NwcResponse::GetInfo(GetInfoResult {
        methods: vec!["get_info".to_string(), "get_balance".to_string()],
    });
    let s = resp.to_event_content().unwrap();
    assert_eq!(
        s,
        "{\"result_type\":\"get_info\",\"result\":{\"methods\":[\"get_info\",\"get_balance\"]}}"
    );
}

#[test]
fn encodes_error_envelope_exactly() {
    let s = lnd_nwc::nwc_types::error_event_content("pay_invoice", &NwcError::UnknownMethod);
    assert_eq!(
        s,
        "{\"result_type\":\"pay_invoice\",\"error\":{\"code\":\"NOT_IMPLEMENTED\",\
         \"message\":\"method not supported\"}}"
    );
}

#[test]
fn error_codes_cover_every_variant() {
    assert_eq!(NwcError::Malformed.code(), "OTHER");
    assert_eq!(NwcError::UnknownMethod.code(), "NOT_IMPLEMENTED");
    assert_eq!(NwcError::ValidationFailed.code(), "OTHER");
    assert_eq!(NwcError::BackendUnavailable.code(), "INTERNAL");
    assert_eq!(NwcError::Timeout.code(), "INTERNAL");
}

#[test]
fn result_types_follow_the_variant() {
    let responses = NwcResponse::default_responses();
    let names: Vec<&str> = responses.iter().map(|r| r.result_type()).collect();
    assert_eq!(
        names,
        vec![
            "get_info",
            "get_balance",
            "pay_invoice",
            "pay_keysend",
            "make_invoice",
            "lookup_invoice"
        ]
    );
}

#[test]
fn buffer_as_hex_matches_known_bytes() {
    assert_eq!(lnd_nwc::hexstr::buffer_as_hex(vec![0xbe, 0xef, 0x00, 0x0a]), "beef000a");
    assert_eq!(lnd_nwc::hexstr::buffer_as_hex(vec![]), "");
}
