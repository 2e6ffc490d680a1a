//! Typed commands and results of the wallet protocol, with the decoder
//! from decrypted request payloads and the encoder to result envelopes.

use vstd::prelude::*;

use crate::json::{Json, JsonV, obj_get, obj_view, arr_view, text_of};
use crate::parse::{parse_doc, parse_doc_x};
use crate::strops::chars_of;

verus! {

/// Everything that can go wrong between a decrypted payload and a result:
/// decode failures and dispatch failures share one taxonomy, and each is
/// answered with the protocol's error envelope.
#[derive(Clone, Copy, Debug, PartialEq, Eq, Structural)]
pub enum NwcError {
    /// The payload is not a request of the wire grammar.
    Malformed,
    /// The method name is none of the supported commands.
    UnknownMethod,
    /// Well-formed params that fail a semantic rule (a key of the wrong
    /// length, both or neither lookup selectors).
    ValidationFailed,
    /// The payment backend is unreachable or rejected the operation.
    BackendUnavailable,
    /// The payment backend did not finish within the bounded wait.
    Timeout,
}

impl NwcError {
    /// The protocol error code for this failure.
    pub fn code(&self) -> (r: &'static str)
        ensures
            r@ == self.code_v(),
    {
        match self {
            NwcError::Malformed => "OTHER",
            NwcError::UnknownMethod => "NOT_IMPLEMENTED",
            NwcError::ValidationFailed => "OTHER",
            NwcError::BackendUnavailable => "INTERNAL",
            NwcError::Timeout => "INTERNAL",
        }
    }

    pub open spec fn code_v(&self) -> Seq<char> {
        match self {
            NwcError::Malformed => "OTHER"@,
            NwcError::UnknownMethod => "NOT_IMPLEMENTED"@,
            NwcError::ValidationFailed => "OTHER"@,
            NwcError::BackendUnavailable => "INTERNAL"@,
            NwcError::Timeout => "INTERNAL"@,
        }
    }
}

// ------------------------------------------------------------------
// Requests
// ------------------------------------------------------------------
#[derive(Debug)]
pub struct GetInfoRequest {}

#[derive(Debug)]
pub struct GetBalanceRequest {}

#[derive(Debug)]
pub struct PayInvoiceRequest {
    pub invoice: Vec<char>,
    pub amount_msat: Option<u64>,
}

#[derive(Debug)]
pub struct TlvRecord {
    pub tlv_type: u64,
    pub value: Vec<char>,
}

#[derive(Debug)]
pub struct PayKeysendRequest {
    pub pubkey: Vec<char>,
    pub amount_msat: u64,
    pub preimage: Option<Vec<char>>,
    pub tlv_records: Vec<TlvRecord>,
}

#[derive(Debug)]
pub struct MakeInvoiceRequest {
    pub amount_msat: u64,
    pub description: Option<Vec<char>>,
    pub description_hash: Option<Vec<char>>,
    pub expiry: Option<u64>,
}

#[derive(Debug)]
pub struct LookupInvoiceRequest {
    pub payment_hash: Option<Vec<char>>,
    pub invoice: Option<Vec<char>>,
}

#[derive(Debug)]
pub enum NwcRequest {
    GetInfo(GetInfoRequest),
    GetBalance(GetBalanceRequest),
    PayInvoice(PayInvoiceRequest),
    PayKeysend(PayKeysendRequest),
    MakeInvoice(MakeInvoiceRequest),
    LookupInvoice(LookupInvoiceRequest),
}

/// Mathematical twins of the request types.
pub struct TlvRecordV {
    pub tlv_type: u64,
    pub value: Seq<char>,
}

pub enum RequestV {
    GetInfo,
    GetBalance,
    PayInvoice { invoice: Seq<char>, amount_msat: Option<u64> },
    PayKeysend {
        pubkey: Seq<char>,
        amount_msat: u64,
        preimage: Option<Seq<char>>,
        tlv_records: Seq<TlvRecordV>,
    },
    MakeInvoice {
        amount_msat: u64,
        description: Option<Seq<char>>,
        description_hash: Option<Seq<char>>,
        expiry: Option<u64>,
    },
    LookupInvoice { payment_hash: Option<Seq<char>>, invoice: Option<Seq<char>> },
}

pub open spec fn opt_chars_view(v: Option<Vec<char>>) -> Option<Seq<char>> {
    match v {
        Option::None => Option::None,
        Option::Some(t) => Option::Some(t@),
    }
}

impl View for TlvRecord {
    type V = TlvRecordV;

    open spec fn view(&self) -> TlvRecordV {
        TlvRecordV { tlv_type: self.tlv_type, value: self.value@ }
    }
}

pub open spec fn tlv_view(records: Seq<TlvRecord>) -> Seq<TlvRecordV> {
    Seq::new(
        records.len(),
        |i: int|
            if 0 <= i < records.len() {
                records[i]@
            } else {
                TlvRecordV { tlv_type: 0, value: Seq::empty() }
            },
    )
}

impl View for NwcRequest {
    type V = RequestV;

    open spec fn view(&self) -> RequestV {
        match self {
            NwcRequest::GetInfo(_) => RequestV::GetInfo,
            NwcRequest::GetBalance(_) => RequestV::GetBalance,
            NwcRequest::PayInvoice(p) => RequestV::PayInvoice {
                invoice: p.invoice@,
                amount_msat: p.amount_msat,
            },
            NwcRequest::PayKeysend(p) => RequestV::PayKeysend {
                pubkey: p.pubkey@,
                amount_msat: p.amount_msat,
                preimage: opt_chars_view(p.preimage),
                tlv_records: tlv_view(p.tlv_records@),
            },
            NwcRequest::MakeInvoice(p) => RequestV::MakeInvoice {
                amount_msat: p.amount_msat,
                description: opt_chars_view(p.description),
                description_hash: opt_chars_view(p.description_hash),
                expiry: p.expiry,
            },
            NwcRequest::LookupInvoice(p) => RequestV::LookupInvoice {
                payment_hash: opt_chars_view(p.payment_hash),
                invoice: opt_chars_view(p.invoice),
            },
        }
    }
}

// ------------------------------------------------------------------
// Field extraction from a parsed params object
// ------------------------------------------------------------------
/// Optional text field: absent or `null` is `None`; any other non-text
/// value is malformed.
pub open spec fn opt_text(fields: Seq<(Seq<char>, JsonV)>, key: Seq<char>) -> Result<
    Option<Seq<char>>,
    NwcError,
> {
    match obj_get(fields, key) {
        Option::None => Result::Ok(Option::None),
        Option::Some(JsonV::Null) => Result::Ok(Option::None),
        Option::Some(JsonV::Text(t)) => Result::Ok(Option::Some(t)),
        Option::Some(_) => Result::Err(NwcError::Malformed),
    }
}

/// Optional non-negative integer field.
pub open spec fn opt_uint(fields: Seq<(Seq<char>, JsonV)>, key: Seq<char>) -> Result<
    Option<u64>,
    NwcError,
> {
    match obj_get(fields, key) {
        Option::None => Result::Ok(Option::None),
        Option::Some(JsonV::Null) => Result::Ok(Option::None),
        Option::Some(JsonV::Int(n)) => if n >= 0 {
            Result::Ok(Option::Some(n as u64))
        } else {
            Result::Err(NwcError::Malformed)
        },
        Option::Some(_) => Result::Err(NwcError::Malformed),
    }
}

/// Required text field.
pub open spec fn req_text(fields: Seq<(Seq<char>, JsonV)>, key: Seq<char>) -> Result<
    Seq<char>,
    NwcError,
> {
    match opt_text(fields, key) {
        Result::Err(e) => Result::Err(e),
        Result::Ok(Option::None) => Result::Err(NwcError::Malformed),
        Result::Ok(Option::Some(t)) => Result::Ok(t),
    }
}

/// Required non-negative integer field.
pub open spec fn req_uint(fields: Seq<(Seq<char>, JsonV)>, key: Seq<char>) -> Result<
    u64,
    NwcError,
> {
    match opt_uint(fields, key) {
        Result::Err(e) => Result::Err(e),
        Result::Ok(Option::None) => Result::Err(NwcError::Malformed),
        Result::Ok(Option::Some(n)) => Result::Ok(n),
    }
}

/// One keysend custom record: an object with a non-negative `type` and a
/// text `value`.
pub open spec fn tlv_one(v: JsonV) -> Result<TlvRecordV, NwcError> {
    match v {
        JsonV::Obj(f) => match req_uint(f, "type"@) {
            Result::Err(e) => Result::Err(e),
            Result::Ok(t) => match req_text(f, "value"@) {
                Result::Err(e) => Result::Err(e),
                Result::Ok(val) => Result::Ok(TlvRecordV { tlv_type: t, value: val }),
            },
        },
        _ => Result::Err(NwcError::Malformed),
    }
}

pub open spec fn tlv_list_from(items: Seq<JsonV>, i: int) -> Result<Seq<TlvRecordV>, NwcError>
    decreases items.len() - i,
{
    if i < 0 || i >= items.len() {
        Result::Ok(Seq::empty())
    } else {
        match tlv_one(items[i]) {
            Result::Err(e) => Result::Err(e),
            Result::Ok(t) => match tlv_list_from(items, i + 1) {
                Result::Err(e) => Result::Err(e),
                Result::Ok(rest) => Result::Ok(seq![t] + rest),
            },
        }
    }
}

/// The `tlv_records` field: absent means no records.
pub open spec fn opt_tlvs(fields: Seq<(Seq<char>, JsonV)>, key: Seq<char>) -> Result<
    Seq<TlvRecordV>,
    NwcError,
> {
    match obj_get(fields, key) {
        Option::None => Result::Ok(Seq::empty()),
        Option::Some(JsonV::Null) => Result::Ok(Seq::empty()),
        Option::Some(JsonV::Arr(items)) => tlv_list_from(items, 0),
        Option::Some(_) => Result::Err(NwcError::Malformed),
    }
}

// ------------------------------------------------------------------
// The decoder specification
// ------------------------------------------------------------------
/// The params object of a request: absent or `null` means empty.
pub open spec fn params_of(fields: Seq<(Seq<char>, JsonV)>) -> Result<
    Seq<(Seq<char>, JsonV)>,
    NwcError,
> {
    match obj_get(fields, "params"@) {
        Option::None => Result::Ok(Seq::empty()),
        Option::Some(JsonV::Null) => Result::Ok(Seq::empty()),
        Option::Some(JsonV::Obj(p)) => Result::Ok(p),
        Option::Some(_) => Result::Err(NwcError::Malformed),
    }
}

pub open spec fn decode_pay_invoice(p: Seq<(Seq<char>, JsonV)>) -> Result<RequestV, NwcError> {
    match req_text(p, "invoice"@) {
        Result::Err(e) => Result::Err(e),
        Result::Ok(invoice) => match opt_uint(p, "amount_msat"@) {
            Result::Err(e) => Result::Err(e),
            Result::Ok(amount) => Result::Ok(
                RequestV::PayInvoice { invoice, amount_msat: amount },
            ),
        },
    }
}

pub open spec fn decode_pay_keysend(p: Seq<(Seq<char>, JsonV)>) -> Result<RequestV, NwcError> {
    match req_text(p, "pubkey"@) {
        Result::Err(e) => Result::Err(e),
        Result::Ok(pubkey) => match req_uint(p, "amount_msat"@) {
            Result::Err(e) => Result::Err(e),
            Result::Ok(amount) => match opt_text(p, "preimage"@) {
                Result::Err(e) => Result::Err(e),
                Result::Ok(preimage) => match opt_tlvs(p, "tlv_records"@) {
                    Result::Err(e) => Result::Err(e),
                    Result::Ok(tlvs) => Result::Ok(
                        RequestV::PayKeysend {
                            pubkey,
                            amount_msat: amount,
                            preimage,
                            tlv_records: tlvs,
                        },
                    ),
                },
            },
        },
    }
}

pub open spec fn decode_make_invoice(p: Seq<(Seq<char>, JsonV)>) -> Result<RequestV, NwcError> {
    match req_uint(p, "amount_msat"@) {
        Result::Err(e) => Result::Err(e),
        Result::Ok(amount) => match opt_text(p, "description"@) {
            Result::Err(e) => Result::Err(e),
            Result::Ok(description) => match opt_text(p, "description_hash"@) {
                Result::Err(e) => Result::Err(e),
                Result::Ok(description_hash) => match opt_uint(p, "expiry"@) {
                    Result::Err(e) => Result::Err(e),
                    Result::Ok(expiry) => Result::Ok(
                        RequestV::MakeInvoice {
                            amount_msat: amount,
                            description,
                            description_hash,
                            expiry,
                        },
                    ),
                },
            },
        },
    }
}

pub open spec fn decode_lookup_invoice(p: Seq<(Seq<char>, JsonV)>) -> Result<RequestV, NwcError> {
    match opt_text(p, "payment_hash"@) {
        Result::Err(e) => Result::Err(e),
        Result::Ok(hash) => match opt_text(p, "invoice"@) {
            Result::Err(e) => Result::Err(e),
            Result::Ok(invoice) => if (hash is Some) != (invoice is Some) {
                Result::Ok(RequestV::LookupInvoice { payment_hash: hash, invoice })
            } else {
                Result::Err(NwcError::ValidationFailed)
            },
        },
    }
}

/// The decoded command of a parsed request object.
pub open spec fn decode_fields(fields: Seq<(Seq<char>, JsonV)>) -> Result<RequestV, NwcError> {
    match obj_get(fields, "method"@) {
        Option::Some(JsonV::Text(m)) => {
            if m == "get_info"@ {
                Result::Ok(RequestV::GetInfo)
            } else if m == "get_balance"@ {
                Result::Ok(RequestV::GetBalance)
            } else if m == "pay_invoice"@ || m == "pay_keysend"@ || m == "make_invoice"@ || m
                == "lookup_invoice"@ {
                match params_of(fields) {
                    Result::Err(e) => Result::Err(e),
                    Result::Ok(p) => {
                        if m == "pay_invoice"@ {
                            decode_pay_invoice(p)
                        } else if m == "pay_keysend"@ {
                            decode_pay_keysend(p)
                        } else if m == "make_invoice"@ {
                            decode_make_invoice(p)
                        } else {
                            decode_lookup_invoice(p)
                        }
                    },
                }
            } else {
                Result::Err(NwcError::UnknownMethod)
            }
        },
        _ => Result::Err(NwcError::Malformed),
    }
}

/// The command denoted by a decrypted payload: the whole decode pipeline.
pub open spec fn request_of(s: Seq<char>) -> Result<RequestV, NwcError> {
    match parse_doc(s) {
        Option::None => Result::Err(NwcError::Malformed),
        Option::Some(fields) => decode_fields(fields),
    }
}

// ------------------------------------------------------------------
// The executable decoder
// ------------------------------------------------------------------
/// Compares a parsed text with a string slice, character by character.
pub fn chars_eq_str(v: &Vec<char>, s: &str) -> (r: bool)
    ensures
        r == (v@ == s@),
{
    let n = s.unicode_len();
    if v.len() != n {
        return false;
    }
    let mut i: usize = 0;
    while i < n
        invariant
            n == s@.len(),
            v@.len() == n,
            i <= n,
            forall|j: int| 0 <= j < i ==> v@[j] == s@[j],
        decreases n - i,
    {
        if v[i] != s.get_char(i) {
            return false;
        }
        i = i + 1;
    }
    proof {
        assert(v@ =~= s@);
    }
    true
}

/// Copies a character vector.
pub fn copy_chars(v: &Vec<char>) -> (r: Vec<char>)
    ensures
        r@ == v@,
{
    let mut out: Vec<char> = Vec::new();
    let mut i: usize = 0;
    while i < v.len()
        invariant
            i <= v@.len(),
            out@ == v@.subrange(0, i as int),
        decreases v@.len() - i,
    {
        out.push(v[i]);
        i = i + 1;
        proof {
            assert(out@ =~= v@.subrange(0, i as int));
        }
    }
    proof {
        assert(out@ =~= v@);
    }
    out
}

/// First value under this key in a parsed object.
pub fn get_field<'a>(fields: &'a Vec<(Vec<char>, Json)>, key: &str) -> (r: Option<&'a Json>)
    ensures
        match r {
            Option::Some(v) => obj_get(obj_view(fields@), key@) == Option::Some(v@),
            Option::None => obj_get(obj_view(fields@), key@) is None,
        },
{
    let mut i: usize = 0;
    proof {
        assert(obj_view(fields@).skip(0) =~= obj_view(fields@));
    }
    while i < fields.len()
        invariant
            i <= fields@.len(),
            obj_get(obj_view(fields@), key@) == obj_get(
                obj_view(fields@).skip(i as int),
                key@,
            ),
        decreases fields@.len() - i,
    {
        if chars_eq_str(&fields[i].0, key) {
            proof {
                assert(obj_view(fields@).skip(i as int).first() == (
                    fields@[i as int].0@,
                    fields@[i as int].1@,
                ));
            }
            return Some(&fields[i].1);
        }
        proof {
            assert(obj_view(fields@).skip(i as int).first() == (
                fields@[i as int].0@,
                fields@[i as int].1@,
            ));
            assert(obj_view(fields@).skip(i as int).drop_first() =~= obj_view(fields@).skip(
                i as int + 1,
            ));
        }
        i = i + 1;
    }
    proof {
        assert(obj_view(fields@).skip(fields@.len() as int) =~= Seq::<
            (Seq<char>, JsonV),
        >::empty());
    }
    None
}

fn opt_text_x(fields: &Vec<(Vec<char>, Json)>, key: &str) -> (r: Result<
    Option<Vec<char>>,
    NwcError,
>)
    ensures
        match (r, opt_text(obj_view(fields@), key@)) {
            (Result::Ok(a), Result::Ok(b)) => opt_chars_view(a) == b,
            (Result::Err(e1), Result::Err(e2)) => e1 == e2,
            _ => false,
        },
{
    match get_field(fields, key) {
        None => Ok(None),
        Some(v) => match v {
            Json::Null => Ok(None),
            Json::Text(t) => Ok(Some(copy_chars(t))),
            _ => Err(NwcError::Malformed),
        },
    }
}

fn opt_uint_x(fields: &Vec<(Vec<char>, Json)>, key: &str) -> (r: Result<Option<u64>, NwcError>)
    ensures
        match (r, opt_uint(obj_view(fields@), key@)) {
            (Result::Ok(a), Result::Ok(b)) => a == b,
            (Result::Err(e1), Result::Err(e2)) => e1 == e2,
            _ => false,
        },
{
    match get_field(fields, key) {
        None => Ok(None),
        Some(v) => match v {
            Json::Null => Ok(None),
            Json::Int(n) => if *n >= 0 {
                Ok(Some(*n as u64))
            } else {
                Err(NwcError::Malformed)
            },
            _ => Err(NwcError::Malformed),
        },
    }
}

fn req_text_x(fields: &Vec<(Vec<char>, Json)>, key: &str) -> (r: Result<Vec<char>, NwcError>)
    ensures
        match (r, req_text(obj_view(fields@), key@)) {
            (Result::Ok(a), Result::Ok(b)) => a@ == b,
            (Result::Err(e1), Result::Err(e2)) => e1 == e2,
            _ => false,
        },
{
    match opt_text_x(fields, key) {
        Err(e) => Err(e),
        Ok(None) => Err(NwcError::Malformed),
        Ok(Some(t)) => Ok(t),
    }
}

fn req_uint_x(fields: &Vec<(Vec<char>, Json)>, key: &str) -> (r: Result<u64, NwcError>)
    ensures
        match (r, req_uint(obj_view(fields@), key@)) {
            (Result::Ok(a), Result::Ok(b)) => a == b,
            (Result::Err(e1), Result::Err(e2)) => e1 == e2,
            _ => false,
        },
{
    match opt_uint_x(fields, key) {
        Err(e) => Err(e),
        Ok(None) => Err(NwcError::Malformed),
        Ok(Some(n)) => Ok(n),
    }
}

fn tlv_one_x(v: &Json) -> (r: Result<TlvRecord, NwcError>)
    ensures
        match (r, tlv_one(v@)) {
            (Result::Ok(a), Result::Ok(b)) => a@ == b,
            (Result::Err(e1), Result::Err(e2)) => e1 == e2,
            _ => false,
        },
{
    match v {
        Json::Obj(f) => match req_uint_x(f, "type") {
            Err(e) => Err(e),
            Ok(t) => match req_text_x(f, "value") {
                Err(e) => Err(e),
                Ok(val) => Ok(TlvRecord { tlv_type: t, value: val }),
            },
        },
        _ => Err(NwcError::Malformed),
    }
}

fn tlv_list_x(items: &Vec<Json>, i: usize) -> (r: Result<Vec<TlvRecord>, NwcError>)
    requires
        i <= items@.len(),
    ensures
        match (r, tlv_list_from(arr_view(items@), i as int)) {
            (Result::Ok(a), Result::Ok(b)) => tlv_view(a@) == b,
            (Result::Err(e1), Result::Err(e2)) => e1 == e2,
            _ => false,
        },
    decreases items@.len() - i,
{
    if i >= items.len() {
        let out: Vec<TlvRecord> = Vec::new();
        proof {
            assert(tlv_view(out@) =~= Seq::<TlvRecordV>::empty());
        }
        return Ok(out);
    }
    match tlv_one_x(&items[i]) {
        Err(e) => Err(e),
        Ok(t) => match tlv_list_x(items, i + 1) {
            Err(e) => Err(e),
            Ok(rest) => {
                let mut out = rest;
                out.insert(0, t);
                proof {
                    let b = tlv_list_from(arr_view(items@), i as int)->Ok_0;
                    assert(tlv_view(out@) =~= b);
                }
                Ok(out)
            },
        },
    }
}

fn opt_tlvs_x(fields: &Vec<(Vec<char>, Json)>, key: &str) -> (r: Result<Vec<TlvRecord>, NwcError>)
    ensures
        match (r, opt_tlvs(obj_view(fields@), key@)) {
            (Result::Ok(a), Result::Ok(b)) => tlv_view(a@) == b,
            (Result::Err(e1), Result::Err(e2)) => e1 == e2,
            _ => false,
        },
{
    match get_field(fields, key) {
        None => {
            let out: Vec<TlvRecord> = Vec::new();
            proof {
                assert(tlv_view(out@) =~= Seq::<TlvRecordV>::empty());
            }
            Ok(out)
        },
        Some(v) => match v {
            Json::Null => {
                let out: Vec<TlvRecord> = Vec::new();
                proof {
                    assert(tlv_view(out@) =~= Seq::<TlvRecordV>::empty());
                }
                Ok(out)
            },
            Json::Arr(items) => tlv_list_x(items, 0),
            _ => Err(NwcError::Malformed),
        },
    }
}

pub open spec fn method_name_v(r: RequestV) -> Seq<char> {
    match r {
        RequestV::GetInfo => "get_info"@,
        RequestV::GetBalance => "get_balance"@,
        RequestV::PayInvoice { .. } => "pay_invoice"@,
        RequestV::PayKeysend { .. } => "pay_keysend"@,
        RequestV::MakeInvoice { .. } => "make_invoice"@,
        RequestV::LookupInvoice { .. } => "lookup_invoice"@,
    }
}

impl NwcRequest {
    /// The method this command was requested under, for the result
    /// envelope answering it.
    pub fn method_name(&self) -> (r: &'static str)
        ensures
            r@ == method_name_v(self@),
    {
        match self {
            NwcRequest::GetInfo(_) => "get_info",
            NwcRequest::GetBalance(_) => "get_balance",
            NwcRequest::PayInvoice(_) => "pay_invoice",
            NwcRequest::PayKeysend(_) => "pay_keysend",
            NwcRequest::MakeInvoice(_) => "make_invoice",
            NwcRequest::LookupInvoice(_) => "lookup_invoice",
        }
    }

    /// Decodes one decrypted payload into a typed command; the result is
    /// exactly what the decode specification says of the text.
    pub fn from_value(value: &str) -> (r: Result<Self, NwcError>)
        ensures
            match (r, request_of(value@)) {
                (Result::Ok(req), Result::Ok(rv)) => req@ == rv,
                (Result::Err(e1), Result::Err(e2)) => e1 == e2,
                _ => false,
            },
    {
        let chars = chars_of(value);
        let fields = match parse_doc_x(&chars) {
            None => {
                return Err(NwcError::Malformed);
            },
            Some(f) => f,
        };
        let m = match get_field(&fields, "method") {
            Some(v) => match v {
                Json::Text(m) => copy_chars(m),
                _ => {
                    return Err(NwcError::Malformed);
                },
            },
            None => {
                return Err(NwcError::Malformed);
            },
        };
        if chars_eq_str(&m, "get_info") {
            return Ok(NwcRequest::GetInfo(GetInfoRequest {  }));
        }
        if chars_eq_str(&m, "get_balance") {
            return Ok(NwcRequest::GetBalance(GetBalanceRequest {  }));
        }
        if !(chars_eq_str(&m, "pay_invoice") || chars_eq_str(&m, "pay_keysend") || chars_eq_str(
            &m,
            "make_invoice",
        ) || chars_eq_str(&m, "lookup_invoice")) {
            return Err(NwcError::UnknownMethod);
        }
        let empty_params: Vec<(Vec<char>, Json)> = Vec::new();
        let p: &Vec<(Vec<char>, Json)> = match get_field(&fields, "params") {
            None => &empty_params,
            Some(v) => match v {
                Json::Null => &empty_params,
                Json::Obj(pf) => pf,
                _ => {
                    return Err(NwcError::Malformed);
                },
            },
        };
        proof {
            assert(obj_view(empty_params@) =~= Seq::<(Seq<char>, JsonV)>::empty());
        }
        if chars_eq_str(&m, "pay_invoice") {
            decode_pay_invoice_x(p)
        } else if chars_eq_str(&m, "pay_keysend") {
            decode_pay_keysend_x(p)
        } else if chars_eq_str(&m, "make_invoice") {
            decode_make_invoice_x(p)
        } else {
            decode_lookup_invoice_x(p)
        }
    }
}

fn decode_pay_invoice_x(p: &Vec<(Vec<char>, Json)>) -> (r: Result<NwcRequest, NwcError>)
    ensures
        match (r, decode_pay_invoice(obj_view(p@))) {
            (Result::Ok(req), Result::Ok(rv)) => req@ == rv,
            (Result::Err(e1), Result::Err(e2)) => e1 == e2,
            _ => false,
        },
{
    match req_text_x(p, "invoice") {
        Err(e) => Err(e),
        Ok(invoice) => match opt_uint_x(p, "amount_msat") {
            Err(e) => Err(e),
            Ok(amount) => Ok(
                NwcRequest::PayInvoice(PayInvoiceRequest { invoice, amount_msat: amount }),
            ),
        },
    }
}

fn decode_pay_keysend_x(p: &Vec<(Vec<char>, Json)>) -> (r: Result<NwcRequest, NwcError>)
    ensures
        match (r, decode_pay_keysend(obj_view(p@))) {
            (Result::Ok(req), Result::Ok(rv)) => req@ == rv,
            (Result::Err(e1), Result::Err(e2)) => e1 == e2,
            _ => false,
        },
{
    match req_text_x(p, "pubkey") {
        Err(e) => Err(e),
        Ok(pubkey) => match req_uint_x(p, "amount_msat") {
            Err(e) => Err(e),
            Ok(amount) => match opt_text_x(p, "preimage") {
                Err(e) => Err(e),
                Ok(preimage) => match opt_tlvs_x(p, "tlv_records") {
                    Err(e) => Err(e),
                    Ok(tlvs) => Ok(
                        NwcRequest::PayKeysend(
                            PayKeysendRequest {
                                pubkey,
                                amount_msat: amount,
                                preimage,
                                tlv_records: tlvs,
                            },
                        ),
                    ),
                },
            },
        },
    }
}

fn decode_make_invoice_x(p: &Vec<(Vec<char>, Json)>) -> (r: Result<NwcRequest, NwcError>)
    ensures
        match (r, decode_make_invoice(obj_view(p@))) {
            (Result::Ok(req), Result::Ok(rv)) => req@ == rv,
            (Result::Err(e1), Result::Err(e2)) => e1 == e2,
            _ => false,
        },
{
    match req_uint_x(p, "amount_msat") {
        Err(e) => Err(e),
        Ok(amount) => match opt_text_x(p, "description") {
            Err(e) => Err(e),
            Ok(description) => match opt_text_x(p, "description_hash") {
                Err(e) => Err(e),
                Ok(description_hash) => match opt_uint_x(p, "expiry") {
                    Err(e) => Err(e),
                    Ok(expiry) => Ok(
                        NwcRequest::MakeInvoice(
                            MakeInvoiceRequest {
                                amount_msat: amount,
                                description,
                                description_hash,
                                expiry,
                            },
                        ),
                    ),
                },
            },
        },
    }
}

fn decode_lookup_invoice_x(p: &Vec<(Vec<char>, Json)>) -> (r: Result<NwcRequest, NwcError>)
    ensures
        match (r, decode_lookup_invoice(obj_view(p@))) {
            (Result::Ok(req), Result::Ok(rv)) => req@ == rv,
            (Result::Err(e1), Result::Err(e2)) => e1 == e2,
            _ => false,
        },
{
    match opt_text_x(p, "payment_hash") {
        Err(e) => Err(e),
        Ok(hash) => match opt_text_x(p, "invoice") {
            Err(e) => Err(e),
            Ok(invoice) => {
                if hash.is_some() != invoice.is_some() {
                    Ok(
                        NwcRequest::LookupInvoice(
                            LookupInvoiceRequest { payment_hash: hash, invoice },
                        ),
                    )
                } else {
                    Err(NwcError::ValidationFailed)
                }
            },
        },
    }
}


// ------------------------------------------------------------------
// Results and the result envelope
// ------------------------------------------------------------------
/// Settlement state reported for a looked-up invoice.
#[derive(Clone, Copy, Debug, PartialEq, Eq, Structural)]
pub enum InvoiceState {
    Settled,
    Pending,
    Failed,
}

pub open spec fn state_text(s: InvoiceState) -> Seq<char> {
    match s {
        InvoiceState::Settled => "settled"@,
        InvoiceState::Pending => "pending"@,
        InvoiceState::Failed => "failed"@,
    }
}

#[derive(Debug)]
pub struct GetInfoResult {
    pub methods: Vec<String>,
}

#[derive(Debug)]
pub struct GetBalanceResult {
    pub balance: i64,
}

#[derive(Debug)]
pub struct PayInvoiceResult {
    pub preimage: Vec<char>,
    pub fees_paid_msat: u64,
}

#[derive(Debug)]
pub struct PayKeysendResult {
    pub preimage: Vec<char>,
    pub fees_paid_msat: u64,
}

#[derive(Debug)]
pub struct MakeInvoiceResult {
    pub invoice: Vec<char>,
    pub payment_hash: Vec<char>,
    pub amount_msat: u64,
    pub created_at: u64,
    pub expires_at: Option<u64>,
    pub description: Option<Vec<char>>,
}

#[derive(Debug)]
pub struct LookupInvoiceResult {
    pub invoice: Option<Vec<char>>,
    pub payment_hash: Vec<char>,
    pub amount_msat: u64,
    pub fees_paid_msat: u64,
    pub created_at: u64,
    pub settled_at: Option<u64>,
    pub state: InvoiceState,
    pub preimage: Option<Vec<char>>,
}

#[derive(Debug)]
pub enum NwcResponse {
    GetInfo(GetInfoResult),
    GetBalance(GetBalanceResult),
    PayInvoice(PayInvoiceResult),
    PayKeysend(PayKeysendResult),
    MakeInvoice(MakeInvoiceResult),
    LookupInvoice(LookupInvoiceResult),
}

/// Mathematical twins of the result types.
pub struct GetInfoResultV {
    pub methods: Seq<Seq<char>>,
}

pub struct GetBalanceResultV {
    pub balance: i64,
}

pub struct PayResultV {
    pub preimage: Seq<char>,
    pub fees_paid_msat: u64,
}

pub struct MakeInvoiceResultV {
    pub invoice: Seq<char>,
    pub payment_hash: Seq<char>,
    pub amount_msat: u64,
    pub created_at: u64,
    pub expires_at: Option<u64>,
    pub description: Option<Seq<char>>,
}

pub struct LookupInvoiceResultV {
    pub invoice: Option<Seq<char>>,
    pub payment_hash: Seq<char>,
    pub amount_msat: u64,
    pub fees_paid_msat: u64,
    pub created_at: u64,
    pub settled_at: Option<u64>,
    pub state: InvoiceState,
    pub preimage: Option<Seq<char>>,
}

pub enum ResponseV {
    GetInfo(GetInfoResultV),
    GetBalance(GetBalanceResultV),
    PayInvoice(PayResultV),
    PayKeysend(PayResultV),
    MakeInvoice(MakeInvoiceResultV),
    LookupInvoice(LookupInvoiceResultV),
}

impl View for NwcResponse {
    type V = ResponseV;

    open spec fn view(&self) -> ResponseV {
        match self {
            NwcResponse::GetInfo(g) => ResponseV::GetInfo(
                GetInfoResultV { methods: g.methods.deep_view() },
            ),
            NwcResponse::GetBalance(g) => ResponseV::GetBalance(
                GetBalanceResultV { balance: g.balance },
            ),
            NwcResponse::PayInvoice(p) => ResponseV::PayInvoice(
                PayResultV { preimage: p.preimage@, fees_paid_msat: p.fees_paid_msat },
            ),
            NwcResponse::PayKeysend(p) => ResponseV::PayKeysend(
                PayResultV { preimage: p.preimage@, fees_paid_msat: p.fees_paid_msat },
            ),
            NwcResponse::MakeInvoice(m) => ResponseV::MakeInvoice(
                MakeInvoiceResultV {
                    invoice: m.invoice@,
                    payment_hash: m.payment_hash@,
                    amount_msat: m.amount_msat,
                    created_at: m.created_at,
                    expires_at: m.expires_at,
                    description: opt_chars_view(m.description),
                },
            ),
            NwcResponse::LookupInvoice(l) => ResponseV::LookupInvoice(
                LookupInvoiceResultV {
                    invoice: opt_chars_view(l.invoice),
                    payment_hash: l.payment_hash@,
                    amount_msat: l.amount_msat,
                    fees_paid_msat: l.fees_paid_msat,
                    created_at: l.created_at,
                    settled_at: l.settled_at,
                    state: l.state,
                    preimage: opt_chars_view(l.preimage),
                },
            ),
        }
    }
}

pub open spec fn result_type_v(r: ResponseV) -> Seq<char> {
    match r {
        ResponseV::GetInfo(_) => "get_info"@,
        ResponseV::GetBalance(_) => "get_balance"@,
        ResponseV::PayInvoice(_) => "pay_invoice"@,
        ResponseV::PayKeysend(_) => "pay_keysend"@,
        ResponseV::MakeInvoice(_) => "make_invoice"@,
        ResponseV::LookupInvoice(_) => "lookup_invoice"@,
    }
}

/// The six supported commands, in announcement order.
pub open spec fn supported_methods_v() -> Seq<Seq<char>> {
    seq![
        "get_info"@,
        "get_balance"@,
        "pay_invoice"@,
        "pay_keysend"@,
        "make_invoice"@,
        "lookup_invoice"@,
    ]
}

pub open spec fn texts_json(ms: Seq<Seq<char>>) -> Seq<JsonV> {
    Seq::new(ms.len(), |i: int| JsonV::Text(ms[i]))
}

pub open spec fn opt_field(key: Seq<char>, v: Option<JsonV>) -> Seq<(Seq<char>, JsonV)> {
    match v {
        Option::None => Seq::empty(),
        Option::Some(x) => seq![(key, x)],
    }
}

pub open spec fn opt_uint_jv(v: Option<u64>) -> Option<JsonV> {
    match v {
        Option::None => Option::None,
        Option::Some(n) => Option::Some(JsonV::UInt(n)),
    }
}

pub open spec fn opt_text_jv(v: Option<Seq<char>>) -> Option<JsonV> {
    match v {
        Option::None => Option::None,
        Option::Some(s) => Option::Some(JsonV::Text(s)),
    }
}

/// The `result` object of a result envelope.
pub open spec fn body_v(r: ResponseV) -> JsonV {
    match r {
        ResponseV::GetInfo(g) => JsonV::Obj(
            seq![("methods"@, JsonV::Arr(texts_json(g.methods)))],
        ),
        ResponseV::GetBalance(g) => JsonV::Obj(seq![("balance"@, JsonV::Int(g.balance))]),
        ResponseV::PayInvoice(p) => JsonV::Obj(
            seq![
                ("preimage"@, JsonV::Text(p.preimage)),
                ("fees_paid_msat"@, JsonV::UInt(p.fees_paid_msat)),
            ],
        ),
        ResponseV::PayKeysend(p) => JsonV::Obj(
            seq![
                ("preimage"@, JsonV::Text(p.preimage)),
                ("fees_paid_msat"@, JsonV::UInt(p.fees_paid_msat)),
            ],
        ),
        ResponseV::MakeInvoice(m) => JsonV::Obj(
            seq![
                ("invoice"@, JsonV::Text(m.invoice)),
                ("payment_hash"@, JsonV::Text(m.payment_hash)),
                ("amount_msat"@, JsonV::UInt(m.amount_msat)),
                ("created_at"@, JsonV::UInt(m.created_at)),
            ] + opt_field("expires_at"@, opt_uint_jv(m.expires_at)) + opt_field(
                "description"@,
                opt_text_jv(m.description),
            ),
        ),
        ResponseV::LookupInvoice(l) => JsonV::Obj(
            opt_field("invoice"@, opt_text_jv(l.invoice)) + seq![
                ("payment_hash"@, JsonV::Text(l.payment_hash)),
                ("amount_msat"@, JsonV::UInt(l.amount_msat)),
                ("fees_paid_msat"@, JsonV::UInt(l.fees_paid_msat)),
                ("created_at"@, JsonV::UInt(l.created_at)),
            ] + opt_field("settled_at"@, opt_uint_jv(l.settled_at)) + seq![
                ("state"@, JsonV::Text(state_text(l.state))),
            ] + opt_field("preimage"@, opt_text_jv(l.preimage)),
        ),
    }
}

/// A whole success envelope: the result type tag and the result object.
pub open spec fn envelope_v(r: ResponseV) -> JsonV {
    JsonV::Obj(
        seq![("result_type"@, JsonV::Text(result_type_v(r))), ("result"@, body_v(r))],
    )
}

/// A whole error envelope: the result type tag and the error object;
/// `result` and `error` are mutually exclusive by construction.
pub open spec fn error_envelope_v(result_type: Seq<char>, e: NwcError) -> JsonV {
    JsonV::Obj(
        seq![
            ("result_type"@, JsonV::Text(result_type)),
            (
                "error"@,
                JsonV::Obj(
                    seq![
                        ("code"@, JsonV::Text(e.code_v())),
                        ("message"@, JsonV::Text(e.message_v())),
                    ],
                ),
            ),
        ],
    )
}

impl NwcError {
    /// A short human-readable account of the failure.
    pub fn message(&self) -> (r: &'static str)
        ensures
            r@ == self.message_v(),
    {
        match self {
            NwcError::Malformed => "could not decode the request",
            NwcError::UnknownMethod => "method not supported",
            NwcError::ValidationFailed => "invalid parameters",
            NwcError::BackendUnavailable => "payment backend error",
            NwcError::Timeout => "payment backend timeout",
        }
    }

    pub open spec fn message_v(&self) -> Seq<char> {
        match self {
            NwcError::Malformed => "could not decode the request"@,
            NwcError::UnknownMethod => "method not supported"@,
            NwcError::ValidationFailed => "invalid parameters"@,
            NwcError::BackendUnavailable => "payment backend error"@,
            NwcError::Timeout => "payment backend timeout"@,
        }
    }
}

/// The names of every supported command, for the capability announcement
/// and the `get_info` result.
pub fn supported_method_names() -> (r: Vec<String>)
    ensures
        r.deep_view() == supported_methods_v(),
{
    let mut out: Vec<String> = Vec::new();
    out.push(String::from_str("get_info"));
    out.push(String::from_str("get_balance"));
    out.push(String::from_str("pay_invoice"));
    out.push(String::from_str("pay_keysend"));
    out.push(String::from_str("make_invoice"));
    out.push(String::from_str("lookup_invoice"));
    proof {
        assert(out.deep_view() =~= supported_methods_v());
    }
    out
}

fn methods_to_json(ms: &Vec<String>) -> (r: Vec<Json>)
    ensures
        arr_view(r@) == texts_json(ms.deep_view()),
{
    let mut out: Vec<Json> = Vec::new();
    let mut i: usize = 0;
    while i < ms.len()
        invariant
            i <= ms@.len(),
            out@.len() == i,
            forall|j: int| 0 <= j < i ==> out@[j]@ == JsonV::Text(ms@[j]@),
        decreases ms@.len() - i,
    {
        out.push(Json::Text(chars_of(ms[i].as_str())));
        i = i + 1;
    }
    proof {
        assert(arr_view(out@) =~= texts_json(ms.deep_view()));
    }
    out
}

impl GetInfoResult {
    /// An empty capability listing, filled in by the dispatcher.
    pub fn default() -> (r: Self)
        ensures
            r.methods@.len() == 0,
    {
        GetInfoResult { methods: Vec::new() }
    }
}

impl GetBalanceResult {
    fn default() -> (r: Self)
        ensures
            r.balance == 0,
    {
        GetBalanceResult { balance: 0 }
    }
}

impl NwcResponse {
    /// The envelope tag naming the command this result answers.
    pub fn result_type(&self) -> (r: &'static str)
        ensures
            r@ == result_type_v(self@),
    {
        match self {
            NwcResponse::GetInfo(_) => "get_info",
            NwcResponse::GetBalance(_) => "get_balance",
            NwcResponse::PayInvoice(_) => "pay_invoice",
            NwcResponse::PayKeysend(_) => "pay_keysend",
            NwcResponse::MakeInvoice(_) => "make_invoice",
            NwcResponse::LookupInvoice(_) => "lookup_invoice",
        }
    }

    /// One default result per command, used to enumerate what the service
    /// can answer.
    pub fn default_responses() -> (r: Vec<NwcResponse>)
        ensures
            r@.len() == supported_methods_v().len(),
            forall|i: int|
                0 <= i < r@.len() ==> result_type_v(#[trigger] r@[i]@) == supported_methods_v()[i],
    {
        let mut out: Vec<NwcResponse> = Vec::new();
        out.push(NwcResponse::GetInfo(GetInfoResult::default()));
        out.push(NwcResponse::GetBalance(GetBalanceResult::default()));
        out.push(
            NwcResponse::PayInvoice(PayInvoiceResult { preimage: Vec::new(), fees_paid_msat: 0 }),
        );
        out.push(
            NwcResponse::PayKeysend(PayKeysendResult { preimage: Vec::new(), fees_paid_msat: 0 }),
        );
        out.push(
            NwcResponse::MakeInvoice(
                MakeInvoiceResult {
                    invoice: Vec::new(),
                    payment_hash: Vec::new(),
                    amount_msat: 0,
                    created_at: 0,
                    expires_at: None,
                    description: None,
                },
            ),
        );
        out.push(
            NwcResponse::LookupInvoice(
                LookupInvoiceResult {
                    invoice: None,
                    payment_hash: Vec::new(),
                    amount_msat: 0,
                    fees_paid_msat: 0,
                    created_at: 0,
                    settled_at: None,
                    state: InvoiceState::Pending,
                    preimage: None,
                },
            ),
        );
        out
    }

    fn to_content(&self) -> (r: Json)
        ensures
            r@ == envelope_v(self@),
    {
        let body: Json = match self {
            NwcResponse::GetInfo(g) => {
                let mut f: Vec<(Vec<char>, Json)> = Vec::new();
                f.push((chars_of("methods"), Json::Arr(methods_to_json(&g.methods))));
                proof {
                    assert(obj_view(f@) =~= body_v(self@)->Obj_0);
                }
                Json::Obj(f)
            },
            NwcResponse::GetBalance(g) => {
                let mut f: Vec<(Vec<char>, Json)> = Vec::new();
                f.push((chars_of("balance"), Json::Int(g.balance)));
                proof {
                    assert(obj_view(f@) =~= body_v(self@)->Obj_0);
                }
                Json::Obj(f)
            },
            NwcResponse::PayInvoice(p) => {
                let mut f: Vec<(Vec<char>, Json)> = Vec::new();
                f.push((chars_of("preimage"), Json::Text(copy_chars(&p.preimage))));
                f.push((chars_of("fees_paid_msat"), Json::UInt(p.fees_paid_msat)));
                proof {
                    assert(obj_view(f@) =~= body_v(self@)->Obj_0);
                }
                Json::Obj(f)
            },
            NwcResponse::PayKeysend(p) => {
                let mut f: Vec<(Vec<char>, Json)> = Vec::new();
                f.push((chars_of("preimage"), Json::Text(copy_chars(&p.preimage))));
                f.push((chars_of("fees_paid_msat"), Json::UInt(p.fees_paid_msat)));
                proof {
                    assert(obj_view(f@) =~= body_v(self@)->Obj_0);
                }
                Json::Obj(f)
            },
            NwcResponse::MakeInvoice(m) => {
                let mut f: Vec<(Vec<char>, Json)> = Vec::new();
                f.push((chars_of("invoice"), Json::Text(copy_chars(&m.invoice))));
                f.push((chars_of("payment_hash"), Json::Text(copy_chars(&m.payment_hash))));
                f.push((chars_of("amount_msat"), Json::UInt(m.amount_msat)));
                f.push((chars_of("created_at"), Json::UInt(m.created_at)));
                match m.expires_at {
                    Some(e) => f.push((chars_of("expires_at"), Json::UInt(e))),
                    None => {},
                }
                match &m.description {
                    Some(d) => f.push((chars_of("description"), Json::Text(copy_chars(d)))),
                    None => {},
                }
                proof {
                    assert(obj_view(f@) =~= body_v(self@)->Obj_0);
                }
                Json::Obj(f)
            },
            NwcResponse::LookupInvoice(l) => {
                let mut f: Vec<(Vec<char>, Json)> = Vec::new();
                match &l.invoice {
                    Some(inv) => f.push((chars_of("invoice"), Json::Text(copy_chars(inv)))),
                    None => {},
                }
                f.push((chars_of("payment_hash"), Json::Text(copy_chars(&l.payment_hash))));
                f.push((chars_of("amount_msat"), Json::UInt(l.amount_msat)));
                f.push((chars_of("fees_paid_msat"), Json::UInt(l.fees_paid_msat)));
                f.push((chars_of("created_at"), Json::UInt(l.created_at)));
                match l.settled_at {
                    Some(sa) => f.push((chars_of("settled_at"), Json::UInt(sa))),
                    None => {},
                }
                let state_name: &str = match l.state {
                    InvoiceState::Settled => "settled",
                    InvoiceState::Pending => "pending",
                    InvoiceState::Failed => "failed",
                };
                f.push((chars_of("state"), Json::Text(chars_of(state_name))));
                match &l.preimage {
                    Some(pi) => f.push((chars_of("preimage"), Json::Text(copy_chars(pi)))),
                    None => {},
                }
                proof {
                    assert(obj_view(f@) =~= body_v(self@)->Obj_0);
                }
                Json::Obj(f)
            },
        };
        let rt = self.result_type();
        let mut env: Vec<(Vec<char>, Json)> = Vec::new();
        env.push((chars_of("result_type"), Json::Text(chars_of(rt))));
        env.push((chars_of("result"), body));
        proof {
            assert(obj_view(env@) =~= envelope_v(self@)->Obj_0);
        }
        Json::Obj(env)
    }

    /// Serializes the result envelope for encryption; never fails.
    pub fn to_event_content(&self) -> (r: Result<String, NwcError>)
        ensures
            r matches Ok(s) && s@ == text_of(envelope_v(self@)),
    {
        let content = self.to_content();
        let chars = crate::json::to_text(&content);
        Ok(crate::strops::string_of(&chars))
    }
}

/// Serializes the error envelope answering a failed request.
pub fn error_event_content(result_type: &str, e: &NwcError) -> (r: String)
    ensures
        r@ == text_of(error_envelope_v(result_type@, *e)),
{
    let mut inner: Vec<(Vec<char>, Json)> = Vec::new();
    inner.push((chars_of("code"), Json::Text(chars_of(e.code()))));
    inner.push((chars_of("message"), Json::Text(chars_of(e.message()))));
    proof {
        assert(obj_view(inner@) =~= seq![
            ("code"@, JsonV::Text(e.code_v())),
            ("message"@, JsonV::Text(e.message_v())),
        ]);
    }
    let mut env: Vec<(Vec<char>, Json)> = Vec::new();
    env.push((chars_of("result_type"), Json::Text(chars_of(result_type))));
    env.push((chars_of("error"), Json::Obj(inner)));
    proof {
        assert(obj_view(env@) =~~= error_envelope_v(result_type@, *e)->Obj_0);
    }
    let content = Json::Obj(env);
    let chars = crate::json::to_text(&content);
    crate::strops::string_of(&chars)
}

} // verus!
