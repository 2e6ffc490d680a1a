//! The dispatcher: turns a decoded command into either an immediate
//! result, a validation failure, or one payment-backend call, and maps
//! the backend's outcome to the typed result plus a settlement follow-up.
//!
//! The backend itself (a Lightning node spoken to over the network) is
//! outside the library; callers perform the planned call and hand the
//! outcome back, so everything decided here is checked for every possible
//! backend behaviour.

use vstd::prelude::*;

use crate::hexstr::{bytes_of_hex, decode_hex, hex_of, is_hex_of_len, is_hex_seq, buffer_as_hex};
use crate::nwc_types::{
    GetInfoResult, InvoiceState, LookupInvoiceResult, MakeInvoiceResult, NwcError, NwcRequest,
    NwcResponse, PayInvoiceResult, PayKeysendResult, RequestV, TlvRecordV, tlv_view,
    supported_method_names, supported_methods_v, GetInfoResultV, ResponseV,
};
use crate::notify::{NotificationV, SettlementNotification};
use crate::strops::chars_of;

verus! {

/// The record type that carries the keysend preimage; caller-supplied
/// records never override it.
pub const KEYSEND_PREIMAGE_TLV: u64 = 5482373484;

/// What the SHA-256 digest of a byte sequence is. Relies on the sha2
/// crate; the digest is a function of the input alone.
pub uninterp spec fn sha256_of(data: Seq<u8>) -> Seq<u8>;

/// Relies on `sha2::Sha256::digest`: the 32-byte SHA-256 digest of the
/// input.
#[verifier::external_body]
pub(crate) fn sha256(data: &Vec<u8>) -> (r: Vec<u8>)
    ensures
        r@ == sha256_of(data@),
        r@.len() == 32,
{
    <sha2::Sha256 as sha2::Digest>::digest(data.as_slice()).to_vec()
}

/// Relies on the operating-system generator behind `rand::rngs::OsRng`:
/// 32 bytes are drawn; nothing is assumed of their values.
#[verifier::external_body]
pub(crate) fn random_32() -> (r: Option<Vec<u8>>)
    ensures
        r matches Some(v) ==> v@.len() == 32,
{
    let mut buf = [0u8; 32];
    match secp256k1::rand::TryRngCore::try_fill_bytes(
        &mut secp256k1::rand::rngs::OsRng,
        &mut buf,
    ) {
        Ok(()) => Some(buf.to_vec()),
        Err(_) => None,
    }
}

// ------------------------------------------------------------------
// The plan: what one command asks of the backend
// ------------------------------------------------------------------
pub struct KeysendCall {
    pub pubkey: Vec<u8>,
    pub amount_msat: u64,
    pub preimage: Vec<u8>,
    pub payment_hash: Vec<u8>,
    pub tlv_records: Vec<(u64, Vec<u8>)>,
}

pub enum BackendCall {
    GetBalance,
    PayInvoice { invoice: Vec<char>, amount_msat: Option<u64> },
    PayKeysend(KeysendCall),
    MakeInvoice {
        amount_msat: u64,
        description: Option<Vec<char>>,
        description_hash: Option<Vec<u8>>,
        expiry: Option<u64>,
    },
    LookupInvoice { payment_hash: Option<Vec<u8>>, invoice: Option<Vec<char>> },
}

pub enum DispatchPlan {
    /// Answered without the backend.
    Respond(NwcResponse),
    /// One backend call to perform.
    Call(BackendCall),
    /// Refused before any backend call.
    Refuse(NwcError),
}

/// Twins over sequences.
pub struct KeysendCallV {
    pub pubkey: Seq<u8>,
    pub amount_msat: u64,
    pub preimage: Seq<u8>,
    pub payment_hash: Seq<u8>,
    pub tlv_records: Seq<(u64, Seq<u8>)>,
}

pub enum CallV {
    GetBalance,
    PayInvoice { invoice: Seq<char>, amount_msat: Option<u64> },
    PayKeysend(KeysendCallV),
    MakeInvoice {
        amount_msat: u64,
        description: Option<Seq<char>>,
        description_hash: Option<Seq<u8>>,
        expiry: Option<u64>,
    },
    LookupInvoice { payment_hash: Option<Seq<u8>>, invoice: Option<Seq<char>> },
}

pub enum PlanV {
    Respond(ResponseV),
    Call(CallV),
    Refuse(NwcError),
}

pub open spec fn opt_bytes_view(v: Option<Vec<u8>>) -> Option<Seq<u8>> {
    match v {
        Option::None => Option::None,
        Option::Some(b) => Option::Some(b@),
    }
}

pub open spec fn opt_chars_view2(v: Option<Vec<char>>) -> Option<Seq<char>> {
    match v {
        Option::None => Option::None,
        Option::Some(b) => Option::Some(b@),
    }
}

pub open spec fn pairs_view(v: Seq<(u64, Vec<u8>)>) -> Seq<(u64, Seq<u8>)> {
    Seq::new(
        v.len(),
        |i: int|
            if 0 <= i < v.len() {
                (v[i].0, v[i].1@)
            } else {
                (0u64, Seq::empty())
            },
    )
}

impl View for KeysendCall {
    type V = KeysendCallV;

    open spec fn view(&self) -> KeysendCallV {
        KeysendCallV {
            pubkey: self.pubkey@,
            amount_msat: self.amount_msat,
            preimage: self.preimage@,
            payment_hash: self.payment_hash@,
            tlv_records: pairs_view(self.tlv_records@),
        }
    }
}

impl View for BackendCall {
    type V = CallV;

    open spec fn view(&self) -> CallV {
        match self {
            BackendCall::GetBalance => CallV::GetBalance,
            BackendCall::PayInvoice { invoice, amount_msat } => CallV::PayInvoice {
                invoice: invoice@,
                amount_msat: *amount_msat,
            },
            BackendCall::PayKeysend(k) => CallV::PayKeysend(k@),
            BackendCall::MakeInvoice { amount_msat, description, description_hash, expiry } => {
                CallV::MakeInvoice {
                    amount_msat: *amount_msat,
                    description: opt_chars_view2(*description),
                    description_hash: opt_bytes_view(*description_hash),
                    expiry: *expiry,
                }
            },
            BackendCall::LookupInvoice { payment_hash, invoice } => CallV::LookupInvoice {
                payment_hash: opt_bytes_view(*payment_hash),
                invoice: opt_chars_view2(*invoice),
            },
        }
    }
}

impl View for DispatchPlan {
    type V = PlanV;

    open spec fn view(&self) -> PlanV {
        match self {
            DispatchPlan::Respond(resp) => PlanV::Respond(resp@),
            DispatchPlan::Call(c) => PlanV::Call(c@),
            DispatchPlan::Refuse(e) => PlanV::Refuse(*e),
        }
    }
}

// ------------------------------------------------------------------
// Keysend validation and record merging
// ------------------------------------------------------------------
/// A well-formed keysend destination: 33 bytes of hex.
pub open spec fn valid_keysend_pubkey(s: Seq<char>) -> bool {
    is_hex_seq(s) && s.len() == 66
}

/// A well-formed preimage: 32 bytes of hex.
pub open spec fn valid_preimage_hex(s: Seq<char>) -> bool {
    is_hex_seq(s) && s.len() == 64
}

/// Every caller record carries hex text.
pub open spec fn tlvs_wf(records: Seq<TlvRecordV>) -> bool {
    forall|i: int| 0 <= i < records.len() ==> is_hex_seq(#[trigger] records[i].value)
}

/// Caller records with the reserved preimage type removed, values
/// decoded.
pub open spec fn filtered_tlvs(records: Seq<TlvRecordV>) -> Seq<(u64, Seq<u8>)>
    decreases records.len(),
{
    if records.len() == 0 {
        Seq::empty()
    } else {
        let rest = filtered_tlvs(records.drop_first());
        if records.first().tlv_type == KEYSEND_PREIMAGE_TLV {
            rest
        } else {
            seq![(records.first().tlv_type, bytes_of_hex(records.first().value))] + rest
        }
    }
}

/// The records sent with a keysend payment: the caller's, never the
/// reserved type, then exactly one preimage record.
pub open spec fn merged_tlvs(records: Seq<TlvRecordV>, preimage: Seq<u8>) -> Seq<(u64, Seq<u8>)> {
    filtered_tlvs(records) + seq![(KEYSEND_PREIMAGE_TLV, preimage)]
}

/// What the dispatcher decides for one command, given the preimage that
/// would be drawn if one is needed.
pub open spec fn plan_of(req: RequestV, fresh: Seq<u8>) -> PlanV {
    match req {
        RequestV::GetInfo => PlanV::Respond(
            ResponseV::GetInfo(GetInfoResultV { methods: supported_methods_v() }),
        ),
        RequestV::GetBalance => PlanV::Call(CallV::GetBalance),
        RequestV::PayInvoice { invoice, amount_msat } => PlanV::Call(
            CallV::PayInvoice { invoice, amount_msat },
        ),
        RequestV::PayKeysend { pubkey, amount_msat, preimage, tlv_records } => {
            if !valid_keysend_pubkey(pubkey) {
                PlanV::Refuse(NwcError::ValidationFailed)
            } else if preimage matches Option::Some(p) && !valid_preimage_hex(p) {
                PlanV::Refuse(NwcError::ValidationFailed)
            } else if !tlvs_wf(tlv_records) {
                PlanV::Refuse(NwcError::ValidationFailed)
            } else {
                let pre = match preimage {
                    Option::Some(p) => bytes_of_hex(p),
                    Option::None => fresh,
                };
                PlanV::Call(
                    CallV::PayKeysend(
                        KeysendCallV {
                            pubkey: bytes_of_hex(pubkey),
                            amount_msat,
                            preimage: pre,
                            payment_hash: sha256_of(pre),
                            tlv_records: merged_tlvs(tlv_records, pre),
                        },
                    ),
                )
            }
        },
        RequestV::MakeInvoice { amount_msat, description, description_hash, expiry } => {
            if description_hash matches Option::Some(h) && !valid_preimage_hex(h) {
                PlanV::Refuse(NwcError::ValidationFailed)
            } else {
                PlanV::Call(
                    CallV::MakeInvoice {
                        amount_msat,
                        description,
                        description_hash: match description_hash {
                            Option::Some(h) => Option::Some(bytes_of_hex(h)),
                            Option::None => Option::None,
                        },
                        expiry,
                    },
                )
            }
        },
        RequestV::LookupInvoice { payment_hash, invoice } => {
            if payment_hash matches Option::Some(h) && !valid_preimage_hex(h) {
                PlanV::Refuse(NwcError::ValidationFailed)
            } else {
                PlanV::Call(
                    CallV::LookupInvoice {
                        payment_hash: match payment_hash {
                            Option::Some(h) => Option::Some(bytes_of_hex(h)),
                            Option::None => Option::None,
                        },
                        invoice,
                    },
                )
            }
        },
    }
}

/// Whether this command draws a fresh preimage.
pub open spec fn plan_needs_fresh(req: RequestV) -> bool {
    req matches RequestV::PayKeysend { pubkey, amount_msat, preimage, tlv_records }
        && valid_keysend_pubkey(pubkey) && preimage is None && tlvs_wf(tlv_records)
}

/// A keysend without a caller preimage derives its payment hash as the
/// digest of the freshly drawn 32-byte preimage; this is `plan_of` read
/// back for that case.
pub proof fn lemma_keysend_fresh_preimage(req: RequestV, fresh: Seq<u8>)
    requires
        plan_needs_fresh(req),
        fresh.len() == 32,
    ensures
        plan_of(req, fresh) matches PlanV::Call(CallV::PayKeysend(k)) && k.preimage == fresh
            && k.preimage.len() == 32 && k.payment_hash == sha256_of(k.preimage),
{
}

/// A refused keysend never reaches the backend: a destination that is not
/// 33 bytes of hex is answered with a validation failure, whatever else
/// the request holds.
pub proof fn lemma_keysend_bad_pubkey(req: RequestV, fresh: Seq<u8>)
    requires
        req matches RequestV::PayKeysend { pubkey, .. } && !valid_keysend_pubkey(pubkey),
    ensures
        plan_of(req, fresh) == PlanV::Refuse(NwcError::ValidationFailed),
{
}

fn filtered_tlvs_x(records: &Vec<crate::nwc_types::TlvRecord>) -> (r: Option<Vec<(u64, Vec<u8>)>>)
    ensures
        match r {
            Some(out) => tlvs_wf(tlv_view(records@)) && pairs_view(out@) == filtered_tlvs(
                tlv_view(records@),
            ),
            None => !tlvs_wf(tlv_view(records@)),
        },
{
    let mut out: Vec<(u64, Vec<u8>)> = Vec::new();
    let n = records.len();
    let mut i: usize = n;
    proof {
        assert(tlv_view(records@).skip(n as int) =~= Seq::<TlvRecordV>::empty());
        assert(pairs_view(out@) =~= filtered_tlvs(tlv_view(records@).skip(n as int)));
    }
    while i > 0
        invariant
            i <= n,
            n == records@.len(),
            pairs_view(out@) == filtered_tlvs(tlv_view(records@).skip(i as int)),
            forall|j: int| i <= j < n ==> is_hex_seq(#[trigger] tlv_view(records@)[j].value),
        decreases i,
    {
        i = i - 1;
        let rec = &records[i];
        if !is_hex_of_len(rec.value.as_slice(), rec.value.len() / 2) {
            proof {
                assert(!is_hex_seq(tlv_view(records@)[i as int].value));
                assert(!tlvs_wf(tlv_view(records@)));
            }
            return None;
        }
        proof {
            assert(tlv_view(records@).skip(i as int).first() == records@[i as int]@);
            assert(tlv_view(records@).skip(i as int).drop_first() =~= tlv_view(records@).skip(
                i as int + 1,
            ));
        }
        if rec.tlv_type != KEYSEND_PREIMAGE_TLV {
            let bytes = decode_hex(rec.value.as_slice());
            out.insert(0, (rec.tlv_type, bytes));
            proof {
                assert(pairs_view(out@) =~= filtered_tlvs(tlv_view(records@).skip(i as int)));
            }
        } else {
            proof {
                assert(pairs_view(out@) =~= filtered_tlvs(tlv_view(records@).skip(i as int)));
            }
        }
    }
    proof {
        assert(tlv_view(records@).skip(0) =~= tlv_view(records@));
    }
    Some(out)
}


/// Copies a byte vector.
fn copy_bytes(v: &Vec<u8>) -> (r: Vec<u8>)
    ensures
        r@ == v@,
{
    let mut out: Vec<u8> = Vec::new();
    let mut i: usize = 0;
    while i < v.len()
        invariant
            i <= v@.len(),
            out@ == v@.subrange(0, i as int),
        decreases v@.len() - i,
    {
        out.push(v[i]);
        i = i + 1;
        proof {
            assert(out@ =~= v@.subrange(0, i as int));
        }
    }
    proof {
        assert(out@ =~= v@);
    }
    out
}

/// Decides one command: an immediate answer, a refusal, or the single
/// backend call to perform. Randomness enters only through the fresh
/// keysend preimage, so the decision is exact up to the drawn bytes; if
/// the generator fails, the command is refused and the backend untouched.
pub fn plan(req: &NwcRequest) -> (r: DispatchPlan)
    ensures
        (exists|fresh: Seq<u8>| fresh.len() == 32 && r@ == plan_of(req@, fresh)) || (
        plan_needs_fresh(req@) && r@ == PlanV::Refuse(NwcError::BackendUnavailable)),
{
    let ghost any32 = Seq::<u8>::new(32, |i: int| 0u8);
    match req {
        NwcRequest::GetInfo(_) => {
            let r = DispatchPlan::Respond(
                NwcResponse::GetInfo(GetInfoResult { methods: supported_method_names() }),
            );
            proof {
                assert(any32.len() == 32 && r@ == plan_of(req@, any32));
            }
            r
        },
        NwcRequest::GetBalance(_) => {
            let r = DispatchPlan::Call(BackendCall::GetBalance);
            proof {
                assert(any32.len() == 32 && r@ == plan_of(req@, any32));
            }
            r
        },
        NwcRequest::PayInvoice(p) => {
            let r = DispatchPlan::Call(
                BackendCall::PayInvoice {
                    invoice: crate::nwc_types::copy_chars(&p.invoice),
                    amount_msat: p.amount_msat,
                },
            );
            proof {
                assert(any32.len() == 32 && r@ == plan_of(req@, any32));
            }
            r
        },
        NwcRequest::PayKeysend(k) => {
            if !is_hex_of_len(k.pubkey.as_slice(), 33) {
                let r = DispatchPlan::Refuse(NwcError::ValidationFailed);
                proof {
                    assert(any32.len() == 32 && r@ == plan_of(req@, any32));
                }
                return r;
            }
            let given_ok: bool = match &k.preimage {
                Some(p) => is_hex_of_len(p.as_slice(), 32),
                None => true,
            };
            if !given_ok {
                let r = DispatchPlan::Refuse(NwcError::ValidationFailed);
                proof {
                    assert(any32.len() == 32 && r@ == plan_of(req@, any32));
                }
                return r;
            }
            let records = match filtered_tlvs_x(&k.tlv_records) {
                None => {
                    let r = DispatchPlan::Refuse(NwcError::ValidationFailed);
                    proof {
                        assert(any32.len() == 32 && r@ == plan_of(req@, any32));
                    }
                    return r;
                },
                Some(recs) => recs,
            };
            let pre: Vec<u8> = match &k.preimage {
                Some(p) => decode_hex(p.as_slice()),
                None => match random_32() {
                    None => {
                        let r = DispatchPlan::Refuse(NwcError::BackendUnavailable);
                        proof {
                            assert(plan_needs_fresh(req@));
                        }
                        return r;
                    },
                    Some(b) => b,
                },
            };
            let hash = sha256(&pre);
            let mut records = records;
            records.push((KEYSEND_PREIMAGE_TLV, copy_bytes(&pre)));
            let pubkey_bytes = decode_hex(k.pubkey.as_slice());
            let r = DispatchPlan::Call(
                BackendCall::PayKeysend(
                    KeysendCall {
                        pubkey: pubkey_bytes,
                        amount_msat: k.amount_msat,
                        preimage: pre,
                        payment_hash: hash,
                        tlv_records: records,
                    },
                ),
            );
            proof {
                let fresh = if k.preimage is Some {
                    any32
                } else {
                    r@->Call_0->PayKeysend_0.preimage
                };
                assert(pairs_view(records@) =~= merged_tlvs(
                    tlv_view(k.tlv_records@),
                    r@->Call_0->PayKeysend_0.preimage,
                ));
                assert(fresh.len() == 32 && r@ == plan_of(req@, fresh));
            }
            r
        },
        NwcRequest::MakeInvoice(m) => {
            let hash_ok: bool = match &m.description_hash {
                Some(h) => is_hex_of_len(h.as_slice(), 32),
                None => true,
            };
            if !hash_ok {
                let r = DispatchPlan::Refuse(NwcError::ValidationFailed);
                proof {
                    assert(any32.len() == 32 && r@ == plan_of(req@, any32));
                }
                return r;
            }
            let dh: Option<Vec<u8>> = match &m.description_hash {
                Some(h) => Some(decode_hex(h.as_slice())),
                None => None,
            };
            let desc: Option<Vec<char>> = match &m.description {
                Some(d) => Some(crate::nwc_types::copy_chars(d)),
                None => None,
            };
            let r = DispatchPlan::Call(
                BackendCall::MakeInvoice {
                    amount_msat: m.amount_msat,
                    description: desc,
                    description_hash: dh,
                    expiry: m.expiry,
                },
            );
            proof {
                assert(any32.len() == 32 && r@ == plan_of(req@, any32));
            }
            r
        },
        NwcRequest::LookupInvoice(l) => {
            let hash_ok: bool = match &l.payment_hash {
                Some(h) => is_hex_of_len(h.as_slice(), 32),
                None => true,
            };
            if !hash_ok {
                let r = DispatchPlan::Refuse(NwcError::ValidationFailed);
                proof {
                    assert(any32.len() == 32 && r@ == plan_of(req@, any32));
                }
                return r;
            }
            let ph: Option<Vec<u8>> = match &l.payment_hash {
                Some(h) => Some(decode_hex(h.as_slice())),
                None => None,
            };
            let inv: Option<Vec<char>> = match &l.invoice {
                Some(v) => Some(crate::nwc_types::copy_chars(v)),
                None => None,
            };
            let r = DispatchPlan::Call(
                BackendCall::LookupInvoice { payment_hash: ph, invoice: inv },
            );
            proof {
                assert(any32.len() == 32 && r@ == plan_of(req@, any32));
            }
            r
        },
    }
}

// ------------------------------------------------------------------
// Applying the backend's outcome
// ------------------------------------------------------------------
/// What a backend invoice reports as its state.
#[derive(Clone, Copy, Debug, PartialEq, Eq, Structural)]
pub enum BackendInvoiceState {
    Open,
    Accepted,
    Settled,
    Canceled,
}

/// The protocol state a backend invoice state maps to.
pub open spec fn mapped_state(s: BackendInvoiceState) -> InvoiceState {
    match s {
        BackendInvoiceState::Settled => InvoiceState::Settled,
        BackendInvoiceState::Canceled => InvoiceState::Failed,
        BackendInvoiceState::Open => InvoiceState::Pending,
        BackendInvoiceState::Accepted => InvoiceState::Pending,
    }
}

/// What one backend call came back with, as plain values.
pub enum BackendOutcome {
    Balance { confirmed_msat: i64 },
    Payment {
        success: bool,
        preimage_hex: Vec<char>,
        payment_hash_hex: Vec<char>,
        amount_msat: u64,
        fee_msat: u64,
    },
    Created { invoice: Vec<char>, payment_hash_hex: Vec<char>, created_at: u64 },
    Looked {
        state: BackendInvoiceState,
        invoice: Option<Vec<char>>,
        payment_hash_hex: Vec<char>,
        amount_msat: u64,
        fee_msat: u64,
        created_at: u64,
        settled_at: Option<u64>,
        preimage_hex: Option<Vec<char>>,
    },
    Unavailable,
    TimedOut,
}

pub enum OutcomeV {
    Balance { confirmed_msat: i64 },
    Payment {
        success: bool,
        preimage_hex: Seq<char>,
        payment_hash_hex: Seq<char>,
        amount_msat: u64,
        fee_msat: u64,
    },
    Created { invoice: Seq<char>, payment_hash_hex: Seq<char>, created_at: u64 },
    Looked {
        state: BackendInvoiceState,
        invoice: Option<Seq<char>>,
        payment_hash_hex: Seq<char>,
        amount_msat: u64,
        fee_msat: u64,
        created_at: u64,
        settled_at: Option<u64>,
        preimage_hex: Option<Seq<char>>,
    },
    Unavailable,
    TimedOut,
}

impl View for BackendOutcome {
    type V = OutcomeV;

    open spec fn view(&self) -> OutcomeV {
        match self {
            BackendOutcome::Balance { confirmed_msat } => OutcomeV::Balance {
                confirmed_msat: *confirmed_msat,
            },
            BackendOutcome::Payment { success, preimage_hex, payment_hash_hex, amount_msat, fee_msat } => {
                OutcomeV::Payment {
                    success: *success,
                    preimage_hex: preimage_hex@,
                    payment_hash_hex: payment_hash_hex@,
                    amount_msat: *amount_msat,
                    fee_msat: *fee_msat,
                }
            },
            BackendOutcome::Created { invoice, payment_hash_hex, created_at } => OutcomeV::Created {
                invoice: invoice@,
                payment_hash_hex: payment_hash_hex@,
                created_at: *created_at,
            },
            BackendOutcome::Looked {
                state,
                invoice,
                payment_hash_hex,
                amount_msat,
                fee_msat,
                created_at,
                settled_at,
                preimage_hex,
            } => OutcomeV::Looked {
                state: *state,
                invoice: opt_chars_view2(*invoice),
                payment_hash_hex: payment_hash_hex@,
                amount_msat: *amount_msat,
                fee_msat: *fee_msat,
                created_at: *created_at,
                settled_at: *settled_at,
                preimage_hex: match preimage_hex {
                    Option::Some(v) => Option::Some(v@),
                    Option::None => Option::None,
                },
            },
            BackendOutcome::Unavailable => OutcomeV::Unavailable,
            BackendOutcome::TimedOut => OutcomeV::TimedOut,
        }
    }
}

/// What follows a dispatched result: nothing, one synchronous settlement
/// notification, or one settlement watcher to spawn.
pub enum FollowUp {
    Nothing,
    Notify(SettlementNotification),
    Watch { payment_hash: Vec<char> },
}

pub enum FollowUpV {
    Nothing,
    Notify(NotificationV),
    Watch { payment_hash: Seq<char> },
}

impl View for FollowUp {
    type V = FollowUpV;

    open spec fn view(&self) -> FollowUpV {
        match self {
            FollowUp::Nothing => FollowUpV::Nothing,
            FollowUp::Notify(n) => FollowUpV::Notify(n@),
            FollowUp::Watch { payment_hash } => FollowUpV::Watch {
                payment_hash: payment_hash@,
            },
        }
    }
}


/// When an invoice created now and expiring after `expiry` seconds runs
/// out, where that fits the clock's range.
pub open spec fn expiry_at(created_at: u64, expiry: Option<u64>) -> Option<u64> {
    match expiry {
        Option::None => Option::None,
        Option::Some(e) => if created_at + e <= u64::MAX {
            Option::Some((created_at + e) as u64)
        } else {
            Option::None
        },
    }
}

pub open spec fn or_empty(v: Option<Seq<char>>) -> Seq<char> {
    match v {
        Option::None => Seq::empty(),
        Option::Some(s) => s,
    }
}

pub open spec fn or_now(v: Option<u64>, now: u64) -> u64 {
    match v {
        Option::None => now,
        Option::Some(s) => s,
    }
}

/// The typed result and follow-up for one backend outcome. Every pair is
/// covered, so the mapping holds whatever the backend did; a response of
/// the wrong shape counts as a backend failure.
pub open spec fn apply_of(call: CallV, out: OutcomeV, now: u64) -> (Result<ResponseV, NwcError>, FollowUpV) {
    match out {
        OutcomeV::Unavailable => (Result::Err(NwcError::BackendUnavailable), FollowUpV::Nothing),
        OutcomeV::TimedOut => (Result::Err(NwcError::Timeout), FollowUpV::Nothing),
        OutcomeV::Balance { confirmed_msat } => match call {
            CallV::GetBalance => (
                Result::Ok(
                    ResponseV::GetBalance(
                        crate::nwc_types::GetBalanceResultV { balance: confirmed_msat },
                    ),
                ),
                FollowUpV::Nothing,
            ),
            _ => (Result::Err(NwcError::BackendUnavailable), FollowUpV::Nothing),
        },
        OutcomeV::Payment { success, preimage_hex, payment_hash_hex, amount_msat, fee_msat } => {
            if !success {
                (Result::Err(NwcError::BackendUnavailable), FollowUpV::Nothing)
            } else {
                match call {
                    CallV::PayInvoice { invoice, amount_msat: _asked } => (
                        Result::Ok(
                            ResponseV::PayInvoice(
                                crate::nwc_types::PayResultV {
                                    preimage: preimage_hex,
                                    fees_paid_msat: fee_msat,
                                },
                            ),
                        ),
                        FollowUpV::Notify(
                            NotificationV {
                                incoming: false,
                                invoice: Option::Some(invoice),
                                preimage: preimage_hex,
                                payment_hash: payment_hash_hex,
                                amount_msat,
                                fees_msat: fee_msat,
                                created_at: now,
                                expires_at: Option::None,
                                settled_at: now,
                            },
                        ),
                    ),
                    CallV::PayKeysend(k) => {
                        let pre = if preimage_hex.len() > 0 {
                            preimage_hex
                        } else {
                            hex_of(k.preimage)
                        };
                        (
                            Result::Ok(
                                ResponseV::PayKeysend(
                                    crate::nwc_types::PayResultV {
                                        preimage: pre,
                                        fees_paid_msat: fee_msat,
                                    },
                                ),
                            ),
                            FollowUpV::Notify(
                                NotificationV {
                                    incoming: false,
                                    invoice: Option::None,
                                    preimage: pre,
                                    payment_hash: hex_of(k.payment_hash),
                                    amount_msat: k.amount_msat,
                                    fees_msat: fee_msat,
                                    created_at: now,
                                    expires_at: Option::None,
                                    settled_at: now,
                                },
                            ),
                        )
                    },
                    _ => (Result::Err(NwcError::BackendUnavailable), FollowUpV::Nothing),
                }
            }
        },
        OutcomeV::Created { invoice, payment_hash_hex, created_at } => match call {
            CallV::MakeInvoice { amount_msat, description, description_hash: _dh, expiry } => (
                Result::Ok(
                    ResponseV::MakeInvoice(
                        crate::nwc_types::MakeInvoiceResultV {
                            invoice,
                            payment_hash: payment_hash_hex,
                            amount_msat,
                            created_at,
                            expires_at: expiry_at(created_at, expiry),
                            description,
                        },
                    ),
                ),
                FollowUpV::Watch { payment_hash: payment_hash_hex },
            ),
            _ => (Result::Err(NwcError::BackendUnavailable), FollowUpV::Nothing),
        },
        OutcomeV::Looked {
            state,
            invoice,
            payment_hash_hex,
            amount_msat,
            fee_msat,
            created_at,
            settled_at,
            preimage_hex,
        } => match call {
            CallV::LookupInvoice { payment_hash: _ph, invoice: _inv } => {
                let st = mapped_state(state);
                let resp = ResponseV::LookupInvoice(
                    crate::nwc_types::LookupInvoiceResultV {
                        invoice,
                        payment_hash: payment_hash_hex,
                        amount_msat,
                        fees_paid_msat: fee_msat,
                        created_at,
                        settled_at,
                        state: st,
                        preimage: preimage_hex,
                    },
                );
                let fu = if st == InvoiceState::Settled {
                    FollowUpV::Notify(
                        NotificationV {
                            incoming: true,
                            invoice,
                            preimage: or_empty(preimage_hex),
                            payment_hash: payment_hash_hex,
                            amount_msat,
                            fees_msat: fee_msat,
                            created_at,
                            expires_at: Option::None,
                            settled_at: or_now(settled_at, now),
                        },
                    )
                } else {
                    FollowUpV::Nothing
                };
                (Result::Ok(resp), fu)
            },
            _ => (Result::Err(NwcError::BackendUnavailable), FollowUpV::Nothing),
        },
    }
}

/// A looked-up invoice whose state maps to settled is accompanied by
/// exactly one incoming settlement notification for its payment hash;
/// any other state produces none.
pub proof fn lemma_lookup_settled_notifies(
    call: CallV,
    state: BackendInvoiceState,
    invoice: Option<Seq<char>>,
    payment_hash_hex: Seq<char>,
    amount_msat: u64,
    fee_msat: u64,
    created_at: u64,
    settled_at: Option<u64>,
    preimage_hex: Option<Seq<char>>,
    now: u64,
)
    requires
        call is LookupInvoice,
    ensures
        ({
            let out = OutcomeV::Looked {
                state,
                invoice,
                payment_hash_hex,
                amount_msat,
                fee_msat,
                created_at,
                settled_at,
                preimage_hex,
            };
            let (sr, sf) = apply_of(call, out, now);
            &&& sr is Ok
            &&& (sf is Notify <==> mapped_state(state) == InvoiceState::Settled)
            &&& (sf matches FollowUpV::Notify(n) ==> n.incoming == true && n.payment_hash
                == payment_hash_hex && n.amount_msat == amount_msat)
        }),
{
}

fn copy_opt_chars(v: &Option<Vec<char>>) -> (r: Option<Vec<char>>)
    ensures
        opt_chars_view2(r) == opt_chars_view2(*v),
{
    match v {
        Some(s) => Some(crate::nwc_types::copy_chars(s)),
        None => None,
    }
}

/// Maps what the backend reported to the typed result and its follow-up.
/// `now` is the caller's clock reading, used where the backend gives no
/// settlement time of its own.
pub fn apply_outcome(call: &BackendCall, outcome: &BackendOutcome, now: u64) -> (r: (
    Result<NwcResponse, NwcError>,
    FollowUp,
))
    ensures
        ({
            let (sr, sf) = apply_of(call@, outcome@, now);
            &&& match (r.0, sr) {
                (Result::Ok(a), Result::Ok(b)) => a@ == b,
                (Result::Err(e1), Result::Err(e2)) => e1 == e2,
                _ => false,
            }
            &&& r.1@ == sf
        }),
{
    match outcome {
        BackendOutcome::Unavailable => (Err(NwcError::BackendUnavailable), FollowUp::Nothing),
        BackendOutcome::TimedOut => (Err(NwcError::Timeout), FollowUp::Nothing),
        BackendOutcome::Balance { confirmed_msat } => match call {
            BackendCall::GetBalance => (
                Ok(
                    NwcResponse::GetBalance(
                        crate::nwc_types::GetBalanceResult { balance: *confirmed_msat },
                    ),
                ),
                FollowUp::Nothing,
            ),
            _ => (Err(NwcError::BackendUnavailable), FollowUp::Nothing),
        },
        BackendOutcome::Payment { success, preimage_hex, payment_hash_hex, amount_msat, fee_msat } => {
            if !*success {
                (Err(NwcError::BackendUnavailable), FollowUp::Nothing)
            } else {
                match call {
                    BackendCall::PayInvoice { invoice, amount_msat: _asked } => {
                        let pre = crate::nwc_types::copy_chars(preimage_hex);
                        let notif = SettlementNotification {
                            incoming: false,
                            invoice: Some(crate::nwc_types::copy_chars(invoice)),
                            preimage: crate::nwc_types::copy_chars(preimage_hex),
                            payment_hash: crate::nwc_types::copy_chars(payment_hash_hex),
                            amount_msat: *amount_msat,
                            fees_msat: *fee_msat,
                            created_at: now,
                            expires_at: None,
                            settled_at: now,
                        };
                        (
                            Ok(
                                NwcResponse::PayInvoice(
                                    PayInvoiceResult { preimage: pre, fees_paid_msat: *fee_msat },
                                ),
                            ),
                            FollowUp::Notify(notif),
                        )
                    },
                    BackendCall::PayKeysend(k) => {
                        let pre: Vec<char> = if preimage_hex.len() > 0 {
                            crate::nwc_types::copy_chars(preimage_hex)
                        } else {
                            let s = buffer_as_hex(copy_bytes(&k.preimage));
                            chars_of(s.as_str())
                        };
                        let notif = SettlementNotification {
                            incoming: false,
                            invoice: None,
                            preimage: crate::nwc_types::copy_chars(&pre),
                            payment_hash: {
                                let h = buffer_as_hex(copy_bytes(&k.payment_hash));
                                chars_of(h.as_str())
                            },
                            amount_msat: k.amount_msat,
                            fees_msat: *fee_msat,
                            created_at: now,
                            expires_at: None,
                            settled_at: now,
                        };
                        (
                            Ok(
                                NwcResponse::PayKeysend(
                                    PayKeysendResult { preimage: pre, fees_paid_msat: *fee_msat },
                                ),
                            ),
                            FollowUp::Notify(notif),
                        )
                    },
                    _ => (Err(NwcError::BackendUnavailable), FollowUp::Nothing),
                }
            }
        },
        BackendOutcome::Created { invoice, payment_hash_hex, created_at } => match call {
            BackendCall::MakeInvoice { amount_msat, description, description_hash: _dh, expiry } => {
                let expires_at: Option<u64> = match expiry {
                    None => None,
                    Some(e) => if *created_at <= u64::MAX - *e {
                        Some(*created_at + *e)
                    } else {
                        None
                    },
                };
                (
                    Ok(
                        NwcResponse::MakeInvoice(
                            MakeInvoiceResult {
                                invoice: crate::nwc_types::copy_chars(invoice),
                                payment_hash: crate::nwc_types::copy_chars(payment_hash_hex),
                                amount_msat: *amount_msat,
                                created_at: *created_at,
                                expires_at,
                                description: copy_opt_chars(description),
                            },
                        ),
                    ),
                    FollowUp::Watch {
                        payment_hash: crate::nwc_types::copy_chars(payment_hash_hex),
                    },
                )
            },
            _ => (Err(NwcError::BackendUnavailable), FollowUp::Nothing),
        },
        BackendOutcome::Looked {
            state,
            invoice,
            payment_hash_hex,
            amount_msat,
            fee_msat,
            created_at,
            settled_at,
            preimage_hex,
        } => match call {
            BackendCall::LookupInvoice { payment_hash: _ph, invoice: _inv } => {
                let st: InvoiceState = match state {
                    BackendInvoiceState::Settled => InvoiceState::Settled,
                    BackendInvoiceState::Canceled => InvoiceState::Failed,
                    BackendInvoiceState::Open => InvoiceState::Pending,
                    BackendInvoiceState::Accepted => InvoiceState::Pending,
                };
                let resp = NwcResponse::LookupInvoice(
                    LookupInvoiceResult {
                        invoice: copy_opt_chars(invoice),
                        payment_hash: crate::nwc_types::copy_chars(payment_hash_hex),
                        amount_msat: *amount_msat,
                        fees_paid_msat: *fee_msat,
                        created_at: *created_at,
                        settled_at: *settled_at,
                        state: st,
                        preimage: copy_opt_chars(preimage_hex),
                    },
                );
                let fu: FollowUp = if matches!(st, InvoiceState::Settled) {
                    let pre: Vec<char> = match preimage_hex {
                        Some(p) => crate::nwc_types::copy_chars(p),
                        None => Vec::new(),
                    };
                    let sat: u64 = match settled_at {
                        Some(s) => *s,
                        None => now,
                    };
                    FollowUp::Notify(
                        SettlementNotification {
                            incoming: true,
                            invoice: copy_opt_chars(invoice),
                            preimage: pre,
                            payment_hash: crate::nwc_types::copy_chars(payment_hash_hex),
                            amount_msat: *amount_msat,
                            fees_msat: *fee_msat,
                            created_at: *created_at,
                            expires_at: None,
                            settled_at: sat,
                        },
                    )
                } else {
                    FollowUp::Nothing
                };
                (Ok(resp), fu)
            },
            _ => (Err(NwcError::BackendUnavailable), FollowUp::Nothing),
        },
    }
}
} // verus!


