//! Settlement notifications: the out-of-band push sent when a payment
//! settles, independent of any request/response exchange.

use vstd::prelude::*;

use crate::json::{Json, JsonV, obj_view, text_of};
use crate::nwc_types::opt_chars_view;
use crate::session::WalletSession;
use crate::codec::nip04_decrypt_of;
use crate::strops::chars_of;

verus! {

/// One settled payment, as pushed to the owning session.
pub struct SettlementNotification {
    /// `true` for a payment received, `false` for a payment sent.
    pub incoming: bool,
    pub invoice: Option<Vec<char>>,
    pub preimage: Vec<char>,
    pub payment_hash: Vec<char>,
    pub amount_msat: u64,
    pub fees_msat: u64,
    pub created_at: u64,
    pub expires_at: Option<u64>,
    pub settled_at: u64,
}

pub struct NotificationV {
    pub incoming: bool,
    pub invoice: Option<Seq<char>>,
    pub preimage: Seq<char>,
    pub payment_hash: Seq<char>,
    pub amount_msat: u64,
    pub fees_msat: u64,
    pub created_at: u64,
    pub expires_at: Option<u64>,
    pub settled_at: u64,
}

impl View for SettlementNotification {
    type V = NotificationV;

    open spec fn view(&self) -> NotificationV {
        NotificationV {
            incoming: self.incoming,
            invoice: opt_chars_view(self.invoice),
            preimage: self.preimage@,
            payment_hash: self.payment_hash@,
            amount_msat: self.amount_msat,
            fees_msat: self.fees_msat,
            created_at: self.created_at,
            expires_at: self.expires_at,
            settled_at: self.settled_at,
        }
    }
}

pub open spec fn notification_type_v(incoming: bool) -> Seq<char> {
    if incoming {
        "payment_received"@
    } else {
        "payment_sent"@
    }
}

/// The notification envelope: its type tag and the payment fields.
pub open spec fn notification_envelope_v(n: NotificationV) -> JsonV {
    JsonV::Obj(
        seq![
            ("notification_type"@, JsonV::Text(notification_type_v(n.incoming))),
            (
                "notification"@,
                JsonV::Obj(
                    crate::nwc_types::opt_field(
                        "invoice"@,
                        crate::nwc_types::opt_text_jv(n.invoice),
                    ) + seq![
                        ("preimage"@, JsonV::Text(n.preimage)),
                        ("payment_hash"@, JsonV::Text(n.payment_hash)),
                        ("amount_msat"@, JsonV::UInt(n.amount_msat)),
                        ("fees_msat"@, JsonV::UInt(n.fees_msat)),
                        ("created_at"@, JsonV::UInt(n.created_at)),
                    ] + crate::nwc_types::opt_field(
                        "expires_at"@,
                        crate::nwc_types::opt_uint_jv(n.expires_at),
                    ) + seq![("settled_at"@, JsonV::UInt(n.settled_at))],
                ),
            ),
        ],
    )
}

impl SettlementNotification {
    /// Serializes the notification envelope.
    pub fn to_event_content(&self) -> (r: String)
        ensures
            r@ == text_of(notification_envelope_v(self@)),
    {
        let mut inner: Vec<(Vec<char>, Json)> = Vec::new();
        match &self.invoice {
            Some(inv) => inner.push(
                (chars_of("invoice"), Json::Text(crate::nwc_types::copy_chars(inv))),
            ),
            None => {},
        }
        inner.push((chars_of("preimage"), Json::Text(crate::nwc_types::copy_chars(&self.preimage))));
        inner.push(
            (
                chars_of("payment_hash"),
                Json::Text(crate::nwc_types::copy_chars(&self.payment_hash)),
            ),
        );
        inner.push((chars_of("amount_msat"), Json::UInt(self.amount_msat)));
        inner.push((chars_of("fees_msat"), Json::UInt(self.fees_msat)));
        inner.push((chars_of("created_at"), Json::UInt(self.created_at)));
        match self.expires_at {
            Some(e) => inner.push((chars_of("expires_at"), Json::UInt(e))),
            None => {},
        }
        inner.push((chars_of("settled_at"), Json::UInt(self.settled_at)));
        proof {
            assert(obj_view(inner@) =~= notification_envelope_v(self@)->Obj_0[1].1->Obj_0);
        }
        let tag: &str = if self.incoming {
            "payment_received"
        } else {
            "payment_sent"
        };
        let mut env: Vec<(Vec<char>, Json)> = Vec::new();
        env.push((chars_of("notification_type"), Json::Text(chars_of(tag))));
        env.push((chars_of("notification"), Json::Obj(inner)));
        proof {
            assert(obj_view(env@) =~= notification_envelope_v(self@)->Obj_0);
        }
        let content = Json::Obj(env);
        let chars = crate::json::to_text(&content);
        crate::strops::string_of(&chars)
    }
}

/// Encrypts a settlement notification for its session: what `notify`
/// publishes as event content. The session that decrypted the request is
/// the only one whose keys can read this.
pub fn notify_content(session: &WalletSession, n: &SettlementNotification) -> (r: String)
    ensures
        nip04_decrypt_of(session@.secret, session@.pubkey, r@) == Some(
            text_of(notification_envelope_v(n@)),
        ),
{
    let plain = n.to_event_content();
    session.encrypt(plain.as_str())
}


/// What the backend's settlement wait reported for one watched invoice.
pub enum WatchEvent {
    /// The invoice settled, with its final fields.
    Settled {
        invoice: Option<Vec<char>>,
        payment_hash: Vec<char>,
        amount_msat: u64,
        created_at: u64,
        settled_at: u64,
        preimage: Vec<char>,
    },
    /// The invoice was canceled before settling.
    Canceled,
    /// The backend stream ended without a terminal report.
    Ended,
}

/// The watcher's one decision: an incoming notification exactly when the
/// invoice settled; cancellation and stream end notify nobody.
pub fn watch_step(ev: &WatchEvent) -> (r: Option<SettlementNotification>)
    ensures
        r is Some <==> ev is Settled,
        match ev {
            WatchEvent::Settled {
                invoice,
                payment_hash,
                amount_msat,
                created_at,
                settled_at,
                preimage,
            } => r matches Some(n) && n@.incoming == true && n@.invoice == opt_chars_view(*invoice)
                && n@.payment_hash == payment_hash@ && n@.amount_msat == *amount_msat
                && n@.fees_msat == 0 && n@.created_at == *created_at && n@.settled_at
                == *settled_at && n@.preimage == preimage@ && n@.expires_at is None,
            _ => r is None,
        },
{
    match ev {
        WatchEvent::Settled { invoice, payment_hash, amount_msat, created_at, settled_at, preimage } => {
            Some(
                SettlementNotification {
                    incoming: true,
                    invoice: match invoice {
                        Some(i) => Some(crate::nwc_types::copy_chars(i)),
                        None => None,
                    },
                    preimage: crate::nwc_types::copy_chars(preimage),
                    payment_hash: crate::nwc_types::copy_chars(payment_hash),
                    amount_msat: *amount_msat,
                    fees_msat: 0,
                    created_at: *created_at,
                    expires_at: None,
                    settled_at: *settled_at,
                },
            )
        },
        WatchEvent::Canceled => None,
        WatchEvent::Ended => None,
    }
}

} // verus!
