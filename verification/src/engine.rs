//! The engine's serving step: route one inbound event to the session
//! that owns it, decrypt and decode, and prepare the response event.
//! The surrounding loop (connect, subscribe, publish, await) lives with
//! the caller; every decision it needs is made and proved here.

use vstd::prelude::*;

use crate::codec::nip04_decrypt_of;
use crate::json::text_of;
use crate::nwc_types::{
    NwcError, NwcRequest, NwcResponse, RequestV, envelope_v, error_envelope_v, error_event_content,
    request_of, supported_methods_v,
};
use crate::registry::{SessionRegistry, lookup_of};
use crate::session::{SessionV, WalletSession};

verus! {

/// Event kinds of the wallet protocol.
pub const INFO_KIND: u16 = 13194;

pub const REQUEST_KIND: u16 = 23194;

pub const RESPONSE_KIND: u16 = 23195;

pub const NOTIFICATION_KIND: u16 = 23196;

/// One event off the multiplexed relay stream, as plain values.
pub struct InboundEvent {
    pub subscription_handle: String,
    pub kind: u16,
    pub sender: String,
    pub content: String,
    pub id: String,
    pub created_at: u64,
}

/// The ciphertext opens to exactly this plaintext under this session.
pub open spec fn decrypts_to(s: SessionV, cipher: Seq<char>, plain: Seq<char>) -> bool {
    nip04_decrypt_of(s.secret, s.pubkey, cipher) == Option::Some(plain)
}

/// A response or notification event, ready for signing and publishing.
pub struct ResponseEventParts {
    pub kind: u16,
    pub content: String,
    /// The identifier of the request event this answers.
    pub reply_to: String,
    /// The identity key the event is addressed to.
    pub audience: String,
}

/// The envelope a request's outcome is serialized to: the result on
/// success, the error envelope otherwise.
pub open spec fn outcome_envelope_v(
    outcome: Result<NwcResponse, NwcError>,
    error_result_type: Seq<char>,
) -> crate::json::JsonV {
    match outcome {
        Result::Ok(resp) => envelope_v(resp@),
        Result::Err(e) => error_envelope_v(error_result_type, e),
    }
}

/// Builds the response event for one finished request: encrypted under
/// the very session that owned the request, tagged with the triggering
/// event, addressed to the requester.
pub fn respond_parts(
    session: &WalletSession,
    request_event_id: &String,
    outcome: &Result<NwcResponse, NwcError>,
    error_result_type: &str,
) -> (r: ResponseEventParts)
    ensures
        r.kind == RESPONSE_KIND,
        r.reply_to@ == request_event_id@,
        r.audience@ == session@.pubkey,
        decrypts_to(session@, r.content@, text_of(outcome_envelope_v(*outcome, error_result_type@))),
{
    let plain: String = match outcome {
        Ok(resp) => match resp.to_event_content() {
            Ok(s) => s,
            Err(_) => unreached(),
        },
        Err(e) => error_event_content(error_result_type, e),
    };
    let content = session.encrypt(plain.as_str());
    ResponseEventParts {
        kind: REQUEST_KIND + 1,
        content,
        reply_to: clone_string(request_event_id),
        audience: clone_string(session.pubkey()),
    }
}

fn clone_string(s: &String) -> (r: String)
    ensures
        r@ == s@,
{
    String::from_str(s.as_str())
}

/// What the serving loop does with one inbound event.
pub enum EngineStep {
    /// Not a request event: dropped before any codec work.
    IgnoredKind,
    /// No session owns the subscription: discarded, nothing goes out.
    UnknownSubscription,
    /// Owned, but the payload does not open under the owner's keys:
    /// dropped silently, since the sender cannot be authenticated.
    Undecryptable { session_index: usize },
    /// Decryptable but not a well-formed command: the error envelope is
    /// ready to publish.
    RespondError { session_index: usize, parts: ResponseEventParts },
    /// A decoded command for the dispatcher, owned by this session.
    Dispatch { session_index: usize, request: NwcRequest },
}

/// Routes one inbound event. An event whose kind is not the request kind
/// is ignored before any codec work; an event from an unknown
/// subscription is discarded with zero outbound events; everything else
/// is handled under the keys of exactly the session that owns the
/// subscription.
pub fn handle_event(reg: &SessionRegistry, ev: &InboundEvent) -> (r: EngineStep)
    ensures
        (ev.kind != REQUEST_KIND) <==> r is IgnoredKind,
        (ev.kind == REQUEST_KIND && lookup_of(reg@, ev.subscription_handle@) is None)
            <==> r is UnknownSubscription,
        match r {
            EngineStep::IgnoredKind => true,
            EngineStep::UnknownSubscription => true,
            EngineStep::Undecryptable { session_index } => {
                &&& lookup_of(reg@, ev.subscription_handle@) == Option::Some(session_index as int)
                &&& nip04_decrypt_of(
                    reg@[session_index as int].1.secret,
                    reg@[session_index as int].1.pubkey,
                    ev.content@,
                ) is None
            },
            EngineStep::RespondError { session_index, parts } => {
                &&& lookup_of(reg@, ev.subscription_handle@) == Option::Some(session_index as int)
                &&& parts.kind == RESPONSE_KIND
                &&& parts.reply_to@ == ev.id@
                &&& parts.audience@ == reg@[session_index as int].1.pubkey
                &&& match nip04_decrypt_of(
                    reg@[session_index as int].1.secret,
                    reg@[session_index as int].1.pubkey,
                    ev.content@,
                ) {
                    Option::Some(plain) => request_of(plain) matches Result::Err(e)
                        && decrypts_to(
                        reg@[session_index as int].1,
                        parts.content@,
                        text_of(error_envelope_v(""@, e)),
                    ),
                    Option::None => false,
                }
            },
            EngineStep::Dispatch { session_index, request } => {
                &&& lookup_of(reg@, ev.subscription_handle@) == Option::Some(session_index as int)
                &&& match nip04_decrypt_of(
                    reg@[session_index as int].1.secret,
                    reg@[session_index as int].1.pubkey,
                    ev.content@,
                ) {
                    Option::Some(plain) => request_of(plain) == Result::<RequestV, NwcError>::Ok(
                        request@,
                    ),
                    Option::None => false,
                }
            },
        },
{
    if ev.kind != REQUEST_KIND {
        return EngineStep::IgnoredKind;
    }
    let i = match reg.lookup(ev.subscription_handle.as_str()) {
        None => {
            return EngineStep::UnknownSubscription;
        },
        Some(i) => i,
    };
    let session = reg.session_at(i);
    let plain = match session.decrypt(ev.content.as_str()) {
        None => {
            return EngineStep::Undecryptable { session_index: i };
        },
        Some(p) => p,
    };
    match NwcRequest::from_value(plain.as_str()) {
        Ok(req) => EngineStep::Dispatch { session_index: i, request: req },
        Err(e) => EngineStep::RespondError {
            session_index: i,
            parts: respond_parts(session, &ev.id, &Err(e), ""),
        },
    }
}

/// What one session's subscription asks of the relays: requests
/// addressed to this session's identity, from the engine's start on.
/// Replay of older requests is deliberately not serviced.
pub struct SubscriptionFilter {
    pub addressed_to: String,
    pub kind: u16,
    pub since: u64,
}

pub fn subscription_filter(session: &WalletSession, since: u64) -> (r: SubscriptionFilter)
    ensures
        r.addressed_to@ == session@.pubkey,
        r.kind == REQUEST_KIND,
        r.since == since,
{
    SubscriptionFilter {
        addressed_to: clone_string(session.pubkey()),
        kind: REQUEST_KIND,
        since,
    }
}

// ------------------------------------------------------------------
// Capability announcement
// ------------------------------------------------------------------
/// The method names joined by single spaces, from position `i` on.
pub open spec fn joined(ms: Seq<Seq<char>>, i: int) -> Seq<char>
    decreases ms.len() - i,
{
    if i < 0 || i >= ms.len() {
        Seq::empty()
    } else if i == ms.len() - 1 {
        ms[i]
    } else {
        ms[i] + seq![' '] + joined(ms, i + 1)
    }
}

fn push_joined(ms: &Vec<String>, i: usize, out: &mut String)
    requires
        i <= ms@.len(),
    ensures
        final(out)@ == old(out)@ + joined(ms.deep_view(), i as int),
    decreases ms@.len() - i,
{
    if i >= ms.len() {
        proof {
            assert(out@ =~= old(out)@ + joined(ms.deep_view(), i as int));
        }
        return ;
    }
    out.append(ms[i].as_str());
    if i + 1 < ms.len() {
        out.append(" ");
        push_joined(ms, i + 1, out);
    }
    proof {
        reveal_strlit(" ");
        assert(ms.deep_view()[i as int] == ms@[i as int]@);
        assert(out@ =~= old(out)@ + joined(ms.deep_view(), i as int));
    }
}

/// The content of the capability announcement: every supported method,
/// space-separated, published once at startup from the service identity.
pub fn announcement_content() -> (r: String)
    ensures
        r@ == joined(supported_methods_v(), 0),
{
    let methods = crate::nwc_types::supported_method_names();
    let mut out = String::new();
    push_joined(&methods, 0, &mut out);
    out
}

/// The encryption scheme identifier announced beside the methods.
pub fn encryption_tag() -> (r: &'static str)
    ensures
        r@ == "nip04"@,
{
    "nip04"
}

// ------------------------------------------------------------------
// Engine lifecycle
// ------------------------------------------------------------------
/// The engine's phases, from start to drained shutdown.
#[derive(Clone, Copy, Debug, PartialEq, Eq, Structural)]
pub enum EngineState {
    Idle,
    Announcing,
    Subscribing,
    Serving,
    ShuttingDown,
    Stopped,
}

/// What moves the engine between phases.
#[derive(Clone, Copy, Debug, PartialEq, Eq, Structural)]
pub enum EngineEvent {
    Start,
    Announced,
    Subscribed,
    Shutdown,
    Drained,
}

/// The phase transition relation: shutdown can interrupt any working
/// phase; everything else advances in order, and stray events change
/// nothing.
pub open spec fn next_state_of(s: EngineState, ev: EngineEvent) -> EngineState {
    match (s, ev) {
        (EngineState::Idle, EngineEvent::Start) => EngineState::Announcing,
        (EngineState::Announcing, EngineEvent::Announced) => EngineState::Subscribing,
        (EngineState::Subscribing, EngineEvent::Subscribed) => EngineState::Serving,
        (EngineState::Announcing, EngineEvent::Shutdown) => EngineState::ShuttingDown,
        (EngineState::Subscribing, EngineEvent::Shutdown) => EngineState::ShuttingDown,
        (EngineState::Serving, EngineEvent::Shutdown) => EngineState::ShuttingDown,
        (EngineState::ShuttingDown, EngineEvent::Drained) => EngineState::Stopped,
        (_, _) => s,
    }
}

pub fn next_state(s: EngineState, ev: EngineEvent) -> (r: EngineState)
    ensures
        r == next_state_of(s, ev),
{
    match (s, ev) {
        (EngineState::Idle, EngineEvent::Start) => EngineState::Announcing,
        (EngineState::Announcing, EngineEvent::Announced) => EngineState::Subscribing,
        (EngineState::Subscribing, EngineEvent::Subscribed) => EngineState::Serving,
        (EngineState::Announcing, EngineEvent::Shutdown) => EngineState::ShuttingDown,
        (EngineState::Subscribing, EngineEvent::Shutdown) => EngineState::ShuttingDown,
        (EngineState::Serving, EngineEvent::Shutdown) => EngineState::ShuttingDown,
        (EngineState::ShuttingDown, EngineEvent::Drained) => EngineState::Stopped,
        (_, _) => s,
    }
}

// ------------------------------------------------------------------
// Relay union
// ------------------------------------------------------------------
pub open spec fn sessions_view(s: Seq<WalletSession>) -> Seq<SessionV> {
    Seq::new(
        s.len(),
        |i: int|
            if 0 <= i < s.len() {
                s[i]@
            } else {
                arbitrary()
            },
    )
}

/// Some session in the set names this relay.
pub open spec fn relay_in_sessions(sv: Seq<SessionV>, u: Seq<char>) -> bool {
    exists|i: int| 0 <= i < sv.len() && #[trigger] sv[i].relays.contains(u)
}

fn contains_str(v: &Vec<String>, s: &str) -> (r: bool)
    ensures
        r == v.deep_view().contains(s@),
{
    let mut i: usize = 0;
    while i < v.len()
        invariant
            i <= v@.len(),
            forall|j: int| 0 <= j < i ==> v.deep_view()[j] != s@,
        decreases v@.len() - i,
    {
        if crate::strops::str_eq_str(v[i].as_str(), s) {
            proof {
                assert(v.deep_view()[i as int] == s@);
            }
            return true;
        }
        i = i + 1;
    }
    proof {
        assert(forall|j: int| 0 <= j < v.deep_view().len() ==> v.deep_view()[j] != s@);
    }
    false
}

/// The union of every session's relay set, each URL once, for the
/// startup connection and the capability announcement.
pub fn relay_union(sessions: &Vec<WalletSession>) -> (r: Vec<String>)
    ensures
        forall|u: Seq<char>|
            #[trigger] r.deep_view().contains(u) <==> relay_in_sessions(
                sessions_view(sessions@),
                u,
            ),
        forall|i: int, j: int|
            0 <= i < j < r.deep_view().len() ==> r.deep_view()[i] != r.deep_view()[j],
{
    let ghost sv = sessions_view(sessions@);
    let mut out: Vec<String> = Vec::new();
    let mut i: usize = 0;
    while i < sessions.len()
        invariant
            i <= sessions@.len(),
            sv == sessions_view(sessions@),
            forall|u: Seq<char>|
                #[trigger] out.deep_view().contains(u) <==> exists|a: int|
                    0 <= a < i && #[trigger] sv[a].relays.contains(u),
            forall|a: int, b: int|
                0 <= a < b < out.deep_view().len() ==> out.deep_view()[a] != out.deep_view()[b],
        decreases sessions@.len() - i,
    {
        let relays = sessions[i].relays();
        let mut j: usize = 0;
        while j < relays.len()
            invariant
                i < sessions@.len(),
                j <= relays@.len(),
                sv == sessions_view(sessions@),
                relays.deep_view() == sv[i as int].relays,
                forall|u: Seq<char>|
                    #[trigger] out.deep_view().contains(u) <==> ((exists|a: int|
                        0 <= a < i && #[trigger] sv[a].relays.contains(u)) || (exists|b: int|
                        0 <= b < j && relays.deep_view()[b] == u)),
                forall|a: int, b: int|
                    0 <= a < b < out.deep_view().len() ==> out.deep_view()[a] != out.deep_view()[b],
            decreases relays@.len() - j,
        {
            let url = &relays[j];
            if !contains_str(&out, url.as_str()) {
                let ghost before = out.deep_view();
                out.push(clone_string(url));
                proof {
                    assert(out.deep_view() =~= before.push(url@));
                    assert forall|u: Seq<char>| #[trigger]
                        out.deep_view().contains(u) implies ((exists|a: int|
                        0 <= a < i && #[trigger] sv[a].relays.contains(u)) || (exists|b: int|
                        0 <= b < j + 1 && relays.deep_view()[b] == u)) by {
                        if u == url@ {
                            assert(relays.deep_view()[j as int] == u);
                        } else {
                            assert(before.contains(u));
                        }
                    }
                    assert forall|u: Seq<char>|
                        ((exists|a: int| 0 <= a < i && #[trigger] sv[a].relays.contains(u)) || (
                        exists|b: int|
                            0 <= b < j + 1 && relays.deep_view()[b] == u)) implies #[trigger] out.deep_view().contains(
                        u,
                    ) by {
                        if u == url@ {
                            assert(out.deep_view()[before.len() as int] == u);
                        } else {
                            if exists|b: int| 0 <= b < j + 1 && relays.deep_view()[b] == u {
                                let b = choose|b: int|
                                    0 <= b < j + 1 && relays.deep_view()[b] == u;
                                assert(b < j);
                            }
                            assert(before.contains(u));
                            let w = choose|k: int| 0 <= k < before.len() && before[k] == u;
                            assert(out.deep_view()[w] == u);
                        }
                    }
                }
            } else {
                proof {
                    assert forall|u: Seq<char>|
                        ((exists|a: int| 0 <= a < i && #[trigger] sv[a].relays.contains(u)) || (
                        exists|b: int|
                            0 <= b < j + 1 && relays.deep_view()[b] == u)) implies #[trigger] out.deep_view().contains(
                        u,
                    ) by {
                        if u == url@ {
                        } else {
                            if exists|b: int| 0 <= b < j + 1 && relays.deep_view()[b] == u {
                                let b = choose|b: int|
                                    0 <= b < j + 1 && relays.deep_view()[b] == u;
                                assert(b < j);
                            }
                        }
                    }
                }
            }
            j = j + 1;
        }
        i = i + 1;
        proof {
            assert forall|u: Seq<char>| #[trigger]
                out.deep_view().contains(u) implies (exists|a: int|
                0 <= a < i && #[trigger] sv[a].relays.contains(u)) by {
                if exists|b: int| 0 <= b < sv[i - 1].relays.len() && #[trigger] sv[
                    i - 1
                ].relays[b] == u {
                    assert(sv[i - 1].relays.contains(u));
                }
            }
            assert forall|u: Seq<char>|
                (exists|a: int| 0 <= a < i && #[trigger] sv[a].relays.contains(u)) implies #[trigger] out.deep_view().contains(
                u,
            ) by {
                let a = choose|a: int| 0 <= a < i && #[trigger] sv[a].relays.contains(u);
                if a < i - 1 {
                } else {
                    let b = choose|b: int|
                        0 <= b < sv[a].relays.len() && sv[a].relays[b] == u;
                }
            }
        }
    }
    proof {
        assert forall|u: Seq<char>| #[trigger]
            out.deep_view().contains(u) <==> relay_in_sessions(sv, u) by {}
    }
    out
}

} // verus!

