//! Verified core of a Nostr Wallet Connect service that fronts a Lightning
//! node: session and capability-URI handling, the wire codec (envelope
//! encryption and JSON request/result shapes), the session registry, the
//! command dispatcher, and the settlement-notification builders.

pub mod codec;
pub mod config;
pub mod dispatch;
pub mod engine;
pub mod hexstr;
pub mod json;
pub mod lifecycle;
pub mod notify;
pub mod nwc_types;
pub mod parse;
pub mod registry;
pub mod session;
pub mod strops;
pub mod uri;
