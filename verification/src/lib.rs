//! A "give feedback before you ask for feedback" ledger for chat channels.
//!
//! Members earn a one-time credit by replying substantively to someone
//! else's open feedback request; posting a new request consumes a credit.
//! The crate holds the verified core: message classification, the
//! persistent credit ledger and open-request lists, and the per-event
//! workflow decisions.  Gateway I/O (receiving chat events, sending
//! replies) lives outside and hands the core plain values.

pub mod types;
pub mod keys;
pub mod classify;
pub mod store;
pub mod workflow;
pub mod render;
pub mod laws;
