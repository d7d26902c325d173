//! A presence-aware message relay: a registry of online peers keyed by their
//! network address, and the per-connection decisions of the relay server
//! (onboarding, chat forwarding, disconnect announcements), all verified.

pub mod address;
pub mod action;
pub mod registry;
pub mod relay;
mod seq_facts;
pub mod laws;
pub mod client;
