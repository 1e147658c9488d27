//! Client-side protocol and state-sync engine for a single-room chat.
//!
//! The crate covers the wire-envelope codec, the roster/history state store,
//! the inbound dispatcher that turns decoded envelopes into state
//! transitions, and the outbound composer that builds the registration and
//! message-submission payloads.  Transport, rendering and session
//! bootstrapping are external collaborators: they hand raw payload text in
//! and carry composed payload text out.

pub mod avatar;
pub mod codec;
pub mod laws;
pub mod outbound;
pub mod state;
pub mod strutil;
