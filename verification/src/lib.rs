//! A local-network peer discovery and signaling library.
//!
//! Peers find a running relay through a broadcast beacon datagram, connect to
//! it, and exchange handshake messages (offers, answers, announcements) that
//! the relay routes by peer identity.  The registry of connected peers, the
//! message dispatch rules, and the wire codec live here; socket handling is
//! left to the embedding application.

use vstd::prelude::*;

pub mod codec;
pub mod discovery;
pub mod messages;
pub mod registry;
pub mod relay;

verus! {

/// The well-known UDP port the beacon broadcasts on.
pub const DISCOVERY_PORT: u16 = 35500;

/// The TCP port the signaling relay listens on.
pub const SERVER_PORT: u16 = 8080;

} // verus!
