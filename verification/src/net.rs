//! Networking state machines: addresses, discovery, framing and peers.

pub mod addr;
pub mod bootstrap;
pub mod peer;
pub mod race;
pub mod service_discovery;
pub mod socket;
