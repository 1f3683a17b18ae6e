//! Peer-to-peer connection substrate.
//!
//! Every decision the connection service takes is a function of this crate,
//! from a state and an event to the next state and an action; sockets, threads
//! and the poll loop live with the embedder, which performs the actions and
//! hands back what the network answered.
//!
//! - `common` holds the reactor's registry of tokens, contexts and states.
//! - `net` holds the state machines: service discovery, the framed socket,
//!   handshakes and peers, races of connection attempts, the bootstrap cache.
//! - `service` ties them together behind the commands of the service.
//! - `config` and `event` hold what goes into the service and what comes out.
//! - `compat` names the thread that runs it all.

pub mod common;
pub mod compat;
pub mod config;
pub mod event;
pub mod net;
pub mod service;
