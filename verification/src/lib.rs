//! Core of a peer-to-peer chat system carried over a capability-transfer
//! protocol. Peers exchange signed messages through authenticated sessions;
//! each peer hosts channels that remote peers list, join and receive
//! fan-out messages on.
//!
//! The heart of it is the chat manager: it owns the identity and the
//! directories, consumes every network event in arrival order, and serves
//! the gateway, portal and channel capabilities. Session handlers serve
//! fetch-by-swiss-number requests and propagate aborts; the channel engine
//! fans signed messages out to every connected remote outbox.

pub mod channel;
pub mod cli;
pub mod codec;
pub mod command;
pub mod crypto;
pub mod event;
pub mod gateway;
pub mod ident;
pub mod keymap;
pub mod locator;
pub mod manager;
pub mod message;
pub mod netlayer;
pub mod portal;
pub mod session;
pub mod user;
