//! Serverless peer-to-peer chat: two browser peers negotiate a direct channel
//! by exchanging an opaque connection code by hand, then talk over it.
//!
//! The crate holds the decisions of that subsystem as verified functions on
//! plain values. The caller owns the live transport: it performs the commands
//! that the functions here hand out and reports transport events back.

pub mod b64;
pub mod chat_model;
pub mod chunker;
pub mod codec;
pub mod config;
pub mod envelope;
pub mod file_sharing;
pub mod loopback;
pub mod network;
pub mod pkce;
pub mod qr_code;
pub mod state;
pub mod text;
