//! The dispatch and transport core of a Twirp-style RPC protocol: error envelopes and
//! their status codes, the binary and JSON encodings of messages, a routing table with
//! request dispatch, and the client side of a call.

pub mod client;
pub mod codec;
pub mod error;
pub mod haberdash;
pub mod json;
pub mod server;
pub mod service;
pub mod text;
