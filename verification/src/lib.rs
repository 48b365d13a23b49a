//! Host-side framing for a V5 peripheral: wire primitives, packet envelopes and
//! the retrying request/response handshake, with their contracts.

pub mod connection;
pub mod decode;
pub mod encode;
pub mod packets;
