//! The wire primitives and the packet envelopes built from them.

pub mod envelope;
pub mod strings;
pub mod timestamp;
pub mod varint;
pub mod version;

pub use crate::encode::{Encode, EncodeError};
pub use envelope::{DeviceBoundPacket, HostBoundPacket};
pub use strings::{TerminatedFixedLengthString, UnterminatedFixedLengthString, VarLengthString};
pub use timestamp::j2000_from_unix;
pub use varint::VarU16;
pub use version::Version;
