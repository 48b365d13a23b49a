//! The version quad.

use crate::decode::{Decode, DecodeError};
use crate::encode::{Encode, EncodeError};
use vstd::prelude::*;

verus! {

/// A version as four raw bytes.
#[derive(Debug, Clone, Copy, PartialEq, Eq, Structural)]
pub struct Version {
    pub major: u8,
    pub minor: u8,
    pub build: u8,
    pub beta: u8,
}

impl View for Version {
    type V = Version;

    open spec fn view(&self) -> Version {
        *self
    }
}

impl Encode for Version {
    open spec fn wire(value: Version) -> Result<Seq<u8>, EncodeError> {
        Ok(seq![value.major, value.minor, value.build, value.beta])
    }

    fn encode(&self) -> (out: Result<Vec<u8>, EncodeError>) {
        let mut bytes: Vec<u8> = Vec::new();
        bytes.push(self.major);
        bytes.push(self.minor);
        bytes.push(self.build);
        bytes.push(self.beta);
        assert(bytes@ =~= seq![self.major, self.minor, self.build, self.beta]);
        Ok(bytes)
    }
}

impl Decode for Version {
    open spec fn parse(data: Seq<u8>) -> Result<(Version, nat), DecodeError> {
        if data.len() < 4 {
            Err(DecodeError::PacketTooShort)
        } else {
            Ok((Version { major: data[0], minor: data[1], build: data[2], beta: data[3] }, 4))
        }
    }

    fn decode(data: &[u8]) -> (out: Result<(Self, usize), DecodeError>) {
        if data.len() < 4 {
            return Err(DecodeError::PacketTooShort);
        }
        Ok((Version { major: data[0], minor: data[1], build: data[2], beta: data[3] }, 4))
    }
}

/// A version comes back from its encoding unchanged, whatever follows it.
pub proof fn lemma_version_round_trip(value: Version, rest: Seq<u8>)
    ensures
        Version::wire(value) matches Ok(bytes) && Version::parse(bytes + rest) == Ok::<
            (Version, nat),
            DecodeError,
        >((value, bytes.len())),
{
    let bytes = seq![value.major, value.minor, value.build, value.beta];
    let data = bytes + rest;
    assert(data[0] == bytes[0] && data[1] == bytes[1] && data[2] == bytes[2] && data[3]
        == bytes[3]);
}

} // verus!
