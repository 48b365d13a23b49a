//! The packet envelopes of the two directions.

use crate::decode::{Decode, DecodeError};
use crate::encode::{Encode, EncodeError};
use crate::packets::varint::{
    lemma_var_u16_len, lemma_var_u16_round_trip, var_u16_bytes, var_u16_to_bytes, VarU16,
    VAR_U16_MAX,
};
use vstd::prelude::*;
use vstd::slice::slice_subrange;

verus! {

/// The four bytes every device-bound packet starts with.
pub open spec fn device_bound_header() -> Seq<u8> {
    seq![0xC9u8, 0x36u8, 0xB8u8, 0x47u8]
}

/// The two bytes every host-bound packet starts with.
pub open spec fn host_bound_header() -> Seq<u8> {
    seq![0xAAu8, 0x55u8]
}

/// A device-bound packet on the wire: the header, the command identifier, the
/// length of the payload as a variable-length integer, and the payload.
pub open spec fn device_bound_frame(id: u8, body: Seq<u8>) -> Seq<u8> {
    device_bound_header() + seq![id] + var_u16_bytes(body.len()) + body
}

/// Whether `data` starts with the bytes of `prefix`.
fn starts_with(data: &[u8], prefix: &[u8]) -> (out: bool)
    ensures
        out == (prefix@.len() <= data@.len() && data@.subrange(0, prefix@.len() as int)
            == prefix@),
{
    if data.len() < prefix.len() {
        return false;
    }
    let mut i: usize = 0;
    while i < prefix.len()
        invariant
            i <= prefix@.len() <= data@.len(),
            forall|j: int| 0 <= j < i ==> data@[j] == prefix@[j],
        decreases prefix@.len() - i,
    {
        if data[i] != prefix[i] {
            return false;
        }
        i += 1;
    }
    assert(data@.subrange(0, prefix@.len() as int) =~= prefix@);
    true
}

/// A payload on its way from the host to the device under the command
/// identifier `ID`.
#[derive(Debug, PartialEq, Eq)]
pub struct DeviceBoundPacket<P: Encode, const ID: u8> {
    header: [u8; 4],
    payload: P,
}

impl<P: Encode + Clone, const ID: u8> Clone for DeviceBoundPacket<P, ID> {
    fn clone(&self) -> (out: Self)
        ensures
            cloned::<P>(self.spec_payload(), out.spec_payload()),
    {
        proof {
            use_type_invariant(self);
        }
        Self { header: self.header, payload: self.payload.clone() }
    }
}

impl<P: Encode, const ID: u8> View for DeviceBoundPacket<P, ID> {
    type V = P::V;

    open spec fn view(&self) -> P::V {
        self.spec_payload()@
    }
}

impl<P: Encode, const ID: u8> DeviceBoundPacket<P, ID> {
    /// The header of every device-bound packet.
    pub const HEADER: [u8; 4] = [0xC9, 0x36, 0xB8, 0x47];

    /// The header held is the one of every packet of this direction.
    #[verifier::type_invariant]
    spec fn header_is_fixed(self) -> bool {
        self.header@ == device_bound_header()
    }

    /// The payload carried.
    pub closed spec fn spec_payload(&self) -> P {
        self.payload
    }

    /// Wraps `payload` for sending.
    pub fn new(payload: P) -> (out: Self)
        ensures
            out.spec_payload() == payload,
    {
        let header = Self::HEADER;
        Self { header, payload }
    }

    /// The header held, which is that of every device-bound packet.
    pub fn header(&self) -> (out: [u8; 4])
        ensures
            out@ == device_bound_header(),
    {
        proof {
            use_type_invariant(self);
        }
        self.header
    }

    /// The payload carried.
    pub fn payload(&self) -> (out: &P)
        ensures
            *out == self.spec_payload(),
    {
        &self.payload
    }

    /// Unwraps the payload.
    pub fn into_payload(self) -> (out: P)
        ensures
            out == self.spec_payload(),
    {
        self.payload
    }
}

impl<P: Encode, const ID: u8> Encode for DeviceBoundPacket<P, ID> {
    open spec fn wire(value: P::V) -> Result<Seq<u8>, EncodeError> {
        match P::wire(value) {
            Err(e) => Err(e),
            Ok(body) => if body.len() > VAR_U16_MAX {
                Err(EncodeError::VarShortTooLarge)
            } else {
                Ok(device_bound_frame(ID, body))
            },
        }
    }

    fn encode(&self) -> (out: Result<Vec<u8>, EncodeError>) {
        proof {
            use_type_invariant(self);
        }
        let mut body = match self.payload.encode() {
            Ok(body) => body,
            Err(e) => {
                return Err(e);
            },
        };
        if body.len() > VAR_U16_MAX as usize {
            return Err(EncodeError::VarShortTooLarge);
        }
        let ghost body_bytes = body@;
        let mut size = var_u16_to_bytes(body.len() as u16);
        let mut encoded: Vec<u8> = Vec::new();
        encoded.extend_from_slice(self.header.as_slice());
        encoded.push(ID);
        encoded.append(&mut size);
        encoded.append(&mut body);
        assert(encoded@ =~= device_bound_frame(ID, body_bytes));
        Ok(encoded)
    }
}

impl<P: Encode + Decode, const ID: u8> Decode for DeviceBoundPacket<P, ID> {
    open spec fn parse(data: Seq<u8>) -> Result<(P::V, nat), DecodeError> {
        if data.len() < 4 {
            Err(DecodeError::PacketTooShort)
        } else if data.subrange(0, 4) != device_bound_header() {
            Err(DecodeError::InvalidHeader)
        } else if data.len() < 5 {
            Err(DecodeError::PacketTooShort)
        } else if data[4] != ID {
            Err(DecodeError::UnexpectedId)
        } else {
            match VarU16::parse(data.subrange(5, data.len() as int)) {
                Err(e) => Err(e),
                Ok((size, taken)) => {
                    let start = 5 + taken;
                    if data.len() < start + size {
                        Err(DecodeError::PacketTooShort)
                    } else {
                        match P::parse(data.subrange(start as int, (start + size) as int)) {
                            Err(e) => Err(e),
                            Ok((value, used)) => if used != size {
                                Err(DecodeError::SizeMismatch)
                            } else {
                                Ok((value, start + size))
                            },
                        }
                    }
                },
            }
        }
    }

    fn decode(data: &[u8]) -> (out: Result<(Self, usize), DecodeError>) {
        let header = Self::HEADER;
        if data.len() < 4 {
            return Err(DecodeError::PacketTooShort);
        }
        if !starts_with(data, header.as_slice()) {
            return Err(DecodeError::InvalidHeader);
        }
        if data.len() < 5 {
            return Err(DecodeError::PacketTooShort);
        }
        if data[4] != ID {
            return Err(DecodeError::UnexpectedId);
        }
        let (size, taken) = match VarU16::decode(slice_subrange(data, 5, data.len())) {
            Ok(found) => found,
            Err(e) => {
                return Err(e);
            },
        };
        let size = size.into_inner() as usize;
        let start = 5 + taken;
        if data.len() - start < size {
            return Err(DecodeError::PacketTooShort);
        }
        let (payload, used) = match P::decode(slice_subrange(data, start, start + size)) {
            Ok(found) => found,
            Err(e) => {
                return Err(e);
            },
        };
        if used != size {
            return Err(DecodeError::SizeMismatch);
        }
        Ok((Self { header, payload }, start + size))
    }
}

/// A payload on its way from the device to the host in answer to the command
/// identifier `ID`, which the bytes do not repeat.
#[derive(Debug, PartialEq, Eq)]
pub struct HostBoundPacket<P, const ID: u8> {
    header: [u8; 2],
    payload: P,
}

impl<P: Clone, const ID: u8> Clone for HostBoundPacket<P, ID> {
    fn clone(&self) -> (out: Self)
        ensures
            cloned::<P>(self.spec_payload(), out.spec_payload()),
    {
        proof {
            use_type_invariant(self);
        }
        Self { header: self.header, payload: self.payload.clone() }
    }
}

impl<P: View, const ID: u8> View for HostBoundPacket<P, ID> {
    type V = P::V;

    open spec fn view(&self) -> P::V {
        self.spec_payload()@
    }
}

impl<P, const ID: u8> HostBoundPacket<P, ID> {
    /// The header of every host-bound packet.
    pub const HEADER: [u8; 2] = [0xAA, 0x55];

    /// The header held is the one of every packet of this direction.
    #[verifier::type_invariant]
    spec fn header_is_fixed(self) -> bool {
        self.header@ == host_bound_header()
    }

    /// The payload carried.
    pub closed spec fn spec_payload(&self) -> P {
        self.payload
    }

    /// Wraps `payload` as the device would.
    pub fn new(payload: P) -> (out: Self)
        ensures
            out.spec_payload() == payload,
    {
        let header = Self::HEADER;
        Self { header, payload }
    }

    /// The header held, which is that of every host-bound packet.
    pub fn header(&self) -> (out: [u8; 2])
        ensures
            out@ == host_bound_header(),
    {
        proof {
            use_type_invariant(self);
        }
        self.header
    }

    /// The payload carried.
    pub fn payload(&self) -> (out: &P)
        ensures
            *out == self.spec_payload(),
    {
        &self.payload
    }

    /// Unwraps the payload.
    pub fn into_payload(self) -> (out: P)
        ensures
            out == self.spec_payload(),
    {
        self.payload
    }
}

impl<P: Encode, const ID: u8> Encode for HostBoundPacket<P, ID> {
    open spec fn wire(value: P::V) -> Result<Seq<u8>, EncodeError> {
        match P::wire(value) {
            Err(e) => Err(e),
            Ok(body) => Ok(host_bound_header() + body),
        }
    }

    fn encode(&self) -> (out: Result<Vec<u8>, EncodeError>) {
        proof {
            use_type_invariant(self);
        }
        let mut body = match self.payload.encode() {
            Ok(body) => body,
            Err(e) => {
                return Err(e);
            },
        };
        let ghost body_bytes = body@;
        let mut encoded: Vec<u8> = Vec::new();
        encoded.extend_from_slice(self.header.as_slice());
        encoded.append(&mut body);
        assert(encoded@ =~= host_bound_header() + body_bytes);
        Ok(encoded)
    }
}

impl<P: Decode, const ID: u8> Decode for HostBoundPacket<P, ID> {
    open spec fn parse(data: Seq<u8>) -> Result<(P::V, nat), DecodeError> {
        if data.len() < 2 {
            Err(DecodeError::PacketTooShort)
        } else if data.subrange(0, 2) != host_bound_header() {
            Err(DecodeError::InvalidHeader)
        } else {
            match P::parse(data.subrange(2, data.len() as int)) {
                Err(e) => Err(e),
                Ok((value, used)) => Ok((value, 2 + used)),
            }
        }
    }

    fn decode(data: &[u8]) -> (out: Result<(Self, usize), DecodeError>) {
        let header = Self::HEADER;
        if data.len() < 2 {
            return Err(DecodeError::PacketTooShort);
        }
        if !starts_with(data, header.as_slice()) {
            return Err(DecodeError::InvalidHeader);
        }
        let (payload, used) = match P::decode(slice_subrange(data, 2, data.len())) {
            Ok(found) => found,
            Err(e) => {
                return Err(e);
            },
        };
        Ok((Self { header, payload }, 2 + used))
    }
}

/// Where the payload takes `k` bytes, at most 32767, the device-bound packet
/// takes 4 bytes of header, 1 of identifier, the size of `k` as a
/// variable-length integer, and `k` of payload; it starts with the header,
/// and the identifier follows.
pub proof fn lemma_device_bound_layout<P: Encode, const ID: u8>(value: P::V)
    requires
        P::wire(value) matches Ok(body) && body.len() <= VAR_U16_MAX,
    ensures
        DeviceBoundPacket::<P, ID>::wire(value) matches Ok(bytes) && P::wire(value) matches Ok(
            body,
        ) && bytes.len() == 4 + 1 + var_u16_bytes(body.len()).len() + body.len()
            && bytes.subrange(0, 4) == device_bound_header() && bytes[4] == ID
            && bytes.subrange(bytes.len() - body.len(), bytes.len() as int) == body,
{
}

/// A device-bound packet comes back from its encoding unchanged, whatever
/// follows it, where its payload comes back from its own encoding and the
/// payload's length comes back from its encoding as a variable-length integer.
pub proof fn lemma_device_bound_round_trip<P: Encode + Decode, const ID: u8>(
    value: P::V,
    rest: Seq<u8>,
)
    requires
        P::wire(value) matches Ok(body) && body.len() <= VAR_U16_MAX && (body.len() <= 0x7F
            || body.len() % 256 >= 128) && P::parse(body) == Ok::<(P::V, nat), DecodeError>(
            (value, body.len()),
        ),
    ensures
        DeviceBoundPacket::<P, ID>::wire(value) matches Ok(bytes) && DeviceBoundPacket::<
            P,
            ID,
        >::parse(bytes + rest) == Ok::<(P::V, nat), DecodeError>((value, bytes.len())),
{
    let body = P::wire(value)->Ok_0;
    let size = var_u16_bytes(body.len());
    let bytes = device_bound_frame(ID, body);
    let data = bytes + rest;
    lemma_device_bound_layout::<P, ID>(value);
    lemma_var_u16_len(body.len());
    lemma_var_u16_round_trip(body.len(), body + rest);
    assert(data.subrange(0, 4) =~= device_bound_header());
    let start = 5 + size.len();
    assert(data.subrange(start as int, (start + body.len()) as int) =~= body);
}

/// A host-bound packet comes back from its encoding unchanged where its
/// payload, followed by the same bytes, comes back from its own.
pub proof fn lemma_host_bound_round_trip<P: Encode + Decode, const ID: u8>(
    value: P::V,
    rest: Seq<u8>,
)
    requires
        P::wire(value) matches Ok(body) && P::parse(body + rest) == Ok::<(P::V, nat), DecodeError>(
            (value, body.len()),
        ),
    ensures
        HostBoundPacket::<P, ID>::wire(value) matches Ok(bytes) && bytes.len() == 2 + P::wire(
            value,
        )->Ok_0.len() && HostBoundPacket::<P, ID>::parse(bytes + rest) == Ok::<
            (P::V, nat),
            DecodeError,
        >((value, bytes.len())),
{
    let body = P::wire(value)->Ok_0;
    let bytes = host_bound_header() + body;
    let data = bytes + rest;
    assert(data.subrange(0, 2) =~= host_bound_header());
    assert(data.subrange(2, data.len() as int) =~= body + rest);
}

} // verus!
