//! The variable-length 16-bit quantity.

use crate::decode::{Decode, DecodeError};
use crate::encode::{Encode, EncodeError};
use vstd::prelude::*;

verus! {

/// The largest value a [`VarU16`] can stand for.
pub const VAR_U16_MAX: u16 = 0x7FFF;

/// The byte `byte` with its top bit set.
pub open spec fn with_top_bit(byte: nat) -> nat {
    if byte < 128 {
        byte + 128
    } else {
        byte
    }
}

/// The wire form of `value`: one byte up to 127, else the two bytes of the
/// value in little-endian order, the first with its top bit set to announce
/// the second.
pub open spec fn var_u16_bytes(value: nat) -> Seq<u8> {
    if value <= 0x7F {
        seq![value as u8]
    } else {
        seq![with_top_bit(value % 256) as u8, (value / 256) as u8]
    }
}

/// The wire form of `value`.
pub(crate) fn var_u16_to_bytes(value: u16) -> (out: Vec<u8>)
    requires
        value <= VAR_U16_MAX,
    ensures
        out@ == var_u16_bytes(value as nat),
{
    let mut bytes: Vec<u8> = Vec::new();
    if value > 0x7F {
        let low: u8 = (value % 256) as u8;
        let high: u8 = (value / 256) as u8;
        assert((low | 0x80) == with_top_bit(low as nat)) by (bit_vector);
        bytes.push(low | 0x80);
        bytes.push(high);
    } else {
        bytes.push(value as u8);
    }
    bytes
}

/// A value from 0 to 32767 that takes one or two bytes on the wire.
#[derive(Debug, Clone, Copy, PartialEq, Eq)]
pub struct VarU16(u16);

impl View for VarU16 {
    type V = nat;

    closed spec fn view(&self) -> nat {
        self.0 as nat
    }
}

impl VarU16 {
    /// No value above the bound is held.
    #[verifier::type_invariant]
    spec fn within_bound(self) -> bool {
        self.0 <= VAR_U16_MAX
    }

    /// Wraps `val`, which must not exceed [`VAR_U16_MAX`].
    pub fn new(val: u16) -> (out: Self)
        requires
            val <= VAR_U16_MAX,
        ensures
            out@ == val,
    {
        Self(val)
    }

    /// Wraps `val`, or refuses it where it exceeds [`VAR_U16_MAX`].
    pub fn try_new(val: u16) -> (out: Result<Self, EncodeError>)
        ensures
            val <= VAR_U16_MAX ==> (out matches Ok(v) && v@ == val),
            val > VAR_U16_MAX ==> out == Err::<Self, EncodeError>(EncodeError::VarShortTooLarge),
    {
        if val > VAR_U16_MAX {
            Err(EncodeError::VarShortTooLarge)
        } else {
            Ok(Self(val))
        }
    }

    /// The value held, which does not exceed [`VAR_U16_MAX`].
    pub fn into_inner(self) -> (out: u16)
        ensures
            out == self@,
            out <= VAR_U16_MAX,
    {
        proof {
            use_type_invariant(&self);
        }
        self.0
    }
}

impl Encode for VarU16 {
    open spec fn wire(value: nat) -> Result<Seq<u8>, EncodeError> {
        if value > VAR_U16_MAX {
            Err(EncodeError::VarShortTooLarge)
        } else {
            Ok(var_u16_bytes(value))
        }
    }

    fn encode(&self) -> (out: Result<Vec<u8>, EncodeError>)
        ensures
            out is Ok,
    {
        proof {
            use_type_invariant(self);
        }
        // Unreachable for verified callers; it answers those who handed `new`
        // a value it does not admit.
        if self.0 > VAR_U16_MAX {
            return Err(EncodeError::VarShortTooLarge);
        }
        Ok(var_u16_to_bytes(self.0))
    }
}

impl Decode for VarU16 {
    open spec fn parse(data: Seq<u8>) -> Result<(nat, nat), DecodeError> {
        if data.len() == 0 {
            Err(DecodeError::PacketTooShort)
        } else if data[0] < 0x80 {
            Ok((data[0] as nat, 1))
        } else if data.len() < 2 {
            Err(DecodeError::PacketTooShort)
        } else if data[1] >= 0x80 {
            Err(DecodeError::VarShortTooLarge)
        } else {
            Ok(((data[0] + 256 * data[1]) as nat, 2))
        }
    }

    fn decode(data: &[u8]) -> (out: Result<(Self, usize), DecodeError>) {
        if data.len() == 0 {
            return Err(DecodeError::PacketTooShort);
        }
        let first: u8 = data[0];
        if first < 0x80 {
            return Ok((Self(first as u16), 1));
        }
        if data.len() < 2 {
            return Err(DecodeError::PacketTooShort);
        }
        let second: u8 = data[1];
        if second >= 0x80 {
            return Err(DecodeError::VarShortTooLarge);
        }
        Ok((Self(first as u16 + 256 * (second as u16)), 2))
    }
}

/// A value up to 127 takes one byte on the wire, a larger one takes two.
pub proof fn lemma_var_u16_len(value: nat)
    ensures
        var_u16_bytes(value).len() == (if value <= 0x7F {
            1nat
        } else {
            2nat
        }),
{
}

/// What decoding makes of an encoded value, whatever follows it: up to 127
/// the value itself; above, the value with bit 7 set, since the flag that
/// announces the second byte takes the place of that bit.
pub proof fn lemma_var_u16_decode_of_encode(value: nat, rest: Seq<u8>)
    requires
        value <= VAR_U16_MAX,
    ensures
        VarU16::wire(value) matches Ok(bytes) && VarU16::parse(bytes + rest) == Ok::<
            (nat, nat),
            DecodeError,
        >(
            (
                if value <= 0x7F {
                    value
                } else {
                    (value - value % 256 + with_top_bit(value % 256)) as nat
                },
                bytes.len(),
            ),
        ),
{
}

/// A value that takes one byte, or whose bit 7 is set, comes back from its
/// encoding unchanged, whatever follows it.
pub proof fn lemma_var_u16_round_trip(value: nat, rest: Seq<u8>)
    requires
        value <= VAR_U16_MAX,
        value <= 0x7F || value % 256 >= 128,
    ensures
        VarU16::wire(value) matches Ok(bytes) && VarU16::parse(bytes + rest) == Ok::<
            (nat, nat),
            DecodeError,
        >((value, bytes.len())),
{
    lemma_var_u16_decode_of_encode(value, rest);
}

} // verus!
