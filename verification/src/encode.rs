//! The contract every value sent to the device satisfies.

use vstd::prelude::*;

verus! {

/// Why a value could not be turned into bytes.
#[derive(Debug, Clone, Copy, PartialEq, Eq, Structural)]
pub enum EncodeError {
    /// A string holds more bytes than its wire type allows.
    StringTooLong,
    /// A variable-length integer holds a value above 32767.
    VarShortTooLarge,
}

/// What an executable encoding must return to agree with the wire format `wire`.
pub open spec fn encodes_as(
    out: Result<Vec<u8>, EncodeError>,
    wire: Result<Seq<u8>, EncodeError>,
) -> bool {
    match out {
        Ok(bytes) => wire == Ok::<Seq<u8>, EncodeError>(bytes@),
        Err(e) => wire == Err::<Seq<u8>, EncodeError>(e),
    }
}

/// A value with a byte representation on the wire.
pub trait Encode: View {
    /// The bytes that stand for the logical value `value`, or the reason it has none.
    spec fn wire(value: Self::V) -> Result<Seq<u8>, EncodeError>;

    /// Encodes the value into a fresh byte vector.
    fn encode(&self) -> (out: Result<Vec<u8>, EncodeError>)
        ensures
            encodes_as(out, Self::wire(self@)),
    ;

    /// Encodes the value, consuming it.
    fn into_encoded(self) -> (out: Result<Vec<u8>, EncodeError>) where Self: Sized
        ensures
            encodes_as(out, Self::wire(self@)),
    {
        self.encode()
    }
}

impl Encode for () {
    open spec fn wire(value: ()) -> Result<Seq<u8>, EncodeError> {
        Ok(Seq::empty())
    }

    fn encode(&self) -> (out: Result<Vec<u8>, EncodeError>) {
        Ok(Vec::new())
    }
}

impl Encode for Vec<u8> {
    open spec fn wire(value: Seq<u8>) -> Result<Seq<u8>, EncodeError> {
        Ok(value)
    }

    fn encode(&self) -> (out: Result<Vec<u8>, EncodeError>) {
        Ok(self.clone())
    }
}

} // verus!
