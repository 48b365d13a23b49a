//! The contract every value received from the device satisfies.

use vstd::prelude::*;
use vstd::slice::slice_to_vec;

verus! {

/// Why a byte string could not be read as a value.
#[derive(Debug, Clone, Copy, PartialEq, Eq, Structural)]
pub enum DecodeError {
    /// The bytes end before the value does.
    PacketTooShort,
    /// An envelope does not start with its magic constant.
    InvalidHeader,
    /// An envelope carries another command identifier than the one expected.
    UnexpectedId,
    /// A two-byte variable-length integer stands for a value above 32767.
    VarShortTooLarge,
    /// A string is not closed by a zero byte where one is due.
    UnterminatedString,
    /// A string holds more bytes than its wire type allows.
    StringTooLong,
    /// A string's bytes are not UTF-8.
    InvalidString,
    /// A payload does not fill the size its envelope announces.
    SizeMismatch,
}

/// What an executable decoding must return to agree with the wire format `parsed`.
pub open spec fn decodes_as<T: View>(
    out: Result<(T, usize), DecodeError>,
    parsed: Result<(T::V, nat), DecodeError>,
) -> bool {
    match out {
        Ok((value, used)) => parsed == Ok::<(T::V, nat), DecodeError>((value@, used as nat)),
        Err(e) => parsed == Err::<(T::V, nat), DecodeError>(e),
    }
}

/// A value that can be read off the wire.
///
/// Decoding is total: every byte string gives a value or a [`DecodeError`].
pub trait Decode: View + Sized {
    /// The logical value at the front of `data` and the number of bytes it takes,
    /// or the reason `data` does not start with one.
    spec fn parse(data: Seq<u8>) -> Result<(Self::V, nat), DecodeError>;

    /// Reads one value from the front of `data`, and says how many bytes it took.
    fn decode(data: &[u8]) -> (out: Result<(Self, usize), DecodeError>)
        ensures
            decodes_as(out, Self::parse(data@)),
            out matches Ok((_, used)) ==> used <= data@.len(),
    ;
}

impl Decode for () {
    open spec fn parse(data: Seq<u8>) -> Result<((), nat), DecodeError> {
        Ok(((), 0))
    }

    fn decode(data: &[u8]) -> (out: Result<((), usize), DecodeError>) {
        Ok(((), 0))
    }
}

impl Decode for Vec<u8> {
    open spec fn parse(data: Seq<u8>) -> Result<(Seq<u8>, nat), DecodeError> {
        Ok((data, data.len()))
    }

    fn decode(data: &[u8]) -> (out: Result<(Vec<u8>, usize), DecodeError>) {
        Ok((slice_to_vec(data), data.len()))
    }
}

} // verus!
