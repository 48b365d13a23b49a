//! The three string encodings.

use crate::decode::{Decode, DecodeError};
use crate::encode::{Encode, EncodeError};
use vstd::prelude::*;
use vstd::slice::{slice_subrange, slice_to_vec};
use vstd::string::StringSliceAdditionalSpecFns;
use vstd::utf8::{decode_utf8, encode_utf8, valid_utf8};

verus! {

/// `text` followed by zero bytes up to `len` bytes in all.
pub open spec fn zero_padded(text: Seq<u8>, len: nat) -> Seq<u8> {
    Seq::new(
        len,
        |i: int|
            if i < text.len() {
                text[i]
            } else {
                0u8
            },
    )
}

/// `String::from_utf8` of std: the bytes become the string's own bytes when
/// they are UTF-8, and are refused when they are not.
#[verifier::external_body]
fn string_from_utf8(bytes: Vec<u8>) -> (out: Option<String>)
    ensures
        out matches Some(string) ==> valid_utf8(bytes@) && encode_utf8(string@) == bytes@,
        out is None ==> !valid_utf8(bytes@),
{
    match String::from_utf8(bytes) {
        Ok(string) => Some(string),
        Err(_) => None,
    }
}

/// The bytes of `string`, zero-padded to `LEN` bytes; `None` where they are more.
fn padded<const LEN: usize>(string: &str) -> (out: Option<[u8; LEN]>)
    ensures
        encode_utf8(string@).len() <= LEN ==> (out matches Some(buffer) && buffer@ == zero_padded(
            encode_utf8(string@),
            LEN as nat,
        )),
        encode_utf8(string@).len() > LEN ==> out is None,
{
    let bytes = string.as_bytes();
    if bytes.len() > LEN {
        return None;
    }
    let mut buffer = [0u8;LEN];
    let mut i: usize = 0;
    while i < bytes.len()
        invariant
            i <= bytes@.len() <= LEN,
            bytes@ == encode_utf8(string@),
            forall|j: int| 0 <= j < i ==> buffer@[j] == bytes@[j],
            forall|j: int| i <= j < LEN ==> buffer@[j] == 0u8,
        decreases bytes@.len() - i,
    {
        buffer[i] = bytes[i];
        i += 1;
    }
    Some(buffer)
}

/// The first `LEN` bytes of `data` as a buffer.
fn buffer_of<const LEN: usize>(data: &[u8]) -> (out: [u8; LEN])
    requires
        LEN <= data@.len(),
    ensures
        out@ == data@.subrange(0, LEN as int),
{
    let mut buffer = [0u8;LEN];
    let mut i: usize = 0;
    while i < LEN
        invariant
            i <= LEN <= data@.len(),
            forall|j: int| 0 <= j < i ==> buffer@[j] == data@[j],
        decreases LEN - i,
    {
        buffer[i] = data[i];
        i += 1;
    }
    buffer
}

/// A string of at most `MAX_LEN` bytes, closed by a zero byte on the wire.
#[derive(Debug, PartialEq, Eq)]
pub struct VarLengthString<const MAX_LEN: u32>(String);

impl<const MAX_LEN: u32> Clone for VarLengthString<MAX_LEN> {
    fn clone(&self) -> (out: Self)
        ensures
            out@ == self@,
    {
        proof {
            use_type_invariant(self);
        }
        Self(self.0.clone())
    }
}

impl<const MAX_LEN: u32> View for VarLengthString<MAX_LEN> {
    type V = Seq<char>;

    closed spec fn view(&self) -> Seq<char> {
        self.0@
    }
}

impl<const MAX_LEN: u32> VarLengthString<MAX_LEN> {
    /// The string held takes no more than `MAX_LEN` bytes.
    #[verifier::type_invariant]
    spec fn within_bound(self) -> bool {
        encode_utf8(self.0@).len() <= MAX_LEN
    }

    /// Wraps `string`, or refuses it where it holds more than `MAX_LEN` bytes.
    pub fn new(string: String) -> (out: Result<Self, EncodeError>)
        ensures
            encode_utf8(string@).len() <= MAX_LEN ==> (out matches Ok(wrapped) && wrapped@
                == string@),
            encode_utf8(string@).len() > MAX_LEN ==> out == Err::<Self, EncodeError>(
                EncodeError::StringTooLong,
            ),
    {
        if string.as_str().as_bytes().len() > MAX_LEN as usize {
            return Err(EncodeError::StringTooLong);
        }
        Ok(Self(string))
    }

    /// The string held, which takes at most `MAX_LEN` bytes.
    pub fn into_inner(self) -> (out: String)
        ensures
            out@ == self@,
            encode_utf8(out@).len() <= MAX_LEN,
    {
        proof {
            use_type_invariant(&self);
        }
        self.0
    }
}

impl<const MAX_LEN: u32> Encode for VarLengthString<MAX_LEN> {
    open spec fn wire(value: Seq<char>) -> Result<Seq<u8>, EncodeError> {
        Ok(encode_utf8(value) + seq![0u8])
    }

    fn encode(&self) -> (out: Result<Vec<u8>, EncodeError>) {
        let mut bytes = slice_to_vec(self.0.as_str().as_bytes());
        bytes.push(0);
        assert(bytes@ =~= encode_utf8(self@) + seq![0u8]);
        Ok(bytes)
    }
}

impl<const MAX_LEN: u32> Decode for VarLengthString<MAX_LEN> {
    open spec fn parse(data: Seq<u8>) -> Result<(Seq<char>, nat), DecodeError> {
        match data.index_of_first(0u8) {
            None => Err(DecodeError::UnterminatedString),
            Some(end) => if end > MAX_LEN {
                Err(DecodeError::StringTooLong)
            } else if !valid_utf8(data.subrange(0, end)) {
                Err(DecodeError::InvalidString)
            } else {
                Ok((decode_utf8(data.subrange(0, end)), (end + 1) as nat))
            },
        }
    }

    fn decode(data: &[u8]) -> (out: Result<(Self, usize), DecodeError>) {
        proof {
            data@.index_of_first_ensures(0u8);
        }
        let mut end: usize = 0;
        while end < data.len() && data[end] != 0
            invariant
                end <= data@.len(),
                forall|j: int| 0 <= j < end ==> data@[j] != 0u8,
            decreases data@.len() - end,
        {
            end += 1;
        }
        if end == data.len() {
            return Err(DecodeError::UnterminatedString);
        }
        if end > MAX_LEN as usize {
            return Err(DecodeError::StringTooLong);
        }
        let text = slice_to_vec(slice_subrange(data, 0, end));
        match string_from_utf8(text) {
            None => Err(DecodeError::InvalidString),
            Some(string) => {
                proof {
                    vstd::utf8::encode_utf8_decode_utf8(string@);
                }
                Ok((Self(string), end + 1))
            },
        }
    }
}

/// A string in a zero-padded buffer of `LEN` bytes, closed by one more zero
/// byte on the wire.
#[derive(Debug, Clone, Copy, PartialEq, Eq)]
pub struct TerminatedFixedLengthString<const LEN: usize>([u8; LEN]);

impl<const LEN: usize> View for TerminatedFixedLengthString<LEN> {
    type V = Seq<u8>;

    closed spec fn view(&self) -> Seq<u8> {
        self.0@
    }
}

impl<const LEN: usize> TerminatedFixedLengthString<LEN> {
    /// Pads the bytes of `string` with zeros to `LEN` bytes, or refuses
    /// `string` where it holds more than `LEN` bytes.
    pub fn new(string: String) -> (out: Result<Self, EncodeError>)
        ensures
            encode_utf8(string@).len() <= LEN ==> (out matches Ok(wrapped) && wrapped@
                == zero_padded(encode_utf8(string@), LEN as nat)),
            encode_utf8(string@).len() > LEN ==> out == Err::<Self, EncodeError>(
                EncodeError::StringTooLong,
            ),
    {
        match padded::<LEN>(string.as_str()) {
            Some(buffer) => Ok(Self(buffer)),
            None => Err(EncodeError::StringTooLong),
        }
    }

    /// The buffer held.
    pub fn as_bytes(&self) -> (out: &[u8; LEN])
        ensures
            out@ == self@,
    {
        &self.0
    }
}

impl<const LEN: usize> Encode for TerminatedFixedLengthString<LEN> {
    open spec fn wire(value: Seq<u8>) -> Result<Seq<u8>, EncodeError> {
        Ok(value + seq![0u8])
    }

    fn encode(&self) -> (out: Result<Vec<u8>, EncodeError>) {
        let mut bytes = slice_to_vec(self.0.as_slice());
        bytes.push(0);
        assert(bytes@ =~= self@ + seq![0u8]);
        Ok(bytes)
    }
}

impl<const LEN: usize> Decode for TerminatedFixedLengthString<LEN> {
    open spec fn parse(data: Seq<u8>) -> Result<(Seq<u8>, nat), DecodeError> {
        if data.len() <= LEN {
            Err(DecodeError::PacketTooShort)
        } else if data[LEN as int] != 0 {
            Err(DecodeError::UnterminatedString)
        } else {
            Ok((data.subrange(0, LEN as int), (LEN + 1) as nat))
        }
    }

    fn decode(data: &[u8]) -> (out: Result<(Self, usize), DecodeError>) {
        if data.len() <= LEN {
            return Err(DecodeError::PacketTooShort);
        }
        if data[LEN] != 0 {
            return Err(DecodeError::UnterminatedString);
        }
        Ok((Self(buffer_of::<LEN>(data)), LEN + 1))
    }
}

/// A string in a zero-padded buffer of `LEN` bytes, sent as those bytes alone.
#[derive(Debug, Clone, Copy, PartialEq, Eq)]
pub struct UnterminatedFixedLengthString<const LEN: usize>([u8; LEN]);

impl<const LEN: usize> View for UnterminatedFixedLengthString<LEN> {
    type V = Seq<u8>;

    closed spec fn view(&self) -> Seq<u8> {
        self.0@
    }
}

impl<const LEN: usize> UnterminatedFixedLengthString<LEN> {
    /// Pads the bytes of `string` with zeros to `LEN` bytes, or refuses
    /// `string` where it holds more than `LEN` bytes.
    pub fn new(string: String) -> (out: Result<Self, EncodeError>)
        ensures
            encode_utf8(string@).len() <= LEN ==> (out matches Ok(wrapped) && wrapped@
                == zero_padded(encode_utf8(string@), LEN as nat)),
            encode_utf8(string@).len() > LEN ==> out == Err::<Self, EncodeError>(
                EncodeError::StringTooLong,
            ),
    {
        match padded::<LEN>(string.as_str()) {
            Some(buffer) => Ok(Self(buffer)),
            None => Err(EncodeError::StringTooLong),
        }
    }

    /// The buffer held.
    pub fn as_bytes(&self) -> (out: &[u8; LEN])
        ensures
            out@ == self@,
    {
        &self.0
    }
}

impl Encode for UnterminatedFixedLengthString<23> {
    open spec fn wire(value: Seq<u8>) -> Result<Seq<u8>, EncodeError> {
        Ok(value)
    }

    fn encode(&self) -> (out: Result<Vec<u8>, EncodeError>) {
        Ok(slice_to_vec(self.0.as_slice()))
    }
}

impl Decode for UnterminatedFixedLengthString<23> {
    open spec fn parse(data: Seq<u8>) -> Result<(Seq<u8>, nat), DecodeError> {
        if data.len() < 23 {
            Err(DecodeError::PacketTooShort)
        } else {
            Ok((data.subrange(0, 23), 23))
        }
    }

    fn decode(data: &[u8]) -> (out: Result<(Self, usize), DecodeError>) {
        if data.len() < 23 {
            return Err(DecodeError::PacketTooShort);
        }
        Ok((Self(buffer_of::<23>(data)), 23))
    }
}

/// The UTF-8 form of a scalar value holds a zero byte only where the value is
/// zero.
proof fn lemma_scalar_zero_byte(scalar: u32)
    requires
        vstd::utf8::is_scalar(scalar),
    ensures
        vstd::utf8::encode_scalar(scalar).contains(0u8) <==> scalar == 0,
{
    let bytes = vstd::utf8::encode_scalar(scalar);
    assert(scalar <= 0x7F ==> ((scalar & 0x7F) as u8 == 0 <==> scalar == 0)) by (bit_vector);
    assert(0xC0u8 | ((scalar >> 6) & 0x1F) as u8 != 0) by (bit_vector);
    assert(0xE0u8 | ((scalar >> 12) & 0x0F) as u8 != 0) by (bit_vector);
    assert(0xF0u8 | ((scalar >> 18) & 0x7) as u8 != 0) by (bit_vector);
    assert(0x80u8 | (scalar & 0x3F) as u8 != 0) by (bit_vector);
    assert(0x80u8 | ((scalar >> 6) & 0x3F) as u8 != 0) by (bit_vector);
    assert(0x80u8 | ((scalar >> 12) & 0x3F) as u8 != 0) by (bit_vector);
    if scalar == 0 {
        assert(bytes[0] == 0u8);
    }
}

/// The UTF-8 form of a string holds a zero byte exactly where the string
/// holds the NUL character.
pub proof fn lemma_zero_byte_iff_nul(chars: Seq<char>)
    ensures
        encode_utf8(chars).contains(0u8) <==> chars.contains('\0'),
    decreases chars.len(),
{
    if chars.len() > 0 {
        let head = vstd::utf8::encode_scalar(chars[0] as u32);
        let tail = encode_utf8(chars.drop_first());
        vstd::utf8::char_is_scalar(chars[0]);
        lemma_scalar_zero_byte(chars[0] as u32);
        lemma_zero_byte_iff_nul(chars.drop_first());
        if head.contains(0u8) {
            let i = choose|i: int| 0 <= i < head.len() && head[i] == 0u8;
            assert((head + tail)[i] == 0u8);
            vstd::utf8::char_u32_cast(chars[0], 0u32);
            vstd::utf8::char_u32_cast('\0', 0u32);
        }
        if tail.contains(0u8) {
            let i = choose|i: int| 0 <= i < tail.len() && tail[i] == 0u8;
            assert((head + tail)[head.len() + i] == 0u8);
        }
        if chars.contains('\0') {
            let j = choose|j: int| 0 <= j < chars.len() && chars[j] == '\0';
            if j > 0 {
                assert(chars.drop_first()[j - 1] == '\0');
            }
        }
    }
}

/// A string within the bound and without the NUL character comes back from
/// its encoding unchanged, whatever follows it.
pub proof fn lemma_var_length_string_round_trip<const MAX_LEN: u32>(
    value: Seq<char>,
    rest: Seq<u8>,
)
    requires
        encode_utf8(value).len() <= MAX_LEN,
        !value.contains('\0'),
    ensures
        VarLengthString::<MAX_LEN>::wire(value) matches Ok(bytes) && VarLengthString::<
            MAX_LEN,
        >::parse(bytes + rest) == Ok::<(Seq<char>, nat), DecodeError>((value, bytes.len())),
{
    let text = encode_utf8(value);
    let data = text + seq![0u8] + rest;
    lemma_zero_byte_iff_nul(value);
    data.index_of_first_ensures(0u8);
    assert(data[text.len() as int] == 0u8);
    assert(forall|i: int| 0 <= i < text.len() ==> data[i] == text[i]);
    assert(data.subrange(0, text.len() as int) =~= text);
    vstd::utf8::encode_utf8_valid_utf8(value);
    vstd::utf8::encode_utf8_decode_utf8(value);
}

/// On the wire a string of at most `LEN` bytes is, in the terminated form,
/// its bytes, then zeros up to `LEN` bytes, then one zero byte more.
pub proof fn lemma_terminated_layout<const LEN: usize>(text: Seq<u8>)
    requires
        text.len() <= LEN,
    ensures
        TerminatedFixedLengthString::<LEN>::wire(zero_padded(text, LEN as nat)) matches Ok(bytes)
            && bytes.len() == LEN + 1 && bytes.subrange(0, text.len() as int) == text
            && forall|i: int| text.len() <= i <= LEN ==> bytes[i] == 0u8,
{
}

/// On the wire a string of at most 23 bytes is, in the unterminated form, its
/// bytes, then zeros up to 23 bytes.
pub proof fn lemma_unterminated_layout(text: Seq<u8>)
    requires
        text.len() <= 23,
    ensures
        UnterminatedFixedLengthString::<23>::wire(zero_padded(text, 23)) matches Ok(bytes)
            && bytes.len() == 23 && bytes.subrange(0, text.len() as int) == text
            && forall|i: int| text.len() <= i < 23 ==> bytes[i] == 0u8,
{
}

/// A buffer of `LEN` bytes comes back from its terminated encoding unchanged,
/// whatever follows it.
pub proof fn lemma_terminated_round_trip<const LEN: usize>(value: Seq<u8>, rest: Seq<u8>)
    requires
        value.len() == LEN,
    ensures
        TerminatedFixedLengthString::<LEN>::wire(value) matches Ok(bytes) && bytes.len() == LEN
            + 1 && TerminatedFixedLengthString::<LEN>::parse(bytes + rest) == Ok::<
            (Seq<u8>, nat),
            DecodeError,
        >((value, bytes.len())),
{
    let data = value + seq![0u8] + rest;
    assert(data.subrange(0, LEN as int) =~= value);
}

/// A buffer of 23 bytes comes back from its unterminated encoding unchanged,
/// whatever follows it.
pub proof fn lemma_unterminated_round_trip(value: Seq<u8>, rest: Seq<u8>)
    requires
        value.len() == 23,
    ensures
        UnterminatedFixedLengthString::<23>::wire(value) matches Ok(bytes) && bytes.len() == 23
            && UnterminatedFixedLengthString::<23>::parse(bytes + rest) == Ok::<
            (Seq<u8>, nat),
            DecodeError,
        >((value, bytes.len())),
{
    assert((value + rest).subrange(0, 23) =~= value);
}

} // verus!
