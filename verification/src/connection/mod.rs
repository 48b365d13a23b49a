//! What can go wrong on a connection, and the handshake that retries over it.

pub mod handshake;

use crate::decode::DecodeError;
use crate::encode::EncodeError;
use vstd::prelude::*;
use vstd::std_specs::convert::FromSpecImpl;

verus! {

/// `std::io::Error`, carried through unread.
#[verifier::external_type_specification]
#[verifier::external_body]
pub struct ExIoError(std::io::Error);

/// `tokio_serial::Error`, carried through unread.
#[verifier::external_type_specification]
#[verifier::external_body]
pub struct ExSerialError(tokio_serial::Error);

/// Every way an operation on a connection can fail.
#[derive(Debug)]
pub enum ConnectionError {
    /// The byte transport failed.
    IoError(std::io::Error),
    /// A packet could not be encoded.
    EncodeError(EncodeError),
    /// The bytes received do not parse as the packet expected.
    DecodeError(DecodeError),
    /// No valid response arrived within the deadline.
    Timeout,
    /// The device refused the request, with this status code.
    Nack(u8),
    /// The serial link failed.
    SerialportError(tokio_serial::Error),
    /// A write to the user channel was attempted over a wireless transport.
    NoWriteOnWireless,
    /// The Bluetooth stack failed, with this description.
    BluetoothError(String),
    /// The peripheral is not a supported device.
    InvalidDevice,
    /// A received envelope does not start with its magic constant.
    InvalidMagic,
    /// There is no live transport.
    NotConnected,
    /// The host has no Bluetooth adapter.
    NoBluetoothAdapter,
    /// A Bluetooth characteristic that the protocol needs is absent.
    MissingCharacteristic,
    /// The device rejected the authentication PIN.
    IncorrectPin,
    /// The operation needs an authentication that has not taken place.
    AuthenticationRequired,
}

impl From<std::io::Error> for ConnectionError {
    fn from(error: std::io::Error) -> (out: Self) {
        ConnectionError::IoError(error)
    }
}

impl FromSpecImpl<std::io::Error> for ConnectionError {
    open spec fn obeys_from_spec() -> bool {
        true
    }

    open spec fn from_spec(error: std::io::Error) -> Self {
        ConnectionError::IoError(error)
    }
}

impl From<EncodeError> for ConnectionError {
    fn from(error: EncodeError) -> (out: Self) {
        ConnectionError::EncodeError(error)
    }
}

impl FromSpecImpl<EncodeError> for ConnectionError {
    open spec fn obeys_from_spec() -> bool {
        true
    }

    open spec fn from_spec(error: EncodeError) -> Self {
        ConnectionError::EncodeError(error)
    }
}

impl From<DecodeError> for ConnectionError {
    fn from(error: DecodeError) -> (out: Self) {
        ConnectionError::DecodeError(error)
    }
}

impl FromSpecImpl<DecodeError> for ConnectionError {
    open spec fn obeys_from_spec() -> bool {
        true
    }

    open spec fn from_spec(error: DecodeError) -> Self {
        ConnectionError::DecodeError(error)
    }
}

impl From<tokio_serial::Error> for ConnectionError {
    fn from(error: tokio_serial::Error) -> (out: Self) {
        ConnectionError::SerialportError(error)
    }
}

impl FromSpecImpl<tokio_serial::Error> for ConnectionError {
    open spec fn obeys_from_spec() -> bool {
        true
    }

    open spec fn from_spec(error: tokio_serial::Error) -> Self {
        ConnectionError::SerialportError(error)
    }
}

} // verus!
