//! Error types of the library.
use crate::text::{hex_text_lower, push_hex_lower};
use vstd::prelude::*;

verus! {

/// What kind of I/O failure happened (the kinds the library tells apart).
#[derive(Debug, Clone, Copy, PartialEq, Eq, Structural)]
pub enum IoErrorKind {
    /// The entity was not found.
    NotFound,
    /// Permission was denied.
    PermissionDenied,
    /// The device is not connected.
    NotConnected,
    /// The other side went away.
    BrokenPipe,
    /// The operation timed out.
    TimedOut,
    /// The operation was interrupted (for example by Ctrl-C).
    Interrupted,
    /// The input ended before the expected number of bytes.
    UnexpectedEof,
    /// The operation is not supported.
    Unsupported,
    /// Any other kind.
    Other,
}

/// An I/O failure: its kind and a message.
#[derive(Debug, Clone)]
pub struct IoError {
    /// The kind of failure.
    pub kind: IoErrorKind,
    /// A human readable description.
    pub message: String,
}

impl IoError {
    /// An I/O failure of the given kind.
    pub fn new(kind: IoErrorKind, message: String) -> (r: IoError)
        ensures
            r.kind == kind,
            r.message@ == message@,
    {
        IoError { kind, message }
    }
}

/// What kind of failure the serial port library reported.
#[derive(Debug, Clone, Copy, PartialEq, Eq, Structural)]
pub enum SerialErrorKind {
    /// The device is not available.
    NoDevice,
    /// A parameter was incorrect.
    InvalidInput,
    /// An unknown error occurred.
    Unknown,
    /// An I/O error of the given kind occurred.
    Io(IoErrorKind),
}

/// A failure reported by the serial port library: its kind and its
/// description.
#[derive(Debug, Clone)]
pub struct SerialError {
    /// The kind of failure.
    pub kind: SerialErrorKind,
    /// A description suitable for end users.
    pub description: String,
}

/// Error type for hisiflash operations.
#[derive(Debug)]
pub enum Error {
    /// I/O error (serial port, file operations).
    Io(IoError),
    /// Serial port error.
    Serial(SerialError),
    /// Invalid firmware package format.
    InvalidFwpkg(String),
    /// CRC checksum mismatch.
    CrcMismatch {
        /// Expected CRC value.
        expected: u16,
        /// Actual CRC value.
        actual: u16,
    },
    /// Communication timeout.
    Timeout(String),
    /// Device not responding or not in boot mode.
    DeviceNotFound,
    /// Handshake failed.
    HandshakeFailed(String),
    /// Protocol error.
    Protocol(String),
    /// YMODEM transfer error.
    Ymodem(String),
    /// Unsupported chip or operation.
    Unsupported(String),
    /// Configuration error.
    Config(String),
}

/// Whether an error is an I/O error of the given kind.
pub open spec fn is_io_kind(e: Error, k: IoErrorKind) -> bool {
    e matches Error::Io(io) && io.kind == k
}

impl Error {
    /// The I/O error that cancellation is reported with.
    pub fn interrupted() -> (r: Error)
        ensures
            is_io_kind(r, IoErrorKind::Interrupted),
    {
        Error::Io(IoError::new(IoErrorKind::Interrupted, String::from_str("operation cancelled")))
    }

    /// Whether this is an I/O error of kind `Interrupted`.
    pub fn is_interrupted(&self) -> (r: bool)
        ensures
            r == is_io_kind(*self, IoErrorKind::Interrupted),
    {
        match self {
            Error::Io(io) => io.kind == IoErrorKind::Interrupted,
            _ => false,
        }
    }
}

/// The message of an error, as it is shown to users.
pub open spec fn error_text(e: Error) -> Seq<char> {
    match e {
        Error::Io(io) => "I/O error: "@ + io.message@,
        Error::Serial(se) => "Serial port error: "@ + se.description@,
        Error::InvalidFwpkg(s) => "Invalid FWPKG: "@ + s@,
        Error::CrcMismatch { expected, actual } => "CRC mismatch: expected 0x"@ + hex_text_lower(expected as nat, 4)
            + ", got 0x"@ + hex_text_lower(actual as nat, 4),
        Error::Timeout(s) => "Timeout: "@ + s@,
        Error::DeviceNotFound => "Device not found or not in boot mode"@,
        Error::HandshakeFailed(s) => "Handshake failed: "@ + s@,
        Error::Protocol(s) => "Protocol error: "@ + s@,
        Error::Ymodem(s) => "YMODEM error: "@ + s@,
        Error::Unsupported(s) => "Unsupported: "@ + s@,
        Error::Config(s) => "Configuration error: "@ + s@,
    }
}

impl Error {
    /// The message of this error, as it is shown to users.
    pub fn to_string(&self) -> (r: String)
        ensures
            r@ == error_text(*self),
    {
        match self {
            Error::Io(io) => String::from_str("I/O error: ").concat(io.message.as_str()),
            Error::Serial(se) => String::from_str("Serial port error: ").concat(se.description.as_str()),
            Error::InvalidFwpkg(s) => String::from_str("Invalid FWPKG: ").concat(s.as_str()),
            Error::CrcMismatch { expected, actual } => {
                let mut r = String::from_str("CRC mismatch: expected 0x");
                push_hex_lower(&mut r, *expected as u64, 4);
                r.append(", got 0x");
                push_hex_lower(&mut r, *actual as u64, 4);
                r
            },
            Error::Timeout(s) => String::from_str("Timeout: ").concat(s.as_str()),
            Error::DeviceNotFound => String::from_str("Device not found or not in boot mode"),
            Error::HandshakeFailed(s) => String::from_str("Handshake failed: ").concat(s.as_str()),
            Error::Protocol(s) => String::from_str("Protocol error: ").concat(s.as_str()),
            Error::Ymodem(s) => String::from_str("YMODEM error: ").concat(s.as_str()),
            Error::Unsupported(s) => String::from_str("Unsupported: ").concat(s.as_str()),
            Error::Config(s) => String::from_str("Configuration error: ").concat(s.as_str()),
        }
    }
}

} // verus!
