//! Error taxonomy of the wire and authentication layers. Every error
//! carries the offending field's name as a static string for diagnostics.

use vstd::prelude::*;

verus! {

/// Why a byte-string field failed validation.
#[derive(Clone, Copy, Debug, PartialEq, Eq)]
pub enum MalformedStringKind {
    /// The bytes are not valid UTF-8.
    InvalidUtf8,
    /// The bytes contain a byte outside ASCII.
    NonAscii,
    /// The string exceeds its maximum length: (actual, limit).
    TooLong(usize, usize),
    /// The string holds a byte outside its policy's alphabet.
    InvalidCharacter(u8),
}

/// A byte-string field failed validation; `field` names it when known.
#[derive(Clone, Copy, Debug, PartialEq, Eq)]
pub struct MalformedStringError {
    pub field: Option<&'static str>,
    pub kind: MalformedStringKind,
}

/// A wire-level failure. `NotReady` is not an error: decoders express it
/// as `Ok(None)`.
#[derive(Clone, Copy, Debug, PartialEq, Eq)]
pub enum WireError {
    /// Transport read or write failure.
    Io,
    /// A length check failed: (field, actual, limit).
    Oversized(&'static str, usize, usize),
    /// A fixed-width field got too few bytes: (field, actual, required).
    Underflow(&'static str, usize, usize),
    /// An unknown 8-bit message kind.
    InvalidMessageType(u8),
    /// A byte-string field failed validation.
    MalformedString(MalformedStringError),
    /// A wire-declared length exceeds the host's `usize`: (field, raw value).
    LengthOverflow(&'static str, u128),
    /// Adding two lengths overflowed: (left, its field, right, its field).
    ArithmeticOverflow(usize, &'static str, usize, &'static str),
}

/// A failure of the nonce or key store backend.
#[derive(Clone, Copy, Debug, PartialEq, Eq)]
pub enum StorageError {
    BackendFailure,
}

/// A failure while building an auth payload.
#[derive(Clone, Copy, Debug, PartialEq, Eq)]
pub enum ZauthError {
    /// The MAC could not be constructed from the key.
    InvalidKeyLength,
    /// The system clock is before the epoch.
    UnsyncClock,
}

} // verus!
