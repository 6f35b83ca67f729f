//! The message-kind registry of the auth handshake. Kinds are 8-bit
//! codes; the handshake reserves `Auth`, `AuthValid`, `AuthInvalid` and
//! `AuthRequired`, and other subsystems register their own codes in the
//! same pattern.

use crate::errors::WireError;
use crate::frame::Message;
use vstd::prelude::*;

verus! {

/// The four control-stream message kinds of the auth handshake.
#[derive(Clone, Copy, Debug, PartialEq, Eq, Structural)]
pub enum AuthMessage {
    Auth,
    AuthValid,
    AuthInvalid,
    AuthRequired,
}

impl AuthMessage {
    /// The reserved 8-bit code of this kind.
    pub open spec fn spec_code(self) -> u8 {
        match self {
            AuthMessage::Auth => 1,
            AuthMessage::AuthValid => 2,
            AuthMessage::AuthInvalid => 3,
            AuthMessage::AuthRequired => 4,
        }
    }

    /// The reserved 8-bit code of this kind.
    pub fn code(self) -> (r: u8)
        ensures
            r == self.spec_code(),
    {
        match self {
            AuthMessage::Auth => 1,
            AuthMessage::AuthValid => 2,
            AuthMessage::AuthInvalid => 3,
            AuthMessage::AuthRequired => 4,
        }
    }

    /// The kind a code denotes; an unknown code is a protocol error.
    pub fn from_code(code: u8) -> (r: Result<AuthMessage, WireError>)
        ensures
            match r {
                Ok(m) => m.spec_code() == code,
                Err(e) => e == WireError::InvalidMessageType(code) && !(1 <= code <= 4),
            },
    {
        match code {
            1 => Ok(AuthMessage::Auth),
            2 => Ok(AuthMessage::AuthValid),
            3 => Ok(AuthMessage::AuthInvalid),
            4 => Ok(AuthMessage::AuthRequired),
            _ => Err(WireError::InvalidMessageType(code)),
        }
    }

    /// The kind a frame-level message denotes.
    pub fn from_message(message: &Message) -> (r: Result<AuthMessage, WireError>)
        ensures
            match r {
                Ok(m) => m.spec_code() == message.0,
                Err(e) => e == WireError::InvalidMessageType(message.0) && !(1 <= message.0 <= 4),
            },
    {
        AuthMessage::from_code(message.0)
    }

    /// This kind as a frame-level message.
    pub fn to_message(self) -> (r: Message)
        ensures
            r.0 == self.spec_code(),
    {
        Message(self.code())
    }
}

} // verus!
