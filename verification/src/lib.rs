//! Length-delimited binary messaging over reliable byte streams: a wire
//! codec with partial-read backpressure, an HMAC challenge/response
//! authentication protocol with replay protection, and a session table.
//!
//! Every contract in this crate is machine-checked; the only trusted
//! pieces are the small wrappers around the byte-buffer, HMAC,
//! constant-time-compare, secret-wrapping, clock and randomness calls.

pub mod assoc;
pub mod audio;
pub mod auth_codec;
pub mod authenticator;
pub mod bytebuf;
pub mod bytestring;
pub mod errors;
pub mod frame;
pub mod handshake;
pub mod layout;
pub mod mac;
pub mod messages;
pub mod peek;
pub mod put;
pub mod session;
pub mod store;
pub mod take;
pub mod wire;

pub use auth_codec::{AuthPayload, AuthPayloadCodec};
pub use authenticator::Authenticator;
pub use errors::{MalformedStringError, MalformedStringKind, StorageError, WireError, ZauthError};
pub use frame::{Frame, FrameCodec, Message};
pub use messages::AuthMessage;
pub use session::{
    AuthSession, AuthState, Session, SessionBackend, SessionManager, SimpleSessionBackend,
};
pub use store::{AuthStore, InMemoryStore};
