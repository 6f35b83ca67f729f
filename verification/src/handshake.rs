//! The auth handshake's decisions, free of any transport. The driver
//! around them performs the stream reads, writes, timeouts and retries
//! and hands frames in; everything decided here is verified.

use crate::auth_codec::AuthPayloadCodec;
use crate::authenticator::Authenticator;
use crate::bytebuf::{bm_seq, bytes_new};
use crate::frame::Frame;
use crate::messages::AuthMessage;
use crate::session::{AuthSession, SessionBackend, SessionManager};
use crate::store::AuthStore;
use vstd::prelude::*;

verus! {

/// The probe a server sends on a new control stream: `AuthValid` if the
/// session is already authenticated (the handshake is then over),
/// `AuthRequired` otherwise.
pub fn server_probe<B: SessionBackend>(
    session_manager: &SessionManager<B>,
    connection_id: u64,
) -> (r: (Frame, bool))
    ensures
        r.1 == crate::session::spec_is_authenticated(*session_manager, connection_id),
        r.0@.kind == (if r.1 {
            AuthMessage::AuthValid.spec_code()
        } else {
            AuthMessage::AuthRequired.spec_code()
        }),
        r.0@.payload == Seq::<u8>::empty(),
{
    let authed = session_manager.is_authenticated(connection_id);
    let message = if authed {
        AuthMessage::AuthValid.to_message()
    } else {
        AuthMessage::AuthRequired.to_message()
    };
    (Frame { message, payload: bytes_new() }, authed)
}

/// One inbound frame on the control stream, handled at clock reading
/// `now`: a frame that is not an `Auth` frame, or whose payload does
/// not decode to a whole auth record, is rejected outright; otherwise
/// the record is verified and, on success, the session is marked
/// authenticated. Returns the response frame and the outcome.
///
/// Success is owed, not merely permitted: an `Auth` frame carrying a
/// complete well-formed record whose MAC matches under the effective
/// key, within the skew window, for an existing session, is accepted —
/// outright for an unknown identifier, and for a known one exactly
/// when the store admits the nonce as fresh (a failing store backend
/// may still reject, leaving every nonce table unchanged).
pub fn server_handle_auth_frame<B: SessionBackend, S: AuthStore>(
    authenticator: &mut Authenticator<S>,
    session_manager: &mut SessionManager<B>,
    connection_id: u64,
    frame: &Frame,
    auth_payload_codec: &AuthPayloadCodec,
    codec_buffer: &mut bytes::BytesMut,
    now: u64,
) -> (r: (Frame, bool))
    requires
        bm_seq(*old(codec_buffer)) == Seq::<u8>::empty(),
    ensures
        r.0@.kind == (if r.1 {
            AuthMessage::AuthValid.spec_code()
        } else {
            AuthMessage::AuthInvalid.spec_code()
        }),
        r.0@.payload == Seq::<u8>::empty(),
        r.1 ==> frame@.kind == AuthMessage::Auth.spec_code(),
        r.1 ==> crate::session::spec_is_authenticated(*final (session_manager), connection_id),
        r.1 ==> old(session_manager).spec_session_of(connection_id) is Some,
        !r.1 ==> forall|id: u64|
            final (session_manager).spec_session_of(id) == old(session_manager).spec_session_of(id),
        frame@.kind != AuthMessage::Auth.spec_code() ==> !r.1 && final (authenticator).spec_store()
            == old(authenticator).spec_store(),
        ({
            let b = frame@.payload;
            r.1 ==> b.len() >= 57 && b.len() >= 57 + b[56] && crate::bytestring::ascii_hyphen_ok(
                b.subrange(57, 57 + b[56]),
            ) && crate::authenticator::within_skew(
                now,
                (crate::wire::be_value_of(b.subrange(0, 8)) as u64),
                old(authenticator).skew(),
            ) && b.subrange(24, 56) == crate::mac::hmac_sha256(
                crate::authenticator::effective_key(
                    old(authenticator).spec_store().spec_key_of(b.subrange(57, 57 + b[56])),
                ),
                crate::mac::mac_preimage(
                    b.subrange(57, 57 + b[56]),
                    crate::wire::be_value_of(b.subrange(0, 8)) as u64,
                    crate::wire::be_value_of(b.subrange(8, 24)) as u128,
                ),
            )
        }),
        ({
            let b = frame@.payload;
            let total = 57 + b[56];
            let id = b.subrange(57, total);
            let ts = crate::wire::be_value_of(b.subrange(0, 8)) as u64;
            let nonce = crate::wire::be_value_of(b.subrange(8, 24)) as u128;
            let stored = old(authenticator).spec_store().spec_key_of(id);
            let complete = frame@.kind == AuthMessage::Auth.spec_code() && b.len() >= 57 && total
                <= auth_payload_codec.max_length && b.len() >= total
                && crate::bytestring::valid_identifier(id);
            let accepted_record = complete && crate::authenticator::within_skew(
                now,
                ts,
                old(authenticator).skew(),
            ) && b.subrange(24, 56) == crate::mac::hmac_sha256(
                crate::authenticator::effective_key(stored),
                crate::mac::mac_preimage(id, ts, nonce),
            ) && old(session_manager).spec_session_of(connection_id) is Some;
            let outcome = crate::store::nonce_admission(
                old(authenticator).spec_store().spec_nonces_of(id),
                nonce,
                ts,
                old(authenticator).skew(),
                old(authenticator).spec_store().spec_max_per_client(),
            );
            &&& (accepted_record && stored is None) ==> r.1
            &&& (accepted_record && stored is Some) ==> {
                ||| (r.1 == outcome.1 && final (authenticator).spec_store().spec_nonces_of(id)
                    == outcome.0)
                ||| (!r.1 && forall|id2: Seq<u8>|
                    final (authenticator).spec_store().spec_nonces_of(id2) == old(
                        authenticator,
                    ).spec_store().spec_nonces_of(id2))
            }
        }),
{
    proof {
        assert(Seq::<u8>::empty() + frame@.payload =~= frame@.payload);
    }
    let is_auth_kind = frame.message.0 == AuthMessage::Auth.code();
    if !is_auth_kind {
        return (
            Frame { message: AuthMessage::AuthInvalid.to_message(), payload: bytes_new() },
            false,
        );
    }
    match auth_payload_codec.decode_from_frame(frame, codec_buffer) {
        Ok(Some((auth_payload, _message))) => {
            let (status, response) = authenticator.process_auth_payload_at(&auth_payload, now);
            if status {
                let marked = session_manager.authenticate_at(
                    connection_id,
                    auth_payload.client_identifier,
                    now,
                );
                if marked {
                    (response, true)
                } else {
                    // The session disappeared under us; the connection
                    // cannot be yielded as authenticated.
                    (
                        Frame {
                            message: AuthMessage::AuthInvalid.to_message(),
                            payload: bytes_new(),
                        },
                        false,
                    )
                }
            } else {
                (response, false)
            }
        },
        Ok(None) => (
            Frame { message: AuthMessage::AuthInvalid.to_message(), payload: bytes_new() },
            false,
        ),
        Err(_) => (
            Frame { message: AuthMessage::AuthInvalid.to_message(), payload: bytes_new() },
            false,
        ),
    }
}

/// Where the client-side handshake stands.
#[derive(Clone, Copy, Debug, PartialEq, Eq, Structural)]
pub enum ClientHandshakeState {
    /// Waiting for the server's probe frame.
    ReadProbe,
    /// An auth payload was sent; waiting for the answer.
    AwaitResponse,
    /// The server accepted the connection.
    Done,
    /// Retries are exhausted; the connection is not authenticated.
    Failed,
}

/// What the driver observed on the control stream.
#[derive(Clone, Copy, Debug, PartialEq, Eq, Structural)]
pub enum ClientHandshakeEvent {
    /// A frame with this message kind arrived.
    Received(u8),
    /// No frame arrived within the receive timeout.
    TimedOut,
    /// The stream ended.
    Closed,
}

/// What the driver must do next.
#[derive(Clone, Copy, Debug, PartialEq, Eq, Structural)]
pub enum ClientHandshakeAction {
    /// Keep reading frames.
    Wait,
    /// Build and send a fresh auth payload, then await the answer.
    SendAuth,
    /// Wait out the retry cooldown, send a fresh auth payload, and
    /// await the answer again.
    RetryAfterCooldown,
    /// The handshake is over; `Done` or `Failed` says how.
    Stop,
}

/// The client side of the handshake as a state machine: the driver
/// feeds in what it observed and performs the returned action.
pub struct ClientHandshake {
    pub state: ClientHandshakeState,
    pub retries: u64,
    pub max_retries: u64,
}

impl ClientHandshake {
    /// A handshake about to read the server's probe.
    pub fn new(max_retries: u64) -> (r: Self)
        ensures
            r.state == ClientHandshakeState::ReadProbe,
            r.retries == 0,
            r.max_retries == max_retries,
    {
        ClientHandshake { state: ClientHandshakeState::ReadProbe, retries: 0, max_retries }
    }

    /// One transition. While reading the server's first frame:
    /// `AuthValid` finishes at once; `Auth`, `AuthRequired` and
    /// `AuthInvalid` call for an auth payload; an unknown kind is
    /// skipped; a timeout or a closed stream fails the handshake (the
    /// server sent no probe at all). While awaiting the answer:
    /// `AuthValid` finishes; an unknown kind is skipped; anything else
    /// is one failed attempt, retried after the cooldown until
    /// `max_retries` attempts are exhausted, which fails the handshake.
    pub fn step(&mut self, event: ClientHandshakeEvent) -> (r: ClientHandshakeAction)
        ensures
            final (self).max_retries == old(self).max_retries,
            ({
                let valid = AuthMessage::AuthValid.spec_code();
                match old(self).state {
                    ClientHandshakeState::ReadProbe => match event {
                        ClientHandshakeEvent::Received(kind) => {
                            if kind == valid {
                                &&& final (self).state == ClientHandshakeState::Done
                                &&& r == ClientHandshakeAction::Stop
                            } else if 1 <= kind <= 4 {
                                &&& final (self).state == ClientHandshakeState::AwaitResponse
                                &&& r == ClientHandshakeAction::SendAuth
                            } else {
                                &&& final (self).state == ClientHandshakeState::ReadProbe
                                &&& r == ClientHandshakeAction::Wait
                            }
                        },
                        _ => {
                            &&& final (self).state == ClientHandshakeState::Failed
                            &&& r == ClientHandshakeAction::Stop
                        },
                    },
                    ClientHandshakeState::AwaitResponse => match event {
                        ClientHandshakeEvent::Received(kind) => {
                            if kind == valid {
                                &&& final (self).state == ClientHandshakeState::Done
                                &&& r == ClientHandshakeAction::Stop
                            } else if !(1 <= kind <= 4) {
                                &&& final (self).state == ClientHandshakeState::AwaitResponse
                                &&& r == ClientHandshakeAction::Wait
                            } else if old(self).retries < old(self).max_retries {
                                &&& final (self).state == ClientHandshakeState::AwaitResponse
                                &&& final (self).retries == old(self).retries + 1
                                &&& r == ClientHandshakeAction::RetryAfterCooldown
                            } else {
                                &&& final (self).state == ClientHandshakeState::Failed
                                &&& r == ClientHandshakeAction::Stop
                            }
                        },
                        _ => {
                            if old(self).retries < old(self).max_retries {
                                &&& final (self).state == ClientHandshakeState::AwaitResponse
                                &&& final (self).retries == old(self).retries + 1
                                &&& r == ClientHandshakeAction::RetryAfterCooldown
                            } else {
                                &&& final (self).state == ClientHandshakeState::Failed
                                &&& r == ClientHandshakeAction::Stop
                            }
                        },
                    },
                    ClientHandshakeState::Done => {
                        &&& *final (self) == *old(self)
                        &&& r == ClientHandshakeAction::Stop
                    },
                    ClientHandshakeState::Failed => {
                        &&& *final (self) == *old(self)
                        &&& r == ClientHandshakeAction::Stop
                    },
                }
            }),
    {
        match self.state {
            ClientHandshakeState::ReadProbe => match event {
                ClientHandshakeEvent::Received(kind) => {
                    if kind == 2 {
                        self.state = ClientHandshakeState::Done;
                        ClientHandshakeAction::Stop
                    } else if kind >= 1 && kind <= 4 {
                        self.state = ClientHandshakeState::AwaitResponse;
                        ClientHandshakeAction::SendAuth
                    } else {
                        ClientHandshakeAction::Wait
                    }
                },
                _ => {
                    self.state = ClientHandshakeState::Failed;
                    ClientHandshakeAction::Stop
                },
            },
            ClientHandshakeState::AwaitResponse => match event {
                ClientHandshakeEvent::Received(kind) => {
                    if kind == 2 {
                        self.state = ClientHandshakeState::Done;
                        ClientHandshakeAction::Stop
                    } else if !(kind >= 1 && kind <= 4) {
                        ClientHandshakeAction::Wait
                    } else if self.retries < self.max_retries {
                        self.retries = self.retries + 1;
                        ClientHandshakeAction::RetryAfterCooldown
                    } else {
                        self.state = ClientHandshakeState::Failed;
                        ClientHandshakeAction::Stop
                    }
                },
                _ => {
                    if self.retries < self.max_retries {
                        self.retries = self.retries + 1;
                        ClientHandshakeAction::RetryAfterCooldown
                    } else {
                        self.state = ClientHandshakeState::Failed;
                        ClientHandshakeAction::Stop
                    }
                },
            },
            ClientHandshakeState::Done => ClientHandshakeAction::Stop,
            ClientHandshakeState::Failed => ClientHandshakeAction::Stop,
        }
    }
}

} // verus!
