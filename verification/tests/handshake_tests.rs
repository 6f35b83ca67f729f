use bytes::BytesMut;
use zenet::auth_codec::{AuthPayload, AuthPayloadCodec};
use zenet::authenticator::Authenticator;
use zenet::frame::{Frame, Message};
use zenet::handshake::{
    server_handle_auth_frame, server_probe, ClientHandshake, ClientHandshakeAction,
    ClientHandshakeEvent, ClientHandshakeState,
};
use zenet::messages::AuthMessage;
use zenet::session::{AuthSession, SessionManager, SimpleSessionBackend};
use zenet::store::InMemoryStore;

const NOW: u64 = 1_700_000_000;
const SKEW: u64 = 300;

#[test]
fn s6_full_server_side_handshake() {
    let id = b"Zeltra-9".to_vec();
    let key = b"shared-secret";
    let mut store = InMemoryStore::new(100);
    store.insert_key(&id, key.to_vec());
    let mut authenticator = Authenticator::new(store, SKEW);
    let mut sessions = SessionManager::new(SimpleSessionBackend::new());
    let connection_id = 7;
    sessions.create(connection_id);

    // The server probes: not authenticated yet, so AuthRequired.
    let (probe, accepted) = server_probe(&sessions, connection_id);
    assert!(!accepted);
    assert_eq!(probe.message.0, AuthMessage::AuthRequired.code());

    // The client answers with a valid auth payload in an Auth frame.
    let payload = AuthPayload::from_parts(id.clone(), key, NOW, 99);
    let codec = AuthPayloadCodec::default();
    let mut scratch = BytesMut::new();
    let frame = codec
        .encode_into_frame(&payload, Message(AuthMessage::Auth.code()), &mut scratch)
        .unwrap();

    let mut buffer = BytesMut::new();
    let (response, authed) = server_handle_auth_frame(
        &mut authenticator,
        &mut sessions,
        connection_id,
        &frame,
        &codec,
        &mut buffer,
        NOW,
    );
    assert!(authed);
    assert_eq!(response.message.0, AuthMessage::AuthValid.code());
    assert!(sessions.is_authenticated(connection_id));
    assert_eq!(sessions.get_client_id(connection_id), Some(id));
}

#[test]
fn probe_of_an_authenticated_session_is_auth_valid() {
    let mut sessions = SessionManager::new(SimpleSessionBackend::new());
    sessions.create(3);
    assert!(sessions.authenticate_at(3, b"done".to_vec(), NOW));
    let (probe, accepted) = server_probe(&sessions, 3);
    assert!(accepted);
    assert_eq!(probe.message.0, AuthMessage::AuthValid.code());
}

#[test]
fn non_auth_frame_is_rejected() {
    let mut authenticator = Authenticator::new(InMemoryStore::new(100), SKEW);
    let mut sessions = SessionManager::new(SimpleSessionBackend::new());
    sessions.create(1);
    let frame = Frame { message: Message(9), payload: bytes::Bytes::new() };
    let mut buffer = BytesMut::new();
    let (response, authed) = server_handle_auth_frame(
        &mut authenticator,
        &mut sessions,
        1,
        &frame,
        &AuthPayloadCodec::default(),
        &mut buffer,
        NOW,
    );
    assert!(!authed);
    assert_eq!(response.message.0, AuthMessage::AuthInvalid.code());
    assert!(!sessions.is_authenticated(1));
}

#[test]
fn malformed_auth_payload_is_rejected() {
    let mut authenticator = Authenticator::new(InMemoryStore::new(100), SKEW);
    let mut sessions = SessionManager::new(SimpleSessionBackend::new());
    sessions.create(1);
    let frame = Frame {
        message: Message(AuthMessage::Auth.code()),
        payload: bytes::Bytes::from_static(&[1, 2, 3]),
    };
    let mut buffer = BytesMut::new();
    let (response, authed) = server_handle_auth_frame(
        &mut authenticator,
        &mut sessions,
        1,
        &frame,
        &AuthPayloadCodec::default(),
        &mut buffer,
        NOW,
    );
    assert!(!authed);
    assert_eq!(response.message.0, AuthMessage::AuthInvalid.code());
}

#[test]
fn client_accepts_immediate_auth_valid() {
    let mut hs = ClientHandshake::new(0);
    let action = hs.step(ClientHandshakeEvent::Received(AuthMessage::AuthValid.code()));
    assert_eq!(action, ClientHandshakeAction::Stop);
    assert_eq!(hs.state, ClientHandshakeState::Done);
}

#[test]
fn client_sends_auth_after_auth_required_then_succeeds() {
    let mut hs = ClientHandshake::new(0);
    let action = hs.step(ClientHandshakeEvent::Received(AuthMessage::AuthRequired.code()));
    assert_eq!(action, ClientHandshakeAction::SendAuth);
    assert_eq!(hs.state, ClientHandshakeState::AwaitResponse);

    let action = hs.step(ClientHandshakeEvent::Received(AuthMessage::AuthValid.code()));
    assert_eq!(action, ClientHandshakeAction::Stop);
    assert_eq!(hs.state, ClientHandshakeState::Done);
}

#[test]
fn client_retries_then_fails_when_exhausted() {
    let mut hs = ClientHandshake::new(1);
    assert_eq!(
        hs.step(ClientHandshakeEvent::Received(AuthMessage::AuthRequired.code())),
        ClientHandshakeAction::SendAuth
    );
    assert_eq!(
        hs.step(ClientHandshakeEvent::Received(AuthMessage::AuthInvalid.code())),
        ClientHandshakeAction::RetryAfterCooldown
    );
    assert_eq!(hs.retries, 1);
    assert_eq!(
        hs.step(ClientHandshakeEvent::Received(AuthMessage::AuthInvalid.code())),
        ClientHandshakeAction::Stop
    );
    assert_eq!(hs.state, ClientHandshakeState::Failed);
}

#[test]
fn client_fails_when_the_probe_never_arrives() {
    let mut hs = ClientHandshake::new(3);
    assert_eq!(hs.step(ClientHandshakeEvent::TimedOut), ClientHandshakeAction::Stop);
    assert_eq!(hs.state, ClientHandshakeState::Failed);

    let mut hs = ClientHandshake::new(3);
    assert_eq!(hs.step(ClientHandshakeEvent::Closed), ClientHandshakeAction::Stop);
    assert_eq!(hs.state, ClientHandshakeState::Failed);
}

#[test]
fn client_response_timeout_counts_as_a_failed_attempt() {
    let mut hs = ClientHandshake::new(1);
    assert_eq!(
        hs.step(ClientHandshakeEvent::Received(AuthMessage::AuthRequired.code())),
        ClientHandshakeAction::SendAuth
    );
    assert_eq!(hs.step(ClientHandshakeEvent::TimedOut), ClientHandshakeAction::RetryAfterCooldown);
    assert_eq!(hs.retries, 1);
    assert_eq!(hs.step(ClientHandshakeEvent::TimedOut), ClientHandshakeAction::Stop);
    assert_eq!(hs.state, ClientHandshakeState::Failed);
}

#[test]
fn client_skips_unknown_message_kinds() {
    let mut hs = ClientHandshake::new(0);
    assert_eq!(
        hs.step(ClientHandshakeEvent::Received(99)),
        ClientHandshakeAction::Wait
    );
    assert_eq!(hs.state, ClientHandshakeState::ReadProbe);
}

#[test]
fn message_registry_round_trips_and_rejects_unknown_codes() {
    for m in [
        AuthMessage::Auth,
        AuthMessage::AuthValid,
        AuthMessage::AuthInvalid,
        AuthMessage::AuthRequired,
    ] {
        assert_eq!(AuthMessage::from_code(m.code()).unwrap(), m);
    }
    assert!(matches!(
        AuthMessage::from_code(5),
        Err(zenet::errors::WireError::InvalidMessageType(5))
    ));
    assert!(matches!(
        AuthMessage::from_message(&Message(0)),
        Err(zenet::errors::WireError::InvalidMessageType(0))
    ));
}
