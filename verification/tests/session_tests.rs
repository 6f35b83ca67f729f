use zenet::session::{
    AuthSession, AuthState, Session, SessionManager, SimpleSessionBackend,
};

#[test]
fn p12_authenticate_makes_the_session_visible() {
    let mut manager = SessionManager::new(SimpleSessionBackend::new());
    manager.create(1);

    assert!(!manager.is_authenticated(1));
    assert!(manager.authenticate_at(1, b"alice".to_vec(), 1000));

    assert!(manager.is_authenticated(1));
    assert_eq!(manager.get_client_id(1), Some(b"alice".to_vec()));

    assert!(!manager.is_authenticated(2));
    assert_eq!(manager.get_client_id(2), None);
}

#[test]
fn authenticate_without_a_session_is_a_no_op() {
    let mut manager = SessionManager::new(SimpleSessionBackend::new());
    assert!(!manager.authenticate_at(9, b"ghost".to_vec(), 1000));
    assert!(!manager.is_authenticated(9));
}

#[test]
fn create_and_remove_sessions() {
    let mut manager = SessionManager::new(SimpleSessionBackend::new());
    manager.create(1);
    manager.create(2);
    let mut active = manager.active_connections();
    active.sort();
    assert_eq!(active, vec![1, 2]);

    manager.remove(1);
    assert_eq!(manager.active_connections(), vec![2]);
    assert!(manager.with_session(1).is_none());
    assert!(manager.with_session(2).is_some());
}

#[test]
fn recreating_a_session_clears_its_auth_state() {
    let mut manager = SessionManager::new(SimpleSessionBackend::new());
    manager.create(5);
    assert!(manager.authenticate_at(5, b"bob".to_vec(), 42));
    assert!(manager.is_authenticated(5));

    manager.create(5);
    assert!(!manager.is_authenticated(5));
    assert_eq!(manager.get_client_id(5), None);
}

#[test]
fn session_attribute_access() {
    let mut session = Session::new(11);
    assert_eq!(session.connection_id, 11);
    assert!(session.get().is_none());

    session.insert(AuthState {
        authenticated: true,
        client_id: Some(b"carol".to_vec()),
        authenticated_at: Some(7),
    });
    let auth = session.get().unwrap();
    assert!(auth.authenticated);
    assert_eq!(auth.client_id, Some(b"carol".to_vec()));
    assert_eq!(auth.authenticated_at, Some(7));

    let auth = session.get_mut().unwrap();
    auth.authenticated = false;
    assert!(!session.get().unwrap().authenticated);
}

#[test]
fn with_session_mut_edits_in_place() {
    let mut manager = SessionManager::new(SimpleSessionBackend::new());
    manager.create(4);
    {
        let session = manager.with_session_mut(4).unwrap();
        session.insert(AuthState {
            authenticated: true,
            client_id: Some(b"dana".to_vec()),
            authenticated_at: Some(1),
        });
    }
    assert!(manager.is_authenticated(4));
    assert!(manager.with_session_mut(8).is_none());
}

#[test]
fn default_auth_state_is_unauthenticated() {
    let state = AuthState::default();
    assert!(!state.authenticated);
    assert!(state.client_id.is_none());
    assert!(state.authenticated_at.is_none());
}

#[test]
fn authenticated_connections_lists_exactly_the_authenticated() {
    let mut manager = SessionManager::new(SimpleSessionBackend::new());
    manager.create(1);
    manager.create(2);
    manager.create(3);
    assert!(manager.authenticate_at(1, b"alice".to_vec(), 10));
    assert!(manager.authenticate_at(3, b"bob".to_vec(), 11));

    let mut listed = manager.authenticated_connections();
    listed.sort();
    assert_eq!(listed, vec![(1, b"alice".to_vec()), (3, b"bob".to_vec())]);
}
