//! Per-connection sessions, indexed by stable connection id. A session
//! carries the authentication attribute; the manager wraps a pluggable
//! backend and offers the auth-level queries on top of it.

use crate::assoc::{
    assoc_lookup, lemma_assoc_found, lemma_assoc_none, lemma_assoc_push, lemma_assoc_update_other,
};
use crate::mac::now_unix_seconds;
use vstd::prelude::*;
use vstd::slice::slice_to_vec;

verus! {

/// The authentication attribute of a session.
pub struct AuthState {
    pub authenticated: bool,
    pub client_id: Option<Vec<u8>>,
    pub authenticated_at: Option<u64>,
}

impl Default for AuthState {
    /// Not authenticated, no client, no time.
    fn default() -> (r: Self)
        ensures
            !r.authenticated,
            r.client_id is None,
            r.authenticated_at is None,
    {
        AuthState { authenticated: false, client_id: None, authenticated_at: None }
    }
}

/// One connection's mutable state: its id and the auth attribute.
pub struct Session {
    pub connection_id: u64,
    pub auth: Option<AuthState>,
}

impl Session {
    /// The stored auth attribute.
    pub open spec fn spec_auth(&self) -> Option<AuthState> {
        self.auth
    }

    /// A fresh session with no attributes.
    pub fn new(connection_id: u64) -> (r: Self)
        ensures
            r.connection_id == connection_id,
            r.spec_auth() is None,
    {
        Session { connection_id, auth: None }
    }

    /// Sets the auth attribute, replacing any present one.
    pub fn insert(&mut self, value: AuthState)
        ensures
            final (self).spec_auth() == Some(value),
            final (self).connection_id == old(self).connection_id,
    {
        self.auth = Some(value);
    }

    /// The auth attribute, if set.
    pub fn get(&self) -> (r: Option<&AuthState>)
        ensures
            match r {
                Some(a) => self.spec_auth() == Some(*a),
                None => self.spec_auth() is None,
            },
    {
        match &self.auth {
            Some(a) => Some(a),
            None => None,
        }
    }

    /// The auth attribute for mutation, if set.
    pub fn get_mut(&mut self) -> (r: Option<&mut AuthState>)
        ensures
            old(self).spec_auth() is None ==> r is None && final (self).spec_auth() is None
                && final (self).connection_id == old(self).connection_id,
            old(self).spec_auth() is Some ==> (r matches Some(a) && *a == old(self).spec_auth().unwrap() && final (self).spec_auth() == Some(*final (a)) && final (self).connection_id == old(self).connection_id),
    {
        match &mut self.auth {
            Some(a) => Some(a),
            None => None,
        }
    }
}

/// The pluggable session storage. `create` replaces any session under
/// the same id with a fresh one; `set_auth` writes the auth attribute
/// of an existing session and reports whether one was there.
pub trait SessionBackend {
    /// The session stored under an id, if any.
    spec fn spec_session_of(&self, connection_id: u64) -> Option<Session>;

    fn create(&mut self, connection_id: u64)
        ensures
            (final (self).spec_session_of(connection_id) matches Some(s) && s.connection_id
                == connection_id && s.spec_auth() is None),
            forall|other: u64|
                other != connection_id ==> final (self).spec_session_of(other) == old(self).spec_session_of(other),
    ;

    fn remove(&mut self, connection_id: u64)
        ensures
            final (self).spec_session_of(connection_id) is None,
            forall|other: u64|
                other != connection_id ==> final (self).spec_session_of(other) == old(self).spec_session_of(other),
    ;

    fn with_session(&self, connection_id: u64) -> (r: Option<&Session>)
        ensures
            match r {
                Some(s) => self.spec_session_of(connection_id) == Some(*s),
                None => self.spec_session_of(connection_id) is None,
            },
    ;

    fn with_session_mut(&mut self, connection_id: u64) -> (r: Option<&mut Session>)
        ensures
            match r {
                Some(s) => {
                    &&& old(self).spec_session_of(connection_id) == Some(*s)
                    &&& final (self).spec_session_of(connection_id) == Some(*final (s))
                    &&& forall|other: u64|
                        other != connection_id ==> final (self).spec_session_of(other) == old(
                            self,
                        ).spec_session_of(other)
                },
                None => old(self).spec_session_of(connection_id) is None && forall|other: u64|
                    final (self).spec_session_of(other) == old(self).spec_session_of(other),
            },
    ;

    fn set_auth(&mut self, connection_id: u64, value: AuthState) -> (r: bool)
        ensures
            r == (old(self).spec_session_of(connection_id) is Some),
            r ==> (final (self).spec_session_of(connection_id) matches Some(s) && s.connection_id
                == old(self).spec_session_of(connection_id).unwrap().connection_id && s.spec_auth()
                == Some(value)),
            !r ==> final (self).spec_session_of(connection_id) is None,
            forall|other: u64|
                other != connection_id ==> final (self).spec_session_of(other) == old(self).spec_session_of(other),
    ;

    fn active_connections(&self) -> (r: Vec<u64>)
        ensures
            forall|id: u64| r@.contains(id) <==> self.spec_session_of(id) is Some,
            forall|k1: int, k2: int| 0 <= k1 < k2 < r@.len() ==> r@[k1] != r@[k2],
    ;
}

/// The in-process backend: an association list of sessions.
pub struct SimpleSessionBackend {
    sessions: Vec<(u64, Session)>,
}

impl SimpleSessionBackend {
    /// The stored pairs, for reasoning.
    pub closed spec fn sessions_view(&self) -> Seq<(u64, Session)> {
        self.sessions@
    }

    /// An empty backend.
    pub fn new() -> (r: Self)
        ensures
            forall|id: u64| r.spec_session_of(id) is None,
    {
        let r = SimpleSessionBackend { sessions: Vec::new() };
        proof {
            assert forall|id: u64| r.spec_session_of(id) is None by {
                lemma_assoc_none(r.sessions_view(), id);
            };
        }
        r
    }

    /// The index of the session under an id, first match.
    fn find_index(&self, connection_id: u64) -> (r: Option<usize>)
        ensures
            match r {
                Some(i) => i < self.sessions_view().len() && self.sessions_view()[i as int].0
                    == connection_id && forall|j: int|
                    0 <= j < i ==> (#[trigger] self.sessions_view()[j]).0 != connection_id,
                None => forall|j: int|
                    0 <= j < self.sessions_view().len() ==> (#[trigger] self.sessions_view()[j]).0
                        != connection_id,
            },
    {
        let mut i: usize = 0;
        let n = self.sessions.len();
        while i < n
            invariant
                n == self.sessions@.len(),
                i <= n,
                forall|j: int| 0 <= j < i ==> (#[trigger] self.sessions_view()[j]).0 != connection_id,
            decreases n - i,
        {
            if self.sessions[i].0 == connection_id {
                return Some(i);
            }
            i = i + 1;
        }
        None
    }
}

impl Default for SimpleSessionBackend {
    /// An empty backend.
    fn default() -> (r: Self)
        ensures
            forall|id: u64| r.spec_session_of(id) is None,
    {
        SimpleSessionBackend::new()
    }
}

impl SessionBackend for SimpleSessionBackend {
    open spec fn spec_session_of(&self, connection_id: u64) -> Option<Session> {
        assoc_lookup(self.sessions_view(), connection_id)
    }

    fn create(&mut self, connection_id: u64) {
        let fresh = Session::new(connection_id);
        match self.find_index(connection_id) {
            Some(i) => {
                let (id, _) = self.sessions.remove(i);
                self.sessions.insert(i, (id, fresh));
                proof {
                    let sv0 = old(self).sessions_view();
                    let p = self.sessions_view()[i as int];
                    assert(self.sessions_view() =~= sv0.update(i as int, p));
                    lemma_assoc_found(self.sessions_view(), connection_id, i as int);
                    assert forall|other: u64| other != connection_id implies self.spec_session_of(
                        other,
                    ) == old(self).spec_session_of(other) by {
                        lemma_assoc_update_other(sv0, i as int, p, other);
                    };
                }
            },
            None => {
                self.sessions.push((connection_id, fresh));
                proof {
                    let sv0 = old(self).sessions_view();
                    let p = self.sessions_view().last();
                    assert(self.sessions_view() =~= sv0.push(p));
                    lemma_assoc_none(sv0, connection_id);
                    lemma_assoc_push(sv0, p, connection_id);
                    assert forall|other: u64| other != connection_id implies self.spec_session_of(
                        other,
                    ) == old(self).spec_session_of(other) by {
                        lemma_assoc_push(sv0, p, other);
                    };
                }
            },
        }
    }

    fn remove(&mut self, connection_id: u64) {
        let mut done = false;
        while !done
            invariant
                forall|other: u64|
                    other != connection_id ==> self.spec_session_of(other) == old(self).spec_session_of(other),
                done ==> self.spec_session_of(connection_id) is None,
            decreases self.sessions@.len(), (if done {
                0int
            } else {
                1int
            }),
        {
            match self.find_index(connection_id) {
                Some(i) => {
                    let ghost sv0 = self.sessions_view();
                    self.sessions.remove(i);
                    proof {
                        assert(self.sessions_view() =~= sv0.subrange(0, i as int) + sv0.subrange(
                            i + 1,
                            sv0.len() as int,
                        ));
                        assert forall|other: u64| other != connection_id implies
                            self.spec_session_of(other) == assoc_lookup(sv0, other) by {
                            lemma_assoc_remove_at(sv0, i as int, other);
                        };
                    }
                },
                None => {
                    proof {
                        lemma_assoc_none(self.sessions_view(), connection_id);
                    }
                    done = true;
                },
            }
        }
    }

    fn with_session(&self, connection_id: u64) -> (r: Option<&Session>) {
        match self.find_index(connection_id) {
            Some(i) => {
                proof {
                    lemma_assoc_found(self.sessions_view(), connection_id, i as int);
                }
                Some(&self.sessions[i].1)
            },
            None => {
                proof {
                    lemma_assoc_none(self.sessions_view(), connection_id);
                }
                None
            },
        }
    }

    fn with_session_mut(&mut self, connection_id: u64) -> (r: Option<&mut Session>) {
        broadcast use crate::assoc::lemma_assoc_update_lookup;

        match self.find_index(connection_id) {
            Some(i) => {
                proof {
                    lemma_assoc_found(self.sessions_view(), connection_id, i as int);
                }
                let pair = &mut self.sessions[i];
                Some(&mut pair.1)
            },
            None => {
                proof {
                    lemma_assoc_none(self.sessions_view(), connection_id);
                }
                None
            },
        }
    }

    fn set_auth(&mut self, connection_id: u64, value: AuthState) -> (r: bool) {
        match self.find_index(connection_id) {
            Some(i) => {
                proof {
                    lemma_assoc_found(self.sessions_view(), connection_id, i as int);
                }
                let (id, mut session) = self.sessions.remove(i);
                session.insert(value);
                self.sessions.insert(i, (id, session));
                proof {
                    let sv0 = old(self).sessions_view();
                    let p = self.sessions_view()[i as int];
                    assert(self.sessions_view() =~= sv0.update(i as int, p));
                    lemma_assoc_found(self.sessions_view(), connection_id, i as int);
                    assert forall|other: u64| other != connection_id implies self.spec_session_of(
                        other,
                    ) == old(self).spec_session_of(other) by {
                        lemma_assoc_update_other(sv0, i as int, p, other);
                    };
                }
                true
            },
            None => {
                proof {
                    lemma_assoc_none(self.sessions_view(), connection_id);
                }
                false
            },
        }
    }

    fn active_connections(&self) -> (r: Vec<u64>) {
        let mut out: Vec<u64> = Vec::new();
        let mut i: usize = 0;
        let n = self.sessions.len();
        while i < n
            invariant
                n == self.sessions@.len(),
                i <= n,
                forall|k1: int, k2: int| 0 <= k1 < k2 < out@.len() ==> out@[k1] != out@[k2],
                forall|k: int|
                    0 <= k < out@.len() ==> exists|j: int|
                        0 <= j < i && (#[trigger] out@[k]) == self.sessions@[j].0,
                forall|j: int| 0 <= j < i ==> out@.contains((#[trigger] self.sessions@[j]).0),
            decreases n - i,
        {
            let id = self.sessions[i].0;
            if !contains_id(&out, id) {
                let ghost out0 = out@;
                out.push(id);
                proof {
                    assert(out@[out@.len() - 1] == self.sessions@[i as int].0);
                    assert forall|k: int| 0 <= k < out@.len() implies exists|j: int|
                        0 <= j < i + 1 && (#[trigger] out@[k]) == self.sessions@[j].0 by {
                        if k < out@.len() - 1 {
                            assert(out@[k] == out0[k]);
                        }
                    };
                    assert forall|j: int| 0 <= j < i + 1 implies out@.contains(
                        (#[trigger] self.sessions@[j]).0,
                    ) by {
                        if j < i {
                            let k = choose|k: int|
                                0 <= k < out0.len() && out0[k] == self.sessions@[j].0;
                            assert(out@[k] == self.sessions@[j].0);
                        }
                    };
                }
            } else {
                proof {
                    assert(out@.contains(self.sessions@[i as int].0));
                }
            }
            i = i + 1;
        }
        proof {
            assert forall|id: u64| out@.contains(id) <==> self.spec_session_of(id) is Some by {
                lemma_assoc_some_iff_key_present(self.sessions_view(), id);
                if out@.contains(id) {
                    let k = choose|k: int| 0 <= k < out@.len() && out@[k] == id;
                    let j = choose|j: int| 0 <= j < n && out@[k] == self.sessions@[j].0;
                    assert(self.sessions_view()[j].0 == id);
                }
            };
        }
        out
    }
}

/// Whether the id already appears in the list.
fn contains_id(v: &Vec<u64>, id: u64) -> (r: bool)
    ensures
        r == v@.contains(id),
{
    let mut i: usize = 0;
    let n = v.len();
    while i < n
        invariant
            n == v@.len(),
            i <= n,
            forall|j: int| 0 <= j < i ==> v@[j] != id,
        decreases n - i,
    {
        if v[i] == id {
            return true;
        }
        i = i + 1;
    }
    proof {
        if v@.contains(id) {
            let k = choose|k: int| 0 <= k < v@.len() && v@[k] == id;
        }
    }
    false
}

/// Removing the pair at `i` removes its key's binding when no other
/// pair carries that key, and leaves other keys' bindings unchanged.
/// This backend holds each key at most once, which the callers witness
/// through `find_index`.
proof fn lemma_assoc_remove_at(s: Seq<(u64, Session)>, i: int, key: u64)
    requires
        0 <= i < s.len(),
        forall|j: int| 0 <= j < i ==> (#[trigger] s[j]).0 != s[i].0,
    ensures
        ({
            let t = s.subrange(0, i) + s.subrange(i + 1, s.len() as int);
            if key == s[i].0 {
                assoc_lookup(t, key) == assoc_lookup(s.skip(i + 1), key)
            } else {
                assoc_lookup(t, key) == assoc_lookup(s, key)
            }
        }),
    decreases s.len(),
{
    let t = s.subrange(0, i) + s.subrange(i + 1, s.len() as int);
    if i == 0 {
        assert(t =~= s.skip(1));
        if key != s[0].0 {
            assert(assoc_lookup(s, key) == assoc_lookup(s.drop_first(), key));
            assert(s.drop_first() =~= s.skip(1));
        }
    } else {
        let s1 = s.drop_first();
        lemma_assoc_remove_at(s1, i - 1, key);
        let t1 = s1.subrange(0, i - 1) + s1.subrange(i, s1.len() as int);
        assert(t.drop_first() =~= t1);
        assert(t[0] == s[0]);
        if key == s[i].0 {
            assert(s[0].0 != key);
            assert(s1.skip(i) =~= s.skip(i + 1));
        } else {
            if s[0].0 == key {
            } else {
            }
        }
    }
}

/// A key is bound exactly when some pair carries it.
pub proof fn lemma_assoc_some_iff_key_present(s: Seq<(u64, Session)>, key: u64)
    ensures
        (assoc_lookup(s, key) is Some) <==> exists|k: int|
            0 <= k < s.len() && (#[trigger] s[k]).0 == key,
    decreases s.len(),
{
    if s.len() > 0 {
        lemma_assoc_some_iff_key_present(s.drop_first(), key);
        if s[0].0 == key {
        } else {
            if assoc_lookup(s, key) is Some {
                let k = choose|k: int|
                    0 <= k < s.drop_first().len() && (#[trigger] s.drop_first()[k]).0 == key;
                assert(s[k + 1].0 == key);
            }
            if exists|k: int| 0 <= k < s.len() && (#[trigger] s[k]).0 == key {
                let k = choose|k: int| 0 <= k < s.len() && (#[trigger] s[k]).0 == key;
                assert(s.drop_first()[k - 1].0 == key);
            }
        }
    }
}

/// The session manager: the shared front of a session backend.
pub struct SessionManager<B: SessionBackend> {
    backend: B,
}

impl<B: SessionBackend> SessionManager<B> {
    /// The backend's state.
    pub closed spec fn spec_backend(&self) -> B {
        self.backend
    }

    /// The session stored under an id, if any.
    pub open spec fn spec_session_of(&self, connection_id: u64) -> Option<Session> {
        self.spec_backend().spec_session_of(connection_id)
    }

    /// A manager over the given backend.
    pub fn new(backend: B) -> (r: Self)
        ensures
            r.spec_backend() == backend,
    {
        SessionManager { backend }
    }

    /// Creates (or resets) the session under an id.
    pub fn create(&mut self, connection_id: u64)
        ensures
            (final (self).spec_session_of(connection_id) matches Some(s) && s.connection_id
                == connection_id && s.spec_auth() is None),
            forall|other: u64|
                other != connection_id ==> final (self).spec_session_of(other) == old(self).spec_session_of(other),
    {
        self.backend.create(connection_id);
    }

    /// Removes the session under an id.
    pub fn remove(&mut self, connection_id: u64)
        ensures
            final (self).spec_session_of(connection_id) is None,
            forall|other: u64|
                other != connection_id ==> final (self).spec_session_of(other) == old(self).spec_session_of(other),
    {
        self.backend.remove(connection_id);
    }

    /// Read access to the session under an id.
    pub fn with_session(&self, connection_id: u64) -> (r: Option<&Session>)
        ensures
            match r {
                Some(s) => self.spec_session_of(connection_id) == Some(*s),
                None => self.spec_session_of(connection_id) is None,
            },
    {
        self.backend.with_session(connection_id)
    }

    /// Write access to the session under an id.
    pub fn with_session_mut(&mut self, connection_id: u64) -> (r: Option<&mut Session>)
        ensures
            match r {
                Some(s) => {
                    &&& old(self).spec_session_of(connection_id) == Some(*s)
                    &&& final (self).spec_session_of(connection_id) == Some(*final (s))
                    &&& forall|other: u64|
                        other != connection_id ==> final (self).spec_session_of(other) == old(
                            self,
                        ).spec_session_of(other)
                },
                None => old(self).spec_session_of(connection_id) is None && forall|other: u64|
                    final (self).spec_session_of(other) == old(self).spec_session_of(other),
            },
    {
        self.backend.with_session_mut(connection_id)
    }

    /// Writes the auth attribute of the session under an id; reports
    /// whether a session was there.
    pub fn set_auth(&mut self, connection_id: u64, value: AuthState) -> (r: bool)
        ensures
            r == (old(self).spec_session_of(connection_id) is Some),
            r ==> (final (self).spec_session_of(connection_id) matches Some(s) && s.connection_id
                == old(self).spec_session_of(connection_id).unwrap().connection_id && s.spec_auth()
                == Some(value)),
            !r ==> final (self).spec_session_of(connection_id) is None,
            forall|other: u64|
                other != connection_id ==> final (self).spec_session_of(other) == old(self).spec_session_of(other),
    {
        self.backend.set_auth(connection_id, value)
    }

    /// All ids that currently have a session, each exactly once.
    pub fn active_connections(&self) -> (r: Vec<u64>)
        ensures
            forall|id: u64| r@.contains(id) <==> self.spec_session_of(id) is Some,
            forall|k1: int, k2: int| 0 <= k1 < k2 < r@.len() ==> r@[k1] != r@[k2],
    {
        self.backend.active_connections()
    }
}

/// A session's auth attribute marks it authenticated for this client.
pub open spec fn spec_is_authenticated<B: SessionBackend>(
    sm: SessionManager<B>,
    connection_id: u64,
) -> bool {
    sm.spec_session_of(connection_id) matches Some(s) && s.spec_auth() matches Some(a)
        && a.authenticated
}

/// The client identifier a session was authenticated as.
pub open spec fn spec_client_id_of<B: SessionBackend>(
    sm: SessionManager<B>,
    connection_id: u64,
) -> Option<Seq<u8>> {
    match sm.spec_session_of(connection_id) {
        Some(s) => match s.spec_auth() {
            Some(a) => match a.client_id {
                Some(c) => Some(c@),
                None => None,
            },
            None => None,
        },
        None => None,
    }
}

/// The auth-level view of a session manager.
pub trait AuthSession {
    /// Marks the session authenticated as `client_id` at time `now`.
    /// A missing session is left missing, as the backend's `set_auth`
    /// reports.
    fn authenticate_at(&mut self, connection_id: u64, client_id: Vec<u8>, now: u64) -> (r: bool);

    /// As `authenticate_at`, with the wall clock (no time is recorded
    /// when the clock is before the epoch).
    fn authenticate(&mut self, connection_id: u64, client_id: Vec<u8>) -> (r: bool);

    /// Whether the session is authenticated.
    fn is_authenticated(&self, connection_id: u64) -> (r: bool);

    /// The identifier the session was authenticated as.
    fn get_client_id(&self, connection_id: u64) -> (r: Option<Vec<u8>>);

    /// Every authenticated session, with its client identifier.
    fn authenticated_connections(&self) -> (r: Vec<(u64, Vec<u8>)>);
}

impl<B: SessionBackend> AuthSession for SessionManager<B> {
    fn authenticate_at(&mut self, connection_id: u64, client_id: Vec<u8>, now: u64) -> (r: bool)
        ensures
            r == (old(self).spec_session_of(connection_id) is Some),
            r ==> spec_is_authenticated(*final (self), connection_id) && spec_client_id_of(
                *final (self),
                connection_id,
            ) == Some(client_id@),
            r ==> (final (self).spec_session_of(connection_id) matches Some(s)
                && s.spec_auth() matches Some(a) && a.authenticated_at == Some(now)),
            !r ==> final (self).spec_session_of(connection_id) is None,
            forall|other: u64|
                other != connection_id ==> final (self).spec_session_of(other) == old(self).spec_session_of(other),
    {
        self.set_auth(
            connection_id,
            AuthState {
                authenticated: true,
                client_id: Some(client_id),
                authenticated_at: Some(now),
            },
        )
    }

    fn authenticate(&mut self, connection_id: u64, client_id: Vec<u8>) -> (r: bool)
        ensures
            r == (old(self).spec_session_of(connection_id) is Some),
            r ==> spec_is_authenticated(*final (self), connection_id) && spec_client_id_of(
                *final (self),
                connection_id,
            ) == Some(client_id@),
            !r ==> final (self).spec_session_of(connection_id) is None,
            forall|other: u64|
                other != connection_id ==> final (self).spec_session_of(other) == old(self).spec_session_of(other),
    {
        let when = now_unix_seconds();
        self.set_auth(
            connection_id,
            AuthState { authenticated: true, client_id: Some(client_id), authenticated_at: when },
        )
    }

    fn is_authenticated(&self, connection_id: u64) -> (r: bool)
        ensures
            r == spec_is_authenticated(*self, connection_id),
    {
        match self.with_session(connection_id) {
            Some(session) => match session.get() {
                Some(auth) => auth.authenticated,
                None => false,
            },
            None => false,
        }
    }

    fn get_client_id(&self, connection_id: u64) -> (r: Option<Vec<u8>>)
        ensures
            match r {
                Some(c) => spec_client_id_of(*self, connection_id) == Some(c@),
                None => spec_client_id_of(*self, connection_id) is None,
            },
    {
        match self.with_session(connection_id) {
            Some(session) => match session.get() {
                Some(auth) => match &auth.client_id {
                    Some(c) => Some(slice_to_vec(c.as_slice())),
                    None => None,
                },
                None => None,
            },
            None => None,
        }
    }

    fn authenticated_connections(&self) -> (r: Vec<(u64, Vec<u8>)>)
        ensures
            forall|k: int|
                0 <= k < r@.len() ==> spec_is_authenticated(*self, (#[trigger] r@[k]).0)
                    && spec_client_id_of(*self, r@[k].0) == Some(r@[k].1@),
            forall|id: u64|
                spec_is_authenticated(*self, id) && spec_client_id_of(*self, id) is Some
                    ==> exists|k: int| 0 <= k < r@.len() && (#[trigger] r@[k]).0 == id,
            forall|k1: int, k2: int| 0 <= k1 < k2 < r@.len() ==> r@[k1].0 != r@[k2].0,
    {
        let ids = self.active_connections();
        let mut out: Vec<(u64, Vec<u8>)> = Vec::new();
        let mut i: usize = 0;
        let n = ids.len();
        while i < n
            invariant
                n == ids@.len(),
                i <= n,
                forall|k1: int, k2: int| 0 <= k1 < k2 < ids@.len() ==> ids@[k1] != ids@[k2],
                forall|k: int|
                    0 <= k < out@.len() ==> spec_is_authenticated(*self, (#[trigger] out@[k]).0)
                        && spec_client_id_of(*self, out@[k].0) == Some(out@[k].1@),
                forall|j: int|
                    0 <= j < i && spec_is_authenticated(*self, #[trigger] ids@[j])
                        && spec_client_id_of(*self, ids@[j]) is Some ==> exists|k: int|
                        0 <= k < out@.len() && (#[trigger] out@[k]).0 == ids@[j],
                forall|k: int|
                    0 <= k < out@.len() ==> exists|j: int|
                        0 <= j < i && (#[trigger] out@[k]).0 == ids@[j],
                forall|k1: int, k2: int| 0 <= k1 < k2 < out@.len() ==> out@[k1].0 != out@[k2].0,
            decreases n - i,
        {
            let id = ids[i];
            if self.is_authenticated(id) {
                match self.get_client_id(id) {
                    Some(client) => {
                        let ghost out0 = out@;
                        out.push((id, client));
                        proof {
                            assert(out@[out@.len() - 1].0 == id);
                            assert forall|j: int|
                                0 <= j < i + 1 && spec_is_authenticated(*self, #[trigger] ids@[j])
                                    && spec_client_id_of(*self, ids@[j]) is Some implies exists|
                                k: int,
                            |
                                0 <= k < out@.len() && (#[trigger] out@[k]).0 == ids@[j] by {
                                if j < i {
                                    let k0 = choose|k0: int|
                                        0 <= k0 < out0.len() && (#[trigger] out0[k0]).0 == ids@[j];
                                    assert(out@[k0].0 == ids@[j]);
                                } else {
                                    assert(out@[out@.len() - 1].0 == ids@[j]);
                                }
                            };
                            assert forall|k: int| 0 <= k < out@.len() implies exists|j: int|
                                0 <= j < i + 1 && (#[trigger] out@[k]).0 == ids@[j] by {
                                if k < out@.len() - 1 {
                                    assert(out@[k] == out0[k]);
                                } else {
                                    assert(out@[k].0 == ids@[i as int]);
                                }
                            };
                            assert forall|k1: int, k2: int|
                                0 <= k1 < k2 < out@.len() implies out@[k1].0 != out@[k2].0 by {
                                if k2 == out@.len() - 1 {
                                    let j1 = choose|j1: int|
                                        0 <= j1 < i && (#[trigger] out0[k1]).0 == ids@[j1];
                                    assert(out@[k1].0 == ids@[j1]);
                                    assert(out@[k2].0 == ids@[i as int]);
                                    assert(ids@[j1] != ids@[i as int]);
                                }
                            };
                        }
                    },
                    None => {},
                }
            }
            i = i + 1;
        }
        proof {
            assert forall|id: u64|
                spec_is_authenticated(*self, id) && spec_client_id_of(*self, id) is Some implies
                exists|k: int| 0 <= k < out@.len() && (#[trigger] out@[k]).0 == id by {
                assert(self.spec_session_of(id) is Some);
                assert(ids@.contains(id));
                let j = choose|j: int| 0 <= j < ids@.len() && ids@[j] == id;
                assert(spec_is_authenticated(*self, ids@[j]));
            };
        }
        out
    }
}

} // verus!
