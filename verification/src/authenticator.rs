//! Verification of auth records: timestamp skew, key lookup with a
//! dummy-key fallback (so an unknown identifier costs the same HMAC
//! work as a known one), constant-time MAC comparison, and at-most-once
//! nonce admission.

use crate::auth_codec::AuthPayload;
use crate::bytebuf::bytes_new;
use crate::frame::Frame;
use crate::mac::{auth_mac, hmac_sha256, mac_preimage, now_unix_seconds};
use crate::messages::AuthMessage;
use crate::store::{nonce_admission, secret_expose, AuthStore};
use subtle::ConstantTimeEq;
use vstd::prelude::*;
use vstd::slice::slice_to_vec;

verus! {

/// Relies on subtle's `ConstantTimeEq` for `[u8]`: true exactly when
/// the slices are equal; equal-length comparisons run in time
/// independent of the contents, and unequal lengths compare unequal.
#[verifier::external_body]
fn ct_eq_bytes(a: &[u8], b: &[u8]) -> (r: bool)
    ensures
        r == (a@ == b@),
{
    a.ct_eq(b).into()
}

/// The 32-byte all-zero key substituted when an identifier is unknown.
pub open spec fn dummy_key() -> Seq<u8> {
    Seq::new(32, |i: int| 0u8)
}

/// The key the MAC is checked against: the stored key, or the dummy.
pub open spec fn effective_key(stored: Option<Seq<u8>>) -> Seq<u8> {
    match stored {
        Some(k) => k,
        None => dummy_key(),
    }
}

/// The timestamp is accepted: within `skew` seconds of `now`, both
/// boundaries inclusive.
pub open spec fn within_skew(now: u64, timestamp: u64, skew: u64) -> bool {
    timestamp <= now + skew && now <= timestamp + skew
}

/// The all-zero dummy key as bytes.
fn zero_key() -> (r: Vec<u8>)
    ensures
        r@ == dummy_key(),
{
    let mut v: Vec<u8> = Vec::new();
    let mut i: usize = 0;
    while i < 32
        invariant
            i <= 32,
            v@.len() == i,
            forall|j: int| 0 <= j < i ==> v@[j] == 0u8,
        decreases 32 - i,
    {
        v.push(0u8);
        i = i + 1;
    }
    proof {
        assert(v@ =~= dummy_key());
    }
    v
}

/// Checks auth records against a store, within a symmetric clock-skew
/// window that doubles as the nonce time-to-live.
pub struct Authenticator<S: AuthStore> {
    store: S,
    skew_seconds: u64,
}

impl<S: AuthStore> Authenticator<S> {
    /// The backing store's state.
    pub closed spec fn spec_store(&self) -> S {
        self.store
    }

    /// The configured skew window in seconds.
    pub closed spec fn skew(&self) -> u64 {
        self.skew_seconds
    }

    /// An authenticator over the given store and skew window.
    pub fn new(store: S, skew_seconds: u64) -> (r: Self)
        ensures
            r.spec_store() == store,
            r.skew() == skew_seconds,
    {
        Authenticator { store, skew_seconds }
    }

    /// The backing store, for inspection.
    pub fn store(&self) -> (r: &S)
        ensures
            *r == self.spec_store(),
    {
        &self.store
    }

    /// Verifies one auth record against the given clock reading.
    ///
    /// Succeeds exactly when the timestamp lies within the skew window,
    /// the MAC equals HMAC-SHA256 of the canonical pre-image under the
    /// effective key, and, for a known identifier, the nonce was
    /// admitted as fresh. An unknown identifier is checked against the
    /// dummy key and consumes no nonce.
    pub fn verify_auth_at(&mut self, auth: &AuthPayload, now: u64) -> (r: bool)
        requires
            auth@.client_identifier.len() <= 0xffff,
        ensures
            ({
                let id = auth@.client_identifier;
                let stored = old(self).spec_store().spec_key_of(id);
                let mac_ok = auth@.mac == hmac_sha256(
                    effective_key(stored),
                    mac_preimage(id, auth@.timestamp, auth@.nonce),
                );
                let skew_ok = within_skew(now, auth@.timestamp, old(self).skew());
                let outcome = nonce_admission(
                    old(self).spec_store().spec_nonces_of(id),
                    auth@.nonce,
                    auth@.timestamp,
                    old(self).skew(),
                    old(self).spec_store().spec_max_per_client(),
                );
                &&& final (self).skew() == old(self).skew()
                &&& forall|id2: Seq<u8>|
                    final (self).spec_store().spec_key_of(id2)
                        == old(self).spec_store().spec_key_of(id2)
                &&& final (self).spec_store().spec_max_per_client()
                    == old(self).spec_store().spec_max_per_client()
                &&& r ==> skew_ok && mac_ok && (stored is Some ==> outcome.1)
                &&& !skew_ok ==> !r && final (self).spec_store() == old(self).spec_store()
                &&& (skew_ok && !mac_ok)
                    ==> !r && final (self).spec_store() == old(self).spec_store()
                &&& (skew_ok && mac_ok && stored is None)
                    ==> r && final (self).spec_store() == old(self).spec_store()
                &&& (skew_ok && mac_ok && stored is Some) ==> {
                    ||| {
                        &&& final (self).spec_store().spec_nonces_of(id) == outcome.0
                        &&& r == outcome.1
                        &&& forall|id2: Seq<u8>|
                            id2 != id ==> final (self).spec_store().spec_nonces_of(id2)
                                == old(self).spec_store().spec_nonces_of(id2)
                    }
                    ||| {
                        &&& !r
                        &&& forall|id2: Seq<u8>|
                            final (self).spec_store().spec_nonces_of(id2)
                                == old(self).spec_store().spec_nonces_of(id2)
                    }
                }
            }),
    {
        let skew = self.skew_seconds;
        let ts = auth.timestamp;
        if ts > now {
            if ts - now > skew {
                return false;
            }
        } else {
            if now - ts > skew {
                return false;
            }
        }
        let (key_bytes, known): (Vec<u8>, bool) = match self.store.get_key(
            auth.client_identifier.as_slice(),
        ) {
            Some(k) => (slice_to_vec(secret_expose(k)), true),
            None => (zero_key(), false),
        };
        let expected_mac = match auth_mac(
            key_bytes.as_slice(),
            auth.client_identifier.as_slice(),
            auth.timestamp,
            auth.nonce,
        ) {
            Ok(m) => m,
            Err(_) => {
                proof {
                    assert(false);
                }
                return false;
            },
        };
        let mac_ok = ct_eq_bytes(expected_mac.as_slice(), auth.mac.as_slice());
        if !mac_ok {
            return false;
        }
        if known {
            match self.store.insert_nonce(
                auth.client_identifier.as_slice(),
                auth.nonce,
                auth.timestamp,
                skew,
            ) {
                Ok(fresh) => {
                    if !fresh {
                        return false;
                    }
                },
                Err(_) => {
                    return false;
                },
            }
        }
        true
    }

    /// Verifies one auth record against the wall clock. A clock before
    /// the epoch fails closed. The clauses here are the ones that hold
    /// whatever the clock returned; the skew-dependent case split of
    /// `verify_auth_at` applies to the reading the clock gave.
    pub fn verify_auth(&mut self, auth: &AuthPayload) -> (r: bool)
        requires
            auth@.client_identifier.len() <= 0xffff,
        ensures
            ({
                let id = auth@.client_identifier;
                let stored = old(self).spec_store().spec_key_of(id);
                let outcome = nonce_admission(
                    old(self).spec_store().spec_nonces_of(id),
                    auth@.nonce,
                    auth@.timestamp,
                    old(self).skew(),
                    old(self).spec_store().spec_max_per_client(),
                );
                &&& final (self).skew() == old(self).skew()
                &&& forall|id2: Seq<u8>|
                    final (self).spec_store().spec_key_of(id2)
                        == old(self).spec_store().spec_key_of(id2)
                &&& final (self).spec_store().spec_max_per_client()
                    == old(self).spec_store().spec_max_per_client()
                &&& r ==> auth@.mac == hmac_sha256(
                    effective_key(stored),
                    mac_preimage(id, auth@.timestamp, auth@.nonce),
                )
                &&& forall|id2: Seq<u8>|
                    id2 != id ==> final (self).spec_store().spec_nonces_of(id2) == old(
                        self,
                    ).spec_store().spec_nonces_of(id2)
                &&& final (self).spec_store().spec_nonces_of(id) == old(
                    self,
                ).spec_store().spec_nonces_of(id) || final (self).spec_store().spec_nonces_of(id)
                    == outcome.0
                &&& (r && stored is Some) ==> outcome.1 && final (
                self).spec_store().spec_nonces_of(id) == outcome.0
                &&& (r && stored is None) ==> final (self).spec_store() == old(self).spec_store()
            }),
    {
        match now_unix_seconds() {
            Some(now) => self.verify_auth_at(auth, now),
            None => false,
        }
    }

    /// Verifies the record and builds the response frame: `AuthValid`
    /// with an empty payload on success, `AuthInvalid` otherwise. As in
    /// `verify_auth`, the clauses are the clock-independent ones.
    pub fn process_auth_payload(&mut self, auth: &AuthPayload) -> (r: (bool, Frame))
        requires
            auth@.client_identifier.len() <= 0xffff,
        ensures
            r.1@.kind == (if r.0 {
                AuthMessage::AuthValid.spec_code()
            } else {
                AuthMessage::AuthInvalid.spec_code()
            }),
            r.1@.payload == Seq::<u8>::empty(),
            ({
                let id = auth@.client_identifier;
                let stored = old(self).spec_store().spec_key_of(id);
                let outcome = nonce_admission(
                    old(self).spec_store().spec_nonces_of(id),
                    auth@.nonce,
                    auth@.timestamp,
                    old(self).skew(),
                    old(self).spec_store().spec_max_per_client(),
                );
                &&& final (self).skew() == old(self).skew()
                &&& forall|id2: Seq<u8>|
                    final (self).spec_store().spec_key_of(id2)
                        == old(self).spec_store().spec_key_of(id2)
                &&& final (self).spec_store().spec_max_per_client()
                    == old(self).spec_store().spec_max_per_client()
                &&& r.0 ==> auth@.mac == hmac_sha256(
                    effective_key(stored),
                    mac_preimage(id, auth@.timestamp, auth@.nonce),
                )
                &&& forall|id2: Seq<u8>|
                    id2 != id ==> final (self).spec_store().spec_nonces_of(id2) == old(
                        self,
                    ).spec_store().spec_nonces_of(id2)
                &&& final (self).spec_store().spec_nonces_of(id) == old(
                    self,
                ).spec_store().spec_nonces_of(id) || final (self).spec_store().spec_nonces_of(id)
                    == outcome.0
                &&& (r.0 && stored is Some) ==> outcome.1 && final (
                self).spec_store().spec_nonces_of(id) == outcome.0
                &&& (r.0 && stored is None) ==> final (self).spec_store() == old(self).spec_store()
            }),
    {
        let auth_status = self.verify_auth(auth);
        let message = if auth_status {
            AuthMessage::AuthValid.to_message()
        } else {
            AuthMessage::AuthInvalid.to_message()
        };
        (auth_status, Frame { message, payload: bytes_new() })
    }

    /// Verifies the record against a given clock reading and builds the
    /// response frame, with the full contract of `verify_auth_at`.
    pub fn process_auth_payload_at(&mut self, auth: &AuthPayload, now: u64) -> (r: (bool, Frame))
        requires
            auth@.client_identifier.len() <= 0xffff,
        ensures
            r.1@.kind == (if r.0 {
                AuthMessage::AuthValid.spec_code()
            } else {
                AuthMessage::AuthInvalid.spec_code()
            }),
            r.1@.payload == Seq::<u8>::empty(),
            ({
                let id = auth@.client_identifier;
                let stored = old(self).spec_store().spec_key_of(id);
                let mac_ok = auth@.mac == hmac_sha256(
                    effective_key(stored),
                    mac_preimage(id, auth@.timestamp, auth@.nonce),
                );
                let skew_ok = within_skew(now, auth@.timestamp, old(self).skew());
                let outcome = nonce_admission(
                    old(self).spec_store().spec_nonces_of(id),
                    auth@.nonce,
                    auth@.timestamp,
                    old(self).skew(),
                    old(self).spec_store().spec_max_per_client(),
                );
                &&& final (self).skew() == old(self).skew()
                &&& forall|id2: Seq<u8>|
                    final (self).spec_store().spec_key_of(id2)
                        == old(self).spec_store().spec_key_of(id2)
                &&& r.0 ==> skew_ok && mac_ok && (stored is Some ==> outcome.1)
                &&& !skew_ok ==> !r.0 && final (self).spec_store() == old(self).spec_store()
                &&& (skew_ok && !mac_ok)
                    ==> !r.0 && final (self).spec_store() == old(self).spec_store()
                &&& (skew_ok && mac_ok && stored is None) ==> r.0
                &&& (skew_ok && mac_ok && stored is Some) ==> {
                    ||| (final (self).spec_store().spec_nonces_of(id) == outcome.0
                        && r.0 == outcome.1)
                    ||| (!r.0 && forall|id2: Seq<u8>|
                        final (self).spec_store().spec_nonces_of(id2)
                            == old(self).spec_store().spec_nonces_of(id2))
                }
            }),
    {
        let auth_status = self.verify_auth_at(auth, now);
        let message = if auth_status {
            AuthMessage::AuthValid.to_message()
        } else {
            AuthMessage::AuthInvalid.to_message()
        };
        (auth_status, Frame { message, payload: bytes_new() })
    }
}

} // verus!
