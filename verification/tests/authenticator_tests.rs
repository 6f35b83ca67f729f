use hmac::{KeyInit, Mac};
use zenet::store::AuthStore;
use zenet::auth_codec::AuthPayload;
use zenet::authenticator::Authenticator;
use zenet::mac::auth_mac;
use zenet::store::InMemoryStore;

const NOW: u64 = 1_700_000_000;
const SKEW: u64 = 300;

fn store_with(client: &[u8], key: &[u8]) -> InMemoryStore {
    let mut store = InMemoryStore::new(100);
    store.insert_key(client, key.to_vec());
    store
}

#[test]
fn auth_mac_matches_a_direct_hmac_computation() {
    let key = b"swordfish";
    let id = b"Zeltra-9";
    let timestamp: u64 = 77;
    let nonce: u128 = 0x1234;

    let tag = auth_mac(key, id, timestamp, nonce).unwrap();

    let mut reference = <hmac::Hmac<sha2::Sha256> as KeyInit>::new_from_slice(key).unwrap();
    reference.update(&(id.len() as u16).to_be_bytes());
    reference.update(id);
    reference.update(&timestamp.to_be_bytes());
    reference.update(&nonce.to_be_bytes());
    let expected = reference.finalize().into_bytes();

    assert_eq!(tag.as_slice(), expected.as_slice());
    assert_eq!(tag.len(), 32);
}

#[test]
fn p6_correct_key_verifies_and_any_field_flip_fails() {
    let id = b"Zeltra-9".to_vec();
    let key = b"secret-key";

    let good = AuthPayload::from_parts(id.clone(), key, NOW, 42);
    let mut auth = Authenticator::new(store_with(&id, key), SKEW);
    assert!(auth.verify_auth_at(&good, NOW));

    // A flipped MAC bit.
    let mut bad_mac = AuthPayload::from_parts(id.clone(), key, NOW, 43);
    bad_mac.mac[0] ^= 0x01;
    let mut auth = Authenticator::new(store_with(&id, key), SKEW);
    assert!(!auth.verify_auth_at(&bad_mac, NOW));

    // A flipped timestamp without recomputing the MAC.
    let mut bad_ts = AuthPayload::from_parts(id.clone(), key, NOW, 44);
    bad_ts.timestamp ^= 0x1;
    let mut auth = Authenticator::new(store_with(&id, key), SKEW);
    assert!(!auth.verify_auth_at(&bad_ts, NOW));

    // A flipped nonce without recomputing the MAC.
    let mut bad_nonce = AuthPayload::from_parts(id.clone(), key, NOW, 45);
    bad_nonce.nonce ^= 0x1;
    let mut auth = Authenticator::new(store_with(&id, key), SKEW);
    assert!(!auth.verify_auth_at(&bad_nonce, NOW));

    // A flipped identifier byte without recomputing the MAC.
    let mut bad_id = AuthPayload::from_parts(id.clone(), key, NOW, 46);
    bad_id.client_identifier[0] ^= 0x1;
    let mut auth = Authenticator::new(store_with(&id, key), SKEW);
    assert!(!auth.verify_auth_at(&bad_id, NOW));
}

#[test]
fn p7_skew_window_boundaries_are_inclusive() {
    let id = b"edge".to_vec();
    let key = b"k";

    for (ts, expected) in [
        (NOW - SKEW, true),
        (NOW + SKEW, true),
        (NOW - SKEW - 1, false),
        (NOW + SKEW + 1, false),
    ] {
        let payload = AuthPayload::from_parts(id.clone(), key, ts, ts as u128);
        let mut auth = Authenticator::new(store_with(&id, key), SKEW);
        assert_eq!(auth.verify_auth_at(&payload, NOW), expected, "timestamp {}", ts);
    }
}

#[test]
fn s5_stale_timestamp_yields_auth_invalid_frame() {
    let id = b"old-timer".to_vec();
    let key = b"k";
    let payload = AuthPayload::from_parts(id.clone(), key, NOW - 10_000, 9);
    let mut auth = Authenticator::new(store_with(&id, key), SKEW);
    let (status, frame) = auth.process_auth_payload_at(&payload, NOW);
    assert!(!status);
    assert_eq!(frame.message.0, 3);
    assert_eq!(frame.payload.len(), 0);
}

#[test]
fn p8_replaying_a_nonce_is_rejected() {
    let id = b"replayer".to_vec();
    let key = b"k";
    let payload = AuthPayload::from_parts(id.clone(), key, NOW, 1234);
    let mut auth = Authenticator::new(store_with(&id, key), SKEW);
    assert!(auth.verify_auth_at(&payload, NOW));
    assert!(!auth.verify_auth_at(&payload, NOW));
}

#[test]
fn s3_empty_key_two_nonces_pass_replay_fails() {
    let id = b"Zeltra-9".to_vec();
    let key = b"";
    let first = AuthPayload::from_parts(id.clone(), key, NOW, 1);
    let second = AuthPayload::from_parts(id.clone(), key, NOW, 2);

    let mut auth = Authenticator::new(store_with(&id, key), SKEW);
    assert!(auth.verify_auth_at(&first, NOW));
    assert!(auth.verify_auth_at(&second, NOW));
    assert!(!auth.verify_auth_at(&first, NOW));
}

#[test]
fn unknown_identifier_is_rejected() {
    let id = b"nobody".to_vec();
    let key = b"their-key";
    let payload = AuthPayload::from_parts(id.clone(), key, NOW, 5);
    let mut auth = Authenticator::new(InMemoryStore::new(100), SKEW);
    assert!(!auth.verify_auth_at(&payload, NOW));
}

#[test]
fn p9_capacity_eviction_frees_the_oldest_nonce() {
    let mut store = InMemoryStore::new(2);
    let ttl = SKEW;
    assert!(store.insert_nonce(b"c", 1, NOW, ttl).unwrap());
    assert!(store.insert_nonce(b"c", 2, NOW, ttl).unwrap());
    assert!(!store.insert_nonce(b"c", 1, NOW, ttl).unwrap());
    // A third distinct nonce drops the oldest entry (nonce 1).
    assert!(store.insert_nonce(b"c", 3, NOW, ttl).unwrap());
    assert!(store.insert_nonce(b"c", 1, NOW, ttl).unwrap());
}

#[test]
fn p9_window_expiry_frees_old_nonces() {
    let mut store = InMemoryStore::new(100);
    let ttl = SKEW;
    assert!(store.insert_nonce(b"c", 7, NOW, ttl).unwrap());
    assert!(!store.insert_nonce(b"c", 7, NOW, ttl).unwrap());
    // Past the window the same value is admitted again.
    assert!(store.insert_nonce(b"c", 7, NOW + ttl + 1, ttl).unwrap());
}

#[test]
fn equal_timestamps_at_the_cutoff_are_retained() {
    let mut store = InMemoryStore::new(100);
    let ttl = SKEW;
    assert!(store.insert_nonce(b"c", 7, NOW, ttl).unwrap());
    // An entry exactly at the cutoff stays, so the nonce still replays.
    assert!(!store.insert_nonce(b"c", 7, NOW + ttl, ttl).unwrap());
}
