//! HMAC-SHA256 over the canonical auth pre-image, and construction of
//! fresh auth records from the clock and a random nonce.

use crate::auth_codec::AuthPayload;
use crate::errors::ZauthError;
use crate::wire::{be_bytes_of, be_encode};
use hmac::{KeyInit, Mac};
use vstd::prelude::*;

verus! {

/// The canonical MAC pre-image of an auth record's non-MAC fields:
/// `u16_be(id_len) ‖ id_bytes ‖ u64_be(timestamp) ‖ u128_be(nonce)`.
pub open spec fn mac_preimage(client_identifier: Seq<u8>, timestamp: u64, nonce: u128) -> Seq<u8> {
    be_bytes_of(client_identifier.len(), 2) + client_identifier + be_bytes_of(timestamp as nat, 8)
        + be_bytes_of(nonce as nat, 16)
}

/// The HMAC-SHA256 tag of `message` under `key`: a function of the two
/// arguments alone, named here and computed only by the wrapper below.
pub uninterp spec fn hmac_sha256(key: Seq<u8>, message: Seq<u8>) -> Seq<u8>;

/// Relies on `hmac::Hmac<sha2::Sha256>` (`new_from_slice`, `update`,
/// `finalize`): the tag depends on the key and message bytes alone and
/// is 32 bytes long. `new_from_slice` accepts keys of any length for
/// `Hmac` (its own code says so), so no input is excluded.
#[verifier::external_body]
fn hmac_sha256_tag(key: &[u8], message: &[u8]) -> (r: Vec<u8>)
    ensures
        r@ == hmac_sha256(key@, message@),
        r@.len() == 32,
{
    let mut mac = <hmac::Hmac<sha2::Sha256> as KeyInit>::new_from_slice(key)
        .expect("HMAC accepts keys of any length");
    mac.update(message);
    mac.finalize().into_bytes().as_slice().to_vec()
}

/// Appends every byte of `src` to `dst`.
fn push_all(dst: &mut Vec<u8>, src: &[u8])
    ensures
        final (dst)@ == old(dst)@ + src@,
{
    let mut i: usize = 0;
    while i < src.len()
        invariant
            i <= src@.len(),
            dst@ == old(dst)@ + src@.take(i as int),
        decreases src@.len() - i,
    {
        dst.push(*vstd::slice::slice_index_get(src, i));
        i = i + 1;
        proof {
            assert(old(dst)@ + src@.take(i as int) =~= (old(dst)@ + src@.take(i - 1)).push(
                src@[i - 1],
            ));
        }
    }
    proof {
        assert(src@.take(src@.len() as int) =~= src@);
    }
}

/// The deterministic HMAC-SHA256 tag over the canonical byte layout of
/// an auth record's non-MAC fields.
pub fn auth_mac(key: &[u8], client_identifier: &[u8], timestamp: u64, nonce: u128) -> (r: Result<
    Vec<u8>,
    ZauthError,
>)
    requires
        client_identifier@.len() <= 0xffff,
    ensures
        (r matches Ok(mac) && mac@ == hmac_sha256(
            key@,
            mac_preimage(client_identifier@, timestamp, nonce),
        ) && mac@.len() == 32),
{
    let mut message = be_encode(client_identifier.len() as u128, 2);
    push_all(&mut message, client_identifier);
    let ts_bytes = be_encode(timestamp as u128, 8);
    push_all(&mut message, ts_bytes.as_slice());
    let nonce_bytes = be_encode(nonce, 16);
    push_all(&mut message, nonce_bytes.as_slice());
    proof {
        assert(message@ =~= mac_preimage(client_identifier@, timestamp, nonce));
    }
    Ok(hmac_sha256_tag(key, message.as_slice()))
}

/// Relies on `std::time::SystemTime::now` and `duration_since(UNIX_EPOCH)`:
/// the wall clock's seconds since the epoch, or `None` when the clock is
/// before it. Nothing further can be promised of the clock.
#[verifier::external_body]
pub(crate) fn now_unix_seconds() -> (r: Option<u64>)
{
    match std::time::SystemTime::now().duration_since(std::time::UNIX_EPOCH) {
        Ok(elapsed) => Some(elapsed.as_secs()),
        Err(_) => None,
    }
}

/// Relies on `rand::random`: a random 128-bit nonce. Nothing can be
/// promised of a random value.
#[verifier::external_body]
fn random_nonce() -> (r: u128) {
    rand::random()
}

impl AuthPayload {
    /// An auth record assembled from given clock and nonce values, its
    /// MAC computed over the canonical pre-image.
    pub fn from_parts(client_identifier: Vec<u8>, key: &[u8], timestamp: u64, nonce: u128) -> (r:
        AuthPayload)
        requires
            client_identifier@.len() <= 0xffff,
        ensures
            r@.client_identifier == client_identifier@,
            r@.timestamp == timestamp,
            r@.nonce == nonce,
            r@.mac == hmac_sha256(key@, mac_preimage(client_identifier@, timestamp, nonce)),
            r@.mac.len() == 32,
    {
        let mac = match auth_mac(key, client_identifier.as_slice(), timestamp, nonce) {
            Ok(mac) => mac,
            Err(_) => {
                proof {
                    assert(false);
                }
                Vec::new()
            },
        };
        AuthPayload { client_identifier, timestamp, nonce, mac }
    }

    /// A fresh auth record: current wall-clock seconds, a random nonce,
    /// and the MAC over them. Fails only when the clock is unsound.
    pub fn new(client_identifier: Vec<u8>, key: &[u8]) -> (r: Result<AuthPayload, ZauthError>)
        requires
            client_identifier@.len() <= 0xffff,
        ensures
            (r matches Ok(p) ==> p@.client_identifier == client_identifier@ && p@.mac
                == hmac_sha256(
                key@,
                mac_preimage(client_identifier@, p@.timestamp, p@.nonce),
            ) && p@.mac.len() == 32),
            (r matches Err(e) ==> e == ZauthError::UnsyncClock),
    {
        let timestamp = match now_unix_seconds() {
            Some(t) => t,
            None => {
                return Err(ZauthError::UnsyncClock);
            },
        };
        let nonce = random_nonce();
        Ok(AuthPayload::from_parts(client_identifier, key, timestamp, nonce))
    }
}

} // verus!
