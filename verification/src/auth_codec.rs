//! The auth record and its codec. Wire form:
//! `[u64 timestamp][u128 nonce][32-byte mac][u8 id_length][id bytes]`.

use crate::bytebuf::{
    bm_advance, bm_as_slice, bm_extend_from_slice, bm_freeze, bm_len, bm_seq, bm_split_off,
    bytes_as_slice,
};
use crate::bytestring::{ascii_hyphen_ok, first_disallowed_reported, valid_identifier, WiredStringPolicyKind};
use crate::errors::{MalformedStringError, WireError};
use crate::frame::{Frame, Message};
use crate::wire::{be_bytes_of, be_decode, be_encode, be_max, be_value_of, lemma_be_value_of_bound};
use vstd::prelude::*;
use vstd::slice::{slice_subrange, slice_to_vec};

verus! {

/// Fixed bytes before the identifier: timestamp, nonce, MAC, id length.
pub const AUTH_FIXED_PART_LENGTH: usize = 57;

/// The MAC is always exactly this long.
pub const MAC_LENGTH: usize = 32;

/// A client identifier fits in its one-byte length prefix.
pub const MAX_CLIENT_IDENTIFIER_LENGTH: usize = 255;

/// The inner record of an auth frame. Created client-side at handshake
/// time, consumed server-side in one verification call, never persisted.
#[derive(Debug)]
pub struct AuthPayload {
    pub client_identifier: Vec<u8>,
    pub timestamp: u64,
    pub nonce: u128,
    pub mac: Vec<u8>,
}

/// The mathematical content of an auth record.
pub ghost struct AuthPayloadView {
    pub client_identifier: Seq<u8>,
    pub timestamp: u64,
    pub nonce: u128,
    pub mac: Seq<u8>,
}

impl View for AuthPayload {
    type V = AuthPayloadView;

    open spec fn view(&self) -> AuthPayloadView {
        AuthPayloadView {
            client_identifier: self.client_identifier@,
            timestamp: self.timestamp,
            nonce: self.nonce,
            mac: self.mac@,
        }
    }
}

/// The wire form of an auth record.
pub open spec fn auth_wire_bytes(v: AuthPayloadView) -> Seq<u8> {
    be_bytes_of(v.timestamp as nat, 8) + be_bytes_of(v.nonce as nat, 16) + v.mac + be_bytes_of(
        v.client_identifier.len(),
        1,
    ) + v.client_identifier
}

/// The identifier length a buffer's auth header announces (meaningful
/// once the buffer holds the fixed part).
pub open spec fn auth_peeked_id_len(b: Seq<u8>) -> nat {
    b[56] as nat
}

/// Encoder/decoder for auth records. Carries only configuration.
#[derive(Clone, Copy)]
pub struct AuthPayloadCodec {
    pub max_length: usize,
}

impl Default for AuthPayloadCodec {
    /// The default cap admits every identifier length the prefix allows.
    fn default() -> (r: Self)
        ensures
            r.max_length == AUTH_FIXED_PART_LENGTH + MAX_CLIENT_IDENTIFIER_LENGTH,
    {
        AuthPayloadCodec { max_length: AUTH_FIXED_PART_LENGTH + MAX_CLIENT_IDENTIFIER_LENGTH }
    }
}

/// An auth record the codec accepts for encoding: a valid identifier
/// (1 to 255 policy bytes), a total within the cap, a 32-byte MAC.
pub open spec fn auth_record_fits(c: AuthPayloadCodec, v: AuthPayloadView) -> bool {
    &&& valid_identifier(v.client_identifier)
    &&& 57 + v.client_identifier.len() <= c.max_length
    &&& v.mac.len() == 32
}

impl AuthPayloadCodec {
    /// Appends the record's wire form to `destination`, or rejects the
    /// record and leaves the buffer untouched.
    pub fn encode(&self, payload: &AuthPayload, destination: &mut bytes::BytesMut) -> (r: Result<
        (),
        WireError,
    >)
        ensures
            ({
                let v = payload@;
                let idl = v.client_identifier.len() as int;
                match r {
                    Ok(_) => auth_record_fits(*self, v) && bm_seq(*final (destination)) == bm_seq(
                        *old(destination),
                    ) + auth_wire_bytes(v),
                    Err(e) => bm_seq(*final (destination)) == bm_seq(*old(destination))
                        && !auth_record_fits(*self, v) && (if idl > 255 {
                        e == WireError::Oversized("client_identifier_length", idl as usize, 255)
                    } else if idl == 0 {
                        e == WireError::Underflow("client_identifier", 0, 1)
                    } else if !ascii_hyphen_ok(v.client_identifier) {
                        &&& e matches WireError::MalformedString(m)
                        &&& m.field == Some("client_identifier")
                        &&& first_disallowed_reported(v.client_identifier, m)
                    } else if 57 + idl > self.max_length {
                        e == WireError::Oversized("total_length", (57 + idl) as usize, self.max_length)
                    } else if v.mac.len() > 32 {
                        e == WireError::Oversized("mac", v.mac.len() as usize, 32)
                    } else {
                        e == WireError::Underflow("mac", v.mac.len() as usize, 32)
                    }),
                }
            }),
    {
        let client_id_length = self.id_len(payload);
        if client_id_length > MAX_CLIENT_IDENTIFIER_LENGTH {
            return Err(
                WireError::Oversized(
                    "client_identifier_length",
                    client_id_length,
                    MAX_CLIENT_IDENTIFIER_LENGTH,
                ),
            );
        }
        if client_id_length == 0 {
            return Err(WireError::Underflow("client_identifier", 0, 1));
        }
        match WiredStringPolicyKind::AsciiHyphen.validate(payload.client_identifier.as_slice()) {
            Err(bad) => {
                return Err(
                    WireError::MalformedString(
                        MalformedStringError { field: Some("client_identifier"), kind: bad.kind },
                    ),
                );
            },
            Ok(_) => {},
        }
        let total_length = AUTH_FIXED_PART_LENGTH + client_id_length;
        if total_length > self.max_length {
            return Err(WireError::Oversized("total_length", total_length, self.max_length));
        }
        let mac_length = payload.mac.len();
        if mac_length > MAC_LENGTH {
            return Err(WireError::Oversized("mac", mac_length, MAC_LENGTH));
        }
        if mac_length < MAC_LENGTH {
            return Err(WireError::Underflow("mac", mac_length, MAC_LENGTH));
        }
        let ghost b0 = bm_seq(*destination);
        let ts_bytes = be_encode(payload.timestamp as u128, 8);
        crate::bytebuf::bm_extend_from_slice(destination, ts_bytes.as_slice());
        let nonce_bytes = be_encode(payload.nonce, 16);
        crate::bytebuf::bm_extend_from_slice(destination, nonce_bytes.as_slice());
        crate::bytebuf::bm_extend_from_slice(destination, payload.mac.as_slice());
        let id_len_byte = be_encode(client_id_length as u128, 1);
        crate::bytebuf::bm_extend_from_slice(destination, id_len_byte.as_slice());
        crate::bytebuf::bm_extend_from_slice(destination, payload.client_identifier.as_slice());
        proof {
            assert(bm_seq(*destination) =~= b0 + auth_wire_bytes(payload@));
        }
        Ok(())
    }

    /// The identifier length of a record (split out so the borrow of the
    /// record ends before the buffer is written).
    fn id_len(&self, payload: &AuthPayload) -> (r: usize)
        ensures
            r == payload@.client_identifier.len(),
    {
        payload.client_identifier.len()
    }

    /// Decodes one auth record from the front of `source` if a whole one
    /// is there; consumes nothing otherwise. A record whose identifier
    /// violates the ASCII-hyphen policy is a hard error and is consumed.
    pub fn decode(&self, source: &mut bytes::BytesMut) -> (r: Result<Option<AuthPayload>, WireError>)
        ensures
            ({
                let b = bm_seq(*old(source));
                let idl = auth_peeked_id_len(b) as int;
                let total = 57 + idl;
                match r {
                    Ok(None) => bm_seq(*final (source)) == b && (b.len() < 57 || (total
                        <= self.max_length && b.len() < total)),
                    Ok(Some(p)) => b.len() >= 57 && total <= self.max_length && b.len() >= total
                        && p@.timestamp as nat == be_value_of(b.subrange(0, 8))
                        && p@.nonce as nat == be_value_of(b.subrange(8, 24)) && p@.mac == b.subrange(
                        24,
                        56,
                    ) && p@.client_identifier == b.subrange(57, total) && valid_identifier(
                        p@.client_identifier,
                    ) && bm_seq(*final (source)) == b.skip(total),
                    Err(e) => b.len() >= 57 && (if total > self.max_length {
                        bm_seq(*final (source)) == b && e == WireError::Oversized(
                            "total_length",
                            total as usize,
                            self.max_length,
                        )
                    } else if idl == 0 {
                        &&& b.len() >= total
                        &&& bm_seq(*final (source)) == b.skip(total)
                        &&& e == WireError::Underflow("client_identifier", 0, 1)
                    } else {
                        &&& b.len() >= total
                        &&& !ascii_hyphen_ok(b.subrange(57, total))
                        &&& bm_seq(*final (source)) == b.skip(total)
                        &&& e matches WireError::MalformedString(m)
                        &&& m.field == Some("client_identifier")
                        &&& first_disallowed_reported(b.subrange(57, total), m)
                    }),
                }
            }),
    {
        let ghost b = bm_seq(*source);
        let source_slice = bm_as_slice(source);
        let source_length = source_slice.len();

        if source_length < AUTH_FIXED_PART_LENGTH {
            return Ok(None);
        }
        let client_id_length = *vstd::slice::slice_index_get(source_slice, 56) as usize;
        let total_length = AUTH_FIXED_PART_LENGTH + client_id_length;
        if total_length > self.max_length {
            return Err(WireError::Oversized("total_length", total_length, self.max_length));
        }
        if source_length < total_length {
            return Ok(None);
        }
        let ts_raw = be_decode(slice_subrange(source_slice, 0, 8));
        proof {
            lemma_be_value_of_bound(b.subrange(0, 8));
            reveal_with_fuel(be_max, 9);
        }
        let timestamp = ts_raw as u64;
        let nonce = be_decode(slice_subrange(source_slice, 8, 24));
        let mac = slice_to_vec(slice_subrange(source_slice, 24, 56));
        let client_identifier = slice_to_vec(
            slice_subrange(source_slice, AUTH_FIXED_PART_LENGTH, total_length),
        );
        bm_advance(source, total_length);
        if client_id_length == 0 {
            return Err(WireError::Underflow("client_identifier", 0, 1));
        }
        match WiredStringPolicyKind::AsciiHyphen.validate(client_identifier.as_slice()) {
            Err(bad) => Err(
                WireError::MalformedString(
                    MalformedStringError { field: Some("client_identifier"), kind: bad.kind },
                ),
            ),
            Ok(_) => Ok(Some(AuthPayload { client_identifier, timestamp, nonce, mac })),
        }
    }

    /// Encodes the record into a frame of the given message kind, using
    /// `codec_buffer` as scratch space and leaving it as it was.
    pub fn encode_into_frame(
        &self,
        payload: &AuthPayload,
        message: Message,
        codec_buffer: &mut bytes::BytesMut,
    ) -> (r: Result<Frame, WireError>)
        ensures
            bm_seq(*final (codec_buffer)) == bm_seq(*old(codec_buffer)),
            match r {
                Ok(f) => auth_record_fits(*self, payload@) && f@.kind == message.0 && f@.payload
                    == auth_wire_bytes(payload@),
                Err(_) => !auth_record_fits(*self, payload@),
            },
    {
        let start_offset = bm_len(codec_buffer);
        match self.encode(payload, codec_buffer) {
            Err(e) => Err(e),
            Ok(_) => {
                let tail = bm_split_off(codec_buffer, start_offset);
                let payload_bytes = bm_freeze(tail);
                proof {
                    assert(bm_seq(*codec_buffer) =~= bm_seq(*old(codec_buffer)));
                    assert(crate::bytebuf::bytes_seq(payload_bytes) =~= auth_wire_bytes(payload@));
                }
                Ok(Frame { message, payload: payload_bytes })
            },
        }
    }

    /// Feeds the frame's payload into `codec_buffer` and decodes one
    /// record from it, handing the frame's message kind through.
    pub fn decode_from_frame(&self, frame: &Frame, codec_buffer: &mut bytes::BytesMut) -> (r:
        Result<Option<(AuthPayload, Message)>, WireError>)
        ensures
            ({
                let b = bm_seq(*old(codec_buffer)) + frame@.payload;
                let idl = auth_peeked_id_len(b) as int;
                let total = 57 + idl;
                match r {
                    Ok(None) => bm_seq(*final (codec_buffer)) == b && (b.len() < 57 || (total
                        <= self.max_length && b.len() < total)),
                    Ok(Some((p, m))) => m == frame.message && b.len() >= 57 && total
                        <= self.max_length && b.len() >= total && p@.timestamp as nat
                        == be_value_of(b.subrange(0, 8)) && p@.nonce as nat == be_value_of(
                        b.subrange(8, 24),
                    ) && p@.mac == b.subrange(24, 56) && p@.client_identifier == b.subrange(
                        57,
                        total,
                    ) && valid_identifier(p@.client_identifier) && bm_seq(*final (codec_buffer))
                        == b.skip(total),
                    Err(e) => b.len() >= 57 && (if total > self.max_length {
                        bm_seq(*final (codec_buffer)) == b && e == WireError::Oversized(
                            "total_length",
                            total as usize,
                            self.max_length,
                        )
                    } else if idl == 0 {
                        &&& b.len() >= total
                        &&& bm_seq(*final (codec_buffer)) == b.skip(total)
                        &&& e == WireError::Underflow("client_identifier", 0, 1)
                    } else {
                        &&& b.len() >= total
                        &&& !ascii_hyphen_ok(b.subrange(57, total))
                        &&& bm_seq(*final (codec_buffer)) == b.skip(total)
                        &&& e matches WireError::MalformedString(m)
                        &&& m.field == Some("client_identifier")
                        &&& first_disallowed_reported(b.subrange(57, total), m)
                    }),
                }
            }),
    {
        bm_extend_from_slice(codec_buffer, bytes_as_slice(&frame.payload));
        match self.decode(codec_buffer) {
            Ok(Some(p)) => Ok(Some((p, frame.message))),
            Ok(None) => Ok(None),
            Err(e) => Err(e),
        }
    }
}

/// Round trip: an auth record the codec accepts decodes, from its own
/// wire bytes followed by anything, back to the same fields, with
/// exactly the trailing bytes left over.
pub proof fn lemma_auth_round_trip(c: AuthPayloadCodec, v: AuthPayloadView, rest: Seq<u8>)
    requires
        auth_record_fits(c, v),
    ensures
        ({
            let b = auth_wire_bytes(v) + rest;
            let total = 57 + v.client_identifier.len() as int;
            &&& b.len() >= 57
            &&& auth_peeked_id_len(b) == v.client_identifier.len()
            &&& 57 + auth_peeked_id_len(b) <= c.max_length
            &&& b.len() >= total
            &&& be_value_of(b.subrange(0, 8)) == v.timestamp as nat
            &&& be_value_of(b.subrange(8, 24)) == v.nonce as nat
            &&& b.subrange(24, 56) == v.mac
            &&& b.subrange(57, total) == v.client_identifier
            &&& b.skip(total) == rest
        }),
{
    let w = auth_wire_bytes(v);
    let b = w + rest;
    let idl = v.client_identifier.len() as int;
    let total = 57 + idl;
    crate::wire::lemma_be_bytes_of_len(v.timestamp as nat, 8);
    crate::wire::lemma_be_bytes_of_len(v.nonce as nat, 16);
    crate::wire::lemma_be_bytes_of_len(v.client_identifier.len(), 1);
    assert(w.len() == total);
    assert(b[56] == be_bytes_of(v.client_identifier.len(), 1)[0]);
    assert(be_bytes_of(v.client_identifier.len(), 1)[0] == v.client_identifier.len()) by {
        vstd::arithmetic::div_mod::lemma_small_mod(v.client_identifier.len(), 256);
    };
    assert(b.subrange(0, 8) =~= be_bytes_of(v.timestamp as nat, 8));
    assert(b.subrange(8, 24) =~= be_bytes_of(v.nonce as nat, 16));
    assert(b.subrange(24, 56) =~= v.mac);
    assert(b.subrange(57, total) =~= v.client_identifier);
    assert(b.skip(total) =~= rest);
    reveal_with_fuel(be_max, 9);
    crate::wire::lemma_be_value_of_be_bytes_of(v.timestamp as nat, 8);
    assert((v.nonce as nat) < be_max(16)) by {
        reveal_with_fuel(be_max, 17);
    };
    crate::wire::lemma_be_value_of_be_bytes_of(v.nonce as nat, 16);
}

} // verus!
