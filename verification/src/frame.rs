//! The outer frame: `[u8 message_kind][u16 payload_length][payload]`,
//! with a codec that encodes whole frames and decodes them from a
//! growable buffer, consuming nothing until a whole frame is present.

use crate::bytebuf::{bm_advance, bm_as_slice, bm_extend_from_slice, bm_freeze, bm_split_to, bytes_as_slice, bytes_len, bytes_seq};
use crate::errors::WireError;
use crate::wire::{be_bytes_of, be_decode, be_encode, be_max, be_value_of, lemma_be_value_of_bound};
use vstd::prelude::*;
use vstd::slice::{slice_index_get, slice_subrange};

verus! {

/// An 8-bit message kind. The auth handshake reserves codes 1 to 4;
/// other subsystems register their own codes with the frame codec.
#[derive(Clone, Copy, Debug, PartialEq, Eq, Structural)]
pub struct Message(pub u8);

/// One message on the wire: a kind byte and an immutable payload.
pub struct Frame {
    pub message: Message,
    pub payload: bytes::Bytes,
}

/// The mathematical content of a frame.
pub ghost struct FrameView {
    pub kind: u8,
    pub payload: Seq<u8>,
}

impl View for Frame {
    type V = FrameView;

    open spec fn view(&self) -> FrameView {
        FrameView { kind: self.message.0, payload: bytes_seq(self.payload) }
    }
}

/// Width of the kind byte plus the big-endian `u16` payload-length prefix.
pub const HEADER_LENGTH: usize = 3;

/// Default cap on a frame's payload: fits one IP datagram comfortably.
pub const DEFAULT_MAX_PAYLOAD_LENGTH: usize = 1300;

/// The wire form of a frame: kind, two-byte big-endian payload length,
/// then the payload itself.
pub open spec fn frame_wire_bytes(kind: u8, payload: Seq<u8>) -> Seq<u8> {
    seq![kind] + be_bytes_of(payload.len(), 2) + payload
}

/// The payload length announced by a buffer's frame header (meaningful
/// once the buffer holds at least `HEADER_LENGTH` bytes).
pub open spec fn peeked_payload_len(b: Seq<u8>) -> nat {
    be_value_of(b.subrange(1, 3))
}

/// Encoder/decoder for the outer frame. Carries only configuration and
/// each task instantiates its own. Decoding a complete frame whose
/// kind byte is not in `registered` is an `InvalidMessageType` error.
#[derive(Clone)]
pub struct FrameCodec {
    pub max_length: usize,
    pub max_payload_length: usize,
    pub registered: Vec<u8>,
}

/// A frame the codec accepts: payload within the `u16` prefix, within
/// the payload cap, and the whole frame within the total cap.
pub open spec fn frame_fits(c: FrameCodec, payload_len: nat) -> bool {
    payload_len <= 0xffff && payload_len <= c.max_payload_length && 3 + payload_len
        <= c.max_length
}

/// Whether a kind code is registered with this codec.
pub open spec fn spec_registered(c: FrameCodec, code: u8) -> bool {
    c.registered@.contains(code)
}

/// The codes every codec starts with: the auth handshake's reserved
/// kinds, 1 to 4.
fn reserved_codes() -> (r: Vec<u8>)
    ensures
        forall|c: u8| r@.contains(c) <==> (1 <= c <= 4),
{
    let mut v: Vec<u8> = Vec::new();
    v.push(1);
    v.push(2);
    v.push(3);
    v.push(4);
    proof {
        assert forall|c: u8| v@.contains(c) <==> (1 <= c <= 4) by {
            if 1 <= c <= 4 {
                assert(v@[c - 1] == c);
            }
            if v@.contains(c) {
                let k = choose|k: int| 0 <= k < v@.len() && v@[k] == c;
            }
        };
    }
    v
}

impl Default for FrameCodec {
    /// The default limits (1300-byte payloads, derived total cap) with
    /// the reserved kinds registered.
    fn default() -> (r: Self)
        ensures
            r.max_payload_length == DEFAULT_MAX_PAYLOAD_LENGTH,
            r.max_length == HEADER_LENGTH + DEFAULT_MAX_PAYLOAD_LENGTH,
            forall|c: u8| spec_registered(r, c) <==> (1 <= c <= 4),
    {
        FrameCodec {
            max_length: HEADER_LENGTH + DEFAULT_MAX_PAYLOAD_LENGTH,
            max_payload_length: DEFAULT_MAX_PAYLOAD_LENGTH,
            registered: reserved_codes(),
        }
    }
}

impl FrameCodec {
    /// A codec with the given payload cap and the reserved kinds; the
    /// total cap follows from the payload cap.
    pub fn new(max_payload_length: usize) -> (r: Self)
        requires
            max_payload_length <= 0xffff,
        ensures
            r.max_payload_length == max_payload_length,
            r.max_length == HEADER_LENGTH + max_payload_length,
            forall|c: u8| spec_registered(r, c) <==> (1 <= c <= 4),
    {
        FrameCodec {
            max_length: HEADER_LENGTH + max_payload_length,
            max_payload_length,
            registered: reserved_codes(),
        }
    }

    /// Registers a further message kind, as a subsystem declaring its
    /// own codes does.
    pub fn register_message_kind(&mut self, code: u8)
        ensures
            final (self).max_length == old(self).max_length,
            final (self).max_payload_length == old(self).max_payload_length,
            forall|c: u8|
                spec_registered(*final (self), c) <==> (spec_registered(*old(self), c) || c
                    == code),
    {
        let ghost r0 = self.registered@;
        self.registered.push(code);
        proof {
            assert forall|c: u8|
                self.registered@.contains(c) <==> (r0.contains(c) || c == code) by {
                if self.registered@.contains(c) {
                    let k = choose|k: int|
                        0 <= k < self.registered@.len() && self.registered@[k] == c;
                    if k < r0.len() {
                        assert(r0[k] == c);
                    }
                }
                if r0.contains(c) {
                    let k = choose|k: int| 0 <= k < r0.len() && r0[k] == c;
                    assert(self.registered@[k] == c);
                }
                if c == code {
                    assert(self.registered@[self.registered@.len() - 1] == c);
                }
            };
        }
    }

    /// Whether a kind code is registered.
    fn is_registered(&self, code: u8) -> (r: bool)
        ensures
            r == spec_registered(*self, code),
    {
        let mut i: usize = 0;
        let n = self.registered.len();
        while i < n
            invariant
                n == self.registered@.len(),
                i <= n,
                forall|j: int| 0 <= j < i ==> self.registered@[j] != code,
            decreases n - i,
        {
            if self.registered[i] == code {
                return true;
            }
            i = i + 1;
        }
        proof {
            if self.registered@.contains(code) {
                let k = choose|k: int|
                    0 <= k < self.registered@.len() && self.registered@[k] == code;
            }
        }
        false
    }

    /// Appends the frame's wire form to `destination`, or rejects the
    /// frame and leaves the buffer untouched.
    pub fn encode(&self, frame: &Frame, destination: &mut bytes::BytesMut) -> (r: Result<
        (),
        WireError,
    >)
        ensures
            ({
                let pl = frame@.payload.len() as int;
                match r {
                    Ok(_) => frame_fits(*self, frame@.payload.len())
                        && crate::bytebuf::bm_seq(*final (destination)) == crate::bytebuf::bm_seq(
                        *old(destination),
                    ) + frame_wire_bytes(frame@.kind, frame@.payload),
                    Err(e) => crate::bytebuf::bm_seq(*final (destination)) == crate::bytebuf::bm_seq(
                        *old(destination),
                    ) && !frame_fits(*self, frame@.payload.len()) && (if pl > 0xffff {
                        e == WireError::Oversized("payload_length", pl as usize, 0xffff)
                    } else if pl > self.max_payload_length {
                        e == WireError::Oversized(
                            "payload_length",
                            pl as usize,
                            self.max_payload_length,
                        )
                    } else {
                        e == WireError::Oversized(
                            "total_length",
                            (3 + pl) as usize,
                            self.max_length,
                        )
                    }),
                }
            }),
    {
        let payload_length = bytes_len(&frame.payload);

        if payload_length > 0xffff {
            return Err(WireError::Oversized("payload_length", payload_length, 0xffff));
        }
        if payload_length > self.max_payload_length {
            return Err(
                WireError::Oversized("payload_length", payload_length, self.max_payload_length),
            );
        }
        let total_length = HEADER_LENGTH + payload_length;
        if total_length > self.max_length {
            return Err(WireError::Oversized("total_length", total_length, self.max_length));
        }
        let ghost b0 = crate::bytebuf::bm_seq(*destination);
        let kind_bytes = be_encode(frame.message.0 as u128, 1);
        bm_extend_from_slice(destination, kind_bytes.as_slice());
        let prefix_bytes = be_encode(payload_length as u128, 2);
        bm_extend_from_slice(destination, prefix_bytes.as_slice());
        bm_extend_from_slice(destination, bytes_as_slice(&frame.payload));
        proof {
            assert(be_bytes_of(frame.message.0 as nat, 1) =~= seq![frame.message.0]) by {
                vstd::arithmetic::div_mod::lemma_small_mod(frame.message.0 as nat, 256);
            };
            assert(crate::bytebuf::bm_seq(*destination) =~= b0 + frame_wire_bytes(
                frame@.kind,
                frame@.payload,
            ));
        }
        Ok(())
    }

    /// Decodes one frame from the front of `source` if a whole one is
    /// there; consumes nothing otherwise. A header announcing a payload
    /// beyond the configured caps is a hard error, as is a complete
    /// frame whose kind byte is not registered; neither consumes bytes.
    pub fn decode(&self, source: &mut bytes::BytesMut) -> (r: Result<Option<Frame>, WireError>)
        ensures
            ({
                let b = crate::bytebuf::bm_seq(*old(source));
                let pl = peeked_payload_len(b) as int;
                let total = 3 + pl;
                match r {
                    Ok(None) => crate::bytebuf::bm_seq(*final (source)) == b && (b.len() < 3 || (pl
                        <= self.max_payload_length && total <= self.max_length && b.len() < total)),
                    Ok(Some(frame)) => b.len() >= 3 && pl <= self.max_payload_length && total
                        <= self.max_length && b.len() >= total && spec_registered(*self, b[0])
                        && frame@.kind == b[0] && frame@.payload == b.subrange(3, total)
                        && crate::bytebuf::bm_seq(*final (source)) == b.skip(total),
                    Err(e) => crate::bytebuf::bm_seq(*final (source)) == b && b.len() >= 3 && (if pl
                        > self.max_payload_length {
                        e == WireError::Oversized(
                            "payload_length",
                            pl as usize,
                            self.max_payload_length,
                        )
                    } else if total > self.max_length {
                        e == WireError::Oversized("total_length", total as usize, self.max_length)
                    } else {
                        &&& b.len() >= total
                        &&& !spec_registered(*self, b[0])
                        &&& e == WireError::InvalidMessageType(b[0])
                    }),
                }
            }),
    {
        let ghost b = crate::bytebuf::bm_seq(*source);
        let source_slice = bm_as_slice(source);
        let source_length = source_slice.len();

        if source_length < HEADER_LENGTH {
            return Ok(None);
        }
        let prefix = slice_subrange(source_slice, 1, HEADER_LENGTH);
        let payload_length_raw = be_decode(prefix);
        proof {
            lemma_be_value_of_bound(prefix@);
            reveal_with_fuel(be_max, 3);
        }
        let payload_length = payload_length_raw as usize;

        if payload_length > self.max_payload_length {
            return Err(
                WireError::Oversized("payload_length", payload_length, self.max_payload_length),
            );
        }
        let total_length = HEADER_LENGTH + payload_length;
        if total_length > self.max_length {
            return Err(WireError::Oversized("total_length", total_length, self.max_length));
        }
        if source_length < total_length {
            return Ok(None);
        }
        let kind: u8 = *slice_index_get(source_slice, 0);
        if !self.is_registered(kind) {
            return Err(WireError::InvalidMessageType(kind));
        }

        bm_advance(source, HEADER_LENGTH);
        let payload_part = bm_split_to(source, payload_length);
        let payload = bm_freeze(payload_part);
        proof {
            assert(bytes_seq(payload) =~= b.subrange(3, 3 + payload_length as int));
            assert(crate::bytebuf::bm_seq(*source) =~= b.skip(3 + payload_length as int));
        }
        Ok(Some(Frame { message: Message(kind), payload }))
    }
}

/// Round trip: a frame the codec accepts decodes, from its own wire
/// bytes followed by anything, back to the same kind and payload, with
/// exactly the trailing bytes left over.
pub proof fn lemma_frame_round_trip(c: FrameCodec, kind: u8, payload: Seq<u8>, rest: Seq<u8>)
    requires
        frame_fits(c, payload.len()),
    ensures
        ({
            let b = frame_wire_bytes(kind, payload) + rest;
            &&& b.len() >= 3
            &&& peeked_payload_len(b) == payload.len()
            &&& b.len() >= 3 + payload.len()
            &&& b[0] == kind
            &&& b.subrange(3, 3 + payload.len() as int) == payload
            &&& b.skip(3 + payload.len() as int) == rest
        }),
{
    let w = frame_wire_bytes(kind, payload);
    let b = w + rest;
    crate::wire::lemma_be_bytes_of_len(payload.len(), 2);
    assert(b.subrange(1, 3) =~= be_bytes_of(payload.len(), 2));
    reveal_with_fuel(be_max, 3);
    crate::wire::lemma_be_value_of_be_bytes_of(payload.len(), 2);
    assert(b.subrange(3, 3 + payload.len() as int) =~= payload);
    assert(b.skip(3 + payload.len() as int) =~= rest);
}

/// Partial reads are safe: every strict prefix of a frame's wire form
/// is decoded as "not ready", never as a frame or an error.
pub proof fn lemma_frame_partial_prefix(c: FrameCodec, kind: u8, payload: Seq<u8>, k: int)
    requires
        frame_fits(c, payload.len()),
        0 <= k < frame_wire_bytes(kind, payload).len(),
    ensures
        ({
            let b = frame_wire_bytes(kind, payload).take(k);
            b.len() < 3 || (peeked_payload_len(b) <= c.max_payload_length && 3 + peeked_payload_len(
                b,
            ) <= c.max_length && b.len() < 3 + peeked_payload_len(b))
        }),
{
    let w = frame_wire_bytes(kind, payload);
    let b = w.take(k);
    crate::wire::lemma_be_bytes_of_len(payload.len(), 2);
    assert(w.len() == 3 + payload.len());
    if k >= 3 {
        assert(b.subrange(1, 3) =~= w.subrange(1, 3));
        assert(w.subrange(1, 3) =~= be_bytes_of(payload.len(), 2));
        reveal_with_fuel(be_max, 3);
        crate::wire::lemma_be_value_of_be_bytes_of(payload.len(), 2);
    }
}

} // verus!
