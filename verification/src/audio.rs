//! The audio subsystem's codecs: a length-prefixed opaque audio payload
//! and a fixed-layout metadata record, both over the same wire
//! primitives as the core.

use crate::bytebuf::{
    bm_advance, bm_as_slice, bm_extend_from_slice, bm_freeze, bm_seq, bm_split_to, bytes_as_slice,
    bytes_len, bytes_seq,
};
use crate::errors::WireError;
use crate::wire::{be_bytes_of, be_decode, be_encode, be_max, be_value_of, lemma_be_value_of_bound};
use vstd::prelude::*;
use vstd::slice::{slice_index_get, slice_subrange};

verus! {

/// The audio sample encodings the metadata record can carry.
#[derive(Clone, Copy, Debug, PartialEq, Eq, Structural)]
pub enum AudioEncoding {
    PcmS16Le,
}

impl AudioEncoding {
    /// The registered 8-bit code of this encoding.
    pub open spec fn spec_code(self) -> u8 {
        match self {
            AudioEncoding::PcmS16Le => 1,
        }
    }

    /// The registered 8-bit code of this encoding.
    pub fn code(self) -> (r: u8)
        ensures
            r == self.spec_code(),
    {
        match self {
            AudioEncoding::PcmS16Le => 1,
        }
    }

    /// The encoding a code denotes.
    pub fn from_code(code: u8) -> (r: Result<AudioEncoding, WireError>)
        ensures
            match r {
                Ok(m) => m.spec_code() == code,
                Err(e) => e == WireError::InvalidMessageType(code) && code != 1,
            },
    {
        match code {
            1 => Ok(AudioEncoding::PcmS16Le),
            _ => Err(WireError::InvalidMessageType(code)),
        }
    }
}

/// The channel layouts the metadata record can carry.
#[derive(Clone, Copy, Debug, PartialEq, Eq, Structural)]
pub enum Channels {
    Mono,
    Stereo,
}

impl Channels {
    /// The registered 8-bit code of this layout.
    pub open spec fn spec_code(self) -> u8 {
        match self {
            Channels::Mono => 1,
            Channels::Stereo => 2,
        }
    }

    /// The registered 8-bit code of this layout.
    pub fn code(self) -> (r: u8)
        ensures
            r == self.spec_code(),
    {
        match self {
            Channels::Mono => 1,
            Channels::Stereo => 2,
        }
    }

    /// The layout a code denotes.
    pub fn from_code(code: u8) -> (r: Result<Channels, WireError>)
        ensures
            match r {
                Ok(m) => m.spec_code() == code,
                Err(e) => e == WireError::InvalidMessageType(code) && !(1 <= code <= 2),
            },
    {
        match code {
            1 => Ok(Channels::Mono),
            2 => Ok(Channels::Stereo),
            _ => Err(WireError::InvalidMessageType(code)),
        }
    }
}

/// The stream's audio parameters.
#[derive(Clone, Copy, Debug, PartialEq, Eq, Structural)]
pub struct AudioMetadata {
    pub encoding: AudioEncoding,
    pub channels: Channels,
    pub sample_rate: u32,
}

/// The wire form of a metadata record:
/// `[u8 encoding][u8 channels][u32 sample_rate]`.
pub open spec fn metadata_wire_bytes(m: AudioMetadata) -> Seq<u8> {
    seq![m.encoding.spec_code(), m.channels.spec_code()] + be_bytes_of(m.sample_rate as nat, 4)
}

/// The metadata record's full length on the wire.
pub const METADATA_LENGTH: usize = 6;

/// Encoder/decoder for audio metadata records.
#[derive(Clone, Copy, Default)]
pub struct AudioMetadataCodec {}

impl AudioMetadataCodec {
    /// Appends the record's wire form to `destination`.
    pub fn encode(&self, metadata: &AudioMetadata, destination: &mut bytes::BytesMut) -> (r: Result<
        (),
        WireError,
    >)
        ensures
            r is Ok,
            bm_seq(*final (destination)) == bm_seq(*old(destination)) + metadata_wire_bytes(
                *metadata,
            ),
    {
        let ghost b0 = bm_seq(*destination);
        let encoding_byte = be_encode(metadata.encoding.code() as u128, 1);
        bm_extend_from_slice(destination, encoding_byte.as_slice());
        let channels_byte = be_encode(metadata.channels.code() as u128, 1);
        bm_extend_from_slice(destination, channels_byte.as_slice());
        let rate_bytes = be_encode(metadata.sample_rate as u128, 4);
        bm_extend_from_slice(destination, rate_bytes.as_slice());
        proof {
            vstd::arithmetic::div_mod::lemma_small_mod(metadata.encoding.spec_code() as nat, 256);
            vstd::arithmetic::div_mod::lemma_small_mod(metadata.channels.spec_code() as nat, 256);
            assert(bm_seq(*destination) =~= b0 + metadata_wire_bytes(*metadata));
        }
        Ok(())
    }

    /// Decodes one record from `source`, which must hold exactly one:
    /// fewer bytes are not ready, more are oversized, and unknown codes
    /// are protocol errors (nothing is consumed in the error cases).
    pub fn decode(&self, source: &mut bytes::BytesMut) -> (r: Result<Option<AudioMetadata>, WireError>)
        ensures
            ({
                let b = bm_seq(*old(source));
                match r {
                    Ok(None) => b.len() < 6 && bm_seq(*final (source)) == b,
                    Ok(Some(m)) => b.len() == 6 && m.encoding.spec_code() == b[0]
                        && m.channels.spec_code() == b[1] && m.sample_rate as nat == be_value_of(
                        b.subrange(2, 6),
                    ) && bm_seq(*final (source)) == Seq::<u8>::empty(),
                    Err(e) => bm_seq(*final (source)) == b && (if b.len() > 6 {
                        e == WireError::Oversized("total_length", b.len() as usize, 6)
                    } else {
                        b.len() == 6 && (if b[0] != 1 {
                            e == WireError::InvalidMessageType(b[0])
                        } else {
                            !(1 <= b[1] <= 2) && e == WireError::InvalidMessageType(b[1])
                        })
                    }),
                }
            }),
    {
        let ghost b = bm_seq(*source);
        let source_slice = bm_as_slice(source);
        let source_length = source_slice.len();
        if source_length < METADATA_LENGTH {
            return Ok(None);
        }
        if source_length > METADATA_LENGTH {
            return Err(WireError::Oversized("total_length", source_length, METADATA_LENGTH));
        }
        let encoding_code = *slice_index_get(source_slice, 0);
        let channels_code = *slice_index_get(source_slice, 1);
        let rate_raw = be_decode(slice_subrange(source_slice, 2, 6));
        proof {
            lemma_be_value_of_bound(b.subrange(2, 6));
            reveal_with_fuel(be_max, 5);
        }
        let sample_rate = rate_raw as u32;
        let encoding = match AudioEncoding::from_code(encoding_code) {
            Ok(v) => v,
            Err(e) => {
                return Err(e);
            },
        };
        let channels = match Channels::from_code(channels_code) {
            Ok(v) => v,
            Err(e) => {
                return Err(e);
            },
        };
        bm_advance(source, METADATA_LENGTH);
        proof {
            assert(bm_seq(*source) =~= Seq::<u8>::empty());
        }
        Ok(Some(AudioMetadata { encoding, channels, sample_rate }))
    }
}

/// The audio payload's one on-wire field: a `u16` length prefix and up
/// to that many bytes.
pub const AUDIO_MAX_LENGTH: usize = 65535;

/// Encoder/decoder for opaque audio payloads.
#[derive(Clone, Copy, Default)]
pub struct AudioPayloadCodec {}

impl AudioPayloadCodec {
    /// Appends the length-prefixed payload to `destination`.
    pub fn encode(&self, audio_payload: &bytes::Bytes, destination: &mut bytes::BytesMut) -> (r:
        Result<(), WireError>)
        ensures
            match r {
                Ok(_) => bytes_seq(*audio_payload).len() <= 65535 && bm_seq(*final (destination))
                    == bm_seq(*old(destination)) + be_bytes_of(
                    bytes_seq(*audio_payload).len(),
                    2,
                ) + bytes_seq(*audio_payload),
                Err(e) => bm_seq(*final (destination)) == bm_seq(*old(destination)) && bytes_seq(
                    *audio_payload,
                ).len() > 65535 && e == WireError::Oversized(
                    "audio",
                    bytes_seq(*audio_payload).len() as usize,
                    65535,
                ),
            },
    {
        let payload_length = bytes_len(audio_payload);
        if payload_length > AUDIO_MAX_LENGTH {
            return Err(WireError::Oversized("audio", payload_length, AUDIO_MAX_LENGTH));
        }
        let prefix = be_encode(payload_length as u128, 2);
        bm_extend_from_slice(destination, prefix.as_slice());
        bm_extend_from_slice(destination, bytes_as_slice(audio_payload));
        Ok(())
    }

    /// Decodes one length-prefixed payload from the front of `source`
    /// if a whole one is there; consumes nothing otherwise.
    pub fn decode(&self, source: &mut bytes::BytesMut) -> (r: Result<Option<bytes::Bytes>, WireError>)
        ensures
            ({
                let b = bm_seq(*old(source));
                let pl = be_value_of(b.subrange(0, 2)) as int;
                match r {
                    Ok(None) => bm_seq(*final (source)) == b && (b.len() < 2 || b.len() < 2 + pl),
                    Ok(Some(payload)) => b.len() >= 2 && b.len() >= 2 + pl && bytes_seq(payload)
                        == b.subrange(2, 2 + pl) && bm_seq(*final (source)) == b.skip(2 + pl),
                    Err(_) => false,
                }
            }),
    {
        let ghost b = bm_seq(*source);
        let source_slice = bm_as_slice(source);
        let source_length = source_slice.len();
        if source_length < 2 {
            return Ok(None);
        }
        let prefix = slice_subrange(source_slice, 0, 2);
        let length_raw = be_decode(prefix);
        proof {
            lemma_be_value_of_bound(prefix@);
            reveal_with_fuel(be_max, 3);
        }
        let payload_length = length_raw as usize;
        let total_length = 2 + payload_length;
        if source_length < total_length {
            return Ok(None);
        }
        bm_advance(source, 2);
        let payload_part = bm_split_to(source, payload_length);
        let payload = bm_freeze(payload_part);
        proof {
            assert(bytes_seq(payload) =~= b.subrange(2, 2 + payload_length as int));
            assert(bm_seq(*source) =~= b.skip(2 + payload_length as int));
        }
        Ok(Some(payload))
    }
}

} // verus!
