//! Appending writes to a buffer: a wire integer, a fixed block whose
//! length must match exactly, or a length-prefixed block. A rejected
//! write leaves the buffer untouched.

use crate::bytebuf::{bm_extend_from_slice, bm_seq, bytes_as_slice, bytes_len, bytes_seq};
use crate::bytestring::{ascii_hyphen_ok, first_disallowed_reported, WiredStringPolicyKind};
use crate::errors::{MalformedStringError, WireError};
use crate::wire::{be_bytes_of, be_encode, be_max};
use vstd::prelude::*;

verus! {

/// Appends the `width`-byte big-endian form of `value`.
pub fn put_single(destination: &mut bytes::BytesMut, width: usize, value: u128)
    requires
        width <= 16,
    ensures
        bm_seq(*final (destination)) == bm_seq(*old(destination)) + be_bytes_of(
            value as nat,
            width as nat,
        ),
{
    let encoded = be_encode(value, width);
    bm_extend_from_slice(destination, encoded.as_slice());
}

/// Appends a block that must be exactly `length` bytes long; a longer
/// block is `Oversized`, a shorter one `Underflow`.
pub fn put_fixed_bytes(
    destination: &mut bytes::BytesMut,
    payload: &bytes::Bytes,
    length: usize,
    field_name: &'static str,
) -> (r: Result<(), WireError>)
    ensures
        ({
            let p = bytes_seq(*payload);
            match r {
                Ok(_) => p.len() == length && bm_seq(*final (destination)) == bm_seq(
                    *old(destination),
                ) + p,
                Err(e) => bm_seq(*final (destination)) == bm_seq(*old(destination)) && (if p.len()
                    > length {
                    e == WireError::Oversized(field_name, p.len() as usize, length)
                } else {
                    p.len() < length && e == WireError::Underflow(
                        field_name,
                        p.len() as usize,
                        length,
                    )
                }),
            }
        }),
{
    let payload_length = bytes_len(payload);
    if payload_length > length {
        return Err(WireError::Oversized(field_name, payload_length, length));
    }
    if payload_length < length {
        return Err(WireError::Underflow(field_name, payload_length, length));
    }
    bm_extend_from_slice(destination, bytes_as_slice(payload));
    Ok(())
}

/// The largest length a `width`-byte prefix can announce, capped at
/// the host's `usize` (a buffer cannot hold more bytes than that).
pub open spec fn prefix_cap(width: nat) -> int {
    if be_max(width) - 1 <= usize::MAX {
        be_max(width) - 1
    } else {
        usize::MAX as int
    }
}

/// The largest length a `width`-byte prefix can carry on this host.
pub fn prefix_max(width: usize) -> (r: usize)
    requires
        1 <= width <= 16,
    ensures
        r == prefix_cap(width as nat),
{
    proof {
        reveal_with_fuel(crate::wire::be_max, 17);
    }
    if width == 16 {
        return usize::MAX;
    }
    let mut r: u128 = 1;
    let mut i: usize = 0;
    while i < width
        invariant
            i <= width <= 15,
            r == be_max(i as nat),
        decreases width - i,
    {
        proof {
            reveal_with_fuel(crate::wire::be_max, 17);
            crate::wire::lemma_be_max_increases((i + 1) as nat, 15);
        }
        r = r * 256;
        i = i + 1;
    }
    if r - 1 > (usize::MAX as u128) {
        usize::MAX
    } else {
        (r - 1) as usize
    }
}

/// Appends a `prefix_width`-byte big-endian length followed by the
/// block itself; a block longer than the field's configured maximum is
/// `Oversized`. The maximum must itself fit the prefix, as a sound
/// field declaration guarantees (`prefix_max` computes the bound).
pub fn put_length_prefixed(
    destination: &mut bytes::BytesMut,
    payload: &bytes::Bytes,
    prefix_width: usize,
    max_length: usize,
    field_name: &'static str,
) -> (r: Result<(), WireError>)
    requires
        1 <= prefix_width <= 16,
        max_length <= prefix_cap(prefix_width as nat),
    ensures
        ({
            let p = bytes_seq(*payload);
            match r {
                Ok(_) => p.len() <= max_length && bm_seq(*final (destination)) == bm_seq(
                    *old(destination),
                ) + be_bytes_of(p.len(), prefix_width as nat) + p,
                Err(e) => bm_seq(*final (destination)) == bm_seq(*old(destination)) && p.len()
                    > max_length && e == WireError::Oversized(
                    field_name,
                    p.len() as usize,
                    max_length,
                ),
            }
        }),
{
    let payload_length = bytes_len(payload);
    if payload_length > max_length {
        return Err(WireError::Oversized(field_name, payload_length, max_length));
    }
    proof {
        if be_max(prefix_width as nat) - 1 > usize::MAX {
            crate::wire::lemma_be_max_increases(prefix_width as nat, 16);
        }
    }
    let prefix = be_encode(payload_length as u128, prefix_width);
    bm_extend_from_slice(destination, prefix.as_slice());
    bm_extend_from_slice(destination, bytes_as_slice(payload));
    Ok(())
}

/// Validates the block as a string field under the policy, then appends
/// it length-prefixed. A policy violation reports the first offending
/// byte; an overlong block its configured maximum.
pub fn put_length_prefixed_string(
    destination: &mut bytes::BytesMut,
    payload: &bytes::Bytes,
    prefix_width: usize,
    max_length: usize,
    policy: WiredStringPolicyKind,
    field_name: &'static str,
) -> (r: Result<(), WireError>)
    requires
        1 <= prefix_width <= 16,
        max_length <= prefix_cap(prefix_width as nat),
    ensures
        ({
            let p = bytes_seq(*payload);
            match r {
                Ok(_) => (policy is Utf8 || ascii_hyphen_ok(p)) && p.len() <= max_length && bm_seq(
                    *final (destination),
                ) == bm_seq(*old(destination)) + be_bytes_of(p.len(), prefix_width as nat) + p,
                Err(e) => bm_seq(*final (destination)) == bm_seq(*old(destination)) && (if
                policy is AsciiHyphen && !ascii_hyphen_ok(p) {
                    &&& e matches WireError::MalformedString(m)
                    &&& m.field == Some(field_name)
                    &&& first_disallowed_reported(p, m)
                } else {
                    p.len() > max_length && e == WireError::Oversized(
                        field_name,
                        p.len() as usize,
                        max_length,
                    )
                }),
            }
        }),
{
    match policy.validate(bytes_as_slice(payload)) {
        Err(bad) => {
            return Err(
                WireError::MalformedString(
                    MalformedStringError { field: Some(field_name), kind: bad.kind },
                ),
            );
        },
        Ok(_) => {},
    }
    put_length_prefixed(destination, payload, prefix_width, max_length, field_name)
}

/// Appends the block after checking it against a caller-supplied cap.
pub fn append_bytes(
    destination: &mut bytes::BytesMut,
    payload: &bytes::Bytes,
    max_payload_length: usize,
    field_name: &'static str,
) -> (r: Result<(), WireError>)
    ensures
        ({
            let p = bytes_seq(*payload);
            match r {
                Ok(_) => p.len() <= max_payload_length && bm_seq(*final (destination)) == bm_seq(
                    *old(destination),
                ) + p,
                Err(e) => bm_seq(*final (destination)) == bm_seq(*old(destination)) && p.len()
                    > max_payload_length && e == WireError::Oversized(
                    field_name,
                    p.len() as usize,
                    max_payload_length,
                ),
            }
        }),
{
    let payload_length = bytes_len(payload);
    if payload_length > max_payload_length {
        return Err(WireError::Oversized(field_name, payload_length, max_payload_length));
    }
    bm_extend_from_slice(destination, bytes_as_slice(payload));
    Ok(())
}

} // verus!
