//! Consuming reads from the front of a buffer: a wire integer, a fixed
//! block, or a length-prefixed block. Nothing is consumed until the
//! whole requested item is present; the prefix of a length-prefixed
//! block leaves only together with its payload.

use crate::bytebuf::{bm_advance, bm_as_slice, bm_freeze, bm_seq, bm_split_to};
use crate::bytestring::{ascii_hyphen_ok, first_disallowed_reported, WiredStringPolicyKind};
use crate::errors::{MalformedStringError, WireError};
use crate::wire::{be_decode, be_value_of, lemma_be_value_of_bound};
use vstd::prelude::*;
use vstd::slice::{slice_subrange, slice_to_vec};

verus! {

/// Reads and consumes one big-endian integer of `width` bytes, or
/// leaves a too-short buffer untouched.
pub fn take_single(source: &mut bytes::BytesMut, width: usize) -> (r: Option<u128>)
    requires
        1 <= width <= 16,
    ensures
        ({
            let b = bm_seq(*old(source));
            match r {
                Some(v) => b.len() >= width && v as nat == be_value_of(b.take(width as int))
                    && bm_seq(*final (source)) == b.skip(width as int),
                None => b.len() < width && bm_seq(*final (source)) == b,
            }
        }),
{
    let source_slice = bm_as_slice(source);
    if source_slice.len() < width {
        return None;
    }
    let value = be_decode(slice_subrange(source_slice, 0, width));
    bm_advance(source, width);
    Some(value)
}

/// Splits off exactly `length` bytes as an owned, reference-counted
/// slice, or leaves a too-short buffer untouched.
pub fn take_fixed_bytes(source: &mut bytes::BytesMut, length: usize) -> (r: Option<bytes::Bytes>)
    ensures
        ({
            let b = bm_seq(*old(source));
            match r {
                Some(chunk) => b.len() >= length && crate::bytebuf::bytes_seq(chunk) == b.take(
                    length as int,
                ) && bm_seq(*final (source)) == b.skip(length as int),
                None => b.len() < length && bm_seq(*final (source)) == b,
            }
        }),
{
    if bm_as_slice(source).len() < length {
        return None;
    }
    let chunk = bm_split_to(source, length);
    Some(bm_freeze(chunk))
}

/// Reads a `prefix_width`-byte length, checks it against `max_length`,
/// and consumes prefix and payload together once both are present.
/// A partial payload is not an error: nothing is consumed and `None`
/// comes back until the whole block arrives.
pub fn take_length_prefixed(
    source: &mut bytes::BytesMut,
    prefix_width: usize,
    max_length: usize,
    field_name: &'static str,
) -> (r: Result<Option<bytes::Bytes>, WireError>)
    requires
        1 <= prefix_width <= 16,
    ensures
        ({
            let b = bm_seq(*old(source));
            let plen = be_value_of(b.take(prefix_width as int)) as int;
            match r {
                Ok(None) => bm_seq(*final (source)) == b && (b.len() < prefix_width || (plen
                    <= max_length && b.len() < prefix_width + plen)),
                Ok(Some(payload)) => b.len() >= prefix_width && plen <= max_length && b.len()
                    >= prefix_width + plen && crate::bytebuf::bytes_seq(payload) == b.subrange(
                    prefix_width as int,
                    prefix_width + plen,
                ) && bm_seq(*final (source)) == b.skip(prefix_width + plen),
                Err(e) => bm_seq(*final (source)) == b && b.len() >= prefix_width && (if plen
                    > usize::MAX {
                    e == WireError::LengthOverflow(field_name, plen as u128)
                } else {
                    plen > max_length && e == WireError::Oversized(
                        field_name,
                        plen as usize,
                        max_length,
                    )
                }),
            }
        }),
{
    let source_slice = bm_as_slice(source);
    let source_length = source_slice.len();
    if source_length < prefix_width {
        return Ok(None);
    }
    let prefix = slice_subrange(source_slice, 0, prefix_width);
    let raw = be_decode(prefix);
    proof {
        lemma_be_value_of_bound(prefix@);
        assert(prefix@ =~= bm_seq(*source).take(prefix_width as int));
    }
    if raw > (usize::MAX as u128) {
        return Err(WireError::LengthOverflow(field_name, raw));
    }
    let payload_length = raw as usize;
    if payload_length > max_length {
        return Err(WireError::Oversized(field_name, payload_length, max_length));
    }
    if source_length - prefix_width < payload_length {
        return Ok(None);
    }
    bm_advance(source, prefix_width);
    let payload = bm_split_to(source, payload_length);
    proof {
        assert(bm_seq(payload) =~= bm_seq(*old(source)).subrange(
            prefix_width as int,
            prefix_width + payload_length as int,
        ));
    }
    Ok(Some(bm_freeze(payload)))
}

/// As `take_length_prefixed`, with the payload validated as a string
/// field under the given policy; a policy violation is a hard error,
/// reports the first offending byte, and consumes the block.
pub fn take_length_prefixed_string(
    source: &mut bytes::BytesMut,
    prefix_width: usize,
    max_length: usize,
    policy: WiredStringPolicyKind,
    field_name: &'static str,
) -> (r: Result<Option<Vec<u8>>, WireError>)
    requires
        1 <= prefix_width <= 16,
    ensures
        ({
            let b = bm_seq(*old(source));
            let plen = be_value_of(b.take(prefix_width as int)) as int;
            match r {
                Ok(None) => bm_seq(*final (source)) == b && (b.len() < prefix_width || (plen
                    <= max_length && b.len() < prefix_width + plen)),
                Ok(Some(payload)) => b.len() >= prefix_width && plen <= max_length && b.len()
                    >= prefix_width + plen && payload@ == b.subrange(
                    prefix_width as int,
                    prefix_width + plen,
                ) && (policy is Utf8 || ascii_hyphen_ok(payload@)) && bm_seq(*final (source))
                    == b.skip(prefix_width + plen),
                Err(e) => b.len() >= prefix_width && (if plen > usize::MAX {
                    bm_seq(*final (source)) == b && e == WireError::LengthOverflow(
                        field_name,
                        plen as u128,
                    )
                } else if plen > max_length {
                    bm_seq(*final (source)) == b && e == WireError::Oversized(
                        field_name,
                        plen as usize,
                        max_length,
                    )
                } else {
                    &&& b.len() >= prefix_width + plen
                    &&& policy is AsciiHyphen
                    &&& !ascii_hyphen_ok(b.subrange(prefix_width as int, prefix_width + plen))
                    &&& bm_seq(*final (source)) == b.skip(prefix_width + plen)
                    &&& e matches WireError::MalformedString(m)
                    &&& m.field == Some(field_name)
                    &&& first_disallowed_reported(
                        b.subrange(prefix_width as int, prefix_width + plen),
                        m,
                    )
                }),
            }
        }),
{
    let payload = match take_length_prefixed(source, prefix_width, max_length, field_name) {
        Err(e) => {
            return Err(e);
        },
        Ok(None) => {
            return Ok(None);
        },
        Ok(Some(payload)) => payload,
    };
    let payload_vec = slice_to_vec(crate::bytebuf::bytes_as_slice(&payload));
    match policy.validate(payload_vec.as_slice()) {
        Err(bad) => Err(
            WireError::MalformedString(
                MalformedStringError { field: Some(field_name), kind: bad.kind },
            ),
        ),
        Ok(_) => Ok(Some(payload_vec)),
    }
}

} // verus!
