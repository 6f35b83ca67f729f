//! Growable and frozen byte buffers from the `bytes` crate, the scratch
//! space of every codec here. Verus sees them through the two content
//! views below and through small trusted wrappers, one per `bytes`
//! method; all decoding and encoding logic above them is verified.

use bytes::Buf;
use vstd::prelude::*;

verus! {

#[verifier::external_type_specification]
#[verifier::external_body]
pub struct ExBytesMut(bytes::BytesMut);

#[verifier::external_type_specification]
#[verifier::external_body]
pub struct ExBytes(bytes::Bytes);

/// The byte content of a `BytesMut`, oldest byte first.
pub uninterp spec fn bm_seq(b: bytes::BytesMut) -> Seq<u8>;

/// The byte content of a frozen `Bytes` slice.
pub uninterp spec fn bytes_seq(b: bytes::Bytes) -> Seq<u8>;

/// Relies on `BytesMut::len`: the number of bytes in the buffer.
#[verifier::external_body]
pub(crate) fn bm_len(b: &bytes::BytesMut) -> (r: usize)
    ensures
        r == bm_seq(*b).len(),
{
    b.len()
}

/// Relies on `BytesMut`'s deref to `[u8]`: the buffer's bytes as a slice.
#[verifier::external_body]
pub(crate) fn bm_as_slice(b: &bytes::BytesMut) -> (r: &[u8])
    ensures
        r@ == bm_seq(*b),
{
    b.as_ref()
}

/// Relies on `Buf::advance` for `BytesMut`: discards the first `n` bytes.
/// It panics past the end, which the precondition rules out.
#[verifier::external_body]
pub(crate) fn bm_advance(b: &mut bytes::BytesMut, n: usize)
    requires
        n <= bm_seq(*old(b)).len(),
    ensures
        bm_seq(*final (b)) == bm_seq(*old(b)).skip(n as int),
{
    b.advance(n)
}

/// Relies on `BytesMut::split_to`: removes and returns the first `at`
/// bytes without copying them. It panics past the end, which the
/// precondition rules out.
#[verifier::external_body]
pub(crate) fn bm_split_to(b: &mut bytes::BytesMut, at: usize) -> (r: bytes::BytesMut)
    requires
        at <= bm_seq(*old(b)).len(),
    ensures
        bm_seq(r) == bm_seq(*old(b)).take(at as int),
        bm_seq(*final (b)) == bm_seq(*old(b)).skip(at as int),
{
    b.split_to(at)
}

/// Relies on `BytesMut::split_off`: removes and returns the bytes from
/// `at` on without copying them. It panics past the end, which the
/// precondition rules out.
#[verifier::external_body]
pub(crate) fn bm_split_off(b: &mut bytes::BytesMut, at: usize) -> (r: bytes::BytesMut)
    requires
        at <= bm_seq(*old(b)).len(),
    ensures
        bm_seq(r) == bm_seq(*old(b)).skip(at as int),
        bm_seq(*final (b)) == bm_seq(*old(b)).take(at as int),
{
    b.split_off(at)
}

/// Relies on `BytesMut::freeze`: the same bytes as an immutable,
/// reference-counted slice.
#[verifier::external_body]
pub(crate) fn bm_freeze(b: bytes::BytesMut) -> (r: bytes::Bytes)
    ensures
        bytes_seq(r) == bm_seq(b),
{
    b.freeze()
}

/// Relies on `BytesMut::extend_from_slice`: appends a copy of `s`.
#[verifier::external_body]
pub(crate) fn bm_extend_from_slice(b: &mut bytes::BytesMut, s: &[u8])
    ensures
        bm_seq(*final (b)) == bm_seq(*old(b)) + s@,
{
    b.extend_from_slice(s)
}

/// Relies on `Bytes::new`: an empty slice.
#[verifier::external_body]
pub(crate) fn bytes_new() -> (r: bytes::Bytes)
    ensures
        bytes_seq(r) == Seq::<u8>::empty(),
{
    bytes::Bytes::new()
}

/// Relies on `Bytes::len`: the number of bytes in the slice.
#[verifier::external_body]
pub(crate) fn bytes_len(b: &bytes::Bytes) -> (r: usize)
    ensures
        r == bytes_seq(*b).len(),
{
    b.len()
}

/// Relies on `Bytes`'s deref to `[u8]`: the slice's bytes.
#[verifier::external_body]
pub(crate) fn bytes_as_slice(b: &bytes::Bytes) -> (r: &[u8])
    ensures
        r@ == bytes_seq(*b),
{
    b.as_ref()
}

} // verus!
