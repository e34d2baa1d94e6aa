use bytes::{Bytes, BytesMut};
use vstd::prelude::*;

verus! {

#[verifier::external_type_specification]
#[verifier::external_body]
pub struct ExBytes(Bytes);

#[verifier::external_type_specification]
#[verifier::external_body]
pub struct ExBytesMut(BytesMut);

/// The bytes that a `Bytes` holds.
pub uninterp spec fn bytes_of(b: Bytes) -> Seq<u8>;

/// The bytes that a `BytesMut` holds.
pub uninterp spec fn buffered(b: BytesMut) -> Seq<u8>;

/// Relies on `BytesMut::with_capacity`: a new buffer holds no bytes.
#[verifier::external_body]
pub(crate) fn new_frame(capacity: usize) -> (r: BytesMut)
    ensures
        buffered(r) == Seq::<u8>::empty(),
{
    BytesMut::with_capacity(capacity)
}

/// Relies on `BytesMut::len`: the number of bytes held.
#[verifier::external_body]
pub(crate) fn frame_len(f: &BytesMut) -> (r: usize)
    ensures
        r == buffered(*f).len(),
{
    f.len()
}

/// Relies on `BytesMut::extend_from_slice`: appends the slice.
#[verifier::external_body]
pub(crate) fn frame_extend(f: &mut BytesMut, s: &[u8])
    ensures
        buffered(*final(f)) == buffered(*old(f)) + s@,
{
    f.extend_from_slice(s)
}

/// Relies on `BytesMut::freeze`: the same bytes, now shared and immutable.
#[verifier::external_body]
pub(crate) fn frame_freeze(f: BytesMut) -> (r: Bytes)
    ensures
        bytes_of(r) == buffered(f),
{
    f.freeze()
}

/// Relies on `Bytes::len`: the number of bytes held.
#[verifier::external_body]
pub(crate) fn chunk_len(b: &Bytes) -> (r: usize)
    ensures
        r == bytes_of(*b).len(),
{
    b.len()
}

/// Relies on `Bytes::new`: an empty `Bytes`.
#[verifier::external_body]
pub(crate) fn empty_chunk() -> (r: Bytes)
    ensures
        bytes_of(r) == Seq::<u8>::empty(),
{
    Bytes::new()
}

/// Relies on `Bytes::split_to`: the first `at` bytes come out, the rest stay.
#[verifier::external_body]
pub(crate) fn chunk_split_to(b: &mut Bytes, at: usize) -> (r: Bytes)
    requires
        at <= bytes_of(*old(b)).len(),
    ensures
        bytes_of(r) == bytes_of(*old(b)).subrange(0, at as int),
        bytes_of(*final(b)) == bytes_of(*old(b)).subrange(
            at as int,
            bytes_of(*old(b)).len() as int,
        ),
{
    b.split_to(at)
}

} // verus!
