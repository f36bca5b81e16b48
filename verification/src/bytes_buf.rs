//! The byte buffers of the `bytes` crate, as far as the framing uses them.

use vstd::prelude::*;

use bytes::{Buf, Bytes, BytesMut};

verus! {

#[verifier::external_type_specification]
#[verifier::external_body]
pub struct ExBytesMut(BytesMut);

#[verifier::external_type_specification]
#[verifier::external_body]
pub struct ExBytes(Bytes);

/// The bytes a `BytesMut` holds.
pub uninterp spec fn bytes_mut_contents(b: BytesMut) -> Seq<u8>;

/// The bytes a `Bytes` holds.
pub uninterp spec fn bytes_contents(b: Bytes) -> Seq<u8>;

/// `BytesMut::new`: an empty buffer.
#[verifier::external_body]
pub(crate) fn bytes_mut_new() -> (b: BytesMut)
    ensures
        bytes_mut_contents(b) == Seq::<u8>::empty(),
{
    BytesMut::new()
}

/// `BytesMut::from(&[u8])`: a buffer holding a copy of the slice.
#[verifier::external_body]
pub(crate) fn bytes_mut_from_slice(s: &[u8]) -> (b: BytesMut)
    ensures
        bytes_mut_contents(b) == s@,
{
    BytesMut::from(s)
}

/// The buffer's bytes, through `Deref`.
#[verifier::external_body]
pub(crate) fn bytes_mut_as_slice(b: &BytesMut) -> (s: &[u8])
    ensures
        s@ == bytes_mut_contents(*b),
{
    &b[..]
}

/// `BytesMut::extend_from_slice`: appends the slice.
#[verifier::external_body]
pub(crate) fn bytes_mut_extend(b: &mut BytesMut, s: &[u8])
    ensures
        bytes_mut_contents(*final(b)) == bytes_mut_contents(*old(b)) + s@,
{
    b.extend_from_slice(s)
}

/// `Buf::advance`: drops `n` bytes from the front. Panics past the end, so
/// that is left out.
#[verifier::external_body]
pub(crate) fn bytes_mut_advance(b: &mut BytesMut, n: usize)
    requires
        n <= bytes_mut_contents(*old(b)).len(),
    ensures
        bytes_mut_contents(*final(b)) == bytes_mut_contents(*old(b)).skip(n as int),
{
    b.advance(n)
}

/// `BytesMut::split_to`: takes the first `at` bytes out. Panics past the
/// end, so that is left out.
#[verifier::external_body]
pub(crate) fn bytes_mut_split_to(b: &mut BytesMut, at: usize) -> (front: BytesMut)
    requires
        at <= bytes_mut_contents(*old(b)).len(),
    ensures
        bytes_mut_contents(front) == bytes_mut_contents(*old(b)).take(at as int),
        bytes_mut_contents(*final(b)) == bytes_mut_contents(*old(b)).skip(at as int),
{
    b.split_to(at)
}

/// `BytesMut::freeze`: the same bytes, no longer mutable.
#[verifier::external_body]
pub(crate) fn bytes_mut_freeze(b: BytesMut) -> (f: Bytes)
    ensures
        bytes_contents(f) == bytes_mut_contents(b),
{
    b.freeze()
}

/// `BytesMut::capacity`. Nothing is claimed of it: it is what the allocator
/// gave.
#[verifier::external_body]
pub(crate) fn bytes_mut_capacity(b: &BytesMut) -> usize {
    b.capacity()
}

/// `BytesMut::clear`: drops every byte.
#[verifier::external_body]
pub(crate) fn bytes_mut_clear(b: &mut BytesMut)
    ensures
        bytes_mut_contents(*final(b)) == Seq::<u8>::empty(),
{
    b.clear()
}

/// `BytesMut::reserve`: room for more bytes; the bytes held stay.
#[verifier::external_body]
pub(crate) fn bytes_mut_reserve(b: &mut BytesMut, additional: usize)
    ensures
        bytes_mut_contents(*final(b)) == bytes_mut_contents(*old(b)),
{
    b.reserve(additional)
}

/// `Bytes::copy_from_slice`: a copy of the slice.
#[verifier::external_body]
pub(crate) fn bytes_copy_from_slice(s: &[u8]) -> (b: Bytes)
    ensures
        bytes_contents(b) == s@,
{
    Bytes::copy_from_slice(s)
}

/// `Bytes::from(Vec<u8>)`: the vector's bytes.
#[verifier::external_body]
pub(crate) fn bytes_from_vec(v: Vec<u8>) -> (b: Bytes)
    ensures
        bytes_contents(b) == v@,
{
    Bytes::from(v)
}

/// The bytes, through `Deref`.
#[verifier::external_body]
pub(crate) fn bytes_as_slice(b: &Bytes) -> (s: &[u8])
    ensures
        s@ == bytes_contents(*b),
{
    &b[..]
}

} // verus!
