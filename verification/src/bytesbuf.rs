//! Trusted boundary to `bytes::BytesMut`, the growable byte accumulator that
//! the framing layer keeps between reads. Each wrapper relies on one method
//! of the `bytes` crate; `bytes_view` names the bytes such a buffer holds.

use vstd::prelude::*;
use bytes::Buf;
use bytes::BytesMut;

verus! {

#[verifier::external_type_specification]
#[verifier::external_body]
pub struct ExBytesMut(BytesMut);

/// The bytes held by a `BytesMut`, in order.
pub uninterp spec fn bytes_view(b: BytesMut) -> Seq<u8>;

/// Relies on `BytesMut::new`: the new buffer is empty.
#[verifier::external_body]
pub fn bytes_mut_new() -> (r: BytesMut)
    ensures
        bytes_view(r) == Seq::<u8>::empty(),
{
    BytesMut::new()
}

/// Relies on `BytesMut::len`: the number of bytes the buffer holds.
#[verifier::external_body]
pub fn bytes_mut_len(b: &BytesMut) -> (r: usize)
    ensures
        r == bytes_view(*b).len(),
{
    b.len()
}

/// Relies on `BytesMut::capacity`: a buffer never holds more bytes than its
/// capacity.
#[verifier::external_body]
pub fn bytes_mut_capacity(b: &BytesMut) -> (r: usize)
    ensures
        r >= bytes_view(*b).len(),
{
    b.capacity()
}

/// Relies on `BytesMut::reserve`: it changes capacity only, never contents.
#[verifier::external_body]
pub fn bytes_mut_reserve(b: &mut BytesMut, additional: usize)
    ensures
        bytes_view(*final(b)) == bytes_view(*old(b)),
{
    b.reserve(additional);
}

/// Relies on `Buf::advance` for `BytesMut`: it discards the first `cnt`
/// bytes. It panics when `cnt` exceeds the length, so that case is excluded.
#[verifier::external_body]
pub fn bytes_mut_advance(b: &mut BytesMut, cnt: usize)
    requires
        cnt <= bytes_view(*old(b)).len(),
    ensures
        bytes_view(*final(b)) == bytes_view(*old(b)).skip(cnt as int),
{
    b.advance(cnt);
}

/// Relies on `BytesMut::split_to`: it removes and returns the first `at`
/// bytes. It panics when `at` exceeds the length, so that case is excluded.
#[verifier::external_body]
pub fn bytes_mut_split_to_vec(b: &mut BytesMut, at: usize) -> (r: Vec<u8>)
    requires
        at <= bytes_view(*old(b)).len(),
    ensures
        r@ == bytes_view(*old(b)).take(at as int),
        bytes_view(*final(b)) == bytes_view(*old(b)).skip(at as int),
{
    b.split_to(at).to_vec()
}

/// Relies on `BytesMut::extend_from_slice`: it appends the given bytes.
#[verifier::external_body]
pub fn bytes_mut_extend_from_slice(b: &mut BytesMut, src: &[u8])
    ensures
        bytes_view(*final(b)) == bytes_view(*old(b)) + src@,
{
    b.extend_from_slice(src);
}

/// Relies on the `Deref` impl of `BytesMut`: indexing reads the byte at the
/// given position. Out-of-range positions panic and are excluded.
#[verifier::external_body]
pub fn bytes_mut_get(b: &BytesMut, i: usize) -> (r: u8)
    requires
        i < bytes_view(*b).len(),
    ensures
        r == bytes_view(*b)[i as int],
{
    b[i]
}

} // verus!
