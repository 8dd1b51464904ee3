//! The byte buffers of the `bytes` crate.
//!
//! A `Bytes` or `BytesMut` is opaque; `octets` and `buffered` name the bytes that
//! one holds. Every function below forwards to one function of the crate and says
//! what that function does to those bytes.

use bytes::{Buf, BufMut, Bytes, BytesMut};
use vstd::prelude::*;

use crate::wire;

verus! {

/// `bytes::Bytes`, an immutable shared byte string.
#[verifier::external_type_specification]
#[verifier::external_body]
pub struct ExBytes(bytes::Bytes);

/// `bytes::BytesMut`, a growable byte buffer.
#[verifier::external_type_specification]
#[verifier::external_body]
pub struct ExBytesMut(bytes::BytesMut);

/// The bytes that a `Bytes` still holds.
pub uninterp spec fn octets(b: Bytes) -> Seq<u8>;

/// The bytes that a `BytesMut` holds.
pub uninterp spec fn buffered(b: BytesMut) -> Seq<u8>;

/// Whether `n` more bytes fit behind the `held` ones: an allocation never exceeds
/// `isize::MAX` bytes.
pub open spec fn has_room(held: Seq<u8>, n: int) -> bool {
    held.len() + n <= isize::MAX
}

/// `Bytes::new`: no bytes.
#[verifier::external_body]
pub(crate) fn bytes_new() -> (r: Bytes)
    ensures
        octets(r) == Seq::<u8>::empty(),
{
    Bytes::new()
}

/// `Bytes::from(Vec<u8>)`: the bytes of the vector.
#[verifier::external_body]
pub(crate) fn bytes_from_vec(v: Vec<u8>) -> (r: Bytes)
    ensures
        octets(r) == v@,
{
    Bytes::from(v)
}

/// `Bytes::clone`: the same bytes.
#[verifier::external_body]
pub(crate) fn bytes_clone(b: &Bytes) -> (r: Bytes)
    ensures
        octets(r) == octets(*b),
{
    b.clone()
}

/// `Bytes::len`: how many bytes are held.
#[verifier::external_body]
pub(crate) fn bytes_len(b: &Bytes) -> (n: usize)
    ensures
        n == octets(*b).len(),
        n <= isize::MAX,
{
    b.len()
}

/// `Bytes` dereferenced: the bytes as a slice.
#[verifier::external_body]
pub(crate) fn bytes_as_slice(b: &Bytes) -> (s: &[u8])
    ensures
        s@ == octets(*b),
{
    b
}

/// `Bytes::slice`: the bytes from `from` up to, not including, `to`.
#[verifier::external_body]
pub(crate) fn bytes_slice(b: &Bytes, from: usize, to: usize) -> (r: Bytes)
    requires
        from <= to <= octets(*b).len(),
    ensures
        octets(r) == octets(*b).subrange(from as int, to as int),
{
    b.slice(from..to)
}

/// `Buf::get_u8` on a `Bytes`: takes the first byte off.
#[verifier::external_body]
pub(crate) fn get_u8(b: &mut Bytes) -> (r: u8)
    requires
        octets(*old(b)).len() >= 1,
    ensures
        r == octets(*old(b))[0],
        octets(*final(b)) == octets(*old(b)).skip(1),
{
    b.get_u8()
}

/// `Buf::get_u16` on a `Bytes`: takes a big-endian integer of two bytes off.
#[verifier::external_body]
pub(crate) fn get_u16(b: &mut Bytes) -> (r: u16)
    requires
        octets(*old(b)).len() >= 2,
    ensures
        r == wire::u16_at(octets(*old(b))),
        octets(*final(b)) == octets(*old(b)).skip(2),
{
    b.get_u16()
}

/// `Buf::get_i32` on a `Bytes`: takes a big-endian integer of four bytes off.
#[verifier::external_body]
pub(crate) fn get_i32(b: &mut Bytes) -> (r: i32)
    requires
        octets(*old(b)).len() >= 4,
    ensures
        r == wire::i32_at(octets(*old(b))),
        octets(*final(b)) == octets(*old(b)).skip(4),
{
    b.get_i32()
}

/// `Buf::get_i32_le` on a `Bytes`: takes a little-endian integer of four bytes off.
#[verifier::external_body]
pub(crate) fn get_i32_le(b: &mut Bytes) -> (r: i32)
    requires
        octets(*old(b)).len() >= 4,
    ensures
        r == wire::le_i32_at(octets(*old(b))),
        octets(*final(b)) == octets(*old(b)).skip(4),
{
    b.get_i32_le()
}

/// `Buf::get_i64` on a `Bytes`: takes a big-endian integer of eight bytes off.
#[verifier::external_body]
pub(crate) fn get_i64(b: &mut Bytes) -> (r: i64)
    requires
        octets(*old(b)).len() >= 8,
    ensures
        r == wire::i64_at(octets(*old(b))),
        octets(*final(b)) == octets(*old(b)).skip(8),
{
    b.get_i64()
}

/// `Buf::copy_to_bytes` on a `Bytes`: takes the first `n` bytes off.
#[verifier::external_body]
pub(crate) fn copy_to_bytes(b: &mut Bytes, n: usize) -> (r: Bytes)
    requires
        n <= octets(*old(b)).len(),
    ensures
        octets(r) == octets(*old(b)).take(n as int),
        octets(*final(b)) == octets(*old(b)).skip(n as int),
{
    b.copy_to_bytes(n)
}

/// `BytesMut::with_capacity`: no bytes yet.
#[verifier::external_body]
pub(crate) fn buffer_with_capacity(n: usize) -> (r: BytesMut)
    requires
        n <= isize::MAX,
    ensures
        buffered(r) == Seq::<u8>::empty(),
{
    BytesMut::with_capacity(n)
}

/// `BytesMut::len`: how many bytes are held.
#[verifier::external_body]
pub(crate) fn buffer_len(b: &BytesMut) -> (n: usize)
    ensures
        n == buffered(*b).len(),
        n <= isize::MAX,
{
    b.len()
}

/// `BytesMut::reserve`: the bytes stay as they are.
#[verifier::external_body]
pub(crate) fn buffer_reserve(b: &mut BytesMut, additional: usize)
    requires
        has_room(buffered(*old(b)), additional as int),
    ensures
        buffered(*final(b)) == buffered(*old(b)),
{
    b.reserve(additional)
}

/// `BufMut::put_u8` on a `BytesMut`: appends one byte.
#[verifier::external_body]
pub(crate) fn put_u8(b: &mut BytesMut, v: u8)
    requires
        has_room(buffered(*old(b)), 1),
    ensures
        buffered(*final(b)) == buffered(*old(b)).push(v),
{
    b.put_u8(v)
}

/// `BufMut::put_u16` on a `BytesMut`: appends two bytes, big-endian.
#[verifier::external_body]
pub(crate) fn put_u16(b: &mut BytesMut, v: u16)
    requires
        has_room(buffered(*old(b)), 2),
    ensures
        buffered(*final(b)) == buffered(*old(b)) + wire::be(v as nat, 2),
{
    b.put_u16(v)
}

/// `BufMut::put_u32` on a `BytesMut`: appends four bytes, big-endian.
#[verifier::external_body]
pub(crate) fn put_u32(b: &mut BytesMut, v: u32)
    requires
        has_room(buffered(*old(b)), 4),
    ensures
        buffered(*final(b)) == buffered(*old(b)) + wire::be(v as nat, 4),
{
    b.put_u32(v)
}

/// `BufMut::put_u64` on a `BytesMut`: appends eight bytes, big-endian.
#[verifier::external_body]
pub(crate) fn put_u64(b: &mut BytesMut, v: u64)
    requires
        has_room(buffered(*old(b)), 8),
    ensures
        buffered(*final(b)) == buffered(*old(b)) + wire::be(v as nat, 8),
{
    b.put_u64(v)
}

/// `BufMut::put_i32` on a `BytesMut`: appends four bytes, big-endian.
#[verifier::external_body]
pub(crate) fn put_i32(b: &mut BytesMut, v: i32)
    requires
        has_room(buffered(*old(b)), 4),
    ensures
        buffered(*final(b)) == buffered(*old(b)) + wire::be_i32(v),
{
    b.put_i32(v)
}

/// `BufMut::put_i64` on a `BytesMut`: appends eight bytes, big-endian.
#[verifier::external_body]
pub(crate) fn put_i64(b: &mut BytesMut, v: i64)
    requires
        has_room(buffered(*old(b)), 8),
    ensures
        buffered(*final(b)) == buffered(*old(b)) + wire::be_i64(v),
{
    b.put_i64(v)
}

/// `BufMut::put_slice` on a `BytesMut`: appends the bytes of the slice.
#[verifier::external_body]
pub(crate) fn put_slice(b: &mut BytesMut, s: &[u8])
    requires
        has_room(buffered(*old(b)), s@.len() as int),
    ensures
        buffered(*final(b)) == buffered(*old(b)) + s@,
{
    b.put_slice(s)
}

/// `Buf::get_u8` on a `BytesMut`: takes the first byte off.
#[verifier::external_body]
pub(crate) fn buffer_get_u8(b: &mut BytesMut) -> (r: u8)
    requires
        buffered(*old(b)).len() >= 1,
    ensures
        r == buffered(*old(b))[0],
        buffered(*final(b)) == buffered(*old(b)).skip(1),
{
    b.get_u8()
}

/// `Buf::get_u32` on a `BytesMut`: takes a big-endian integer of four bytes off.
#[verifier::external_body]
pub(crate) fn buffer_get_u32(b: &mut BytesMut) -> (r: u32)
    requires
        buffered(*old(b)).len() >= 4,
    ensures
        r == wire::u32_at(buffered(*old(b))),
        buffered(*final(b)) == buffered(*old(b)).skip(4),
{
    b.get_u32()
}

/// `BytesMut::split_to`: takes the first `n` bytes off.
#[verifier::external_body]
pub(crate) fn buffer_split_to(b: &mut BytesMut, n: usize) -> (r: BytesMut)
    requires
        n <= buffered(*old(b)).len(),
    ensures
        buffered(r) == buffered(*old(b)).take(n as int),
        buffered(*final(b)) == buffered(*old(b)).skip(n as int),
{
    b.split_to(n)
}

/// `BytesMut::split`: takes all bytes off.
#[verifier::external_body]
pub(crate) fn buffer_split(b: &mut BytesMut) -> (r: BytesMut)
    ensures
        buffered(r) == buffered(*old(b)),
        buffered(*final(b)) == Seq::<u8>::empty(),
{
    b.split()
}

/// `BytesMut::freeze`: the same bytes, no longer growable.
#[verifier::external_body]
pub(crate) fn buffer_freeze(b: BytesMut) -> (r: Bytes)
    ensures
        octets(r) == buffered(b),
{
    b.freeze()
}

} // verus!
