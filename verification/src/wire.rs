//! Fixed-width integers on the wire.
//!
//! A byte sequence is read as a number in base 256, most significant byte
//! first (`be_nat`) or last (`le_nat`); `be` and `le` write a number back with a
//! given width. Signed integers travel as their residue modulo a power of two.

use vstd::prelude::*;

verus! {

/// The number of values that `width` bytes can hold.
pub open spec fn limit(width: nat) -> nat
    decreases width,
{
    if width == 0 {
        1
    } else {
        256 * limit((width - 1) as nat)
    }
}

/// `n` in base 256 with `width` digits, the most significant digit first.
pub open spec fn be(n: nat, width: nat) -> Seq<u8>
    decreases width,
{
    if width == 0 {
        Seq::<u8>::empty()
    } else {
        be(n / 256, (width - 1) as nat).push((n % 256) as u8)
    }
}

/// `n` in base 256 with `width` digits, the least significant digit first.
pub open spec fn le(n: nat, width: nat) -> Seq<u8> {
    be(n, width).reverse()
}

/// The number that `s` writes in base 256, the most significant digit first.
pub open spec fn be_nat(s: Seq<u8>) -> nat
    decreases s.len(),
{
    if s.len() == 0 {
        0
    } else {
        be_nat(s.drop_last()) * 256 + s.last() as nat
    }
}

/// The number that `s` writes in base 256, the least significant digit first.
pub open spec fn le_nat(s: Seq<u8>) -> nat {
    be_nat(s.reverse())
}

/// The residue of `v` modulo 2^32.
pub open spec fn unsigned32(v: i32) -> nat {
    if v >= 0 {
        v as nat
    } else {
        (v + 0x1_0000_0000) as nat
    }
}

/// The residue of `v` modulo 2^64.
pub open spec fn unsigned64(v: i64) -> nat {
    if v >= 0 {
        v as nat
    } else {
        (v + 0x1_0000_0000_0000_0000) as nat
    }
}

/// The signed 32-bit integer that is congruent to `n` modulo 2^32.
pub open spec fn signed32(n: nat) -> i32 {
    let m = n % 0x1_0000_0000;
    if m < 0x8000_0000 {
        m as i32
    } else {
        (m - 0x1_0000_0000) as i32
    }
}

/// The signed 64-bit integer that is congruent to `n` modulo 2^64.
pub open spec fn signed64(n: nat) -> i64 {
    let m = n % 0x1_0000_0000_0000_0000;
    if m < 0x8000_0000_0000_0000 {
        m as i64
    } else {
        (m - 0x1_0000_0000_0000_0000) as i64
    }
}

pub open spec fn be_i32(v: i32) -> Seq<u8> {
    be(unsigned32(v), 4)
}

pub open spec fn be_i64(v: i64) -> Seq<u8> {
    be(unsigned64(v), 8)
}

pub open spec fn le_i32(v: i32) -> Seq<u8> {
    le(unsigned32(v), 4)
}

/// The signed integer in the first four bytes of `s`, big-endian.
pub open spec fn i32_at(s: Seq<u8>) -> i32 {
    signed32(be_nat(s.take(4)))
}

/// The signed integer in the first eight bytes of `s`, big-endian.
pub open spec fn i64_at(s: Seq<u8>) -> i64 {
    signed64(be_nat(s.take(8)))
}

/// The unsigned integer in the first two bytes of `s`, big-endian.
pub open spec fn u16_at(s: Seq<u8>) -> nat {
    be_nat(s.take(2))
}

/// The unsigned integer in the first four bytes of `s`, big-endian.
pub open spec fn u32_at(s: Seq<u8>) -> nat {
    be_nat(s.take(4))
}

/// The signed integer in the first four bytes of `s`, little-endian.
pub open spec fn le_i32_at(s: Seq<u8>) -> i32 {
    signed32(le_nat(s.take(4)))
}

/// A number of `width` digits is written with exactly `width` bytes.
pub broadcast proof fn lemma_be_len(n: nat, width: nat)
    ensures
        #[trigger] be(n, width).len() == width,
    decreases width,
{
    if width > 0 {
        lemma_be_len(n / 256, (width - 1) as nat);
    }
}

pub proof fn lemma_limits()
    ensures
        limit(1) == 0x100,
        limit(2) == 0x1_0000,
        limit(4) == 0x1_0000_0000,
        limit(8) == 0x1_0000_0000_0000_0000,
{
    reveal_with_fuel(limit, 9);
}

/// Reading back the digits of a number gives the number, as long as the width holds it.
pub proof fn lemma_be_round_trip(n: nat, width: nat)
    requires
        n < limit(width),
    ensures
        be_nat(be(n, width)) == n,
        be(n, width).len() == width,
    decreases width,
{
    lemma_be_len(n, width);
    if width > 0 {
        let w1 = (width - 1) as nat;
        assert(n / 256 < limit(w1)) by (nonlinear_arith)
            requires
                n < 256 * limit(w1),
        ;
        lemma_be_round_trip(n / 256, w1);
        assert(be(n, width).drop_last() =~= be(n / 256, w1));
    }
}

/// `width` bytes never write a number of `limit(width)` or more.
pub proof fn lemma_be_nat_bound(s: Seq<u8>)
    ensures
        be_nat(s) < limit(s.len()),
    decreases s.len(),
{
    if s.len() > 0 {
        lemma_be_nat_bound(s.drop_last());
        let h = be_nat(s.drop_last());
        let l = limit((s.len() - 1) as nat);
        assert(h * 256 + 255 < 256 * l) by (nonlinear_arith)
            requires
                h < l,
        ;
    }
}

/// Writing the number that a byte sequence stands for gives the sequence back.
pub proof fn lemma_be_of_nat(s: Seq<u8>)
    ensures
        be(be_nat(s), s.len()) == s,
    decreases s.len(),
{
    if s.len() > 0 {
        lemma_be_of_nat(s.drop_last());
        let h = be_nat(s.drop_last());
        let n = be_nat(s);
        assert(n / 256 == h && n % 256 == s.last()) by (nonlinear_arith)
            requires
                n == h * 256 + s.last() as nat,
                0 <= s.last() < 256,
        ;
        assert(be(n, s.len()) =~= s);
    } else {
        assert(be(be_nat(s), s.len()) =~= s);
    }
}

/// A signed 32-bit integer survives big-endian encoding.
pub proof fn lemma_i32_round_trip(v: i32)
    ensures
        be_i32(v).len() == 4,
        signed32(be_nat(be_i32(v))) == v,
{
    lemma_limits();
    lemma_be_round_trip(unsigned32(v), 4);
}

/// A signed 64-bit integer survives big-endian encoding.
pub proof fn lemma_i64_round_trip(v: i64)
    ensures
        be_i64(v).len() == 8,
        signed64(be_nat(be_i64(v))) == v,
{
    lemma_limits();
    lemma_be_round_trip(unsigned64(v), 8);
}

/// A signed 32-bit integer survives little-endian encoding.
pub proof fn lemma_le_i32_round_trip(v: i32)
    ensures
        le_i32(v).len() == 4,
        signed32(le_nat(le_i32(v))) == v,
{
    lemma_limits();
    lemma_be_round_trip(unsigned32(v), 4);
    assert(be_i32(v).reverse().reverse() =~= be_i32(v));
}

/// Four bytes that start with the encoding of `v` read as `v`.
pub proof fn lemma_i32_at(v: i32, tail: Seq<u8>)
    ensures
        i32_at(be_i32(v) + tail) == v,
        (be_i32(v) + tail).skip(4) == tail,
        be_i32(v).len() == 4,
{
    lemma_i32_round_trip(v);
    assert((be_i32(v) + tail).take(4) =~= be_i32(v));
    assert((be_i32(v) + tail).skip(4) =~= tail);
}

/// Eight bytes that start with the encoding of `v` read as `v`.
pub proof fn lemma_i64_at(v: i64, tail: Seq<u8>)
    ensures
        i64_at(be_i64(v) + tail) == v,
        (be_i64(v) + tail).skip(8) == tail,
        be_i64(v).len() == 8,
{
    lemma_i64_round_trip(v);
    assert((be_i64(v) + tail).take(8) =~= be_i64(v));
    assert((be_i64(v) + tail).skip(8) =~= tail);
}

/// The two digits of a number of two bytes.
pub proof fn lemma_be_nat_2(s: Seq<u8>)
    requires
        s.len() == 2,
    ensures
        be_nat(s) == s[0] * 256 + s[1],
{
    reveal_with_fuel(be_nat, 3);
    assert(s.drop_last().drop_last() =~= Seq::<u8>::empty());
}

/// The four digits of a number of four bytes.
pub proof fn lemma_be_nat_4(s: Seq<u8>)
    requires
        s.len() == 4,
    ensures
        be_nat(s) == s[0] * 0x100_0000 + s[1] * 0x1_0000 + s[2] * 0x100 + s[3],
{
    lemma_be_nat_2(s.take(2));
    assert(s.drop_last().drop_last() =~= s.take(2));
    assert(be_nat(s) == be_nat(s.drop_last()) * 256 + s[3]);
    assert(be_nat(s.drop_last()) == be_nat(s.take(2)) * 256 + s[2]);
}

/// A number of eight bytes is made of two numbers of four bytes.
pub proof fn lemma_be_nat_8(s: Seq<u8>)
    requires
        s.len() == 8,
    ensures
        be_nat(s) == be_nat(s.take(4)) * 0x1_0000_0000 + be_nat(s.skip(4)),
{
    let t = s.skip(4);
    lemma_be_nat_4(t);
    let d1 = s.drop_last();
    let d2 = d1.drop_last();
    let d3 = d2.drop_last();
    assert(d3.drop_last() =~= s.take(4));
    assert(be_nat(s) == be_nat(d1) * 256 + s[7]);
    assert(be_nat(d1) == be_nat(d2) * 256 + s[6]);
    assert(be_nat(d2) == be_nat(d3) * 256 + s[5]);
    assert(be_nat(d3) == be_nat(s.take(4)) * 256 + s[4]);
}

/// The two digits of a number below 2^16.
pub proof fn lemma_be_2(n: nat)
    requires
        n < 0x1_0000,
    ensures
        be(n, 2) == seq![(n / 256) as u8, (n % 256) as u8],
{
    reveal_with_fuel(be, 3);
    assert(n / 256 % 256 == n / 256);
    assert(be(n, 2) =~= seq![(n / 256) as u8, (n % 256) as u8]);
}

/// The four digits of a number below 2^32.
pub proof fn lemma_be_4(n: nat)
    requires
        n < 0x1_0000_0000,
    ensures
        be(n, 4) == seq![
            (n / 0x100_0000) as u8,
            (n / 0x1_0000 % 256) as u8,
            (n / 0x100 % 256) as u8,
            (n % 256) as u8,
        ],
{
    reveal_with_fuel(be, 5);
    assert(n / 256 / 256 == n / 0x1_0000);
    assert(n / 256 / 256 / 256 == n / 0x100_0000);
    assert(n / 0x100_0000 % 256 == n / 0x100_0000);
    assert(be(n, 4) =~= seq![
        (n / 0x100_0000) as u8,
        (n / 0x1_0000 % 256) as u8,
        (n / 0x100 % 256) as u8,
        (n % 256) as u8,
    ]);
}

/// Reads two bytes at `at`, big-endian.
pub fn read_u16(data: &[u8], at: usize) -> (r: u16)
    requires
        at + 2 <= data@.len(),
    ensures
        r == be_nat(data@.subrange(at as int, at + 2)),
{
    proof {
        lemma_be_nat_2(data@.subrange(at as int, at + 2));
    }
    data[at] as u16 * 256 + data[at + 1] as u16
}

/// Reads four bytes at `at`, big-endian, as an unsigned integer.
pub fn read_u32(data: &[u8], at: usize) -> (r: u32)
    requires
        at + 4 <= data@.len(),
    ensures
        r == be_nat(data@.subrange(at as int, at + 4)),
{
    proof {
        lemma_be_nat_4(data@.subrange(at as int, at + 4));
    }
    data[at] as u32 * 0x100_0000 + data[at + 1] as u32 * 0x1_0000 + data[at + 2] as u32 * 0x100
        + data[at + 3] as u32
}

/// Reads four bytes at `at`, little-endian, as an unsigned integer.
pub fn read_u32_le(data: &[u8], at: usize) -> (r: u32)
    requires
        at + 4 <= data@.len(),
    ensures
        r == le_nat(data@.subrange(at as int, at + 4)),
{
    proof {
        lemma_be_nat_4(data@.subrange(at as int, at + 4).reverse());
    }
    assert(at + 4 <= data.len());
    data[at + 3] as u32 * 0x100_0000 + data[at + 2] as u32 * 0x1_0000 + data[at + 1] as u32 * 0x100
        + data[at] as u32
}

/// The signed integer with the same residue modulo 2^32 as `u`.
pub fn to_signed32(u: u32) -> (r: i32)
    ensures
        r == signed32(u as nat),
{
    if u < 0x8000_0000 {
        u as i32
    } else {
        (u as i64 - 0x1_0000_0000) as i32
    }
}

/// The signed number with the same 64 bits.
pub fn to_signed64(u: u64) -> (r: i64)
    ensures
        r == signed64(u as nat),
        u <= i64::MAX ==> r == u,
{
    if u < 0x8000_0000_0000_0000 {
        u as i64
    } else {
        (u as i128 - 0x1_0000_0000_0000_0000) as i64
    }
}

/// The residue of `v` modulo 2^32.
pub fn to_unsigned32(v: i32) -> (r: u32)
    ensures
        r == unsigned32(v),
{
    if v >= 0 {
        v as u32
    } else {
        (v as i64 + 0x1_0000_0000) as u32
    }
}

/// Reads four bytes at `at`, big-endian, as a signed integer.
pub fn read_i32(data: &[u8], at: usize) -> (r: i32)
    requires
        at + 4 <= data@.len(),
    ensures
        r == signed32(be_nat(data@.subrange(at as int, at + 4))),
{
    to_signed32(read_u32(data, at))
}

/// Reads four bytes at `at`, little-endian, as a signed integer.
pub fn read_i32_le(data: &[u8], at: usize) -> (r: i32)
    requires
        at + 4 <= data@.len(),
    ensures
        r == signed32(le_nat(data@.subrange(at as int, at + 4))),
{
    to_signed32(read_u32_le(data, at))
}

/// Reads eight bytes at `at`, big-endian, as a signed integer.
pub fn read_i64(data: &[u8], at: usize) -> (r: i64)
    requires
        at + 8 <= data@.len(),
    ensures
        r == signed64(be_nat(data@.subrange(at as int, at + 8))),
{
    assert(at + 8 <= data.len());
    let hi: u64 = read_u32(data, at) as u64;
    let lo: u64 = read_u32(data, at + 4) as u64;
    proof {
        let s = data@.subrange(at as int, at + 8);
        lemma_be_nat_8(s);
        assert(s.take(4) =~= data@.subrange(at as int, at + 4));
        assert(s.skip(4) =~= data@.subrange(at + 4, at + 8));
    }
    to_signed64(hi * 0x1_0000_0000 + lo)
}

/// Appends `v`, big-endian.
pub fn push_i32(out: &mut Vec<u8>, v: i32)
    ensures
        final(out)@ == old(out)@ + be_i32(v),
{
    let n: u32 = to_unsigned32(v);
    proof {
        lemma_be_4(n as nat);
    }
    out.push((n / 0x100_0000) as u8);
    out.push((n / 0x1_0000 % 256) as u8);
    out.push((n / 0x100 % 256) as u8);
    out.push((n % 256) as u8);
    assert(out@ =~= old(out)@ + be_i32(v));
}

/// The four bytes of `v`, big-endian.
pub fn i32_be_bytes(v: i32) -> (r: [u8; 4])
    ensures
        r@ == be_i32(v),
{
    let n: u32 = to_unsigned32(v);
    proof {
        lemma_be_4(n as nat);
    }
    let r: [u8; 4] = [
        (n / 0x100_0000) as u8,
        (n / 0x1_0000 % 256) as u8,
        (n / 0x100 % 256) as u8,
        (n % 256) as u8,
    ];
    assert(r@ =~= be_i32(v));
    r
}

/// The four bytes of `v`, little-endian.
pub fn i32_le_bytes(v: i32) -> (r: [u8; 4])
    ensures
        r@ == le_i32(v),
{
    let n: u32 = to_unsigned32(v);
    proof {
        lemma_be_4(n as nat);
    }
    let r: [u8; 4] = [
        (n % 256) as u8,
        (n / 0x100 % 256) as u8,
        (n / 0x1_0000 % 256) as u8,
        (n / 0x100_0000) as u8,
    ];
    assert(r@ =~= le_i32(v));
    r
}

/// The length field that goes on the wire for `n` bytes: `n` modulo 2^32, read as signed.
pub fn wire_len(n: usize) -> (r: i32)
    ensures
        r == signed32(n as nat),
        n <= i32::MAX ==> r == n,
{
    let m: u64 = (n as u64) % 0x1_0000_0000;
    if m < 0x8000_0000 {
        m as i32
    } else {
        (m as i64 - 0x1_0000_0000) as i32
    }
}

} // verus!
