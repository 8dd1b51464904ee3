//! Batch Header for Celeborn Shuffle Data
//!
//! Each batch of shuffle data is prefixed with a 16-byte header:
//!
//! ```text
//! +----------+----------+----------+----------------+
//! | mapId    | attemptId| batchId  | compressedSize |
//! | (4 bytes)| (4 bytes)| (4 bytes)| (4 bytes)      |
//! +----------+----------+----------+----------------+
//! ```
//!
//! The four integers are little-endian; some servers write them big-endian.

use vstd::prelude::*;
use vstd::slice::slice_subrange;

use crate::wire;

verus! {

broadcast use wire::lemma_be_len;

/// Batch header for Celeborn shuffle data.
///
/// Each batch pushed to or fetched from Celeborn workers starts with this header
/// to identify the source mapper and batch metadata.
#[derive(Debug, Clone, Copy, PartialEq, Eq, Structural)]
pub struct BatchHeader {
    /// Map task ID that produced this batch
    pub map_id: i32,
    /// Attempt ID of the map task
    pub attempt_id: i32,
    /// Batch ID within the map task (incremental)
    pub batch_id: i32,
    /// Size of the compressed data following this header
    pub compressed_size: i32,
}

/// The header in the first 16 bytes of `s`, little-endian.
pub open spec fn header_le(s: Seq<u8>) -> BatchHeader {
    BatchHeader {
        map_id: wire::signed32(wire::le_nat(s.subrange(0, 4))),
        attempt_id: wire::signed32(wire::le_nat(s.subrange(4, 8))),
        batch_id: wire::signed32(wire::le_nat(s.subrange(8, 12))),
        compressed_size: wire::signed32(wire::le_nat(s.subrange(12, 16))),
    }
}

/// The header in the first 16 bytes of `s`, big-endian.
pub open spec fn header_be(s: Seq<u8>) -> BatchHeader {
    BatchHeader {
        map_id: wire::signed32(wire::be_nat(s.subrange(0, 4))),
        attempt_id: wire::signed32(wire::be_nat(s.subrange(4, 8))),
        batch_id: wire::signed32(wire::be_nat(s.subrange(8, 12))),
        compressed_size: wire::signed32(wire::be_nat(s.subrange(12, 16))),
    }
}

/// The 16 bytes of a header, little-endian.
pub open spec fn wire_le(h: BatchHeader) -> Seq<u8> {
    wire::le_i32(h.map_id) + wire::le_i32(h.attempt_id) + wire::le_i32(h.batch_id) + wire::le_i32(
        h.compressed_size,
    )
}

/// The 16 bytes of a header, big-endian.
pub open spec fn wire_be(h: BatchHeader) -> Seq<u8> {
    wire::be_i32(h.map_id) + wire::be_i32(h.attempt_id) + wire::be_i32(h.batch_id) + wire::be_i32(
        h.compressed_size,
    )
}

impl BatchHeader {
    /// Size of the batch header in bytes
    pub const SIZE: usize = 16;

    /// Parse a batch header from a byte slice.
    ///
    /// Returns `None` if the slice is too short (less than 16 bytes).
    pub fn parse(data: &[u8]) -> (r: Option<Self>)
        ensures
            r == (if data@.len() < 16 {
                None
            } else {
                Some(header_le(data@))
            }),
    {
        if data.len() < Self::SIZE {
            return None;
        }
        Some(
            BatchHeader {
                map_id: wire::read_i32_le(data, 0),
                attempt_id: wire::read_i32_le(data, 4),
                batch_id: wire::read_i32_le(data, 8),
                compressed_size: wire::read_i32_le(data, 12),
            },
        )
    }

    /// Parse a batch header using big-endian byte order.
    ///
    /// Some Celeborn versions or configurations may use big-endian format.
    pub fn parse_be(data: &[u8]) -> (r: Option<Self>)
        ensures
            r == (if data@.len() < 16 {
                None
            } else {
                Some(header_be(data@))
            }),
    {
        if data.len() < Self::SIZE {
            return None;
        }
        Some(
            BatchHeader {
                map_id: wire::read_i32(data, 0),
                attempt_id: wire::read_i32(data, 4),
                batch_id: wire::read_i32(data, 8),
                compressed_size: wire::read_i32(data, 12),
            },
        )
    }

    /// Encode the batch header to bytes (little-endian).
    pub fn encode(&self) -> (r: [u8; 16])
        ensures
            r@ == wire_le(*self),
    {
        let a: [u8; 4] = wire::i32_le_bytes(self.map_id);
        let b: [u8; 4] = wire::i32_le_bytes(self.attempt_id);
        let c: [u8; 4] = wire::i32_le_bytes(self.batch_id);
        let d: [u8; 4] = wire::i32_le_bytes(self.compressed_size);
        let r: [u8; 16] = [
            a[0], a[1], a[2], a[3], b[0], b[1], b[2], b[3], c[0], c[1], c[2], c[3], d[0], d[1], d[2],
            d[3],
        ];
        assert(r@ =~= wire_le(*self));
        r
    }

    /// Encode the batch header to bytes (big-endian).
    pub fn encode_be(&self) -> (r: [u8; 16])
        ensures
            r@ == wire_be(*self),
    {
        let a: [u8; 4] = wire::i32_be_bytes(self.map_id);
        let b: [u8; 4] = wire::i32_be_bytes(self.attempt_id);
        let c: [u8; 4] = wire::i32_be_bytes(self.batch_id);
        let d: [u8; 4] = wire::i32_be_bytes(self.compressed_size);
        let r: [u8; 16] = [
            a[0], a[1], a[2], a[3], b[0], b[1], b[2], b[3], c[0], c[1], c[2], c[3], d[0], d[1], d[2],
            d[3],
        ];
        assert(r@ =~= wire_be(*self));
        r
    }

    /// Check if this batch should be kept based on attempt filtering.
    ///
    /// When multiple attempts of the same map task exist, only one attempt's data
    /// should be used.
    pub fn matches_attempt(&self, expected_attempt: i32) -> (r: bool)
        ensures
            r == (self.attempt_id == expected_attempt),
    {
        self.attempt_id == expected_attempt
    }
}

/// A header that was encoded little-endian is parsed back unchanged, whatever follows.
pub proof fn law_header_le_round_trip(h: BatchHeader, tail: Seq<u8>)
    ensures
        header_le(wire_le(h) + tail) == h,
        wire_le(h).len() == 16,
{
    let s = wire_le(h) + tail;
    wire::lemma_le_i32_round_trip(h.map_id);
    wire::lemma_le_i32_round_trip(h.attempt_id);
    wire::lemma_le_i32_round_trip(h.batch_id);
    wire::lemma_le_i32_round_trip(h.compressed_size);
    assert(s.subrange(0, 4) =~= wire::le_i32(h.map_id));
    assert(s.subrange(4, 8) =~= wire::le_i32(h.attempt_id));
    assert(s.subrange(8, 12) =~= wire::le_i32(h.batch_id));
    assert(s.subrange(12, 16) =~= wire::le_i32(h.compressed_size));
}

/// A header that was encoded big-endian is parsed back unchanged, whatever follows.
pub proof fn law_header_be_round_trip(h: BatchHeader, tail: Seq<u8>)
    ensures
        header_be(wire_be(h) + tail) == h,
        wire_be(h).len() == 16,
{
    let s = wire_be(h) + tail;
    wire::lemma_i32_round_trip(h.map_id);
    wire::lemma_i32_round_trip(h.attempt_id);
    wire::lemma_i32_round_trip(h.batch_id);
    wire::lemma_i32_round_trip(h.compressed_size);
    assert(s.subrange(0, 4) =~= wire::be_i32(h.map_id));
    assert(s.subrange(4, 8) =~= wire::be_i32(h.attempt_id));
    assert(s.subrange(8, 12) =~= wire::be_i32(h.batch_id));
    assert(s.subrange(12, 16) =~= wire::be_i32(h.compressed_size));
}

/// A batch: its header and its data.
pub struct Batch {
    pub header: BatchHeader,
    pub data: Seq<u8>,
}

/// The batch at the front of `s`. There is none when the header is cut off, when it
/// announces a negative size, or when the data is cut off.
pub open spec fn next_batch(s: Seq<u8>) -> Option<Batch> {
    if s.len() < 16 {
        None
    } else {
        let h = header_le(s);
        if h.compressed_size < 0 || s.len() < 16 + h.compressed_size {
            None
        } else {
            Some(Batch { header: h, data: s.subrange(16, 16 + h.compressed_size) })
        }
    }
}

/// The batches of `s`, front to back, up to the first place where none starts.
pub open spec fn batches(s: Seq<u8>) -> Seq<Batch>
    decreases s.len(),
{
    match next_batch(s) {
        None => Seq::<Batch>::empty(),
        Some(b) => seq![b] + batches(s.skip(16 + b.data.len() as int)),
    }
}

/// The bytes of a batch: its header, little-endian, then its data.
pub open spec fn batch_wire(b: Batch) -> Seq<u8> {
    wire_le(b.header) + b.data
}

/// The bytes of several batches, one after the other.
pub open spec fn batches_wire(bs: Seq<Batch>) -> Seq<u8>
    decreases bs.len(),
{
    if bs.len() == 0 {
        Seq::<u8>::empty()
    } else {
        batch_wire(bs[0]) + batches_wire(bs.drop_first())
    }
}

/// The bytes of two lists of batches stand one behind the other.
pub proof fn lemma_wire_joined(a: Seq<Batch>, b: Seq<Batch>)
    ensures
        batches_wire(a + b) == batches_wire(a) + batches_wire(b),
    decreases a.len(),
{
    if a.len() == 0 {
        assert(a + b =~= b);
        assert(batches_wire(a) + batches_wire(b) =~= batches_wire(b));
    } else {
        assert((a + b).drop_first() =~= a.drop_first() + b);
        lemma_wire_joined(a.drop_first(), b);
        assert(batches_wire(a + b) =~= batches_wire(a) + batches_wire(b));
    }
}

/// Whether the header of a batch announces the size of its data.
pub open spec fn sized_right(b: Batch) -> bool {
    b.header.compressed_size == b.data.len()
}

/// Batches that were written one after the other are read back one after the other,
/// and nothing else, when fewer than 16 bytes follow the last one.
pub proof fn law_batches_round_trip(bs: Seq<Batch>, tail: Seq<u8>)
    requires
        forall|i: int| 0 <= i < bs.len() ==> sized_right(#[trigger] bs[i]),
        tail.len() < 16,
    ensures
        batches(batches_wire(bs) + tail) == bs,
    decreases bs.len(),
{
    if bs.len() == 0 {
        assert(batches_wire(bs) + tail =~= tail);
        assert(batches(tail) =~= bs);
    } else {
        let b = bs[0];
        let rest = batches_wire(bs.drop_first()) + tail;
        let s = batches_wire(bs) + tail;
        assert(sized_right(b));
        law_header_le_round_trip(b.header, b.data + rest);
        assert(s =~= wire_le(b.header) + (b.data + rest));
        assert(s.subrange(16, 16 + b.data.len() as int) =~= b.data);
        assert(next_batch(s) == Some(b));
        assert(s.skip(16 + b.data.len() as int) =~= rest);
        assert forall|i: int| 0 <= i < bs.drop_first().len() implies sized_right(
            #[trigger] bs.drop_first()[i],
        ) by {
            assert(sized_right(bs[i + 1]));
        }
        law_batches_round_trip(bs.drop_first(), tail);
        assert(seq![b] + bs.drop_first() =~= bs);
    }
}

/// Walks over the batches in a Celeborn data stream.
pub struct BatchIterator<'a> {
    pub data: &'a [u8],
    pub position: usize,
}

impl<'a> BatchIterator<'a> {
    /// The position lies within the data.
    pub open spec fn wf(&self) -> bool {
        self.position <= self.data@.len()
    }

    /// The bytes that were not read yet.
    pub open spec fn rest(&self) -> Seq<u8> {
        self.data@.skip(self.position as int)
    }

    /// Create a new batch iterator over the given data.
    pub fn new(data: &'a [u8]) -> (r: Self)
        ensures
            r.wf(),
            r.data@ == data@,
            r.position == 0,
            r.rest() == data@,
    {
        assert(data@.skip(0) =~= data@);
        BatchIterator { data, position: 0 }
    }

    /// Get the current offset in the data.
    pub fn offset(&self) -> (r: usize)
        ensures
            r == self.position,
    {
        self.position
    }

    /// Get the remaining bytes in the data.
    pub fn remaining(&self) -> (r: usize)
        ensures
            r == (if self.data@.len() >= self.position {
                self.data@.len() - self.position
            } else {
                0
            }),
    {
        self.data.len().saturating_sub(self.position)
    }

    /// The next batch, or `None` where no complete batch starts.
    pub fn next(&mut self) -> (r: Option<(BatchHeader, &'a [u8])>)
        requires
            old(self).wf(),
        ensures
            final(self).wf(),
            final(self).data@ == old(self).data@,
            match next_batch(old(self).rest()) {
                None => r is None && final(self).position == old(self).position,
                Some(b) => r matches Some(p) && p.0 == b.header && p.1@ == b.data
                    && final(self).position == old(self).position + 16 + b.data.len(),
            },
    {
        let left: usize = self.data.len() - self.position;
        if left < BatchHeader::SIZE {
            return None;
        }
        let rest: &'a [u8] = slice_subrange(self.data, self.position, self.data.len());
        assert(rest@ =~= self.rest());
        let header: BatchHeader = match BatchHeader::parse(rest) {
            Some(h) => h,
            None => {
                return None;
            },
        };
        if header.compressed_size < 0 {
            return None;
        }
        let size: usize = header.compressed_size as usize;
        if size > left - BatchHeader::SIZE {
            return None;
        }
        let start: usize = self.position + BatchHeader::SIZE;
        let end: usize = start + size;
        let batch_data: &'a [u8] = slice_subrange(self.data, start, end);
        assert(batch_data@ =~= self.rest().subrange(16, 16 + size));
        self.position = end;
        Some((header, batch_data))
    }
}

/// Whether a batch is kept when `attempts[map_id]` is the attempt to keep of each mapper.
/// A batch of a mapper without an entry is always kept.
pub open spec fn attempt_accepted(h: BatchHeader, attempts: Seq<i32>) -> bool {
    0 <= h.map_id < attempts.len() ==> h.attempt_id == attempts[h.map_id as int]
}

/// The first kept batch of `s`, and the bytes behind it; where none is kept, the bytes
/// behind the last batch.
pub open spec fn next_kept(s: Seq<u8>, attempts: Seq<i32>) -> (Option<Batch>, Seq<u8>)
    decreases s.len(),
{
    match next_batch(s) {
        None => (None, s),
        Some(b) => {
            let rest = s.skip(16 + b.data.len() as int);
            if attempt_accepted(b.header, attempts) {
                (Some(b), rest)
            } else {
                next_kept(rest, attempts)
            }
        },
    }
}

/// Filter batches by attempt ID.
///
/// This is useful when reading shuffle data that may contain multiple
/// attempts of the same map task.
pub struct AttemptFilteredBatchIterator<'a> {
    pub inner: BatchIterator<'a>,
    /// Map from map_id to expected attempt_id
    pub attempts: &'a [i32],
}

impl<'a> AttemptFilteredBatchIterator<'a> {
    /// Create a new filtered batch iterator.
    ///
    /// `attempts[map_id]` is the expected attempt ID for that mapper.
    pub fn new(data: &'a [u8], attempts: &'a [i32]) -> (r: Self)
        ensures
            r.inner.wf(),
            r.inner.rest() == data@,
            r.attempts@ == attempts@,
    {
        AttemptFilteredBatchIterator { inner: BatchIterator::new(data), attempts }
    }

    /// The next batch that is kept, or `None` when there is no further one.
    pub fn next(&mut self) -> (r: Option<(BatchHeader, &'a [u8])>)
        requires
            old(self).inner.wf(),
        ensures
            final(self).inner.wf(),
            final(self).attempts@ == old(self).attempts@,
            final(self).inner.data@ == old(self).inner.data@,
            final(self).inner.rest() == next_kept(old(self).inner.rest(), old(self).attempts@).1,
            match next_kept(old(self).inner.rest(), old(self).attempts@).0 {
                None => r is None,
                Some(b) => r matches Some(p) && p.0 == b.header && p.1@ == b.data,
            },
    {
        loop
            invariant
                self.inner.wf(),
                self.attempts@ == old(self).attempts@,
                self.inner.data@ == old(self).inner.data@,
                next_kept(self.inner.rest(), self.attempts@) == next_kept(
                    old(self).inner.rest(),
                    old(self).attempts@,
                ),
            decreases self.inner.data@.len() - self.inner.position,
        {
            let ghost before = self.inner.rest();
            let (header, data): (BatchHeader, &'a [u8]) = match self.inner.next() {
                Some(p) => p,
                None => {
                    return None;
                },
            };
            assert(self.inner.rest() =~= before.skip(16 + data@.len() as int));
            if header.map_id >= 0 && (header.map_id as usize) < self.attempts.len() {
                if header.matches_attempt(self.attempts[header.map_id as usize]) {
                    return Some((header, data));
                }
            } else {
                return Some((header, data));
            }
        }
    }
}

/// The batches that a filtered walk gives, front to back.
pub open spec fn kept(s: Seq<u8>, attempts: Seq<i32>) -> Seq<Batch>
    decreases s.len(),
    via kept_decreases
{
    match next_kept(s, attempts) {
        (None, _) => Seq::<Batch>::empty(),
        (Some(b), rest) => seq![b] + kept(rest, attempts),
    }
}

#[via_fn]
proof fn kept_decreases(s: Seq<u8>, attempts: Seq<i32>) {
    lemma_next_kept_shrinks(s, attempts);
}

proof fn lemma_next_kept_shrinks(s: Seq<u8>, attempts: Seq<i32>)
    ensures
        next_kept(s, attempts).0 is Some ==> next_kept(s, attempts).1.len() < s.len(),
    decreases s.len(),
{
    match next_batch(s) {
        None => {},
        Some(b) => {
            if !attempt_accepted(b.header, attempts) {
                lemma_next_kept_shrinks(s.skip(16 + b.data.len() as int), attempts);
            }
        },
    }
}

/// A filtered walk gives the batches of a plain walk, in the same order, without those
/// of another attempt.
pub proof fn law_filtered_walk(s: Seq<u8>, attempts: Seq<i32>)
    ensures
        kept(s, attempts) == batches(s).filter(|b: Batch| attempt_accepted(b.header, attempts)),
    decreases s.len(),
{
    let p = |b: Batch| attempt_accepted(b.header, attempts);
    match next_batch(s) {
        None => {
            reveal(Seq::filter);
            assert(batches(s).filter(p) =~= Seq::<Batch>::empty());
        },
        Some(b) => {
            let rest = s.skip(16 + b.data.len() as int);
            law_filtered_walk(rest, attempts);
            Seq::filter_distributes_over_add(seq![b], batches(rest), p);
            reveal_with_fuel(Seq::filter, 2);
            assert(seq![b].drop_last() =~= Seq::<Batch>::empty());
            if p(b) {
                assert(seq![b].filter(p) =~= seq![b]);
            } else {
                assert(seq![b].filter(p) =~= Seq::<Batch>::empty());
                assert(next_kept(s, attempts) == next_kept(rest, attempts));
                assert(kept(s, attempts) == kept(rest, attempts));
                assert(batches(s).filter(p) =~= batches(rest).filter(p));
            }
        },
    }
}

} // verus!
