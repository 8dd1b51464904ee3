//! What a stream hands out of a chunk as a whole.

use vstd::prelude::*;

use crate::buffers;
use crate::client::compression;
use crate::client::input_stream;
use crate::client::input_stream::{CelebornInputStream, MAX_BATCH_SIZE, MAX_LOOP_ITERATIONS};
use crate::client::stream_fill;
use crate::client::stream_fill::{FillAction, FillJob, ScanEnd};
use crate::config::CompressionCodec;
use crate::protocol::batch_header;
use crate::protocol::batch_header::Batch;

verus! {

/// The number by which a batch is known once it was handed out.
pub open spec fn number_of(b: Batch) -> u64 {
    input_stream::batch_key(b.header.map_id, b.header.batch_id)
}

/// Whether a batch carries data that was pushed, compressed.
pub open spec fn carries(b: Batch, codec: CompressionCodec, data: Seq<u8>) -> bool {
    &&& batch_header::sized_right(b)
    &&& b.data.len() <= MAX_BATCH_SIZE
    &&& compression::restorable(codec, data.len())
    &&& compression::packs(codec, data, b.data)
}

impl CelebornInputStream {
    /// The batches that a stream hands out of a chunk, one search after the other.
    pub open spec fn chunk_reads(&self, chunk: Seq<u8>, seen: Set<u64>) -> Seq<Batch>
        decreases chunk.len(),
    {
        proof {
            self.lemma_scan_shrinks(chunk, seen, 0);
        }
        let s = self.scan(chunk, seen, 0);
        match s.end {
            ScanEnd::Found(header, data) => {
                let b = Batch { header, data };
                seq![b] + self.chunk_reads(s.rest, seen.insert(number_of(b)))
            },
            _ => Seq::empty(),
        }
    }

    /// The batches of a list that are to be handed out: those of the right attempts, that did
    /// not fail to be pushed, each once.
    pub open spec fn wanted(&self, bs: Seq<Batch>, seen: Set<u64>) -> Seq<Batch>
        decreases bs.len(),
    {
        if bs.len() == 0 {
            Seq::empty()
        } else if self.takes(bs[0].header, seen) {
            seq![bs[0]] + self.wanted(bs.drop_first(), seen.insert(number_of(bs[0])))
        } else {
            self.wanted(bs.drop_first(), seen)
        }
    }

    /// The data of batches, unpacked, one after the other.
    pub open spec fn content_of(&self, bs: Seq<Batch>) -> Seq<u8>
        decreases bs.len(),
    {
        if bs.len() == 0 {
            Seq::empty()
        } else {
            self.batch_content(bs[0].data)->Ok_0 + self.content_of(bs.drop_first())
        }
    }

    /// The data that the current chunk still has for the stream.
    pub open spec fn left_in_chunk(&self) -> Seq<u8> {
        match self.state.current_chunk {
            Some(c) => self.content_of(
                self.chunk_reads(buffers::octets(c), self.state.batches_read@),
            ),
            None => Seq::empty(),
        }
    }

    /// A search that finds a batch leaves less of the chunk.
    pub proof fn lemma_scan_shrinks(&self, chunk: Seq<u8>, seen: Set<u64>, iterations: int)
        ensures
            self.scan(chunk, seen, iterations).end is Found ==> self.scan(
                chunk,
                seen,
                iterations,
            ).rest.len() < chunk.len(),
        decreases chunk.len(),
    {
        if chunk.len() >= 16 {
            let h = batch_header::header_le(chunk);
            let t = chunk.skip(16);
            if !stream_fill::bad_size(h) && t.len() >= h.compressed_size && !self.takes(h, seen) {
                self.lemma_scan_shrinks(t.skip(h.compressed_size as int), seen, iterations + 1);
            }
        }
    }

    /// A search finds the next wanted batch of the chunk, and leaves those behind it.
    proof fn lemma_scan_finds_wanted(&self, chunk: Seq<u8>, seen: Set<u64>, iterations: int)
        requires
            iterations + stream_fill::chunk_batches(chunk).len() < MAX_LOOP_ITERATIONS,
        ensures
            ({
                let s = self.scan(chunk, seen, iterations);
                let all = stream_fill::chunk_batches(chunk);
                match s.end {
                    ScanEnd::Found(header, data) => {
                        let b = Batch { header, data };
                        &&& self.wanted(all, seen) == seq![b] + self.wanted(
                            stream_fill::chunk_batches(s.rest),
                            seen.insert(number_of(b)),
                        )
                        &&& stream_fill::chunk_batches(s.rest).len() < all.len()
                    },
                    _ => self.wanted(all, seen) == Seq::<Batch>::empty(),
                }
            }),
        decreases chunk.len(),
    {
        if chunk.len() >= 16 {
            let h = batch_header::header_le(chunk);
            let t = chunk.skip(16);
            if !stream_fill::bad_size(h) && t.len() >= h.compressed_size {
                let u = t.skip(h.compressed_size as int);
                let all = stream_fill::chunk_batches(chunk);
                let later = stream_fill::chunk_batches(u);
                assert(all.drop_first() =~= later);
                if !self.takes(h, seen) {
                    self.lemma_scan_finds_wanted(u, seen, iterations + 1);
                }
            }
        }
    }

    /// What is handed out of a chunk does not depend on how far the stream is.
    proof fn lemma_same_reads(
        &self,
        other: &CelebornInputStream,
        chunk: Seq<u8>,
        seen: Set<u64>,
    )
        requires
            other.same_place(self),
        ensures
            self.chunk_reads(chunk, seen) == other.chunk_reads(chunk, seen),
        decreases chunk.len(),
    {
        self.lemma_same_scan(other, chunk, seen, 0);
        self.lemma_scan_shrinks(chunk, seen, 0);
        let s = self.scan(chunk, seen, 0);
        if let ScanEnd::Found(header, data) = s.end {
            let b = Batch { header, data };
            self.lemma_same_reads(other, s.rest, seen.insert(number_of(b)));
        }
    }

    proof fn lemma_same_scan(
        &self,
        other: &CelebornInputStream,
        chunk: Seq<u8>,
        seen: Set<u64>,
        iterations: int,
    )
        requires
            other.same_place(self),
        ensures
            self.scan(chunk, seen, iterations) == other.scan(chunk, seen, iterations),
        decreases chunk.len(),
    {
        if chunk.len() >= 16 {
            let h = batch_header::header_le(chunk);
            let t = chunk.skip(16);
            assert(self.takes(h, seen) == other.takes(h, seen));
            if !stream_fill::bad_size(h) && t.len() >= h.compressed_size && !self.takes(h, seen) {
                self.lemma_same_scan(other, t.skip(h.compressed_size as int), seen, iterations + 1);
            }
        }
    }

    proof fn lemma_same_content(&self, other: &CelebornInputStream, bs: Seq<Batch>)
        requires
            other.same_place(self),
        ensures
            self.content_of(bs) == other.content_of(bs),
        decreases bs.len(),
    {
        if bs.len() > 0 {
            self.lemma_same_content(other, bs.drop_first());
        }
    }
}

/// Reading a chunk to its end hands out every batch of it that belongs to the right attempt
/// and did not fail to be pushed, in their order, each once, and no other batch.
pub proof fn law_chunk_is_read_in_order(stream: CelebornInputStream, chunk: Seq<u8>, seen: Set<u64>)
    requires
        stream_fill::chunk_batches(chunk).len() < MAX_LOOP_ITERATIONS,
    ensures
        stream.chunk_reads(chunk, seen) == stream.wanted(stream_fill::chunk_batches(chunk), seen),
    decreases chunk.len(),
{
    stream.lemma_scan_finds_wanted(chunk, seen, 0);
    stream.lemma_scan_shrinks(chunk, seen, 0);
    let s = stream.scan(chunk, seen, 0);
    if let ScanEnd::Found(header, data) = s.end {
        let b = Batch { header, data };
        law_chunk_is_read_in_order(stream, s.rest, seen.insert(number_of(b)));
    }
}

/// Filling the buffer loses nothing of the chunk: what the buffer then holds, and then what is
/// left in the chunk, is what was left in the chunk before. The stream asks for the next chunk
/// only when nothing is left in the current one.
pub proof fn law_fill_conserves(
    before: CelebornInputStream,
    after: CelebornInputStream,
    job: FillJob,
    r: FillAction,
)
    requires
        before.state.current_chunk is Some,
        before.begun(&after, job, r),
    ensures
        r == FillAction::Done(true) ==> after.state.ready() + after.left_in_chunk()
            == before.left_in_chunk(),
        r is MoveChunk ==> before.left_in_chunk().len() == 0,
{
    let chunk = buffers::octets(before.state.current_chunk->0);
    let seen = before.state.batches_read@;
    let s = before.scan(chunk, seen, 0);
    before.lemma_scan_shrinks(chunk, seen, 0);
    if let ScanEnd::Found(header, data) = s.end {
        let b = Batch { header, data };
        let later = before.chunk_reads(s.rest, seen.insert(number_of(b)));
        assert((seq![b] + later).drop_first() =~= later);
        before.lemma_same_reads(&after, s.rest, seen.insert(number_of(b)));
        before.lemma_same_content(&after, later);
        if r == FillAction::Done(true) {
            assert(after.state.ready() =~= before.batch_content(data)->Ok_0);
        }
    }
}

/// What was written is what is read: a chunk of pushed batches, each of the right attempt and
/// with a number of its own, gives back the data that was pushed, in its order.
pub proof fn law_written_data_is_read_back(
    stream: CelebornInputStream,
    bs: Seq<Batch>,
    written: Seq<Seq<u8>>,
    tail: Seq<u8>,
    seen: Set<u64>,
)
    requires
        stream.config.compression_enabled || stream.config.compression_codec is Uncompressed,
        bs.len() == written.len(),
        bs.len() < MAX_LOOP_ITERATIONS,
        forall|i: int|
            0 <= i < bs.len() ==> stream.takes((#[trigger] bs[i]).header, seen) && carries(
                bs[i],
                stream.config.compression_codec,
                written[i],
            ),
        forall|i: int, j: int|
            #![trigger bs[i], bs[j]]
            0 <= i < j < bs.len() ==> bs[i].header.map_id != bs[j].header.map_id
                || bs[i].header.batch_id != bs[j].header.batch_id,
        tail.len() < 16,
    ensures
        stream.chunk_reads(batch_header::batches_wire(bs) + tail, seen) == bs,
        stream.content_of(bs) == written.flatten(),
{
    stream_fill::law_written_chunk_holds_its_batches(bs, tail);
    law_chunk_is_read_in_order(stream, batch_header::batches_wire(bs) + tail, seen);
    lemma_all_wanted(stream, bs, seen);
    lemma_content(stream, bs, written);
}

/// Batches with numbers of their own that may all be handed out are all wanted.
proof fn lemma_all_wanted(stream: CelebornInputStream, bs: Seq<Batch>, seen: Set<u64>)
    requires
        forall|i: int| 0 <= i < bs.len() ==> stream.takes((#[trigger] bs[i]).header, seen),
        forall|i: int, j: int|
            #![trigger bs[i], bs[j]]
            0 <= i < j < bs.len() ==> bs[i].header.map_id != bs[j].header.map_id
                || bs[i].header.batch_id != bs[j].header.batch_id,
    ensures
        stream.wanted(bs, seen) == bs,
    decreases bs.len(),
{
    if bs.len() > 0 {
        let later = bs.drop_first();
        let known = seen.insert(number_of(bs[0]));
        assert forall|i: int| 0 <= i < later.len() implies stream.takes(
            (#[trigger] later[i]).header,
            known,
        ) by {
            let b = bs[i + 1];
            assert(stream.takes(b.header, seen));
            input_stream::law_batch_numbers_differ(
                bs[0].header.map_id,
                bs[0].header.batch_id,
                b.header.map_id,
                b.header.batch_id,
            );
        }
        assert forall|i: int, j: int| #![trigger later[i], later[j]] 0 <= i < j < later.len() implies later[i].header.map_id
            != later[j].header.map_id || later[i].header.batch_id != later[j].header.batch_id by {
            assert(later[i] == bs[i + 1] && later[j] == bs[j + 1]);
        }
        lemma_all_wanted(stream, later, known);
        assert(seq![bs[0]] + later =~= bs);
    } else {
        assert(stream.wanted(bs, seen) =~= bs);
    }
}

/// Unpacking batches gives what was packed.
proof fn lemma_content(stream: CelebornInputStream, bs: Seq<Batch>, written: Seq<Seq<u8>>)
    requires
        stream.config.compression_enabled || stream.config.compression_codec is Uncompressed,
        bs.len() == written.len(),
        forall|i: int|
            0 <= i < bs.len() ==> carries(
                #[trigger] bs[i],
                stream.config.compression_codec,
                written[i],
            ),
    ensures
        stream.content_of(bs) == written.flatten(),
    decreases bs.len(),
{
    if bs.len() > 0 {
        let later = bs.drop_first();
        let rest = written.drop_first();
        assert forall|i: int| 0 <= i < later.len() implies carries(
            #[trigger] later[i],
            stream.config.compression_codec,
            rest[i],
        ) by {
            assert(carries(bs[i + 1], stream.config.compression_codec, written[i + 1]));
        }
        lemma_content(stream, later, rest);
        assert(carries(bs[0], stream.config.compression_codec, written[0]));
        assert(stream.batch_content(bs[0].data) == Ok::<Seq<u8>, Seq<char>>(written[0]));
    }
}

} // verus!
