//! Taking batches out of chunks, and handing out their data.

use bytes::Bytes;
use vstd::prelude::*;
use vstd::slice::slice_to_vec;
use vstd::string::*;

use crate::buffers;
use crate::client::compression;
use crate::client::input_stream;
use crate::client::input_stream::{
    CelebornInputStream, InputStreamState, PushFailedBatch, BATCH_HEADER_SIZE, MAX_BATCH_SIZE,
    MAX_LOOP_ITERATIONS, MAX_MOVE_ATTEMPTS,
};
use crate::client::push;
use crate::error::{CelebornError, Result};
use crate::protocol;
use crate::protocol::batch_header;
use crate::protocol::batch_header::BatchHeader;

verus! {

broadcast use vstd::std_specs::hash::group_hash_axioms;

/// Filling the buffer of a stream, over several turns.
pub struct FillJob {
    /// Whether the first chunk of the stream is still looked for
    pub initializing: bool,
    /// How often the first chunk was looked for
    pub attempts: usize,
    /// How many batches and chunks were looked at
    pub iterations: usize,
    /// Whether the job goes on when the stream moved on without a chunk
    pub lenient: bool,
    /// Bytes of the batch that was taken, with its header
    pub bytes_read: usize,
}

/// What happened to a job.
pub enum FillEvent {
    /// It begins
    Start,
    /// The first chunk was got, or none
    FirstChunk(Option<Bytes>),
    /// The stream went to the next chunk, or could not
    Moved(bool),
}

/// What to do for a job.
pub enum FillAction {
    /// Get a chunk from the current reader
    FetchChunk,
    /// Go to the next chunk
    MoveChunk,
    /// The job ends; whether the buffer holds data
    Done(bool),
    /// The job fails
    Fail(CelebornError),
}

/// How looking through a chunk ends.
pub enum ScanEnd {
    /// Too many batches were looked at
    Exhausted,
    /// The chunk gives no further batch; whether the next one is wanted in any case
    NeedChunk(bool),
    /// A batch was found
    Found(BatchHeader, Seq<u8>),
}

/// Looking through a chunk: how it ends, what is left of the chunk, and how many
/// batches and chunks were looked at in all.
pub struct Scan {
    pub end: ScanEnd,
    pub rest: Seq<u8>,
    pub iterations: int,
}

/// Whether a header announces a size that is not read.
pub open spec fn bad_size(h: BatchHeader) -> bool {
    h.compressed_size < 0 || h.compressed_size > MAX_BATCH_SIZE
}

impl CelebornInputStream {
    /// Whether the batch is one that failed to be pushed to the location of the reader.
    pub open spec fn failed_here(&self, h: BatchHeader) -> bool {
        &&& self.config.split_skew_partition_without_map_range
        &&& self.state.reader matches Some(l) && {
            let id = protocol::unique_id_text(l.id, l.epoch);
            self.failed_batches@.dom().contains(id) && self.failed_batches@[id]@.contains(
                PushFailedBatch {
                    map_id: h.map_id,
                    attempt_id: h.attempt_id,
                    batch_id: h.batch_id,
                },
            )
        }
    }

    /// Whether a batch is handed out: it belongs to the right attempt, did not fail to be
    /// pushed here, and was not handed out before.
    pub open spec fn takes(&self, h: BatchHeader, seen: Set<u64>) -> bool {
        &&& batch_header::attempt_accepted(h, self.attempts@)
        &&& !self.failed_here(h)
        &&& !seen.contains(input_stream::batch_key(h.map_id, h.batch_id))
    }

    /// Looking through the bytes of a chunk for the next batch to hand out.
    pub open spec fn scan(&self, chunk: Seq<u8>, seen: Set<u64>, iterations: int) -> Scan
        decreases chunk.len(),
    {
        let n = iterations + 1;
        if n > MAX_LOOP_ITERATIONS {
            Scan { end: ScanEnd::Exhausted, rest: chunk, iterations: n }
        } else if chunk.len() < 16 {
            Scan { end: ScanEnd::NeedChunk(false), rest: chunk, iterations: n }
        } else {
            let h = batch_header::header_le(chunk);
            let t = chunk.skip(16);
            if bad_size(h) || t.len() < h.compressed_size {
                Scan { end: ScanEnd::NeedChunk(true), rest: t, iterations: n }
            } else {
                let data = t.take(h.compressed_size as int);
                let u = t.skip(h.compressed_size as int);
                if self.takes(h, seen) {
                    Scan { end: ScanEnd::Found(h, data), rest: u, iterations: n }
                } else {
                    self.scan(u, seen, n)
                }
            }
        }
    }

    /// What the data of a batch is handed out as, or the text of the error.
    pub open spec fn batch_content(&self, data: Seq<u8>) -> std::result::Result<Seq<u8>, Seq<char>> {
        if self.config.compression_enabled {
            compression::batch_unpacked(self.config.compression_codec, data)
        } else {
            Ok(data)
        }
    }

    /// Whether only the chunk, the batches seen and the buffer differ from `before`.
    pub open spec fn same_place(&self, before: &CelebornInputStream) -> bool {
        &&& self.same_plan(before)
        &&& self.state.reader == before.state.reader
        &&& self.state.file_index == before.state.file_index
        &&& self.state.fetch_chunk_retry_cnt == before.state.fetch_chunk_retry_cnt
        &&& self.state.closed == before.state.closed
        &&& self.state.skip_count == before.state.skip_count
    }

    /// Whether the buffer is as in `before`.
    pub open spec fn same_buffer(&self, before: &CelebornInputStream) -> bool {
        &&& self.state.position == before.state.position
        &&& self.state.limit == before.state.limit
        &&& self.state.raw_data_buf@ == before.state.raw_data_buf@
    }

    /// The effect of looking through the current chunk, after `iterations` batches and
    /// chunks were looked at. A batch that is found counts as seen, and its data becomes
    /// the buffer; where its data cannot be unpacked the job fails.
    pub open spec fn scanned(
        &self,
        iterations: int,
        after: &CelebornInputStream,
        job: FillJob,
        r: FillAction,
    ) -> bool {
        let seen = self.state.batches_read@;
        let chunk = match self.state.current_chunk {
            Some(c) => buffers::octets(c),
            None => Seq::<u8>::empty(),
        };
        let s = self.scan(chunk, seen, iterations);
        &&& after.same_place(self)
        &&& after.state.first_chunk == self.state.first_chunk
        &&& job.iterations == s.iterations
        &&& job.initializing == false
        &&& match self.state.current_chunk {
            Some(_) => input_stream::chunk_octets(after.state.current_chunk) == Some(s.rest),
            None => after.state.current_chunk is None,
        }
        &&& match s.end {
            ScanEnd::Exhausted => {
                &&& r == FillAction::Done(false)
                &&& after.state.batches_read@ == seen
                &&& after.same_buffer(self)
            },
            ScanEnd::NeedChunk(lenient) => {
                &&& r is MoveChunk
                &&& job.lenient == lenient
                &&& after.state.batches_read@ == seen
                &&& after.same_buffer(self)
            },
            ScanEnd::Found(h, data) => {
                &&& job.bytes_read == 16 + data.len()
                &&& after.state.batches_read@ == seen.insert(
                    input_stream::batch_key(h.map_id, h.batch_id),
                )
                &&& match self.batch_content(data) {
                    Ok(content) => {
                        &&& r == FillAction::Done(true)
                        &&& after.state.raw_data_buf@ == content
                        &&& after.state.position == 0
                        &&& after.state.limit == content.len()
                    },
                    Err(t) => {
                        &&& r matches FillAction::Fail(CelebornError::DecompressionFailed(m)) && m@ == t
                        &&& after.same_buffer(self)
                    },
                }
            },
        }
    }

    /// Decompress data using the configured codec.
    pub fn decompress(&self, data: &[u8]) -> (r: Result<Vec<u8>>)
        ensures
            compression::batch_reported(
                r,
                compression::batch_unpacked(self.config.compression_codec, data@),
            ),
    {
        compression::decompress_batch(self.config.compression_codec, data)
    }

    /// Whether a batch is in the list of those that failed to be pushed to the location
    /// of the reader.
    #[verifier::loop_isolation(false)]
    fn is_failed_here(&self, h: &BatchHeader) -> (r: bool)
        requires
            self.wf(),
        ensures
            r == self.failed_here(*h),
    {
        if !self.config.split_skew_partition_without_map_range {
            return false;
        }
        let location: &protocol::PartitionLocation = match &self.state.reader {
            Some(l) => l,
            None => {
                return false;
            },
        };
        let id: String = location.unique_id();
        let failed: &Vec<PushFailedBatch> = match self.failed_batches.get(id.as_str()) {
            Some(v) => v,
            None => {
                return false;
            },
        };
        let wanted: PushFailedBatch = PushFailedBatch::new(h.map_id, h.attempt_id, h.batch_id);
        let mut i: usize = 0;
        while i < failed.len()
            invariant
                i <= failed@.len(),
                forall|j: int| 0 <= j < i ==> failed@[j] != wanted,
            decreases failed@.len() - i,
        {
            if failed[i] == wanted {
                assert(failed@[i as int] == wanted);
                return true;
            }
            i += 1;
        }
        assert(!failed@.contains(wanted));
        false
    }

    /// Whether the batch belongs to the attempt that is read of its map.
    fn is_right_attempt(&self, h: &BatchHeader) -> (r: bool)
        ensures
            r == batch_header::attempt_accepted(*h, self.attempts@),
    {
        if h.map_id >= 0 && (h.map_id as usize) < self.attempts.len() {
            h.attempt_id == self.attempts[h.map_id as usize]
        } else {
            true
        }
    }

    /// Looks through the current chunk for the next batch to hand out.
    fn scan_chunk(&mut self, job: &mut FillJob) -> (r: FillAction)
        requires
            old(self).wf(),
            old(job).iterations <= MAX_LOOP_ITERATIONS,
        ensures
            final(self).wf(),
            final(job).iterations <= MAX_LOOP_ITERATIONS + 1,
            !final(job).initializing,
            r is MoveChunk ==> final(job).iterations <= MAX_LOOP_ITERATIONS,
            old(self).scanned(old(job).iterations as int, final(self), *final(job), r),
    {
        job.initializing = false;
        let ghost start = *self;
        let ghost seen = self.state.batches_read@;
        let mut chunk: Bytes = match self.state.current_chunk.take() {
            Some(c) => c,
            None => {
                assert(seen =~= self.state.batches_read@);
                job.iterations = job.iterations + 1;
                if job.iterations > MAX_LOOP_ITERATIONS {
                    return FillAction::Done(false);
                }
                job.lenient = false;
                return FillAction::MoveChunk;
            },
        };
        let ghost chunk0 = buffers::octets(chunk);
        loop
            invariant
                start == *old(self),
                start.wf(),
                self.wf(),
                self.same_place(&start),
                self.same_buffer(&start),
                self.state.first_chunk == start.state.first_chunk,
                self.state.batches_read@ == seen,
                seen == start.state.batches_read@,
                start.state.current_chunk is Some,
                chunk0 == buffers::octets(start.state.current_chunk->0),
                job.iterations <= MAX_LOOP_ITERATIONS,
                !job.initializing,
                start.scan(buffers::octets(chunk), seen, job.iterations as int) == start.scan(
                    chunk0,
                    seen,
                    old(job).iterations as int,
                ),
            decreases buffers::octets(chunk).len(),
        {
            let ghost c = buffers::octets(chunk);
            job.iterations = job.iterations + 1;
            if job.iterations > MAX_LOOP_ITERATIONS {
                self.state.current_chunk = Some(chunk);
                return FillAction::Done(false);
            }
            if buffers::bytes_len(&chunk) < BATCH_HEADER_SIZE {
                self.state.current_chunk = Some(chunk);
                job.lenient = false;
                return FillAction::MoveChunk;
            }
            let map_id: i32 = buffers::get_i32_le(&mut chunk);
            let attempt_id: i32 = buffers::get_i32_le(&mut chunk);
            assert(buffers::octets(chunk) =~= c.skip(8));
            let batch_id: i32 = buffers::get_i32_le(&mut chunk);
            assert(buffers::octets(chunk) =~= c.skip(12));
            let size: i32 = buffers::get_i32_le(&mut chunk);
            assert(buffers::octets(chunk) =~= c.skip(16));
            let h: BatchHeader = BatchHeader { map_id, attempt_id, batch_id, compressed_size: size };
            proof {
                assert(c.take(4) =~= c.subrange(0, 4));
                assert(c.skip(4).take(4) =~= c.subrange(4, 8));
                assert(c.skip(8).take(4) =~= c.subrange(8, 12));
                assert(c.skip(12).take(4) =~= c.subrange(12, 16));
                assert(h == batch_header::header_le(c));
            }
            if size < 0 || size as usize > MAX_BATCH_SIZE || buffers::bytes_len(&chunk) < size as usize {
                self.state.current_chunk = Some(chunk);
                job.lenient = true;
                return FillAction::MoveChunk;
            }
            let batch_data: Bytes = buffers::copy_to_bytes(&mut chunk, size as usize);
            let number: u64 = input_stream::batch_number(map_id, batch_id);
            let taken: bool = self.is_right_attempt(&h) && !self.is_failed_here(&h)
                && !self.state.batches_read.contains(&number);
            assert(taken == start.takes(h, seen));
            if taken {
                self.state.batches_read.insert(number);
                self.state.current_chunk = Some(chunk);
                job.bytes_read = BATCH_HEADER_SIZE + size as usize;
                return self.take_batch(&batch_data);
            }
        }
    }

    /// Makes the data of a batch the buffer.
    fn take_batch(&mut self, batch_data: &Bytes) -> (r: FillAction)
        requires
            old(self).wf(),
        ensures
            final(self).wf(),
            final(self).same_place(old(self)),
            final(self).state.first_chunk == old(self).state.first_chunk,
            final(self).state.current_chunk == old(self).state.current_chunk,
            final(self).state.batches_read == old(self).state.batches_read,
            match old(self).batch_content(buffers::octets(*batch_data)) {
                Ok(content) => {
                    &&& r == FillAction::Done(true)
                    &&& final(self).state.raw_data_buf@ == content
                    &&& final(self).state.position == 0
                    &&& final(self).state.limit == content.len()
                },
                Err(t) => {
                    &&& r matches FillAction::Fail(CelebornError::DecompressionFailed(m)) && m@ == t
                    &&& final(self).same_buffer(old(self))
                },
            },
    {
        let bytes: &[u8] = buffers::bytes_as_slice(batch_data);
        let content: Vec<u8> = if self.config.compression_enabled {
            match self.decompress(bytes) {
                Ok(v) => v,
                Err(e) => {
                    return FillAction::Fail(e);
                },
            }
        } else {
            slice_to_vec(bytes)
        };
        self.state.limit = content.len();
        self.state.raw_data_buf = content;
        self.state.position = 0;
        FillAction::Done(true)
    }

    /// The effect of going over from the first chunk to the batches.
    pub open spec fn begun(&self, after: &CelebornInputStream, job: FillJob, r: FillAction) -> bool {
        if self.state.current_chunk is None {
            &&& r == FillAction::Done(false)
            &&& after.same_place(self)
            &&& after.same_buffer(self)
            &&& after.state.first_chunk == self.state.first_chunk
            &&& after.state.current_chunk is None
            &&& after.state.batches_read@ == self.state.batches_read@
        } else {
            self.scanned(0, after, job, r)
        }
    }

    fn begin(&mut self, job: &mut FillJob) -> (r: FillAction)
        requires
            old(self).wf(),
        ensures
            final(self).wf(),
            final(job).iterations <= MAX_LOOP_ITERATIONS + 1,
            !final(job).initializing,
            r is MoveChunk ==> final(job).iterations <= MAX_LOOP_ITERATIONS,
            old(self).begun(final(self), *final(job), r),
    {
        job.initializing = false;
        job.iterations = 0;
        if self.state.current_chunk.is_none() {
            return FillAction::Done(false);
        }
        self.scan_chunk(job)
    }

    /// The stream with its first chunk looked for.
    pub open spec fn initialized(&self) -> CelebornInputStream {
        CelebornInputStream {
            state: InputStreamState { first_chunk: false, ..self.state },
            ..*self
        }
    }

    /// The effect of looking for the first chunk, after `attempts` times.
    pub open spec fn sought(
        &self,
        attempts: int,
        after: &CelebornInputStream,
        job: FillJob,
        r: FillAction,
    ) -> bool {
        if self.state.current_chunk is None && attempts < MAX_MOVE_ATTEMPTS {
            &&& r is MoveChunk
            &&& job.initializing
            &&& job.attempts == attempts
            &&& *after == *self
        } else {
            self.initialized().begun(after, job, r)
        }
    }

    fn seek_first(&mut self, job: &mut FillJob) -> (r: FillAction)
        requires
            old(self).wf(),
            old(job).attempts <= MAX_MOVE_ATTEMPTS,
            old(job).iterations <= MAX_LOOP_ITERATIONS,
        ensures
            final(self).wf(),
            r is MoveChunk ==> final(job).iterations <= MAX_LOOP_ITERATIONS && (final(job).initializing
                ==> final(job).attempts < MAX_MOVE_ATTEMPTS),
            old(self).sought(old(job).attempts as int, final(self), *final(job), r),
    {
        if self.state.current_chunk.is_none() && job.attempts < MAX_MOVE_ATTEMPTS {
            job.initializing = true;
            return FillAction::MoveChunk;
        }
        self.state.first_chunk = false;
        assert(*self == old(self).initialized());
        self.begin(job)
    }

    /// How the buffer is filled: by the first chunk, or by moving on to the next one.
    pub open spec fn filled(
        &self,
        after: &CelebornInputStream,
        job: FillJob,
        job_after: FillJob,
        event: FillEvent,
        r: FillAction,
    ) -> bool {
        match event {
            FillEvent::Start => if self.state.first_chunk && self.state.reader is Some {
                &&& r is FetchChunk
                &&& *after == *self
            } else {
                self.begun(after, job_after, r)
            },
            FillEvent::FirstChunk(Some(c)) => (CelebornInputStream {
                state: InputStreamState {
                    first_chunk: false,
                    current_chunk: Some(c),
                    ..self.state
                },
                ..*self
            }).begun(after, job_after, r),
            FillEvent::FirstChunk(None) => self.sought(0, after, job_after, r),
            FillEvent::Moved(on) => if job.initializing {
                if on {
                    self.sought(job.attempts + 1, after, job_after, r)
                } else {
                    self.initialized().begun(after, job_after, r)
                }
            } else if !on || (self.state.current_chunk is None && !job.lenient) {
                &&& r == FillAction::Done(false)
                &&& *after == *self
            } else {
                self.scanned(job.iterations as int, after, job_after, r)
            },
        }
    }

    /// What to do to fill the buffer with the next batch.
    pub fn fill_turn(&mut self, job: &mut FillJob, event: FillEvent) -> (r: FillAction)
        requires
            old(self).wf(),
            event is Moved ==> old(job).iterations <= MAX_LOOP_ITERATIONS,
            event is Moved && old(job).initializing ==> old(job).attempts < MAX_MOVE_ATTEMPTS,
        ensures
            final(self).wf(),
            r is MoveChunk ==> final(job).iterations <= MAX_LOOP_ITERATIONS && (final(job).initializing
                ==> final(job).attempts < MAX_MOVE_ATTEMPTS),
            old(self).filled(final(self), *old(job), *final(job), event, r),
    {
        match event {
            FillEvent::Start => {
                job.iterations = 0;
                if self.state.first_chunk && self.state.reader.is_some() {
                    FillAction::FetchChunk
                } else {
                    self.begin(job)
                }
            },
            FillEvent::FirstChunk(Some(c)) => {
                self.state.current_chunk = Some(c);
                self.state.first_chunk = false;
                self.begin(job)
            },
            FillEvent::FirstChunk(None) => {
                job.attempts = 0;
                job.iterations = 0;
                self.seek_first(job)
            },
            FillEvent::Moved(on) => {
                if job.initializing {
                    if on {
                        job.attempts = job.attempts + 1;
                        self.seek_first(job)
                    } else {
                        self.state.first_chunk = false;
                        assert(*self == old(self).initialized());
                        self.begin(job)
                    }
                } else if !on {
                    FillAction::Done(false)
                } else if self.state.current_chunk.is_none() && !job.lenient {
                    FillAction::Done(false)
                } else {
                    self.scan_chunk(job)
                }
            },
        }
    }
}

/// The batches at the front of a chunk, up to the first place where none is complete.
pub open spec fn chunk_batches(chunk: Seq<u8>) -> Seq<batch_header::Batch>
    decreases chunk.len(),
{
    if chunk.len() < 16 {
        Seq::empty()
    } else {
        let h = batch_header::header_le(chunk);
        let t = chunk.skip(16);
        if bad_size(h) || t.len() < h.compressed_size {
            Seq::empty()
        } else {
            seq![batch_header::Batch { header: h, data: t.take(h.compressed_size as int) }]
                + chunk_batches(t.skip(h.compressed_size as int))
        }
    }
}

/// The batch that is handed out is the first one of the chunk that may be: every batch
/// before it belongs to another attempt, failed to be pushed, or was handed out before.
pub proof fn law_found_is_first_taken(
    stream: CelebornInputStream,
    chunk: Seq<u8>,
    seen: Set<u64>,
    iterations: int,
) -> (k: int)
    requires
        stream.scan(chunk, seen, iterations).end is Found,
    ensures
        0 <= k < chunk_batches(chunk).len(),
        stream.scan(chunk, seen, iterations).end == ScanEnd::Found(
            chunk_batches(chunk)[k].header,
            chunk_batches(chunk)[k].data,
        ),
        stream.takes(chunk_batches(chunk)[k].header, seen),
        forall|j: int| 0 <= j < k ==> !stream.takes(#[trigger] chunk_batches(chunk)[j].header, seen),
    decreases chunk.len(),
{
    let h = batch_header::header_le(chunk);
    let t = chunk.skip(16);
    let u = t.skip(h.compressed_size as int);
    if stream.takes(h, seen) {
        0
    } else {
        let k = law_found_is_first_taken(stream, u, seen, iterations + 1);
        let all = chunk_batches(chunk);
        let later = chunk_batches(u);
        assert(all[k + 1] == later[k]);
        assert forall|j: int| 0 <= j < k + 1 implies !stream.takes(#[trigger] all[j].header, seen) by {
            if j > 0 {
                assert(all[j] == later[j - 1]);
            }
        }
        k + 1
    }
}

/// No batch is handed out twice: where a batch was found once and counts as seen, a
/// batch that is found later has another map id or another batch id.
pub proof fn law_no_batch_twice(
    first: CelebornInputStream,
    chunk1: Seq<u8>,
    seen1: Set<u64>,
    iterations1: int,
    second: CelebornInputStream,
    chunk2: Seq<u8>,
    seen2: Set<u64>,
    iterations2: int,
)
    requires
        first.scan(chunk1, seen1, iterations1).end is Found,
        second.scan(chunk2, seen2, iterations2).end is Found,
        ({
            let h1 = first.scan(chunk1, seen1, iterations1).end->Found_0;
            seen1.insert(input_stream::batch_key(h1.map_id, h1.batch_id)).subset_of(seen2)
        }),
    ensures
        ({
            let h1 = first.scan(chunk1, seen1, iterations1).end->Found_0;
            let h2 = second.scan(chunk2, seen2, iterations2).end->Found_0;
            h1.map_id != h2.map_id || h1.batch_id != h2.batch_id
        }),
{
    let k2 = law_found_is_first_taken(second, chunk2, seen2, iterations2);
    let h1 = first.scan(chunk1, seen1, iterations1).end->Found_0;
    assert(seen2.contains(input_stream::batch_key(h1.map_id, h1.batch_id)));
}

/// A chunk of which every batch was refused gives no batch; the stream asks for the next
/// chunk or has looked at too many.
pub proof fn law_refused_chunk_gives_nothing(
    stream: CelebornInputStream,
    chunk: Seq<u8>,
    seen: Set<u64>,
    iterations: int,
)
    requires
        forall|j: int|
            0 <= j < chunk_batches(chunk).len() ==> !stream.takes(
                #[trigger] chunk_batches(chunk)[j].header,
                seen,
            ),
    ensures
        !(stream.scan(chunk, seen, iterations).end is Found),
{
    if stream.scan(chunk, seen, iterations).end is Found {
        let k = law_found_is_first_taken(stream, chunk, seen, iterations);
    }
}

/// A chunk that was written batch by batch holds these batches for a stream, and nothing
/// else, when fewer than 16 bytes follow the last one.
pub proof fn law_written_chunk_holds_its_batches(bs: Seq<batch_header::Batch>, tail: Seq<u8>)
    requires
        forall|i: int|
            0 <= i < bs.len() ==> batch_header::sized_right(#[trigger] bs[i]) && bs[i].data.len()
                <= MAX_BATCH_SIZE,
        tail.len() < 16,
    ensures
        chunk_batches(batch_header::batches_wire(bs) + tail) == bs,
    decreases bs.len(),
{
    let s = batch_header::batches_wire(bs) + tail;
    if bs.len() == 0 {
        assert(s =~= tail);
        assert(chunk_batches(tail) =~= bs);
    } else {
        let b = bs[0];
        let later = bs.drop_first();
        let rest = batch_header::batches_wire(later) + tail;
        assert(batch_header::sized_right(b));
        batch_header::law_header_le_round_trip(b.header, b.data + rest);
        assert(s =~= batch_header::wire_le(b.header) + (b.data + rest));
        assert(s.skip(16) =~= b.data + rest);
        assert((b.data + rest).take(b.data.len() as int) =~= b.data);
        assert((b.data + rest).skip(b.data.len() as int) =~= rest);
        assert forall|i: int| 0 <= i < later.len() implies batch_header::sized_right(
            #[trigger] later[i],
        ) && later[i].data.len() <= MAX_BATCH_SIZE by {
            assert(batch_header::sized_right(bs[i + 1]));
        }
        law_written_chunk_holds_its_batches(later, tail);
        assert(seq![b] + later =~= bs);
    }
}

/// What was pushed is what a stream hands out: behind the body of a push, which a worker
/// keeps as it came, a stream finds the batch, and its content is the data that was pushed.
pub proof fn law_pushed_batch_is_handed_out(
    stream: CelebornInputStream,
    header: BatchHeader,
    data: Seq<u8>,
    packed: Seq<u8>,
    rest: Seq<u8>,
    seen: Set<u64>,
    iterations: int,
)
    requires
        compression::packs(stream.config.compression_codec, data, packed),
        compression::restorable(stream.config.compression_codec, data.len()),
        stream.config.compression_enabled || stream.config.compression_codec is Uncompressed,
        packed.len() <= MAX_BATCH_SIZE,
        header.compressed_size == packed.len(),
        stream.takes(header, seen),
        iterations < MAX_LOOP_ITERATIONS,
    ensures
        stream.scan(
            push::batch_body(header.map_id, header.attempt_id, header.batch_id, packed) + rest,
            seen,
            iterations,
        ) == (Scan { end: ScanEnd::Found(header, packed), rest, iterations: iterations + 1 }),
        stream.batch_content(packed) == Ok::<Seq<u8>, Seq<char>>(data),
{
    let body = push::batch_body(header.map_id, header.attempt_id, header.batch_id, packed);
    let chunk = body + rest;
    batch_header::law_header_le_round_trip(header, packed + rest);
    assert(chunk =~= batch_header::wire_le(header) + (packed + rest));
    let t = chunk.skip(16);
    assert(t =~= packed + rest);
    assert(t.take(packed.len() as int) =~= packed);
    assert(t.skip(packed.len() as int) =~= rest);
}

} // verus!
