//! Reading a partition: where it is read from, and which batches are handed out.

use std::collections::HashMap;

use bytes::Bytes;
use vstd::prelude::*;

use crate::buffers;
use crate::client::compression;
use crate::client::fetch;
use crate::client::fetch::{IteratorModel, NextAction, NextEvent, ShuffleDataIterator};
use crate::client::input_stream;
use crate::client::input_stream::{
    CelebornInputStream, CelebornInputStreamConfig, ExcludedWorkers, PushFailedBatch,
};
use crate::client::locations;
use crate::client::partition_reader;
use crate::client::partition_reader::{
    ChunkResult, NextTurn, PbOpenStream, TakeTurn, WorkerPartitionReader,
};
use crate::client::push::PushJob;
use crate::client::shuffle::ShuffleClient;
use crate::client::stream_fill::{FillAction, FillEvent, FillJob, ScanEnd};
use crate::client::stream_read::{ReadAction, SkipAction};
use crate::client::stream_turns::{
    ChunkAction, ChunkEvent, FetchStep, FetchTurn, OpenAttempt, OpenTurn, ReaderAction,
    ReaderEvent,
};
use crate::config::{CelebornConfig, CompressionCodec};
use crate::error::CelebornError;
use crate::laws::layout;
use crate::laws::pushing;
use crate::protocol::batch_header;
use crate::protocol::batch_header::{Batch, BatchHeader};
use crate::protocol::message::MessageType;
use crate::protocol::{LocationModel, PartitionLocation};
use crate::text;
use crate::time;

verus! {

/// The address that a location is read at.
pub open spec fn read_address(l: PartitionLocation) -> Seq<char> {
    l.host@ + seq![':'] + text::int_text(l.fetch_port as int)
}

/// Whether two locations are the same place to read from.
pub open spec fn same_place(a: PartitionLocation, b: PartitionLocation) -> bool {
    &&& a.id == b.id
    &&& a.epoch == b.epoch
    &&& a.host@ == b.host@
    &&& a.fetch_port == b.fetch_port
    &&& a.mode == b.mode
}

/// Whether a failure is one of the worker: the connection, a timeout, or the fetch itself.
pub open spec fn is_of_the_worker(e: CelebornError) -> bool {
    match e {
        CelebornError::Connection(_) => true,
        CelebornError::Timeout(_) => true,
        CelebornError::FetchFailed(_) => true,
        _ => false,
    }
}

/// After a failed fetch with retries left, the peer of the location is read, if there is one
/// and no skewed partition is read; else the location itself once more. Every other retry at a
/// peer is made at once, the others after the wait. Without a retry left the stream fails.
/// Where the reading stood is not changed.
pub proof fn law_failed_fetch_goes_to_the_peer(
    stream: CelebornInputStream,
    after: CelebornInputStream,
    workers: Map<Seq<char>, u64>,
    workers_after: Map<Seq<char>, u64>,
    e: CelebornError,
    now: u64,
    r: FetchStep,
)
    requires
        stream.state.reader is Some,
        stream.state.fetch_chunk_retry_cnt < stream.fetch_chunk_max_retry,
        stream.fetch_failed(&after, workers, workers_after, e, now, r),
    ensures
        ({
            let l = stream.state.reader->0;
            let tries = stream.state.fetch_chunk_retry_cnt + 1;
            let to_peer = l.peer is Some && !stream.config.split_skew_partition_without_map_range;
            &&& tries >= stream.fetch_chunk_max_retry ==> r is CloseAndFail
                && r->CloseAndFail_0 is FetchFailed
            &&& tries < stream.fetch_chunk_max_retry ==> {
                &&& r is CloseAndReopen
                &&& to_peer ==> same_place(r->location, *(l.peer->0)) && r->location.model()
                    == l.peer->0.model()
                &&& !to_peer ==> same_place(r->location, l) && r->location.model() == l.model()
                &&& r->wait_ms == (if to_peer && tries % 2 == 1 {
                    0
                } else {
                    stream.config.retry_wait_ms
                })
            }
            &&& after.state.fetch_chunk_retry_cnt == tries
            &&& after.state.reader is None
            &&& after.state.file_index == stream.state.file_index
            &&& after.state.current_chunk == stream.state.current_chunk
            &&& after.state.batches_read == stream.state.batches_read
            &&& after.state.ready() == stream.state.ready()
        }),
{
}

/// A failed fetch excludes the worker that it was made at, from now on, where data is
/// replicated, workers are excluded at all, and the failure is one of the worker. No other
/// worker is excluded or let back in; so a peer at another worker can be read.
pub proof fn law_failed_fetch_excludes_its_worker(
    stream: CelebornInputStream,
    after: CelebornInputStream,
    workers: Map<Seq<char>, u64>,
    workers_after: Map<Seq<char>, u64>,
    e: CelebornError,
    now: u64,
    r: FetchStep,
)
    requires
        stream.state.reader is Some,
        stream.fetch_failed(&after, workers, workers_after, e, now, r),
    ensures
        ({
            let l = stream.state.reader->0;
            let out = stream.config.push_replicate_enabled
                && stream.config.fetch_exclude_worker_on_failure && is_of_the_worker(e);
            &&& out ==> workers_after.dom().contains(read_address(l))
                && workers_after[read_address(l)] == now
            &&& !out ==> workers_after == workers
            &&& forall|w: Seq<char>|
                w != read_address(l) ==> #[trigger] workers_after.dom().contains(w)
                    == workers.dom().contains(w)
            &&& l.peer matches Some(p) ==> (read_address(*p) != read_address(l)
                && !workers.dom().contains(read_address(*p)) ==> !workers_after.dom().contains(
                read_address(*p),
            ))
        }),
{
}

/// An opening that failed is tried again at the peer, if there is one and no skewed partition is
/// read; else at the same place.
pub proof fn law_failed_opening_goes_to_the_peer(
    stream: CelebornInputStream,
    l: PartitionLocation,
    tries: int,
)
    requires
        tries >= 0,
    ensures
        ({
            let to_peer = l.peer is Some && !stream.config.split_skew_partition_without_map_range;
            &&& to_peer ==> stream.next_try(l) == *(l.peer->0)
            &&& !to_peer ==> same_place(stream.next_try(l), l)
            &&& stream.next_wait(l.peer is Some, tries) == (if to_peer && tries % 2 == 1 {
                0
            } else {
                stream.config.retry_wait_ms
            })
        }),
{
}

/// A worker that is excluded is not read for the time of the timeout, in milliseconds, and is
/// read again after it. A worker that was never excluded is read.
pub proof fn law_excluded_worker_is_not_read_for_a_while(
    excluded: ExcludedWorkers,
    l: PartitionLocation,
    expire_ms: u64,
    now: u64,
)
    ensures
        ({
            let at = excluded.workers@[read_address(l)];
            &&& !excluded.workers@.dom().contains(read_address(l)) ==> !excluded.excludes(
                l.model(),
                expire_ms,
                now,
            )
            &&& excluded.workers@.dom().contains(read_address(l)) && at <= now ==> (
            excluded.excludes(l.model(), expire_ms, now) <==> now - at <= expire_ms * 1_000_000)
            &&& excluded.workers@.dom().contains(read_address(l)) && at > now ==>
                excluded.excludes(l.model(), expire_ms, now)
        }),
{
}

/// The next location to read is the first from here on that is not to be skipped.
pub proof fn law_next_location_is_the_first_to_read(stream: CelebornInputStream, i: int)
    requires
        0 <= i <= stream.locations@.len(),
    ensures
        ({
            let k = stream.readable_from(i);
            &&& i <= k <= stream.locations@.len()
            &&& k < stream.locations@.len() ==> !stream.skips(stream.locations@[k].model())
            &&& forall|j: int|
                i <= j < k ==> stream.skips((#[trigger] stream.locations@[j]).model())
        }),
    decreases stream.locations@.len() - i,
{
    if i < stream.locations@.len() && stream.skips(stream.locations@[i].model()) {
        law_next_location_is_the_first_to_read(stream, i + 1);
    }
}

/// Whether a location holds data of one of the mappers that are read, as far as is known.
pub open spec fn known_to_miss(
    stream: CelebornInputStream,
    name: Seq<char>,
) -> bool {
    stream.map_id_bitmaps@.dom().contains(name) && forall|m: int|
        stream.start_map_index <= m < stream.end_map_index && 0 <= m ==> !(
        #[trigger] input_stream::members(stream.map_id_bitmaps@[name]).contains(m as u32))
}

/// Where mappers are filtered, a location is skipped just if it is known, by its own mappers or
/// else by those of its peer, to hold nothing of the mappers that are read. Where none are
/// filtered, none is skipped. Of a skewed partition those are skipped that have no range.
pub proof fn law_location_is_skipped_if_nothing_is_there(
    stream: CelebornInputStream,
    l: PartitionLocation,
)
    ensures
        ({
            let name = pushing::location_name(l.model());
            let skewed = stream.config.split_skew_partition_without_map_range;
            &&& skewed && stream.partition_location_to_chunk_range is None ==> !stream.skips(
                l.model(),
            )
            &&& skewed && stream.partition_location_to_chunk_range is Some ==> (stream.skips(
                l.model(),
            ) <==> !stream.partition_location_to_chunk_range->0@.dom().contains(name))
            &&& !skewed && (!stream.config.range_read_filter_enabled || stream.end_map_index
                == i32::MAX) ==> !stream.skips(l.model())
            &&& !skewed && stream.config.range_read_filter_enabled && stream.end_map_index
                != i32::MAX ==> (stream.skips(l.model()) <==> known_to_miss(stream, name) || (
            !stream.map_id_bitmaps@.dom().contains(name) && l.peer is Some && known_to_miss(
                stream,
                pushing::location_name(l.peer->0.model()),
            )))
        }),
{
    let name = pushing::location_name(l.model());
    assert(name == crate::protocol::unique_id_text(l.id, l.epoch));
    if stream.map_id_bitmaps@.dom().contains(name) {
        lemma_misses(stream, name);
    }
    if l.peer is Some {
        let peer = pushing::location_name(l.peer->0.model());
        assert(peer == crate::protocol::unique_id_text(l.peer->0.id, l.peer->0.epoch));
        if stream.map_id_bitmaps@.dom().contains(peer) {
            lemma_misses(stream, peer);
        }
    }
}

proof fn lemma_misses(stream: CelebornInputStream, name: Seq<char>)
    requires
        stream.map_id_bitmaps@.dom().contains(name),
    ensures
        known_to_miss(stream, name) <==> !input_stream::range_meets(
            stream.map_id_bitmaps@[name],
            stream.start_map_index,
            stream.end_map_index,
        ),
{
    let b = stream.map_id_bitmaps@[name];
    if input_stream::range_meets(b, stream.start_map_index, stream.end_map_index) {
        let i = choose|i: int|
            #![trigger input_stream::members(b).contains(i as u32)]
            stream.start_map_index <= i < stream.end_map_index && 0 <= i
                && input_stream::members(b).contains(i as u32);
        assert(input_stream::members(b).contains(i as u32));
    }
}

/// Moving on opens the next location that is to be read, and finishes where there is none; the
/// locations before it are counted as skipped, the retries start anew, and no location is come
/// back to. What was read stays as it is.
pub proof fn law_readers_move_on(
    stream: CelebornInputStream,
    after: CelebornInputStream,
    fetch_chunk: bool,
    event: ReaderEvent,
    r: ReaderAction,
)
    requires
        stream.wf(),
        stream.reader_turned(&after, fetch_chunk, event, r),
        event is Advance || event == ReaderEvent::HasData(false) || event == ReaderEvent::Chunk(
            None,
        ),
    ensures
        ({
            let k = after.state.file_index as int;
            &&& stream.state.file_index <= k <= stream.locations@.len()
            &&& forall|j: int|
                stream.state.file_index <= j < k ==> stream.skips(
                    (#[trigger] stream.locations@[j]).model(),
                )
            &&& k < stream.locations@.len() ==> r is OpenAt && r->OpenAt_0.model()
                == stream.locations@[k].model() && same_place(r->OpenAt_0, stream.locations@[k])
                && !stream.skips(stream.locations@[k].model()) && after.state.fetch_chunk_retry_cnt
                == 0
            &&& k == stream.locations@.len() ==> r is Finished
            &&& after.state.reader is None
            &&& after.state.skip_count - stream.state.skip_count == k - stream.state.file_index
            &&& after.state.batches_read == stream.state.batches_read
            &&& after.state.ready() == stream.state.ready()
        }),
{
    law_next_location_is_the_first_to_read(stream, stream.state.file_index as int);
}

/// A location that was opened becomes the reader and is not opened again; a chunk that came is
/// the one that is read next.
pub proof fn law_opened_location_is_read(
    stream: CelebornInputStream,
    after: CelebornInputStream,
    fetch_chunk: bool,
    event: ReaderEvent,
    r: ReaderAction,
)
    requires
        stream.wf(),
        stream.reader_turned(&after, fetch_chunk, event, r),
    ensures
        event matches ReaderEvent::Opened(l) ==> r is AskHasData && after.state.reader == Some(l)
            && (stream.state.file_index < stream.locations@.len() ==> after.state.file_index
            == stream.state.file_index + 1) && after.state.batches_read
            == stream.state.batches_read && after.state.current_chunk
            == stream.state.current_chunk,
        event == ReaderEvent::HasData(true) ==> after.state == stream.state && (r is FetchChunk
            <==> fetch_chunk),
        event matches ReaderEvent::Chunk(Some(c)) ==> r is Finished && after.state.current_chunk
            == Some(c) && after.state.reader == stream.state.reader && after.state.batches_read
            == stream.state.batches_read,
{
}

/// The next chunk comes from the reader for as long as it has data, then from the next reader,
/// for as long as locations are left; then there is none.
pub proof fn law_chunks_come_from_the_readers_in_turn(
    stream: CelebornInputStream,
    after: CelebornInputStream,
    event: ChunkEvent,
    r: ChunkAction,
)
    requires
        stream.chunk_turned(&after, event, r),
    ensures
        event is Start && stream.state.reader is Some ==> r is AskHasData,
        event == ChunkEvent::HasData(true) ==> r is FetchChunk,
        event matches ChunkEvent::Chunk(Some(c)) ==> r == ChunkAction::Moved(true)
            && after.state.current_chunk == Some(c),
        event == ChunkEvent::HasData(false) || event == ChunkEvent::Chunk(None) || (event is Start
            && stream.state.reader is None) ==> if stream.state.file_index
            < stream.locations@.len() {
            r is NextReader
        } else {
            r == ChunkAction::Moved(false)
        },
        event is ReadersMoved ==> r == ChunkAction::Moved(stream.state.reader is Some),
        after.state.batches_read == stream.state.batches_read,
        after.state.file_index == stream.state.file_index,
{
}

/// A batch is taken if it is of the attempt that counts for its mapper, was not among those
/// that failed to be pushed to a skewed partition, and was not taken before. A mapper of which
/// nothing is known has no wrong attempt.
pub proof fn law_batch_is_taken_once_and_of_the_right_attempt(
    stream: CelebornInputStream,
    h: BatchHeader,
    seen: Set<u64>,
)
    ensures
        0 <= h.map_id < stream.attempts@.len() && h.attempt_id
            != stream.attempts@[h.map_id as int] ==> !stream.takes(h, seen),
        seen.contains(input_stream::batch_key(h.map_id, h.batch_id)) ==> !stream.takes(h, seen),
        !stream.takes(h, seen.insert(input_stream::batch_key(h.map_id, h.batch_id))),
        !stream.config.split_skew_partition_without_map_range && !seen.contains(
            input_stream::batch_key(h.map_id, h.batch_id),
        ) && (0 <= h.map_id < stream.attempts@.len() ==> h.attempt_id
            == stream.attempts@[h.map_id as int]) ==> stream.takes(h, seen),
        stream.config.split_skew_partition_without_map_range && stream.state.reader is Some
            && stream.failed_batches@.dom().contains(
            pushing::location_name(stream.state.reader->0.model()),
        ) && stream.failed_batches@[pushing::location_name(
            stream.state.reader->0.model(),
        )]@.contains(
            PushFailedBatch { map_id: h.map_id, attempt_id: h.attempt_id, batch_id: h.batch_id },
        ) ==> !stream.takes(h, seen),
        h.map_id >= 0 && h.batch_id >= 0 ==> input_stream::batch_key(h.map_id, h.batch_id)
            == h.map_id * 0x1_0000_0000 + h.batch_id,
{
    if stream.state.reader is Some {
        let l = stream.state.reader->0;
        assert(pushing::location_name(l.model()) == crate::protocol::unique_id_text(l.id, l.epoch));
    }
}

/// What a mapper pushed in the attempt that counts is handed out: behind its bytes the stream
/// finds the batch, and its content is the data that was pushed. What it pushed in another
/// attempt is passed over.
pub proof fn law_push_of_the_right_attempt_is_handed_out(
    stream: CelebornInputStream,
    job: PushJob,
    batch_id: i32,
    body: Seq<u8>,
    rest: Seq<u8>,
    seen: Set<u64>,
    iterations: int,
)
    requires
        pushing::is_batch_of(body, job, batch_id, stream.config.compression_codec),
        stream.config.compression_enabled || stream.config.compression_codec is Uncompressed,
        stream.config.compression_codec is Lz4 ==> job.data@.len() <= u32::MAX,
        body.len() <= 16 + 1024 * 1024 * 1024,
        0 <= job.map_id < stream.attempts@.len(),
        !stream.config.split_skew_partition_without_map_range,
        0 <= iterations < 10000,
    ensures
        stream.attempts@[job.map_id as int] == job.attempt_id && !seen.contains(
            input_stream::batch_key(job.map_id, batch_id),
        ) ==> {
            let s = stream.scan(body + rest, seen, iterations);
            &&& s.end is Found
            &&& s.end->Found_0.map_id == job.map_id
            &&& s.end->Found_0.attempt_id == job.attempt_id
            &&& s.end->Found_0.batch_id == batch_id
            &&& s.rest == rest
            &&& stream.batch_content(s.end->Found_1) == Ok::<Seq<u8>, Seq<char>>(job.data@)
        },
        stream.attempts@[job.map_id as int] != job.attempt_id ==> stream.scan(
            body + rest,
            seen,
            iterations,
        ) == stream.scan(rest, seen, iterations + 1),
{
    let packed = body.skip(16);
    let chunk = body + rest;
    let h = batch_header::header_le(body);
    assert(batch_header::header_le(chunk) == h) by {
        assert(chunk.subrange(0, 4) =~= body.subrange(0, 4));
        assert(chunk.subrange(4, 8) =~= body.subrange(4, 8));
        assert(chunk.subrange(8, 12) =~= body.subrange(8, 12));
        assert(chunk.subrange(12, 16) =~= body.subrange(12, 16));
    }
    let t = chunk.skip(16);
    assert(t =~= packed + rest);
    assert(t.take(packed.len() as int) =~= packed);
    assert(t.skip(packed.len() as int) =~= rest);
    assert(h.compressed_size == packed.len());
}

/// The batch that is handed out of a chunk fills the buffer that is read from: all of its
/// content and nothing else; it is not handed out again.
pub proof fn law_found_batch_fills_the_buffer(
    stream: CelebornInputStream,
    iterations: int,
    after: CelebornInputStream,
    job: FillJob,
    r: FillAction,
    header: BatchHeader,
    data: Seq<u8>,
)
    requires
        stream.scanned(iterations, &after, job, r),
        stream.state.current_chunk is Some,
        stream.scan(
            buffers::octets(stream.state.current_chunk->0),
            stream.state.batches_read@,
            iterations,
        ).end == ScanEnd::Found(header, data),
    ensures
        stream.batch_content(data) matches Ok(content) ==> r == FillAction::Done(true)
            && after.state.ready() == content,
        stream.batch_content(data) is Err ==> r is Fail && after.state.ready()
            == stream.state.ready(),
        !stream.takes(header, after.state.batches_read@),
        stream.takes(header, stream.state.batches_read@),
        job.bytes_read == 16 + data.len(),
{
    let chunk = buffers::octets(stream.state.current_chunk->0);
    lemma_found_is_taken(stream, chunk, stream.state.batches_read@, iterations);
    if stream.batch_content(data) is Ok {
        let content = stream.batch_content(data)->Ok_0;
        assert(after.state.ready() =~= content);
    }
}

proof fn lemma_found_is_taken(
    stream: CelebornInputStream,
    chunk: Seq<u8>,
    seen: Set<u64>,
    iterations: int,
)
    ensures
        stream.scan(chunk, seen, iterations).end matches ScanEnd::Found(h, d) ==> stream.takes(
            h,
            seen,
        ),
    decreases chunk.len(),
{
    if chunk.len() >= 16 && iterations + 1 <= input_stream::MAX_LOOP_ITERATIONS {
        let h = batch_header::header_le(chunk);
        let t = chunk.skip(16);
        if !(h.compressed_size < 0 || h.compressed_size > input_stream::MAX_BATCH_SIZE || t.len()
            < h.compressed_size) && !stream.takes(h, seen) {
            lemma_found_is_taken(stream, t.skip(h.compressed_size as int), seen, iterations + 1);
        }
    }
}

/// A batch is unpacked by the codec of the stream where data is compressed at all.
pub proof fn law_batches_are_unpacked_by_the_codec(stream: CelebornInputStream, data: Seq<u8>)
    ensures
        !stream.config.compression_enabled ==> stream.batch_content(data) == Ok::<
            Seq<u8>,
            Seq<char>,
        >(data),
        stream.config.compression_codec is Uncompressed ==> stream.batch_content(data) == Ok::<
            Seq<u8>,
            Seq<char>,
        >(data),
        stream.config.compression_enabled && stream.config.compression_codec is Zstd && (
        compression::zstd_unpacked(data) is Ok) ==> stream.batch_content(data) == Ok::<
            Seq<u8>,
            Seq<char>,
        >(compression::zstd_unpacked(data)->Ok_0),
{
}

/// A read hands out no more than was asked for, at once all that is ready up to that, and goes
/// on until it has it all or the stream ends.
pub proof fn law_read_hands_out_what_is_ready(
    stream: CelebornInputStream,
    after: CelebornInputStream,
    out0: Seq<u8>,
    out1: Seq<u8>,
    want: usize,
    filled: Option<bool>,
    r: ReadAction,
)
    requires
        out0.len() <= want,
        stream.has_read(&after, out0, out1, want, filled, r),
    ensures
        out1.len() <= want,
        out0 == out1.take(out0.len() as int),
        out1 + after.state.ready() == out0 + stream.state.ready(),
        r is Fill ==> out1.len() < want && after.state.ready().len() == 0,
        filled == Some(true) && out0.len() + stream.state.ready().len() >= want ==> r is Return
            && out1.len() == want,
        filled == Some(false) ==> r is Return && out1 == out0,
        filled is None && stream.state.closed ==> r is Return && out1 == out0,
{
    let ready = stream.state.ready();
    crate::client::stream_read::law_read_conserves(stream, after, out0, out1, want, filled, r);
    assert(out0 =~= out1.take(out0.len() as int));
}

/// A stream is set up by the configuration of the client: its codec, retries and timeouts; with
/// replicas there are twice the retries.
pub proof fn law_stream_goes_by_its_configuration(
    c: CelebornInputStreamConfig,
    config: CelebornConfig,
)
    requires
        input_stream::configured_by(c, config),
    ensures
        c.compression_codec == config.compression_codec,
        c.compression_enabled <==> !(config.compression_codec is Uncompressed),
        c.push_replicate_enabled == config.push_replicate_enabled,
        c.fetch_max_retries_per_replica == config.max_fetch_retries,
        c.fetch_max_reqs_in_flight == config.fetch_max_reqs_in_flight,
        time::nanos(config.fetch_timeout) < 0x1_0000_0000_0000_0000 ==> c.fetch_timeout_ms
            == time::nanos(config.fetch_timeout) / 1_000_000,
        c.retry_wait_ms == 50,
        c.fetch_exclude_worker_on_failure,
        c.fetch_excluded_worker_expire_timeout_ms == 60_000,
        c.fetch_buffer_size == 65_536,
        !c.range_read_filter_enabled,
        !c.enable_read_local_shuffle,
        !c.split_skew_partition_without_map_range,
        config.push_replicate_enabled ==> input_stream::max_retry_of(c) == 2
            * config.max_fetch_retries,
        !config.push_replicate_enabled ==> input_stream::max_retry_of(c)
            == config.max_fetch_retries,
{
}

/// How far a search goes before it gives up, and how large a batch may be.
pub proof fn law_limits_of_a_stream()
    ensures
        input_stream::BATCH_HEADER_SIZE == 16,
        input_stream::MAX_BATCH_SIZE == 1_073_741_824,
        input_stream::MAX_MOVE_ATTEMPTS == 1000,
        input_stream::MAX_LOOP_ITERATIONS == 10_000,
{
}

/// A location is opened by the name of its file: partition, epoch and mode, for the mappers from
/// the first up to the last.
pub proof fn law_file_of_the_location_is_opened(
    r: PbOpenStream,
    shuffle_key: Seq<char>,
    l: PartitionLocation,
    start: i32,
    end: i32,
)
    requires
        partition_reader::asks_to_open(r, shuffle_key, l, start, end),
    ensures
        r.shuffle_key@ == shuffle_key,
        r.start_index == start,
        r.end_index == end,
        r.file_name@ == text::int_text(l.id as int) + seq!['-'] + text::int_text(l.epoch as int)
            + seq!['-'] + text::int_text(
            if l.mode is Replica {
                1int
            } else {
                0int
            },
        ),
        r.initial_credit == 0,
        !r.read_local_shuffle,
{
}

/// Chunks are claimed one after the other, each once, for as long as there are any and no more
/// are under way than may be.
pub proof fn law_chunks_are_claimed_in_order(
    reader: WorkerPartitionReader,
    after: WorkerPartitionReader,
    r: Option<i32>,
)
    requires
        reader.wf(),
        reader.claimed(&after, r),
    ensures
        r is Some <==> !reader.closed && reader.fetch_chunk_index < reader.num_chunks
            && reader.in_flight_requests < reader.config.fetch_max_reqs_in_flight,
        r matches Some(n) ==> n == reader.fetch_chunk_index && after.fetch_chunk_index == n + 1
            && after.in_flight_requests == reader.in_flight_requests + 1,
        r is None ==> after == reader,
        after.chunk_queue == reader.chunk_queue,
        after.return_chunk_index == reader.return_chunk_index,
{
}

/// Chunks are handed out in the order in which they came; a failed one as its failure. There
/// are no more once all were claimed and none is under way.
pub proof fn law_chunks_are_handed_out_in_order(
    reader: WorkerPartitionReader,
    after: WorkerPartitionReader,
    r: TakeTurn,
)
    requires
        reader.took(&after, r),
    ensures
        reader.chunk_queue@.len() > 0 ==> after.chunk_queue@ == reader.chunk_queue@.skip(1)
            && after.return_chunk_index == reader.return_chunk_index + 1,
        reader.chunk_queue@.len() > 0 && reader.chunk_queue@[0] is Success ==> r
            == TakeTurn::Return(Ok(Some(reader.chunk_queue@[0]->Success_0))),
        reader.chunk_queue@.len() > 0 && reader.chunk_queue@[0] is Failure ==> r
            == TakeTurn::Return(
            Err(CelebornError::FetchFailed(reader.chunk_queue@[0]->Failure_0)),
        ),
        reader.chunk_queue@.len() == 0 ==> after == reader && (r is Wait
            <==> reader.fetch_chunk_index < reader.num_chunks || reader.in_flight_requests > 0),
{
    if reader.chunk_queue@.len() > 0 {
        assert(reader.chunk_queue@.drop_first() =~= reader.chunk_queue@.skip(1));
    }
}

/// A chunk that came is queued unpacked, one that did not as the text of its error.
pub proof fn law_chunk_is_queued_unpacked(
    codec: CompressionCodec,
    outcome: std::result::Result<Bytes, CelebornError>,
    q: ChunkResult,
)
    requires
        partition_reader::queued_as(codec, outcome, q),
    ensures
        codec is Uncompressed && outcome is Ok ==> q is Success && buffers::octets(q->Success_0)
            == buffers::octets(outcome->Ok_0),
        outcome is Err ==> q is Failure && q->Failure_0@ == crate::error::error_text(
            outcome->Err_0,
        ),
        forall|data: Seq<u8>|
            outcome is Ok && #[trigger] compression::packs(
                codec,
                data,
                buffers::octets(outcome->Ok_0),
            ) && (codec is Lz4 ==> data.len() <= u32::MAX) ==> q is Success && buffers::octets(
                q->Success_0,
            ) == data,
{
}

/// An iterator gives the chunks of a location one after the other, each once and unpacked, then
/// opens the next location, in their order; a location that cannot be opened or read on is left,
/// and after the last one there is nothing more.
pub proof fn law_iterator_goes_through_the_locations(
    codec: CompressionCodec,
    before: IteratorModel,
    event: NextEvent,
    after: IteratorModel,
    action: NextAction,
)
    requires
        fetch::turned(codec, before, event, after, action),
        event is Fetched ==> fetch::has_chunk(before.stream),
        before.chunks.len() == 0,
        !before.finished,
    ensures
        action matches NextAction::Open(l) ==> before.locations.len() > 0 && l
            == before.locations[0] && after.locations == before.locations.skip(1),
        !(action is Open) ==> after.locations == before.locations,
        event is Begin && before.stream is Some && before.stream->0.current_chunk
            < before.stream->0.num_chunks ==> action == NextAction::Fetch(
            before.stream->0.stream_id,
            before.stream->0.current_chunk,
        ),
        event matches NextEvent::Opened(Ok(s)) ==> (0 <= s.current_chunk < s.num_chunks ==> action
            == NextAction::Fetch(s.stream_id, s.current_chunk)),
        event matches NextEvent::Fetched(Ok(Some(chunk))) ==> action is Return
            && after.stream is Some && after.stream->0.current_chunk
            == before.stream->0.current_chunk + 1 && after.stream->0.stream_id
            == before.stream->0.stream_id && (codec is Uncompressed ==> action->Return_0 is Ok
            && action->Return_0->Ok_0 is Some && buffers::octets(action->Return_0->Ok_0->0)
            == buffers::octets(chunk)),
        event is Fetched && !(event->Fetched_0 is Ok && event->Fetched_0->Ok_0 is Some) ==> (
        before.locations.len() > 0 ==> action is Open) && after.stream is None,
        event is Begin && before.stream is None && before.locations.len() == 0 ==> action
            == NextAction::Return(Ok(None)) && after.finished,
{
    if before.locations.len() > 0 {
        assert(before.locations.drop_first() =~= before.locations.skip(1));
    }
}

/// The file of a location is the one that its storage names, or else named by the shuffle and
/// the location.
pub proof fn law_file_of_a_stream(shuffle_key: Seq<char>, l: LocationModel)
    ensures
        l.storage_info matches Some(s) ==> fetch::stream_file(shuffle_key, l) == s.file_path,
        l.storage_info is None ==> fetch::stream_file(shuffle_key, l) == shuffle_key + seq!['/']
            + pushing::location_name(l),
{
}

/// Batches that stand one behind the other in a chunk are parted by the sizes in their headers,
/// and the headers are left out.
pub proof fn law_headers_are_left_out(b: Batch, rest: Seq<u8>, at: int)
    requires
        b.header.compressed_size == b.data.len(),
    ensures
        ({
            let s = batch_header::wire_le(b.header) + b.data + rest;
            partition_reader::strip_headers(s, at) == match partition_reader::strip_headers(
                rest,
                at + 16 + b.data.len(),
            ) {
                Ok(d) => Ok::<Seq<u8>, Seq<char>>(b.data + d),
                Err(m) => Err(m),
            }
        }),
        rest.len() < 16 ==> partition_reader::strip_headers(rest, at) == Ok::<Seq<u8>, Seq<char>>(
            Seq::<u8>::empty(),
        ),
{
    let s = batch_header::wire_le(b.header) + b.data + rest;
    batch_header::law_header_le_round_trip(b.header, b.data + rest);
    assert(s =~= batch_header::wire_le(b.header) + (b.data + rest));
    let t = s.skip(16);
    assert(t =~= b.data + rest);
    assert(t.take(b.data.len() as int) =~= b.data);
    assert(t.skip(b.data.len() as int) =~= rest);
}

/// What stays of a chunk is what stands behind the batch that was found, and nothing else of the
/// chunk is kept; where none was found, a new chunk is asked for, or the search is over.
pub proof fn law_rest_of_the_chunk_is_kept(
    stream: CelebornInputStream,
    iterations: int,
    after: CelebornInputStream,
    job: FillJob,
    r: FillAction,
)
    requires
        stream.scanned(iterations, &after, job, r),
        stream.state.current_chunk is Some,
    ensures
        ({
            let chunk = buffers::octets(stream.state.current_chunk->0);
            let s = stream.scan(chunk, stream.state.batches_read@, iterations);
            &&& after.state.current_chunk is Some
            &&& buffers::octets(after.state.current_chunk->0) == s.rest
            &&& s.rest.len() <= chunk.len()
            &&& s.rest == chunk.skip(chunk.len() - s.rest.len())
            &&& s.end is Exhausted ==> r == FillAction::Done(false)
            &&& s.end is NeedChunk ==> r is MoveChunk
            &&& !(s.end is Found) ==> after.state.batches_read@ == stream.state.batches_read@
                && after.state.ready() == stream.state.ready()
            &&& after.state.reader == stream.state.reader
            &&& after.state.file_index == stream.state.file_index
        }),
{
    let chunk = buffers::octets(stream.state.current_chunk->0);
    lemma_rest_is_behind(stream, chunk, stream.state.batches_read@, iterations);
}

proof fn lemma_rest_is_behind(
    stream: CelebornInputStream,
    chunk: Seq<u8>,
    seen: Set<u64>,
    iterations: int,
)
    ensures
        ({
            let rest = stream.scan(chunk, seen, iterations).rest;
            &&& rest.len() <= chunk.len()
            &&& rest == chunk.skip(chunk.len() - rest.len())
        }),
    decreases chunk.len(),
{
    let rest = stream.scan(chunk, seen, iterations).rest;
    if chunk.len() >= 16 && iterations + 1 <= input_stream::MAX_LOOP_ITERATIONS {
        let h = batch_header::header_le(chunk);
        let t = chunk.skip(16);
        if !(h.compressed_size < 0 || h.compressed_size > input_stream::MAX_BATCH_SIZE || t.len()
            < h.compressed_size) {
            let u = t.skip(h.compressed_size as int);
            assert(u =~= chunk.skip(16 + h.compressed_size));
            if !stream.takes(h, seen) {
                lemma_rest_is_behind(stream, u, seen, iterations + 1);
            }
        }
    }
    assert(rest =~= chunk.skip(chunk.len() - rest.len()));
}

/// A batch that is too large, or not all there, ends the search of its chunk behind its head; less
/// than a head ends it there; and a search that goes on for too long finds nothing.
pub proof fn law_search_of_a_chunk_ends(
    stream: CelebornInputStream,
    chunk: Seq<u8>,
    seen: Set<u64>,
    iterations: int,
)
    requires
        0 <= iterations,
    ensures
        ({
            let s = stream.scan(chunk, seen, iterations);
            let h = batch_header::header_le(chunk);
            &&& iterations >= 10_000 ==> s.end is Exhausted && s.rest == chunk
            &&& iterations < 10_000 && chunk.len() < 16 ==> s.end == ScanEnd::NeedChunk(false)
                && s.rest == chunk
            &&& iterations < 10_000 && chunk.len() >= 16 && (h.compressed_size < 0
                || h.compressed_size > 1_073_741_824 || chunk.len() < 16 + h.compressed_size)
                ==> s.end == ScanEnd::NeedChunk(true) && s.rest == chunk.skip(16)
        }),
{
}

/// The first chunk is sought by moving on for as long as there is none, at most a thousand
/// times; then what there is is searched, and without a chunk there is nothing.
pub proof fn law_first_chunk_is_sought(
    stream: CelebornInputStream,
    attempts: int,
    after: CelebornInputStream,
    job: FillJob,
    r: FillAction,
)
    requires
        0 <= attempts,
        stream.sought(attempts, &after, job, r),
    ensures
        stream.state.current_chunk is None && attempts < 1000 ==> r is MoveChunk && after == stream
            && job.initializing && job.attempts == attempts,
        stream.state.current_chunk is None && attempts >= 1000 ==> r == FillAction::Done(false)
            && !after.state.first_chunk && after.state.ready() == stream.state.ready(),
        stream.state.current_chunk is Some ==> !after.state.first_chunk && (CelebornInputStream {
            state: crate::client::input_stream::InputStreamState {
                first_chunk: false,
                ..stream.state
            },
            ..stream
        }).scanned(0, &after, job, r),
{
}

/// A fill without a chunk ends with nothing; one with a chunk searches it from the start.
pub proof fn law_fill_searches_its_chunk(
    stream: CelebornInputStream,
    after: CelebornInputStream,
    job: FillJob,
    r: FillAction,
)
    requires
        stream.begun(&after, job, r),
    ensures
        stream.state.current_chunk is None ==> r == FillAction::Done(false) && after.state.ready()
            == stream.state.ready() && after.state.batches_read@ == stream.state.batches_read@,
        stream.state.current_chunk is Some ==> stream.scanned(0, &after, job, r),
{
}

/// A new stream has read nothing, passed nothing over, and stands before its first location.
pub proof fn law_new_stream_has_read_nothing(stream: CelebornInputStream)
    requires
        stream.is_fresh(),
    ensures
        stream.state.file_index == 0,
        stream.state.reader is None,
        stream.state.current_chunk is None,
        stream.state.ready() == Seq::<u8>::empty(),
        stream.state.first_chunk,
        stream.state.fetch_chunk_retry_cnt == 0,
        !stream.state.closed,
        forall|n: u64| !(#[trigger] stream.state.batches_read@.contains(n)),
        stream.state.skip_count == 0,
{
    assert(stream.state.ready() =~= Seq::<u8>::empty());
}

/// A stream without locations is closed and hands nothing out.
pub proof fn law_empty_stream_is_closed(stream: CelebornInputStream)
    requires
        stream.is_empty_stream(),
    ensures
        stream.state.closed,
        stream.locations@.len() == 0,
        stream.state.ready() == Seq::<u8>::empty(),
        stream.config.fetch_max_retries_per_replica == 3,
        stream.config.compression_codec is Lz4,
        stream.config.fetch_timeout_ms == 120_000,
        stream.config.fetch_max_reqs_in_flight == 3,
        stream.config.retry_wait_ms == 50,
{
    assert(stream.state.ready() =~= Seq::<u8>::empty());
}

/// A skip passes at once all that is ready up to what is asked for, and goes on until it has
/// passed it all or the stream ends; it says how much it passed.
pub proof fn law_skip_passes_what_is_ready(
    stream: CelebornInputStream,
    after: CelebornInputStream,
    skipped: usize,
    n: usize,
    filled: Option<bool>,
    r: SkipAction,
)
    requires
        skipped <= n,
        stream.has_skipped(&after, skipped, n, filled, r),
    ensures
        filled == Some(false) ==> r == SkipAction::Return(skipped) && after.state.ready()
            == stream.state.ready(),
        filled == Some(true) && skipped + stream.state.ready().len() >= n ==> r
            == SkipAction::Return(n) && after.state.ready() == stream.state.ready().skip(
            n - skipped,
        ),
        filled == Some(true) && skipped + stream.state.ready().len() < n ==> r == SkipAction::Fill(
            (skipped + stream.state.ready().len()) as usize,
        ) && after.state.ready().len() == 0,
        filled is None && stream.state.closed ==> r == SkipAction::Return(skipped),
{
}

/// A location is opened unless its worker is excluded; then the next attempt is made at the peer,
/// if there is one and no skewed partition is read. Once the retries are used up it is given up,
/// with the last error there was.
pub proof fn law_opening_goes_on(
    stream: CelebornInputStream,
    after: CelebornInputStream,
    excluded: ExcludedWorkers,
    excluded_after: ExcludedWorkers,
    attempt: OpenAttempt,
    attempt_after: OpenAttempt,
    now: u64,
    r: OpenTurn,
)
    requires
        stream.open_turned(
            &after,
            excluded,
            excluded_after,
            attempt,
            attempt_after,
            now,
            r,
        ),
    ensures
        ({
            let l = attempt.location;
            let known = excluded.workers@.dom().contains(read_address(l));
            let at = excluded.workers@[read_address(l)];
            let shut = known && (at > now || now - at
                <= stream.config.fetch_excluded_worker_expire_timeout_ms * 1_000_000);
            let over = stream.state.fetch_chunk_retry_cnt >= stream.fetch_chunk_max_retry;
            &&& over ==> r is GiveUp
            &&& over && attempt.last_error is Some ==> r == OpenTurn::GiveUp(attempt.last_error->0)
            &&& over && attempt.last_error is None ==> r->GiveUp_0 is FetchFailed
            &&& !over && !shut ==> r is Open && attempt_after == attempt
                && !excluded_after.workers@.dom().contains(read_address(l))
            &&& !over && shut ==> r is Wait && after.state.fetch_chunk_retry_cnt
                == stream.state.fetch_chunk_retry_cnt + 1 && excluded_after.workers@
                == excluded.workers@
            &&& !over && shut && l.peer is Some
                && !stream.config.split_skew_partition_without_map_range
                ==> attempt_after.location == *(l.peer->0)
            &&& !over && shut && (l.peer is None
                || stream.config.split_skew_partition_without_map_range) ==> same_place(
                attempt_after.location,
                l,
            )
            &&& after.state.file_index == stream.state.file_index
            &&& after.state.reader == stream.state.reader
            &&& after.state.batches_read == stream.state.batches_read
        }),
{
}

/// After an opening that failed, the next attempt is made at the peer, if there is one and no
/// skewed partition is read, else at the same place; one try more was made, and the worker that
/// failed is excluded as after a failed fetch.
pub proof fn law_failed_opening_is_taken_back(
    stream: CelebornInputStream,
    after: CelebornInputStream,
    excluded: ExcludedWorkers,
    excluded_after: ExcludedWorkers,
    attempt: OpenAttempt,
    attempt_after: OpenAttempt,
    error: CelebornError,
    now: u64,
    wait: u64,
)
    requires
        stream.state.fetch_chunk_retry_cnt < stream.fetch_chunk_max_retry,
        stream.open_taken_back(
            &after,
            excluded,
            excluded_after,
            attempt,
            attempt_after,
            error,
            now,
            wait,
        ),
    ensures
        ({
            let l = attempt.location;
            let tries = stream.state.fetch_chunk_retry_cnt + 1;
            let to_peer = l.peer is Some && !stream.config.split_skew_partition_without_map_range;
            let out = stream.config.push_replicate_enabled
                && stream.config.fetch_exclude_worker_on_failure && is_of_the_worker(error);
            &&& after.state.fetch_chunk_retry_cnt == tries
            &&& after.state.file_index == stream.state.file_index
            &&& attempt_after.last_error == Some(error)
            &&& to_peer ==> attempt_after.location == *(l.peer->0)
            &&& !to_peer ==> same_place(attempt_after.location, l)
            &&& wait == (if to_peer && tries % 2 == 1 {
                0
            } else {
                stream.config.retry_wait_ms
            })
            &&& out ==> excluded_after.workers@.dom().contains(read_address(l))
                && excluded_after.workers@[read_address(l)] == now
            &&& !out ==> excluded_after.workers@ == excluded.workers@
        }),
{
}

/// A chunk is fetched from the reader, unless there is none, its worker is excluded, or the
/// retries are used up.
pub proof fn law_chunk_is_fetched_from_the_reader(
    stream: CelebornInputStream,
    after: CelebornInputStream,
    excluded: ExcludedWorkers,
    excluded_after: ExcludedWorkers,
    now: u64,
    r: FetchTurn,
)
    requires
        stream.fetch_turned(&after, excluded, excluded_after, now, r),
    ensures
        ({
            let over = stream.state.fetch_chunk_retry_cnt >= stream.fetch_chunk_max_retry;
            let l = stream.state.reader->0;
            let at = excluded.workers@[read_address(l)];
            let shut = excluded.workers@.dom().contains(read_address(l)) && (at > now || now - at
                <= stream.config.fetch_excluded_worker_expire_timeout_ms * 1_000_000);
            &&& after == stream
            &&& over ==> r is Fail && r->Fail_0 is FetchFailed
            &&& !over && stream.state.reader is None ==> r is NoChunk
            &&& !over && stream.state.reader is Some && shut ==> r is Fail
                && r->Fail_0 is FetchFailed
            &&& !over && stream.state.reader is Some && !shut ==> r is AskReader
        }),
{
}

/// The next location to read is found behind those that are to be skipped, which are counted;
/// its retries start anew.
pub proof fn law_next_location_is_found(
    stream: CelebornInputStream,
    after: CelebornInputStream,
    r: Option<PartitionLocation>,
)
    requires
        stream.wf(),
        stream.moved_on(&after, r),
    ensures
        ({
            let k = after.state.file_index as int;
            &&& stream.state.file_index <= k <= stream.locations@.len()
            &&& r is Some <==> k < stream.locations@.len()
            &&& r matches Some(l) ==> same_place(l, stream.locations@[k]) && !stream.skips(
                stream.locations@[k].model(),
            ) && after.state.fetch_chunk_retry_cnt == 0
            &&& forall|j: int|
                stream.state.file_index <= j < k ==> stream.skips(
                    (#[trigger] stream.locations@[j]).model(),
                )
            &&& after.state.skip_count - stream.state.skip_count == k - stream.state.file_index
        }),
{
    law_next_location_is_the_first_to_read(stream, stream.state.file_index as int);
}

/// The first fill of a stream asks its reader for a chunk and searches it; a later one searches
/// the chunk at hand, and one that moved on in vain is over.
pub proof fn law_fill_takes_its_turn(
    stream: CelebornInputStream,
    after: CelebornInputStream,
    job: FillJob,
    job_after: FillJob,
    event: FillEvent,
    r: FillAction,
)
    requires
        stream.filled(&after, job, job_after, event, r),
    ensures
        event is Start && stream.state.first_chunk && stream.state.reader is Some
            ==> r is FetchChunk && after == stream,
        event is Start && !(stream.state.first_chunk && stream.state.reader is Some)
            && stream.state.current_chunk is None ==> r == FillAction::Done(false),
        event is Start && !(stream.state.first_chunk && stream.state.reader is Some)
            && stream.state.current_chunk is Some ==> stream.scanned(0, &after, job_after, r),
        event == FillEvent::FirstChunk(None) && stream.state.current_chunk is None
            ==> r is MoveChunk && after == stream,
        event == FillEvent::Moved(false) && !job.initializing ==> r == FillAction::Done(false)
            && after == stream,
        event == FillEvent::Moved(true) && !job.initializing && stream.state.current_chunk is Some
            ==> stream.scanned(job.iterations as int, &after, job_after, r),
        event == FillEvent::Moved(true) && job.initializing && stream.state.current_chunk is None
            && job.attempts + 1 < 1000 ==> r is MoveChunk && job_after.attempts == job.attempts + 1,
        event matches FillEvent::FirstChunk(Some(c)) ==> (CelebornInputStream {
            state: crate::client::input_stream::InputStreamState {
                first_chunk: false,
                current_chunk: Some(c),
                ..stream.state
            },
            ..stream
        }).scanned(0, &after, job_after, r),
{
}

/// A chunk that arrives is the last in the queue, and one request less is under way.
pub proof fn law_arrived_chunk_is_the_last_in_the_queue(
    reader: WorkerPartitionReader,
    after: WorkerPartitionReader,
    outcome: std::result::Result<Bytes, CelebornError>,
)
    requires
        reader.arrived(&after, outcome),
    ensures
        after.chunk_queue@.len() == reader.chunk_queue@.len() + 1,
        after.chunk_queue@.drop_last() == reader.chunk_queue@,
        after.in_flight_requests == reader.in_flight_requests - 1,
        outcome is Err ==> after.chunk_queue@.last() is Failure,
        outcome is Ok && reader.config.compression_codec is Uncompressed
            ==> after.chunk_queue@.last() is Success && buffers::octets(
            after.chunk_queue@.last()->Success_0,
        ) == buffers::octets(outcome->Ok_0),
{
}

/// A chunk is taken until all were returned; a reader that is closed has none, and one that
/// failed says so.
pub proof fn law_chunks_are_taken_until_all_were_returned(
    reader: WorkerPartitionReader,
    r: NextTurn,
)
    requires
        reader.next_turned(r),
    ensures
        r is Take <==> !reader.closed && reader.exception is None && reader.return_chunk_index
            < reader.num_chunks,
        reader.closed ==> r == NextTurn::Return(Ok(None)),
        !reader.closed && reader.exception is Some ==> r is Return && r->Return_0 is Err
            && r->Return_0->Err_0 is FetchFailed,
        !reader.closed && reader.exception is None && reader.return_chunk_index
            >= reader.num_chunks ==> r == NextTurn::Return(Ok(None)),
{
}

/// An answer with a chunk gives its data without the heads; one with a failure fails, and any
/// other is an error.
pub proof fn law_answer_with_a_chunk_gives_its_data(
    message_type: MessageType,
    body: Bytes,
    stream_id: i64,
    chunk_index: i32,
    r: std::result::Result<Bytes, CelebornError>,
)
    requires
        WorkerPartitionReader::chunk_read(message_type, &body, stream_id, chunk_index, r),
    ensures
        message_type is ChunkFetchSuccess ==> {
            let d = partition_reader::strip_headers(buffers::octets(body), 0);
            &&& r is Ok <==> d is Ok
            &&& r is Ok ==> buffers::octets(r->Ok_0) == d->Ok_0
        },
        message_type is ChunkFetchFailure ==> r is Err && r->Err_0 is FetchFailed,
        !(message_type is ChunkFetchSuccess) && !(message_type is ChunkFetchFailure) ==> r is Err
            && r->Err_0 is Protocol,
{
}

/// The answer to an opening is the payload of a message of the number of a stream handler; any
/// other is an error.
pub proof fn law_answer_to_an_opening_gives_its_payload(
    body: Bytes,
    r: std::result::Result<Bytes, CelebornError>,
)
    requires
        WorkerPartitionReader::handle_read(&body, r),
    ensures
        ({
            let s = buffers::octets(body);
            let n = layout::with_sign32(layout::big32(s, 4));
            let whole = s.len() >= 8 && 0 <= n && s.len() >= 8 + n;
            &&& r is Ok <==> whole && layout::big32(s, 0) == 52
            &&& r is Ok ==> buffers::octets(r->Ok_0) == s.subrange(8, 8 + n)
        }),
{
    crate::laws::decoding::law_transport_frame_is_read(buffers::octets(body));
}

/// An iterator is made for the locations of its partition, in their order, and has read nothing;
/// of a partition that has none there is no iterator.
pub proof fn law_iterator_is_made_for_its_partition(
    client: ShuffleClient,
    shuffle_id: i32,
    partition_id: i32,
    groups: HashMap<i32, Vec<PartitionLocation>>,
    r: std::result::Result<ShuffleDataIterator, CelebornError>,
)
    requires
        client.fetches(shuffle_id, partition_id, &groups, r),
    ensures
        r is Ok <==> groups@.dom().contains(partition_id) && groups@[partition_id]@.len() > 0,
        r is Err ==> r->Err_0 == (CelebornError::PartitionNotFound { shuffle_id, partition_id }),
        r matches Ok(it) ==> {
            &&& it.locations@.len() == groups@[partition_id]@.len()
            &&& forall|i: int|
                0 <= i < it.locations@.len() ==> same_place(
                    #[trigger] it.locations@[i],
                    groups@[partition_id]@[i],
                )
            &&& it.shuffle_key@ == pushing::shuffle_name(
                client.lifecycle_manager.config.app_id@,
                shuffle_id,
            )
            &&& it.current_stream is None
            &&& it.buffered_chunks@.len() == 0
            &&& !it.finished
        },
{
    let found = locations::held(locations::table(groups@), partition_id);
    if groups@.dom().contains(partition_id) {
        assert(found == locations::models(groups@[partition_id]@));
        assert(found.len() == groups@[partition_id]@.len());
    }
    if r is Ok {
        let it = r->Ok_0;
        assert(locations::models(it.locations@).len() == it.locations@.len());
        assert forall|i: int| 0 <= i < it.locations@.len() implies same_place(
            #[trigger] it.locations@[i],
            groups@[partition_id]@[i],
        ) by {
            assert(locations::models(it.locations@)[i] == it.locations@[i].model());
            assert(found[i] == groups@[partition_id]@[i].model());
        }
        assert(it.model().chunks.len() == 0);
    }
}

} // verus!
