//! Reading the chunks of one partition location from its worker.
//!
//! A reader opens a stream at the worker, fetches the chunks of the stream ahead of
//! their use, and hands them out in turn. The calls to the worker are left to the
//! caller; the reader says which chunk to fetch and what to make of an answer.

use std::collections::VecDeque;

use bytes::Bytes;
use vstd::prelude::*;
use vstd::slice::slice_subrange;
use vstd::string::*;

use crate::buffers;
use crate::client::compression;
use crate::config;
use crate::config::{CelebornConfig, CompressionCodec};
use crate::error;
use crate::error::{CelebornError, Result};
use crate::protocol;
use crate::protocol::batch_header;
use crate::protocol::batch_header::BatchHeader;
use crate::protocol::message;
use crate::protocol::message::MessageType;
use crate::protocol::transport::TransportMessageType;
use crate::protocol::{Outcome, PartitionLocation};
use crate::text;
use crate::time;
use crate::wire;

verus! {

/// Result of a chunk fetch operation.
#[derive(Debug)]
pub enum ChunkResult {
    /// Successfully fetched chunk data
    Success(Bytes),
    /// Fetch failed with error
    Failure(String),
    /// End of stream marker
    EndOfStream,
}

/// Configuration for WorkerPartitionReader.
#[derive(Debug, Clone, Copy)]
pub struct WorkerPartitionReaderConfig {
    /// Maximum number of in-flight fetch requests
    pub fetch_max_reqs_in_flight: usize,
    /// Fetch timeout in milliseconds
    pub fetch_timeout_ms: u64,
    /// Compression codec
    pub compression_codec: CompressionCodec,
    /// Maximum retries for fetch operations
    pub max_fetch_retries: u32,
}

impl Default for WorkerPartitionReaderConfig {
    fn default() -> (r: Self)
        ensures
            r == (WorkerPartitionReaderConfig {
                fetch_max_reqs_in_flight: 3,
                fetch_timeout_ms: 120_000,
                compression_codec: CompressionCodec::Uncompressed,
                max_fetch_retries: 3,
            }),
    {
        WorkerPartitionReaderConfig {
            fetch_max_reqs_in_flight: 3,
            fetch_timeout_ms: 120_000,
            compression_codec: CompressionCodec::Uncompressed,
            max_fetch_retries: 3,
        }
    }
}

impl From<&CelebornConfig> for WorkerPartitionReaderConfig {
    fn from(config: &CelebornConfig) -> (r: Self) {
        WorkerPartitionReaderConfig {
            fetch_max_reqs_in_flight: config.fetch_max_reqs_in_flight,
            fetch_timeout_ms: time::as_millis_u64(&config.fetch_timeout),
            compression_codec: config.compression_codec,
            max_fetch_retries: config.max_fetch_retries,
        }
    }
}

impl vstd::std_specs::convert::FromSpecImpl<&CelebornConfig> for WorkerPartitionReaderConfig {
    open spec fn obeys_from_spec() -> bool {
        true
    }

    open spec fn from_spec(config: &CelebornConfig) -> Self {
        WorkerPartitionReaderConfig {
            fetch_max_reqs_in_flight: config.fetch_max_reqs_in_flight,
            fetch_timeout_ms: time::millis(config.fetch_timeout) as u64,
            compression_codec: config.compression_codec,
            max_fetch_retries: config.max_fetch_retries,
        }
    }
}

/// A request to open a stream.
#[derive(Debug)]
pub struct PbOpenStream {
    pub shuffle_key: String,
    pub file_name: String,
    pub start_index: i32,
    pub end_index: i32,
    pub initial_credit: i32,
    pub read_local_shuffle: bool,
}

/// A request for a chunk of a stream.
#[derive(Debug, Clone, Copy)]
pub struct PbStreamChunkSlice {
    pub stream_id: i64,
    pub chunk_index: i32,
    pub offset: i32,
    pub len: i32,
}

/// Whether a request asks to open the file of a location, for some of the mappers.
pub open spec fn asks_to_open(
    r: PbOpenStream,
    shuffle_key: Seq<char>,
    location: PartitionLocation,
    start: i32,
    end: i32,
) -> bool {
    &&& r.shuffle_key@ == shuffle_key
    &&& r.file_name@ == protocol::file_name_text(location.id, location.epoch, location.mode)
    &&& r.start_index == start
    &&& r.end_index == end
    &&& r.initial_credit == 0
    &&& !r.read_local_shuffle
}

/// The text for a batch that announces `size` bytes where `left` follow its header.
/// A negative size shows as the unsigned 64-bit number with the same bits.
pub open spec fn oversized_text(size: int, left: nat, at: nat) -> Seq<char> {
    "Batch data size "@ + text::nat_text(
        if size < 0 {
            (size + 0x1_0000_0000_0000_0000) as nat
        } else {
            size as nat
        },
    ) + " exceeds remaining chunk data "@ + text::nat_text(left) + " at offset "@ + text::nat_text(at)
}

/// The data of the batches in `rest`, which stands at offset `at` of a chunk, or the text
/// for a batch that is cut off. Fewer than 16 bytes at the end are ignored.
pub open spec fn strip_headers(rest: Seq<u8>, at: int) -> std::result::Result<Seq<u8>, Seq<char>>
    decreases rest.len(),
{
    if rest.len() < 16 {
        Ok(Seq::<u8>::empty())
    } else {
        let size = batch_header::header_le(rest).compressed_size;
        let t = rest.skip(16);
        if size < 0 || t.len() < size {
            Err(oversized_text(size as int, t.len(), (at + 16) as nat))
        } else {
            match strip_headers(t.skip(size as int), at + 16 + size) {
                Ok(d) => Ok(t.take(size as int) + d),
                Err(m) => Err(m),
            }
        }
    }
}

/// Whether every size that is read has an end in the address space: a negative size is
/// read only where it is larger in amount than the offset behind its header.
pub open spec fn sizes_readable(rest: Seq<u8>, at: int) -> bool
    decreases rest.len(),
{
    if rest.len() < 16 {
        true
    } else {
        let size = batch_header::header_le(rest).compressed_size;
        let t = rest.skip(16);
        if size < 0 {
            size + at + 16 < 0
        } else if t.len() < size {
            true
        } else {
            sizes_readable(t.skip(size as int), at + 16 + size)
        }
    }
}

/// The data of several batches, one after the other.
pub open spec fn joined(bs: Seq<batch_header::Batch>) -> Seq<u8>
    decreases bs.len(),
{
    if bs.len() == 0 {
        Seq::<u8>::empty()
    } else {
        bs[0].data + joined(bs.drop_first())
    }
}

/// Where stripping the headers succeeds, it gives the data of the batches of the chunk in
/// their order.
pub proof fn law_strip_gives_batches(rest: Seq<u8>, at: int)
    requires
        strip_headers(rest, at) is Ok,
    ensures
        strip_headers(rest, at)->Ok_0 == joined(batch_header::batches(rest)),
    decreases rest.len(),
{
    if rest.len() >= 16 {
        let size = batch_header::header_le(rest).compressed_size;
        let t = rest.skip(16);
        let u = t.skip(size as int);
        law_strip_gives_batches(u, at + 16 + size);
        let b = batch_header::next_batch(rest)->0;
        assert(b.data =~= t.take(size as int));
        assert(rest.skip(16 + b.data.len() as int) =~= u);
        let all = batch_header::batches(rest);
        assert(all.drop_first() =~= batch_header::batches(u));
    } else {
        assert(batch_header::batches(rest) =~= Seq::<batch_header::Batch>::empty());
    }
}

/// A chunk that was written batch by batch gives back the data of the batches.
pub proof fn law_strip_round_trip(bs: Seq<batch_header::Batch>, tail: Seq<u8>, at: int)
    requires
        forall|i: int| 0 <= i < bs.len() ==> batch_header::sized_right(#[trigger] bs[i]),
        tail.len() < 16,
    ensures
        strip_headers(batch_header::batches_wire(bs) + tail, at) == Ok::<Seq<u8>, Seq<char>>(joined(bs)),
        sizes_readable(batch_header::batches_wire(bs) + tail, at),
    decreases bs.len(),
{
    if bs.len() == 0 {
        assert(batch_header::batches_wire(bs) + tail =~= tail);
    } else {
        let b = bs[0];
        let later = bs.drop_first();
        let rest = batch_header::batches_wire(later) + tail;
        let s = batch_header::batches_wire(bs) + tail;
        assert(batch_header::sized_right(b));
        batch_header::law_header_le_round_trip(b.header, b.data + rest);
        assert(s =~= batch_header::wire_le(b.header) + (b.data + rest));
        assert(s.skip(16) =~= b.data + rest);
        assert((b.data + rest).take(b.data.len() as int) =~= b.data);
        assert((b.data + rest).skip(b.data.len() as int) =~= rest);
        assert forall|i: int| 0 <= i < later.len() implies batch_header::sized_right(
            #[trigger] later[i],
        ) by {
            assert(batch_header::sized_right(bs[i + 1]));
        }
        law_strip_round_trip(later, tail, at + 16 + b.data.len());
    }
}

/// Reader for fetching shuffle data from a worker.
///
/// 1. Open stream with PbOpenStream -> receive PbStreamHandler with stream_id and num_chunks
/// 2. Fetch chunks with PbChunkFetchRequest -> receive ChunkFetchSuccess with data
/// 3. Close stream with PbBufferStreamEnd
pub struct WorkerPartitionReader {
    /// Configuration
    pub config: WorkerPartitionReaderConfig,
    /// Partition location
    pub location: PartitionLocation,
    /// Shuffle key
    pub shuffle_key: String,
    /// Stream ID from the worker
    pub stream_id: i64,
    /// Total number of chunks
    pub num_chunks: i32,
    /// Index of the next chunk to return to caller
    pub return_chunk_index: i32,
    /// Index of the next chunk to fetch
    pub fetch_chunk_index: i32,
    /// Number of in-flight fetch requests
    pub in_flight_requests: usize,
    /// Queue of fetched chunks waiting to be returned
    pub chunk_queue: VecDeque<ChunkResult>,
    /// Whether the reader is closed
    pub closed: bool,
    /// Exception that occurred during fetch
    pub exception: Option<String>,
}

/// How a caller goes on to get the next chunk.
pub enum NextTurn {
    /// Fetch ahead, then take a chunk
    Take,
    /// The call ends so
    Return(Result<Option<Bytes>>),
}

/// How a caller goes on to take a chunk.
pub enum TakeTurn {
    /// Fetch ahead; the call then ends so
    Return(Result<Option<Bytes>>),
    /// Nothing is there yet: yield, then ask again
    Wait,
}

/// What a chunk that was fetched is queued as.
pub open spec fn queued_as(
    codec: CompressionCodec,
    outcome: std::result::Result<Bytes, CelebornError>,
    q: ChunkResult,
) -> bool {
    match outcome {
        Ok(data) => match compression::unpacked(codec, buffers::octets(data)) {
            Ok(d) => q matches ChunkResult::Success(b) && buffers::octets(b) == d,
            Err(t) => q matches ChunkResult::Failure(m) && m@ == "Compression error: "@ + t,
        },
        Err(e) => q matches ChunkResult::Failure(m) && m@ == error::error_text(e),
    }
}

impl WorkerPartitionReader {
    /// Every chunk that was claimed is in flight, queued, or was returned; no chunk
    /// beyond the last one is claimed, and no more are in flight than allowed.
    pub open spec fn wf(&self) -> bool {
        &&& 0 <= self.return_chunk_index <= self.fetch_chunk_index
        &&& (self.fetch_chunk_index > 0 ==> self.fetch_chunk_index <= self.num_chunks)
        &&& (!self.closed ==> self.return_chunk_index + self.chunk_queue@.len() + self.in_flight_requests
            == self.fetch_chunk_index)
        &&& self.in_flight_requests <= self.config.fetch_max_reqs_in_flight
    }

    /// Whether nothing but the indices and the queue differs from `other`.
    pub open spec fn same_stream(&self, other: &WorkerPartitionReader) -> bool {
        &&& self.config == other.config
        &&& self.location == other.location
        &&& self.shuffle_key == other.shuffle_key
        &&& self.stream_id == other.stream_id
        &&& self.num_chunks == other.num_chunks
        &&& self.exception == other.exception
    }

    /// The request that opens a stream for a location.
    pub fn open_request(
        shuffle_key: &str,
        location: &PartitionLocation,
        start_map_index: i32,
        end_map_index: i32,
    ) -> (r: PbOpenStream)
        ensures
            asks_to_open(r, shuffle_key@, *location, start_map_index, end_map_index),
    {
        PbOpenStream {
            shuffle_key: shuffle_key.to_owned(),
            file_name: location.get_file_name(),
            start_index: start_map_index,
            end_index: end_map_index,
            initial_credit: 0,
            read_local_shuffle: false,
        }
    }

    /// What the answer to an opening is read as.
    pub open spec fn handle_read(body: &Bytes, r: Result<Bytes>) -> bool {
        match protocol::parse_transport_frame(buffers::octets(*body)).0 {
            Outcome::Fault(k, m) => r matches Err(CelebornError::Io(e)) && e.kind == k
                && e.message@ == m,
            Outcome::Done(v) => if v.0 == 52 {
                r matches Ok(p) && buffers::octets(p) == v.1
            } else {
                r matches Err(CelebornError::Protocol(m)) && m@
                    == "Expected StreamHandler (52), got message type "@ + text::int_text(v.0 as int)
            },
        }
    }

    /// The payload in the answer to an open request. The answer must be a stream handler.
    pub fn open_reply(body: &Bytes) -> (r: Result<Bytes>)
        ensures
            Self::handle_read(body, r),
    {
        let mut payload: Bytes = buffers::bytes_clone(body);
        match protocol::decode_transport_message(&mut payload) {
            Err(e) => Err(CelebornError::Io(e)),
            Ok((message_type, pb_payload)) => {
                if message_type != TransportMessageType::StreamHandler.code() {
                    let mut m: String = String::from_str(
                        "Expected StreamHandler (52), got message type ",
                    );
                    text::append_i64(&mut m, message_type as i64);
                    return Err(CelebornError::Protocol(m));
                }
                Ok(pb_payload)
            },
        }
    }

    /// A reader on a stream that was opened.
    pub fn new(
        config: WorkerPartitionReaderConfig,
        shuffle_key: String,
        location: PartitionLocation,
        stream_id: i64,
        num_chunks: i32,
    ) -> (r: Self)
        ensures
            r.wf(),
            r.config == config,
            r.shuffle_key == shuffle_key,
            r.location == location,
            r.stream_id == stream_id,
            r.num_chunks == num_chunks,
            r.return_chunk_index == 0,
            r.fetch_chunk_index == 0,
            r.in_flight_requests == 0,
            r.chunk_queue@.len() == 0,
            !r.closed,
            r.exception is None,
    {
        WorkerPartitionReader {
            config,
            location,
            shuffle_key,
            stream_id,
            num_chunks,
            return_chunk_index: 0,
            fetch_chunk_index: 0,
            in_flight_requests: 0,
            chunk_queue: VecDeque::new(),
            closed: false,
            exception: None,
        }
    }

    /// Whether a further chunk is to be fetched ahead.
    pub open spec fn wants_chunk(&self) -> bool {
        !self.closed && self.fetch_chunk_index < self.num_chunks && self.in_flight_requests
            < self.config.fetch_max_reqs_in_flight
    }

    /// How a chunk is claimed.
    pub open spec fn claimed(&self, after: &WorkerPartitionReader, r: Option<i32>) -> bool {
        if self.wants_chunk() {
            &&& r == Some(self.fetch_chunk_index)
            &&& *after == (WorkerPartitionReader {
                fetch_chunk_index: (self.fetch_chunk_index + 1) as i32,
                in_flight_requests: (self.in_flight_requests + 1) as usize,
                ..*self
            })
        } else {
            &&& r is None
            &&& *after == *self
        }
    }

    /// How a chunk is taken off the queue.
    pub open spec fn took(&self, after: &WorkerPartitionReader, r: TakeTurn) -> bool {
        &&& after.same_stream(self)
        &&& after.closed == self.closed
        &&& after.fetch_chunk_index == self.fetch_chunk_index
        &&& after.in_flight_requests == self.in_flight_requests
        &&& if self.chunk_queue@.len() > 0 {
            &&& after.chunk_queue@ == self.chunk_queue@.drop_first()
            &&& after.return_chunk_index == self.return_chunk_index + 1
            &&& match self.chunk_queue@[0] {
                ChunkResult::Success(data) => r == TakeTurn::Return(Ok(Some(data))),
                ChunkResult::Failure(m) => r == TakeTurn::Return(
                    Err(CelebornError::FetchFailed(m)),
                ),
                ChunkResult::EndOfStream => r == TakeTurn::Return(Ok(None)),
            }
        } else {
            &&& *after == *self
            &&& if self.fetch_chunk_index >= self.num_chunks && self.in_flight_requests == 0 {
                r == TakeTurn::Return(Ok(None))
            } else {
                r is Wait
            }
        }
    }

    /// Claims the next chunk to be fetched, up to the limit of requests in flight.
    pub fn claim_chunk(&mut self) -> (r: Option<i32>)
        requires
            old(self).wf(),
        ensures
            final(self).wf(),
            old(self).claimed(final(self), r),
    {
        if self.closed || self.fetch_chunk_index >= self.num_chunks {
            return None;
        }
        if self.in_flight_requests >= self.config.fetch_max_reqs_in_flight {
            return None;
        }
        let index: i32 = self.fetch_chunk_index;
        self.fetch_chunk_index = index + 1;
        self.in_flight_requests = self.in_flight_requests + 1;
        Some(index)
    }

    /// The request for a whole chunk.
    pub fn chunk_request(&self, chunk_index: i32) -> (r: PbStreamChunkSlice)
        ensures
            r == (PbStreamChunkSlice {
                stream_id: self.stream_id,
                chunk_index,
                offset: 0,
                len: i32::MAX,
            }),
    {
        PbStreamChunkSlice { stream_id: self.stream_id, chunk_index, offset: 0, len: i32::MAX }
    }

    /// What the answer to a request for a chunk is read as.
    pub open spec fn chunk_read(
        message_type: MessageType,
        body: &Bytes,
        stream_id: i64,
        chunk_index: i32,
        r: Result<Bytes>,
    ) -> bool {
        match message_type {
            MessageType::ChunkFetchSuccess => match strip_headers(buffers::octets(*body), 0) {
                Ok(d) => r matches Ok(b) && buffers::octets(b) == d,
                Err(t) => r matches Err(CelebornError::Protocol(m)) && m@ == t,
            },
            MessageType::ChunkFetchFailure => r matches Err(CelebornError::FetchFailed(m)) && m@
                == "Chunk fetch failed for stream "@ + text::int_text(stream_id as int) + " chunk "@
                + text::int_text(chunk_index as int),
            _ => r matches Err(CelebornError::Protocol(m)) && m@ == "Unexpected response type "@
                + message::type_label(message_type) + " for chunk fetch"@,
        }
    }

    /// What the answer to a chunk request gives: the data of its batches, or why there is
    /// none.
    pub fn chunk_response(
        message_type: MessageType,
        body: &Bytes,
        stream_id: i64,
        chunk_index: i32,
    ) -> (r: Result<Bytes>)
        requires
            message_type is ChunkFetchSuccess ==> sizes_readable(buffers::octets(*body), 0),
        ensures
            Self::chunk_read(message_type, body, stream_id, chunk_index, r),
    {
        match Self::raw_chunk(message_type, body, stream_id, chunk_index) {
            Ok(chunk) => Self::parse_chunk_batches(buffers::bytes_as_slice(&chunk)),
            Err(e) => Err(e),
        }
    }

    /// What the answer to a chunk request gives: the chunk with its batches as they were
    /// pushed, or why there is none.
    pub fn raw_chunk(
        message_type: MessageType,
        body: &Bytes,
        stream_id: i64,
        chunk_index: i32,
    ) -> (r: Result<Bytes>)
        ensures
            match message_type {
                MessageType::ChunkFetchSuccess => r matches Ok(b) && buffers::octets(b)
                    == buffers::octets(*body),
                MessageType::ChunkFetchFailure => r matches Err(CelebornError::FetchFailed(m)) && m@
                    == "Chunk fetch failed for stream "@ + text::int_text(stream_id as int) + " chunk "@
                    + text::int_text(chunk_index as int),
                _ => r matches Err(CelebornError::Protocol(m)) && m@ == "Unexpected response type "@
                    + message::type_label(message_type) + " for chunk fetch"@,
            },
    {
        match message_type {
            MessageType::ChunkFetchSuccess => Ok(buffers::bytes_clone(body)),
            MessageType::ChunkFetchFailure => {
                let mut m: String = String::from_str("Chunk fetch failed for stream ");
                text::append_i64(&mut m, stream_id);
                m.append(" chunk ");
                text::append_i64(&mut m, chunk_index as i64);
                Err(CelebornError::FetchFailed(m))
            },
            _ => {
                let mut m: String = text::join("Unexpected response type ", message_type.name());
                m.append(" for chunk fetch");
                Err(CelebornError::Protocol(m))
            },
        }
    }

    /// Parse chunk data containing one or more batches: their data without the headers.
    pub fn parse_chunk_batches(chunk_data: &[u8]) -> (r: Result<Bytes>)
        requires
            sizes_readable(chunk_data@, 0),
        ensures
            match strip_headers(chunk_data@, 0) {
                Ok(d) => r matches Ok(b) && buffers::octets(b) == d,
                Err(t) => r matches Err(CelebornError::Protocol(m)) && m@ == t,
            },
    {
        let len: usize = chunk_data.len();
        let mut result: Vec<u8> = Vec::new();
        let mut offset: usize = 0;
        assert(chunk_data@.skip(0) =~= chunk_data@);
        while len - offset >= BatchHeader::SIZE
            invariant
                len == chunk_data@.len(),
                offset <= len,
                match strip_headers(chunk_data@.skip(offset as int), offset as int) {
                    Ok(d) => strip_headers(chunk_data@, 0) == Ok::<Seq<u8>, Seq<char>>(result@ + d),
                    Err(t) => strip_headers(chunk_data@, 0) == Err::<Seq<u8>, Seq<char>>(t),
                },
            decreases len - offset,
        {
            let ghost rest = chunk_data@.skip(offset as int);
            let size: i32 = wire::read_i32_le(chunk_data, offset + 12);
            assert(chunk_data@.subrange(offset + 12, offset + 16) =~= rest.subrange(12, 16));
            let ghost before = offset as int;
            offset = offset + BatchHeader::SIZE;
            assert(rest.skip(16) =~= chunk_data@.skip(offset as int));
            if size < 0 || len - offset < size as usize {
                let shown: u64 = if size < 0 {
                    (size as i128 + 0x1_0000_0000_0000_0000) as u64
                } else {
                    size as u64
                };
                let mut m: String = String::from_str("Batch data size ");
                text::append_u64(&mut m, shown);
                m.append(" exceeds remaining chunk data ");
                text::append_u64(&mut m, (len - offset) as u64);
                m.append(" at offset ");
                text::append_u64(&mut m, offset as u64);
                return Err(CelebornError::Protocol(m));
            }
            let end: usize = offset + size as usize;
            let data: &[u8] = slice_subrange(chunk_data, offset, end);
            let ghost result0 = result@;
            result.extend_from_slice(data);
            proof {
                assert(result@ =~= result0 + data@);
                assert(data@ =~= rest.skip(16).take(size as int));
                assert(rest.skip(16).skip(size as int) =~= chunk_data@.skip(end as int));
                match strip_headers(chunk_data@.skip(end as int), end as int) {
                    Ok(d) => {
                        assert(result0 + (data@ + d) =~= result@ + d);
                    },
                    Err(t) => {},
                }
            }
            offset = end;
        }
        assert(result@ + Seq::<u8>::empty() =~= result@);
        Ok(buffers::bytes_from_vec(result))
    }

    /// Whether the sizes in a chunk can be read.
    pub fn can_parse_chunk(chunk_data: &[u8]) -> (r: bool)
        ensures
            r == sizes_readable(chunk_data@, 0),
    {
        let len: usize = chunk_data.len();
        let mut offset: usize = 0;
        assert(chunk_data@.skip(0) =~= chunk_data@);
        while len - offset >= BatchHeader::SIZE
            invariant
                len == chunk_data@.len(),
                offset <= len,
                sizes_readable(chunk_data@.skip(offset as int), offset as int) == sizes_readable(
                    chunk_data@,
                    0,
                ),
            decreases len - offset,
        {
            let ghost rest = chunk_data@.skip(offset as int);
            let size: i32 = wire::read_i32_le(chunk_data, offset + 12);
            assert(chunk_data@.subrange(offset + 12, offset + 16) =~= rest.subrange(12, 16));
            offset = offset + BatchHeader::SIZE;
            assert(rest.skip(16) =~= chunk_data@.skip(offset as int));
            if size < 0 {
                return (-(size as i64)) as u64 > offset as u64;
            }
            if len - offset < size as usize {
                return true;
            }
            offset = offset + size as usize;
            assert(rest.skip(16).skip(size as int) =~= chunk_data@.skip(offset as int));
        }
        true
    }

    /// Decompress data using the configured codec.
    pub fn decompress_data(codec: &CompressionCodec, data: &Bytes) -> (r: Result<Bytes>)
        ensures
            compression::unpack_reported(r, compression::unpacked(*codec, buffers::octets(*data))),
    {
        compression::decompress_data(*codec, data)
    }

    /// What is left once a chunk arrived.
    pub open spec fn arrived(
        &self,
        after: &WorkerPartitionReader,
        outcome: Result<Bytes>,
    ) -> bool {
        &&& after.closed == self.closed
        &&& after.return_chunk_index == self.return_chunk_index
        &&& after.fetch_chunk_index == self.fetch_chunk_index
        &&& after.in_flight_requests == self.in_flight_requests - 1
        &&& after.chunk_queue@.len() == self.chunk_queue@.len() + 1
        &&& after.chunk_queue@.drop_last() == self.chunk_queue@
        &&& queued_as(
            self.config.compression_codec,
            outcome,
            after.chunk_queue@.last(),
        )
    }

    /// Queues what a fetch gave.
    pub fn chunk_arrived(&mut self, outcome: Result<Bytes>)
        requires
            old(self).wf(),
            old(self).in_flight_requests > 0,
        ensures
            final(self).wf(),
            final(self).same_stream(old(self)),
            old(self).arrived(final(self), outcome),
    {
        let result: ChunkResult = match outcome {
            Ok(data) => match Self::decompress_data(&self.config.compression_codec, &data) {
                Ok(d) => ChunkResult::Success(d),
                Err(e) => ChunkResult::Failure(e.to_string()),
            },
            Err(e) => ChunkResult::Failure(e.to_string()),
        };
        self.chunk_queue.push_back(result);
        assert(self.chunk_queue@.drop_last() =~= old(self).chunk_queue@);
        self.in_flight_requests = self.in_flight_requests - 1;
    }

    /// Get the stream ID.
    pub fn stream_id(&self) -> (r: i64)
        ensures
            r == self.stream_id,
    {
        self.stream_id
    }

    /// Get the total number of chunks.
    pub fn num_chunks(&self) -> (r: i32)
        ensures
            r == self.num_chunks,
    {
        self.num_chunks
    }

    /// Get the number of chunks already returned.
    pub fn chunks_returned(&self) -> (r: i32)
        ensures
            r == self.return_chunk_index,
    {
        self.return_chunk_index
    }

    /// Get the partition location this reader is reading from.
    pub fn get_location(&self) -> (r: &PartitionLocation)
        ensures
            *r == self.location,
    {
        &self.location
    }

    /// Check if there are more chunks available to read.
    pub fn has_next(&self) -> (r: bool)
        ensures
            r == (!self.closed && self.exception is None && self.return_chunk_index < self.num_chunks),
    {
        if self.closed {
            return false;
        }
        if self.exception.is_some() {
            return false;
        }
        self.return_chunk_index < self.num_chunks
    }

    /// Whether a chunk is taken next, or there is none to be had.
    pub open spec fn next_turned(&self, r: NextTurn) -> bool {
        if self.closed {
            r matches NextTurn::Return(Ok(None))
        } else if self.exception is Some {
            r matches NextTurn::Return(Err(CelebornError::FetchFailed(m))) && m@
                == self.exception->0@
        } else if self.return_chunk_index >= self.num_chunks {
            r matches NextTurn::Return(Ok(None))
        } else {
            r is Take
        }
    }

    /// How to get the next chunk: the call ends at once when the reader is closed or
    /// failed, or when all chunks were returned.
    pub fn next_turn(&self) -> (r: NextTurn)
        ensures
            self.next_turned(r),
    {
        if self.closed {
            return NextTurn::Return(Ok(None));
        }
        match &self.exception {
            Some(m) => {
                return NextTurn::Return(Err(CelebornError::FetchFailed(m.clone())));
            },
            None => {},
        }
        if self.return_chunk_index >= self.num_chunks {
            return NextTurn::Return(Ok(None));
        }
        NextTurn::Take
    }

    /// Takes the chunk at the front of the queue. Without one the call ends when nothing
    /// is left to fetch and nothing is in flight.
    pub fn take_turn(&mut self) -> (r: TakeTurn)
        requires
            old(self).wf(),
            !old(self).closed,
        ensures
            final(self).wf(),
            old(self).took(final(self), r),
    {
        if self.chunk_queue.len() > 0 {
            let ghost q0 = self.chunk_queue@;
            let front: Option<ChunkResult> = self.chunk_queue.pop_front();
            assert(self.chunk_queue@ =~= q0.drop_first());
            self.return_chunk_index = self.return_chunk_index + 1;
            return match front {
                Some(ChunkResult::Success(data)) => TakeTurn::Return(Ok(Some(data))),
                Some(ChunkResult::Failure(m)) => TakeTurn::Return(Err(CelebornError::FetchFailed(m))),
                Some(ChunkResult::EndOfStream) => TakeTurn::Return(Ok(None)),
                None => TakeTurn::Wait,
            };
        }
        if self.fetch_chunk_index >= self.num_chunks && self.in_flight_requests == 0 {
            return TakeTurn::Return(Ok(None));
        }
        TakeTurn::Wait
    }

    /// Close the reader. Says whether it was open, so that the end of the stream is to be
    /// reported to the worker; the queue is dropped then.
    pub fn close(&mut self) -> (was_open: bool)
        requires
            old(self).wf(),
        ensures
            final(self).wf(),
            was_open == !old(self).closed,
            final(self).same_stream(old(self)),
            final(self).closed,
            final(self).return_chunk_index == old(self).return_chunk_index,
            final(self).fetch_chunk_index == old(self).fetch_chunk_index,
            final(self).in_flight_requests == old(self).in_flight_requests,
            was_open ==> final(self).chunk_queue@.len() == 0,
            !was_open ==> *final(self) == *old(self),
    {
        if self.closed {
            return false;
        }
        self.closed = true;
        self.chunk_queue.clear();
        true
    }
}

/// A reader ends with every chunk handed out: where it reports no further chunk, none is
/// queued or in flight; and where none is queued, in flight or left to fetch, all were returned.
pub proof fn law_reader_ends_with_all_chunks(reader: WorkerPartitionReader)
    requires
        reader.wf(),
        !reader.closed,
    ensures
        reader.return_chunk_index >= reader.num_chunks <==> (reader.chunk_queue@.len() == 0
            && reader.in_flight_requests == 0 && reader.fetch_chunk_index >= reader.num_chunks),
{
}

/// Builder for creating WorkerPartitionReader with custom options.
pub struct WorkerPartitionReaderBuilder {
    pub config: WorkerPartitionReaderConfig,
    pub shuffle_key: String,
    pub location: PartitionLocation,
    pub start_map_index: i32,
    pub end_map_index: i32,
}

impl WorkerPartitionReaderBuilder {
    /// Create a new builder.
    pub fn new(shuffle_key: String, location: PartitionLocation) -> (r: Self)
        ensures
            r == (WorkerPartitionReaderBuilder {
                config: WorkerPartitionReaderConfig {
                    fetch_max_reqs_in_flight: 3,
                    fetch_timeout_ms: 120_000,
                    compression_codec: CompressionCodec::Uncompressed,
                    max_fetch_retries: 3,
                },
                shuffle_key,
                location,
                start_map_index: 0,
                end_map_index: i32::MAX,
            }),
    {
        WorkerPartitionReaderBuilder {
            config: WorkerPartitionReaderConfig::default(),
            shuffle_key,
            location,
            start_map_index: 0,
            end_map_index: i32::MAX,
        }
    }

    /// Set the configuration.
    pub fn config(self, config: WorkerPartitionReaderConfig) -> (r: Self)
        ensures
            r == (WorkerPartitionReaderBuilder { config, ..self }),
    {
        let mut b: WorkerPartitionReaderBuilder = self;
        b.config = config;
        b
    }

    /// Set the start map index.
    pub fn start_map_index(self, index: i32) -> (r: Self)
        ensures
            r == (WorkerPartitionReaderBuilder { start_map_index: index, ..self }),
    {
        let mut b: WorkerPartitionReaderBuilder = self;
        b.start_map_index = index;
        b
    }

    /// Set the end map index.
    pub fn end_map_index(self, index: i32) -> (r: Self)
        ensures
            r == (WorkerPartitionReaderBuilder { end_map_index: index, ..self }),
    {
        let mut b: WorkerPartitionReaderBuilder = self;
        b.end_map_index = index;
        b
    }

    /// Set the max in-flight requests.
    pub fn fetch_max_reqs_in_flight(self, count: usize) -> (r: Self)
        ensures
            r == (WorkerPartitionReaderBuilder {
                config: WorkerPartitionReaderConfig {
                    fetch_max_reqs_in_flight: count,
                    ..self.config
                },
                ..self
            }),
    {
        let mut b: WorkerPartitionReaderBuilder = self;
        b.config.fetch_max_reqs_in_flight = count;
        b
    }

    /// Set the compression codec.
    pub fn compression_codec(self, codec: CompressionCodec) -> (r: Self)
        ensures
            r == (WorkerPartitionReaderBuilder {
                config: WorkerPartitionReaderConfig { compression_codec: codec, ..self.config },
                ..self
            }),
    {
        let mut b: WorkerPartitionReaderBuilder = self;
        b.config.compression_codec = codec;
        b
    }

    /// The request that opens the stream of the reader to be built.
    pub fn open_request(&self) -> (r: PbOpenStream)
        ensures
            r.shuffle_key@ == self.shuffle_key@,
            r.file_name@ == protocol::file_name_text(
                self.location.id,
                self.location.epoch,
                self.location.mode,
            ),
            r.start_index == self.start_map_index,
            r.end_index == self.end_map_index,
            r.initial_credit == 0,
            !r.read_local_shuffle,
    {
        WorkerPartitionReader::open_request(
            self.shuffle_key.as_str(),
            &self.location,
            self.start_map_index,
            self.end_map_index,
        )
    }

    /// Build the reader, on the stream that the worker opened.
    pub fn build(self, stream_id: i64, num_chunks: i32) -> (r: WorkerPartitionReader)
        ensures
            r.wf(),
            r.config == self.config,
            r.shuffle_key == self.shuffle_key,
            r.location == self.location,
            r.stream_id == stream_id,
            r.num_chunks == num_chunks,
            r.return_chunk_index == 0,
            r.fetch_chunk_index == 0,
            r.in_flight_requests == 0,
            r.chunk_queue@.len() == 0,
            !r.closed,
            r.exception is None,
    {
        WorkerPartitionReader::new(
            self.config,
            self.shuffle_key,
            self.location,
            stream_id,
            num_chunks,
        )
    }
}

} // verus!
