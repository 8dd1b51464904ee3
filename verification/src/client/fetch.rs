//! Data fetch from Celeborn workers: the chunks of the locations of a partition, one
//! after the other. The exchange with the workers is left to the caller.

use std::collections::VecDeque;

use bytes::Bytes;
use vstd::prelude::*;
use vstd::string::*;

use crate::buffers;
use crate::client::compression;
use crate::config::CelebornConfig;
use crate::error::{CelebornError, Result};
use crate::network::codec::Frame;
use crate::network::connection::{ConnectionPool, PoolEntry};
use crate::protocol;
use crate::protocol::message;
use crate::protocol::message::{
    ChunkFetchRequest, ChunkFetchSuccess, MessageType, OpenStream, StreamHandle,
};
use crate::protocol::{Decodable, Encodable, LocationModel, Outcome, PartitionLocation};
use crate::text;

verus! {

/// State for an open stream.
pub struct StreamState {
    /// Stream ID
    pub stream_id: i64,
    /// Number of chunks
    pub num_chunks: i32,
    /// Current chunk index
    pub current_chunk: i32,
    /// Partition location
    pub location: PartitionLocation,
}

/// What happened to an iterator.
pub enum NextEvent {
    /// The next chunk is wanted
    Begin,
    /// A stream was opened, or not
    Opened(Result<StreamState>),
    /// A chunk was fetched, or not; `None` where the stream has no more
    Fetched(Result<Option<Bytes>>),
}

/// What is to be done for an iterator.
pub enum NextAction {
    /// Open a stream for a location
    Open(PartitionLocation),
    /// Fetch a chunk of a stream
    Fetch(i64, i32),
    /// The call ends so
    Return(Result<Option<Bytes>>),
}

/// Iterator for reading shuffle data chunks.
pub struct ShuffleDataIterator {
    /// Configuration
    pub config: CelebornConfig,
    /// Shuffle key
    pub shuffle_key: String,
    /// Partition locations to read from
    pub locations: VecDeque<PartitionLocation>,
    /// Current stream state
    pub current_stream: Option<StreamState>,
    /// Connection pool
    pub connection_pool: ConnectionPool,
    /// Buffered chunks
    pub buffered_chunks: VecDeque<Bytes>,
    /// Whether iteration is complete
    pub finished: bool,
}

/// What an iterator says.
#[verifier::ext_equal]
pub struct IteratorModel {
    pub locations: Seq<PartitionLocation>,
    pub stream: Option<StreamState>,
    pub chunks: Seq<Bytes>,
    pub finished: bool,
}

/// Whether the stream has a chunk left.
pub open spec fn has_chunk(s: Option<StreamState>) -> bool {
    s matches Some(t) && t.current_chunk < t.num_chunks
}

/// How an iterator goes on: a buffered chunk, the next chunk of the stream, the next
/// location, or the end, in this order.
pub open spec fn went_on(before: IteratorModel, after: IteratorModel, action: NextAction) -> bool {
    if before.finished {
        after == before && action == NextAction::Return(Ok(None))
    } else if before.chunks.len() > 0 {
        &&& after == (IteratorModel { chunks: before.chunks.drop_first(), ..before })
        &&& action == NextAction::Return(Ok(Some(before.chunks[0])))
    } else if has_chunk(before.stream) {
        &&& after == before
        &&& action == NextAction::Fetch(before.stream->0.stream_id, before.stream->0.current_chunk)
    } else if before.locations.len() > 0 {
        &&& after == (IteratorModel {
            locations: before.locations.drop_first(),
            stream: None,
            ..before
        })
        &&& action == NextAction::Open(before.locations[0])
    } else {
        &&& after == (IteratorModel { stream: None, finished: true, ..before })
        &&& action == NextAction::Return(Ok(None))
    }
}

/// How an iterator goes on after an event. A location whose stream cannot be opened or has
/// no chunks is passed over, and so is the rest of a stream that fails.
pub open spec fn turned(
    codec: crate::config::CompressionCodec,
    before: IteratorModel,
    event: NextEvent,
    after: IteratorModel,
    action: NextAction,
) -> bool {
    match event {
        NextEvent::Begin => went_on(before, after, action),
        NextEvent::Opened(Ok(s)) => if s.num_chunks > 0 {
            went_on(IteratorModel { stream: Some(s), ..before }, after, action)
        } else {
            went_on(before, after, action)
        },
        NextEvent::Opened(Err(_)) => went_on(before, after, action),
        NextEvent::Fetched(Ok(Some(chunk))) => {
            let s = before.stream->0;
            &&& after == (IteratorModel {
                stream: Some(
                    StreamState { current_chunk: (s.current_chunk + 1) as i32, ..s },
                ),
                ..before
            })
            &&& action matches NextAction::Return(r)
            &&& unpacked_chunk(r, compression::unpacked(codec, buffers::octets(chunk)))
        },
        NextEvent::Fetched(_) => went_on(IteratorModel { stream: None, ..before }, after, action),
    }
}

/// Whether `r` is the chunk that was unpacked, or the error of it.
pub open spec fn unpacked_chunk(
    r: Result<Option<Bytes>>,
    outcome: std::result::Result<Seq<u8>, Seq<char>>,
) -> bool {
    match outcome {
        Ok(d) => r matches Ok(Some(b)) && buffers::octets(b) == d,
        Err(t) => r matches Err(CelebornError::Compression(m)) && m@ == t,
    }
}

/// How much an iterator has left to do: locations, and chunks of the open stream.
pub open spec fn locations_left(m: IteratorModel) -> nat {
    m.locations.len()
}

/// An iterator ends: each turn without a chunk that fails or opens nothing new leaves
/// fewer locations, and a finished iterator stays so.
pub proof fn law_iterator_ends(
    codec: crate::config::CompressionCodec,
    before: IteratorModel,
    event: NextEvent,
    after: IteratorModel,
    action: NextAction,
)
    requires
        turned(codec, before, event, after, action),
    ensures
        action is Open ==> locations_left(after) < locations_left(before),
        locations_left(after) <= locations_left(before),
        event is Begin && before.finished ==> after == before && action == NextAction::Return(Ok(None)),
        event is Begin && !(action is Open) && !(action is Fetch) && before.chunks.len() == 0
            ==> after.finished,
{
}

/// The file that a location is read from: the one that its storage information names, else
/// `shuffle key/unique id`.
pub open spec fn stream_file(shuffle_key: Seq<char>, l: LocationModel) -> Seq<char> {
    match l.storage_info {
        Some(s) => s.file_path,
        None => shuffle_key + seq!['/'] + protocol::unique_id_text(l.id, l.epoch),
    }
}

impl ShuffleDataIterator {
    /// What the iterator still has to read.
    pub open spec fn model(&self) -> IteratorModel {
        IteratorModel {
            locations: self.locations@,
            stream: self.current_stream,
            chunks: self.buffered_chunks@,
            finished: self.finished,
        }
    }

    /// Whether the settings are those of `other`.
    pub open spec fn same_settings(&self, other: &ShuffleDataIterator) -> bool {
        self.config == other.config && self.shuffle_key == other.shuffle_key && self.connection_pool
            == other.connection_pool
    }

    /// Create a new shuffle data iterator.
    pub fn new(config: CelebornConfig, shuffle_key: String, locations: Vec<PartitionLocation>) -> (r:
        Self)
        ensures
            r.config == config,
            r.shuffle_key == shuffle_key,
            r.connection_pool.pool_size == config.connection_pool_size,
            r.connection_pool.max_in_flight == config.max_in_flight_requests,
            r.connection_pool.entries() == Map::<Seq<char>, PoolEntry>::empty(),
            r.model() == (IteratorModel {
                locations: locations@,
                stream: None,
                chunks: Seq::<Bytes>::empty(),
                finished: false,
            }),
    {
        let connection_pool: ConnectionPool = ConnectionPool::new(
            config.connection_pool_size,
            config.max_in_flight_requests,
        );
        let ghost all = locations@;
        let mut rest: Vec<PartitionLocation> = locations;
        let mut queue: VecDeque<PartitionLocation> = VecDeque::new();
        let n: usize = rest.len();
        let mut i: usize = 0;
        while i < n
            invariant
                n == all.len(),
                i <= n,
                rest@ == all.skip(i as int),
                queue@ == all.take(i as int),
            decreases n - i,
        {
            let l: PartitionLocation = rest.remove(0);
            assert(rest@ =~= all.skip(i + 1));
            queue.push_back(l);
            assert(queue@ =~= all.take(i + 1));
            i += 1;
        }
        assert(queue@ =~= all);
        ShuffleDataIterator {
            config,
            shuffle_key,
            locations: queue,
            current_stream: None,
            connection_pool,
            buffered_chunks: VecDeque::new(),
            finished: false,
        }
    }

    /// Get the next chunk of data: what is to be done for it after an event.
    pub fn next(&mut self, event: NextEvent) -> (r: NextAction)
        requires
            event is Fetched ==> has_chunk(old(self).current_stream),
        ensures
            final(self).same_settings(old(self)),
            turned(
                old(self).config.compression_codec,
                old(self).model(),
                event,
                final(self).model(),
                r,
            ),
    {
        match event {
            NextEvent::Begin => {},
            NextEvent::Opened(outcome) => match outcome {
                Ok(stream) => {
                    if stream.num_chunks > 0 {
                        self.current_stream = Some(stream);
                    }
                },
                Err(_) => {},
            },
            NextEvent::Fetched(outcome) => match outcome {
                Ok(Some(chunk)) => {
                    match self.current_stream.take() {
                        Some(s) => {
                            let mut s: StreamState = s;
                            s.current_chunk = s.current_chunk + 1;
                            self.current_stream = Some(s);
                        },
                        None => {},
                    }
                    return match self.decompress_data(&chunk) {
                        Ok(d) => NextAction::Return(Ok(Some(d))),
                        Err(e) => NextAction::Return(Err(e)),
                    };
                },
                _ => {
                    self.current_stream = None;
                },
            },
        }
        self.go_on()
    }

    /// Goes on without an event.
    fn go_on(&mut self) -> (r: NextAction)
        ensures
            final(self).same_settings(old(self)),
            went_on(old(self).model(), final(self).model(), r),
    {
        if self.finished {
            return NextAction::Return(Ok(None));
        }
        let ghost chunks0 = self.buffered_chunks@;
        if self.buffered_chunks.len() > 0 {
            let chunk: Option<Bytes> = self.buffered_chunks.pop_front();
            assert(self.buffered_chunks@ =~= chunks0.drop_first());
            return NextAction::Return(Ok(chunk));
        }
        match &self.current_stream {
            Some(s) => {
                if s.current_chunk < s.num_chunks {
                    return NextAction::Fetch(s.stream_id, s.current_chunk);
                }
            },
            None => {},
        }
        self.current_stream = None;
        let ghost locations0 = self.locations@;
        match self.locations.pop_front() {
            Some(location) => {
                assert(self.locations@ =~= locations0.drop_first());
                NextAction::Open(location)
            },
            None => {
                assert(self.locations@ =~= locations0);
                self.finished = true;
                NextAction::Return(Ok(None))
            },
        }
    }

    /// Check if there are more chunks available.
    pub fn has_next(&self) -> (r: bool)
        ensures
            r == (!self.finished && (self.buffered_chunks@.len() > 0 || has_chunk(
                self.current_stream,
            ) || self.locations@.len() > 0)),
    {
        if self.finished {
            return false;
        }
        if self.buffered_chunks.len() > 0 {
            return true;
        }
        match &self.current_stream {
            Some(s) => {
                if s.current_chunk < s.num_chunks {
                    return true;
                }
            },
            None => {},
        }
        self.locations.len() > 0
    }

    /// The request that opens a stream for a location.
    pub fn open_request(&self, location: &PartitionLocation) -> (r: OpenStream)
        ensures
            r.shuffle_key@ == self.shuffle_key@,
            r.file_name@ == stream_file(self.shuffle_key@, location.model()),
            r.start_index == 0,
            r.end_index == i32::MAX,
    {
        let file_name: String = match &location.storage_info {
            Some(s) => s.file_path.clone(),
            None => {
                proof {
                    reveal_strlit("/");
                }
                let mut name: String = text::join(self.shuffle_key.as_str(), "/");
                let id: String = location.unique_id();
                name.append(id.as_str());
                assert(name@ =~= stream_file(self.shuffle_key@, location.model()));
                name
            },
        };
        OpenStream { shuffle_key: self.shuffle_key.clone(), file_name, start_index: 0, end_index: i32::MAX }
    }

    /// The body of the request that opens a stream: the message behind its type byte.
    pub fn open_body(request: &OpenStream) -> (r: Bytes)
        requires
            request.wire().len() <= isize::MAX,
        ensures
            buffers::octets(r) == request.wire().skip(1),
    {
        let encoded: Bytes = buffers::buffer_freeze(request.encode_to_bytes());
        let len: usize = buffers::bytes_len(&encoded);
        let body: Bytes = buffers::bytes_slice(&encoded, 1, len);
        assert(buffers::octets(body) =~= request.wire().skip(1));
        body
    }

    /// Open a stream to read from a partition location: what the answer says.
    pub fn open_stream(response: &Frame, location: &PartitionLocation) -> (r: Result<StreamState>)
        ensures
            if !(response.message_type is StreamHandle) {
                r matches Err(CelebornError::Protocol(m)) && m@ == "Expected StreamHandle, got "@
                    + message::type_label(response.message_type)
            } else {
                match StreamHandle::parse(response@.message).0 {
                    Outcome::Done(h) => r matches Ok(s) && s.stream_id == h.stream_id && s.num_chunks
                        == h.num_chunks && s.current_chunk == 0 && s.location.model() == location.model(),
                    Outcome::Fault(k, m) => r matches Err(CelebornError::Io(e)) && e.kind == k
                        && e.message@ == m,
                }
            },
    {
        match response.message_type {
            MessageType::StreamHandle => {},
            _ => {
                return Err(
                    CelebornError::Protocol(
                        text::join("Expected StreamHandle, got ", response.message_type.name()),
                    ),
                );
            },
        }
        let mut payload: Bytes = buffers::bytes_clone(&response.message);
        match StreamHandle::decode(&mut payload) {
            Ok(h) => Ok(
                StreamState {
                    stream_id: h.stream_id,
                    num_chunks: h.num_chunks,
                    current_chunk: 0,
                    location: location.clone(),
                },
            ),
            Err(e) => Err(CelebornError::Io(e)),
        }
    }

    /// The body of the request for a whole chunk: the message behind its type byte.
    pub fn chunk_body(stream_id: i64, chunk_index: i32) -> (r: Bytes)
        ensures
            buffers::octets(r) == (ChunkFetchRequest {
                stream_id,
                chunk_index,
                offset: 0,
                len: 0,
            }).wire().skip(1),
    {
        broadcast use crate::wire::lemma_be_len;
        let request: ChunkFetchRequest = ChunkFetchRequest { stream_id, chunk_index, offset: 0, len: 0 };
        let encoded: Bytes = buffers::buffer_freeze(request.encode_to_bytes());
        let len: usize = buffers::bytes_len(&encoded);
        let body: Bytes = buffers::bytes_slice(&encoded, 1, len);
        assert(buffers::octets(body) =~= request.wire().skip(1));
        body
    }

    /// Fetch a chunk from the current stream: what the answer says.
    pub fn fetch_chunk(response: &Frame, stream_id: i64, chunk_index: i32) -> (r: Result<Option<Bytes>>)
        ensures
            match response.message_type {
                MessageType::ChunkFetchSuccess => match ChunkFetchSuccess::parse(response@.message).0 {
                    Outcome::Done(s) => r matches Ok(Some(b)) && buffers::octets(b) == s.2,
                    Outcome::Fault(k, m) => r matches Err(CelebornError::Io(e)) && e.kind == k
                        && e.message@ == m,
                },
                MessageType::ChunkFetchFailure => r matches Err(CelebornError::FetchFailed(m)) && m@
                    == "Chunk fetch failed for stream "@ + text::int_text(stream_id as int)
                    + " chunk "@ + text::int_text(chunk_index as int),
                _ => r matches Err(CelebornError::Protocol(m)) && m@ == "Unexpected response type: "@
                    + message::type_label(response.message_type),
            },
    {
        match response.message_type {
            MessageType::ChunkFetchSuccess => {
                let mut payload: Bytes = buffers::bytes_clone(&response.message);
                match ChunkFetchSuccess::decode(&mut payload) {
                    Ok(success) => Ok(Some(success.body)),
                    Err(e) => Err(CelebornError::Io(e)),
                }
            },
            MessageType::ChunkFetchFailure => {
                let mut m: String = "Chunk fetch failed for stream ".to_owned();
                text::append_i64(&mut m, stream_id);
                m.append(" chunk ");
                text::append_i64(&mut m, chunk_index as i64);
                Err(CelebornError::FetchFailed(m))
            },
            _ => Err(
                CelebornError::Protocol(
                    text::join("Unexpected response type: ", response.message_type.name()),
                ),
            ),
        }
    }

    /// Decompress data using the configured codec.
    pub fn decompress_data(&self, data: &Bytes) -> (r: Result<Bytes>)
        ensures
            compression::unpack_reported(
                r,
                compression::unpacked(self.config.compression_codec, buffers::octets(*data)),
            ),
    {
        compression::decompress_data(self.config.compression_codec, data)
    }

    /// Get the total number of locations.
    pub fn num_locations(&self) -> (r: usize)
        requires
            self.locations@.len() < usize::MAX,
        ensures
            r == self.locations@.len() + (if self.current_stream is Some {
                1int
            } else {
                0int
            }),
    {
        let extra: usize = if self.current_stream.is_some() {
            1
        } else {
            0
        };
        self.locations.len() + extra
    }
}

/// Builder for creating a shuffle data reader with more options.
pub struct ShuffleDataReaderBuilder {
    pub config: CelebornConfig,
    pub shuffle_key: String,
    pub locations: Vec<PartitionLocation>,
    pub start_chunk: Option<i32>,
    pub end_chunk: Option<i32>,
    pub prefetch_chunks: usize,
}

impl ShuffleDataReaderBuilder {
    /// Create a new builder.
    pub fn new(config: CelebornConfig, shuffle_key: String, locations: Vec<PartitionLocation>) -> (r:
        Self)
        ensures
            r == (ShuffleDataReaderBuilder {
                config,
                shuffle_key,
                locations,
                start_chunk: None,
                end_chunk: None,
                prefetch_chunks: 2,
            }),
    {
        ShuffleDataReaderBuilder {
            config,
            shuffle_key,
            locations,
            start_chunk: None,
            end_chunk: None,
            prefetch_chunks: 2,
        }
    }

    /// Set the start chunk index.
    pub fn start_chunk(self, index: i32) -> (r: Self)
        ensures
            r == (ShuffleDataReaderBuilder { start_chunk: Some(index), ..self }),
    {
        let mut b: ShuffleDataReaderBuilder = self;
        b.start_chunk = Some(index);
        b
    }

    /// Set the end chunk index.
    pub fn end_chunk(self, index: i32) -> (r: Self)
        ensures
            r == (ShuffleDataReaderBuilder { end_chunk: Some(index), ..self }),
    {
        let mut b: ShuffleDataReaderBuilder = self;
        b.end_chunk = Some(index);
        b
    }

    /// Set the number of chunks to prefetch.
    pub fn prefetch_chunks(self, count: usize) -> (r: Self)
        ensures
            r == (ShuffleDataReaderBuilder { prefetch_chunks: count, ..self }),
    {
        let mut b: ShuffleDataReaderBuilder = self;
        b.prefetch_chunks = count;
        b
    }

    /// Build the iterator.
    pub fn build(self) -> (r: ShuffleDataIterator)
        ensures
            r.config == self.config,
            r.shuffle_key == self.shuffle_key,
            r.connection_pool.pool_size == self.config.connection_pool_size,
            r.connection_pool.max_in_flight == self.config.max_in_flight_requests,
            r.connection_pool.entries() == Map::<Seq<char>, PoolEntry>::empty(),
            r.model() == (IteratorModel {
                locations: self.locations@,
                stream: None,
                chunks: Seq::<Bytes>::empty(),
                finished: false,
            }),
    {
        ShuffleDataIterator::new(self.config, self.shuffle_key, self.locations)
    }
}

} // verus!
