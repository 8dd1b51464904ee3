//! Reading shuffle data from several partition locations as one stream.
//!
//! A stream walks over its locations, opens a reader for each, takes chunks from the
//! readers, and hands out the data of the batches in the chunks. Opening a reader,
//! asking it for a chunk and waiting are left to the caller: each `.._turn` method says
//! what to do next, and the caller reports back how it went.

use std::collections::HashSet;

use bytes::Bytes;
use rand::seq::SliceRandom;
use roaring::RoaringBitmap;
use vstd::prelude::*;
use vstd::string::*;

use crate::buffers;
use crate::client::compression;
use crate::config;
use crate::config::{CelebornConfig, CompressionCodec};
use crate::protocol::{LocationModel, PartitionLocation};
use crate::string_map::StringMap;
use crate::tables::WorkerTimes;
use crate::text;
use crate::time;
use crate::wire;

verus! {

broadcast use vstd::std_specs::hash::group_hash_axioms;

/// Batch header size: mapId (4) + attemptId (4) + batchId (4) + size (4)
pub const BATCH_HEADER_SIZE: usize = 16;

/// Largest batch that is read.
pub const MAX_BATCH_SIZE: usize = 1024 * 1024 * 1024;

/// How often the first chunk is looked for.
pub const MAX_MOVE_ATTEMPTS: usize = 1000;

/// How many batches and chunks are looked at to find the next batch.
pub const MAX_LOOP_ITERATIONS: usize = 10000;

/// `roaring::RoaringBitmap`, a set of 32-bit integers.
#[verifier::external_type_specification]
#[verifier::external_body]
pub struct ExRoaringBitmap(roaring::RoaringBitmap);

/// The integers in a bitmap.
pub uninterp spec fn members(b: RoaringBitmap) -> Set<u32>;

/// `RoaringBitmap::contains`: whether the integer is in the bitmap.
#[verifier::external_body]
pub(crate) fn bitmap_contains(b: &RoaringBitmap, value: u32) -> (r: bool)
    ensures
        r == members(*b).contains(value),
{
    b.contains(value)
}

/// `SliceRandom::shuffle` with the generator of the thread: the same locations in some
/// order. Which order is left to chance.
#[verifier::external_body]
pub(crate) fn shuffle_locations(locations: &mut Vec<PartitionLocation>)
    ensures
        final(locations)@.to_multiset() == old(locations)@.to_multiset(),
        final(locations)@.len() == old(locations)@.len(),
{
    locations.shuffle(&mut rand::thread_rng());
}

/// Push failed batch information for deduplication.
#[derive(Debug, Clone, Copy, PartialEq, Eq, Hash, Structural)]
pub struct PushFailedBatch {
    /// Map ID
    pub map_id: i32,
    /// Attempt ID
    pub attempt_id: i32,
    /// Batch ID
    pub batch_id: i32,
}

impl PushFailedBatch {
    /// Create a new PushFailedBatch.
    pub fn new(map_id: i32, attempt_id: i32, batch_id: i32) -> (r: Self)
        ensures
            r == (PushFailedBatch { map_id, attempt_id, batch_id }),
    {
        PushFailedBatch { map_id, attempt_id, batch_id }
    }
}

/// Chunk range for skew partition reading.
#[derive(Debug, Clone, Copy)]
pub struct ChunkRange {
    /// Start chunk index (inclusive)
    pub start_chunk_index: i32,
    /// End chunk index (exclusive)
    pub end_chunk_index: i32,
}

impl ChunkRange {
    /// Create a new ChunkRange.
    pub fn new(start: i32, end: i32) -> (r: Self)
        ensures
            r == (ChunkRange { start_chunk_index: start, end_chunk_index: end }),
    {
        ChunkRange { start_chunk_index: start, end_chunk_index: end }
    }
}

/// Configuration for CelebornInputStream.
#[derive(Debug)]
pub struct CelebornInputStreamConfig {
    /// Maximum retries for fetch operations per replica
    pub fetch_max_retries_per_replica: u32,
    /// Retry wait time in milliseconds
    pub retry_wait_ms: u64,
    /// Whether push replication is enabled
    pub push_replicate_enabled: bool,
    /// Whether to exclude workers on fetch failure
    pub fetch_exclude_worker_on_failure: bool,
    /// Excluded worker expiration timeout in milliseconds
    pub fetch_excluded_worker_expire_timeout_ms: u64,
    /// Whether compression is enabled
    pub compression_enabled: bool,
    /// Compression codec
    pub compression_codec: CompressionCodec,
    /// Fetch buffer size
    pub fetch_buffer_size: usize,
    /// Range read filter enabled
    pub range_read_filter_enabled: bool,
    /// Fetch max requests in flight
    pub fetch_max_reqs_in_flight: usize,
    /// Fetch timeout
    pub fetch_timeout_ms: u64,
    /// Enable local shuffle file reading
    pub enable_read_local_shuffle: bool,
    /// Local host address for local shuffle detection
    pub local_host_address: String,
    /// Split skew partition without map range
    pub split_skew_partition_without_map_range: bool,
}

impl Clone for CelebornInputStreamConfig {
    fn clone(&self) -> (r: Self)
        ensures
            r == *self,
    {
        CelebornInputStreamConfig {
            fetch_max_retries_per_replica: self.fetch_max_retries_per_replica,
            retry_wait_ms: self.retry_wait_ms,
            push_replicate_enabled: self.push_replicate_enabled,
            fetch_exclude_worker_on_failure: self.fetch_exclude_worker_on_failure,
            fetch_excluded_worker_expire_timeout_ms: self.fetch_excluded_worker_expire_timeout_ms,
            compression_enabled: self.compression_enabled,
            compression_codec: self.compression_codec,
            fetch_buffer_size: self.fetch_buffer_size,
            range_read_filter_enabled: self.range_read_filter_enabled,
            fetch_max_reqs_in_flight: self.fetch_max_reqs_in_flight,
            fetch_timeout_ms: self.fetch_timeout_ms,
            enable_read_local_shuffle: self.enable_read_local_shuffle,
            local_host_address: self.local_host_address.clone(),
            split_skew_partition_without_map_range: self.split_skew_partition_without_map_range,
        }
    }
}

/// The settings that no client configuration changes.
pub open spec fn has_fixed_settings(c: CelebornInputStreamConfig) -> bool {
    &&& c.retry_wait_ms == 50
    &&& c.fetch_exclude_worker_on_failure
    &&& c.fetch_excluded_worker_expire_timeout_ms == 60_000
    &&& c.fetch_buffer_size == 64 * 1024
    &&& !c.range_read_filter_enabled
    &&& !c.enable_read_local_shuffle
    &&& c.local_host_address@.len() == 0
    &&& !c.split_skew_partition_without_map_range
}

/// Whether these are the default settings.
pub open spec fn is_default(c: CelebornInputStreamConfig) -> bool {
    &&& has_fixed_settings(c)
    &&& c.fetch_max_retries_per_replica == 3
    &&& !c.push_replicate_enabled
    &&& c.compression_enabled
    &&& c.compression_codec is Lz4
    &&& c.fetch_max_reqs_in_flight == 3
    &&& c.fetch_timeout_ms == 120_000
}

/// Whether these are the settings of a stream of a client.
pub open spec fn configured_by(c: CelebornInputStreamConfig, config: CelebornConfig) -> bool {
    &&& has_fixed_settings(c)
    &&& c.fetch_max_retries_per_replica == config.max_fetch_retries
    &&& c.push_replicate_enabled == config.push_replicate_enabled
    &&& c.compression_enabled == !(config.compression_codec is Uncompressed)
    &&& c.compression_codec == config.compression_codec
    &&& c.fetch_max_reqs_in_flight == config.fetch_max_reqs_in_flight
    &&& c.fetch_timeout_ms == time::millis(config.fetch_timeout)
}

impl Default for CelebornInputStreamConfig {
    fn default() -> (r: Self)
        ensures
            is_default(r),
    {
        CelebornInputStreamConfig {
            fetch_max_retries_per_replica: 3,
            retry_wait_ms: 50,
            push_replicate_enabled: false,
            fetch_exclude_worker_on_failure: true,
            fetch_excluded_worker_expire_timeout_ms: 60_000,
            compression_enabled: true,
            compression_codec: CompressionCodec::Lz4,
            fetch_buffer_size: 64 * 1024,
            range_read_filter_enabled: false,
            fetch_max_reqs_in_flight: 3,
            fetch_timeout_ms: 120_000,
            enable_read_local_shuffle: false,
            local_host_address: String::new(),
            split_skew_partition_without_map_range: false,
        }
    }
}

impl From<&CelebornConfig> for CelebornInputStreamConfig {
    fn from(config: &CelebornConfig) -> (r: Self)
        ensures
            configured_by(r, *config),
    {
        CelebornInputStreamConfig {
            fetch_max_retries_per_replica: config.max_fetch_retries,
            retry_wait_ms: 50,
            push_replicate_enabled: config.push_replicate_enabled,
            fetch_exclude_worker_on_failure: true,
            fetch_excluded_worker_expire_timeout_ms: 60_000,
            compression_enabled: config.compression_codec != CompressionCodec::Uncompressed,
            compression_codec: config.compression_codec,
            fetch_buffer_size: 64 * 1024,
            range_read_filter_enabled: false,
            fetch_max_reqs_in_flight: config.fetch_max_reqs_in_flight,
            fetch_timeout_ms: time::as_millis_u64(&config.fetch_timeout),
            enable_read_local_shuffle: false,
            local_host_address: String::new(),
            split_skew_partition_without_map_range: false,
        }
    }
}

impl vstd::std_specs::convert::FromSpecImpl<&CelebornConfig> for CelebornInputStreamConfig {
    open spec fn obeys_from_spec() -> bool {
        false
    }

    open spec fn from_spec(config: &CelebornConfig) -> Self {
        arbitrary()
    }
}

/// Metrics callback for tracking read statistics.
pub trait MetricsCallback: Send + Sync {
    /// Increment bytes read counter.
    fn inc_bytes_read(&self, bytes: usize);

    /// Increment read time counter (in nanoseconds).
    fn inc_read_time(&self, nanos: u64);
}

/// Default no-op metrics callback.
pub struct NoOpMetricsCallback;

impl MetricsCallback for NoOpMetricsCallback {
    fn inc_bytes_read(&self, bytes: usize) {
    }

    fn inc_read_time(&self, nanos: u64) {
    }
}

/// Workers that are not read from for a while, by `host:port`, with the time in
/// nanoseconds at which each was excluded.
pub struct ExcludedWorkers {
    pub workers: WorkerTimes,
}

/// The nanoseconds from `since` to `now`.
pub open spec fn elapsed(since: u64, now: u64) -> int {
    if now >= since {
        now - since
    } else {
        0
    }
}

/// The name under which the worker of a location is excluded.
pub open spec fn fetch_key(l: LocationModel) -> Seq<char> {
    text::address_text(l.host, l.fetch_port as int)
}

impl ExcludedWorkers {
    /// Whether the worker of `l` is excluded at the time `now`: it was excluded, and not
    /// longer ago than the timeout.
    pub open spec fn excludes(&self, l: LocationModel, expire_ms: u64, now: u64) -> bool {
        self.workers@.dom().contains(fetch_key(l)) && elapsed(self.workers@[fetch_key(l)], now)
            <= expire_ms * 1_000_000
    }

    /// No worker is excluded.
    pub fn new() -> (r: Self)
        ensures
            r.workers@ == Map::<Seq<char>, u64>::empty(),
    {
        ExcludedWorkers { workers: WorkerTimes::new() }
    }

    /// Check if a worker is excluded. An exclusion that ran out is forgotten.
    pub fn is_excluded(&mut self, location: &PartitionLocation, expire_ms: u64, now: u64) -> (r: bool)
        ensures
            r == old(self).excludes(location.model(), expire_ms, now),
            final(self).workers@ == (if r {
                old(self).workers@
            } else {
                old(self).workers@.remove(fetch_key(location.model()))
            }),
    {
        let key: String = location.fetch_address();
        let since: u64 = match self.workers.get(key.as_str()) {
            Some(t) => t,
            None => {
                assert(self.workers@.remove(key@) =~= self.workers@);
                return false;
            },
        };
        let gone: u64 = if now >= since { now - since } else { 0 };
        if gone as u128 > expire_ms as u128 * 1_000_000 {
            self.workers.remove(key.as_str());
            false
        } else {
            true
        }
    }

    /// Excludes the worker of a location from now on.
    pub fn exclude(&mut self, location: &PartitionLocation, now: u64)
        ensures
            final(self).workers@ == old(self).workers@.insert(fetch_key(location.model()), now),
    {
        self.workers.insert(location.fetch_address(), now);
    }
}

/// A worker that was excluded is excluded for as long as the timeout says, and no longer.
pub proof fn law_exclusion_runs_out(
    before: ExcludedWorkers,
    after: ExcludedWorkers,
    l: LocationModel,
    since: u64,
    expire_ms: u64,
    now: u64,
)
    requires
        after.workers@ == before.workers@.insert(fetch_key(l), since),
        since <= now,
    ensures
        after.excludes(l, expire_ms, now) == (now - since <= expire_ms * 1_000_000),
{
}

/// Internal state for CelebornInputStream.
pub struct InputStreamState {
    /// The location that the current reader reads from
    pub reader: Option<PartitionLocation>,
    /// Current chunk being read
    pub current_chunk: Option<Bytes>,
    /// Current position in raw data buffer
    pub position: usize,
    /// Limit of valid data in raw data buffer
    pub limit: usize,
    /// Raw data buffer (decompressed)
    pub raw_data_buf: Vec<u8>,
    /// Whether this is the first chunk
    pub first_chunk: bool,
    /// Current file/location index
    pub file_index: usize,
    /// Fetch chunk retry count
    pub fetch_chunk_retry_cnt: u32,
    /// Whether the stream is closed
    pub closed: bool,
    /// Batches already read, each by the number of its map and batch id
    pub batches_read: HashSet<u64>,
    /// Skip count for statistics
    pub skip_count: usize,
}

/// One number for a map id and a batch id.
pub open spec fn batch_key(map_id: i32, batch_id: i32) -> u64 {
    (wire::unsigned32(map_id) * 0x1_0000_0000 + wire::unsigned32(batch_id)) as u64
}

/// Different batches have different numbers.
pub proof fn law_batch_numbers_differ(m1: i32, b1: i32, m2: i32, b2: i32)
    ensures
        batch_key(m1, b1) == batch_key(m2, b2) ==> m1 == m2 && b1 == b2,
{
}

/// The number of a batch.
pub fn batch_number(map_id: i32, batch_id: i32) -> (r: u64)
    ensures
        r == batch_key(map_id, batch_id),
{
    wire::to_unsigned32(map_id) as u64 * 0x1_0000_0000 + wire::to_unsigned32(batch_id) as u64
}

/// The bytes of an optional chunk.
pub open spec fn chunk_octets(chunk: Option<Bytes>) -> Option<Seq<u8>> {
    match chunk {
        Some(c) => Some(buffers::octets(c)),
        None => None,
    }
}

impl InputStreamState {
    /// The data that can be handed out lies in the buffer.
    pub open spec fn wf(&self) -> bool {
        self.limit <= self.raw_data_buf@.len()
    }

    /// The data that can be handed out without a further chunk.
    pub open spec fn ready(&self) -> Seq<u8> {
        if self.position <= self.limit {
            self.raw_data_buf@.subrange(self.position as int, self.limit as int)
        } else {
            Seq::<u8>::empty()
        }
    }

    fn new(closed: bool) -> (r: Self)
        ensures
            r.wf(),
            r.reader is None,
            r.current_chunk is None,
            r.position == 0,
            r.limit == 0,
            r.raw_data_buf@.len() == 0,
            r.first_chunk,
            r.file_index == 0,
            r.fetch_chunk_retry_cnt == 0,
            r.closed == closed,
            r.batches_read@ == Set::<u64>::empty(),
            r.skip_count == 0,
    {
        InputStreamState {
            reader: None,
            current_chunk: None,
            position: 0,
            limit: 0,
            raw_data_buf: Vec::new(),
            first_chunk: true,
            file_index: 0,
            fetch_chunk_retry_cnt: 0,
            closed,
            batches_read: HashSet::new(),
            skip_count: 0,
        }
    }
}

/// CelebornInputStream for reading shuffle data from multiple locations.
///
/// It handles:
/// - Automatic switching between partition locations
/// - Retry with peer location on failure
/// - Batch deduplication
/// - Decompression
/// - RoaringBitmap-based range filtering
/// - Skew partition support
pub struct CelebornInputStream {
    /// Configuration
    pub config: CelebornInputStreamConfig,
    /// Shuffle key
    pub shuffle_key: String,
    /// Partition locations to read from
    pub locations: Vec<PartitionLocation>,
    /// Mapper attempts (mapId -> attemptId)
    pub attempts: Vec<i32>,
    /// Attempt number for this read
    pub attempt_number: i32,
    /// Start map index for range filter
    pub start_map_index: i32,
    /// End map index for range filter
    pub end_map_index: i32,
    /// Maximum fetch retries
    pub fetch_chunk_max_retry: u32,
    /// Total partitions to read
    pub total_partitions: usize,
    /// Failed batches for deduplication (location_unique_id -> batches)
    pub failed_batches: StringMap<Vec<PushFailedBatch>>,
    /// Partition location to chunk range mapping for skew partition
    pub partition_location_to_chunk_range: Option<StringMap<ChunkRange>>,
    /// MapId bitmaps for range filtering (location_unique_id -> RoaringBitmap)
    pub map_id_bitmaps: StringMap<RoaringBitmap>,
    /// Internal state
    pub state: InputStreamState,
}

/// Whether a map id of the range, from `start` up to, not including, `end`, is in the
/// bitmap.
pub open spec fn range_meets(bitmap: RoaringBitmap, start: i32, end: i32) -> bool {
    exists|i: int| #![trigger members(bitmap).contains(i as u32)]
        start <= i < end && 0 <= i && members(bitmap).contains(i as u32)
}

/// The retries of a stream: those of each replica.
pub open spec fn max_retry_of(c: CelebornInputStreamConfig) -> int {
    if c.push_replicate_enabled {
        c.fetch_max_retries_per_replica * 2
    } else {
        c.fetch_max_retries_per_replica as int
    }
}

impl CelebornInputStream {
    /// No location is passed that is not there, and every location that was skipped was passed.
    pub open spec fn wf(&self) -> bool {
        &&& self.failed_batches.wf()
        &&& (self.partition_location_to_chunk_range matches Some(m) ==> m.wf())
        &&& self.map_id_bitmaps.wf()
        &&& self.state.wf()
        &&& self.state.file_index <= self.locations@.len()
        &&& self.state.skip_count <= self.state.file_index
        &&& self.total_partitions == self.locations@.len()
    }

    /// Whether nothing but the state differs from `other`.
    pub open spec fn same_plan(&self, other: &CelebornInputStream) -> bool {
        &&& self.config == other.config
        &&& self.shuffle_key == other.shuffle_key
        &&& self.locations == other.locations
        &&& self.attempts == other.attempts
        &&& self.attempt_number == other.attempt_number
        &&& self.start_map_index == other.start_map_index
        &&& self.end_map_index == other.end_map_index
        &&& self.fetch_chunk_max_retry == other.fetch_chunk_max_retry
        &&& self.total_partitions == other.total_partitions
        &&& self.failed_batches == other.failed_batches
        &&& self.partition_location_to_chunk_range == other.partition_location_to_chunk_range
        &&& self.map_id_bitmaps == other.map_id_bitmaps
    }

    /// Create a new CelebornInputStream that reads all maps.
    pub fn new(
        config: CelebornInputStreamConfig,
        shuffle_key: String,
        locations: Vec<PartitionLocation>,
        attempts: Vec<i32>,
    ) -> (r: Self)
        requires
            max_retry_of(config) <= u32::MAX,
        ensures
            r.wf(),
            r.config == config,
            r.shuffle_key == shuffle_key,
            r.attempts == attempts,
            r.attempt_number == 0,
            r.start_map_index == -1,
            r.end_map_index == i32::MAX,
            r.locations@.to_multiset() == locations@.to_multiset(),
            r.locations@.len() == locations@.len(),
            r.fetch_chunk_max_retry == max_retry_of(config),
            r.failed_batches@ == Map::<Seq<char>, Vec<PushFailedBatch>>::empty(),
            r.partition_location_to_chunk_range is None,
            r.map_id_bitmaps@ == Map::<Seq<char>, RoaringBitmap>::empty(),
            r.is_fresh(),
    {
        Self::with_options(
            config,
            shuffle_key,
            locations,
            attempts,
            0,
            -1,
            i32::MAX,
            StringMap::new(),
            None,
            StringMap::new(),
        )
    }

    /// Whether nothing has been read yet and the stream is open.
    pub open spec fn is_fresh(&self) -> bool {
        &&& self.state.reader is None
        &&& self.state.current_chunk is None
        &&& self.state.ready().len() == 0
        &&& self.state.first_chunk
        &&& self.state.file_index == 0
        &&& self.state.fetch_chunk_retry_cnt == 0
        &&& !self.state.closed
        &&& self.state.batches_read@ == Set::<u64>::empty()
        &&& self.state.skip_count == 0
    }

    /// Create a new CelebornInputStream with full options. The locations are read in a
    /// random order for load balancing.
    pub fn with_options(
        config: CelebornInputStreamConfig,
        shuffle_key: String,
        locations: Vec<PartitionLocation>,
        attempts: Vec<i32>,
        attempt_number: i32,
        start_map_index: i32,
        end_map_index: i32,
        failed_batches: StringMap<Vec<PushFailedBatch>>,
        partition_location_to_chunk_range: Option<StringMap<ChunkRange>>,
        map_id_bitmaps: StringMap<RoaringBitmap>,
    ) -> (r: Self)
        requires
            max_retry_of(config) <= u32::MAX,
            failed_batches.wf(),
            partition_location_to_chunk_range matches Some(m) ==> m.wf(),
            map_id_bitmaps.wf(),
        ensures
            r.wf(),
            r.config == config,
            r.shuffle_key == shuffle_key,
            r.attempts == attempts,
            r.attempt_number == attempt_number,
            r.start_map_index == start_map_index,
            r.end_map_index == end_map_index,
            r.failed_batches == failed_batches,
            r.partition_location_to_chunk_range == partition_location_to_chunk_range,
            r.map_id_bitmaps == map_id_bitmaps,
            r.locations@.to_multiset() == locations@.to_multiset(),
            r.locations@.len() == locations@.len(),
            r.fetch_chunk_max_retry == max_retry_of(config),
            r.is_fresh(),
    {
        let mut order: Vec<PartitionLocation> = locations;
        shuffle_locations(&mut order);
        Self::in_order(
            config,
            shuffle_key,
            order,
            attempts,
            attempt_number,
            start_map_index,
            end_map_index,
            failed_batches,
            partition_location_to_chunk_range,
            map_id_bitmaps,
        )
    }

    /// A stream that reads the locations in the order given.
    pub fn in_order(
        config: CelebornInputStreamConfig,
        shuffle_key: String,
        locations: Vec<PartitionLocation>,
        attempts: Vec<i32>,
        attempt_number: i32,
        start_map_index: i32,
        end_map_index: i32,
        failed_batches: StringMap<Vec<PushFailedBatch>>,
        partition_location_to_chunk_range: Option<StringMap<ChunkRange>>,
        map_id_bitmaps: StringMap<RoaringBitmap>,
    ) -> (r: Self)
        requires
            max_retry_of(config) <= u32::MAX,
            failed_batches.wf(),
            partition_location_to_chunk_range matches Some(m) ==> m.wf(),
            map_id_bitmaps.wf(),
        ensures
            r.wf(),
            r.is_fresh(),
            r.fetch_chunk_max_retry == max_retry_of(config),
            r == (CelebornInputStream {
                config,
                shuffle_key,
                locations,
                attempts,
                attempt_number,
                start_map_index,
                end_map_index,
                failed_batches,
                partition_location_to_chunk_range,
                map_id_bitmaps,
                ..r
            }),
    {
        let total_partitions: usize = locations.len();
        let fetch_chunk_max_retry: u32 = if config.push_replicate_enabled {
            config.fetch_max_retries_per_replica * 2
        } else {
            config.fetch_max_retries_per_replica
        };
        CelebornInputStream {
            config,
            shuffle_key,
            locations,
            attempts,
            attempt_number,
            start_map_index,
            end_map_index,
            fetch_chunk_max_retry,
            total_partitions,
            failed_batches,
            partition_location_to_chunk_range,
            map_id_bitmaps,
            state: InputStreamState::new(false),
        }
    }

    /// Whether this is a closed stream without anything to read, with the default settings.
    pub open spec fn is_empty_stream(&self) -> bool {
        &&& is_default(self.config)
        &&& self.shuffle_key@.len() == 0
        &&& self.locations@.len() == 0
        &&& self.attempts@.len() == 0
        &&& self.attempt_number == 0
        &&& self.start_map_index == -1
        &&& self.end_map_index == i32::MAX
        &&& self.fetch_chunk_max_retry == 0
        &&& self.total_partitions == 0
        &&& self.failed_batches@ == Map::<Seq<char>, Vec<PushFailedBatch>>::empty()
        &&& self.partition_location_to_chunk_range is None
        &&& self.map_id_bitmaps@ == Map::<Seq<char>, RoaringBitmap>::empty()
        &&& self.state.closed
        &&& self.state.reader is None
        &&& self.state.current_chunk is None
        &&& self.state.position == 0
        &&& self.state.limit == 0
        &&& self.state.raw_data_buf@.len() == 0
        &&& self.state.first_chunk
        &&& self.state.file_index == 0
        &&& self.state.fetch_chunk_retry_cnt == 0
        &&& self.state.batches_read@ == Set::<u64>::empty()
        &&& self.state.skip_count == 0
    }

    /// Create an empty input stream. It is closed from the start.
    pub fn empty() -> (r: Self)
        ensures
            r.wf(),
            r.is_empty_stream(),
    {
        CelebornInputStream {
            config: CelebornInputStreamConfig::default(),
            shuffle_key: String::new(),
            locations: Vec::new(),
            attempts: Vec::new(),
            attempt_number: 0,
            start_map_index: -1,
            end_map_index: i32::MAX,
            fetch_chunk_max_retry: 0,
            total_partitions: 0,
            failed_batches: StringMap::new(),
            partition_location_to_chunk_range: None,
            map_id_bitmaps: StringMap::new(),
            state: InputStreamState::new(true),
        }
    }

    /// Check if the stream is empty.
    pub fn is_empty(&self) -> (r: bool)
        ensures
            r == (self.locations@.len() == 0),
    {
        self.locations.is_empty()
    }

    /// Get total number of partitions to read.
    pub fn total_partitions_to_read(&self) -> (r: usize)
        ensures
            r == self.total_partitions,
    {
        self.total_partitions
    }

    /// Get number of partitions already read.
    pub fn partitions_read(&self) -> (r: usize)
        ensures
            r == self.state.file_index,
    {
        self.state.file_index
    }

    /// Get the number of bytes available to read without blocking.
    pub fn available(&self) -> (r: usize)
        requires
            self.wf(),
        ensures
            r == (if self.state.closed {
                0
            } else {
                self.state.ready().len()
            }),
    {
        if self.state.closed {
            return 0;
        }
        if self.state.position < self.state.limit {
            self.state.limit - self.state.position
        } else {
            0
        }
    }

    /// Check if the stream is closed.
    pub fn is_closed(&self) -> (r: bool)
        ensures
            r == self.state.closed,
    {
        self.state.closed
    }

    /// Get the shuffle key.
    pub fn shuffle_key(&self) -> (r: &str)
        ensures
            r@ == self.shuffle_key@,
    {
        self.shuffle_key.as_str()
    }

    /// Get the configuration.
    pub fn config(&self) -> (r: &CelebornInputStreamConfig)
        ensures
            *r == self.config,
    {
        &self.config
    }

    /// Set a RoaringBitmap for a partition location.
    pub fn set_map_id_bitmap(&mut self, location_id: String, bitmap: RoaringBitmap)
        requires
            old(self).wf(),
        ensures
            final(self).wf(),
            final(self).map_id_bitmaps@ == old(self).map_id_bitmaps@.insert(location_id@, bitmap),
            *final(self) == (CelebornInputStream {
                map_id_bitmaps: final(self).map_id_bitmaps,
                ..*old(self)
            }),
    {
        self.map_id_bitmaps.insert(location_id, bitmap);
    }

    /// Set failed batches for deduplication.
    pub fn set_failed_batches(&mut self, location_id: String, batches: Vec<PushFailedBatch>)
        requires
            old(self).wf(),
        ensures
            final(self).wf(),
            final(self).failed_batches@ == old(self).failed_batches@.insert(location_id@, batches),
            *final(self) == (CelebornInputStream {
                failed_batches: final(self).failed_batches,
                ..*old(self)
            }),
    {
        self.failed_batches.insert(location_id, batches);
    }

    /// The chunk ranges that were set.
    pub open spec fn chunk_ranges(&self) -> Map<Seq<char>, ChunkRange> {
        match self.partition_location_to_chunk_range {
            Some(m) => m@,
            None => Map::empty(),
        }
    }

    /// Set chunk range for a partition location (for skew partition).
    pub fn set_chunk_range(&mut self, location_id: String, range: ChunkRange)
        requires
            old(self).wf(),
        ensures
            final(self).wf(),
            final(self).partition_location_to_chunk_range is Some,
            final(self).chunk_ranges() == old(self).chunk_ranges().insert(location_id@, range),
            *final(self) == (CelebornInputStream {
                partition_location_to_chunk_range: final(self).partition_location_to_chunk_range,
                ..*old(self)
            }),
    {
        let mut map: StringMap<ChunkRange> = match self.partition_location_to_chunk_range.take() {
            Some(m) => m,
            None => StringMap::new(),
        };
        map.insert(location_id, range);
        self.partition_location_to_chunk_range = Some(map);
    }

    /// Get the chunk range for a partition location.
    pub fn get_chunk_range(&self, location_id: &str) -> (r: Option<&ChunkRange>)
        requires
            self.wf(),
        ensures
            match r {
                Some(c) => self.chunk_ranges().dom().contains(location_id@) && *c
                    == self.chunk_ranges()[location_id@],
                None => !self.chunk_ranges().dom().contains(location_id@),
            },
    {
        match &self.partition_location_to_chunk_range {
            Some(map) => map.get(location_id),
            None => None,
        }
    }
}

} // verus!
