use std::collections::HashSet;

use bytes::Bytes;
use celeborn_client::client::input_stream::{
    batch_number, CelebornInputStream, CelebornInputStreamConfig, ChunkRange, ExcludedWorkers,
    MetricsCallback, NoOpMetricsCallback, PushFailedBatch, BATCH_HEADER_SIZE,
};
use celeborn_client::client::push::build_body;
use celeborn_client::client::stream_fill::{FillAction, FillEvent, FillJob};
use celeborn_client::client::stream_read::{
    ByteAction, CelebornInputStreamBuilder, ReadAction, ReadAhead, SkipAction,
};
use celeborn_client::client::stream_turns::{
    ChunkAction, ChunkEvent, FetchReply, FetchStep, FetchTurn, OpenAttempt, OpenTurn, ReaderAction,
    ReaderEvent,
};
use celeborn_client::config::{CelebornConfig, CompressionCodec};
use celeborn_client::error::CelebornError;
use celeborn_client::protocol::{BatchHeader, PartitionLocation};
use celeborn_client::string_map::StringMap;
use roaring::RoaringBitmap;

fn location(id: i32, host: &str) -> PartitionLocation {
    PartitionLocation::new(id, 0, host.to_string(), 9097, 9098, 9099, 9100)
}

fn plain_config() -> CelebornInputStreamConfig {
    let mut config = CelebornInputStreamConfig::default();
    config.compression_enabled = false;
    config.compression_codec = CompressionCodec::Uncompressed;
    config
}

/// A batch as a chunk holds it for a stream.
fn batch(map_id: i32, attempt_id: i32, batch_id: i32, data: &[u8]) -> Vec<u8> {
    let header = BatchHeader { map_id, attempt_id, batch_id, compressed_size: data.len() as i32 };
    let mut out = header.encode().to_vec();
    out.extend_from_slice(data);
    out
}

fn new_job() -> FillJob {
    FillJob { initializing: false, attempts: 0, iterations: 0, lenient: false, bytes_read: 0 }
}

/// Workers that hold, for each location id, a list of chunks.
struct Workers {
    chunks: Vec<(i32, Vec<Bytes>)>,
    opened: Vec<i32>,
}

impl Workers {
    fn left(&mut self, id: i32) -> &mut Vec<Bytes> {
        &mut self.chunks.iter_mut().find(|c| c.0 == id).unwrap().1
    }

    fn fetch(&mut self, stream: &CelebornInputStream) -> Option<Bytes> {
        let id = stream.state.reader.as_ref()?.id;
        let left = self.left(id);
        if left.is_empty() {
            None
        } else {
            Some(left.remove(0))
        }
    }

    fn has_data(&mut self, stream: &CelebornInputStream) -> bool {
        let id = stream.state.reader.as_ref().unwrap().id;
        !self.left(id).is_empty()
    }

    fn next_reader(&mut self, stream: &mut CelebornInputStream, fetch_chunk: bool) {
        let mut event = ReaderEvent::Advance;
        loop {
            event = match stream.reader_turn(fetch_chunk, event) {
                ReaderAction::OpenAt(l) => {
                    self.opened.push(l.id);
                    ReaderEvent::Opened(l)
                }
                ReaderAction::AskHasData => ReaderEvent::HasData(self.has_data(stream)),
                ReaderAction::FetchChunk => ReaderEvent::Chunk(self.fetch(stream)),
                ReaderAction::Finished => return,
            };
        }
    }

    fn next_chunk(&mut self, stream: &mut CelebornInputStream) -> bool {
        let mut event = ChunkEvent::Start;
        loop {
            event = match stream.chunk_turn(event) {
                ChunkAction::AskHasData => ChunkEvent::HasData(self.has_data(stream)),
                ChunkAction::FetchChunk => ChunkEvent::Chunk(self.fetch(stream)),
                ChunkAction::NextReader => {
                    self.next_reader(stream, true);
                    ChunkEvent::ReadersMoved
                }
                ChunkAction::Moved(on) => return on,
            };
        }
    }

    fn fill(&mut self, stream: &mut CelebornInputStream) -> Result<bool, CelebornError> {
        let mut job = new_job();
        let mut event = FillEvent::Start;
        loop {
            event = match stream.fill_turn(&mut job, event) {
                FillAction::FetchChunk => FillEvent::FirstChunk(self.fetch(stream)),
                FillAction::MoveChunk => FillEvent::Moved(self.next_chunk(stream)),
                FillAction::Done(on) => return Ok(on),
                FillAction::Fail(e) => return Err(e),
            };
        }
    }

    fn read(&mut self, stream: &mut CelebornInputStream, want: usize) -> Vec<u8> {
        let mut out = Vec::new();
        let mut filled = None;
        while let ReadAction::Fill = stream.read(&mut out, want, filled) {
            filled = Some(self.fill(stream).unwrap());
        }
        out
    }
}

#[test]
fn test_config_default() {
    let config = CelebornInputStreamConfig::default();
    assert_eq!(config.fetch_max_retries_per_replica, 3);
    assert_eq!(config.retry_wait_ms, 50);
    assert!(!config.push_replicate_enabled);
    assert!(config.fetch_exclude_worker_on_failure);
    assert!(config.compression_enabled);
    assert!(!config.range_read_filter_enabled);
    assert!(!config.split_skew_partition_without_map_range);
}

#[test]
fn test_batch_header_size() {
    assert_eq!(BATCH_HEADER_SIZE, 16);
}

#[test]
fn test_builder_new() {
    let builder = CelebornInputStreamBuilder::new();
    assert!(builder.shuffle_key.is_none());
    assert!(builder.locations.is_empty());
    assert!(builder.attempts.is_empty());
    assert_eq!(builder.failed_batches.len(), 0);
    assert!(builder.partition_location_to_chunk_range.is_none());
    assert_eq!(builder.map_id_bitmaps.len(), 0);
}

#[test]
fn test_builder_chain() {
    let builder = CelebornInputStreamBuilder::new()
        .shuffle_key("test-app-1")
        .attempt_number(0)
        .start_map_index(0)
        .end_map_index(10)
        .range_read_filter_enabled(true)
        .split_skew_partition_without_map_range(true);

    assert_eq!(builder.shuffle_key, Some("test-app-1".to_string()));
    assert_eq!(builder.attempt_number, 0);
    assert_eq!(builder.start_map_index, 0);
    assert_eq!(builder.end_map_index, 10);
    assert!(builder.config.range_read_filter_enabled);
    assert!(builder.config.split_skew_partition_without_map_range);
}

#[test]
fn test_empty_stream() {
    let stream = CelebornInputStream::empty();
    assert!(stream.is_empty());
    assert_eq!(stream.total_partitions_to_read(), 0);
}

#[test]
fn test_empty_stream_read() {
    let mut stream = CelebornInputStream::empty();
    let mut buf = Vec::new();
    let result = stream.read(&mut buf, 100, None);
    assert!(matches!(result, ReadAction::Return));
    assert_eq!(buf.len(), 0);
}

#[test]
fn test_empty_stream_close() {
    let mut stream = CelebornInputStream::empty();
    assert!(!stream.close());
    assert!(stream.is_closed());
}

#[test]
fn test_empty_stream_available() {
    let stream = CelebornInputStream::empty();
    assert_eq!(stream.available(), 0);
}

#[test]
fn test_no_op_metrics_callback() {
    let callback = NoOpMetricsCallback;
    callback.inc_bytes_read(1000);
    callback.inc_read_time(1000);
}

#[test]
fn test_is_critical_error() {
    let stream = CelebornInputStream::empty();

    assert!(stream.is_critical_error(&CelebornError::Connection("test".to_string())));
    assert!(stream.is_critical_error(&CelebornError::Timeout(1000)));
    assert!(stream.is_critical_error(&CelebornError::FetchFailed("test".to_string())));
    assert!(!stream.is_critical_error(&CelebornError::InvalidConfig("test".to_string())));
}

#[test]
fn test_decompress_none() {
    let mut stream = CelebornInputStream::empty();
    stream.config.compression_codec = CompressionCodec::Uncompressed;
    stream.config.compression_enabled = false;

    let data = vec![1, 2, 3, 4, 5];
    let result = stream.decompress(&data);
    assert!(result.is_ok());
    assert_eq!(result.unwrap(), data);
}

#[test]
fn test_decompress_lz4() {
    let mut stream = CelebornInputStream::empty();
    stream.config.compression_codec = CompressionCodec::Lz4;
    stream.config.compression_enabled = true;

    let original_data = b"Hello, World! This is a test message for LZ4 compression.";

    let compressed = lz4_flex::compress_prepend_size(original_data);

    let result = stream.decompress(&compressed);
    assert!(result.is_ok());
    assert_eq!(result.unwrap(), original_data.to_vec());
}

#[test]
fn test_decompress_lz4_empty() {
    let mut stream = CelebornInputStream::empty();
    stream.config.compression_codec = CompressionCodec::Lz4;
    stream.config.compression_enabled = true;

    let data = vec![1, 2, 3];
    let result = stream.decompress(&data);
    assert!(result.is_err());
}

#[test]
fn test_decompress_zstd() {
    let mut stream = CelebornInputStream::empty();
    stream.config.compression_codec = CompressionCodec::Zstd;
    stream.config.compression_enabled = true;

    let original_data = b"Hello, World! This is a test message for ZSTD compression.";

    let compressed = zstd::encode_all(&original_data[..], 3).unwrap();

    let result = stream.decompress(&compressed);
    assert!(result.is_ok());
    assert_eq!(result.unwrap(), original_data.to_vec());
}

#[test]
fn test_decompress_zstd_invalid() {
    let mut stream = CelebornInputStream::empty();
    stream.config.compression_codec = CompressionCodec::Zstd;
    stream.config.compression_enabled = true;

    let data = vec![1, 2, 3, 4, 5];
    let result = stream.decompress(&data);
    assert!(result.is_err());
}

#[test]
fn input_stream_test_push_failed_batch() {
    let batch1 = PushFailedBatch::new(1, 0, 0);
    let batch2 = PushFailedBatch::new(1, 0, 0);
    let batch3 = PushFailedBatch::new(1, 0, 1);

    assert_eq!(batch1, batch2);
    assert_ne!(batch1, batch3);

    let mut set = HashSet::new();
    set.insert(batch1.clone());
    assert!(set.contains(&batch2));
    assert!(!set.contains(&batch3));
}

#[test]
fn test_chunk_range() {
    let range = ChunkRange::new(0, 10);
    assert_eq!(range.start_chunk_index, 0);
    assert_eq!(range.end_chunk_index, 10);
}

#[test]
fn test_roaring_bitmap_range_filter() {
    let mut bitmap = RoaringBitmap::new();
    bitmap.insert(5);
    bitmap.insert(10);
    bitmap.insert(15);

    assert!(bitmap.contains(5));
    assert!(bitmap.contains(10));
    assert!(!bitmap.contains(7));

    let mut found = false;
    for i in 0..20 {
        if bitmap.contains(i) {
            found = true;
            break;
        }
    }
    assert!(found);

    // The same bitmap, as the range filter of a stream sees it.
    let mut stream = CelebornInputStream::in_order(
        plain_config(),
        "app-1".to_string(),
        vec![location(0, "a")],
        vec![],
        0,
        0,
        20,
        StringMap::new(),
        None,
        StringMap::new(),
    );
    stream.config.range_read_filter_enabled = true;
    stream.set_map_id_bitmap("0-0".to_string(), bitmap);
    assert!(!stream.should_skip_location(&location(0, "a")));
    stream.start_map_index = 16;
    assert!(stream.should_skip_location(&location(0, "a")));
    stream.start_map_index = 15;
    stream.end_map_index = 16;
    assert!(!stream.should_skip_location(&location(0, "a")));
    stream.end_map_index = i32::MAX;
    assert!(!stream.should_skip_location(&location(0, "a")));
}

#[test]
fn test_builder_with_failed_batches() {
    let mut failed_batches = StringMap::new();
    failed_batches.insert("loc-1".to_string(), vec![PushFailedBatch::new(1, 0, 0)]);

    let builder = CelebornInputStreamBuilder::new().failed_batches(failed_batches);

    assert_eq!(builder.failed_batches.len(), 1);
    assert!(builder.failed_batches.contains_key("loc-1"));
}

#[test]
fn test_builder_with_chunk_range() {
    let mut chunk_ranges = StringMap::new();
    chunk_ranges.insert("loc-1".to_string(), ChunkRange::new(0, 5));

    let builder =
        CelebornInputStreamBuilder::new().partition_location_to_chunk_range(chunk_ranges);

    assert!(builder.partition_location_to_chunk_range.is_some());
    let map = builder.partition_location_to_chunk_range.unwrap();
    assert!(map.contains_key("loc-1"));
}

#[test]
fn test_builder_with_map_id_bitmaps() {
    let mut bitmaps = StringMap::new();
    let mut bitmap = RoaringBitmap::new();
    bitmap.insert(1);
    bitmap.insert(2);
    bitmaps.insert("loc-1".to_string(), bitmap);

    let builder = CelebornInputStreamBuilder::new().map_id_bitmaps(bitmaps);

    assert_eq!(builder.map_id_bitmaps.len(), 1);
    assert!(builder.map_id_bitmaps.contains_key("loc-1"));
}

#[test]
fn test_config_from_celeborn_config() {
    let mut celeborn_config = CelebornConfig::default();
    celeborn_config.max_fetch_retries = 5;
    celeborn_config.push_replicate_enabled = true;
    celeborn_config.fetch_max_reqs_in_flight = 10;

    let stream_config = CelebornInputStreamConfig::from(&celeborn_config);
    assert_eq!(stream_config.fetch_max_retries_per_replica, 5);
    assert!(stream_config.push_replicate_enabled);
    assert_eq!(stream_config.fetch_max_reqs_in_flight, 10);
}

#[test]
fn test_empty_stream_skip() {
    let mut stream = CelebornInputStream::empty();
    assert!(matches!(stream.skip(0, 100, None), SkipAction::Return(0)));
}

#[test]
fn test_empty_stream_is_closed() {
    let stream = CelebornInputStream::empty();
    assert!(stream.is_closed());
}

#[test]
fn test_stream_shuffle_key() {
    let stream = CelebornInputStream::empty();
    assert_eq!(stream.shuffle_key(), "");
}

#[test]
fn test_stream_config() {
    let stream = CelebornInputStream::empty();
    let config = stream.config();
    assert_eq!(config.fetch_max_retries_per_replica, 3);
}

#[test]
fn test_chunk_range_get() {
    let mut stream = CelebornInputStream::empty();
    stream.set_chunk_range("loc-1".to_string(), ChunkRange::new(5, 15));

    let range = stream.get_chunk_range("loc-1");
    assert!(range.is_some());
    let range = range.unwrap();
    assert_eq!(range.start_chunk_index, 5);
    assert_eq!(range.end_chunk_index, 15);

    assert!(stream.get_chunk_range("loc-2").is_none());
}

#[test]
fn stream_reads_every_location_once() {
    let mut stream = CelebornInputStream::in_order(
        plain_config(),
        "app-1".to_string(),
        vec![location(0, "a"), location(1, "b")],
        vec![0, 0],
        0,
        0,
        i32::MAX,
        StringMap::new(),
        None,
        StringMap::new(),
    );
    let mut first = batch(0, 0, 0, b"abc");
    first.extend_from_slice(&batch(0, 0, 1, b"de"));
    let mut workers = Workers {
        chunks: vec![
            (0, vec![Bytes::from(first), Bytes::from(batch(1, 0, 0, b"f"))]),
            (1, vec![Bytes::from(batch(1, 0, 1, b"gh"))]),
        ],
        opened: vec![],
    };
    workers.next_reader(&mut stream, false);
    assert_eq!(workers.read(&mut stream, 2), b"ab");
    assert_eq!(stream.available(), 1);
    assert_eq!(workers.read(&mut stream, 100), b"cdefgh");
    assert_eq!(workers.read(&mut stream, 100), b"");
    assert_eq!(workers.opened, vec![0, 1]);
    assert_eq!(stream.partitions_read(), 2);
}

#[test]
fn stream_drops_repeated_batches_and_other_attempts() {
    let mut stream = CelebornInputStream::in_order(
        plain_config(),
        "app-1".to_string(),
        vec![location(0, "a")],
        vec![1, 0],
        0,
        0,
        i32::MAX,
        StringMap::new(),
        None,
        StringMap::new(),
    );
    let mut chunk = batch(0, 0, 0, b"old");
    chunk.extend_from_slice(&batch(0, 1, 0, b"new"));
    chunk.extend_from_slice(&batch(0, 1, 0, b"again"));
    chunk.extend_from_slice(&batch(1, 0, 0, b"!"));
    let mut workers =
        Workers { chunks: vec![(0, vec![Bytes::from(chunk)])], opened: vec![] };
    workers.next_reader(&mut stream, false);
    assert_eq!(workers.read(&mut stream, 100), b"new!");
    assert_eq!(stream.state.batches_read.len(), 2);
    assert!(stream.state.batches_read.contains(&batch_number(0, 0)));
    assert!(stream.state.batches_read.contains(&batch_number(1, 0)));
}

#[test]
fn batches_that_failed_to_be_pushed_are_not_read() {
    let mut config = plain_config();
    config.split_skew_partition_without_map_range = true;
    let mut failed = StringMap::new();
    failed.insert("0-0".to_string(), vec![PushFailedBatch::new(0, 0, 1)]);
    let mut ranges = StringMap::new();
    ranges.insert("0-0".to_string(), ChunkRange::new(0, 9));
    let mut stream = CelebornInputStream::in_order(
        config,
        "app-1".to_string(),
        vec![location(0, "a"), location(1, "b")],
        vec![0],
        0,
        0,
        i32::MAX,
        failed,
        Some(ranges),
        StringMap::new(),
    );
    let mut chunk = batch(0, 0, 0, b"kept");
    chunk.extend_from_slice(&batch(0, 0, 1, b"lost"));
    let mut workers = Workers {
        chunks: vec![(0, vec![Bytes::from(chunk)]), (1, vec![Bytes::from("unread")])],
        opened: vec![],
    };
    workers.next_reader(&mut stream, false);
    assert_eq!(workers.read(&mut stream, 100), b"kept");
    // The second location has no range of chunks, so it is skipped.
    assert_eq!(workers.opened, vec![0]);
    assert_eq!(stream.state.skip_count, 1);
}

#[test]
fn stream_unpacks_what_it_reads() {
    let mut stream = CelebornInputStream::in_order(
        CelebornInputStreamConfig::default(),
        "app-1".to_string(),
        vec![location(0, "a")],
        vec![0],
        0,
        0,
        i32::MAX,
        StringMap::new(),
        None,
        StringMap::new(),
    );
    let packed = lz4_flex::compress_prepend_size(b"some shuffle data, some shuffle data");
    let mut workers = Workers {
        chunks: vec![(
            0,
            vec![
                Bytes::from(batch(0, 0, 0, &packed)),
                Bytes::from(batch(0, 0, 1, &[9, 0, 0, 0, 0x50])),
            ],
        )],
        opened: vec![],
    };
    workers.next_reader(&mut stream, false);
    assert_eq!(workers.read(&mut stream, 36), b"some shuffle data, some shuffle data");
    assert!(matches!(
        workers.fill(&mut stream),
        Err(CelebornError::DecompressionFailed(_))
    ));
}

#[test]
fn single_bytes_and_skips() {
    let mut stream = CelebornInputStream::in_order(
        plain_config(),
        "app-1".to_string(),
        vec![location(0, "a")],
        vec![0],
        0,
        0,
        i32::MAX,
        StringMap::new(),
        None,
        StringMap::new(),
    );
    let mut workers = Workers {
        chunks: vec![(0, vec![Bytes::from(batch(0, 0, 0, b"xyz"))])],
        opened: vec![],
    };
    workers.next_reader(&mut stream, false);
    assert!(matches!(stream.read_byte(None), ByteAction::Fill));
    let on = workers.fill(&mut stream).unwrap();
    assert!(on);
    assert!(matches!(stream.read_byte(Some(on)), ByteAction::Return(Some(b'x'))));
    assert!(matches!(stream.skip(0, 1, None), SkipAction::Return(1)));
    assert!(matches!(stream.skip(0, 5, None), SkipAction::Fill(1)));
    let on = workers.fill(&mut stream).unwrap();
    assert!(!on);
    assert!(matches!(stream.skip(1, 5, Some(on)), SkipAction::Return(1)));
    assert!(stream.close() || stream.is_closed());
    assert!(stream.is_closed());
    assert!(matches!(stream.read_byte(None), ByteAction::Return(None)));
}

#[test]
fn opening_goes_to_the_peer_and_gives_up_in_the_end() {
    let mut config = plain_config();
    config.push_replicate_enabled = true;
    config.fetch_max_retries_per_replica = 1;
    let mut stream = CelebornInputStream::new(config, "app-1".to_string(), vec![], vec![]);
    assert_eq!(stream.fetch_chunk_max_retry, 2);
    let mut primary = location(0, "a");
    primary.peer = Some(Box::new(location(0, "b")));
    let mut excluded = ExcludedWorkers::new();
    let mut attempt = OpenAttempt { location: primary, last_error: None };
    assert!(matches!(stream.open_turn(&mut excluded, &mut attempt, 1), OpenTurn::Open));
    let wait = stream.open_failed(
        &mut excluded,
        &mut attempt,
        CelebornError::Connection("down".to_string()),
        1,
    );
    assert_eq!(wait, 0);
    assert_eq!(attempt.location.host, "b");
    assert!(excluded.is_excluded(&location(0, "a"), 60_000, 2));
    assert!(matches!(stream.open_turn(&mut excluded, &mut attempt, 2), OpenTurn::Open));
    let wait = stream.open_failed(&mut excluded, &mut attempt, CelebornError::Timeout(5), 2);
    assert_eq!(wait, 50);
    assert!(matches!(
        stream.open_turn(&mut excluded, &mut attempt, 3),
        OpenTurn::GiveUp(CelebornError::Timeout(5))
    ));
}

#[test]
fn excluded_workers_come_back_after_a_while() {
    let mut excluded = ExcludedWorkers::new();
    let l = location(0, "a");
    assert!(!excluded.is_excluded(&l, 1000, 0));
    excluded.exclude(&l, 5);
    assert!(excluded.is_excluded(&l, 1000, 6));
    assert!(!excluded.is_excluded(&location(0, "b"), 1000, 6));
    let later = 5 + 1000 * 1_000_000 + 1_000_000;
    assert!(!excluded.is_excluded(&l, 1000, later));
    assert_eq!(excluded.workers.map.len(), 0);
}

#[test]
fn failed_fetch_is_retried_then_reported() {
    let mut config = plain_config();
    config.fetch_max_retries_per_replica = 2;
    let mut stream =
        CelebornInputStream::new(config, "app-1".to_string(), vec![location(0, "a")], vec![]);
    let mut excluded = ExcludedWorkers::new();
    assert!(matches!(stream.fetch_turn(&mut excluded, 0), FetchTurn::NoChunk));
    stream.reader_reopened(location(0, "a"));
    assert!(matches!(stream.fetch_turn(&mut excluded, 0), FetchTurn::AskReader));
    let step = stream.fetch_reply(
        &mut excluded,
        FetchReply::Failed(CelebornError::Timeout(1)),
        0,
    );
    match step {
        FetchStep::CloseAndReopen { wait_ms, location } => {
            assert_eq!(wait_ms, 50);
            assert_eq!(location.host, "a");
            stream.reader_reopened(location);
        }
        _ => panic!("expected another try"),
    }
    let step = stream.fetch_reply(&mut excluded, FetchReply::Chunk(Some(Bytes::from("c"))), 0);
    assert!(matches!(step, FetchStep::Chunk(_)));
    let step = stream.fetch_reply(
        &mut excluded,
        FetchReply::Failed(CelebornError::Timeout(1)),
        0,
    );
    match step {
        FetchStep::CloseAndFail(CelebornError::FetchFailed(m)) => {
            assert_eq!(m, "Fetch chunk failed after 2 retries for a:9099");
        }
        _ => panic!("expected a failure"),
    }
    assert!(matches!(
        stream.fetch_turn(&mut excluded, 0),
        FetchTurn::Fail(CelebornError::FetchFailed(_))
    ));
}

#[test]
fn locations_are_shuffled_without_loss() {
    let locations: Vec<PartitionLocation> = (0..20).map(|i| location(i, "w")).collect();
    let stream =
        CelebornInputStream::new(plain_config(), "app-1".to_string(), locations, vec![]);
    let mut ids: Vec<i32> = stream.locations.iter().map(|l| l.id).collect();
    ids.sort();
    assert_eq!(ids, (0..20).collect::<Vec<i32>>());
}

#[test]
fn builder_needs_a_shuffle_key() {
    let missing = CelebornInputStreamBuilder::new().locations(vec![location(0, "a")]).build();
    assert!(missing.is_err());
    let stream = CelebornInputStreamBuilder::new()
        .shuffle_key("app-1")
        .locations(vec![location(0, "a")])
        .attempts(vec![0])
        .build()
        .unwrap();
    assert_eq!(stream.shuffle_key(), "app-1");
    assert_eq!(stream.total_partitions_to_read(), 1);
    assert!(!stream.is_closed());
}

#[test]
fn read_ahead_serves_in_order() {
    let mut ahead = ReadAhead::new();
    assert!(ahead.is_empty());
    ahead.refill(b"hello".to_vec());
    assert_eq!(ahead.serve(2), b"he");
    assert!(!ahead.is_empty());
    assert_eq!(ahead.serve(10), b"llo");
    assert!(ahead.is_empty());
}

#[test]
fn pushed_body_is_read_through_a_stream() {
    let body = build_body(0, 0, 7, b"pushed");
    let mut stream = CelebornInputStream::in_order(
        plain_config(),
        "app-1".to_string(),
        vec![location(0, "a")],
        vec![0],
        0,
        0,
        i32::MAX,
        StringMap::new(),
        None,
        StringMap::new(),
    );
    let mut workers = Workers { chunks: vec![(0, vec![body])], opened: vec![] };
    workers.next_reader(&mut stream, false);
    assert_eq!(workers.read(&mut stream, 100), b"pushed");
}
