use std::collections::VecDeque;
use std::time::Duration;

use bytes::Bytes;
use celeborn_client::client::fetch::{
    NextAction, NextEvent, ShuffleDataIterator, ShuffleDataReaderBuilder, StreamState,
};
use celeborn_client::client::partition_reader::{
    ChunkResult, NextTurn, TakeTurn, WorkerPartitionReader, WorkerPartitionReaderBuilder,
    WorkerPartitionReaderConfig,
};
use celeborn_client::config::{CelebornConfig, CompressionCodec};
use celeborn_client::error::CelebornError;
use celeborn_client::network::codec::Frame;
use celeborn_client::protocol::message::{ChunkFetchSuccess, MessageType, StreamHandle};
use celeborn_client::protocol::{encode_transport_message, Encodable, PartitionLocation};

fn location(id: i32, host: &str) -> PartitionLocation {
    PartitionLocation::new(id, 0, host.to_string(), 9097, 9098, 9099, 9100)
}

fn plain_config() -> CelebornConfig {
    let mut config = CelebornConfig::default();
    config.compression_codec = CompressionCodec::Uncompressed;
    config
}

#[test]
fn test_worker_partition_reader_config_default() {
    let config = WorkerPartitionReaderConfig::default();
    assert_eq!(config.fetch_max_reqs_in_flight, 3);
    assert_eq!(config.fetch_timeout_ms, 120_000);
    assert!(matches!(config.compression_codec, CompressionCodec::Uncompressed));
    assert_eq!(config.max_fetch_retries, 3);
}

#[test]
fn test_worker_partition_reader_config_from_celeborn_config() {
    let mut celeborn_config = CelebornConfig::default();
    celeborn_config.fetch_max_reqs_in_flight = 5;
    celeborn_config.max_fetch_retries = 10;

    let reader_config = WorkerPartitionReaderConfig::from(&celeborn_config);
    assert_eq!(reader_config.fetch_max_reqs_in_flight, 5);
    assert_eq!(reader_config.max_fetch_retries, 10);
}

#[test]
fn test_builder_creation() {
    let location =
        PartitionLocation::new(0, 0, "localhost".to_string(), 9097, 9098, 9099, 9100);
    let builder = WorkerPartitionReaderBuilder::new("app-123-shuffle-0".to_string(), location);

    assert_eq!(builder.start_map_index, 0);
    assert_eq!(builder.end_map_index, i32::MAX);
}

#[test]
fn test_builder_with_options() {
    let location =
        PartitionLocation::new(0, 0, "localhost".to_string(), 9097, 9098, 9099, 9100);
    let builder = WorkerPartitionReaderBuilder::new("app-123-shuffle-0".to_string(), location)
        .start_map_index(10)
        .end_map_index(100)
        .fetch_max_reqs_in_flight(5)
        .compression_codec(CompressionCodec::Lz4);

    assert_eq!(builder.start_map_index, 10);
    assert_eq!(builder.end_map_index, 100);
    assert_eq!(builder.config.fetch_max_reqs_in_flight, 5);
    assert!(matches!(builder.config.compression_codec, CompressionCodec::Lz4));
}

#[test]
fn test_parse_chunk_batches_single_batch() {
    let mut chunk_data = Vec::new();
    chunk_data.extend_from_slice(&1i32.to_le_bytes());
    chunk_data.extend_from_slice(&0i32.to_le_bytes());
    chunk_data.extend_from_slice(&0i32.to_le_bytes());
    chunk_data.extend_from_slice(&4i32.to_le_bytes());
    chunk_data.extend_from_slice(b"test");

    let result = WorkerPartitionReader::parse_chunk_batches(&chunk_data).unwrap();
    assert_eq!(result.as_ref(), b"test");
}

#[test]
fn test_parse_chunk_batches_multiple_batches() {
    let mut chunk_data = Vec::new();

    chunk_data.extend_from_slice(&1i32.to_le_bytes());
    chunk_data.extend_from_slice(&0i32.to_le_bytes());
    chunk_data.extend_from_slice(&0i32.to_le_bytes());
    chunk_data.extend_from_slice(&5i32.to_le_bytes());
    chunk_data.extend_from_slice(b"hello");

    chunk_data.extend_from_slice(&2i32.to_le_bytes());
    chunk_data.extend_from_slice(&0i32.to_le_bytes());
    chunk_data.extend_from_slice(&1i32.to_le_bytes());
    chunk_data.extend_from_slice(&5i32.to_le_bytes());
    chunk_data.extend_from_slice(b"world");

    let result = WorkerPartitionReader::parse_chunk_batches(&chunk_data).unwrap();
    assert_eq!(result.as_ref(), b"helloworld");
}

#[test]
fn test_parse_chunk_batches_empty() {
    let chunk_data: Vec<u8> = Vec::new();
    let result = WorkerPartitionReader::parse_chunk_batches(&chunk_data).unwrap();
    assert!(result.is_empty());
}

#[test]
fn test_parse_chunk_batches_invalid_size() {
    let mut chunk_data = Vec::new();
    chunk_data.extend_from_slice(&1i32.to_le_bytes());
    chunk_data.extend_from_slice(&0i32.to_le_bytes());
    chunk_data.extend_from_slice(&0i32.to_le_bytes());
    chunk_data.extend_from_slice(&100i32.to_le_bytes());
    chunk_data.extend_from_slice(b"test");

    let result = WorkerPartitionReader::parse_chunk_batches(&chunk_data);
    assert!(result.is_err());
}

#[test]
fn test_chunk_result_variants() {
    let success = ChunkResult::Success(Bytes::from("data"));
    let failure = ChunkResult::Failure("error".to_string());
    let end = ChunkResult::EndOfStream;

    assert!(matches!(success, ChunkResult::Success(_)));
    assert!(matches!(failure, ChunkResult::Failure(_)));
    assert!(matches!(end, ChunkResult::EndOfStream));
}

#[test]
fn test_decompress_data_none_codec() {
    let data = Bytes::from("test data");
    let result =
        WorkerPartitionReader::decompress_data(&CompressionCodec::Uncompressed, &data).unwrap();
    assert_eq!(result, data);
}

#[test]
fn test_parse_chunk_batches_large_batch() {
    let mut chunk_data = Vec::new();
    let large_data = vec![0u8; 1024];

    chunk_data.extend_from_slice(&1i32.to_le_bytes());
    chunk_data.extend_from_slice(&0i32.to_le_bytes());
    chunk_data.extend_from_slice(&0i32.to_le_bytes());
    chunk_data.extend_from_slice(&(large_data.len() as i32).to_le_bytes());
    chunk_data.extend_from_slice(&large_data);

    let result = WorkerPartitionReader::parse_chunk_batches(&chunk_data).unwrap();
    assert_eq!(result.len(), 1024);
}

#[test]
fn test_parse_chunk_batches_many_small_batches() {
    let mut chunk_data = Vec::new();

    for i in 0..10 {
        chunk_data.extend_from_slice(&(i as i32).to_le_bytes());
        chunk_data.extend_from_slice(&0i32.to_le_bytes());
        chunk_data.extend_from_slice(&(i as i32).to_le_bytes());
        chunk_data.extend_from_slice(&1i32.to_le_bytes());
        chunk_data.push(b'a' + i as u8);
    }

    let result = WorkerPartitionReader::parse_chunk_batches(&chunk_data).unwrap();
    assert_eq!(result.len(), 10);
    assert_eq!(result.as_ref(), b"abcdefghij");
}

#[test]
fn test_parse_chunk_batches_partial_header() {
    let chunk_data = vec![0u8; 10];
    let result = WorkerPartitionReader::parse_chunk_batches(&chunk_data).unwrap();
    assert!(result.is_empty());
}

#[test]
fn test_parse_chunk_batches_zero_size_batch() {
    let mut chunk_data = Vec::new();
    chunk_data.extend_from_slice(&1i32.to_le_bytes());
    chunk_data.extend_from_slice(&0i32.to_le_bytes());
    chunk_data.extend_from_slice(&0i32.to_le_bytes());
    chunk_data.extend_from_slice(&0i32.to_le_bytes());

    let result = WorkerPartitionReader::parse_chunk_batches(&chunk_data).unwrap();
    assert!(result.is_empty());
}

#[test]
fn test_builder_config_override() {
    let location =
        PartitionLocation::new(0, 0, "localhost".to_string(), 9097, 9098, 9099, 9100);

    let custom_config = WorkerPartitionReaderConfig {
        fetch_max_reqs_in_flight: 10,
        fetch_timeout_ms: 60_000,
        compression_codec: CompressionCodec::Zstd,
        max_fetch_retries: 5,
    };

    let builder = WorkerPartitionReaderBuilder::new("app-123-shuffle-0".to_string(), location)
        .config(custom_config);

    assert_eq!(builder.config.fetch_max_reqs_in_flight, 10);
    assert_eq!(builder.config.fetch_timeout_ms, 60_000);
    assert!(matches!(builder.config.compression_codec, CompressionCodec::Zstd));
    assert_eq!(builder.config.max_fetch_retries, 5);
}

#[test]
fn test_partition_location_in_builder() {
    let location =
        PartitionLocation::new(5, 2, "worker-host".to_string(), 9097, 9098, 9099, 9100);
    let builder =
        WorkerPartitionReaderBuilder::new("app-456-shuffle-1".to_string(), location.clone());

    assert_eq!(builder.shuffle_key, "app-456-shuffle-1");
    assert_eq!(builder.location.id, 5);
    assert_eq!(builder.location.epoch, 2);
}

#[test]
fn test_chunk_queue_operations() {
    let mut queue: VecDeque<ChunkResult> = VecDeque::new();

    queue.push_back(ChunkResult::Success(Bytes::from("chunk1")));
    queue.push_back(ChunkResult::Success(Bytes::from("chunk2")));
    queue.push_back(ChunkResult::Failure("error".to_string()));

    assert_eq!(queue.len(), 3);

    if let Some(ChunkResult::Success(data)) = queue.pop_front() {
        assert_eq!(data.as_ref(), b"chunk1");
    } else {
        panic!("Expected Success variant");
    }

    if let Some(ChunkResult::Success(data)) = queue.pop_front() {
        assert_eq!(data.as_ref(), b"chunk2");
    } else {
        panic!("Expected Success variant");
    }

    if let Some(ChunkResult::Failure(err)) = queue.pop_front() {
        assert_eq!(err, "error");
    } else {
        panic!("Expected Failure variant");
    }

    assert!(queue.is_empty());
}

#[test]
fn test_config_timeout_conversion() {
    let mut celeborn_config = CelebornConfig::default();
    celeborn_config.fetch_timeout = Duration::from_secs(300);

    let reader_config = WorkerPartitionReaderConfig::from(&celeborn_config);
    assert_eq!(reader_config.fetch_timeout_ms, 300_000);
}

#[test]
fn test_parse_chunk_batches_exact_header_size() {
    let mut chunk_data = Vec::new();
    chunk_data.extend_from_slice(&1i32.to_le_bytes());
    chunk_data.extend_from_slice(&0i32.to_le_bytes());
    chunk_data.extend_from_slice(&0i32.to_le_bytes());
    chunk_data.extend_from_slice(&0i32.to_le_bytes());

    let result = WorkerPartitionReader::parse_chunk_batches(&chunk_data).unwrap();
    assert!(result.is_empty());
}

#[test]
fn test_stream_state() {
    let location =
        PartitionLocation::new(0, 0, "localhost".to_string(), 9097, 9098, 9099, 9100);
    assert_eq!(location.fetch_address(), "localhost:9099");
}

#[test]
fn chunk_with_a_negative_size_cannot_be_parsed() {
    let mut chunk_data = Vec::new();
    chunk_data.extend_from_slice(&[0u8; 12]);
    chunk_data.extend_from_slice(&(-1i32).to_le_bytes());
    assert!(!WorkerPartitionReader::can_parse_chunk(&chunk_data));
    chunk_data[12..16].copy_from_slice(&0i32.to_le_bytes());
    assert!(WorkerPartitionReader::can_parse_chunk(&chunk_data));
}

#[test]
fn reader_claims_chunks_up_to_its_limit() {
    let config = WorkerPartitionReaderConfig {
        fetch_max_reqs_in_flight: 2,
        fetch_timeout_ms: 1000,
        compression_codec: CompressionCodec::Uncompressed,
        max_fetch_retries: 3,
    };
    let mut reader =
        WorkerPartitionReader::new(config, "app-1".to_string(), location(0, "a"), 99, 3);
    assert_eq!(reader.stream_id(), 99);
    assert_eq!(reader.num_chunks(), 3);
    assert!(reader.has_next());
    assert!(matches!(reader.next_turn(), NextTurn::Take));
    assert_eq!(reader.claim_chunk(), Some(0));
    assert_eq!(reader.claim_chunk(), Some(1));
    assert_eq!(reader.claim_chunk(), None);
    let slice = reader.chunk_request(1);
    assert_eq!((slice.stream_id, slice.chunk_index), (99, 1));
    assert_eq!((slice.offset, slice.len), (0, i32::MAX));
    assert!(matches!(reader.take_turn(), TakeTurn::Wait));
    reader.chunk_arrived(Ok(Bytes::from("one")));
    match reader.take_turn() {
        TakeTurn::Return(Ok(Some(b))) => assert_eq!(b, Bytes::from("one")),
        _ => panic!("expected a chunk"),
    }
    assert_eq!(reader.chunks_returned(), 1);
    reader.chunk_arrived(Err(CelebornError::Timeout(7)));
    match reader.take_turn() {
        TakeTurn::Return(Err(CelebornError::FetchFailed(m))) => {
            assert!(m.contains("RPC timeout after 7ms"))
        }
        _ => panic!("expected a failure"),
    }
    assert_eq!(reader.claim_chunk(), Some(2));
    assert!(reader.close());
    assert!(!reader.close());
    assert!(!reader.has_next());
    assert!(matches!(reader.next_turn(), NextTurn::Return(Ok(None))));
}

#[test]
fn reader_unpacks_what_arrives() {
    let config = WorkerPartitionReaderConfig {
        fetch_max_reqs_in_flight: 1,
        fetch_timeout_ms: 1000,
        compression_codec: CompressionCodec::Zstd,
        max_fetch_retries: 3,
    };
    let mut reader =
        WorkerPartitionReader::new(config, "app-1".to_string(), location(0, "a"), 1, 2);
    reader.claim_chunk().unwrap();
    let packed = zstd::encode_all(&b"zzzzzzzzzzzzzzzz"[..], 3).unwrap();
    reader.chunk_arrived(Ok(Bytes::from(packed)));
    match reader.take_turn() {
        TakeTurn::Return(Ok(Some(b))) => assert_eq!(b, Bytes::from("zzzzzzzzzzzzzzzz")),
        _ => panic!("expected a chunk"),
    }
    reader.claim_chunk().unwrap();
    reader.chunk_arrived(Ok(Bytes::from("no such frame")));
    assert!(matches!(
        reader.take_turn(),
        TakeTurn::Return(Err(CelebornError::FetchFailed(_)))
    ));
}

#[test]
fn answers_to_a_chunk_request() {
    let mut body = Vec::new();
    body.extend_from_slice(&[0u8; 12]);
    body.extend_from_slice(&2i32.to_le_bytes());
    body.extend_from_slice(b"ok");
    let body = Bytes::from(body);
    let got =
        WorkerPartitionReader::chunk_response(MessageType::ChunkFetchSuccess, &body, 5, 6).unwrap();
    assert_eq!(got, Bytes::from("ok"));
    let raw =
        WorkerPartitionReader::raw_chunk(MessageType::ChunkFetchSuccess, &body, 5, 6).unwrap();
    assert_eq!(raw, body);
    match WorkerPartitionReader::chunk_response(MessageType::ChunkFetchFailure, &body, 5, 6) {
        Err(CelebornError::FetchFailed(m)) => {
            assert_eq!(m, "Chunk fetch failed for stream 5 chunk 6")
        }
        _ => panic!("expected a failure"),
    }
    match WorkerPartitionReader::chunk_response(MessageType::Heartbeat, &body, 5, 6) {
        Err(CelebornError::Protocol(m)) => {
            assert_eq!(m, "Unexpected response type Heartbeat for chunk fetch")
        }
        _ => panic!("expected a protocol error"),
    }
}

#[test]
fn only_a_stream_handler_opens_a_stream() {
    let good = encode_transport_message(52, &[1, 2, 3]).freeze();
    assert_eq!(
        WorkerPartitionReader::open_reply(&good).unwrap(),
        Bytes::from(vec![1u8, 2, 3])
    );
    let other = encode_transport_message(51, &[1]).freeze();
    match WorkerPartitionReader::open_reply(&other) {
        Err(CelebornError::Protocol(m)) => {
            assert_eq!(m, "Expected StreamHandler (52), got message type 51")
        }
        _ => panic!("expected a protocol error"),
    }
    assert!(matches!(
        WorkerPartitionReader::open_reply(&Bytes::from("ab")),
        Err(CelebornError::Io(_))
    ));
}

#[test]
fn request_that_opens_a_stream() {
    let builder = WorkerPartitionReaderBuilder::new("app-1".to_string(), location(4, "a"))
        .start_map_index(2)
        .end_map_index(9);
    let request = builder.open_request();
    assert_eq!(request.shuffle_key, "app-1");
    assert_eq!(request.file_name, "4-0-0");
    assert_eq!((request.start_index, request.end_index), (2, 9));
    let reader = builder.build(77, 3);
    assert_eq!((reader.stream_id(), reader.num_chunks()), (77, 3));
    assert_eq!(reader.get_location().host, "a");
    assert!(reader.has_next());
}

#[test]
fn iterator_reads_location_after_location() {
    let mut it = ShuffleDataReaderBuilder::new(
        plain_config(),
        "app-1".to_string(),
        vec![location(0, "a"), location(1, "b")],
    )
    .start_chunk(0)
    .end_chunk(9)
    .prefetch_chunks(4)
    .build();
    assert!(it.has_next());
    assert_eq!(it.num_locations(), 2);
    let mut event = NextEvent::Begin;
    let mut opened = Vec::new();
    let mut got = Vec::new();
    loop {
        event = match it.next(event) {
            NextAction::Open(l) => {
                opened.push(l.id);
                let chunks = if l.id == 0 { 2 } else { 0 };
                NextEvent::Opened(Ok(StreamState {
                    stream_id: 10,
                    num_chunks: chunks,
                    current_chunk: 0,
                    location: l,
                }))
            }
            NextAction::Fetch(id, chunk) => {
                assert_eq!(id, 10);
                NextEvent::Fetched(Ok(Some(Bytes::from(format!("chunk{}", chunk)))))
            }
            NextAction::Return(Ok(Some(b))) => {
                got.push(b);
                NextEvent::Begin
            }
            NextAction::Return(Ok(None)) => break,
            NextAction::Return(Err(e)) => panic!("{}", e.to_string()),
        };
    }
    assert_eq!(opened, vec![0, 1]);
    assert_eq!(got, vec![Bytes::from("chunk0"), Bytes::from("chunk1")]);
    assert!(!it.has_next());
    assert!(matches!(it.next(NextEvent::Begin), NextAction::Return(Ok(None))));
}

#[test]
fn answers_that_open_a_stream_for_the_iterator() {
    let handle = StreamHandle { stream_id: 3, num_chunks: 4 };
    let message = handle.encode_to_bytes().freeze().slice(1..);
    let frame = Frame::new(MessageType::StreamHandle, message);
    let state = ShuffleDataIterator::open_stream(&frame, &location(0, "a")).unwrap();
    assert_eq!((state.stream_id, state.num_chunks, state.current_chunk), (3, 4, 0));
    let wrong = Frame::new(MessageType::RpcResponse, Bytes::new());
    assert!(matches!(
        ShuffleDataIterator::open_stream(&wrong, &location(0, "a")),
        Err(CelebornError::Protocol(_))
    ));
    let short = Frame::new(MessageType::StreamHandle, Bytes::from("x"));
    assert!(matches!(
        ShuffleDataIterator::open_stream(&short, &location(0, "a")),
        Err(CelebornError::Io(_))
    ));
}

#[test]
fn answers_that_hold_a_chunk_for_the_iterator() {
    let chunk = ChunkFetchSuccess { stream_id: 3, chunk_index: 1, body: Bytes::from("data") };
    let frame = Frame::new(
        MessageType::ChunkFetchSuccess,
        chunk.encode_to_bytes().freeze().slice(1..),
    );
    assert_eq!(
        ShuffleDataIterator::fetch_chunk(&frame, 3, 1).unwrap(),
        Some(Bytes::from("data"))
    );
    let failed = Frame::new(MessageType::ChunkFetchFailure, Bytes::new());
    assert!(matches!(
        ShuffleDataIterator::fetch_chunk(&failed, 3, 1),
        Err(CelebornError::FetchFailed(_))
    ));
    let body = ShuffleDataIterator::chunk_body(3, 1);
    assert_eq!(
        &body[..],
        &[0, 0, 0, 0, 0, 0, 0, 3, 0, 0, 0, 1, 0, 0, 0, 0, 0, 0, 0, 0]
    );
}

#[test]
fn request_of_the_iterator() {
    let it = ShuffleDataIterator::new(plain_config(), "app-1".to_string(), vec![]);
    let request = it.open_request(&location(7, "a"));
    assert_eq!(request.shuffle_key, "app-1");
    assert_eq!((request.start_index, request.end_index), (0, i32::MAX));
    let body = ShuffleDataIterator::open_body(&request);
    assert_eq!(body.len() + 1, request.encode_to_bytes().len());
}
