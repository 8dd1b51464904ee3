use std::collections::HashMap;

use bytes::Bytes;
use celeborn_client::client::compression::{
    compress_data, decompress_batch, decompress_data, finish_batch, finish_unpack, finish_zstd,
};
use celeborn_client::client::lifecycle::LifecycleManager;
use celeborn_client::client::locations::convert_to_pb_location;
use celeborn_client::client::partition_reader::WorkerPartitionReader;
use celeborn_client::client::push::{
    build_body, push_frame, DataPusher, MergedPart, PushAction, PushBuffer, PushCall, PushEvent,
    PushJob,
};
use celeborn_client::client::shuffle::ShuffleClient;
use celeborn_client::config::{CelebornConfig, CompressionCodec};
use celeborn_client::error::{CelebornError, StatusCode};
use celeborn_client::protocol::message::{MessageType, PushData};
use celeborn_client::protocol::transport::{PbRequestSlotsResponse, PbWorkerResource};
use celeborn_client::protocol::{Decodable, Encodable, PartitionLocation};

fn location(id: i32, host: &str) -> PartitionLocation {
    PartitionLocation::new(id, 0, host.to_string(), 9097, 9098, 9099, 9100)
}

fn config(buffer_size: usize, max_retries: u32) -> CelebornConfig {
    CelebornConfig::builder()
        .app_id("app")
        .master_endpoints(vec!["localhost:9097".to_string()])
        .compression_codec(CompressionCodec::Uncompressed)
        .push_buffer_size(buffer_size)
        .max_retries(max_retries)
        .build()
        .unwrap()
}

/// A manager that knows partition 0 of shuffle 1 at worker `a`, and partition 1 at `b`.
fn manager(config: &CelebornConfig) -> LifecycleManager {
    let mut manager = LifecycleManager::new(config.clone());
    let response = PbRequestSlotsResponse {
        status: 0,
        worker_resource: vec![(
            "a".to_string(),
            PbWorkerResource {
                primary_partitions: vec![
                    convert_to_pb_location(&location(0, "a")),
                    convert_to_pb_location(&location(1, "b")),
                    convert_to_pb_location(&location(2, "a")),
                ],
                replica_partitions: vec![],
                network_location: String::new(),
            },
        )],
    };
    let plan = manager.slots_allocated(1, 4, 2, &response).unwrap();
    manager.slots_reserved(1, plan.state);
    manager
}

fn job(partition_id: i32, data: &[u8]) -> PushJob {
    DataPusher::push_data(1, 7, 0, partition_id, data.to_vec())
}

fn sent(action: PushAction) -> PushCall {
    match action {
        PushAction::Send(call) => call,
        _ => panic!("expected data to send"),
    }
}

#[test]
fn test_push_buffer() {
    let location =
        PartitionLocation::new(0, 0, "localhost".to_string(), 9097, 9098, 9099, 9100);
    let mut buffer = PushBuffer::new("app-1".to_string(), "0-0".to_string(), location, 100);

    assert!(buffer.is_empty());
    assert!(!buffer.is_full());
    assert_eq!(buffer.remaining_capacity(), 100);

    buffer.append(&[1, 2, 3, 4, 5]);
    assert!(!buffer.is_empty());
    assert_eq!(buffer.remaining_capacity(), 95);

    let data = buffer.take_data();
    assert_eq!(data.as_ref(), &[1, 2, 3, 4, 5]);
    assert!(buffer.is_empty());
}

#[test]
fn full_buffer_has_no_room() {
    let mut buffer =
        PushBuffer::new("app-1".to_string(), "0-0".to_string(), location(0, "a"), 3);
    buffer.append(&[1, 2, 3, 4]);
    assert!(buffer.is_full());
    assert_eq!(buffer.remaining_capacity(), 0);
}

#[test]
fn pushed_data_is_read_back() {
    let body = build_body(3, 1, 2, b"packed");
    assert_eq!(body.len(), 16 + 6);
    assert_eq!(WorkerPartitionReader::parse_chunk_batches(&body).unwrap(), Bytes::from("packed"));
}

#[test]
fn codecs_give_back_what_they_pack() {
    let data = b"abcabcabcabcabcabcabcabcabcabcabcabcabcabcabcabc".to_vec();
    for codec in [CompressionCodec::Uncompressed, CompressionCodec::Lz4, CompressionCodec::Zstd] {
        let packed = compress_data(codec, &data).unwrap();
        if codec != CompressionCodec::Uncompressed {
            assert_ne!(packed, data);
        }
        assert_eq!(decompress_batch(codec, &packed).unwrap(), data);
        assert_eq!(
            decompress_data(codec, &Bytes::from(packed)).unwrap(),
            Bytes::from(data.clone())
        );
    }
}

#[test]
fn broken_packed_data_is_refused() {
    let junk = Bytes::from("not packed");
    assert!(decompress_data(CompressionCodec::Lz4, &junk).is_err());
    assert!(decompress_data(CompressionCodec::Zstd, &junk).is_err());
    assert!(matches!(
        decompress_batch(CompressionCodec::Zstd, &junk),
        Err(CelebornError::DecompressionFailed(_))
    ));
    assert!(matches!(
        finish_zstd(Err("no memory".to_string())),
        Err(CelebornError::Compression(_))
    ));
    assert_eq!(finish_zstd(Ok(vec![1])).unwrap(), vec![1]);
    assert!(finish_unpack(Err("bad".to_string()), "LZ4: ").is_err());
    assert_eq!(finish_unpack(Ok(vec![1, 2]), "LZ4: ").unwrap(), Bytes::from(vec![1u8, 2]));
    match finish_batch(Err("bad".to_string()), "LZ4 said: ") {
        Err(CelebornError::DecompressionFailed(m)) => assert_eq!(m, "LZ4 said: bad"),
        _ => panic!("expected a failure"),
    }
}

#[test]
fn endless_lengths_are_refused() {
    let mut packed = vec![0u8, 0, 0, 1, 0xF0];
    packed.extend(vec![0xFFu8; 17_000_000]);
    packed.push(0);
    match decompress_batch(CompressionCodec::Lz4, &packed) {
        Err(e) => assert!(e.to_string().contains("LZ4 data too long")),
        Ok(_) => panic!("expected a failure"),
    }
    match decompress_data(CompressionCodec::Lz4, &Bytes::from(packed)) {
        Err(e) => assert!(e.to_string().contains("LZ4 data too long")),
        Ok(_) => panic!("expected a failure"),
    }
}

#[test]
fn long_rows_of_literals_are_unpacked() {
    let len = 17_000_000usize;
    let more = len - 15;
    let mut packed = (len as u32).to_le_bytes().to_vec();
    packed.push(0xF0);
    packed.extend(vec![0xFFu8; more / 255]);
    packed.push((more % 255) as u8);
    packed.extend(vec![0xFFu8; len]);
    let data = decompress_batch(CompressionCodec::Lz4, &packed).unwrap();
    assert!(data.len() == len && data.iter().all(|b| *b == 0xFF));
    let data = decompress_data(CompressionCodec::Lz4, &Bytes::from(packed)).unwrap();
    assert!(data.len() == len && data.iter().all(|b| *b == 0xFF));
}

#[test]
fn faults_come_before_endless_lengths() {
    // The match reaches to before the output, so what follows is not looked at.
    let mut packed = vec![64u8, 0, 0, 0, 0x10, 7, 9, 0, 0xF0];
    packed.extend(vec![0xFFu8; 17_000_000]);
    packed.push(0);
    match decompress_batch(CompressionCodec::Lz4, &packed) {
        Err(e) => assert!(e.to_string().contains("LZ4 decompression failed: ")),
        Ok(_) => panic!("expected a failure"),
    }
    // A match of more bytes than can be added up.
    let mut packed = vec![64u8, 0, 0, 0, 0x1F, 7, 1, 0];
    packed.extend(vec![0xFFu8; 17_000_000]);
    packed.push(0);
    match decompress_batch(CompressionCodec::Lz4, &packed) {
        Err(e) => assert!(e.to_string().contains("LZ4 data too long")),
        Ok(_) => panic!("expected a failure"),
    }
}

#[test]
fn repeated_data_is_given_back() {
    let mut data = b"begin".to_vec();
    data.extend(vec![0xFFu8; 200_000]);
    data.extend((0..100_000u32).flat_map(|i| i.wrapping_mul(2_654_435_761).to_le_bytes()));
    for codec in [CompressionCodec::Uncompressed, CompressionCodec::Lz4, CompressionCodec::Zstd] {
        let packed = compress_data(codec, &data).unwrap();
        assert_eq!(decompress_batch(codec, &packed).unwrap(), data);
        assert_eq!(decompress_data(codec, &Bytes::from(packed)).unwrap().as_ref(), &data[..]);
    }
}

#[test]
fn pushes_go_under_the_key_of_the_manager() {
    let mut manager = manager(&config(8, 1));
    let mut other = config(8, 1);
    other.app_id = "other".to_string();
    let mut pusher = DataPusher::new(other);
    let (_, action) =
        pusher.push_data_with_retry(&mut manager, job(0, b"large"), PushEvent::Begin);
    assert_eq!(sent(action).shuffle_key, "app-1");
}

#[test]
fn small_pushes_are_buffered_until_the_buffer_is_full() {
    let config = config(64, 3);
    let mut manager = manager(&config);
    let mut pusher = DataPusher::new(config);
    let (_, action) = pusher.push_data_with_retry(&mut manager, job(0, &[1; 20]), PushEvent::Begin);
    assert!(matches!(action, PushAction::Return(Ok(()))));
    assert_eq!(pusher.flush().len(), 1);
    // The second one does not fit beside the first, which is sent before it is buffered.
    let (next, action) =
        pusher.push_data_with_retry(&mut manager, job(0, &[2; 20]), PushEvent::Begin);
    let call = sent(action);
    assert_eq!(call.shuffle_key, "app-1");
    assert_eq!(call.partition_unique_id, "0-0");
    assert_eq!(call.data.len(), 36);
    assert_eq!(call.data[8], 0);
    let (_, action) = pusher.push_data_with_retry(&mut manager, next, PushEvent::Sent(Ok(())));
    assert!(matches!(action, PushAction::Return(Ok(()))));
    let keys = pusher.flush();
    assert_eq!(keys.len(), 1);
    let rest = pusher.flush_buffer(&keys[0]).unwrap();
    assert_eq!(rest.data.len(), 36);
    assert_eq!(rest.data[8], 1);
    assert!(pusher.flush_buffer(&keys[0]).is_none());
}

#[test]
fn buffered_pushes_are_whole_batches() {
    let config = config(64, 3);
    let mut manager = manager(&config);
    let mut pusher = DataPusher::new(config);
    for data in [b"ab", b"cd"] {
        let (_, action) =
            pusher.push_data_with_retry(&mut manager, job(0, data), PushEvent::Begin);
        assert!(matches!(action, PushAction::Return(Ok(()))));
    }
    let keys = pusher.flush();
    let call = pusher.flush_buffer(&keys[0]).unwrap();
    assert_eq!(call.data.len(), 36);
    let read = WorkerPartitionReader::parse_chunk_batches(&call.data).unwrap();
    assert_eq!(read, Bytes::from("abcd"));
}

#[test]
fn large_push_is_sent_at_once_and_retried() {
    let config = config(8, 1);
    let mut manager = manager(&config);
    let mut pusher = DataPusher::new(config);
    let (next, action) =
        pusher.push_data_with_retry(&mut manager, job(0, b"large"), PushEvent::Begin);
    assert_eq!(sent(action).data.len(), 21);
    let lost = CelebornError::Connection("lost".to_string());
    let (next, action) =
        pusher.push_data_with_retry(&mut manager, next, PushEvent::Sent(Err(lost)));
    assert_eq!(next.retry_count, 1);
    assert_eq!(sent(action).data[8], 1);
    let lost = CelebornError::Connection("lost".to_string());
    let (_, action) = pusher.push_data_with_retry(&mut manager, next, PushEvent::Sent(Err(lost)));
    assert!(matches!(action, PushAction::Return(Err(CelebornError::Connection(_)))));
}

#[test]
fn failed_push_goes_to_the_revived_location() {
    let config = config(8, 2);
    let mut manager = manager(&config);
    let mut pusher = DataPusher::with_revive_manager(config);
    let (next, action) =
        pusher.push_data_with_retry(&mut manager, job(0, b"large"), PushEvent::Begin);
    let first = sent(action);
    let (next, action) = pusher.push_data_with_retry(
        &mut manager,
        next,
        PushEvent::Sent(Err(CelebornError::Timeout(5))),
    );
    match action {
        PushAction::Revive(0, Some(old), cause) => {
            assert_eq!(old.host, "a");
            assert_eq!(cause, StatusCode::PushDataTimeoutPrimary);
        }
        _ => panic!("expected a revive"),
    }
    let (next, action) =
        pusher.push_data_with_retry(&mut manager, next, PushEvent::Revived(Ok(location(0, "z"))));
    let again = sent(action);
    assert_eq!(again.location.host, "z");
    assert_eq!(again.data, first.data);
    let (_, action) = pusher.push_data_with_retry(&mut manager, next, PushEvent::Sent(Ok(())));
    assert!(matches!(action, PushAction::Return(Ok(()))));
}

#[test]
fn unknown_partition_is_located_or_refused() {
    let config = config(8, 2);
    let mut manager = manager(&config);
    let mut pusher = DataPusher::new(config.clone());
    let (_, action) =
        pusher.push_data_with_retry(&mut manager, job(9, b"large"), PushEvent::Begin);
    assert!(matches!(
        action,
        PushAction::Return(Err(CelebornError::PartitionNotFound {
            shuffle_id: 1,
            partition_id: 9
        }))
    ));
    let mut pusher = DataPusher::with_revive_manager(config);
    let (next, action) =
        pusher.push_data_with_retry(&mut manager, job(9, b"large"), PushEvent::Begin);
    assert!(matches!(action, PushAction::Revive(-1, None, _)));
    let (_, action) =
        pusher.push_data_with_retry(&mut manager, next, PushEvent::Revived(Ok(location(9, "q"))));
    assert_eq!(sent(action).location.host, "q");
}

#[test]
fn errors_that_are_worth_a_retry() {
    assert!(DataPusher::should_retry_with_revive(&CelebornError::Connection("c".to_string())));
    assert!(DataPusher::should_retry_with_revive(&CelebornError::Timeout(1)));
    assert!(!DataPusher::should_retry_with_revive(&CelebornError::Config("c".to_string())));
    assert_eq!(
        DataPusher::revive_cause(&CelebornError::Timeout(1)),
        StatusCode::PushDataTimeoutPrimary
    );
}

#[test]
fn pushed_bytes_are_counted() {
    let config = config(64, 3);
    let mut manager = manager(&config);
    DataPusher::data_pushed(&mut manager, "app-1", "0-0", 36);
    assert_eq!(manager.total_written, 36);
    let requests = manager.request_commit_files(1).unwrap();
    assert_eq!(requests[0].request.primary_ids, vec!["0-0"]);
}

#[test]
fn frame_of_a_push_holds_the_message() {
    let call = PushCall {
        shuffle_key: "app-1".to_string(),
        partition_unique_id: "0-0".to_string(),
        location: location(0, "a"),
        data: Bytes::from("data"),
    };
    let frame = push_frame(17, &call);
    assert_eq!(frame.message_type, MessageType::PushData);
    assert_eq!(frame.body, Bytes::from("data"));
    assert_eq!(frame.message[0], MessageType::PushData.code());
    let mut content = frame.message.slice(1..);
    let message = PushData::decode(&mut content).unwrap();
    assert_eq!(message.request_id, 17);
    assert_eq!(message.shuffle_key, "app-1");
    assert_eq!(message.partition_unique_id, "0-0");
}

#[test]
fn merged_push_is_split_by_worker() {
    let config = config(64, 3);
    let mut manager = manager(&config);
    let pusher = DataPusher::new(config);
    let data = vec![(0, b"zero".to_vec()), (1, b"one".to_vec()), (2, b"two".to_vec())];
    let parts = pusher.merged_parts(&manager, 1, &data).unwrap();
    assert_eq!(parts.len(), 3);
    let mut groups = pusher.push_merged_data(&manager, 1, &data).unwrap();
    assert_eq!(groups.len(), 2);
    let regrouped = DataPusher::by_worker(parts);
    assert_eq!(regrouped.len(), 2);
    let at_a: Vec<MergedPart> = groups.remove("a:9098").unwrap();
    let message = DataPusher::merged_message(5, "app-1", &at_a);
    assert_eq!(message.partition_unique_ids, vec!["0-0", "2-0"]);
    assert_eq!(message.body, Bytes::from("zerotwo"));
    assert_eq!(message.batch_offsets[0], 0);
    assert_eq!(message.batch_offsets[1], 4);
    let frame = DataPusher::merged_frame(&message);
    assert_eq!(frame.message_type, MessageType::PushMergedData);
    assert_eq!(frame.message, message.encode_to_bytes().freeze());
    DataPusher::merged_data_pushed(&mut manager, &message);
    assert_eq!(manager.total_written, 7);
    let unknown = vec![(8, vec![])];
    assert!(matches!(
        pusher.push_merged_data(&manager, 1, &unknown),
        Err(CelebornError::PartitionNotFound { shuffle_id: 1, partition_id: 8 })
    ));
    assert!(matches!(
        pusher.merged_parts(&manager, 2, &vec![(0, vec![])]),
        Err(CelebornError::ShuffleNotFound(2))
    ));
}

#[test]
fn shuffle_client_pushes_and_fetches() {
    let config = config(8, 3);
    let manager = manager(&config);
    let mut client = ShuffleClient::new(config, manager);
    let (next, action) = client.push_data(job(0, b"large"), PushEvent::Begin);
    assert_eq!(sent(action).location.host, "a");
    let (_, action) = client.push_data(next, PushEvent::Sent(Ok(())));
    assert!(matches!(action, PushAction::Return(Ok(()))));
    assert!(client.flush().is_empty());
    let merged = client.push_merged_data(1, &vec![(0, b"zero".to_vec())]).unwrap();
    assert_eq!(merged.len(), 1);
    let mut file_groups = HashMap::new();
    file_groups.insert(0, vec![location(0, "a")]);
    let it = client.fetch_data(1, 0, &file_groups).unwrap();
    assert_eq!(it.shuffle_key, "app-1");
    assert_eq!(it.num_locations(), 1);
    assert!(client.fetch_data(1, 5, &file_groups).is_err());
    assert_eq!(client.lifecycle_manager().shuffle_key(1), "app-1");
}
