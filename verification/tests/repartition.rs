use std::sync::Arc;

use celeborn_client::config::CompressionCodec;
use celeborn_client::repartitioner::client_manager::client_config;
use celeborn_client::repartitioner::{
    map_partition_ids_to_starts_and_indices, pmod, ClientManager, HashRepartitioner,
    RepartitionerConfig, ScratchSpace,
};

#[test]
fn test_pmod() {
    assert_eq!(pmod(0, 10), 0);
    assert_eq!(pmod(5, 10), 5);
    assert_eq!(pmod(10, 10), 0);
    assert_eq!(pmod(15, 10), 5);
    assert_eq!(pmod(u32::MAX, 10), 9);
}

#[test]
fn test_scratch_space() {
    let scratch = ScratchSpace::new(100, 10);
    assert_eq!(scratch.hashes_buf.len(), 100);
    assert_eq!(scratch.partition_ids.len(), 100);
    assert_eq!(scratch.partition_row_indices.len(), 100);
    assert_eq!(scratch.partition_starts.len(), 11);
}

#[test]
fn test_map_partition_ids_to_starts_and_indices() {
    let mut scratch = ScratchSpace::new(6, 3);
    scratch.partition_ids[0] = 0;
    scratch.partition_ids[1] = 1;
    scratch.partition_ids[2] = 2;
    scratch.partition_ids[3] = 0;
    scratch.partition_ids[4] = 1;
    scratch.partition_ids[5] = 2;

    map_partition_ids_to_starts_and_indices(&mut scratch, 3, 6);

    assert_eq!(scratch.partition_starts[0], 0);
    assert_eq!(scratch.partition_starts[1], 2);
    assert_eq!(scratch.partition_starts[2], 4);
    assert_eq!(scratch.partition_starts[3], 6);

    let p0_rows: Vec<u32> = scratch.partition_row_indices[0..2].to_vec();
    let p1_rows: Vec<u32> = scratch.partition_row_indices[2..4].to_vec();
    let p2_rows: Vec<u32> = scratch.partition_row_indices[4..6].to_vec();

    assert!(p0_rows.contains(&0) && p0_rows.contains(&3));
    assert!(p1_rows.contains(&1) && p1_rows.contains(&4));
    assert!(p2_rows.contains(&2) && p2_rows.contains(&5));
}

#[test]
fn test_repartitioner_config_default() {
    let config = RepartitionerConfig::default();
    assert_eq!(config.shuffle_id, 0);
    assert_eq!(config.num_partitions, 1);
    assert_eq!(config.batch_size, 4096);
    assert_eq!(config.push_buffer_size, 4 * 1024 * 1024);
}

#[test]
fn test_client_manager_creation() {
    let manager: ClientManager = ClientManager::new();
    assert!(manager.is_empty());
    assert_eq!(manager.len(), 0);
}

#[test]
fn test_client_manager_default() {
    let manager: ClientManager = ClientManager::default();
    assert!(manager.is_empty());
}

#[test]
fn test_get_nonexistent_client() {
    let manager: ClientManager = ClientManager::new();
    assert!(manager.get_client("nonexistent").is_none());
}

#[test]
fn test_clear() {
    let mut manager: ClientManager = ClientManager::new();
    manager.clear();
    assert!(manager.is_empty());
}

#[test]
fn large_hashes_and_divisors() {
    assert_eq!(pmod(1_999_999_999, 2_000_000_000), 1_999_999_999);
    assert_eq!(pmod(2_000_000_000, 2_000_000_000), 0);
}

#[test]
fn rows_are_sorted_by_partition() {
    let mut scratch = ScratchSpace::new(5, 4);
    scratch.partition_ids = vec![3, 0, 3, 1, 0];
    map_partition_ids_to_starts_and_indices(&mut scratch, 4, 5);
    assert_eq!(scratch.partition_starts, vec![0, 2, 3, 3, 5]);
    let sorted: Vec<u32> = scratch
        .partition_row_indices
        .iter()
        .map(|r| scratch.partition_ids[*r as usize])
        .collect();
    assert_eq!(sorted, vec![0, 0, 1, 3, 3]);
}

#[test]
fn scratch_space_grows() {
    let mut scratch = ScratchSpace::default();
    assert!(scratch.hashes_buf.is_empty());
    scratch.resize(8, 2);
    assert!(scratch.partition_ids.len() >= 8);
    assert!(scratch.partition_starts.len() >= 3);
}

fn repartitioner(buffer: usize) -> HashRepartitioner {
    HashRepartitioner::new(RepartitionerConfig {
        shuffle_id: 4,
        map_id: 5,
        attempt_id: 0,
        num_mappers: 2,
        num_partitions: 3,
        batch_size: 16,
        push_buffer_size: buffer,
    })
}

#[test]
fn small_batches_wait_in_their_partition() {
    let mut r = repartitioner(10);
    assert_eq!((r.shuffle_id(), r.map_id(), r.num_partitions()), (4, 5, 3));
    assert_eq!(r.config().push_buffer_size, 10);
    assert!(r.insert_batch(&[1], b"abcd").is_none());
    assert!(r.insert_batch(&[1], b"efg").is_none());
    assert!(r.insert_batch(&[2], b"x").is_none());
    let mut waiting = r.flush_all();
    waiting.sort();
    assert_eq!(waiting, vec![1, 2]);
    assert_eq!(r.take_partition(1).unwrap(), b"abcdefg".to_vec());
    assert!(r.take_partition(1).is_none());
    assert_eq!(r.flush_all(), vec![2]);
    r.data_pushed(7);
    r.data_pushed(1);
    assert_eq!(r.bytes_pushed(), 8);
}

#[test]
fn full_partition_is_handed_out() {
    let mut r = repartitioner(4);
    assert!(r.insert_batch(&[0], b"ab").is_none());
    let (partition, data) = r.insert_batch(&[0], b"cde").unwrap();
    assert_eq!(partition, 0);
    assert_eq!(data, b"abcde".to_vec());
    assert!(r.take_partition(0).is_none());
}

#[test]
fn clients_are_made_once_per_application() {
    let mut manager: ClientManager = ClientManager::new();
    let endpoints = vec!["m:1".to_string()];
    let a = match manager.get_or_create_client("app", endpoints.clone(), "lm", 9000) {
        Ok(client) => client,
        Err(e) => panic!("{}", e.to_string()),
    };
    assert!(a.check_initialized().is_ok());
    assert_eq!(a.app_id(), "app");
    let driver = a.lifecycle_client.as_ref().unwrap();
    assert_eq!((driver.host.as_str(), driver.port), ("lm", 9000));
    let b = match manager.get_or_create_client_with_compression(
        "app",
        endpoints.clone(),
        "other",
        1,
        CompressionCodec::Zstd,
    ) {
        Ok(client) => client,
        Err(e) => panic!("{}", e.to_string()),
    };
    assert!(Arc::ptr_eq(&a, &b));
    assert_eq!(manager.len(), 1);
    assert_eq!(manager.app_ids(), vec!["app"]);
    assert!(manager.get_or_create_client("bad", vec![], "lm", 1).is_err());
    assert!(Arc::ptr_eq(&manager.remove_client("app").unwrap(), &a));
    assert!(manager.is_empty());
}

#[test]
fn clients_are_found_until_they_are_cleared() {
    let mut manager: ClientManager = ClientManager::new();
    let made = match manager.get_or_create_client("x", vec!["m:1".to_string()], "lm", 9000) {
        Ok(client) => client,
        Err(e) => panic!("{}", e.to_string()),
    };
    assert!(Arc::ptr_eq(&manager.get_client("x").unwrap(), &made));
    assert!(manager.get_client("y").is_none());
    manager.clear();
    assert!(manager.get_client("x").is_none());
    assert_eq!(manager.len(), 0);
}

#[test]
fn client_configuration_takes_the_codec() {
    let config =
        client_config("x", vec!["m:1".to_string()], Some(CompressionCodec::Lz4)).unwrap();
    assert_eq!(config.app_id, "x");
    assert_eq!(config.compression_codec, CompressionCodec::Lz4);
    assert!(client_config("x", vec![], None).is_err());
}
