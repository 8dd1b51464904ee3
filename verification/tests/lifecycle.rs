use std::collections::{HashMap, HashSet};

use celeborn_client::client::executor_shuffle_client::{
    ExecutorRegisterTurn, ExecutorReviveManager, ExecutorShuffleClient, ReadTurn, ShuffleState,
};
use celeborn_client::client::lifecycle::{
    FileGroupTurn, LifecycleManager, RegisterTurn, ReserveReply,
};
use celeborn_client::client::lifecycle_client::{
    LocalLifecycleManagerClient, MapperEndResponse, NettyLifecycleManagerClient, PushFailedBatch,
    ReducerFileGroupResponse, RegisterShuffleResponse, RevivePartitionInfo, ReviveResponse,
};
use celeborn_client::client::locations::{convert_partition_location, convert_to_pb_location};
use celeborn_client::config::{CelebornConfig, CompressionCodec};
use celeborn_client::error::{CelebornError, StatusCode};
use celeborn_client::network::codec::Frame;
use celeborn_client::protocol::java_serialization::RpcAddress;
use celeborn_client::protocol::message::{MessageType, RpcResponse};
use celeborn_client::protocol::transport::{
    PbChangeLocationPartitionInfo, PbChangeLocationResponse, PbCommitFilesResponse, PbFileGroup,
    PbGetReducerFileGroupResponse, PbMapperEndResponse, PbPartitionLocation,
    PbRegisterShuffleResponse, PbRequestSlotsResponse, PbReserveSlotsResponse, PbWorkerResource,
    TransportMessageType,
};
use celeborn_client::protocol::{
    Encodable, PartitionLocation, PartitionMode, StorageInfo, WorkerInfo,
};

fn test_config() -> CelebornConfig {
    CelebornConfig::builder()
        .app_id("test-app")
        .master_endpoints(vec!["localhost:9097".to_string()])
        .build()
        .unwrap()
}

fn location(id: i32, epoch: i32, host: &str) -> PartitionLocation {
    PartitionLocation::new(id, epoch, host.to_string(), 9097, 9098, 9099, 9100)
}

fn pb_location(id: i32, epoch: i32, host: &str) -> PbPartitionLocation {
    convert_to_pb_location(&location(id, epoch, host))
}

/// A manager that has registered shuffle 1 with two partitions.
fn registered_manager() -> LifecycleManager {
    let mut manager = LifecycleManager::new(test_config());
    let response = PbRequestSlotsResponse {
        status: 0,
        worker_resource: vec![(
            "a".to_string(),
            PbWorkerResource {
                primary_partitions: vec![pb_location(0, 0, "a"), pb_location(1, 0, "a")],
                replica_partitions: vec![],
                network_location: String::new(),
            },
        )],
    };
    let plan = manager.slots_allocated(1, 4, 2, &response).unwrap();
    assert_eq!(manager.slots_reserved(1, plan.state), 1);
    manager
}

#[test]
fn test_shuffle_state() {
    let state = ShuffleState::new(10, 100);
    assert_eq!(state.num_mappers, 10);
    assert_eq!(state.num_partitions, 100);
    assert!(!state.registered);
}

#[test]
fn executor_shuffle_client_test_shuffle_key() {
    let client = ExecutorShuffleClient::new(test_config());
    assert_eq!(client.shuffle_key(0), "test-app-0");
    assert_eq!(client.shuffle_key(123), "test-app-123");
}

#[test]
fn test_not_initialized() {
    let client = ExecutorShuffleClient::new(test_config());
    assert!(client.check_initialized().is_err());
}

#[test]
fn lifecycle_test_shuffle_key() {
    let manager = LifecycleManager::new(test_config());
    assert_eq!(manager.shuffle_key(1), "test-app-1");
    assert_eq!(manager.shuffle_key(42), "test-app-42");
}

#[test]
fn lifecycle_client_test_push_failed_batch() {
    let batch1 = PushFailedBatch { map_id: 0, attempt_id: 0, batch_id: 1 };
    let batch2 = PushFailedBatch { map_id: 0, attempt_id: 0, batch_id: 1 };
    assert_eq!(batch1, batch2);

    let mut set = HashSet::new();
    set.insert(batch1.clone());
    assert!(set.contains(&batch2));
}

#[test]
fn test_revive_partition_info() {
    let info = RevivePartitionInfo {
        partition_id: 0,
        epoch: 1,
        old_partition: None,
        status: StatusCode::PushDataWriteFailPrimary,
    };
    assert_eq!(info.partition_id, 0);
    assert_eq!(info.epoch, 1);
}

#[test]
fn test_register_shuffle_response() {
    let response = RegisterShuffleResponse {
        status: StatusCode::Success,
        partition_locations: HashMap::new(),
    };
    assert!(response.status.is_success());
}

#[test]
fn locations_come_back_from_the_wire() {
    let mut l = location(3, 2, "worker");
    l.mode = PartitionMode::Replica;
    l.peer = Some(Box::new(location(3, 2, "peer")));
    l.storage_info = Some(StorageInfo {
        storage_type: 1,
        mount_point: "/mnt".to_string(),
        final_result: true,
        file_path: "/mnt/f".to_string(),
        available_storage_types: 2,
        file_size: 77,
        chunk_offsets: vec![0, 10],
    });
    assert_eq!(convert_partition_location(&convert_to_pb_location(&l)), l);
    let client = NettyLifecycleManagerClient::new(&test_config(), "lm".to_string(), 1);
    let plain = client.convert_partition_location(&client.convert_to_pb_location(&l));
    assert_eq!(plain.unique_id(), l.unique_id());
    assert_eq!(plain.host, "worker");
    assert!(plain.storage_info.is_none());
    assert_eq!(plain.peer.unwrap().host, "peer");
}

#[test]
fn registration_asks_for_slots_once() {
    let manager = LifecycleManager::new(test_config());
    match manager.register_shuffle(1, 3, "host".to_string(), "id".to_string()) {
        RegisterTurn::RequestSlots(q) => {
            assert_eq!(q.application_id, "test-app");
            assert_eq!(q.partition_id_list, vec![0, 1, 2]);
            assert_eq!(q.hostname, "host");
            assert_eq!(q.request_id, "id");
            assert_eq!(q.user_identifier.unwrap().name, "default");
        }
        RegisterTurn::Registered(_) => panic!("not registered yet"),
    }
    let manager = registered_manager();
    assert!(matches!(
        manager.register_shuffle(1, 3, "host".to_string(), "id".to_string()),
        RegisterTurn::Registered(1)
    ));
}

#[test]
fn slots_are_reserved_worker_by_worker() {
    let manager = LifecycleManager::new(test_config());
    let response = PbRequestSlotsResponse {
        status: 0,
        worker_resource: vec![
            (
                "a".to_string(),
                PbWorkerResource {
                    primary_partitions: vec![pb_location(0, 0, "a"), pb_location(2, 0, "a")],
                    replica_partitions: vec![pb_location(1, 0, "a")],
                    network_location: String::new(),
                },
            ),
            (
                "b".to_string(),
                PbWorkerResource {
                    primary_partitions: vec![pb_location(1, 0, "b")],
                    replica_partitions: vec![],
                    network_location: String::new(),
                },
            ),
        ],
    };
    let plan = manager.slots_allocated(1, 4, 3, &response).unwrap();
    assert_eq!(plan.reservations.len(), 2);
    let a = plan.reservations.iter().find(|r| r.host == "a").unwrap();
    let primary: Vec<i32> = a.request.primary_locations.iter().map(|l| l.id).collect();
    let replica: Vec<i32> = a.request.replica_locations.iter().map(|l| l.id).collect();
    assert_eq!(primary, vec![0, 2]);
    assert_eq!(replica, vec![1]);
    assert_eq!(a.request.application_id, "test-app");
    let b = plan.reservations.iter().find(|r| r.host == "b").unwrap();
    assert_eq!(b.request.primary_locations.len(), 1);
    assert_eq!(plan.state.partition_locations.get(1).unwrap().len(), 2);
    let refused = PbRequestSlotsResponse { status: 6, worker_resource: vec![] };
    assert!(matches!(
        manager.slots_allocated(1, 4, 3, &refused),
        Err(CelebornError::ServerError { status: StatusCode::SlotNotAvailable, .. })
    ));
}

#[test]
fn failed_reservations_are_named() {
    let failures = LifecycleManager::reserve_failures(vec![
        ReserveReply {
            host: "a".to_string(),
            rpc_port: 1,
            outcome: Ok(PbReserveSlotsResponse { status: 0, reason: String::new() }),
        },
        ReserveReply {
            host: "b".to_string(),
            rpc_port: 2,
            outcome: Ok(PbReserveSlotsResponse { status: 5, reason: "full".to_string() }),
        },
        ReserveReply {
            host: "c".to_string(),
            rpc_port: 3,
            outcome: Err(CelebornError::Timeout(4)),
        },
    ]);
    assert_eq!(failures.len(), 2);
    assert_eq!(failures[0].host, "b");
    assert!(failures[0].reason.contains("full"));
    assert_eq!(failures[1].host, "c");
    assert!(failures[1].reason.contains("RPC timeout after 4ms"));
}

#[test]
fn registered_locations_are_found() {
    let mut manager = registered_manager();
    assert_eq!(manager.get_partition_location(1, 0).unwrap()[0].host, "a");
    assert!(matches!(
        manager.get_partition_location(9, 0),
        Err(CelebornError::ShuffleNotFound(9))
    ));
    assert!(matches!(
        manager.get_partition_location(1, 7),
        Err(CelebornError::PartitionNotFound { shuffle_id: 1, partition_id: 7 })
    ));
    manager.update_partition_location(1, 0, location(0, 1, "b"));
    let found = manager.get_partition_location(1, 0).unwrap();
    assert_eq!(found.last().unwrap().host, "b");
    manager.shuffle_unregistered(1);
    assert!(manager.get_partition_location(1, 0).is_err());
}

#[test]
fn batch_ids_count_up() {
    let mut manager = registered_manager();
    assert_eq!(manager.next_batch_id(1, 0), 0);
    assert_eq!(manager.next_batch_id(1, 0), 1);
    assert_eq!(manager.next_batch_id(1, 1), 0);
    assert_eq!(manager.next_batch_id(9, 0), 0);
    assert_eq!(manager.next_batch_id(9, 0), 0);
}

#[test]
fn only_pushed_partitions_are_committed() {
    let mut manager = registered_manager();
    assert!(manager.request_commit_files(1).unwrap().is_empty());
    manager.add_partition_data_pushed(1, "1-0");
    let requests = manager.request_commit_files(1).unwrap();
    assert_eq!(requests.len(), 1);
    assert_eq!(requests[0].host, "a");
    assert_eq!(requests[0].rpc_port, 9097);
    assert_eq!(requests[0].request.primary_ids, vec!["1-0"]);
    assert!(requests[0].request.replica_ids.is_empty());
    assert_eq!(requests[0].request.map_attempts, vec![0, 0, 0, 0]);
    assert!(matches!(
        manager.request_commit_files(9),
        Err(CelebornError::ShuffleNotFound(9))
    ));
}

fn commit_answer(status: i32, primary: Vec<String>) -> PbCommitFilesResponse {
    PbCommitFilesResponse {
        status,
        committed_primary_ids: primary,
        committed_replica_ids: vec![],
        failed_primary_ids: vec![],
        failed_replica_ids: vec![],
        committed_primary_storage_infos: vec![],
        committed_replica_storage_infos: vec![],
        total_written: 5,
        file_count: 5,
    }
}

#[test]
fn commits_of_all_workers_are_added_up() {
    let all = LifecycleManager::files_committed(vec![
        Ok(commit_answer(0, vec!["0-0".to_string()])),
        Ok(commit_answer(0, vec!["1-0".to_string()])),
    ]);
    assert_eq!(all.status, StatusCode::Success.code());
    assert_eq!(all.committed_primary_ids, vec!["0-0", "1-0"]);
    let some = LifecycleManager::files_committed(vec![
        Ok(commit_answer(0, vec!["0-0".to_string()])),
        Err(CelebornError::Timeout(1)),
    ]);
    assert_eq!(some.status, StatusCode::PartialSuccess.code());
    let none = LifecycleManager::files_committed(vec![Err(CelebornError::Timeout(1))]);
    assert_eq!(none.status, StatusCode::RequestFailed.code());
}

#[test]
fn file_groups_are_local_or_asked_for() {
    let manager = registered_manager();
    match manager.get_reducer_file_group(1) {
        FileGroupTurn::Local(m) => assert_eq!(m.len(), 2),
        FileGroupTurn::Ask(_) => panic!("the shuffle is known"),
    }
    match manager.get_reducer_file_group(2) {
        FileGroupTurn::Ask(q) => assert_eq!(q.shuffle_id, 2),
        FileGroupTurn::Local(_) => panic!("the shuffle is not known"),
    }
    let response = PbGetReducerFileGroupResponse {
        status: 0,
        file_groups: vec![(5, PbFileGroup { locations: vec![pb_location(5, 0, "w")] })],
        attempts: vec![0],
        partition_ids: vec![5],
    };
    let groups = LifecycleManager::file_group_received(2, &response).unwrap();
    assert_eq!(groups[&5][0].host, "w");
    let refused = PbGetReducerFileGroupResponse {
        status: 4,
        file_groups: vec![],
        attempts: vec![],
        partition_ids: vec![],
    };
    assert!(matches!(
        LifecycleManager::file_group_received(2, &refused),
        Err(CelebornError::ServerError { status: StatusCode::ShuffleNotRegistered, .. })
    ));
}

#[test]
fn revived_partition_gets_its_new_location() {
    let mut manager = registered_manager();
    let request = LifecycleManager::revive_partition(1, 0, 0, Some(&location(0, 0, "a")));
    assert_eq!(request.partition_info.len(), 1);
    assert_eq!(request.partition_info[0].partition.as_ref().unwrap().host, "a");
    let response = PbChangeLocationResponse {
        ended_map_id: vec![],
        partition_info: vec![PbChangeLocationPartitionInfo {
            partition_id: 0,
            status: 0,
            partition: Some(pb_location(0, 1, "new")),
            old_available: true,
        }],
    };
    assert_eq!(manager.partition_revived(1, 0, &response).unwrap().host, "new");
    assert_eq!(
        manager.get_partition_location(1, 0).unwrap().last().unwrap().host,
        "new"
    );
    assert!(matches!(
        manager.partition_revived(1, 1, &response),
        Err(CelebornError::PartitionNotFound { shuffle_id: 1, partition_id: 1 })
    ));
}

#[test]
fn requests_and_counters_of_the_manager() {
    let mut manager = registered_manager();
    let beat = manager.heartbeat_request(3, 4, "r".to_string());
    assert_eq!((beat.app_id.as_str(), beat.total_written, beat.file_count), ("test-app", 3, 4));
    let bye = manager.unregister_shuffle(1, "r".to_string());
    assert_eq!((bye.app_id.as_str(), bye.shuffle_id), ("test-app", 1));
    manager.add_bytes_written(10);
    manager.add_bytes_written(5);
    manager.add_file_count(2);
    assert_eq!((manager.total_written, manager.file_count), (15, 2));
    assert!(!manager.is_worker_excluded(&WorkerInfo::new("a".to_string(), 1, 2, 3, 4)));
    assert!(manager.mapper_end(1, 0, 0, 4).unwrap());
    assert!(!manager.mapper_end(1, 0, 1, 4).unwrap());
    assert!(manager.mapper_end(1, 1, 0, 4).unwrap());
    assert!(manager.mapper_end(2, 0, 0, 4).unwrap());
    assert_eq!(manager.stop(), vec![1]);
    assert!(!manager.running);
}

#[test]
fn answers_to_the_lifecycle_client() {
    let client = NettyLifecycleManagerClient::new(&test_config(), "lm".to_string(), 9000);
    assert_eq!(client.get_addr(), "lm:9000");
    let frame = client.encode_request(
        &RpcAddress::new("lm", 9000),
        TransportMessageType::MapperEnd,
        &[7],
        5,
    );
    assert_eq!(frame[4], 3);
    assert_eq!(&frame[9..17], &5u64.to_be_bytes());
    assert_eq!(frame[frame.len() - 1], 7);
    let request = client.register_shuffle_request(1, 2, 3);
    assert_eq!((request.shuffle_id, request.num_mappers, request.num_partitions), (1, 2, 3));
    let answer = client.register_shuffle(&PbRegisterShuffleResponse {
        status: 0,
        partition_locations: vec![
            pb_location(0, 0, "a"),
            pb_location(1, 0, "b"),
            pb_location(0, 1, "c"),
        ],
    });
    assert_eq!(answer.status, StatusCode::Success);
    let hosts: Vec<&str> =
        answer.partition_locations[&0].iter().map(|l| l.host.as_str()).collect();
    assert_eq!(hosts, vec!["a", "c"]);
    let end = client.mapper_end(&PbMapperEndResponse { status: 16 });
    assert_eq!(end.status, StatusCode::StageEnded);
    assert_eq!(client.mapper_end_request(1, 2, 3, 4, 5).partition_id, 5);
    assert_eq!(client.reducer_file_group_request(7).shuffle_id, 7);
    let groups = client.get_reducer_file_group(&PbGetReducerFileGroupResponse {
        status: 0,
        file_groups: vec![(5, PbFileGroup { locations: vec![pb_location(5, 0, "w")] })],
        attempts: vec![1, 2],
        partition_ids: vec![5, 5],
    });
    assert_eq!(groups.file_groups[&5][0].host, "w");
    assert_eq!(groups.attempts, vec![1, 2]);
    assert_eq!(groups.partition_ids.len(), 1);
}

#[test]
fn revive_and_split_of_the_lifecycle_client() {
    let client = NettyLifecycleManagerClient::new(&test_config(), "lm".to_string(), 9000);
    let infos = vec![ExecutorReviveManager::revive_info(
        4,
        1,
        Some(&location(4, 1, "old")),
        StatusCode::PushDataTimeoutPrimary,
    )];
    let request = client.revive_request(1, vec![9], &infos);
    assert_eq!(request.map_id, vec![9]);
    assert_eq!(request.partition_info[0].partition_id, 4);
    assert_eq!(request.partition_info[0].status, StatusCode::PushDataTimeoutPrimary.code());
    let response = PbChangeLocationResponse {
        ended_map_id: vec![],
        partition_info: vec![PbChangeLocationPartitionInfo {
            partition_id: 4,
            status: 0,
            partition: Some(pb_location(4, 2, "new")),
            old_available: false,
        }],
    };
    let revived = client.revive(&response);
    assert_eq!(revived.partition_locations[0].host, "new");
    let split = client.partition_split_request(1, 4, 1, &location(4, 1, "old"));
    assert_eq!((split.shuffle_id, split.partition_id, split.epoch), (1, 4, 1));
    assert_eq!(client.partition_split(1, 4, &response).unwrap().host, "new");
    let empty = PbChangeLocationResponse { ended_map_id: vec![], partition_info: vec![] };
    assert!(client.partition_split(1, 4, &empty).is_err());
}

#[test]
fn local_client_answers_from_the_manager() {
    let mut local = LocalLifecycleManagerClient::new(registered_manager());
    assert_eq!(local.mapper_end(1, 0, 0, 4).unwrap().status, StatusCode::Success);
    assert!(!local.lifecycle_manager.mapper_end(1, 0, 0, 4).unwrap());
    let answer = local.register_shuffle(1);
    assert_eq!(answer.status, StatusCode::Success);
    assert_eq!(answer.partition_locations.len(), 2);
    let lost = CelebornError::Connection("lost".to_string());
    let unlocated = LocalLifecycleManagerClient::shuffle_registered(Err(lost));
    assert_eq!(unlocated.status, StatusCode::Success);
    assert!(unlocated.partition_locations.is_empty());
    let groups = HashMap::from([(0, vec![location(0, 1, "a")])]);
    let located = LocalLifecycleManagerClient::shuffle_registered(Ok(groups));
    assert_eq!(located.partition_locations[&0][0].host, "a");
    let ended = LocalLifecycleManagerClient::mapper_ended(Ok(false));
    assert_eq!(ended.unwrap().status, StatusCode::Success);
    let lost = CelebornError::ShuffleNotFound(3);
    assert!(matches!(
        LocalLifecycleManagerClient::mapper_ended(Err(lost)),
        Err(CelebornError::ShuffleNotFound(3))
    ));
    let revived = LocalLifecycleManagerClient::partitions_revived(vec![location(0, 2, "b")]);
    assert_eq!(revived.status, StatusCode::Success);
    assert_eq!(revived.partition_locations[0].epoch, 2);
    assert_eq!(local.get_shuffle_id(7, "x", true).unwrap(), 7);
    assert!(local.report_shuffle_fetch_failure(1, 1, 0).is_ok());
    let groups = LocalLifecycleManagerClient::get_reducer_file_group(HashMap::new());
    assert_eq!(groups.status, StatusCode::Success);
}

fn ready_client() -> ExecutorShuffleClient {
    let mut config = test_config();
    config.compression_codec = CompressionCodec::Uncompressed;
    let mut client = ExecutorShuffleClient::new(config);
    client.setup_lifecycle_manager_ref("lm", 9000);
    let mut partition_locations = HashMap::new();
    partition_locations.insert(0, vec![location(0, 3, "w")]);
    let response = RegisterShuffleResponse { status: StatusCode::Success, partition_locations };
    assert_eq!(client.shuffle_registered(1, 2, 1, response).unwrap(), 1);
    client
}

#[test]
fn executor_pushes_to_the_known_location() {
    let mut client = ready_client();
    assert_eq!(client.app_id(), "test-app");
    assert!(matches!(client.register_shuffle(1), Ok(ExecutorRegisterTurn::Registered(1))));
    assert!(matches!(client.register_shuffle(2), Ok(ExecutorRegisterTurn::Ask)));
    let call = client.push_data(1, 5, 6, 0, b"data").unwrap();
    assert_eq!(call.shuffle_key, "test-app-1");
    assert_eq!(call.partition_unique_id, "0-3");
    assert_eq!(call.location.host, "w");
    assert_eq!(
        &call.data[..],
        &[5, 0, 0, 0, 6, 0, 0, 0, 0, 0, 0, 0, 4, 0, 0, 0, b'd', b'a', b't', b'a']
    );
    let again = client.push_data(1, 5, 6, 0, b"").unwrap();
    assert_eq!(again.data[8], 1);
    assert!(matches!(
        client.push_data(1, 5, 6, 9, b"x"),
        Err(CelebornError::PartitionNotFound { shuffle_id: 1, partition_id: 9 })
    ));
    assert!(matches!(
        client.push_data(2, 5, 6, 0, b"x"),
        Err(CelebornError::ShuffleNotFound(2))
    ));
    assert_eq!(client.next_batch_id(1, 0), 2);
    assert_eq!(client.get_partition_location(1, 0).unwrap()[0].host, "w");
    assert!(client.cleanup_shuffle(1));
    assert!(client.get_partition_location(1, 0).is_err());
}

#[test]
fn executor_reads_from_the_cached_file_groups() {
    let mut client = ready_client();
    assert!(matches!(client.read_partition(1), Ok(ReadTurn::Ask)));
    let mut file_groups = HashMap::new();
    file_groups.insert(0, vec![location(0, 0, "a"), location(0, 1, "b")]);
    let response = ReducerFileGroupResponse {
        status: StatusCode::Success,
        file_groups,
        attempts: vec![0, 1],
        partition_ids: HashSet::new(),
    };
    client.file_groups_received(1, response).unwrap();
    assert!(matches!(client.read_partition(1), Ok(ReadTurn::Cached)));
    let (locations, attempts) = client.cached_partition(1, 0);
    assert_eq!(locations.len(), 2);
    assert_eq!(attempts, vec![0, 1]);
    assert!(client.cached_partition(1, 7).0.is_empty());
    let stream = client.open_stream(1, locations, attempts, 0, 0, i32::MAX).unwrap();
    assert_eq!(stream.shuffle_key(), "test-app-1");
    assert_eq!(stream.total_partitions_to_read(), 2);
    let refused = ReducerFileGroupResponse {
        status: StatusCode::ShuffleDataLost,
        file_groups: HashMap::new(),
        attempts: vec![],
        partition_ids: HashSet::new(),
    };
    assert!(client.file_groups_received(1, refused).is_err());
    client.shutdown();
    assert!(client.check_initialized().is_err());
    assert!(client.read_partition(1).is_err());
}

#[test]
fn executor_reports_the_end_of_a_mapper() {
    let client = ready_client();
    let end = client.mapper_end(1, 2, 3, 4).unwrap();
    assert_eq!((end.shuffle_id, end.map_id, end.attempt_id), (1, 2, 3));
    assert_eq!((end.num_mappers, end.partition_id), (4, -1));
    assert!(ExecutorShuffleClient::mapper_ended(&MapperEndResponse {
        status: StatusCode::Success
    }));
    assert!(!ExecutorShuffleClient::mapper_ended(&MapperEndResponse {
        status: StatusCode::RequestFailed
    }));
    assert!(ExecutorShuffleClient::new(test_config()).mapper_end(1, 2, 3, 4).is_err());
    let asked = client.get_shuffle_id(7, "7-0", true).unwrap();
    assert_eq!((asked.app_shuffle_id, asked.is_shuffle_writer), (7, true));
    assert_eq!(asked.app_shuffle_identifier, "7-0");
    let report = client.report_shuffle_fetch_failure(7, 1, 2).unwrap();
    assert_eq!((report.app_shuffle_id, report.shuffle_id, report.failure_type), (7, 1, 2));
    assert!(ExecutorShuffleClient::new(test_config()).get_shuffle_id(7, "7-0", true).is_err());
}

#[test]
fn executor_revives_to_the_first_location() {
    let response = ReviveResponse {
        status: StatusCode::Success,
        partition_locations: vec![location(0, 1, "n"), location(0, 2, "m")],
    };
    assert_eq!(ExecutorReviveManager::revive_single(1, 0, response).unwrap().host, "n");
    let refused =
        ReviveResponse { status: StatusCode::ReviveFailed, partition_locations: vec![] };
    assert!(matches!(
        ExecutorReviveManager::revive_single(1, 0, refused),
        Err(CelebornError::ServerError { status: StatusCode::ReviveFailed, .. })
    ));
    let none = ReviveResponse { status: StatusCode::Success, partition_locations: vec![] };
    assert!(matches!(
        ExecutorReviveManager::revive_single(1, 0, none),
        Err(CelebornError::PartitionNotFound { shuffle_id: 1, partition_id: 0 })
    ));
}

#[test]
fn answer_to_a_push_holds_its_status() {
    let answer = RpcResponse::new(1, bytes::Bytes::from(vec![21u8]));
    let frame = Frame::with_body(
        MessageType::RpcResponse,
        answer.encode_to_bytes().freeze().slice(1..),
        bytes::Bytes::from(vec![21u8]),
    );
    assert_eq!(ExecutorShuffleClient::push_response_status(&frame), StatusCode::HardSplit);
    let empty = Frame::new(MessageType::RpcResponse, bytes::Bytes::new());
    assert!(ExecutorShuffleClient::send_push_data(&empty, "0-0").is_ok());
}
