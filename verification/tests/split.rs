use std::collections::HashMap;

use celeborn_client::client::partition_split::{
    ChangePartitionRequest, PartitionLocationEntry, PartitionLocationManager,
    PartitionLocationWithSplit, SplitHandler, SplitRange, SplitStatus, SplitTurn,
};
use celeborn_client::client::revive::{ReviveManager, ReviveRequest};
use celeborn_client::error::{CelebornError, StatusCode};
use celeborn_client::protocol::{PartitionLocation, PartitionMode};
use std::time::Duration;

fn create_test_location(id: i32, epoch: i32) -> PartitionLocation {
    PartitionLocation {
        id,
        epoch,
        host: "localhost".to_string(),
        rpc_port: 9097,
        push_port: 9098,
        fetch_port: 9099,
        replicate_port: 9100,
        mode: PartitionMode::Primary,
        peer: None,
        storage_info: None,
    }
}

#[test]
fn test_split_range() {
    let range = SplitRange::new(1, 0, 10);
    assert_eq!(range.to_string(), "1_0_10");
}

#[test]
fn test_partition_location_with_split() {
    let loc = create_test_location(1, 0);
    let mut loc_with_split = PartitionLocationWithSplit::new(loc);

    assert_eq!(loc_with_split.split_start, -1);
    assert_eq!(loc_with_split.split_end, -1);

    loc_with_split.set_split_range(0, 10);
    assert_eq!(loc_with_split.get_split_range(), "1_0_10");
}

#[test]
fn test_partition_location_entry() {
    let mut entry = PartitionLocationEntry::new();

    let loc1 = PartitionLocationWithSplit::new(create_test_location(1, 0));
    entry.add_location(loc1.clone());

    assert_eq!(entry.current_epoch, 0);
    assert!(!entry.has_newer_partition(0));

    let loc2 = PartitionLocationWithSplit::new(create_test_location(1, 1));
    entry.add_location(loc2.clone());

    assert_eq!(entry.current_epoch, 1);
    assert!(entry.has_newer_partition(0));
    assert!(!entry.has_newer_partition(1));

    let latest = entry.get_latest().unwrap();
    assert_eq!(latest.location.epoch, 1);

    let by_epoch = entry.get_by_epoch(0).unwrap();
    assert_eq!(by_epoch.location.epoch, 0);
}

#[test]
fn test_partition_location_manager() {
    let mut manager = PartitionLocationManager::new(false, 100);

    manager.register_shuffle(1);

    let loc = PartitionLocationWithSplit::new(create_test_location(0, 0));
    manager.update_partition_location(1, loc);

    let latest = manager.get_latest_location(1, 0).unwrap();
    assert_eq!(latest.location.epoch, 0);

    assert!(!manager.has_newer_partition(1, 0, 0));

    let loc2 = PartitionLocationWithSplit::new(create_test_location(0, 1));
    manager.update_partition_location(1, loc2);

    assert!(manager.has_newer_partition(1, 0, 0));

    manager.unregister_shuffle(1);
    assert!(manager.get_latest_location(1, 0).is_none());
}

#[test]
fn test_split_status_conversion() {
    assert_eq!(SplitStatus::try_from(21).unwrap(), SplitStatus::HardSplit);
    assert_eq!(SplitStatus::try_from(22).unwrap(), SplitStatus::SoftSplit);
    assert!(SplitStatus::try_from(0).is_err());
}

#[test]
fn test_is_split_response() {
    assert!(SplitHandler::is_split_response(21));
    assert!(SplitHandler::is_split_response(22));
    assert!(!SplitHandler::is_split_response(0));
    assert!(!SplitHandler::is_split_response(1));
}

#[test]
fn test_revive_request_creation() {
    let req = ReviveRequest::new(1, 0, 0, 0, 0, None, StatusCode::PushDataFailPrimary);

    assert_eq!(req.shuffle_id, 1);
    assert_eq!(req.partition_id, 0);
    assert_eq!(req.cause, StatusCode::PushDataFailPrimary);
    assert_eq!(req.get_status(), StatusCode::Unknown);
}

#[test]
fn test_revive_request_status() {
    let mut req = ReviveRequest::new(1, 0, 0, 0, 0, None, StatusCode::PushDataFailPrimary);

    req.set_status(StatusCode::Success);
    assert_eq!(req.get_status(), StatusCode::Success);

    req.set_status(StatusCode::ReviveFailed);
    assert_eq!(req.get_status(), StatusCode::ReviveFailed);
}

#[test]
fn status_numbers_of_a_split() {
    assert_eq!(SplitStatus::HardSplit.code(), 21);
    assert_eq!(SplitStatus::SoftSplit.code(), 22);
}

#[test]
fn ranges_are_named_after_their_location() {
    let loc = PartitionLocationWithSplit::with_split_range(create_test_location(3, 1), 5, 9);
    assert_eq!(loc.get_split_range(), "3_5_9");
    let range = SplitRange::from_location(&loc);
    assert_eq!(range, SplitRange::new(3, 5, 9));
    assert_eq!(
        PartitionLocationWithSplit::new(create_test_location(3, 1)).get_split_range(),
        "3_-1_-1"
    );
}

#[test]
fn older_location_does_not_become_the_latest() {
    let mut entry = PartitionLocationEntry::new();
    assert!(entry.get_latest().is_none());
    entry.add_location(PartitionLocationWithSplit::new(create_test_location(1, 5)));
    entry.add_location(PartitionLocationWithSplit::new(create_test_location(1, 2)));
    assert_eq!(entry.get_latest().unwrap().location.epoch, 5);
    assert_eq!(entry.get_by_epoch(2).unwrap().location.epoch, 2);
    assert!(entry.get_by_epoch(3).is_none());
    entry.add_child(PartitionLocationWithSplit::new(create_test_location(1, 6)));
    assert!(entry.get_random_child().is_some());
}

#[test]
fn soft_split_keeps_pushing_and_hard_split_waits() {
    let mut manager = PartitionLocationManager::new(true, 100);
    manager.register_shuffle(1);
    manager.update_partition_location(
        1,
        PartitionLocationWithSplit::new(create_test_location(0, 0)),
    );
    let soft = manager.handle_split(1, 0, 0, None, SplitStatus::SoftSplit, 7);
    assert!(matches!(soft, SplitTurn::Request(_)));
    let hard = manager.handle_split(1, 0, 0, None, SplitStatus::HardSplit, 8);
    match hard {
        SplitTurn::RequestAndWait(r) => {
            assert_eq!(r.reply_to, 8);
            assert_eq!(r.cause, Some(SplitStatus::HardSplit));
        }
        _ => panic!("expected a request"),
    }
    manager.update_partition_location(
        1,
        PartitionLocationWithSplit::new(create_test_location(0, 1)),
    );
    match manager.handle_split(1, 0, 0, None, SplitStatus::HardSplit, 9) {
        SplitTurn::Known(Some(l)) => assert_eq!(l.location.epoch, 1),
        _ => panic!("expected the newer location"),
    }
}

#[test]
fn pending_requests_for_one_range_are_handled_together() {
    let mut manager = PartitionLocationManager::new(true, 100);
    manager.register_shuffle(1);
    let old = PartitionLocationWithSplit::with_split_range(create_test_location(0, 0), 0, 10);
    for reply_to in 0..3 {
        manager.add_pending_request(ChangePartitionRequest {
            shuffle_id: 1,
            partition_id: 0,
            epoch: 0,
            old_partition: Some(old.clone()),
            cause: Some(SplitStatus::HardSplit),
            reply_to,
        });
    }
    let batches = manager.process_pending_requests(1);
    assert_eq!(batches.len(), 1);
    assert_eq!(batches[0].split_range, "0_0_10");
    assert_eq!(batches[0].requests.len(), 3);
    // The range is being handled, so it is not handed out again.
    manager.add_pending_request(ChangePartitionRequest {
        shuffle_id: 1,
        partition_id: 0,
        epoch: 0,
        old_partition: Some(old.clone()),
        cause: None,
        reply_to: 9,
    });
    assert!(manager.process_pending_requests(1).is_empty());
    let ask = PartitionLocationManager::allocation(&batches[0]).unwrap();
    assert_eq!((ask.shuffle_id, ask.partition_id, ask.epoch), (1, 0, 0));
    let fresh = PartitionLocationWithSplit::new(create_test_location(0, 1));
    let replies = manager.allocated(1, &batches[0], Ok(fresh));
    let tags: Vec<u64> = replies.iter().map(|r| r.reply_to).collect();
    assert_eq!(tags, vec![0, 1, 2]);
    assert!(replies.iter().all(|r| r.outcome.is_ok()));
    assert_eq!(manager.get_latest_location(1, 0).unwrap().location.epoch, 1);
    assert_eq!(manager.process_pending_requests(1).len(), 1);
}

#[test]
fn failed_allocation_is_answered_to_every_request() {
    let mut manager = PartitionLocationManager::new(true, 100);
    manager.register_shuffle(1);
    manager.add_pending_request(ChangePartitionRequest {
        shuffle_id: 1,
        partition_id: 4,
        epoch: 0,
        old_partition: None,
        cause: None,
        reply_to: 3,
    });
    let batches = manager.process_pending_requests(1);
    let replies =
        manager.allocated(1, &batches[0], Err(CelebornError::Internal("full".to_string())));
    assert_eq!(replies.len(), 1);
    assert!(replies[0].outcome.is_err());
    assert!(manager.get_latest_location(1, 4).is_none());
}

#[test]
fn all_locations_of_a_shuffle() {
    let mut manager = PartitionLocationManager::new(false, 100);
    manager.register_shuffle(1);
    manager.update_partition_location(
        1,
        PartitionLocationWithSplit::new(create_test_location(0, 0)),
    );
    manager.update_partition_location(
        1,
        PartitionLocationWithSplit::new(create_test_location(2, 3)),
    );
    let all: HashMap<i32, PartitionLocationWithSplit> = manager.get_all_locations(1);
    assert_eq!(all.len(), 2);
    assert_eq!(all[&2].location.epoch, 3);
    assert_eq!(manager.get_location_by_epoch(1, 2, 3).unwrap().location.id, 2);
    assert!(manager.get_location_by_epoch(1, 2, 4).is_none());
    assert!(manager.get_all_locations(9).is_empty());
}

#[test]
fn push_response_decides_about_a_split() {
    let mut manager = PartitionLocationManager::new(false, 100);
    manager.register_shuffle(1);
    let handler = SplitHandler::new(manager, 3);
    match handler.handle_push_response(1, 0, 0, 0, None, 1) {
        Err(CelebornError::Protocol(m)) => assert_eq!(m, "Unknown split status: 0"),
        _ => panic!("expected a protocol error"),
    }
    match handler.handle_push_response(1, 0, 0, 21, None, 1) {
        Ok(SplitTurn::RequestAndWait(r)) => assert_eq!(r.cause, Some(SplitStatus::HardSplit)),
        _ => panic!("expected a request"),
    }
    assert!(handler.location_manager().get_latest_location(1, 0).is_none());
}

#[test]
fn known_location_answers_hard_splits_only() {
    let mut manager = PartitionLocationManager::new(false, 100);
    manager.register_shuffle(1);
    manager.update_partition_location(
        1,
        PartitionLocationWithSplit::new(create_test_location(0, 2)),
    );
    match manager.handle_push_response(1, 0, 1, 22, None, 1) {
        Ok(SplitTurn::Known(location)) => assert!(location.is_none()),
        _ => panic!("expected no location"),
    }
    let handler = SplitHandler::new(manager, 3);
    match handler.handle_push_response(1, 0, 1, 22, None, 1) {
        Ok(SplitTurn::Known(location)) => assert!(location.is_none()),
        _ => panic!("expected no location"),
    }
    match handler.handle_push_response(1, 0, 1, 21, None, 1) {
        Ok(SplitTurn::Known(Some(location))) => assert_eq!(location.location.epoch, 2),
        _ => panic!("expected a location"),
    }
    match handler.handle_push_response(1, 0, 2, 22, None, 9) {
        Ok(SplitTurn::Request(r)) => assert_eq!((r.epoch, r.reply_to), (2, 9)),
        _ => panic!("expected a request"),
    }
}

#[test]
fn revive_requests_are_grouped_by_shuffle() {
    let requests = vec![
        ReviveRequest::new(2, 0, 0, 0, 0, None, StatusCode::Success),
        ReviveRequest::new(1, 0, 0, 1, 0, None, StatusCode::Success),
        ReviveRequest::new(2, 0, 0, 2, 0, None, StatusCode::Success),
    ];
    let mut groups = ReviveManager::group_by_shuffle(requests);
    assert_eq!(groups.len(), 2);
    groups.sort_by_key(|g| g.shuffle_id);
    assert_eq!(groups[0].requests.len(), 1);
    let ids: Vec<i32> = groups[1].requests.iter().map(|r| r.partition_id).collect();
    assert_eq!(ids, vec![0, 2]);
    ReviveManager::process_batch(&mut groups[1].requests, &vec![true, false]);
    assert_ne!(groups[1].requests[0].get_status(), groups[1].requests[1].get_status());
}

#[test]
fn workers_are_excluded_by_the_cause_of_a_failure() {
    let mut manager = ReviveManager::new(10, Duration::from_millis(5));
    let l = create_test_location(0, 0);
    manager.exclude_worker_by_cause(StatusCode::Success, &l, 1);
    assert!(!manager.is_worker_excluded("localhost", 9098));
    manager.exclude_worker_by_cause(StatusCode::PushDataCreateConnectionFailPrimary, &l, 1);
    assert!(manager.is_worker_excluded("localhost", 9098));
    manager.remove_excluded_worker("localhost", 9098);
    assert!(!manager.is_worker_excluded("localhost", 9098));
    let outcome = manager.revive_single(1, 2, None, StatusCode::Success, 1);
    assert!(outcome.is_err());
    manager.stop();
    assert!(!manager.running);
}
