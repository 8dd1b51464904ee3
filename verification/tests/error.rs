use celeborn_client::error::{CelebornError, IoError, IoErrorKind, StatusCode};

#[test]
fn status_numbers_come_back() {
    for code in 0..60 {
        let status = StatusCode::from(code);
        if status != StatusCode::Unknown {
            assert_eq!(status.code(), code);
        }
    }
    assert_eq!(StatusCode::from(-1), StatusCode::Unknown);
    assert_eq!(StatusCode::from(99_999), StatusCode::Unknown);
    assert_eq!(StatusCode::from(21), StatusCode::HardSplit);
    assert_eq!(StatusCode::HardSplit.name(), "HardSplit");
}

#[test]
fn success_is_full_or_partial() {
    assert!(StatusCode::Success.is_success());
    assert!(StatusCode::PartialSuccess.is_success());
    assert!(!StatusCode::RequestFailed.is_success());
    assert_eq!(StatusCode::PushDataFailPrimary, StatusCode::PushDataWriteFailPrimary);
    assert_eq!(StatusCode::PushDataFailReplica, StatusCode::PushDataWriteFailReplica);
    assert_eq!(StatusCode::RpcFailed, StatusCode::RequestFailed);
}

#[test]
fn each_error_has_its_text() {
    let io = IoError::new(IoErrorKind::Other, "broken pipe");
    assert_eq!(CelebornError::Io(io).to_string(), "Network I/O error: broken pipe");
    assert_eq!(
        CelebornError::Connection("c".to_string()).to_string(),
        "Connection error: c"
    );
    assert_eq!(CelebornError::Protocol("p".to_string()).to_string(), "Protocol error: p");
    assert_eq!(CelebornError::Timeout(1500).to_string(), "RPC timeout after 1500ms");
    assert_eq!(
        CelebornError::ServerError { status: StatusCode::HardSplit, message: "m".to_string() }
            .to_string(),
        "Server error: HardSplit - m"
    );
    assert_eq!(CelebornError::ShuffleNotFound(-3).to_string(), "Shuffle -3 not found");
    assert_eq!(
        CelebornError::PartitionNotFound { shuffle_id: 1, partition_id: 2 }.to_string(),
        "Partition 2 not found in shuffle 1"
    );
    assert_eq!(
        CelebornError::WorkerUnavailable { host: "h".to_string(), port: 9 }.to_string(),
        "Worker h:9 is unavailable"
    );
    assert_eq!(CelebornError::Config("c".to_string()).to_string(), "Configuration error: c");
    assert_eq!(
        CelebornError::Serialization("s".to_string()).to_string(),
        "Serialization error: s"
    );
    assert_eq!(CelebornError::Compression("z".to_string()).to_string(), "Compression error: z");
    assert_eq!(CelebornError::PushFailed("p".to_string()).to_string(), "Push data failed: p");
    assert_eq!(CelebornError::FetchFailed("f".to_string()).to_string(), "Fetch data failed: f");
    assert_eq!(CelebornError::QuotaExceeded("q".to_string()).to_string(), "Quota exceeded: q");
    assert_eq!(
        CelebornError::ReviveFailed {
            shuffle_id: 1,
            partition_id: 2,
            status: StatusCode::ReviveFailed
        }
        .to_string(),
        "Revive failed for shuffle 1 partition 2: ReviveFailed"
    );
    assert_eq!(CelebornError::StageEnded(4).to_string(), "Stage ended for shuffle 4");
    assert_eq!(
        CelebornError::MaxRetriesExceeded { max_retries: 3, message: "m".to_string() }.to_string(),
        "Max retries (3) exceeded: m"
    );
    assert_eq!(CelebornError::Internal("i".to_string()).to_string(), "Internal error: i");
    assert_eq!(
        CelebornError::DecompressionFailed("d".to_string()).to_string(),
        "Decompression failed: d"
    );
    assert_eq!(
        CelebornError::InvalidConfig("v".to_string()).to_string(),
        "Invalid configuration: v"
    );
}

#[test]
fn some_failures_can_be_retried() {
    assert!(StatusCode::PushDataTimeoutPrimary.is_retriable());
    assert!(StatusCode::WorkerExcluded.is_retriable());
    assert!(StatusCode::FetchDataTimeout.is_retriable());
    assert!(!StatusCode::Success.is_retriable());
    assert!(!StatusCode::ReviveFailed.is_retriable());
}
