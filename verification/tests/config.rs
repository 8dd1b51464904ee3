use std::time::Duration;

use celeborn_client::config::{
    CelebornConfig, CodecSupport, CompressionCodec, PartitionSplitMode, StorageType,
};
use celeborn_client::error::CelebornError;

#[test]
fn test_config_builder() {
    let config = CelebornConfig::builder()
        .app_id("test-app")
        .master_endpoints(vec!["localhost:9097".to_string()])
        .push_replicate_enabled(true)
        .compression_codec(CompressionCodec::Zstd)
        .build()
        .unwrap();

    assert_eq!(config.app_id, "test-app");
    assert_eq!(config.master_endpoints, vec!["localhost:9097"]);
    assert!(config.push_replicate_enabled);
    assert_eq!(config.compression_codec, CompressionCodec::Zstd);
}

#[test]
fn test_config_validation() {
    // Missing app_id
    let result = CelebornConfig::builder()
        .master_endpoints(vec!["localhost:9097".to_string()])
        .build();
    assert!(result.is_err());

    // Empty master_endpoints
    let result = CelebornConfig::builder().app_id("test-app").build();
    assert!(result.is_err());

    // Invalid endpoint format
    let result = CelebornConfig::builder()
        .app_id("test-app")
        .master_endpoints(vec!["localhost".to_string()])
        .build();
    assert!(result.is_err());
}

#[test]
fn test_config_compression_feature_check() {
    let support = CodecSupport { lz4: true, zstd: false };
    let result = CelebornConfig::builder()
        .app_id("test-app")
        .master_endpoints(vec!["localhost:9097".to_string()])
        .compression_codec(CompressionCodec::Zstd)
        .build_in(&support);

    assert!(result.is_err());
    let err = result.unwrap_err();
    assert!(err.to_string().contains("corresponding feature is not enabled"));
}

#[test]
fn defaults_of_the_configuration() {
    let config = CelebornConfig::default();
    assert_eq!(config.app_id, "default-app");
    assert_eq!(config.master_endpoints, vec!["localhost:9097"]);
    assert_eq!(config.compression_codec, CompressionCodec::default());
    assert_eq!(config.partition_split_mode, PartitionSplitMode::Soft);
    assert!(config.user_identifier.is_none());
    assert!(!config.available_storage_types.is_empty());
    assert!(!config.available_storage_types.contains(&StorageType::S3));
}

#[test]
fn builder_sets_what_it_is_told() {
    let config = CelebornConfig::builder()
        .app_id("app")
        .add_master_endpoint("a:1")
        .add_master_endpoint("b:2")
        .push_timeout(Duration::from_secs(1))
        .fetch_timeout(Duration::from_secs(2))
        .rpc_timeout(Duration::from_secs(3))
        .max_retries(7)
        .partition_split_threshold(8)
        .push_buffer_size(9)
        .max_in_flight_requests(10)
        .connection_pool_size(11)
        .user_identifier("tenant", "user")
        .build()
        .unwrap();
    assert_eq!(config.master_endpoints, vec!["a:1", "b:2"]);
    assert_eq!(config.push_timeout, Duration::from_secs(1));
    assert_eq!(config.fetch_timeout, Duration::from_secs(2));
    assert_eq!(config.rpc_timeout, Duration::from_secs(3));
    assert_eq!(config.max_retries, 7);
    assert_eq!(config.partition_split_threshold, 8);
    assert_eq!(config.push_buffer_size, 9);
    assert_eq!(config.max_in_flight_requests, 10);
    assert_eq!(config.connection_pool_size, 11);
    let user = config.user_identifier.unwrap();
    assert_eq!(user.tenant_id, "tenant");
    assert_eq!(user.name, "user");
}

#[test]
fn each_rejected_configuration_names_its_fault() {
    let no_app = CelebornConfig::builder()
        .master_endpoints(vec!["localhost:9097".to_string()])
        .build()
        .unwrap_err();
    assert!(matches!(no_app, CelebornError::Config(_)));
    let empty_app = CelebornConfig::builder()
        .app_id("")
        .master_endpoints(vec!["localhost:9097".to_string()])
        .build()
        .unwrap_err();
    assert!(matches!(empty_app, CelebornError::Config(_)));
    let bad_endpoint = CelebornConfig::builder()
        .app_id("app")
        .master_endpoints(vec!["ok:1".to_string(), "bad".to_string()])
        .build()
        .unwrap_err();
    assert!(bad_endpoint.to_string().contains("bad"));
}

#[test]
fn codecs_are_enabled_as_supported() {
    let none = CodecSupport { lz4: false, zstd: false };
    assert!(CompressionCodec::Uncompressed.is_enabled_in(&none));
    assert!(!CompressionCodec::Lz4.is_enabled_in(&none));
    assert!(!CompressionCodec::Zstd.is_enabled_in(&none));
    assert!(CompressionCodec::Lz4.is_enabled());
    assert!(CompressionCodec::Zstd.is_enabled());
}

#[test]
fn validation_names_the_fault() {
    let mut config = CelebornConfig::default();
    assert!(config.validate().is_ok());
    config.master_endpoints = vec!["host".to_string()];
    match config.validate() {
        Err(CelebornError::Config(m)) => {
            assert_eq!(m, "Invalid master endpoint format: host. Expected host:port");
        }
        _ => panic!("an endpoint without a port is valid"),
    }
    config.master_endpoints = vec![];
    assert!(matches!(
        config.validate(),
        Err(CelebornError::Config(m)) if m == "master_endpoints cannot be empty"
    ));
    config.app_id = String::new();
    assert!(matches!(
        config.validate(),
        Err(CelebornError::Config(m)) if m == "app_id cannot be empty"
    ));
}
