//! Configuration for the Celeborn client.

use std::time::Duration;
use vstd::prelude::*;
use vstd::string::*;

use crate::error::{CelebornError, Result};
use crate::{error, text, time};

verus! {

/// Compression codec for shuffle data.
#[derive(Debug, Clone, Copy, PartialEq, Eq, Structural)]
pub enum CompressionCodec {
    /// No compression
    Uncompressed,
    /// LZ4 compression
    Lz4,
    /// Zstd compression
    Zstd,
}

impl Default for CompressionCodec {
    fn default() -> (r: Self)
        ensures
            r is Lz4,
    {
        CompressionCodec::Lz4
    }
}

/// Which codecs a build of the client carries.
#[derive(Debug, Clone, Copy, PartialEq, Eq, Structural)]
pub struct CodecSupport {
    pub lz4: bool,
    pub zstd: bool,
}

/// Whether this build carries LZ4.
pub const COMPRESSION_LZ4: bool = true;

/// Whether this build carries Zstd.
pub const COMPRESSION_ZSTD: bool = true;

/// The codecs of this build.
pub open spec fn build_codecs() -> CodecSupport {
    CodecSupport { lz4: COMPRESSION_LZ4, zstd: COMPRESSION_ZSTD }
}

impl CodecSupport {
    /// The codecs of this build.
    pub fn this_build() -> (r: Self)
        ensures
            r == build_codecs(),
    {
        CodecSupport { lz4: COMPRESSION_LZ4, zstd: COMPRESSION_ZSTD }
    }
}

/// Whether a build with the codecs `support` can use `codec`.
pub open spec fn codec_supported(codec: CompressionCodec, support: CodecSupport) -> bool {
    match codec {
        CompressionCodec::Uncompressed => true,
        CompressionCodec::Lz4 => support.lz4,
        CompressionCodec::Zstd => support.zstd,
    }
}

/// The name of a codec.
pub open spec fn codec_name(codec: CompressionCodec) -> Seq<char> {
    match codec {
        CompressionCodec::Uncompressed => "None"@,
        CompressionCodec::Lz4 => "Lz4"@,
        CompressionCodec::Zstd => "Zstd"@,
    }
}

impl CompressionCodec {
    /// Check if the compression codec is part of this build.
    pub fn is_enabled(&self) -> (r: bool)
        ensures
            r == codec_supported(*self, build_codecs()),
    {
        self.is_enabled_in(&CodecSupport::this_build())
    }

    /// Check if the compression codec is part of a build with the codecs `support`.
    pub fn is_enabled_in(&self, support: &CodecSupport) -> (r: bool)
        ensures
            r == codec_supported(*self, *support),
    {
        match self {
            CompressionCodec::Uncompressed => true,
            CompressionCodec::Lz4 => support.lz4,
            CompressionCodec::Zstd => support.zstd,
        }
    }

    /// The name of the codec.
    pub fn name(&self) -> (r: &'static str)
        ensures
            r@ == codec_name(*self),
    {
        match self {
            CompressionCodec::Uncompressed => "None",
            CompressionCodec::Lz4 => "Lz4",
            CompressionCodec::Zstd => "Zstd",
        }
    }
}

/// Partition split mode.
#[derive(Debug, Clone, Copy, PartialEq, Eq, Structural)]
pub enum PartitionSplitMode {
    /// Soft split - allows data to continue writing to old partition
    Soft,
    /// Hard split - immediately switches to new partition
    Hard,
}

impl Default for PartitionSplitMode {
    fn default() -> (r: Self)
        ensures
            r is Soft,
    {
        PartitionSplitMode::Soft
    }
}

/// Storage type for shuffle data.
#[derive(Debug, Clone, Copy, PartialEq, Eq, Structural)]
pub enum StorageType {
    /// Memory storage
    Memory,
    /// Local disk storage
    Hdd,
    /// SSD storage
    Ssd,
    /// HDFS storage
    Hdfs,
    /// S3 storage
    S3,
}

impl Default for StorageType {
    fn default() -> (r: Self)
        ensures
            r is Hdd,
    {
        StorageType::Hdd
    }
}

/// User identifier for quota and authentication.
#[derive(Debug)]
pub struct UserIdentifier {
    pub tenant_id: String,
    pub name: String,
}

impl Clone for UserIdentifier {
    fn clone(&self) -> (r: Self)
        ensures
            r == *self,
    {
        UserIdentifier { tenant_id: self.tenant_id.clone(), name: self.name.clone() }
    }
}

/// Configuration for the Celeborn client.
#[derive(Debug)]
pub struct CelebornConfig {
    /// Application unique identifier
    pub app_id: String,
    /// Master endpoints (host:port)
    pub master_endpoints: Vec<String>,
    /// Whether to enable push replication
    pub push_replicate_enabled: bool,
    /// Push data timeout
    pub push_timeout: Duration,
    /// Fetch data timeout
    pub fetch_timeout: Duration,
    /// RPC timeout
    pub rpc_timeout: Duration,
    /// Maximum retries for RPC calls
    pub max_retries: u32,
    /// Retry wait time
    pub retry_wait: Duration,
    /// Compression codec
    pub compression_codec: CompressionCodec,
    /// Partition split threshold in bytes
    pub partition_split_threshold: u64,
    /// Partition split mode
    pub partition_split_mode: PartitionSplitMode,
    /// Push buffer size
    pub push_buffer_size: usize,
    /// Maximum in-flight requests per connection
    pub max_in_flight_requests: usize,
    /// Maximum in-flight fetch requests for partition reader
    pub fetch_max_reqs_in_flight: usize,
    /// Maximum retries for fetch operations
    pub max_fetch_retries: u32,
    /// Connection pool size per worker
    pub connection_pool_size: usize,
    /// Heartbeat interval
    pub heartbeat_interval: Duration,
    /// User identifier for quota management
    pub user_identifier: Option<UserIdentifier>,
    /// Available storage types
    pub available_storage_types: Vec<StorageType>,
}

/// Whether two configurations hold the same settings.
pub open spec fn same_config(a: CelebornConfig, b: CelebornConfig) -> bool {
    &&& a.app_id == b.app_id
    &&& a.master_endpoints@ == b.master_endpoints@
    &&& a.push_replicate_enabled == b.push_replicate_enabled
    &&& a.push_timeout == b.push_timeout
    &&& a.fetch_timeout == b.fetch_timeout
    &&& a.rpc_timeout == b.rpc_timeout
    &&& a.max_retries == b.max_retries
    &&& a.retry_wait == b.retry_wait
    &&& a.compression_codec == b.compression_codec
    &&& a.partition_split_threshold == b.partition_split_threshold
    &&& a.partition_split_mode == b.partition_split_mode
    &&& a.push_buffer_size == b.push_buffer_size
    &&& a.max_in_flight_requests == b.max_in_flight_requests
    &&& a.fetch_max_reqs_in_flight == b.fetch_max_reqs_in_flight
    &&& a.max_fetch_retries == b.max_fetch_retries
    &&& a.connection_pool_size == b.connection_pool_size
    &&& a.heartbeat_interval == b.heartbeat_interval
    &&& a.user_identifier == b.user_identifier
    &&& a.available_storage_types@ == b.available_storage_types@
}

impl Clone for CelebornConfig {
    fn clone(&self) -> (r: Self)
        ensures
            same_config(r, *self),
    {
        let endpoints: Vec<String> = self.master_endpoints.clone();
        assert(endpoints@ =~= self.master_endpoints@);
        let storage: Vec<StorageType> = self.available_storage_types.clone();
        assert(storage@ =~= self.available_storage_types@);
        CelebornConfig {
            app_id: self.app_id.clone(),
            master_endpoints: endpoints,
            push_replicate_enabled: self.push_replicate_enabled,
            push_timeout: self.push_timeout,
            fetch_timeout: self.fetch_timeout,
            rpc_timeout: self.rpc_timeout,
            max_retries: self.max_retries,
            retry_wait: self.retry_wait,
            compression_codec: self.compression_codec,
            partition_split_threshold: self.partition_split_threshold,
            partition_split_mode: self.partition_split_mode,
            push_buffer_size: self.push_buffer_size,
            max_in_flight_requests: self.max_in_flight_requests,
            fetch_max_reqs_in_flight: self.fetch_max_reqs_in_flight,
            max_fetch_retries: self.max_fetch_retries,
            connection_pool_size: self.connection_pool_size,
            heartbeat_interval: self.heartbeat_interval,
            user_identifier: self.user_identifier.clone(),
            available_storage_types: storage,
        }
    }
}

/// Whether `d` lasts exactly `secs` seconds.
pub open spec fn lasts_secs(d: Duration, secs: nat) -> bool {
    time::nanos(d) == secs * 1_000_000_000
}

pub fn default_push_replicate_enabled() -> (r: bool)
    ensures
        r == false,
{
    false
}

pub fn default_push_timeout() -> (r: Duration)
    ensures
        lasts_secs(r, 120),
{
    Duration::from_secs(120)
}

pub fn default_fetch_timeout() -> (r: Duration)
    ensures
        lasts_secs(r, 600),
{
    Duration::from_secs(600)
}

pub fn default_rpc_timeout() -> (r: Duration)
    ensures
        lasts_secs(r, 30),
{
    Duration::from_secs(30)
}

pub fn default_retry_wait() -> (r: Duration)
    ensures
        lasts_secs(r, 1),
{
    Duration::from_secs(1)
}

pub fn default_heartbeat_interval() -> (r: Duration)
    ensures
        lasts_secs(r, 15),
{
    Duration::from_secs(15)
}

pub fn default_max_retries() -> (r: u32)
    ensures
        r == 3,
{
    3
}

pub fn default_partition_split_threshold() -> (r: u64)
    ensures
        r == 1024 * 1024 * 1024,
{
    1024 * 1024 * 1024
}

pub fn default_push_buffer_size() -> (r: usize)
    ensures
        r == 64 * 1024,
{
    64 * 1024
}

pub fn default_max_in_flight() -> (r: usize)
    ensures
        r == 32,
{
    32
}

pub fn default_fetch_max_reqs_in_flight() -> (r: usize)
    ensures
        r == 3,
{
    3
}

pub fn default_max_fetch_retries() -> (r: u32)
    ensures
        r == 3,
{
    3
}

pub fn default_connection_pool_size() -> (r: usize)
    ensures
        r == 4,
{
    4
}

pub fn default_storage_types() -> (r: Vec<StorageType>)
    ensures
        r@ == seq![StorageType::Hdd, StorageType::Ssd],
{
    let mut v: Vec<StorageType> = Vec::new();
    v.push(StorageType::Hdd);
    v.push(StorageType::Ssd);
    assert(v@ =~= seq![StorageType::Hdd, StorageType::Ssd]);
    v
}

impl Default for CelebornConfig {
    fn default() -> (r: Self)
        ensures
            r.app_id@ == "default-app"@,
            r.master_endpoints@.len() == 1,
            r.master_endpoints@[0]@ == "localhost:9097"@,
            has_default_settings(r),
            r.user_identifier is None,
    {
        let mut endpoints: Vec<String> = Vec::new();
        endpoints.push("localhost:9097".to_owned());
        CelebornConfig {
            app_id: "default-app".to_owned(),
            master_endpoints: endpoints,
            push_replicate_enabled: default_push_replicate_enabled(),
            push_timeout: default_push_timeout(),
            fetch_timeout: default_fetch_timeout(),
            rpc_timeout: default_rpc_timeout(),
            max_retries: default_max_retries(),
            retry_wait: default_retry_wait(),
            compression_codec: CompressionCodec::default(),
            partition_split_threshold: default_partition_split_threshold(),
            partition_split_mode: PartitionSplitMode::default(),
            push_buffer_size: default_push_buffer_size(),
            max_in_flight_requests: default_max_in_flight(),
            fetch_max_reqs_in_flight: default_fetch_max_reqs_in_flight(),
            max_fetch_retries: default_max_fetch_retries(),
            connection_pool_size: default_connection_pool_size(),
            heartbeat_interval: default_heartbeat_interval(),
            user_identifier: None,
            available_storage_types: default_storage_types(),
        }
    }
}

/// Whether everything but the identity of the application and of the user is at its default.
pub open spec fn has_default_settings(c: CelebornConfig) -> bool {
    &&& !c.push_replicate_enabled
    &&& lasts_secs(c.push_timeout, 120)
    &&& lasts_secs(c.fetch_timeout, 600)
    &&& lasts_secs(c.rpc_timeout, 30)
    &&& c.max_retries == 3
    &&& lasts_secs(c.retry_wait, 1)
    &&& c.compression_codec is Lz4
    &&& c.partition_split_threshold == 1024 * 1024 * 1024
    &&& c.partition_split_mode is Soft
    &&& c.push_buffer_size == 64 * 1024
    &&& c.max_in_flight_requests == 32
    &&& c.fetch_max_reqs_in_flight == 3
    &&& c.max_fetch_retries == 3
    &&& c.connection_pool_size == 4
    &&& lasts_secs(c.heartbeat_interval, 15)
    &&& c.available_storage_types@ == seq![StorageType::Hdd, StorageType::Ssd]
}

/// The first endpoint without a colon, if there is one.
pub open spec fn first_bad_endpoint(endpoints: Seq<String>) -> Option<int> {
    if exists|i: int| #![trigger endpoints[i]] bad_endpoint_at(endpoints, i) {
        Some(choose|i: int| #![trigger endpoints[i]] bad_endpoint_at(endpoints, i))
    } else {
        None
    }
}

/// Whether endpoint `i` is the first one that has no colon.
pub open spec fn bad_endpoint_at(endpoints: Seq<String>, i: int) -> bool {
    &&& 0 <= i < endpoints.len()
    &&& !endpoints[i]@.contains(':')
    &&& forall|j: int| #![trigger endpoints[j]] 0 <= j < i ==> endpoints[j]@.contains(':')
}

/// What is wrong with a configuration in a build with the codecs `support`: the first
/// rule that it breaks, in the order application id, endpoints, endpoint format, codec.
pub open spec fn config_fault(c: CelebornConfig, support: CodecSupport) -> Option<Seq<char>> {
    if c.app_id@.len() == 0 {
        Some("app_id cannot be empty"@)
    } else if c.master_endpoints@.len() == 0 {
        Some("master_endpoints cannot be empty"@)
    } else if first_bad_endpoint(c.master_endpoints@) is Some {
        Some(
            "Invalid master endpoint format: "@ + c.master_endpoints@[first_bad_endpoint(
                c.master_endpoints@,
            )->0]@ + ". Expected host:port"@,
        )
    } else if !codec_supported(c.compression_codec, support) {
        Some(
            "Compression codec "@ + codec_name(c.compression_codec)
                + " is selected but the corresponding feature is not enabled"@,
        )
    } else {
        None
    }
}

/// Whether a check ended as the fault `fault` says: `Ok` without a fault, else a
/// configuration error with the text of the fault.
pub open spec fn reports(r: std::result::Result<(), CelebornError>, fault: Option<Seq<char>>) -> bool {
    match fault {
        None => r is Ok,
        Some(t) => r matches Err(CelebornError::Config(m)) && m@ == t,
    }
}

impl CelebornConfig {
    /// Create a new configuration builder.
    pub fn builder() -> (r: CelebornConfigBuilder)
        ensures
            r.is_blank(),
    {
        CelebornConfigBuilder::default()
    }

    /// Validate the configuration.
    pub fn validate(&self) -> (r: Result<()>)
        ensures
            reports(r, config_fault(*self, build_codecs())),
    {
        self.validate_in(&CodecSupport::this_build())
    }

    /// Validate the configuration for a build with the codecs `support`.
    pub fn validate_in(&self, support: &CodecSupport) -> (r: Result<()>)
        ensures
            reports(r, config_fault(*self, *support)),
    {
        if self.app_id.as_str().is_empty() {
            return Err(CelebornError::Config("app_id cannot be empty".to_owned()));
        }
        if self.master_endpoints.is_empty() {
            return Err(CelebornError::Config("master_endpoints cannot be empty".to_owned()));
        }
        let mut i: usize = 0;
        while i < self.master_endpoints.len()
            invariant
                i <= self.master_endpoints@.len(),
                self.app_id@.len() > 0,
                self.master_endpoints@.len() > 0,
                forall|j: int|
                    #![trigger self.master_endpoints@[j]]
                    0 <= j < i ==> self.master_endpoints@[j]@.contains(':'),
            decreases self.master_endpoints@.len() - i,
        {
            let endpoint: &String = &self.master_endpoints[i];
            if !text::contains_char(endpoint.as_str(), ':') {
                let mut m: String = text::join("Invalid master endpoint format: ", endpoint.as_str());
                m.append(". Expected host:port");
                proof {
                    let eps = self.master_endpoints@;
                    assert(bad_endpoint_at(eps, i as int));
                    let k = first_bad_endpoint(eps)->0;
                    assert(bad_endpoint_at(eps, k));
                    assert(k == i) by {
                        if k < i {
                            assert(eps[k]@.contains(':'));
                        } else if k > i {
                            assert(eps[i as int]@.contains(':'));
                        }
                    }
                }
                return Err(CelebornError::Config(m));
            }
            i += 1;
        }
        assert(first_bad_endpoint(self.master_endpoints@) is None);
        if !self.compression_codec.is_enabled_in(support) {
            let mut m: String = text::join("Compression codec ", self.compression_codec.name());
            m.append(" is selected but the corresponding feature is not enabled");
            return Err(CelebornError::Config(m));
        }
        Ok(())
    }
}

/// Builder for CelebornConfig.
#[derive(Debug)]
pub struct CelebornConfigBuilder {
    pub app_id: Option<String>,
    pub master_endpoints: Vec<String>,
    pub push_replicate_enabled: Option<bool>,
    pub push_timeout: Option<Duration>,
    pub fetch_timeout: Option<Duration>,
    pub rpc_timeout: Option<Duration>,
    pub max_retries: Option<u32>,
    pub retry_wait: Option<Duration>,
    pub compression_codec: Option<CompressionCodec>,
    pub partition_split_threshold: Option<u64>,
    pub partition_split_mode: Option<PartitionSplitMode>,
    pub push_buffer_size: Option<usize>,
    pub max_in_flight_requests: Option<usize>,
    pub fetch_max_reqs_in_flight: Option<usize>,
    pub max_fetch_retries: Option<u32>,
    pub connection_pool_size: Option<usize>,
    pub heartbeat_interval: Option<Duration>,
    pub user_identifier: Option<UserIdentifier>,
    pub available_storage_types: Option<Vec<StorageType>>,
}

impl Default for CelebornConfigBuilder {
    fn default() -> (r: Self)
        ensures
            r.is_blank(),
    {
        CelebornConfigBuilder {
            app_id: None,
            master_endpoints: Vec::new(),
            push_replicate_enabled: None,
            push_timeout: None,
            fetch_timeout: None,
            rpc_timeout: None,
            max_retries: None,
            retry_wait: None,
            compression_codec: None,
            partition_split_threshold: None,
            partition_split_mode: None,
            push_buffer_size: None,
            max_in_flight_requests: None,
            fetch_max_reqs_in_flight: None,
            max_fetch_retries: None,
            connection_pool_size: None,
            heartbeat_interval: None,
            user_identifier: None,
            available_storage_types: None,
        }
    }
}

impl CelebornConfigBuilder {
    /// Whether nothing has been set yet.
    pub open spec fn is_blank(&self) -> bool {
        &&& self.app_id is None
        &&& self.master_endpoints@.len() == 0
        &&& self.push_replicate_enabled is None
        &&& self.push_timeout is None
        &&& self.fetch_timeout is None
        &&& self.rpc_timeout is None
        &&& self.max_retries is None
        &&& self.retry_wait is None
        &&& self.compression_codec is None
        &&& self.partition_split_threshold is None
        &&& self.partition_split_mode is None
        &&& self.push_buffer_size is None
        &&& self.max_in_flight_requests is None
        &&& self.fetch_max_reqs_in_flight is None
        &&& self.max_fetch_retries is None
        &&& self.connection_pool_size is None
        &&& self.heartbeat_interval is None
        &&& self.user_identifier is None
        &&& self.available_storage_types is None
    }

    /// Set the application ID.
    pub fn app_id(self, app_id: &str) -> (r: Self)
        ensures
            r.app_id matches Some(id) && id@ == app_id@,
            r == (CelebornConfigBuilder { app_id: r.app_id, ..self }),
    {
        let mut b: CelebornConfigBuilder = self;
        b.app_id = Some(app_id.to_owned());
        b
    }

    /// Set the master endpoints.
    pub fn master_endpoints(self, endpoints: Vec<String>) -> (r: Self)
        ensures
            r == (CelebornConfigBuilder { master_endpoints: endpoints, ..self }),
    {
        let mut b: CelebornConfigBuilder = self;
        b.master_endpoints = endpoints;
        b
    }

    /// Add a master endpoint.
    pub fn add_master_endpoint(self, endpoint: &str) -> (r: Self)
        ensures
            r.master_endpoints@.len() == self.master_endpoints@.len() + 1,
            r.master_endpoints@.drop_last() == self.master_endpoints@,
            r.master_endpoints@.last()@ == endpoint@,
            r == (CelebornConfigBuilder { master_endpoints: r.master_endpoints, ..self }),
    {
        let mut b: CelebornConfigBuilder = self;
        b.master_endpoints.push(endpoint.to_owned());
        assert(b.master_endpoints@.drop_last() =~= self.master_endpoints@);
        b
    }

    /// Enable or disable push replication.
    pub fn push_replicate_enabled(self, enabled: bool) -> (r: Self)
        ensures
            r == (CelebornConfigBuilder { push_replicate_enabled: Some(enabled), ..self }),
    {
        let mut b: CelebornConfigBuilder = self;
        b.push_replicate_enabled = Some(enabled);
        b
    }

    /// Set the push timeout.
    pub fn push_timeout(self, timeout: Duration) -> (r: Self)
        ensures
            r == (CelebornConfigBuilder { push_timeout: Some(timeout), ..self }),
    {
        let mut b: CelebornConfigBuilder = self;
        b.push_timeout = Some(timeout);
        b
    }

    /// Set the fetch timeout.
    pub fn fetch_timeout(self, timeout: Duration) -> (r: Self)
        ensures
            r == (CelebornConfigBuilder { fetch_timeout: Some(timeout), ..self }),
    {
        let mut b: CelebornConfigBuilder = self;
        b.fetch_timeout = Some(timeout);
        b
    }

    /// Set the RPC timeout.
    pub fn rpc_timeout(self, timeout: Duration) -> (r: Self)
        ensures
            r == (CelebornConfigBuilder { rpc_timeout: Some(timeout), ..self }),
    {
        let mut b: CelebornConfigBuilder = self;
        b.rpc_timeout = Some(timeout);
        b
    }

    /// Set the maximum retries.
    pub fn max_retries(self, retries: u32) -> (r: Self)
        ensures
            r == (CelebornConfigBuilder { max_retries: Some(retries), ..self }),
    {
        let mut b: CelebornConfigBuilder = self;
        b.max_retries = Some(retries);
        b
    }

    /// Set the compression codec.
    pub fn compression_codec(self, codec: CompressionCodec) -> (r: Self)
        ensures
            r == (CelebornConfigBuilder { compression_codec: Some(codec), ..self }),
    {
        let mut b: CelebornConfigBuilder = self;
        b.compression_codec = Some(codec);
        b
    }

    /// Set the partition split threshold.
    pub fn partition_split_threshold(self, threshold: u64) -> (r: Self)
        ensures
            r == (CelebornConfigBuilder { partition_split_threshold: Some(threshold), ..self }),
    {
        let mut b: CelebornConfigBuilder = self;
        b.partition_split_threshold = Some(threshold);
        b
    }

    /// Set the push buffer size.
    pub fn push_buffer_size(self, size: usize) -> (r: Self)
        ensures
            r == (CelebornConfigBuilder { push_buffer_size: Some(size), ..self }),
    {
        let mut b: CelebornConfigBuilder = self;
        b.push_buffer_size = Some(size);
        b
    }

    /// Set the maximum in-flight requests per connection.
    pub fn max_in_flight_requests(self, count: usize) -> (r: Self)
        ensures
            r == (CelebornConfigBuilder { max_in_flight_requests: Some(count), ..self }),
    {
        let mut b: CelebornConfigBuilder = self;
        b.max_in_flight_requests = Some(count);
        b
    }

    /// Set the connection pool size.
    pub fn connection_pool_size(self, size: usize) -> (r: Self)
        ensures
            r == (CelebornConfigBuilder { connection_pool_size: Some(size), ..self }),
    {
        let mut b: CelebornConfigBuilder = self;
        b.connection_pool_size = Some(size);
        b
    }

    /// Set the user identifier.
    pub fn user_identifier(self, tenant_id: &str, name: &str) -> (r: Self)
        ensures
            r.user_identifier matches Some(u) && u.tenant_id@ == tenant_id@ && u.name@ == name@,
            r == (CelebornConfigBuilder { user_identifier: r.user_identifier, ..self }),
    {
        let mut b: CelebornConfigBuilder = self;
        b.user_identifier = Some(
            UserIdentifier { tenant_id: tenant_id.to_owned(), name: name.to_owned() },
        );
        b
    }

    /// Whether `c` holds what was set here, and the default for everything that was not.
    pub open spec fn yields(&self, c: CelebornConfig) -> bool {
        &&& self.app_id == Some(c.app_id)
        &&& c.master_endpoints == self.master_endpoints
        &&& c.user_identifier == self.user_identifier
        &&& match self.push_replicate_enabled {
            Some(v) => c.push_replicate_enabled == v,
            None => !c.push_replicate_enabled,
        }
        &&& match self.push_timeout {
            Some(v) => c.push_timeout == v,
            None => lasts_secs(c.push_timeout, 120),
        }
        &&& match self.fetch_timeout {
            Some(v) => c.fetch_timeout == v,
            None => lasts_secs(c.fetch_timeout, 600),
        }
        &&& match self.rpc_timeout {
            Some(v) => c.rpc_timeout == v,
            None => lasts_secs(c.rpc_timeout, 30),
        }
        &&& match self.max_retries {
            Some(v) => c.max_retries == v,
            None => c.max_retries == 3,
        }
        &&& match self.retry_wait {
            Some(v) => c.retry_wait == v,
            None => lasts_secs(c.retry_wait, 1),
        }
        &&& match self.compression_codec {
            Some(v) => c.compression_codec == v,
            None => c.compression_codec is Lz4,
        }
        &&& match self.partition_split_threshold {
            Some(v) => c.partition_split_threshold == v,
            None => c.partition_split_threshold == 1024 * 1024 * 1024,
        }
        &&& match self.partition_split_mode {
            Some(v) => c.partition_split_mode == v,
            None => c.partition_split_mode is Soft,
        }
        &&& match self.push_buffer_size {
            Some(v) => c.push_buffer_size == v,
            None => c.push_buffer_size == 64 * 1024,
        }
        &&& match self.max_in_flight_requests {
            Some(v) => c.max_in_flight_requests == v,
            None => c.max_in_flight_requests == 32,
        }
        &&& match self.fetch_max_reqs_in_flight {
            Some(v) => c.fetch_max_reqs_in_flight == v,
            None => c.fetch_max_reqs_in_flight == 3,
        }
        &&& match self.max_fetch_retries {
            Some(v) => c.max_fetch_retries == v,
            None => c.max_fetch_retries == 3,
        }
        &&& match self.connection_pool_size {
            Some(v) => c.connection_pool_size == v,
            None => c.connection_pool_size == 4,
        }
        &&& match self.heartbeat_interval {
            Some(v) => c.heartbeat_interval == v,
            None => lasts_secs(c.heartbeat_interval, 15),
        }
        &&& match self.available_storage_types {
            Some(v) => c.available_storage_types == v,
            None => c.available_storage_types@ == seq![StorageType::Hdd, StorageType::Ssd],
        }
    }

    /// The codec that a configuration built from here would use.
    pub open spec fn chosen_codec(&self) -> CompressionCodec {
        match self.compression_codec {
            Some(c) => c,
            None => CompressionCodec::Lz4,
        }
    }

    /// What is wrong with the settings: the missing application id first, then the
    /// first rule that a configuration with these settings breaks.
    pub open spec fn fault(&self, support: CodecSupport) -> Option<Seq<char>> {
        if self.app_id is None {
            Some("app_id is required"@)
        } else if self.app_id->0@.len() == 0 {
            Some("app_id cannot be empty"@)
        } else if self.master_endpoints@.len() == 0 {
            Some("master_endpoints cannot be empty"@)
        } else if first_bad_endpoint(self.master_endpoints@) is Some {
            Some(
                "Invalid master endpoint format: "@ + self.master_endpoints@[first_bad_endpoint(
                    self.master_endpoints@,
                )->0]@ + ". Expected host:port"@,
            )
        } else if !codec_supported(self.chosen_codec(), support) {
            Some(
                "Compression codec "@ + codec_name(self.chosen_codec())
                    + " is selected but the corresponding feature is not enabled"@,
            )
        } else {
            None
        }
    }

    /// Whether a build ended as it must: with the configuration that the settings give,
    /// or with a configuration error that names the fault.
    pub open spec fn built(
        &self,
        r: std::result::Result<CelebornConfig, CelebornError>,
        support: CodecSupport,
    ) -> bool {
        match self.fault(support) {
            None => r matches Ok(c) && self.yields(c),
            Some(t) => r matches Err(CelebornError::Config(m)) && m@ == t,
        }
    }

    /// Build the configuration.
    pub fn build(self) -> (r: Result<CelebornConfig>)
        ensures
            self.built(r, build_codecs()),
    {
        self.build_in(&CodecSupport::this_build())
    }

    /// Build the configuration for a build with the codecs `support`.
    pub fn build_in(self, support: &CodecSupport) -> (r: Result<CelebornConfig>)
        ensures
            self.built(r, *support),
    {
        let app_id: String = match self.app_id {
            Some(id) => id,
            None => {
                return Err(CelebornError::Config("app_id is required".to_owned()));
            },
        };
        let config: CelebornConfig = CelebornConfig {
            app_id,
            master_endpoints: self.master_endpoints,
            push_replicate_enabled: self.push_replicate_enabled.unwrap_or(default_push_replicate_enabled()),
            push_timeout: self.push_timeout.unwrap_or(default_push_timeout()),
            fetch_timeout: self.fetch_timeout.unwrap_or(default_fetch_timeout()),
            rpc_timeout: self.rpc_timeout.unwrap_or(default_rpc_timeout()),
            max_retries: self.max_retries.unwrap_or(default_max_retries()),
            retry_wait: self.retry_wait.unwrap_or(default_retry_wait()),
            compression_codec: self.compression_codec.unwrap_or(CompressionCodec::default()),
            partition_split_threshold: self.partition_split_threshold.unwrap_or(
                default_partition_split_threshold(),
            ),
            partition_split_mode: self.partition_split_mode.unwrap_or(PartitionSplitMode::default()),
            push_buffer_size: self.push_buffer_size.unwrap_or(default_push_buffer_size()),
            max_in_flight_requests: self.max_in_flight_requests.unwrap_or(default_max_in_flight()),
            fetch_max_reqs_in_flight: self.fetch_max_reqs_in_flight.unwrap_or(default_fetch_max_reqs_in_flight()),
            max_fetch_retries: self.max_fetch_retries.unwrap_or(default_max_fetch_retries()),
            connection_pool_size: self.connection_pool_size.unwrap_or(default_connection_pool_size()),
            heartbeat_interval: self.heartbeat_interval.unwrap_or(default_heartbeat_interval()),
            user_identifier: self.user_identifier,
            available_storage_types: self.available_storage_types.unwrap_or(default_storage_types()),
        };
        match config.validate_in(support) {
            Ok(()) => Ok(config),
            Err(e) => Err(e),
        }
    }
}

/// A configuration that a builder gave is valid.
pub proof fn law_built_config_is_valid(
    b: CelebornConfigBuilder,
    c: CelebornConfig,
    support: CodecSupport,
)
    requires
        b.built(Ok::<CelebornConfig, CelebornError>(c), support),
    ensures
        config_fault(c, support) is None,
{
}

/// Building fails exactly when the configuration that the settings describe is not
/// valid, or when no application id was set.
pub proof fn law_build_agrees_with_validate(
    b: CelebornConfigBuilder,
    c: CelebornConfig,
    support: CodecSupport,
)
    requires
        b.yields(c),
    ensures
        b.fault(support) == config_fault(c, support),
{
}

} // verus!
