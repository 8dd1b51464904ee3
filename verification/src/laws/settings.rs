//! What a client is configured with, and what is wrong with a configuration.

use std::time::Duration;

use vstd::prelude::*;

use crate::config;
use crate::config::{
    CelebornConfig, CelebornConfigBuilder, CodecSupport, CompressionCodec, StorageType,
};
use crate::error::CelebornError;
use crate::time;

verus! {

/// The seconds of a duration, in nanoseconds.
pub open spec fn seconds(d: Duration, n: int) -> bool {
    time::nanos(d) == n * 1_000_000_000
}

/// What is set is what a built configuration has; what is not set is the default of that
/// setting.
pub proof fn law_settings_are_taken_over(b: CelebornConfigBuilder, c: CelebornConfig)
    requires
        b.yields(c),
    ensures
        b.app_id == Some(c.app_id),
        c.master_endpoints == b.master_endpoints,
        c.user_identifier == b.user_identifier,
        b.push_replicate_enabled is Some ==> c.push_replicate_enabled
            == b.push_replicate_enabled->0,
        b.push_timeout is Some ==> c.push_timeout == b.push_timeout->0,
        b.fetch_timeout is Some ==> c.fetch_timeout == b.fetch_timeout->0,
        b.rpc_timeout is Some ==> c.rpc_timeout == b.rpc_timeout->0,
        b.max_retries is Some ==> c.max_retries == b.max_retries->0,
        b.retry_wait is Some ==> c.retry_wait == b.retry_wait->0,
        b.compression_codec is Some ==> c.compression_codec == b.compression_codec->0,
        b.partition_split_threshold is Some ==> c.partition_split_threshold
            == b.partition_split_threshold->0,
        b.partition_split_mode is Some ==> c.partition_split_mode == b.partition_split_mode->0,
        b.push_buffer_size is Some ==> c.push_buffer_size == b.push_buffer_size->0,
        b.max_in_flight_requests is Some ==> c.max_in_flight_requests
            == b.max_in_flight_requests->0,
        b.fetch_max_reqs_in_flight is Some ==> c.fetch_max_reqs_in_flight
            == b.fetch_max_reqs_in_flight->0,
        b.max_fetch_retries is Some ==> c.max_fetch_retries == b.max_fetch_retries->0,
        b.connection_pool_size is Some ==> c.connection_pool_size == b.connection_pool_size->0,
        b.heartbeat_interval is Some ==> c.heartbeat_interval == b.heartbeat_interval->0,
        b.available_storage_types is Some ==> c.available_storage_types
            == b.available_storage_types->0,
        b.push_replicate_enabled is None ==> !c.push_replicate_enabled,
        b.push_timeout is None ==> seconds(c.push_timeout, 120),
        b.fetch_timeout is None ==> seconds(c.fetch_timeout, 600),
        b.rpc_timeout is None ==> seconds(c.rpc_timeout, 30),
        b.max_retries is None ==> c.max_retries == 3,
        b.retry_wait is None ==> seconds(c.retry_wait, 1),
        b.compression_codec is None ==> c.compression_codec is Lz4,
        b.partition_split_threshold is None ==> c.partition_split_threshold == 1_073_741_824,
        b.partition_split_mode is None ==> c.partition_split_mode is Soft,
        b.push_buffer_size is None ==> c.push_buffer_size == 65_536,
        b.max_in_flight_requests is None ==> c.max_in_flight_requests == 32,
        b.fetch_max_reqs_in_flight is None ==> c.fetch_max_reqs_in_flight == 3,
        b.max_fetch_retries is None ==> c.max_fetch_retries == 3,
        b.connection_pool_size is None ==> c.connection_pool_size == 4,
        b.heartbeat_interval is None ==> seconds(c.heartbeat_interval, 15),
        b.available_storage_types is None ==> c.available_storage_types@ == seq![
            StorageType::Hdd,
            StorageType::Ssd,
        ],
{
}

/// What a configuration has by default.
pub proof fn law_default_settings(c: CelebornConfig)
    requires
        config::has_default_settings(c),
    ensures
        !c.push_replicate_enabled,
        seconds(c.push_timeout, 120),
        seconds(c.fetch_timeout, 600),
        seconds(c.rpc_timeout, 30),
        c.max_retries == 3,
        seconds(c.retry_wait, 1),
        c.compression_codec is Lz4,
        c.partition_split_threshold == 1_073_741_824,
        c.partition_split_mode is Soft,
        c.push_buffer_size == 65_536,
        c.max_in_flight_requests == 32,
        c.fetch_max_reqs_in_flight == 3,
        c.max_fetch_retries == 3,
        c.connection_pool_size == 4,
        seconds(c.heartbeat_interval, 15),
        c.available_storage_types@ == seq![StorageType::Hdd, StorageType::Ssd],
{
}

/// Whether a configuration can be used: it names an application and masters, each with a port,
/// and its codec is part of the build.
pub open spec fn is_usable(c: CelebornConfig, support: CodecSupport) -> bool {
    &&& c.app_id@.len() > 0
    &&& c.master_endpoints@.len() > 0
    &&& forall|i: int|
        0 <= i < c.master_endpoints@.len() ==> (#[trigger] c.master_endpoints@[i])@.contains(':')
    &&& c.compression_codec is Lz4 ==> support.lz4
    &&& c.compression_codec is Zstd ==> support.zstd
}

/// A configuration passes just if it can be used.
pub proof fn law_usable_configurations_pass(
    c: CelebornConfig,
    support: CodecSupport,
    r: std::result::Result<(), CelebornError>,
)
    requires
        config::reports(r, config::config_fault(c, support)),
    ensures
        r is Ok <==> is_usable(c, support),
        r is Err ==> r->Err_0 is Config,
{
    let s = c.master_endpoints@;
    if forall|i: int| 0 <= i < s.len() ==> (#[trigger] s[i])@.contains(':') {
        assert(config::first_bad_endpoint(s) is None);
    } else {
        let i = choose|i: int| 0 <= i < s.len() && !(#[trigger] s[i])@.contains(':');
        let k = lemma_first_bad(s, i);
        assert(config::bad_endpoint_at(s, k));
        let _ = s[k];
        assert(config::first_bad_endpoint(s) is Some);
    }
}

pub(crate) proof fn lemma_first_bad(s: Seq<String>, i: int) -> (k: int)
    requires
        0 <= i < s.len(),
        !s[i]@.contains(':'),
    ensures
        config::bad_endpoint_at(s, k),
    decreases i,
{
    if forall|j: int| #![trigger s[j]] 0 <= j < i ==> s[j]@.contains(':') {
        i
    } else {
        let j = choose|j: int| #![trigger s[j]] 0 <= j < i && !s[j]@.contains(':');
        lemma_first_bad(s, j)
    }
}

/// The first master without a port is the one that is complained of.
pub proof fn law_first_bad_master_is_named(
    c: CelebornConfig,
    support: CodecSupport,
    k: int,
    r: std::result::Result<(), CelebornError>,
)
    requires
        c.app_id@.len() > 0,
        0 <= k < c.master_endpoints@.len(),
        !c.master_endpoints@[k]@.contains(':'),
        forall|j: int|
            0 <= j < k ==> (#[trigger] c.master_endpoints@[j])@.contains(':'),
        config::reports(r, config::config_fault(c, support)),
    ensures
        r matches Err(CelebornError::Config(m)) && m@ == "Invalid master endpoint format: "@
            + c.master_endpoints@[k]@ + ". Expected host:port"@,
{
    let s = c.master_endpoints@;
    assert(config::bad_endpoint_at(s, k));
    let i = config::first_bad_endpoint(s)->0;
    assert(config::bad_endpoint_at(s, i));
    if i < k {
        assert(s[i]@.contains(':'));
    }
    if k < i {
        assert(s[k]@.contains(':'));
    }
}

/// A copy of a configuration has each of its settings.
pub proof fn law_copy_has_each_setting(a: CelebornConfig, b: CelebornConfig)
    requires
        config::same_config(a, b),
    ensures
        a.app_id@ == b.app_id@,
        a.master_endpoints@ == b.master_endpoints@,
        a.push_replicate_enabled == b.push_replicate_enabled,
        time::nanos(a.push_timeout) == time::nanos(b.push_timeout),
        time::nanos(a.fetch_timeout) == time::nanos(b.fetch_timeout),
        time::nanos(a.rpc_timeout) == time::nanos(b.rpc_timeout),
        a.max_retries == b.max_retries,
        time::nanos(a.retry_wait) == time::nanos(b.retry_wait),
        a.compression_codec == b.compression_codec,
        a.partition_split_threshold == b.partition_split_threshold,
        a.partition_split_mode == b.partition_split_mode,
        a.push_buffer_size == b.push_buffer_size,
        a.max_in_flight_requests == b.max_in_flight_requests,
        a.fetch_max_reqs_in_flight == b.fetch_max_reqs_in_flight,
        a.max_fetch_retries == b.max_fetch_retries,
        a.connection_pool_size == b.connection_pool_size,
        time::nanos(a.heartbeat_interval) == time::nanos(b.heartbeat_interval),
        a.user_identifier == b.user_identifier,
        a.available_storage_types@ == b.available_storage_types@,
{
}

/// Every codec is part of the build, and all of them can be chosen.
pub proof fn law_build_has_every_codec(codec: CompressionCodec)
    ensures
        config::codec_supported(codec, config::build_codecs()),
{
}

/// A duration in milliseconds is its nanoseconds without what is left below a million.
pub proof fn law_milliseconds(d: Duration)
    requires
        time::nanos(d) < 0x1_0000_0000_0000_0000,
    ensures
        time::millis(d) * 1_000_000 <= time::nanos(d) < (time::millis(d) + 1) * 1_000_000,
{
}

} // verus!
