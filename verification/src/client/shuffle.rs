//! Shuffle client: pushing and fetching the data of shuffles in one process.

use std::collections::HashMap;

use vstd::prelude::*;

use crate::client::compression;
use crate::client::fetch::{IteratorModel, ShuffleDataIterator};
use crate::client::lifecycle::LifecycleManager;
use crate::client::locations;
use crate::client::push;
use crate::client::push::{DataPusher, MergedPart, PushAction, PushEvent, PushJob};
use crate::config;
use crate::config::CelebornConfig;
use crate::error::{CelebornError, Result};
use crate::network::connection::PoolEntry;
use crate::protocol::PartitionLocation;
use crate::string_map::StringMap;
use crate::tables;
use crate::text;

verus! {

broadcast use vstd::std_specs::hash::group_hash_axioms;

/// Shuffle client for data push and fetch operations.
pub struct ShuffleClient {
    /// Configuration
    pub config: CelebornConfig,
    /// Lifecycle manager
    pub lifecycle_manager: LifecycleManager,
    /// Data pusher
    pub data_pusher: DataPusher,
}

impl ShuffleClient {
    /// No buffer at rest is full.
    pub open spec fn wf(&self) -> bool {
        self.data_pusher.wf()
    }

    /// Create a new shuffle client.
    pub fn new(config: CelebornConfig, lifecycle_manager: LifecycleManager) -> (r: Self)
        requires
            2 * config.push_buffer_size <= isize::MAX,
            4 * config.max_in_flight_requests <= usize::MAX,
        ensures
            r.wf(),
            r.config == config,
            r.lifecycle_manager == lifecycle_manager,
            config::same_config(r.data_pusher.config, config),
            !r.data_pusher.revives,
            r.data_pusher.max_revive_retries == config.max_retries,
            r.data_pusher.max_in_flight == config.max_in_flight_requests * 4,
            r.data_pusher.push_connection_pool.pool_size == config.connection_pool_size,
            r.data_pusher.push_connection_pool.max_in_flight == config.max_in_flight_requests,
            r.data_pusher.push_connection_pool.entries() == Map::<Seq<char>, PoolEntry>::empty(),
            push::pending_models(r.data_pusher.pending_buffers@) == Map::<
                Seq<char>,
                push::PushModel,
            >::empty(),
    {
        let data_pusher: DataPusher = DataPusher::new(config.clone());
        assert(push::pending_models(data_pusher.pending_buffers@) =~= Map::<
            Seq<char>,
            push::PushModel,
        >::empty());
        ShuffleClient { config, lifecycle_manager, data_pusher }
    }

    /// Push shuffle data to a partition: what is to be done after an event.
    pub fn push_data(&mut self, job: PushJob, event: PushEvent) -> (r: (PushJob, PushAction))
        requires
            old(self).wf(),
            push::fits(job.stage, event),
            compression::can_compress(
                old(self).data_pusher.config.compression_codec,
                job.data@.len(),
            ),
        ensures
            final(self).wf(),
            final(self).config == old(self).config,
            final(self).data_pusher.same_rest(&old(self).data_pusher),
            final(self).lifecycle_manager.same_rest(&old(self).lifecycle_manager),
            push::pushed_on(
                old(self).data_pusher.rules(&old(self).lifecycle_manager),
                old(self).data_pusher.world(&old(self).lifecycle_manager),
                final(self).data_pusher.world(&final(self).lifecycle_manager),
                job,
                event,
                r.0,
                r.1,
            ),
    {
        self.data_pusher.push_data_with_retry(&mut self.lifecycle_manager, job, event)
    }

    /// Push merged data to multiple partitions: the parts that each worker is to be sent, by
    /// its address.
    pub fn push_merged_data(&self, shuffle_id: i32, partition_data: &Vec<(i32, Vec<u8>)>) -> (r:
        Result<StringMap<Vec<MergedPart>>>)
        requires
            forall|i: int|
                0 <= i < partition_data@.len() ==> compression::can_compress(
                    self.data_pusher.config.compression_codec,
                    (#[trigger] partition_data@[i]).1@.len(),
                ),
        ensures
            self.data_pusher.merges(r, &self.lifecycle_manager, shuffle_id, partition_data@),
    {
        self.data_pusher.push_merged_data(&self.lifecycle_manager, shuffle_id, partition_data)
    }

    /// The iterator over the locations of a partition, or why there is none.
    pub open spec fn fetches(
        &self,
        shuffle_id: i32,
        partition_id: i32,
        file_groups: &HashMap<i32, Vec<PartitionLocation>>,
        r: Result<ShuffleDataIterator>,
    ) -> bool {
        let found = locations::held(locations::table(file_groups@), partition_id);
        if found.len() == 0 {
            r == Err::<ShuffleDataIterator, CelebornError>(
                CelebornError::PartitionNotFound { shuffle_id, partition_id },
            )
        } else {
            &&& r matches Ok(it)
            &&& locations::models(it.locations@) == found
            &&& it.shuffle_key@ == text::key_text(
                self.lifecycle_manager.config.app_id@,
                shuffle_id,
            )
            &&& config::same_config(it.config, self.config)
            &&& it.connection_pool.pool_size == self.config.connection_pool_size
            &&& it.connection_pool.max_in_flight == self.config.max_in_flight_requests
            &&& it.connection_pool.entries() == Map::<Seq<char>, PoolEntry>::empty()
            &&& it.model() == (IteratorModel {
                locations: it.locations@,
                stream: None,
                chunks: Seq::empty(),
                finished: false,
            })
        }
    }

    /// Fetch shuffle data for a partition: an iterator over its locations in the file
    /// groups of the shuffle.
    pub fn fetch_data(
        &self,
        shuffle_id: i32,
        partition_id: i32,
        file_groups: &HashMap<i32, Vec<PartitionLocation>>,
    ) -> (r: Result<ShuffleDataIterator>)
        ensures
            self.fetches(shuffle_id, partition_id, file_groups, r),
    {
        match file_groups.get(&partition_id) {
            None => Err(CelebornError::PartitionNotFound { shuffle_id, partition_id }),
            Some(found) => {
                if found.len() == 0 {
                    assert(locations::models(found@).len() == 0);
                    return Err(CelebornError::PartitionNotFound { shuffle_id, partition_id });
                }
                assert(locations::models(found@).len() > 0);
                Ok(
                    ShuffleDataIterator::new(
                        self.config.clone(),
                        self.lifecycle_manager.shuffle_key(shuffle_id),
                        locations::clone_locations(found),
                    ),
                )
            },
        }
    }

    /// The buffers that are to be flushed.
    pub fn flush(&self) -> (r: Vec<String>)
        requires
            self.wf(),
        ensures
            tables::texts(r@).no_duplicates(),
            tables::texts(r@).to_set() == self.data_pusher.pending_buffers@.dom(),
    {
        self.data_pusher.flush()
    }

    /// Get the lifecycle manager.
    pub fn lifecycle_manager(&self) -> (r: &LifecycleManager)
        ensures
            *r == self.lifecycle_manager,
    {
        &self.lifecycle_manager
    }
}

} // verus!
