//! Repartitioning of data for the push to Celeborn workers.
//!
//! It is designed to be used by query engines like Apache DataFusion, Apache Comet, etc.

pub mod client_manager;
pub mod hash_repartitioner;

pub use client_manager::ClientManager;
pub use hash_repartitioner::{
    map_partition_ids_to_starts_and_indices, pmod, HashRepartitioner, RepartitionerConfig,
    ScratchSpace,
};
