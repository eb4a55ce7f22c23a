//! The settings of a device.

use vstd::prelude::*;

verus! {

/// The settings; durations are in milliseconds.
#[derive(Debug, PartialEq, Eq)]
pub struct TacitConfig {
    pub peer_id: String,
    pub group_id: String,
    pub db_path: String,
    /// How many blocks are kept loaded.
    pub block_cache_capacity: usize,
    /// After how many changes a checkpoint is made.
    pub checkpoint_delta_threshold: u64,
    /// After how long an absent device no longer counts as active.
    pub soft_watermark_timeout: u64,
    pub dependency_backoff_init: u64,
    pub dependency_backoff_max: u64,
    pub quic_listen_port: u16,
    pub ble_presence_interval: u64,
}

impl Default for TacitConfig {
    fn default() -> (r: Self)
        ensures
            r.peer_id@ == Seq::<char>::empty(),
            r.group_id@ == Seq::<char>::empty(),
            r.db_path@ == "tacit.db"@,
            r.block_cache_capacity == 32,
            r.checkpoint_delta_threshold == 1024,
            r.soft_watermark_timeout == 3 * 24 * 60 * 60 * 1000,
            r.dependency_backoff_init == 200,
            r.dependency_backoff_max == 2000,
            r.quic_listen_port == 0,
            r.ble_presence_interval == 2000,
    {
        TacitConfig {
            peer_id: String::new(),
            group_id: String::new(),
            db_path: "tacit.db".to_owned(),
            block_cache_capacity: 32,
            checkpoint_delta_threshold: 1024,
            soft_watermark_timeout: 259_200_000,
            dependency_backoff_init: 200,
            dependency_backoff_max: 2000,
            quic_listen_port: 0,
            ble_presence_interval: 2000,
        }
    }
}

/// The usual settings name no device and no group, keep 32 blocks loaded, make a checkpoint after 1024
/// changes, take a device for inactive after three days, and wait from 200 milliseconds up to two seconds for
/// what is lacking.
pub proof fn law_usual_settings(config: TacitConfig)
    requires
        call_ensures(TacitConfig::default, (), config),
    ensures
        config.peer_id@.len() == 0 && config.group_id@.len() == 0,
        config.block_cache_capacity == 32,
        config.checkpoint_delta_threshold == 1024,
        config.soft_watermark_timeout == 259_200_000,
        config.dependency_backoff_init == 200,
        config.dependency_backoff_max == 2_000,
        config.dependency_backoff_init <= config.dependency_backoff_max,
        config.quic_listen_port == 0,
        config.ble_presence_interval == 2_000,
{
}

} // verus!
