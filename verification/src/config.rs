use vstd::prelude::*;

verus! {

/// Settings of the display pipeline as they appear in the pipeline configuration.
#[derive(Debug, Clone, Copy, PartialEq, Eq, Structural)]
pub struct DisplayConfig {
    /// Refresh interval in milliseconds.
    pub interval_ms: u64,
    /// How many samples the display keeps.
    pub pipeline_size: usize,
    /// Samples fetched per refresh.
    pub batch_size: usize,
}

/// Settings of the storage pipeline and service as they appear in the
/// pipeline configuration.
#[derive(Debug, Clone, Copy, PartialEq, Eq, Structural)]
pub struct StorageConfig {
    /// Flush interval in milliseconds.
    pub interval_ms: u64,
    /// Samples written per batch.
    pub batch_size: usize,
    /// Capacity of the storage channel.
    pub max_queue_size: usize,
    /// Whether a full batch is reduced to its newest sample.
    pub save_only_latest: bool,
    /// Runtime records kept in the database; 0 disables purging.
    pub max_records: usize,
    /// Runtime records over the limit tolerated before purging.
    pub purge_threshold: usize,
    /// Alarm records kept in the database; 0 disables purging.
    pub alarm_max_records: usize,
    /// Alarm records over the limit tolerated before purging.
    pub alarm_purge_threshold: usize,
    /// Retries of a failed batch write.
    pub max_retries: u32,
    /// Base delay between retries, in milliseconds.
    pub retry_delay_ms: u64,
}

} // verus!
