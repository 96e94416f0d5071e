use vstd::prelude::*;
use vstd::string::StringExecFns;
use crate::models::SensorData;
use crate::pipeline::display_pipeline::elapsed_ms;

verus! {

/// Settings of raw-sample storage.
#[derive(Debug, Clone, Copy, PartialEq, Eq, Structural)]
pub struct SensorDataStorageConfig {
    /// Whether raw samples are stored at all.
    pub enabled: bool,
    /// Pending samples that trigger a flush.
    pub batch_size: usize,
    /// Time between two timed flushes, in seconds.
    pub interval_secs: u64,
    /// Raw samples kept in the database; 0 disables purging.
    pub max_records: usize,
}

impl Default for SensorDataStorageConfig {
    fn default() -> (r: Self)
        ensures
            r == (SensorDataStorageConfig { enabled: true, batch_size: 100, interval_secs: 5, max_records: 0 }),
    {
        SensorDataStorageConfig { enabled: true, batch_size: 100, interval_secs: 5, max_records: 0 }
    }
}

/// Whether a flush is due: the batch is full, or the flush interval has
/// passed since the last flush (clock readings in milliseconds).
pub open spec fn flush_due(pending: nat, config: SensorDataStorageConfig, last_flush: u64, now: u64) -> bool {
    pending >= config.batch_size || elapsed_ms(last_flush, now) >= config.interval_secs * 1000
}

/// The raw-sample storage pipeline's data flow: it batches raw samples and
/// decides when the batch is written.
///
/// The caller runs the event loop and the database writes, and reports each
/// write's outcome.
pub struct SensorStoragePipeline {
    config: SensorDataStorageConfig,
    pending_batch: Vec<SensorData>,
    last_flush_ms: u64,
    running: bool,
}

impl SensorStoragePipeline {
    pub closed spec fn spec_config(&self) -> SensorDataStorageConfig {
        self.config
    }

    /// The samples waiting to be written, oldest first.
    pub closed spec fn pending(&self) -> Seq<SensorData> {
        self.pending_batch@
    }

    /// The clock reading of the last successful flush.
    pub closed spec fn last_flush(&self) -> u64 {
        self.last_flush_ms
    }

    pub closed spec fn spec_running(&self) -> bool {
        self.running
    }

    /// A stopped pipeline with an empty batch; `now_ms` counts as the last flush.
    pub fn with_config(config: SensorDataStorageConfig, now_ms: u64) -> (r: Self)
        ensures
            r.spec_config() == config,
            r.pending() == Seq::<SensorData>::empty(),
            r.last_flush() == now_ms,
            !r.spec_running(),
    {
        SensorStoragePipeline { config, pending_batch: Vec::new(), last_flush_ms: now_ms, running: false }
    }

    /// Marks the pipeline running; refused when it already runs.
    pub fn start(&mut self) -> (r: Result<(), String>)
        ensures
            old(self).spec_running() ==> (r matches Err(m) && m@ == "Sensor storage pipeline already running"@),
            !old(self).spec_running() ==> r is Ok,
            final(self).spec_running(),
            final(self).spec_config() == old(self).spec_config(),
            final(self).pending() == old(self).pending(),
            final(self).last_flush() == old(self).last_flush(),
    {
        if self.running {
            return Err(String::from_str("Sensor storage pipeline already running"));
        }
        self.running = true;
        Ok(())
    }

    pub fn stop(&mut self)
        ensures
            !final(self).spec_running(),
            final(self).spec_config() == old(self).spec_config(),
            final(self).pending() == old(self).pending(),
            final(self).last_flush() == old(self).last_flush(),
    {
        self.running = false;
    }

    pub fn is_running(&self) -> (r: bool)
        ensures
            r == self.spec_running(),
    {
        self.running
    }

    /// Appends new samples to the batch. Returns whether the batch is full
    /// and is to be flushed now.
    pub fn handle_new_data(&mut self, data_list: Vec<SensorData>) -> (flush_now: bool)
        ensures
            final(self).pending() == old(self).pending() + data_list@,
            flush_now == (final(self).pending().len() >= old(self).spec_config().batch_size),
            final(self).spec_config() == old(self).spec_config(),
            final(self).last_flush() == old(self).last_flush(),
            final(self).spec_running() == old(self).spec_running(),
    {
        let mut list = data_list;
        self.pending_batch.append(&mut list);
        self.pending_batch.len() >= self.config.batch_size
    }

    /// Whether a flush is due at clock reading `now_ms`.
    pub fn should_flush(&self, now_ms: u64) -> (r: bool)
        ensures
            r == flush_due(self.pending().len(), self.spec_config(), self.last_flush(), now_ms),
    {
        let elapsed = now_ms.saturating_sub(self.last_flush_ms);
        let interval = self.config.interval_secs as u128 * 1000;
        self.pending_batch.len() >= self.config.batch_size || elapsed as u128 >= interval
    }

    /// Takes the whole batch for writing; `None` when it is empty.
    pub fn take_batch(&mut self) -> (r: Option<Vec<SensorData>>)
        ensures
            old(self).pending().len() == 0 ==> r is None && final(self).pending() == old(self).pending(),
            old(self).pending().len() > 0 ==> (r matches Some(b) && b@ == old(self).pending()
                && final(self).pending() == Seq::<SensorData>::empty()),
            final(self).spec_config() == old(self).spec_config(),
            final(self).last_flush() == old(self).last_flush(),
            final(self).spec_running() == old(self).spec_running(),
    {
        if self.pending_batch.len() == 0 {
            return None;
        }
        let mut batch: Vec<SensorData> = Vec::new();
        std::mem::swap(&mut batch, &mut self.pending_batch);
        Some(batch)
    }

    /// Reports how writing a batch taken by `take_batch` went, at clock
    /// reading `now_ms`. When it was saved, the last flush becomes `now_ms`
    /// and the record limit to purge to is returned when purging is enabled.
    /// When it failed, the batch goes back behind the samples pending now.
    pub fn finish_flush(&mut self, batch: Vec<SensorData>, saved: bool, now_ms: u64) -> (r: Option<usize>)
        ensures
            final(self).spec_config() == old(self).spec_config(),
            final(self).spec_running() == old(self).spec_running(),
            saved ==> {
                &&& final(self).last_flush() == now_ms
                &&& final(self).pending() == old(self).pending()
                &&& r == (if old(self).spec_config().max_records > 0 {
                    Some(old(self).spec_config().max_records)
                } else {
                    None
                })
            },
            !saved ==> {
                &&& r is None
                &&& final(self).pending() == old(self).pending() + batch@
                &&& final(self).last_flush() == old(self).last_flush()
            },
    {
        if saved {
            self.last_flush_ms = now_ms;
            if self.config.max_records > 0 {
                Some(self.config.max_records)
            } else {
                None
            }
        } else {
            let mut rest = batch;
            self.pending_batch.append(&mut rest);
            None
        }
    }

    /// How many samples are pending.
    pub fn queue_len(&self) -> (r: usize)
        ensures
            r == self.pending().len(),
    {
        self.pending_batch.len()
    }
}

} // verus!
