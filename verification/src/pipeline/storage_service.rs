use vstd::prelude::*;
use crate::models::{ProcessedData, ProcessedDataView, data_views};
use crate::pipeline::alarm_debouncer::{AlarmAction, AlarmDebounceConfig, AlarmDebouncer, AlarmDebouncerState, debounce_next, debounce_raises, debounce_clears};
use crate::pipeline::retry_policy::RetryConfig;

verus! {

/// Settings of the storage service: database limits, write retries and alarm debouncing.
#[derive(Debug, Clone, Copy)]
pub struct StorageServiceConfig {
    /// Runtime records kept in the database; 0 disables purging.
    pub max_records: usize,
    /// Runtime records over the limit tolerated before purging.
    pub purge_threshold: usize,
    /// Alarm records kept in the database; 0 disables purging.
    pub alarm_max_records: usize,
    /// Alarm records over the limit tolerated before purging.
    pub alarm_purge_threshold: usize,
    /// Retries of a failed batch write.
    pub max_retries: u32,
    /// Base delay between retries, in milliseconds.
    pub retry_delay_ms: u64,
    /// Alarm debounce thresholds.
    pub alarm_debounce: AlarmDebounceConfig,
}

impl Default for StorageServiceConfig {
    fn default() -> (r: Self)
        ensures
            r.max_records == 0,
            r.purge_threshold == 0,
            r.alarm_max_records == 0,
            r.alarm_purge_threshold == 0,
            r.max_retries == 3,
            r.retry_delay_ms == 100,
            r.alarm_debounce.alarm_debounce_count == 5,
            r.alarm_debounce.alarm_clear_debounce_count == 10,
    {
        StorageServiceConfig {
            max_records: 0,
            purge_threshold: 0,
            alarm_max_records: 0,
            alarm_purge_threshold: 0,
            max_retries: 3,
            retry_delay_ms: 100,
            alarm_debounce: AlarmDebounceConfig::default(),
        }
    }
}

/// The largest sequence number of `s`, 0 for none.
pub open spec fn max_sequence(s: Seq<ProcessedDataView>) -> u64
    decreases s.len(),
{
    if s.len() == 0 {
        0
    } else {
        let m = max_sequence(s.drop_last());
        if s.last().sequence_number > m { s.last().sequence_number } else { m }
    }
}

/// The largest sequence number of the samples, 0 for none.
pub fn batch_max_sequence(data: &[ProcessedData]) -> (r: u64)
    ensures
        r == max_sequence(data_views(data@)),
{
    let mut m: u64 = 0;
    let mut i: usize = 0;
    while i < data.len()
        invariant
            i <= data@.len(),
            m == max_sequence(data_views(data@).take(i as int)),
        decreases data@.len() - i,
    {
        proof {
            let t = data_views(data@).take(i + 1);
            assert(t.drop_last() =~= data_views(data@).take(i as int));
            assert(t.last() == data@[i as int]@);
        }
        if data[i].sequence_number > m {
            m = data[i].sequence_number;
        }
        i = i + 1;
    }
    assert(data_views(data@).take(data@.len() as int) =~= data_views(data@));
    m
}

/// The storage decisions: alarm debouncing, the sequence number stored last,
/// and when the database is purged.
///
/// The database calls themselves are made by the caller, which reports their
/// outcome back.
pub struct StorageService {
    config: StorageServiceConfig,
    alarm_debouncer: AlarmDebouncer,
    last_stored_sequence: u64,
}

impl StorageService {
    /// The settings the service was made with.
    pub closed spec fn spec_config(&self) -> StorageServiceConfig {
        self.config
    }

    /// The debouncer's counters.
    pub closed spec fn debounce_state(&self) -> AlarmDebouncerState {
        self.alarm_debouncer.state()
    }

    /// The sequence number stored last.
    pub closed spec fn last_stored(&self) -> u64 {
        self.last_stored_sequence
    }

    #[verifier::type_invariant]
    spec fn debouncer_configured(&self) -> bool {
        self.alarm_debouncer.debounce_config() == self.config.alarm_debounce
    }

    pub fn new(config: StorageServiceConfig) -> (r: Self)
        ensures
            r.spec_config() == config,
            r.debounce_state() == (AlarmDebouncerState { danger_count: 0, safe_count: 0, last_was_danger: false }),
            r.last_stored() == 0,
    {
        StorageService { config, alarm_debouncer: AlarmDebouncer::new(config.alarm_debounce), last_stored_sequence: 0 }
    }

    /// Takes the sequence number the database reports as stored last; a
    /// failed lookup leaves it unchanged.
    pub fn initialize_sequence(&mut self, stored: Result<u64, String>) -> (r: Result<(), String>)
        ensures
            r is Ok,
            final(self).spec_config() == old(self).spec_config(),
            final(self).debounce_state() == old(self).debounce_state(),
            final(self).last_stored() == match stored {
                Ok(s) => s,
                Err(_) => old(self).last_stored(),
            },
    {
        proof {
            use_type_invariant(&*self);
        }
        match stored {
            Ok(s) => {
                self.last_stored_sequence = s;
            },
            Err(_) => {},
        }
        Ok(())
    }

    /// Debounces one sample's alarm state.
    pub fn process_alarm(&mut self, data: &ProcessedData) -> (action: AlarmAction)
        ensures
            final(self).spec_config() == old(self).spec_config(),
            final(self).last_stored() == old(self).last_stored(),
            final(self).debounce_state() == debounce_next(
                old(self).debounce_state(),
                old(self).spec_config().alarm_debounce,
                data@.has_any_alarm(),
            ),
            (action is TriggerAlarm) == debounce_raises(
                old(self).debounce_state(),
                old(self).spec_config().alarm_debounce,
                data@.has_any_alarm(),
            ),
            (action is ClearAlarm) == debounce_clears(
                old(self).debounce_state(),
                old(self).spec_config().alarm_debounce,
                data@.has_any_alarm(),
            ),
            action matches AlarmAction::TriggerAlarm(d) ==> d@ == data@,
    {
        proof {
            use_type_invariant(&*self);
        }
        let mut debouncer = AlarmDebouncer::new(self.config.alarm_debounce);
        std::mem::swap(&mut debouncer, &mut self.alarm_debouncer);
        let action = debouncer.process(data);
        self.alarm_debouncer = debouncer;
        action
    }

    /// How batch writes are retried: the configured retries and base delay,
    /// with the default cap.
    pub fn retry_config(&self) -> (r: RetryConfig)
        ensures
            r.max_retries == self.spec_config().max_retries,
            r.base_delay_ms == self.spec_config().retry_delay_ms,
            r.max_delay_ms == 10000,
    {
        let d = RetryConfig::default();
        RetryConfig { max_retries: self.config.max_retries, base_delay_ms: self.config.retry_delay_ms, ..d }
    }

    /// Records that `data` was written: the stored sequence becomes its
    /// largest sequence number. Returns how many samples were written.
    pub fn batch_saved(&mut self, data: &[ProcessedData]) -> (r: usize)
        ensures
            r == data@.len(),
            final(self).last_stored() == max_sequence(data_views(data@)),
            final(self).spec_config() == old(self).spec_config(),
            final(self).debounce_state() == old(self).debounce_state(),
    {
        proof {
            use_type_invariant(&*self);
        }
        self.last_stored_sequence = batch_max_sequence(data);
        data.len()
    }

    /// The runtime-record limit and threshold to purge with, when purging is enabled.
    pub fn purge_limits(&self) -> (r: Option<(usize, usize)>)
        ensures
            self.spec_config().max_records > 0 ==> r == Some((self.spec_config().max_records, self.spec_config().purge_threshold)),
            self.spec_config().max_records == 0 ==> r is None,
    {
        if self.config.max_records > 0 {
            Some((self.config.max_records, self.config.purge_threshold))
        } else {
            None
        }
    }

    /// The alarm-record limit and threshold to purge with after an alarm was
    /// saved, when alarm purging is enabled.
    pub fn alarm_purge_limits(&self) -> (r: Option<(usize, usize)>)
        ensures
            self.spec_config().alarm_max_records > 0 ==> r == Some((self.spec_config().alarm_max_records, self.spec_config().alarm_purge_threshold)),
            self.spec_config().alarm_max_records == 0 ==> r is None,
    {
        if self.config.alarm_max_records > 0 {
            Some((self.config.alarm_max_records, self.config.alarm_purge_threshold))
        } else {
            None
        }
    }

    pub fn last_stored_sequence(&self) -> (r: u64)
        ensures
            r == self.last_stored(),
    {
        self.last_stored_sequence
    }

    pub fn set_initial_sequence(&mut self, seq: u64)
        ensures
            final(self).last_stored() == seq,
            final(self).spec_config() == old(self).spec_config(),
            final(self).debounce_state() == old(self).debounce_state(),
    {
        proof {
            use_type_invariant(&*self);
        }
        self.last_stored_sequence = seq;
    }

    /// The danger was cleared elsewhere: the debouncer's alarm flag drops.
    pub fn notify_danger_cleared(&mut self)
        ensures
            final(self).spec_config() == old(self).spec_config(),
            final(self).last_stored() == old(self).last_stored(),
            final(self).debounce_state() == (AlarmDebouncerState { last_was_danger: false, ..old(self).debounce_state() }),
    {
        proof {
            use_type_invariant(&*self);
        }
        let mut debouncer = AlarmDebouncer::new(self.config.alarm_debounce);
        std::mem::swap(&mut debouncer, &mut self.alarm_debouncer);
        debouncer.notify_danger_cleared();
        self.alarm_debouncer = debouncer;
    }

    pub fn max_records(&self) -> (r: usize)
        ensures
            r == self.spec_config().max_records,
    {
        self.config.max_records
    }
}

} // verus!
