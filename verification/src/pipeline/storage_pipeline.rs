use vstd::prelude::*;
use vstd::string::StringExecFns;
use crate::config::StorageConfig;
use crate::models::{ProcessedData, ProcessedDataView, data_views};
use crate::pipeline::alarm_debouncer::{
    AlarmAction, AlarmDebounceConfig, AlarmDebouncerState, debounce_raises, debounce_run,
};
use crate::pipeline::storage_service::{StorageService, StorageServiceConfig, max_sequence};

verus! {

/// Settings of the storage pipeline's data flow.
#[derive(Debug, Clone, Copy, PartialEq, Eq, Structural)]
pub struct StoragePipelineConfig {
    /// Time between two timed flushes, in milliseconds.
    pub interval_ms: u64,
    /// Pending samples that trigger a flush.
    pub batch_size: usize,
    /// Capacity of the storage channel.
    pub max_queue_size: usize,
    /// Whether a full batch is reduced to its newest sample before it is written.
    pub save_only_latest: bool,
}

impl Default for StoragePipelineConfig {
    fn default() -> (r: Self)
        ensures
            r == (StoragePipelineConfig {
                interval_ms: 5000,
                batch_size: 10,
                max_queue_size: 1000,
                save_only_latest: false,
            }),
    {
        StoragePipelineConfig { interval_ms: 5000, batch_size: 10, max_queue_size: 1000, save_only_latest: false }
    }
}

impl StoragePipelineConfig {
    /// Splits the storage configuration into the pipeline's settings and the
    /// service's settings; the alarm debounce thresholds are 5 and 10 samples.
    pub fn from_pipeline_config(config: &StorageConfig) -> (r: (Self, StorageServiceConfig))
        ensures
            r.0 == (StoragePipelineConfig {
                interval_ms: config.interval_ms,
                batch_size: config.batch_size,
                max_queue_size: config.max_queue_size,
                save_only_latest: config.save_only_latest,
            }),
            r.1.max_records == config.max_records,
            r.1.purge_threshold == config.purge_threshold,
            r.1.alarm_max_records == config.alarm_max_records,
            r.1.alarm_purge_threshold == config.alarm_purge_threshold,
            r.1.max_retries == config.max_retries,
            r.1.retry_delay_ms == config.retry_delay_ms,
            r.1.alarm_debounce.alarm_debounce_count == 5,
            r.1.alarm_debounce.alarm_clear_debounce_count == 10,
    {
        let pipeline_config = StoragePipelineConfig {
            interval_ms: config.interval_ms,
            batch_size: config.batch_size,
            max_queue_size: config.max_queue_size,
            save_only_latest: config.save_only_latest,
        };
        let service_config = StorageServiceConfig {
            max_records: config.max_records,
            purge_threshold: config.purge_threshold,
            alarm_max_records: config.alarm_max_records,
            alarm_purge_threshold: config.alarm_purge_threshold,
            max_retries: config.max_retries,
            retry_delay_ms: config.retry_delay_ms,
            alarm_debounce: AlarmDebounceConfig { alarm_debounce_count: 5, alarm_clear_debounce_count: 10 },
        };
        (pipeline_config, service_config)
    }
}

/// The samples of `list` newer than the stored sequence `last`, in order.
pub open spec fn newer_than(list: Seq<ProcessedDataView>, last: u64) -> Seq<ProcessedDataView> {
    list.filter(|d: ProcessedDataView| d.sequence_number > last)
}

/// Whether each sample carries an alarm.
pub open spec fn alarm_flags(s: Seq<ProcessedDataView>) -> Seq<bool> {
    s.map_values(|d: ProcessedDataView| d.has_any_alarm())
}

/// The samples of `s` that raise an alarm when debounced in order from the
/// counters `st`.
pub open spec fn raised_samples(
    st: AlarmDebouncerState,
    cfg: AlarmDebounceConfig,
    s: Seq<ProcessedDataView>,
) -> Seq<ProcessedDataView>
    decreases s.len(),
{
    if s.len() == 0 {
        Seq::empty()
    } else {
        let before = raised_samples(st, cfg, s.drop_last());
        if debounce_raises(debounce_run(st, cfg, alarm_flags(s.drop_last())), cfg, s.last().has_any_alarm()) {
            before.push(s.last())
        } else {
            before
        }
    }
}

/// The pending batch once new samples have joined it: a full batch is
/// reduced to its newest sample when only the latest is saved.
pub open spec fn batch_after_intake(pending: Seq<ProcessedDataView>, cfg: StoragePipelineConfig) -> Seq<ProcessedDataView> {
    if pending.len() >= cfg.batch_size && cfg.save_only_latest && pending.len() > 1 {
        seq![pending.last()]
    } else {
        pending
    }
}

/// What the caller does after new samples arrived.
#[derive(Debug)]
pub struct NewDataOutcome {
    /// Samples that raised an alarm, to be saved as alarm records, in order.
    pub alarms: Vec<ProcessedData>,
    /// Whether the batch is full and is to be flushed now.
    pub flush_now: bool,
}

/// The storage pipeline's data flow: it takes new samples, keeps a pending
/// batch and decides when it is written.
///
/// The caller runs the event loop: it hands over samples from the storage
/// channel, saves the alarms it is given, flushes on a timer and when told
/// to, writes each batch with the database and reports the outcome.
pub struct StoragePipeline {
    config: StoragePipelineConfig,
    service: StorageService,
    running: bool,
    pending_batch: Vec<ProcessedData>,
    last_stored_sequence: u64,
}

impl StoragePipeline {
    pub closed spec fn spec_config(&self) -> StoragePipelineConfig {
        self.config
    }

    /// The storage service making the alarm and purge decisions.
    pub closed spec fn spec_service(&self) -> StorageService {
        self.service
    }

    pub closed spec fn spec_running(&self) -> bool {
        self.running
    }

    /// The samples waiting to be written, oldest first.
    pub closed spec fn pending(&self) -> Seq<ProcessedDataView> {
        data_views(self.pending_batch@)
    }

    /// The sequence number stored last; older samples are not queued again.
    pub closed spec fn last_stored(&self) -> u64 {
        self.last_stored_sequence
    }

    /// A stopped pipeline with an empty batch, using `service` for its decisions.
    pub fn with_service(config: StoragePipelineConfig, service: StorageService) -> (r: Self)
        ensures
            r.spec_config() == config,
            r.spec_service() == service,
            !r.spec_running(),
            r.pending() == Seq::<ProcessedDataView>::empty(),
            r.last_stored() == 0,
    {
        let r = StoragePipeline {
            config,
            service,
            running: false,
            pending_batch: Vec::with_capacity(config.batch_size),
            last_stored_sequence: 0,
        };
        assert(data_views(r.pending_batch@) =~= Seq::<ProcessedDataView>::empty());
        r
    }

    /// Takes the sequence number stored last, as the database reports it.
    pub fn initialize_sequence(&mut self, stored: Result<u64, String>) -> (r: Result<(), String>)
        ensures
            r is Ok,
            final(self).spec_service().last_stored() == match stored {
                Ok(s) => s,
                Err(_) => old(self).spec_service().last_stored(),
            },
            final(self).last_stored() == final(self).spec_service().last_stored(),
            final(self).spec_service().spec_config() == old(self).spec_service().spec_config(),
            final(self).spec_service().debounce_state() == old(self).spec_service().debounce_state(),
            final(self).spec_config() == old(self).spec_config(),
            final(self).spec_running() == old(self).spec_running(),
            final(self).pending() == old(self).pending(),
    {
        let r = self.service.initialize_sequence(stored);
        self.last_stored_sequence = self.service.last_stored_sequence();
        r
    }

    /// Marks the pipeline running; refused when it already runs.
    pub fn start(&mut self) -> (r: Result<(), String>)
        ensures
            old(self).spec_running() ==> (r matches Err(m) && m@ == "Storage pipeline already running"@),
            !old(self).spec_running() ==> r is Ok,
            final(self).spec_running(),
            final(self).spec_config() == old(self).spec_config(),
            final(self).spec_service() == old(self).spec_service(),
            final(self).pending() == old(self).pending(),
            final(self).last_stored() == old(self).last_stored(),
    {
        if self.running {
            return Err(String::from_str("Storage pipeline already running"));
        }
        self.running = true;
        Ok(())
    }

    pub fn stop(&mut self)
        ensures
            !final(self).spec_running(),
            final(self).spec_config() == old(self).spec_config(),
            final(self).spec_service() == old(self).spec_service(),
            final(self).pending() == old(self).pending(),
            final(self).last_stored() == old(self).last_stored(),
    {
        self.running = false;
    }

    /// Takes samples from the storage channel. Each sample newer than the
    /// stored sequence is debounced for alarms and joins the pending batch;
    /// older ones are dropped. When the batch is full it is to be flushed,
    /// reduced first to its newest sample when only the latest is saved.
    pub fn handle_new_data(&mut self, data_list: Vec<ProcessedData>) -> (r: NewDataOutcome)
        ensures
            ({
                let fresh = newer_than(data_views(data_list@), old(self).last_stored());
                let cfg = old(self).spec_service().spec_config().alarm_debounce;
                let st = old(self).spec_service().debounce_state();
                &&& final(self).spec_service().debounce_state() == debounce_run(st, cfg, alarm_flags(fresh))
                &&& data_views(r.alarms@) == raised_samples(st, cfg, fresh)
                &&& r.flush_now == ((old(self).pending() + fresh).len() >= old(self).spec_config().batch_size)
                &&& final(self).pending() == batch_after_intake(old(self).pending() + fresh, old(self).spec_config())
            }),
            final(self).spec_service().spec_config() == old(self).spec_service().spec_config(),
            final(self).spec_service().last_stored() == old(self).spec_service().last_stored(),
            final(self).spec_config() == old(self).spec_config(),
            final(self).spec_running() == old(self).spec_running(),
            final(self).last_stored() == old(self).last_stored(),
    {
        let last = self.last_stored_sequence;
        let ghost list = data_views(data_list@);
        let ghost pred = |d: ProcessedDataView| d.sequence_number > last;
        let ghost cfg = self.service.spec_config().alarm_debounce;
        let ghost st = self.service.debounce_state();
        let ghost pending0 = data_views(self.pending_batch@);
        let mut alarms: Vec<ProcessedData> = Vec::new();
        let mut i: usize = 0;
        while i < data_list.len()
            invariant
                i <= data_list@.len(),
                list == data_views(data_list@),
                pred == (|d: ProcessedDataView| d.sequence_number > last),
                last == self.last_stored_sequence,
                self.last_stored_sequence == old(self).last_stored(),
                self.config == old(self).spec_config(),
                self.running == old(self).spec_running(),
                self.service.spec_config() == old(self).spec_service().spec_config(),
                self.service.last_stored() == old(self).spec_service().last_stored(),
                cfg == old(self).spec_service().spec_config().alarm_debounce,
                st == old(self).spec_service().debounce_state(),
                pending0 == old(self).pending(),
                self.service.debounce_state() == debounce_run(st, cfg, alarm_flags(list.take(i as int).filter(pred))),
                data_views(alarms@) == raised_samples(st, cfg, list.take(i as int).filter(pred)),
                data_views(self.pending_batch@) == pending0 + list.take(i as int).filter(pred),
            decreases data_list@.len() - i,
        {
            let ghost f0 = list.take(i as int).filter(pred);
            proof {
                let t = list.take(i + 1);
                assert(t.drop_last() =~= list.take(i as int));
                assert(t.last() == list[i as int]);
                reveal(Seq::filter);
            }
            if data_list[i].sequence_number > last {
                let ghost dv = data_list@[i as int]@;
                proof {
                    assert(list.take(i + 1).filter(pred) == f0.push(dv));
                    assert(f0.push(dv).drop_last() =~= f0);
                    assert(alarm_flags(f0.push(dv)).drop_last() =~= alarm_flags(f0));
                    assert(alarm_flags(f0.push(dv)) =~= alarm_flags(f0).push(dv.has_any_alarm()));
                }
                let action = self.service.process_alarm(&data_list[i]);
                match action {
                    AlarmAction::TriggerAlarm(alarm_data) => {
                        let ghost before = alarms@;
                        alarms.push(alarm_data);
                        assert(data_views(alarms@) =~= data_views(before).push(dv));
                    },
                    _ => {},
                }
                let d = data_list[i].clone();
                let ghost before = self.pending_batch@;
                self.pending_batch.push(d);
                assert(data_views(self.pending_batch@) =~= data_views(before).push(dv));
                assert(data_views(self.pending_batch@) =~= pending0 + f0.push(dv));
            } else {
                proof {
                    assert(list.take(i + 1).filter(pred) == f0);
                }
            }
            i = i + 1;
        }
        proof {
            assert(list.take(data_list@.len() as int) =~= list);
        }
        let len = self.pending_batch.len();
        let flush_now = len >= self.config.batch_size;
        if flush_now && self.config.save_only_latest && len > 1 {
            let ghost full = data_views(self.pending_batch@);
            let mut batch: Vec<ProcessedData> = Vec::new();
            std::mem::swap(&mut batch, &mut self.pending_batch);
            let newest = batch.pop();
            match newest {
                Some(d) => {
                    self.pending_batch.push(d);
                    assert(data_views(self.pending_batch@) =~= seq![full.last()]);
                },
                None => {},
            }
        }
        NewDataOutcome { alarms, flush_now }
    }

    /// Takes the whole pending batch for writing; `None` when it is empty.
    pub fn take_batch(&mut self) -> (r: Option<Vec<ProcessedData>>)
        ensures
            old(self).pending().len() == 0 ==> r is None && final(self).pending() == old(self).pending(),
            old(self).pending().len() > 0 ==> (r matches Some(b) && data_views(b@) == old(self).pending()
                && final(self).pending() == Seq::<ProcessedDataView>::empty()),
            final(self).spec_config() == old(self).spec_config(),
            final(self).spec_service() == old(self).spec_service(),
            final(self).spec_running() == old(self).spec_running(),
            final(self).last_stored() == old(self).last_stored(),
    {
        if self.pending_batch.len() == 0 {
            return None;
        }
        let mut batch: Vec<ProcessedData> = Vec::new();
        std::mem::swap(&mut batch, &mut self.pending_batch);
        assert(data_views(self.pending_batch@) =~= Seq::<ProcessedDataView>::empty());
        Some(batch)
    }

    /// Reports how writing a batch taken by `take_batch` went. When it was
    /// saved, the stored sequence becomes the batch's largest sequence number
    /// and the purge limits are returned when purging is enabled. When it
    /// failed, the batch goes back behind the samples pending now.
    pub fn finish_flush(&mut self, batch: Vec<ProcessedData>, saved: bool) -> (r: Option<(usize, usize)>)
        ensures
            final(self).spec_config() == old(self).spec_config(),
            final(self).spec_running() == old(self).spec_running(),
            final(self).spec_service().spec_config() == old(self).spec_service().spec_config(),
            final(self).spec_service().debounce_state() == old(self).spec_service().debounce_state(),
            saved ==> {
                &&& final(self).last_stored() == max_sequence(data_views(batch@))
                &&& final(self).spec_service().last_stored() == max_sequence(data_views(batch@))
                &&& final(self).pending() == old(self).pending()
                &&& (old(self).spec_service().spec_config().max_records > 0 ==> r == Some((
                    old(self).spec_service().spec_config().max_records,
                    old(self).spec_service().spec_config().purge_threshold,
                )))
                &&& (old(self).spec_service().spec_config().max_records == 0 ==> r is None)
            },
            !saved ==> {
                &&& r is None
                &&& final(self).pending() == old(self).pending() + data_views(batch@)
                &&& final(self).last_stored() == old(self).last_stored()
                &&& final(self).spec_service().last_stored() == old(self).spec_service().last_stored()
            },
    {
        if saved {
            let _ = self.service.batch_saved(batch.as_slice());
            self.last_stored_sequence = self.service.last_stored_sequence();
            self.service.purge_limits()
        } else {
            let ghost before = self.pending_batch@;
            let mut rest = batch;
            let ghost moved = rest@;
            self.pending_batch.append(&mut rest);
            assert(data_views(self.pending_batch@) =~= data_views(before) + data_views(moved));
            None
        }
    }

    /// How many samples are pending.
    pub fn queue_len(&self) -> (r: usize)
        ensures
            r == self.pending().len(),
    {
        self.pending_batch.len()
    }

    pub fn last_stored_sequence(&self) -> (r: u64)
        ensures
            r == self.last_stored(),
    {
        self.last_stored_sequence
    }

    /// The danger was cleared elsewhere: the alarm debouncer's flag drops.
    pub fn notify_danger_cleared(&mut self)
        ensures
            final(self).spec_service().debounce_state() == (AlarmDebouncerState {
                last_was_danger: false,
                ..old(self).spec_service().debounce_state()
            }),
            final(self).spec_service().spec_config() == old(self).spec_service().spec_config(),
            final(self).spec_service().last_stored() == old(self).spec_service().last_stored(),
            final(self).spec_config() == old(self).spec_config(),
            final(self).spec_running() == old(self).spec_running(),
            final(self).pending() == old(self).pending(),
            final(self).last_stored() == old(self).last_stored(),
    {
        self.service.notify_danger_cleared();
    }

    /// The service, for its purge and retry settings.
    pub fn service(&self) -> (r: &StorageService)
        ensures
            *r == self.spec_service(),
    {
        &self.service
    }
}

/// A sample whose sequence number is not above the stored one is never
/// queued again.
pub proof fn law_stale_samples_dropped(list: Seq<ProcessedDataView>, last: u64, d: ProcessedDataView)
    requires
        d.sequence_number <= last,
    ensures
        !newer_than(list, last).contains(d),
{
    let pred = |x: ProcessedDataView| x.sequence_number > last;
    if newer_than(list, last).contains(d) {
        let k = choose|k: int| 0 <= k < list.filter(pred).len() && list.filter(pred)[k] == d;
        list.lemma_filter_pred(pred, k);
    }
}

/// The stored sequence after a write is the largest of the batch: no sample
/// of the batch is newer, and a non-empty batch holds a sample with it.
pub proof fn law_max_sequence_bounds(s: Seq<ProcessedDataView>)
    ensures
        forall|i: int| 0 <= i < s.len() ==> #[trigger] s[i].sequence_number <= max_sequence(s),
        s.len() > 0 ==> exists|i: int| 0 <= i < s.len() && #[trigger] s[i].sequence_number == max_sequence(s),
    decreases s.len(),
{
    if s.len() > 0 {
        let p = s.drop_last();
        law_max_sequence_bounds(p);
        assert forall|i: int| 0 <= i < s.len() implies #[trigger] s[i].sequence_number <= max_sequence(s) by {
            if i < p.len() {
                assert(s[i] == p[i]);
            }
        }
        if s.last().sequence_number > max_sequence(p) {
            assert(s[s.len() - 1].sequence_number == max_sequence(s));
        } else if p.len() > 0 {
            let j = choose|j: int| 0 <= j < p.len() && #[trigger] p[j].sequence_number == max_sequence(p);
            assert(s[j] == p[j]);
        } else {
            assert(s[0].sequence_number == max_sequence(s));
        }
    }
}

/// Writing a non-empty batch of samples that are all newer than the stored
/// sequence moves the stored sequence forward.
pub proof fn law_flush_advances_stored(batch: Seq<ProcessedDataView>, last: u64)
    requires
        batch.len() > 0,
        forall|i: int| 0 <= i < batch.len() ==> #[trigger] batch[i].sequence_number > last,
    ensures
        max_sequence(batch) > last,
{
    law_max_sequence_bounds(batch);
    let i = choose|i: int| 0 <= i < batch.len() && #[trigger] batch[i].sequence_number == max_sequence(batch);
    assert(batch[i].sequence_number > last);
}

/// Everything a batch intake queues is newer than the stored sequence.
pub proof fn law_intake_only_newer(list: Seq<ProcessedDataView>, last: u64)
    ensures
        forall|i: int| 0 <= i < newer_than(list, last).len() ==> #[trigger] newer_than(list, last)[i].sequence_number > last,
{
    let pred = |x: ProcessedDataView| x.sequence_number > last;
    assert forall|i: int| 0 <= i < newer_than(list, last).len() implies #[trigger] newer_than(list, last)[i].sequence_number > last by {
        list.lemma_filter_pred(pred, i);
    }
}

/// When only the latest is saved, a full batch written is exactly its newest sample.
pub proof fn law_latest_only_keeps_newest(pending: Seq<ProcessedDataView>, cfg: StoragePipelineConfig)
    requires
        cfg.save_only_latest,
        pending.len() >= cfg.batch_size,
        pending.len() > 0,
    ensures
        batch_after_intake(pending, cfg) == seq![pending.last()],
{
    if pending.len() == 1 {
        assert(pending =~= seq![pending.last()]);
    }
}

} // verus!
