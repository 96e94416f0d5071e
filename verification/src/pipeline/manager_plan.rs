use vstd::prelude::*;

verus! {

/// The pipelines a manager runs.
#[derive(Debug, Clone, Copy, PartialEq, Eq, Structural)]
pub enum PipelineKind {
    SensorStorage,
    Storage,
    Process,
    Collection,
    Display,
}

/// Capacity of the processed-data buffer shared with the display.
pub const SHARED_BUFFER_CAPACITY: usize = 1000;

/// Capacity of the raw-sample buffer shared with the calibration view.
pub const SENSOR_BUFFER_CAPACITY: usize = 100;

/// Capacity of the raw-sample storage channel.
pub const SENSOR_CHANNEL_CAPACITY: usize = 1000;

/// The order in which the manager starts its pipelines: the consumers of
/// data (raw storage, storage) before the producers (processing,
/// collection), and the display last.
pub open spec fn startup_sequence() -> Seq<PipelineKind> {
    seq![PipelineKind::SensorStorage, PipelineKind::Storage, PipelineKind::Process, PipelineKind::Collection, PipelineKind::Display]
}

/// The order in which the manager stops its pipelines: raw storage first,
/// then the producers, then storage, and the display last.
pub open spec fn shutdown_sequence() -> Seq<PipelineKind> {
    seq![PipelineKind::SensorStorage, PipelineKind::Collection, PipelineKind::Process, PipelineKind::Storage, PipelineKind::Display]
}

pub fn startup_order() -> (r: Vec<PipelineKind>)
    ensures
        r@ == startup_sequence(),
{
    let r = vec![PipelineKind::SensorStorage, PipelineKind::Storage, PipelineKind::Process, PipelineKind::Collection, PipelineKind::Display];
    assert(r@ =~= startup_sequence());
    r
}

pub fn shutdown_order() -> (r: Vec<PipelineKind>)
    ensures
        r@ == shutdown_sequence(),
{
    let r = vec![PipelineKind::SensorStorage, PipelineKind::Collection, PipelineKind::Process, PipelineKind::Storage, PipelineKind::Display];
    assert(r@ =~= shutdown_sequence());
    r
}

/// Every pipeline is started once and stopped once; storage is running
/// before samples are produced, and producers stop before storage does, so
/// no sample is produced while nothing stores it.
pub proof fn law_storage_outlives_producers()
    ensures
        startup_sequence().len() == 5,
        startup_sequence().no_duplicates(),
        shutdown_sequence().no_duplicates(),
        startup_sequence().index_of(PipelineKind::Storage) < startup_sequence().index_of(PipelineKind::Process),
        startup_sequence().index_of(PipelineKind::Storage) < startup_sequence().index_of(PipelineKind::Collection),
        shutdown_sequence().index_of(PipelineKind::Collection) < shutdown_sequence().index_of(PipelineKind::Storage),
        shutdown_sequence().index_of(PipelineKind::Process) < shutdown_sequence().index_of(PipelineKind::Storage),
        forall|k: PipelineKind| startup_sequence().contains(k) && shutdown_sequence().contains(k),
{
    let s = startup_sequence();
    let t = shutdown_sequence();
    assert(s[1] == PipelineKind::Storage && s[2] == PipelineKind::Process && s[3] == PipelineKind::Collection);
    assert(t[1] == PipelineKind::Collection && t[2] == PipelineKind::Process && t[3] == PipelineKind::Storage);
    s.index_of_first_ensures(PipelineKind::Storage);
    assert forall|k: PipelineKind| s.contains(k) && t.contains(k) by {
        match k {
            PipelineKind::SensorStorage => { assert(s[0] == k); assert(t[0] == k); },
            PipelineKind::Storage => { assert(s[1] == k); assert(t[3] == k); },
            PipelineKind::Process => { assert(s[2] == k); assert(t[2] == k); },
            PipelineKind::Collection => { assert(s[3] == k); assert(t[1] == k); },
            PipelineKind::Display => { assert(s[4] == k); assert(t[4] == k); },
        }
    }
}

/// The sequence number a restarted producer continues from: the one stored
/// last, when anything was stored.
pub fn initial_sequence(last_stored: u64) -> (r: Option<u64>)
    ensures
        last_stored > 0 ==> r == Some(last_stored),
        last_stored == 0 ==> r is None,
{
    if last_stored > 0 { Some(last_stored) } else { None }
}

/// Where the collection pipeline writes its raw samples.
#[derive(Debug, Clone, Copy, PartialEq, Eq, Structural)]
pub enum CollectionMode {
    /// Processed in place and sent to both storage channels, with the raw
    /// samples shared for the calibration view.
    WithStorageSender,
    /// Written to the filter buffer, which the processing pipeline reads.
    FilterBuffer,
}

/// The layout the manager builds: raw-sample storage enabled means the
/// collection pipeline sends to storage itself; otherwise it feeds the
/// filter buffer.
pub fn plan_collection(sensor_storage_enabled: bool) -> (r: CollectionMode)
    ensures
        r == (if sensor_storage_enabled { CollectionMode::WithStorageSender } else { CollectionMode::FilterBuffer }),
{
    if sensor_storage_enabled { CollectionMode::WithStorageSender } else { CollectionMode::FilterBuffer }
}

} // verus!
