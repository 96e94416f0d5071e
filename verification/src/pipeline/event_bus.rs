use vstd::prelude::*;
use crate::models::{ProcessedData, SensorData};

verus! {

/// Events published on the pipeline event bus.
#[derive(Debug)]
pub enum PipelineEvent {
    /// Processed samples to store.
    Storage(Vec<ProcessedData>),
    /// A sample that raised an alarm.
    Alarm(ProcessedData),
    /// The alarm was cleared.
    AlarmCleared,
    /// Raw samples to store.
    SensorData(Vec<SensorData>),
    /// Stop the storage pipelines.
    Shutdown,
}

/// Where an event goes.
#[derive(Debug)]
pub enum Dispatch {
    /// These samples go to the storage channel.
    ToStorage(Vec<ProcessedData>),
    /// These raw samples go to the raw-sample channel.
    ToSensor(Vec<SensorData>),
    /// The shutdown signal goes to the channels marked `true`.
    Shutdown { storage: bool, sensor: bool },
    /// Nothing is sent.
    Nothing,
}

/// Routes an event to the channels the bus has: stored samples and alarm
/// samples to the storage channel, raw samples to the raw-sample channel, a
/// shutdown to every channel; an alarm clearance and events for a missing
/// channel send nothing.
pub fn route_event(event: PipelineEvent, has_storage: bool, has_sensor: bool) -> (r: Dispatch)
    ensures
        match event {
            PipelineEvent::Storage(data) => if has_storage {
                r matches Dispatch::ToStorage(d) && d@ == data@
            } else {
                r is Nothing
            },
            PipelineEvent::Alarm(data) => if has_storage {
                r matches Dispatch::ToStorage(d) && d@ == seq![data]
            } else {
                r is Nothing
            },
            PipelineEvent::AlarmCleared => r is Nothing,
            PipelineEvent::SensorData(data) => if has_sensor {
                r matches Dispatch::ToSensor(d) && d@ == data@
            } else {
                r is Nothing
            },
            PipelineEvent::Shutdown => r == Dispatch::Shutdown { storage: has_storage, sensor: has_sensor },
        },
{
    match event {
        PipelineEvent::Storage(data) => if has_storage { Dispatch::ToStorage(data) } else { Dispatch::Nothing },
        PipelineEvent::Alarm(data) => if has_storage {
            let v = vec![data];
            Dispatch::ToStorage(v)
        } else {
            Dispatch::Nothing
        },
        PipelineEvent::AlarmCleared => Dispatch::Nothing,
        PipelineEvent::SensorData(data) => if has_sensor { Dispatch::ToSensor(data) } else { Dispatch::Nothing },
        PipelineEvent::Shutdown => Dispatch::Shutdown { storage: has_storage, sensor: has_sensor },
    }
}

} // verus!
