use vstd::prelude::*;
use crate::models::ProcessedData;

verus! {

/// What can happen to the monitoring view.
#[derive(Debug)]
pub enum MonitoringIntent {
    /// The shown error is dismissed.
    ClearError,
    /// The danger indication is acknowledged.
    ResetAlarm,
    /// A new processed sample arrived.
    ProcessedDataUpdated(ProcessedData),
    /// The sensor link was lost.
    SensorDisconnected,
    /// The sensor link is back.
    SensorReconnected,
}

} // verus!
