use vstd::prelude::*;
use crate::models::ProcessedData;

verus! {

/// Events of the storage channel.
#[derive(Debug, Clone)]
pub enum StorageEvent {
    /// New samples to store.
    NewData(Vec<ProcessedData>),
    /// An alarm was raised by this sample.
    Alarm(ProcessedData),
    /// The alarm was cleared (danger to safe).
    AlarmCleared,
    /// Stop after draining what is pending.
    Shutdown,
}

/// Why a storage operation failed.
#[derive(Debug, Clone, PartialEq, Eq)]
pub enum StorageError {
    /// The channel refused the event, with the reason.
    ChannelSend(String),
    /// The channel is closed.
    ChannelClosed,
    /// The database reported an error.
    Database(String),
    /// The queue is full.
    QueueFull,
    /// The retries are used up.
    MaxRetriesExceeded,
}

} // verus!
