use vstd::prelude::*;
use vstd::string::StringExecFns;
use crate::intents::MonitoringIntent;
use crate::models::ProcessedData;
use crate::states::monitoring_state::MonitoringState;

verus! {

/// The message shown when the sensor link is lost.
pub open spec fn disconnected_message() -> Seq<char> {
    "传感器连接断开"@
}

/// The monitoring state after a processed sample: the sample's quantities,
/// danger flag, validation error and time, with the sensor connected.
pub open spec fn state_from_sample(d: ProcessedData) -> MonitoringState {
    MonitoringState {
        current_load: d.current_load,
        rated_load: d.rated_load,
        working_radius: d.working_radius,
        boom_angle: d.boom_angle,
        boom_length: d.boom_length,
        moment_percentage: d.moment_percentage,
        is_danger: d.is_danger,
        sensor_connected: true,
        error_message: d.validation_error,
        last_update_time: d.timestamp,
    }
}

/// A processed sample is taken over field by field: each quantity of the
/// new state is the same-named quantity of the sample, the danger flag, the
/// validation error and the time come from the sample, and the sensor counts
/// as connected.
pub proof fn law_sample_taken_over(d: ProcessedData)
    ensures
        state_from_sample(d).current_load == d.current_load,
        state_from_sample(d).rated_load == d.rated_load,
        state_from_sample(d).working_radius == d.working_radius,
        state_from_sample(d).boom_angle == d.boom_angle,
        state_from_sample(d).boom_length == d.boom_length,
        state_from_sample(d).moment_percentage == d.moment_percentage,
        state_from_sample(d).is_danger == d.is_danger,
        state_from_sample(d).sensor_connected,
        state_from_sample(d).error_message == d.validation_error,
        state_from_sample(d).last_update_time == d.timestamp,
{
}

/// Turns the monitoring state and an intent into the next state.
#[derive(Debug, Clone, Copy)]
pub struct MonitoringReducer;

impl MonitoringReducer {
    pub fn new() -> (r: Self) {
        MonitoringReducer
    }

    /// The next state: an error is dismissed, the danger flag reset, a sample
    /// taken over whole, or the link status changed.
    pub fn reduce(&self, state: MonitoringState, intent: MonitoringIntent) -> (r: MonitoringState)
        ensures
            match intent {
                MonitoringIntent::ClearError => r == MonitoringState { error_message: None, ..state },
                MonitoringIntent::ResetAlarm => r == MonitoringState { is_danger: false, ..state },
                MonitoringIntent::ProcessedDataUpdated(d) => r == state_from_sample(d),
                MonitoringIntent::SensorDisconnected => {
                    &&& r.error_message matches Some(m) && m@ == disconnected_message()
                    &&& r == MonitoringState { sensor_connected: false, error_message: r.error_message, ..state }
                },
                MonitoringIntent::SensorReconnected => r == MonitoringState {
                    sensor_connected: true,
                    error_message: None,
                    ..state
                },
            },
    {
        match intent {
            MonitoringIntent::ClearError => MonitoringState { error_message: None, ..state },
            MonitoringIntent::ResetAlarm => MonitoringState { is_danger: false, ..state },
            MonitoringIntent::ProcessedDataUpdated(processed) => self.update_from_processed_data(
                state,
                processed,
            ),
            MonitoringIntent::SensorDisconnected => MonitoringState {
                sensor_connected: false,
                error_message: Some(String::from_str("传感器连接断开")),
                ..state
            },
            MonitoringIntent::SensorReconnected => MonitoringState {
                sensor_connected: true,
                error_message: None,
                ..state
            },
        }
    }

    fn update_from_processed_data(&self, state: MonitoringState, processed: ProcessedData) -> (r: MonitoringState)
        ensures
            r == state_from_sample(processed),
    {
        MonitoringState {
            current_load: processed.current_load,
            rated_load: processed.rated_load,
            working_radius: processed.working_radius,
            boom_angle: processed.boom_angle,
            boom_length: processed.boom_length,
            moment_percentage: processed.moment_percentage,
            is_danger: processed.is_danger,
            sensor_connected: true,
            error_message: processed.validation_error,
            last_update_time: processed.timestamp,
        }
    }
}

impl Default for MonitoringReducer {
    fn default() -> (r: Self) {
        MonitoringReducer::new()
    }
}

} // verus!
