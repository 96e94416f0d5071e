use vstd::prelude::*;
use std::time::SystemTime;
use crate::time::system_time_now;

verus! {

/// Bit pattern of the `f64` value 25.0, the rated load shown before any sample arrives.
pub const DEFAULT_RATED_LOAD_BITS: u64 = 0x4039_0000_0000_0000;

/// What the monitoring view shows.
///
/// The physical quantities are IEEE-754 bit patterns of `f64` values
/// (`f64::to_bits`); `0` is the pattern of 0.0.
#[derive(Debug)]
pub struct MonitoringState {
    pub current_load: u64,
    pub rated_load: u64,
    pub working_radius: u64,
    pub boom_angle: u64,
    pub boom_length: u64,
    pub moment_percentage: u64,
    pub is_danger: bool,
    pub sensor_connected: bool,
    pub error_message: Option<String>,
    pub last_update_time: SystemTime,
}

impl Clone for MonitoringState {
    fn clone(&self) -> (r: Self)
        ensures
            r.current_load == self.current_load,
            r.rated_load == self.rated_load,
            r.working_radius == self.working_radius,
            r.boom_angle == self.boom_angle,
            r.boom_length == self.boom_length,
            r.moment_percentage == self.moment_percentage,
            r.is_danger == self.is_danger,
            r.sensor_connected == self.sensor_connected,
            r.error_message == self.error_message,
            r.last_update_time == self.last_update_time,
    {
        let error_message = match &self.error_message {
            Some(m) => Some(m.clone()),
            None => None,
        };
        MonitoringState {
            current_load: self.current_load,
            rated_load: self.rated_load,
            working_radius: self.working_radius,
            boom_angle: self.boom_angle,
            boom_length: self.boom_length,
            moment_percentage: self.moment_percentage,
            is_danger: self.is_danger,
            sensor_connected: self.sensor_connected,
            error_message,
            last_update_time: self.last_update_time,
        }
    }
}

impl Default for MonitoringState {
    fn default() -> (r: Self)
        ensures
            r.current_load == 0,
            r.rated_load == DEFAULT_RATED_LOAD_BITS,
            r.working_radius == 0,
            r.boom_angle == 0,
            r.boom_length == 0,
            r.moment_percentage == 0,
            !r.is_danger,
            !r.sensor_connected,
            r.error_message is None,
    {
        MonitoringState {
            current_load: 0,
            rated_load: DEFAULT_RATED_LOAD_BITS,
            working_radius: 0,
            boom_angle: 0,
            boom_length: 0,
            moment_percentage: 0,
            is_danger: false,
            sensor_connected: false,
            error_message: None,
            last_update_time: system_time_now(),
        }
    }
}

} // verus!
