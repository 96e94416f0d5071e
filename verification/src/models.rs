use vstd::prelude::*;
use std::time::SystemTime;
use crate::states::alarm_state::AlarmType;
use crate::repositories::alarm_text::{alarm_description, joined};

verus! {

/// What raised an alarm on a processed sample.
#[derive(Clone, Copy, Debug, PartialEq, Eq, Structural)]
pub enum AlarmSource {
    /// Load moment above its threshold.
    Moment,
    /// Boom angle outside its permitted range.
    Angle,
}

/// One raw acquisition from the three analogue channels and two digital inputs.
///
/// Each analogue reading is held as the IEEE-754 bit pattern of the measured
/// `f64` (`f64::to_bits`), so it travels through the library unchanged.
#[derive(Clone, Copy, Debug, PartialEq, Eq, Structural)]
pub struct SensorData {
    pub ad1_load: u64,
    pub ad2_radius: u64,
    pub ad3_angle: u64,
    pub digital_input_0: bool,
    pub digital_input_1: bool,
}

impl SensorData {
    /// A sample of the three analogue channels, digital inputs cleared.
    pub fn new(ad1_load: u64, ad2_radius: u64, ad3_angle: u64) -> (r: SensorData)
        ensures
            r == (SensorData {
                ad1_load,
                ad2_radius,
                ad3_angle,
                digital_input_0: false,
                digital_input_1: false,
            }),
    {
        SensorData { ad1_load, ad2_radius, ad3_angle, digital_input_0: false, digital_input_1: false }
    }

    /// A sample of the three analogue channels and both digital inputs.
    pub fn with_inputs(
        ad1_load: u64,
        ad2_radius: u64,
        ad3_angle: u64,
        digital_input_0: bool,
        digital_input_1: bool,
    ) -> (r: SensorData)
        ensures
            r == (SensorData { ad1_load, ad2_radius, ad3_angle, digital_input_0, digital_input_1 }),
    {
        SensorData { ad1_load, ad2_radius, ad3_angle, digital_input_0, digital_input_1 }
    }
}

/// A sample after calibration, rated-load lookup and alarm evaluation.
///
/// The physical quantities are held as IEEE-754 bit patterns of `f64`
/// values (`f64::to_bits`); the library never does arithmetic on them.
#[derive(Debug)]
pub struct ProcessedData {
    pub current_load: u64,
    pub rated_load: u64,
    pub working_radius: u64,
    pub boom_angle: u64,
    pub boom_length: u64,
    pub moment_percentage: u64,
    pub is_warning: bool,
    pub is_danger: bool,
    pub validation_error: Option<String>,
    pub timestamp: SystemTime,
    pub sequence_number: u64,
    pub alarm_sources: Vec<AlarmSource>,
    pub alarm_messages: Vec<String>,
}

/// The value of a `ProcessedData`, with strings and vectors taken by their contents.
pub struct ProcessedDataView {
    pub current_load: u64,
    pub rated_load: u64,
    pub working_radius: u64,
    pub boom_angle: u64,
    pub boom_length: u64,
    pub moment_percentage: u64,
    pub is_warning: bool,
    pub is_danger: bool,
    pub validation_error: Option<Seq<char>>,
    pub timestamp: SystemTime,
    pub sequence_number: u64,
    pub alarm_sources: Seq<AlarmSource>,
    pub alarm_messages: Seq<Seq<char>>,
}

impl ProcessedDataView {
    /// Whether the sample carries any alarm: the danger flag or an alarm source.
    pub open spec fn has_any_alarm(self) -> bool {
        self.is_danger || self.alarm_sources.len() > 0
    }
}

impl View for ProcessedData {
    type V = ProcessedDataView;

    open spec fn view(&self) -> ProcessedDataView {
        ProcessedDataView {
            current_load: self.current_load,
            rated_load: self.rated_load,
            working_radius: self.working_radius,
            boom_angle: self.boom_angle,
            boom_length: self.boom_length,
            moment_percentage: self.moment_percentage,
            is_warning: self.is_warning,
            is_danger: self.is_danger,
            validation_error: match self.validation_error {
                Some(s) => Some(s@),
                None => None,
            },
            timestamp: self.timestamp,
            sequence_number: self.sequence_number,
            alarm_sources: self.alarm_sources@,
            alarm_messages: self.alarm_messages@.map_values(|m: String| m@),
        }
    }
}

/// The contents of a sequence of processed samples.
pub open spec fn data_views(s: Seq<ProcessedData>) -> Seq<ProcessedDataView> {
    s.map_values(|d: ProcessedData| d@)
}

fn clone_strings(v: &Vec<String>) -> (r: Vec<String>)
    ensures
        r@.map_values(|m: String| m@) == v@.map_values(|m: String| m@),
{
    let mut r: Vec<String> = Vec::new();
    let mut i: usize = 0;
    while i < v.len()
        invariant
            i <= v.len(),
            r@ == v@.subrange(0, i as int),
        decreases v.len() - i,
    {
        r.push(v[i].clone());
        assert(r@ =~= v@.subrange(0, i + 1));
        i = i + 1;
    }
    assert(r@ =~= v@);
    r
}

fn clone_sources(v: &Vec<AlarmSource>) -> (r: Vec<AlarmSource>)
    ensures
        r@ == v@,
{
    let mut r: Vec<AlarmSource> = Vec::new();
    let mut i: usize = 0;
    while i < v.len()
        invariant
            i <= v.len(),
            r@ == v@.subrange(0, i as int),
        decreases v.len() - i,
    {
        r.push(v[i]);
        assert(r@ =~= v@.subrange(0, i + 1));
        i = i + 1;
    }
    assert(r@ =~= v@);
    r
}

impl Clone for ProcessedData {
    fn clone(&self) -> (r: Self)
        ensures
            r@ == self@,
    {
        let validation_error = match &self.validation_error {
            Some(s) => Some(s.clone()),
            None => None,
        };
        ProcessedData {
            current_load: self.current_load,
            rated_load: self.rated_load,
            working_radius: self.working_radius,
            boom_angle: self.boom_angle,
            boom_length: self.boom_length,
            moment_percentage: self.moment_percentage,
            is_warning: self.is_warning,
            is_danger: self.is_danger,
            validation_error,
            timestamp: self.timestamp,
            sequence_number: self.sequence_number,
            alarm_sources: clone_sources(&self.alarm_sources),
            alarm_messages: clone_strings(&self.alarm_messages),
        }
    }
}

/// An alarm as the storage keeps it.
///
/// The measurements are IEEE-754 bit patterns of `f64` values (`f64::to_bits`).
#[derive(Debug)]
pub struct AlarmRecord {
    /// The record's id once stored.
    pub id: Option<i64>,
    pub sequence_number: u64,
    pub timestamp: SystemTime,
    pub alarm_type: AlarmType,
    pub current_load: u64,
    pub rated_load: u64,
    pub working_radius: u64,
    pub boom_angle: u64,
    pub boom_length: u64,
    pub moment_percentage: u64,
    /// What raised the alarm.
    pub description: Option<String>,
    pub acknowledged: bool,
    pub acknowledged_at: Option<SystemTime>,
}

impl Clone for AlarmRecord {
    fn clone(&self) -> (r: Self)
        ensures
            r == *self,
    {
        let description = match &self.description {
            Some(d) => Some(d.clone()),
            None => None,
        };
        AlarmRecord {
            id: self.id,
            sequence_number: self.sequence_number,
            timestamp: self.timestamp,
            alarm_type: self.alarm_type,
            current_load: self.current_load,
            rated_load: self.rated_load,
            working_radius: self.working_radius,
            boom_angle: self.boom_angle,
            boom_length: self.boom_length,
            moment_percentage: self.moment_percentage,
            description,
            acknowledged: self.acknowledged,
            acknowledged_at: self.acknowledged_at,
        }
    }
}

impl AlarmRecord {
    /// Whether this is the unacknowledged, not yet stored alarm raised by `data`.
    pub open spec fn is_alarm_of(self, data: ProcessedData) -> bool {
        &&& self.id is None
        &&& self.sequence_number == data.sequence_number
        &&& self.timestamp == data.timestamp
        &&& self.alarm_type == (if data.is_danger { AlarmType::Danger } else { AlarmType::Warning })
        &&& self.current_load == data.current_load
        &&& self.rated_load == data.rated_load
        &&& self.working_radius == data.working_radius
        &&& self.boom_angle == data.boom_angle
        &&& self.boom_length == data.boom_length
        &&& self.moment_percentage == data.moment_percentage
        &&& (data.alarm_messages@.len() == 0 ==> self.description is None)
        &&& (data.alarm_messages@.len() > 0 ==> (self.description matches Some(d)
            && d@ == joined(data.alarm_messages@.map_values(|m: String| m@), "; "@)))
        &&& !self.acknowledged
        &&& self.acknowledged_at is None
    }

    /// The unacknowledged, not yet stored alarm raised by a sample: a danger
    /// when the sample is dangerous, else a warning, described by the
    /// sample's alarm messages joined with "; ".
    pub fn from_processed_data(data: &ProcessedData) -> (r: Self)
        ensures
            r.is_alarm_of(*data),
    {
        AlarmRecord {
            id: None,
            sequence_number: data.sequence_number,
            timestamp: data.timestamp,
            alarm_type: if data.is_danger { AlarmType::Danger } else { AlarmType::Warning },
            current_load: data.current_load,
            rated_load: data.rated_load,
            working_radius: data.working_radius,
            boom_angle: data.boom_angle,
            boom_length: data.boom_length,
            moment_percentage: data.moment_percentage,
            description: alarm_description(&data.alarm_messages),
            acknowledged: false,
            acknowledged_at: None,
        }
    }
}

} // verus!
