use vstd::prelude::*;
use crate::models::{AlarmSource, ProcessedData};

verus! {

/// Settings of the processing pipeline.
#[derive(Debug, Clone, Copy, PartialEq, Eq, Structural)]
pub struct ProcessPipelineConfig {
    /// Time between two processing steps, in milliseconds.
    pub interval_ms: u64,
}

impl Default for ProcessPipelineConfig {
    fn default() -> (r: Self)
        ensures
            r == (ProcessPipelineConfig { interval_ms: 100 }),
    {
        ProcessPipelineConfig { interval_ms: 100 }
    }
}

/// Which configuration converts a filtered sample into physical quantities.
#[derive(Debug, Clone, Copy, PartialEq, Eq, Structural)]
pub enum ConversionSource {
    /// The calibration service, with the shared rated-load table and thresholds.
    CalibrationService,
    /// The hot-reloadable calibration, rated-load table and thresholds.
    HotReload,
    /// The crane configuration the pipeline was made with.
    StaticConfig,
}

/// The conversion used: the calibration service when it and the shared table
/// and thresholds are there, else the hot-reloadable calibration when it and
/// the table and thresholds are there, else the static configuration.
pub open spec fn conversion_for(has_service: bool, has_calibration: bool, has_table: bool, has_thresholds: bool) -> ConversionSource {
    if has_service && has_table && has_thresholds {
        ConversionSource::CalibrationService
    } else if has_calibration && has_table && has_thresholds {
        ConversionSource::HotReload
    } else {
        ConversionSource::StaticConfig
    }
}

/// Picks the conversion from what the pipeline was given.
pub fn choose_conversion(has_service: bool, has_calibration: bool, has_table: bool, has_thresholds: bool) -> (r: ConversionSource)
    ensures
        r == conversion_for(has_service, has_calibration, has_table, has_thresholds),
{
    if has_service && has_table && has_thresholds {
        ConversionSource::CalibrationService
    } else if has_calibration && has_table && has_thresholds {
        ConversionSource::HotReload
    } else {
        ConversionSource::StaticConfig
    }
}

/// The outcome of one alarm rule on a sample.
#[derive(Debug, Clone)]
pub struct AlarmCheckResult {
    /// Whether the rule fired.
    pub triggered: bool,
    /// What the rule watches, when it has an alarm type.
    pub source: Option<AlarmSource>,
    /// The rule's message.
    pub message: String,
}

/// Whether a result is recorded on the sample: it fired and has an alarm type.
pub open spec fn recorded(r: AlarmCheckResult) -> bool {
    r.triggered && r.source is Some
}

/// The alarm sources the results add, in order.
pub open spec fn added_sources(rs: Seq<AlarmCheckResult>) -> Seq<AlarmSource>
    decreases rs.len(),
{
    if rs.len() == 0 {
        Seq::empty()
    } else {
        let before = added_sources(rs.drop_last());
        if recorded(rs.last()) { before.push(rs.last().source.unwrap()) } else { before }
    }
}

/// The alarm messages the results add, in order.
pub open spec fn added_messages(rs: Seq<AlarmCheckResult>) -> Seq<Seq<char>>
    decreases rs.len(),
{
    if rs.len() == 0 {
        Seq::empty()
    } else {
        let before = added_messages(rs.drop_last());
        if recorded(rs.last()) { before.push(rs.last().message@) } else { before }
    }
}

/// Whether a recorded result is an angle alarm, which makes the sample dangerous.
pub open spec fn raises_angle_danger(rs: Seq<AlarmCheckResult>) -> bool {
    exists|i: int| 0 <= i < rs.len() && recorded(#[trigger] rs[i]) && rs[i].source == Some(AlarmSource::Angle)
}

/// Records the fired alarm rules on a processed sample: each fired rule with
/// an alarm type adds its source and message, and an angle alarm marks the
/// sample dangerous. Nothing else of the sample changes.
pub fn apply_alarm_results(processed: &mut ProcessedData, results: &Vec<AlarmCheckResult>)
    ensures
        final(processed).alarm_sources@ == old(processed).alarm_sources@ + added_sources(results@),
        final(processed).alarm_messages@.map_values(|m: String| m@)
            == old(processed).alarm_messages@.map_values(|m: String| m@) + added_messages(results@),
        final(processed).is_danger == (old(processed).is_danger || raises_angle_danger(results@)),
        final(processed).current_load == old(processed).current_load,
        final(processed).rated_load == old(processed).rated_load,
        final(processed).working_radius == old(processed).working_radius,
        final(processed).boom_angle == old(processed).boom_angle,
        final(processed).boom_length == old(processed).boom_length,
        final(processed).moment_percentage == old(processed).moment_percentage,
        final(processed).is_warning == old(processed).is_warning,
        final(processed).validation_error == old(processed).validation_error,
        final(processed).timestamp == old(processed).timestamp,
        final(processed).sequence_number == old(processed).sequence_number,
{
    let ghost sources0 = processed.alarm_sources@;
    let ghost messages0 = processed.alarm_messages@.map_values(|m: String| m@);
    let ghost danger0 = processed.is_danger;
    let mut i: usize = 0;
    while i < results.len()
        invariant
            i <= results@.len(),
            processed.alarm_sources@ == sources0 + added_sources(results@.take(i as int)),
            processed.alarm_messages@.map_values(|m: String| m@) == messages0 + added_messages(results@.take(i as int)),
            processed.is_danger == (danger0 || raises_angle_danger(results@.take(i as int))),
            processed.current_load == old(processed).current_load,
            processed.rated_load == old(processed).rated_load,
            processed.working_radius == old(processed).working_radius,
            processed.boom_angle == old(processed).boom_angle,
            processed.boom_length == old(processed).boom_length,
            processed.moment_percentage == old(processed).moment_percentage,
            processed.is_warning == old(processed).is_warning,
            processed.validation_error == old(processed).validation_error,
            processed.timestamp == old(processed).timestamp,
            processed.sequence_number == old(processed).sequence_number,
            sources0 == old(processed).alarm_sources@,
            messages0 == old(processed).alarm_messages@.map_values(|m: String| m@),
            danger0 == old(processed).is_danger,
        decreases results@.len() - i,
    {
        let ghost t = results@.take(i as int);
        let ghost t1 = results@.take(i + 1);
        proof {
            assert(t1.drop_last() =~= t);
            assert(t1.last() == results@[i as int]);
        }
        let r = &results[i];
        if r.triggered {
            match r.source {
                Some(source) => {
                    let ghost before_m = processed.alarm_messages@;
                    processed.alarm_sources.push(source);
                    processed.alarm_messages.push(r.message.clone());
                    assert(processed.alarm_messages@.map_values(|m: String| m@)
                        =~= before_m.map_values(|m: String| m@).push(r.message@));
                    if source == AlarmSource::Angle {
                        processed.is_danger = true;
                    }
                    proof {
                        if raises_angle_danger(t) {
                            let k = choose|k: int| 0 <= k < t.len() && recorded(#[trigger] t[k]) && t[k].source == Some(AlarmSource::Angle);
                            assert(t1[k] == t[k]);
                        }
                        if source == AlarmSource::Angle {
                            assert(t1[i as int] == results@[i as int]);
                        } else if raises_angle_danger(t1) {
                            let k = choose|k: int| 0 <= k < t1.len() && recorded(#[trigger] t1[k]) && t1[k].source == Some(AlarmSource::Angle);
                            assert(k < i);
                            assert(t[k] == t1[k]);
                        }
                    }
                },
                None => {
                    proof {
                        lemma_unrecorded_keeps_angle(t, t1);
                    }
                },
            }
        } else {
            proof {
                lemma_unrecorded_keeps_angle(t, t1);
            }
        }
        i = i + 1;
    }
    proof {
        assert(results@.take(results@.len() as int) =~= results@);
    }
}

proof fn lemma_unrecorded_keeps_angle(t: Seq<AlarmCheckResult>, t1: Seq<AlarmCheckResult>)
    requires
        t1.len() == t.len() + 1,
        forall|k: int| 0 <= k < t.len() ==> t1[k] == t[k],
        !recorded(t1.last()),
    ensures
        raises_angle_danger(t1) == raises_angle_danger(t),
{
    if raises_angle_danger(t) {
        let k = choose|k: int| 0 <= k < t.len() && recorded(#[trigger] t[k]) && t[k].source == Some(AlarmSource::Angle);
        assert(t1[k] == t[k]);
    }
    if raises_angle_danger(t1) {
        let k = choose|k: int| 0 <= k < t1.len() && recorded(#[trigger] t1[k]) && t1[k].source == Some(AlarmSource::Angle);
        assert(k < t.len());
        assert(t[k] == t1[k]);
    }
}

} // verus!
