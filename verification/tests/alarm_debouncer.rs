use qt_rust_demo::models::{AlarmSource, ProcessedData};
use qt_rust_demo::pipeline::alarm_debouncer::{AlarmAction, AlarmDebounceConfig, AlarmDebouncer};
use std::time::SystemTime;

fn make_data(sequence: u64, is_danger: bool, alarm_sources: Vec<AlarmSource>) -> ProcessedData {
    ProcessedData {
        current_load: 10.0f64.to_bits(),
        rated_load: 25.0f64.to_bits(),
        working_radius: 5.0f64.to_bits(),
        boom_angle: 45.0f64.to_bits(),
        boom_length: 10.0f64.to_bits(),
        moment_percentage: 50.0f64.to_bits(),
        is_warning: is_danger,
        is_danger,
        validation_error: None,
        timestamp: SystemTime::now(),
        sequence_number: sequence,
        alarm_sources,
        alarm_messages: Vec::new(),
    }
}

#[test]
fn test_debouncer_triggers_alarm_after_threshold() {
    let config = AlarmDebounceConfig { alarm_debounce_count: 3, alarm_clear_debounce_count: 5 };
    let mut debouncer = AlarmDebouncer::new(config);

    assert_eq!(debouncer.process(&make_data(1, true, vec![AlarmSource::Moment])), AlarmAction::NoAction);
    assert_eq!(debouncer.process(&make_data(2, true, vec![AlarmSource::Moment])), AlarmAction::NoAction);

    let action = debouncer.process(&make_data(3, true, vec![AlarmSource::Moment]));
    assert!(matches!(action, AlarmAction::TriggerAlarm(_)));

    assert_eq!(debouncer.process(&make_data(4, true, vec![AlarmSource::Moment])), AlarmAction::NoAction);
}

#[test]
fn test_debouncer_clears_alarm_after_threshold() {
    let config = AlarmDebounceConfig { alarm_debounce_count: 1, alarm_clear_debounce_count: 2 };
    let mut debouncer = AlarmDebouncer::new(config);

    debouncer.process(&make_data(1, true, vec![AlarmSource::Moment]));
    assert_eq!(debouncer.process(&make_data(2, false, vec![])), AlarmAction::NoAction);

    let action = debouncer.process(&make_data(3, false, vec![]));
    assert_eq!(action, AlarmAction::ClearAlarm);
}

#[test]
fn test_debouncer_zero_threshold_immediate() {
    let config = AlarmDebounceConfig { alarm_debounce_count: 0, alarm_clear_debounce_count: 0 };
    let mut debouncer = AlarmDebouncer::new(config);

    let action = debouncer.process(&make_data(1, true, vec![AlarmSource::Moment]));
    assert!(matches!(action, AlarmAction::TriggerAlarm(_)));

    let action = debouncer.process(&make_data(2, false, vec![]));
    assert_eq!(action, AlarmAction::ClearAlarm);
}

#[test]
fn test_debouncer_reset() {
    let config = AlarmDebounceConfig::default();
    let mut debouncer = AlarmDebouncer::new(config);

    debouncer.process(&make_data(1, true, vec![AlarmSource::Moment]));
    debouncer.reset();

    let state = debouncer.clone_state();
    assert_eq!(state.danger_count, 0);
    assert_eq!(state.safe_count, 0);
    assert!(!state.last_was_danger);
}

#[test]
fn test_notify_danger_cleared_compatible() {
    let config = AlarmDebounceConfig { alarm_debounce_count: 1, alarm_clear_debounce_count: 1 };
    let mut debouncer = AlarmDebouncer::new(config);

    debouncer.process(&make_data(1, true, vec![AlarmSource::Moment]));
    debouncer.notify_danger_cleared();

    let action = debouncer.process(&make_data(2, true, vec![AlarmSource::Moment]));
    assert!(matches!(action, AlarmAction::TriggerAlarm(_)));
}

#[test]
fn debouncer_alarm_source_without_danger_flag_counts_as_alarm() {
    let config = AlarmDebounceConfig { alarm_debounce_count: 1, alarm_clear_debounce_count: 1 };
    let mut debouncer = AlarmDebouncer::new(config);
    let action = debouncer.process(&make_data(7, false, vec![AlarmSource::Angle]));
    match action {
        AlarmAction::TriggerAlarm(d) => assert_eq!(d.sequence_number, 7),
        other => panic!("expected an alarm, got {:?}", other),
    }
}

#[test]
fn debouncer_raises_once_per_danger_run() {
    // law: between two raises there is a clear
    let config = AlarmDebounceConfig { alarm_debounce_count: 2, alarm_clear_debounce_count: 2 };
    let mut debouncer = AlarmDebouncer::new(config);
    let inputs = [true, true, true, true, false, true, false, false, true, true];
    let mut raises = 0;
    let mut clears = 0;
    for (i, danger) in inputs.iter().enumerate() {
        let sources = if *danger { vec![AlarmSource::Moment] } else { vec![] };
        match debouncer.process(&make_data(i as u64, *danger, sources)) {
            AlarmAction::TriggerAlarm(_) => raises += 1,
            AlarmAction::ClearAlarm => clears += 1,
            AlarmAction::NoAction => {}
        }
    }
    assert_eq!(raises, 2);
    assert_eq!(clears, 1);
}

#[test]
fn debouncer_default_thresholds() {
    let config = AlarmDebounceConfig::default();
    assert_eq!(config.alarm_debounce_count, 5);
    assert_eq!(config.alarm_clear_debounce_count, 10);
    let mut debouncer = AlarmDebouncer::new(config);
    for i in 0..4 {
        assert_eq!(debouncer.process(&make_data(i, true, vec![])), AlarmAction::NoAction);
    }
    assert!(matches!(debouncer.process(&make_data(4, true, vec![])), AlarmAction::TriggerAlarm(_)));
}
