use qt_rust_demo::models::{AlarmSource, ProcessedData, SensorData};
use qt_rust_demo::pipeline::collection_pipeline::{
    should_retry_read, CollectionLoopState, CollectionPipelineConfig, DangerEdge,
};
use qt_rust_demo::pipeline::event_bus::{route_event, Dispatch, PipelineEvent};
use qt_rust_demo::pipeline::manager_plan::{
    initial_sequence, plan_collection, shutdown_order, startup_order, CollectionMode, PipelineKind,
};
use qt_rust_demo::pipeline::process_pipeline::{
    apply_alarm_results, choose_conversion, AlarmCheckResult, ConversionSource, ProcessPipelineConfig,
};
use qt_rust_demo::pipeline::retry_policy::{next_retry, RetryConfig, RetryStep};
use std::time::SystemTime;

fn processed(seq: u64) -> ProcessedData {
    ProcessedData {
        current_load: 12.0f64.to_bits(),
        rated_load: 25.0f64.to_bits(),
        working_radius: 8.0f64.to_bits(),
        boom_angle: 60.0f64.to_bits(),
        boom_length: 10.0f64.to_bits(),
        moment_percentage: 48.0f64.to_bits(),
        is_warning: false,
        is_danger: false,
        validation_error: None,
        timestamp: SystemTime::now(),
        sequence_number: seq,
        alarm_sources: Vec::new(),
        alarm_messages: Vec::new(),
    }
}

#[test]
fn test_config_default() {
    let config = CollectionPipelineConfig::default();
    assert_eq!(config.interval_ms, 100);
    assert_eq!(config.max_retries, 3);
    assert_eq!(config.retry_delay_ms, 10);
    assert_eq!(config.disconnect_threshold, 10);
    assert!(config.enable_panic_recovery);
    assert_eq!(config.max_restarts, 5);
}

#[test]
fn test_default_config() {
    let config = ProcessPipelineConfig::default();
    assert_eq!(config.interval_ms, 100);
}

#[test]
fn collection_reads_at_most_retries_plus_one() {
    let config = CollectionPipelineConfig::default();
    let mut reads = 1;
    let mut attempt = 0;
    while should_retry_read(&config, attempt) {
        reads += 1;
        attempt += 1;
    }
    assert_eq!(reads, 4);
}

#[test]
fn collection_failures_reach_disconnect_threshold() {
    let config = CollectionPipelineConfig { disconnect_threshold: 3, ..CollectionPipelineConfig::default() };
    let mut state = CollectionLoopState::new();
    assert!(!state.record_failure(&config));
    assert!(!state.record_failure(&config));
    assert!(state.record_failure(&config));
    assert_eq!(state.consecutive_failures, 3);
    state.record_success();
    assert_eq!(state.consecutive_failures, 0);
    assert!(!state.record_failure(&config));
}

#[test]
fn collection_danger_edges_alternate() {
    let mut state = CollectionLoopState::new();
    let flags = [false, true, true, false, false, true];
    let edges: Vec<DangerEdge> = flags.iter().map(|f| state.check_alarm_state(*f)).collect();
    assert_eq!(
        edges,
        vec![
            DangerEdge::Unchanged,
            DangerEdge::Raised,
            DangerEdge::Unchanged,
            DangerEdge::Cleared,
            DangerEdge::Unchanged,
            DangerEdge::Raised
        ]
    );
}

#[test]
fn process_conversion_priority() {
    assert_eq!(choose_conversion(true, true, true, true), ConversionSource::CalibrationService);
    assert_eq!(choose_conversion(true, true, false, true), ConversionSource::StaticConfig);
    assert_eq!(choose_conversion(false, true, true, true), ConversionSource::HotReload);
    assert_eq!(choose_conversion(false, false, true, true), ConversionSource::StaticConfig);
}

#[test]
fn process_alarm_results_recorded() {
    let mut p = processed(3);
    let results = vec![
        AlarmCheckResult { triggered: false, source: Some(AlarmSource::Moment), message: "m".to_string() },
        AlarmCheckResult { triggered: true, source: None, message: "untyped".to_string() },
        AlarmCheckResult { triggered: true, source: Some(AlarmSource::Moment), message: "moment".to_string() },
    ];
    apply_alarm_results(&mut p, &results);
    assert_eq!(p.alarm_sources, vec![AlarmSource::Moment]);
    assert_eq!(p.alarm_messages, vec!["moment".to_string()]);
    assert!(!p.is_danger);
    let angle = vec![AlarmCheckResult { triggered: true, source: Some(AlarmSource::Angle), message: "angle".to_string() }];
    apply_alarm_results(&mut p, &angle);
    assert!(p.is_danger);
    assert_eq!(p.alarm_sources, vec![AlarmSource::Moment, AlarmSource::Angle]);
    assert_eq!(p.sequence_number, 3);
}

#[test]
fn retry_backoff_doubles_and_caps() {
    let config = RetryConfig::default();
    assert_eq!(config, RetryConfig { max_retries: 3, base_delay_ms: 100, max_delay_ms: 10000 });
    assert_eq!(next_retry(&config, 0), RetryStep::RetryAfter(100));
    assert_eq!(next_retry(&config, 1), RetryStep::RetryAfter(200));
    assert_eq!(next_retry(&config, 2), RetryStep::RetryAfter(400));
    assert_eq!(next_retry(&config, 3), RetryStep::GiveUp);
    let capped = RetryConfig { max_retries: 40, base_delay_ms: 100, max_delay_ms: 1000 };
    assert_eq!(next_retry(&capped, 4), RetryStep::RetryAfter(1000));
    assert_eq!(next_retry(&capped, 39), RetryStep::RetryAfter(1000));
    let huge = RetryConfig { max_retries: 100, base_delay_ms: u64::MAX, max_delay_ms: u64::MAX };
    assert_eq!(next_retry(&huge, 70), RetryStep::RetryAfter(u64::MAX));
}

#[test]
fn manager_plan_orders() {
    assert_eq!(
        startup_order(),
        vec![PipelineKind::SensorStorage, PipelineKind::Storage, PipelineKind::Process, PipelineKind::Collection, PipelineKind::Display]
    );
    assert_eq!(
        shutdown_order(),
        vec![PipelineKind::SensorStorage, PipelineKind::Collection, PipelineKind::Process, PipelineKind::Storage, PipelineKind::Display]
    );
    assert_eq!(initial_sequence(0), None);
    assert_eq!(initial_sequence(42), Some(42));
    assert_eq!(plan_collection(true), CollectionMode::WithStorageSender);
    assert_eq!(plan_collection(false), CollectionMode::FilterBuffer);
}

#[test]
fn event_bus_routing() {
    match route_event(PipelineEvent::Storage(vec![processed(1), processed(2)]), true, false) {
        Dispatch::ToStorage(v) => assert_eq!(v.len(), 2),
        other => panic!("unexpected {:?}", other),
    }
    match route_event(PipelineEvent::Alarm(processed(5)), true, true) {
        Dispatch::ToStorage(v) => assert_eq!(v[0].sequence_number, 5),
        other => panic!("unexpected {:?}", other),
    }
    assert!(matches!(route_event(PipelineEvent::Alarm(processed(5)), false, true), Dispatch::Nothing));
    assert!(matches!(route_event(PipelineEvent::AlarmCleared, true, true), Dispatch::Nothing));
    assert!(matches!(
        route_event(PipelineEvent::SensorData(vec![SensorData::new(1, 2, 3)]), true, false),
        Dispatch::Nothing
    ));
    match route_event(PipelineEvent::SensorData(vec![SensorData::new(1, 2, 3)]), false, true) {
        Dispatch::ToSensor(v) => assert_eq!(v, vec![SensorData::new(1, 2, 3)]),
        other => panic!("unexpected {:?}", other),
    }
    assert!(matches!(
        route_event(PipelineEvent::Shutdown, true, false),
        Dispatch::Shutdown { storage: true, sensor: false }
    ));
}
