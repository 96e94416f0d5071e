use qt_rust_demo::intents::MonitoringIntent;
use qt_rust_demo::models::ProcessedData;
use qt_rust_demo::reducers::monitoring_reducer::MonitoringReducer;
use qt_rust_demo::states::monitoring_state::MonitoringState;
use qt_rust_demo::viewmodel_manager::{
    mark_viewmodel_ready, start_global_data_collection, stop_global_data_collection, ViewModelManager,
};
use std::time::SystemTime;

#[test]
fn test_clear_error() {
    let reducer = MonitoringReducer::new();
    let state = MonitoringState { error_message: Some("测试错误".to_string()), ..Default::default() };
    let new_state = reducer.reduce(state, MonitoringIntent::ClearError);
    assert_eq!(new_state.error_message, None);
}

#[test]
fn test_reset_alarm() {
    let reducer = MonitoringReducer::new();
    let state = MonitoringState { is_danger: true, ..Default::default() };
    let new_state = reducer.reduce(state, MonitoringIntent::ResetAlarm);
    assert!(!new_state.is_danger);
}

#[test]
fn test_processed_data_updated() {
    let reducer = MonitoringReducer::default();
    let t = SystemTime::now();
    let sample = ProcessedData {
        current_load: 12.5f64.to_bits(),
        rated_load: 25.0f64.to_bits(),
        working_radius: 7.0f64.to_bits(),
        boom_angle: 45.0f64.to_bits(),
        boom_length: 20.0f64.to_bits(),
        moment_percentage: 95.0f64.to_bits(),
        is_warning: true,
        is_danger: false,
        validation_error: Some("力矩预警".to_string()),
        timestamp: t,
        sequence_number: 1,
        alarm_sources: Vec::new(),
        alarm_messages: Vec::new(),
    };
    let state = reducer.reduce(MonitoringState::default(), MonitoringIntent::ProcessedDataUpdated(sample));
    assert!(f64::from_bits(state.current_load) > 0.0);
    assert!(f64::from_bits(state.working_radius) > 0.0);
    assert!(state.sensor_connected);
    assert_eq!(state.error_message.as_deref(), Some("力矩预警"));
    assert_eq!(state.last_update_time, t);
}

#[test]
fn reducer_link_status() {
    let reducer = MonitoringReducer::new();
    let state = reducer.reduce(MonitoringState::default(), MonitoringIntent::SensorDisconnected);
    assert!(!state.sensor_connected);
    assert_eq!(state.error_message.as_deref(), Some("传感器连接断开"));
    let state = reducer.reduce(state, MonitoringIntent::SensorReconnected);
    assert!(state.sensor_connected);
    assert!(state.error_message.is_none());
    assert_eq!(f64::from_bits(MonitoringState::default().rated_load), 25.0);
}

#[test]
fn viewmodel_collection_needs_ready() {
    let mut m = ViewModelManager::new();
    assert!(!m.start_data_collection());
    assert!(!m.is_collecting());
    m.mark_viewmodel_ready();
    assert!(m.start_data_collection());
    assert!(m.is_collecting());
    assert!(m.stop_data_collection());
    assert!(!m.stop_data_collection());
}

#[test]
fn viewmodel_global_functions() {
    let mut global: Option<ViewModelManager> = None;
    mark_viewmodel_ready(&mut global);
    assert!(!start_global_data_collection(&mut global));
    global = Some(ViewModelManager::default());
    assert!(!start_global_data_collection(&mut global));
    mark_viewmodel_ready(&mut global);
    assert!(start_global_data_collection(&mut global));
    assert!(stop_global_data_collection(&mut global));
    assert!(!stop_global_data_collection(&mut global));
}
