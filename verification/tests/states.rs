use qt_rust_demo::states::alarm_state::{AlarmRecord, AlarmState, AlarmType};
use qt_rust_demo::states::chart_state::{ChartDataPoint, ChartState};
use qt_rust_demo::states::common_state::{ConnectionState, ErrorState, LoadingState, PaginationState};
use std::time::{Duration, SystemTime};

fn record(id: u64, alarm_type: AlarmType, moment: f64, load: f64, radius: f64, angle: f64) -> AlarmRecord {
    AlarmRecord::new(id, alarm_type, moment.to_bits(), load.to_bits(), radius.to_bits(), angle.to_bits())
}

#[test]
fn test_states_module_exists() {
    let state = LoadingState::default();
    assert!(!state.is_loading());
}

#[test]
fn test_loading_state() {
    let state = LoadingState::default();
    assert_eq!(state, LoadingState::Idle);
    let loading = LoadingState::Loading;
    assert!(loading.is_loading());
    assert!(!loading.is_success());
    assert!(!loading.is_failed());
}

#[test]
fn test_error_state() {
    let error = ErrorState::new("测试错误");
    assert_eq!(error.message, "测试错误");
    assert!(!error.is_retryable);

    let error = ErrorState::with_code("网络错误", 500).retryable().with_details("连接超时");
    assert_eq!(error.code, Some(500));
    assert!(error.is_retryable);
    assert_eq!(error.details, Some("连接超时".to_string()));
}

#[test]
fn test_pagination_state() {
    let mut state = PaginationState::new(10);
    state.total_count = 45;

    assert_eq!(state.total_pages(), 5);
    assert_eq!(state.current_page, 1);
    assert!(state.has_next_page());
    assert!(!state.has_previous_page());

    assert_eq!(state.start_index(), 0);
    assert_eq!(state.end_index(), 10);

    state.next_page();
    assert_eq!(state.current_page, 2);
    assert_eq!(state.start_index(), 10);
    assert_eq!(state.end_index(), 20);

    state.goto_page(5);
    assert_eq!(state.current_page, 5);
    assert!(!state.has_next_page());
    assert!(state.has_previous_page());
}

#[test]
fn test_connection_state() {
    let state = ConnectionState::default();
    assert_eq!(state, ConnectionState::Disconnected);
    let connected = ConnectionState::Connected;
    assert!(connected.is_connected());
    assert!(!connected.is_connecting());
    assert!(!connected.is_disconnected());
}

#[test]
fn pagination_edges() {
    let mut state = PaginationState::default();
    assert_eq!(state.total_pages(), 0);
    assert!(!state.next_page());
    assert!(!state.previous_page());
    assert!(!state.goto_page(1));
    state.total_count = 41;
    assert_eq!(state.total_pages(), 3);
    assert!(!state.goto_page(0));
    assert!(!state.goto_page(4));
    assert!(state.goto_page(3));
    assert_eq!(state.end_index(), 41);
    // law: next then previous returns to the same page
    assert!(state.goto_page(2));
    assert!(state.next_page());
    assert!(state.previous_page());
    assert_eq!(state.current_page, 2);
}

#[test]
fn test_alarm_type() {
    assert_eq!(AlarmType::Warning.display_text(), "预警");
    assert_eq!(AlarmType::Danger.display_text(), "危险");
    assert_eq!(AlarmType::Warning.level(), 1);
    assert_eq!(AlarmType::Danger.level(), 2);
}

#[test]
fn test_alarm_record() {
    let mut rec = record(1, AlarmType::Warning, 95.0, 20.0, 10.0, 60.0);
    assert!(!rec.is_read);
    rec.mark_as_read();
    assert!(rec.is_read);
}

#[test]
fn test_alarm_state() {
    let mut state = AlarmState::default();
    state.add_record(record(1, AlarmType::Warning, 95.0, 20.0, 10.0, 60.0));
    state.add_record(record(2, AlarmType::Danger, 105.0, 25.0, 12.0, 65.0));
    assert_eq!(state.records.len(), 2);
    assert_eq!(state.total_count, 2);
    assert_eq!(state.unread_count(), 2);
    assert_eq!(state.danger_count(), 1);
    assert_eq!(state.warning_count(), 1);
}

#[test]
fn test_mark_all_as_read() {
    let mut state = AlarmState::default();
    state.add_record(record(1, AlarmType::Warning, 95.0, 20.0, 10.0, 60.0));
    state.add_record(record(2, AlarmType::Danger, 105.0, 25.0, 12.0, 65.0));
    assert_eq!(state.unread_count(), 2);
    state.mark_all_as_read();
    assert_eq!(state.unread_count(), 0);
}

#[test]
fn test_filtered_records() {
    let mut state = AlarmState::default();
    state.add_record(record(1, AlarmType::Warning, 95.0, 20.0, 10.0, 60.0));
    state.add_record(record(2, AlarmType::Danger, 105.0, 25.0, 12.0, 65.0));
    state.add_record(record(3, AlarmType::Warning, 92.0, 18.0, 9.0, 58.0));

    state.filter_type = Some(AlarmType::Danger);
    let filtered = state.filtered_records();
    assert_eq!(filtered.len(), 1);
    assert_eq!(filtered[0].id, 2);

    state.filter_type = Some(AlarmType::Warning);
    let filtered = state.filtered_records();
    assert_eq!(filtered.len(), 2);
}

#[test]
fn test_find_record() {
    let mut state = AlarmState::default();
    state.add_record(record(1, AlarmType::Warning, 95.0, 20.0, 10.0, 60.0));
    state.add_record(record(2, AlarmType::Danger, 105.0, 25.0, 12.0, 65.0));
    let rec = state.find_record(1);
    assert!(rec.is_some());
    assert_eq!(rec.unwrap().id, 1);
    let rec = state.find_record(999);
    assert!(rec.is_none());
}

#[test]
fn alarm_state_unread_filter_and_mutation() {
    let mut state = AlarmState::new();
    state.add_record(record(1, AlarmType::Warning, 95.0, 20.0, 10.0, 60.0));
    state.add_record(record(2, AlarmType::Danger, 105.0, 25.0, 12.0, 65.0));
    if let Some(r) = state.find_record_mut(2) {
        r.mark_as_read();
    }
    assert!(state.find_record_mut(7).is_none());
    state.show_unread_only = true;
    let shown = state.filtered_records();
    assert_eq!(shown.len(), 1);
    assert_eq!(shown[0].id, 1);
    // law: the two type counts add up to the number of records
    assert_eq!(state.danger_count() + state.warning_count(), state.records.len());
    state.selected_record_id = Some(1);
    state.clear_records();
    assert!(state.records.is_empty());
    assert_eq!(state.total_count, 0);
    assert!(state.selected_record_id.is_none());
}

fn point(load: f64) -> ChartDataPoint {
    ChartDataPoint {
        timestamp: SystemTime::now(),
        load: load.to_bits(),
        moment_percentage: 50.0f64.to_bits(),
        radius: 10.0f64.to_bits(),
    }
}

#[test]
fn test_default_state() {
    let state = ChartState::default();
    assert_eq!(state.data_points.len(), 0);
    assert_eq!(state.time_range, 60);
    assert!(!state.is_loading);
}

#[test]
fn test_add_data_point() {
    let mut state = ChartState::default();
    let p = point(15.0);
    state.add_data_point(p.clone());
    assert_eq!(state.data_points.len(), 1);
    assert_eq!(f64::from_bits(state.data_points[0].load), 15.0);
}

#[test]
fn test_max_data_points_limit() {
    let mut state = ChartState::default();
    state.max_data_points = 5;
    for i in 0..10 {
        state.add_data_point(point(i as f64));
    }
    assert_eq!(state.data_points.len(), 5);
    assert_eq!(f64::from_bits(state.data_points[0].load), 5.0);
}

#[test]
fn chart_points_in_range() {
    let mut state = ChartState::new();
    let old = ChartDataPoint { timestamp: SystemTime::now() - Duration::from_secs(3600), ..point(1.0) };
    state.add_data_point(old);
    state.add_data_point(point(2.0));
    let recent = state.get_data_points_in_range(60);
    assert_eq!(recent.len(), 1);
    assert_eq!(f64::from_bits(recent[0].load), 2.0);
    let by_ages = state.points_in_range(&vec![Some(10), None], 60);
    assert_eq!(by_ages.len(), 1);
    assert_eq!(f64::from_bits(by_ages[0].load), 1.0);
    state.clear_data_points();
    assert!(state.data_points.is_empty());
}

#[test]
fn alarm_type_storage_names() {
    assert_eq!(AlarmType::Warning.storage_name(), "warning");
    assert_eq!(AlarmType::Danger.storage_name(), "danger");
    assert_eq!(AlarmType::from_storage_name("danger"), Some(AlarmType::Danger));
    assert_eq!(AlarmType::from_storage_name("warning"), Some(AlarmType::Warning));
    assert_eq!(AlarmType::from_storage_name("Danger"), None);
}
