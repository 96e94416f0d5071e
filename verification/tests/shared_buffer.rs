use qt_rust_demo::models::ProcessedData;
use qt_rust_demo::pipeline::shared_buffer::{ProcessedDataBuffer, MAX_MEMORY};
use std::time::SystemTime;

/// A processed sample built from raw readings `10 + seq`, 8 and 60.
fn create_test_data(seq: u64) -> ProcessedData {
    ProcessedData {
        current_load: (10.0 + seq as f64).to_bits(),
        rated_load: 25.0f64.to_bits(),
        working_radius: 8.0f64.to_bits(),
        boom_angle: 60.0f64.to_bits(),
        boom_length: 10.0f64.to_bits(),
        moment_percentage: 40.0f64.to_bits(),
        is_warning: false,
        is_danger: false,
        validation_error: None,
        timestamp: SystemTime::now(),
        sequence_number: seq,
        alarm_sources: Vec::new(),
        alarm_messages: Vec::new(),
    }
}

#[test]
fn shared_buffer_test_push_and_get_latest() {
    let mut buffer = ProcessedDataBuffer::new(10);
    let data = create_test_data(1);
    buffer.push(data.clone());
    let latest = buffer.get_latest();
    assert!(latest.is_some());
    assert_eq!(latest.unwrap().sequence_number, 1);
}

#[test]
fn shared_buffer_test_capacity_limit() {
    let mut buffer = ProcessedDataBuffer::new(5);
    for i in 0..10 {
        buffer.push(create_test_data(i));
    }
    let history = buffer.get_history(10);
    assert_eq!(history.len(), 5);
    assert_eq!(history[0].sequence_number, 9);
    assert_eq!(history[4].sequence_number, 5);
}

#[test]
fn test_get_history() {
    let mut buffer = ProcessedDataBuffer::new(10);
    for i in 0..5 {
        buffer.push(create_test_data(i));
    }
    let history = buffer.get_history(3);
    assert_eq!(history.len(), 3);
    assert_eq!(history[0].sequence_number, 4);
    assert_eq!(history[2].sequence_number, 2);
}

#[test]
fn test_stats() {
    let mut buffer = ProcessedDataBuffer::new(10);
    buffer.push(create_test_data(1));
    buffer.push(create_test_data(2));
    buffer.record_error();
    let stats = buffer.get_stats();
    assert_eq!(stats.success_count, 2);
    assert_eq!(stats.error_count, 1);
    assert_eq!(stats.total_collections, 3);
    assert!(stats.last_update_time.is_some());
}

#[test]
fn test_memory_usage() {
    let mut buffer = ProcessedDataBuffer::new(100);
    for i in 0..10 {
        buffer.push(create_test_data(i));
    }
    let usage = buffer.estimated_memory_usage();
    let expected = 10 * std::mem::size_of::<ProcessedData>();
    assert_eq!(usage, expected);
}

#[test]
fn shared_buffer_stays_within_memory_budget() {
    // law: the history never exceeds the memory budget
    let per = std::mem::size_of::<ProcessedData>();
    let fits = MAX_MEMORY / per;
    let mut buffer = ProcessedDataBuffer::new(fits + 50);
    for i in 0..(fits as u64 + 20) {
        buffer.push(create_test_data(i));
    }
    assert!(buffer.estimated_memory_usage() <= MAX_MEMORY);
    assert_eq!(buffer.get_history(1)[0].sequence_number, fits as u64 + 19);
}

#[test]
fn shared_buffer_empty_state() {
    let buffer = ProcessedDataBuffer::new(3);
    assert!(buffer.get_latest().is_none());
    assert!(buffer.get_history(3).is_empty());
    assert_eq!(buffer.estimated_memory_usage(), 0);
    let stats = buffer.get_stats();
    assert_eq!(stats.total_collections, 0);
    assert!(stats.last_update_time.is_none());
}
