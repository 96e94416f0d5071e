use qt_rust_demo::models::ProcessedData;
use qt_rust_demo::pipeline::storage_queue::StorageQueue;
use std::time::SystemTime;

/// A processed sample with sequence number `seq` from raw readings 20, 10, 60.
fn processed(seq: u64) -> ProcessedData {
    ProcessedData {
        current_load: 20.0f64.to_bits(),
        rated_load: 25.0f64.to_bits(),
        working_radius: 10.0f64.to_bits(),
        boom_angle: 60.0f64.to_bits(),
        boom_length: 20.0f64.to_bits(),
        moment_percentage: 80.0f64.to_bits(),
        is_warning: false,
        is_danger: false,
        validation_error: None,
        timestamp: SystemTime::now(),
        sequence_number: seq,
        alarm_sources: Vec::new(),
        alarm_messages: Vec::new(),
    }
}

#[test]
fn storage_queue_test_new() {
    let queue = StorageQueue::new(100);
    assert_eq!(queue.len(), 0);
    assert!(queue.is_empty());
    assert_eq!(queue.last_stored_sequence(), 0);
}

#[test]
fn test_push() {
    let mut queue = StorageQueue::new(10);
    assert!(queue.push(processed(1)).is_ok());
    assert_eq!(queue.len(), 1);
}

#[test]
fn test_push_duplicate() {
    let mut queue = StorageQueue::new(10);
    let p = processed(1);
    assert!(queue.push(p.clone()).is_ok());
    assert_eq!(queue.len(), 1);

    assert!(queue.remove_stored(1, 1).is_ok());
    assert_eq!(queue.len(), 0);
    assert_eq!(queue.last_stored_sequence(), 1);

    assert!(queue.push(p).is_ok());
    assert_eq!(queue.len(), 0);
}

#[test]
fn test_peek_batch() {
    let mut queue = StorageQueue::new(10);
    for i in 1..=5 {
        queue.push(processed(i)).unwrap();
    }
    let batch = queue.peek_batch(3);
    assert_eq!(batch.len(), 3);
    assert_eq!(batch[0].sequence_number, 1);
    assert_eq!(batch[1].sequence_number, 2);
    assert_eq!(batch[2].sequence_number, 3);
    assert_eq!(queue.len(), 5);
}

#[test]
fn test_remove_stored() {
    let mut queue = StorageQueue::new(10);
    for i in 1..=5 {
        queue.push(processed(i)).unwrap();
    }
    assert!(queue.remove_stored(3, 3).is_ok());
    assert_eq!(queue.len(), 2);
    assert_eq!(queue.last_stored_sequence(), 3);
    let batch = queue.peek_batch(10);
    assert_eq!(batch.len(), 2);
    assert_eq!(batch[0].sequence_number, 4);
    assert_eq!(batch[1].sequence_number, 5);
}

#[test]
fn test_queue_full() {
    let mut queue = StorageQueue::new(3);
    for i in 1..=5 {
        queue.push(processed(i)).unwrap();
    }
    assert_eq!(queue.len(), 3);
    let batch = queue.peek_batch(10);
    assert_eq!(batch.len(), 3);
    assert_eq!(batch[0].sequence_number, 3);
    assert_eq!(batch[1].sequence_number, 4);
    assert_eq!(batch[2].sequence_number, 5);
}

#[test]
fn storage_queue_remove_more_than_held() {
    let mut queue = StorageQueue::new(10);
    queue.push(processed(1)).unwrap();
    queue.push(processed(2)).unwrap();
    assert!(queue.remove_stored(10, 2).is_ok());
    assert!(queue.is_empty());
    assert_eq!(queue.last_stored_sequence(), 2);
    // older sequence numbers are not queued again
    queue.push(processed(2)).unwrap();
    queue.push(processed(1)).unwrap();
    assert!(queue.is_empty());
    queue.push(processed(3)).unwrap();
    assert_eq!(queue.len(), 1);
}
