use qt_rust_demo::config::StorageConfig;
use qt_rust_demo::models::{AlarmSource, ProcessedData, SensorData};
use qt_rust_demo::pipeline::alarm_debouncer::{AlarmAction, AlarmDebounceConfig};
use qt_rust_demo::pipeline::sensor_storage_pipeline::{SensorDataStorageConfig, SensorStoragePipeline};
use qt_rust_demo::pipeline::storage_pipeline::{StoragePipeline, StoragePipelineConfig};
use qt_rust_demo::pipeline::storage_service::{batch_max_sequence, StorageService, StorageServiceConfig};
use qt_rust_demo::repositories::alarm_text::alarm_description;
use qt_rust_demo::repositories::mock_storage_repository::{MockStorageRepository, StorageFactory};
use qt_rust_demo::repositories::retention::{purge_plan, purge_threshold, time_range_for, calculate_time_range};
use std::time::SystemTime;

fn make_processed_data(seq: u64, is_danger: bool) -> ProcessedData {
    ProcessedData {
        current_load: 10.0f64.to_bits(),
        rated_load: 25.0f64.to_bits(),
        working_radius: 5.0f64.to_bits(),
        boom_angle: 45.0f64.to_bits(),
        boom_length: 10.0f64.to_bits(),
        moment_percentage: 50.0f64.to_bits(),
        is_warning: is_danger,
        is_danger,
        validation_error: None,
        timestamp: SystemTime::now(),
        sequence_number: seq,
        alarm_sources: if is_danger { vec![AlarmSource::Moment] } else { vec![] },
        alarm_messages: Vec::new(),
    }
}

fn create_test_service() -> StorageService {
    StorageService::new(StorageServiceConfig::default())
}

#[test]
fn test_save_batch() {
    let mut service = create_test_service();
    let data = vec![make_processed_data(1, false)];
    let saved = service.batch_saved(&data);
    assert_eq!(saved, 1);
    assert_eq!(service.last_stored_sequence(), 1);
}

#[test]
fn test_process_alarm_trigger() {
    let config = StorageServiceConfig {
        alarm_debounce: AlarmDebounceConfig { alarm_debounce_count: 1, alarm_clear_debounce_count: 1 },
        ..Default::default()
    };
    let mut service = StorageService::new(config);
    let action = service.process_alarm(&make_processed_data(1, true));
    assert!(matches!(action, AlarmAction::TriggerAlarm(_)));
}

#[test]
fn test_process_alarm_clear() {
    let config = StorageServiceConfig {
        alarm_debounce: AlarmDebounceConfig { alarm_debounce_count: 1, alarm_clear_debounce_count: 1 },
        ..Default::default()
    };
    let mut service = StorageService::new(config);
    service.process_alarm(&make_processed_data(1, true));
    let action = service.process_alarm(&make_processed_data(2, false));
    assert_eq!(action, AlarmAction::ClearAlarm);
}

#[test]
fn test_initialize_sequence() {
    let mut service = create_test_service();
    service.set_initial_sequence(42);
    assert_eq!(service.last_stored_sequence(), 42);
    assert!(service.initialize_sequence(Err("db down".to_string())).is_ok());
    assert_eq!(service.last_stored_sequence(), 42);
    assert!(service.initialize_sequence(Ok(7)).is_ok());
    assert_eq!(service.last_stored_sequence(), 7);
}

#[test]
fn test_notify_danger_cleared() {
    let mut service = create_test_service();
    service.notify_danger_cleared();
    assert_eq!(service.max_records(), 0);
    assert!(service.purge_limits().is_none());
    assert!(service.alarm_purge_limits().is_none());
}

#[test]
fn storage_service_limits_and_retry() {
    let config = StorageServiceConfig { max_records: 100, purge_threshold: 120, alarm_max_records: 10, ..Default::default() };
    let service = StorageService::new(config);
    assert_eq!(service.purge_limits(), Some((100, 120)));
    assert_eq!(service.alarm_purge_limits(), Some((10, 0)));
    let retry = service.retry_config();
    assert_eq!((retry.max_retries, retry.base_delay_ms, retry.max_delay_ms), (3, 100, 10000));
    assert_eq!(batch_max_sequence(&[make_processed_data(4, false), make_processed_data(9, false), make_processed_data(2, false)]), 9);
    assert_eq!(batch_max_sequence(&[]), 0);
}

#[test]
fn storage_pipeline_test_with_event_channel() {
    let service = create_test_service();
    let pipeline = StoragePipeline::with_service(StoragePipelineConfig::default(), service);
    assert_eq!(pipeline.queue_len(), 0);
    assert_eq!(pipeline.last_stored_sequence(), 0);
}

#[test]
fn storage_pipeline_test_start_stop() {
    let mut pipeline = StoragePipeline::with_service(StoragePipelineConfig::default(), create_test_service());
    assert!(pipeline.start().is_ok());
    assert!(pipeline.start().is_err());
    pipeline.stop();
    assert!(pipeline.start().is_ok());
}

#[test]
fn test_queue_operations() {
    let pipeline = StoragePipeline::with_service(StoragePipelineConfig::default(), create_test_service());
    assert_eq!(pipeline.queue_len(), 0);
    assert_eq!(pipeline.last_stored_sequence(), 0);
}

#[test]
fn storage_pipeline_batches_and_flushes() {
    let config = StoragePipelineConfig { batch_size: 3, ..StoragePipelineConfig::default() };
    let service = StorageService::new(StorageServiceConfig {
        max_records: 50,
        purge_threshold: 60,
        alarm_debounce: AlarmDebounceConfig { alarm_debounce_count: 1, alarm_clear_debounce_count: 1 },
        ..Default::default()
    });
    let mut pipeline = StoragePipeline::with_service(config, service);
    let out = pipeline.handle_new_data(vec![make_processed_data(1, false), make_processed_data(2, true)]);
    assert!(!out.flush_now);
    assert_eq!(out.alarms.len(), 1);
    assert_eq!(out.alarms[0].sequence_number, 2);
    assert_eq!(pipeline.queue_len(), 2);
    let out = pipeline.handle_new_data(vec![make_processed_data(3, true)]);
    assert!(out.flush_now);
    assert!(out.alarms.is_empty());
    let batch = pipeline.take_batch().unwrap();
    assert_eq!(batch.len(), 3);
    assert_eq!(pipeline.queue_len(), 0);
    // a failed write keeps every sample
    assert_eq!(pipeline.finish_flush(batch, false), None);
    assert_eq!(pipeline.queue_len(), 3);
    let batch = pipeline.take_batch().unwrap();
    assert_eq!(pipeline.finish_flush(batch, true), Some((50, 60)));
    assert_eq!(pipeline.last_stored_sequence(), 3);
    assert!(pipeline.take_batch().is_none());
    // stale samples are not queued again
    let out = pipeline.handle_new_data(vec![make_processed_data(2, false), make_processed_data(3, false), make_processed_data(4, false)]);
    assert!(!out.flush_now);
    assert_eq!(pipeline.queue_len(), 1);
}

#[test]
fn storage_pipeline_latest_only() {
    let config = StoragePipelineConfig { batch_size: 2, save_only_latest: true, ..StoragePipelineConfig::default() };
    let mut pipeline = StoragePipeline::with_service(config, create_test_service());
    let out = pipeline.handle_new_data(vec![make_processed_data(1, false), make_processed_data(2, false), make_processed_data(3, false)]);
    assert!(out.flush_now);
    let batch = pipeline.take_batch().unwrap();
    assert_eq!(batch.len(), 1);
    assert_eq!(batch[0].sequence_number, 3);
}

#[test]
fn storage_pipeline_initialize_sequence() {
    let mut pipeline = StoragePipeline::with_service(StoragePipelineConfig::default(), create_test_service());
    assert!(pipeline.initialize_sequence(Ok(10)).is_ok());
    assert_eq!(pipeline.last_stored_sequence(), 10);
    let out = pipeline.handle_new_data(vec![make_processed_data(10, false), make_processed_data(11, false)]);
    assert!(!out.flush_now);
    assert_eq!(pipeline.queue_len(), 1);
    pipeline.notify_danger_cleared();
    assert_eq!(pipeline.service().last_stored_sequence(), 10);
}

#[test]
fn storage_config_split() {
    let cfg = StorageConfig {
        interval_ms: 2000,
        batch_size: 20,
        max_queue_size: 500,
        save_only_latest: true,
        max_records: 1000,
        purge_threshold: 1200,
        alarm_max_records: 100,
        alarm_purge_threshold: 120,
        max_retries: 5,
        retry_delay_ms: 50,
    };
    let (p, s) = StoragePipelineConfig::from_pipeline_config(&cfg);
    assert_eq!(p, StoragePipelineConfig { interval_ms: 2000, batch_size: 20, max_queue_size: 500, save_only_latest: true });
    assert_eq!((s.max_records, s.purge_threshold, s.alarm_max_records, s.alarm_purge_threshold), (1000, 1200, 100, 120));
    assert_eq!((s.max_retries, s.retry_delay_ms), (5, 50));
    assert_eq!((s.alarm_debounce.alarm_debounce_count, s.alarm_debounce.alarm_clear_debounce_count), (5, 10));
    let d = StoragePipelineConfig::default();
    assert_eq!((d.interval_ms, d.batch_size, d.max_queue_size, d.save_only_latest), (5000, 10, 1000, false));
}

#[test]
fn mock_storage_repository_test_new() {
    let repo = MockStorageRepository::new();
    assert_eq!(repo.get_runtime_data_count(), 0);
    assert_eq!(repo.get_alarm_count(), 0);
}

#[test]
fn test_save_runtime_data() {
    let mut repo = MockStorageRepository::new();
    let result = repo.save_runtime_data_batch(&[make_processed_data(1, false)]);
    assert!(result.is_ok());
    assert_eq!(result.unwrap(), 1);
    assert_eq!(repo.get_runtime_data_count(), 1);
}

#[test]
fn mock_storage_repository_test_save_alarm_record() {
    let mut repo = MockStorageRepository::new();
    let result = repo.save_alarm_record(&make_processed_data(1, true));
    assert!(result.is_ok());
    assert_eq!(repo.get_alarm_count(), 1);
}

#[test]
fn test_should_fail() {
    let mut repo = MockStorageRepository::new();
    repo.set_should_fail(true);
    let result = repo.save_runtime_data_batch(&[make_processed_data(1, false)]);
    assert!(result.is_err());
    assert_eq!(result.unwrap_err(), "Mock failure");
    assert!(repo.health_check().is_err());
}

#[test]
fn test_query_recent_runtime_data() {
    let mut repo = MockStorageRepository::new();
    for i in 1..=5 {
        repo.save_runtime_data_batch(&[make_processed_data(i, false)]).unwrap();
    }
    let data = repo.query_recent_runtime_data(3).unwrap();
    assert_eq!(data.len(), 3);
    assert_eq!(data[0].sequence_number, 5);
    assert_eq!(data[1].sequence_number, 4);
    assert_eq!(data[2].sequence_number, 3);
}

#[test]
fn mock_storage_repository_test_acknowledge_alarm() {
    let mut repo = MockStorageRepository::new();
    let alarm_id = repo.save_alarm_record(&make_processed_data(1, true)).unwrap();
    assert!(repo.acknowledge_alarm(alarm_id).is_ok());
    let alarms = repo.query_unacknowledged_alarms().unwrap();
    assert_eq!(alarms.len(), 0);
    assert_eq!(repo.acknowledge_alarm(99).unwrap_err(), "Alarm not found");
    assert!(repo.acknowledge_alarm(0).is_err());
}

#[test]
fn mock_storage_repository_test_get_last_stored_sequence() {
    let mut repo = MockStorageRepository::new();
    assert_eq!(repo.get_last_stored_sequence().unwrap(), 0);
    repo.save_runtime_data_batch(&[make_processed_data(5, false)]).unwrap();
    assert_eq!(repo.get_last_stored_sequence().unwrap(), 5);
}

#[test]
fn test_clear() {
    let mut repo = StorageFactory::create_mock();
    let p = make_processed_data(1, true);
    repo.save_runtime_data_batch(&[p.clone()]).unwrap();
    repo.save_alarm_record(&p).unwrap();
    assert_eq!(repo.get_runtime_data_count(), 1);
    assert_eq!(repo.get_alarm_count(), 1);
    repo.clear();
    assert_eq!(repo.get_runtime_data_count(), 0);
    assert_eq!(repo.get_alarm_count(), 0);
}

#[test]
fn mock_alarm_record_contents() {
    let mut repo = MockStorageRepository::default();
    let mut p = make_processed_data(8, true);
    p.alarm_messages = vec!["力矩报警".to_string(), "角度报警".to_string()];
    repo.save_alarm_record(&p).unwrap();
    let alarms = repo.query_unacknowledged_alarms().unwrap();
    assert_eq!(alarms.len(), 1);
    assert_eq!(alarms[0].sequence_number, 8);
    assert_eq!(alarms[0].description.as_deref(), Some("力矩报警; 角度报警"));
    assert!(alarms[0].id.is_none());
}

#[test]
fn retention_purge_plan() {
    // default threshold: the smaller of 110% and limit + slack
    assert_eq!(purge_threshold(100, 0, 1000), 110);
    assert_eq!(purge_threshold(100_000, 0, 1000), 101_000);
    assert_eq!(purge_threshold(100, 150, 1000), 150);
    assert_eq!(purge_threshold(usize::MAX, 0, 1000), usize::MAX);
    assert_eq!(purge_plan(110, 100, 0, 1000), 0);
    assert_eq!(purge_plan(111, 100, 0, 1000), 11);
    assert_eq!(purge_plan(500, 0, 0, 1000), 0);
    assert_eq!(purge_plan(151, 100, 150, 100), 51);
}

#[test]
fn retention_time_ranges() {
    assert_eq!(time_range_for("all", 1_000_000), None);
    assert_eq!(time_range_for("bogus", 1_000_000), None);
    assert_eq!(time_range_for("today", 1_000_000), Some((950_400, 1_000_000)));
    assert_eq!(time_range_for("week", 1_000_000), Some((1_000_000 - 7 * 86_400, 1_000_000)));
    assert_eq!(time_range_for("month", 3_000_000), Some((3_000_000 - 30 * 86_400, 3_000_000)));
    assert_eq!(calculate_time_range("all"), None);
    let (start, end) = calculate_time_range("today").unwrap();
    assert!(start <= end && end - start < 86_400);
}

#[test]
fn alarm_descriptions() {
    assert_eq!(alarm_description(&vec![]), None);
    assert_eq!(alarm_description(&vec!["a".to_string()]), Some("a".to_string()));
    assert_eq!(alarm_description(&vec!["a".to_string(), "b".to_string(), "c".to_string()]), Some("a; b; c".to_string()));
}

fn sd(i: u64) -> SensorData {
    SensorData::new(i, i + 1, i + 2)
}

#[test]
fn sensor_storage_pipeline_test_with_event_channel() {
    let pipeline = SensorStoragePipeline::with_config(SensorDataStorageConfig::default(), 0);
    assert!(!pipeline.is_running());
    assert_eq!(pipeline.queue_len(), 0);
}

#[test]
fn sensor_storage_pipeline_test_start_stop() {
    let mut pipeline = SensorStoragePipeline::with_config(SensorDataStorageConfig::default(), 0);
    assert!(pipeline.start().is_ok());
    assert!(pipeline.start().is_err());
    pipeline.stop();
}

#[test]
fn test_should_flush() {
    let config = SensorDataStorageConfig { enabled: true, batch_size: 5, interval_secs: 60, max_records: 0 };
    let mut pipeline = SensorStoragePipeline::with_config(config, 0);
    assert!(!pipeline.should_flush(0));
    let flush_now = pipeline.handle_new_data(vec![sd(1), sd(4), sd(7), sd(10), sd(13)]);
    assert!(flush_now);
    assert!(pipeline.should_flush(0));
}

#[test]
fn test_flush_batch() {
    let mut pipeline = SensorStoragePipeline::with_config(SensorDataStorageConfig::default(), 0);
    pipeline.handle_new_data(vec![sd(1), sd(4)]);
    let batch = pipeline.take_batch().unwrap();
    assert_eq!(pipeline.finish_flush(batch, true, 10), None);
    assert_eq!(pipeline.queue_len(), 0);
}

#[test]
fn test_flush_empty_batch() {
    let mut pipeline = SensorStoragePipeline::with_config(SensorDataStorageConfig::default(), 0);
    assert!(pipeline.take_batch().is_none());
    assert_eq!(pipeline.queue_len(), 0);
}

#[test]
fn sensor_storage_interval_and_failed_flush() {
    let config = SensorDataStorageConfig { enabled: true, batch_size: 100, interval_secs: 2, max_records: 40 };
    let mut pipeline = SensorStoragePipeline::with_config(config, 1000);
    assert!(!pipeline.handle_new_data(vec![sd(1)]));
    assert!(!pipeline.should_flush(2999));
    assert!(pipeline.should_flush(3000));
    let batch = pipeline.take_batch().unwrap();
    pipeline.handle_new_data(vec![sd(2)]);
    assert_eq!(pipeline.finish_flush(batch, false, 3000), None);
    assert_eq!(pipeline.queue_len(), 2);
    let batch = pipeline.take_batch().unwrap();
    assert_eq!(batch[0], sd(2));
    assert_eq!(batch[1], sd(1));
    assert_eq!(pipeline.finish_flush(batch, true, 3500), Some(40));
    assert!(!pipeline.should_flush(3600));
}
