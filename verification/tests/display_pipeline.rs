use qt_rust_demo::config::DisplayConfig;
use qt_rust_demo::models::ProcessedData;
use qt_rust_demo::pipeline::display_pipeline::{DisplayPipeline, DisplayPipelineConfig};
use qt_rust_demo::pipeline::shared_buffer::ProcessedDataBuffer;
use std::time::SystemTime;

/// A processed sample with sequence number `seq` from raw readings `10 + seq`, 8, 60.
fn create_test_data(seq: u64) -> ProcessedData {
    ProcessedData {
        current_load: (10.0 + seq as f64).to_bits(),
        rated_load: 25.0f64.to_bits(),
        working_radius: 8.0f64.to_bits(),
        boom_angle: 60.0f64.to_bits(),
        boom_length: 10.0f64.to_bits(),
        moment_percentage: 40.0f64.to_bits(),
        is_warning: false,
        is_danger: false,
        validation_error: None,
        timestamp: SystemTime::now(),
        sequence_number: seq,
        alarm_sources: Vec::new(),
        alarm_messages: Vec::new(),
    }
}

#[test]
fn test_display_pipeline_default_config() {
    let config = DisplayPipelineConfig::default();
    assert_eq!(config.interval_ms, 500);
    assert_eq!(config.pipeline_size, 10);
    assert_eq!(config.batch_size, 1);
}

#[test]
fn test_display_pipeline_start_stop() {
    let _buffer = ProcessedDataBuffer::new(100);
    let config = DisplayPipelineConfig::default();
    let mut pipeline = DisplayPipeline::new(config);

    assert!(!pipeline.is_running());
    pipeline.start();
    assert!(pipeline.is_running());
    pipeline.stop();
    assert!(!pipeline.is_running());
}

#[test]
fn test_display_pipeline_tick() {
    let mut buffer = ProcessedDataBuffer::new(100);
    buffer.push(create_test_data(1));
    buffer.push(create_test_data(2));

    let config = DisplayPipelineConfig::default();
    let mut pipeline = DisplayPipeline::new(config);
    pipeline.start();

    let has_update = pipeline.tick(0, &buffer);
    assert!(has_update);
    assert_eq!(pipeline.len(), 1);

    let latest = pipeline.get_latest();
    assert!(latest.is_some());
    assert_eq!(latest.unwrap().sequence_number, 2);

    pipeline.stop();
}

#[test]
fn test_display_pipeline_buffer_overflow() {
    let mut buffer = ProcessedDataBuffer::new(100);
    for i in 1..=15 {
        buffer.push(create_test_data(i));
    }
    let mut config = DisplayPipelineConfig::default();
    config.pipeline_size = 10;
    let mut pipeline = DisplayPipeline::new(config);
    pipeline.start();
    for k in 0..15u64 {
        pipeline.tick(k * 10, &buffer);
    }
    assert!(pipeline.len() <= 10);
    pipeline.stop();
}

#[test]
fn display_refreshes_only_after_interval() {
    let mut buffer = ProcessedDataBuffer::new(100);
    buffer.push(create_test_data(1));
    let mut pipeline = DisplayPipeline::new(DisplayPipelineConfig { interval_ms: 500, pipeline_size: 3, batch_size: 1 });
    pipeline.start();
    assert!(pipeline.tick(1000, &buffer));
    assert!(!pipeline.tick(1499, &buffer));
    assert_eq!(pipeline.len(), 1);
    assert!(pipeline.tick(1500, &buffer));
    assert_eq!(pipeline.len(), 2);
    // a clock reading before the last refresh counts as no time passed
    assert!(!pipeline.tick(100, &buffer));
}

#[test]
fn display_keeps_newest_and_history_oldest_first() {
    let mut pipeline = DisplayPipeline::new(DisplayPipelineConfig { interval_ms: 0, pipeline_size: 3, batch_size: 1 });
    pipeline.start();
    let mut buffer = ProcessedDataBuffer::new(100);
    for i in 1..=5 {
        buffer.push(create_test_data(i));
        assert!(pipeline.tick(i * 1000, &buffer));
    }
    assert_eq!(pipeline.len(), 3);
    let history = pipeline.get_history(2);
    assert_eq!(history.len(), 2);
    assert_eq!(history[0].sequence_number, 4);
    assert_eq!(history[1].sequence_number, 5);
    assert_eq!(pipeline.get_history(10).len(), 3);
}

#[test]
fn display_ignores_ticks_when_stopped_or_empty() {
    let buffer = ProcessedDataBuffer::new(10);
    let mut pipeline = DisplayPipeline::new(DisplayPipelineConfig::default());
    assert!(!pipeline.tick(0, &buffer));
    pipeline.start();
    assert!(!pipeline.tick(0, &buffer));
    assert!(pipeline.is_empty());
    assert!(pipeline.get_latest().is_none());
}

#[test]
fn display_config_from_pipeline_config() {
    let c = DisplayPipelineConfig::from_display_config(&DisplayConfig { interval_ms: 250, pipeline_size: 7, batch_size: 2 });
    assert_eq!(c, DisplayPipelineConfig { interval_ms: 250, pipeline_size: 7, batch_size: 2 });
}
