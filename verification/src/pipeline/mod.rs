pub mod alarm_debouncer;
pub mod storage_queue;
pub mod history;
pub mod shared_sensor_buffer;
pub mod shared_buffer;
pub mod filter_buffer;
pub mod orchestrator;
pub mod display_pipeline;
pub mod retry_policy;
pub mod storage_service;
pub mod storage_pipeline;
pub mod collection_pipeline;
pub mod process_pipeline;
pub mod core_types;
pub mod sensor_storage_pipeline;
pub mod manager_plan;
pub mod event_bus;
