pub mod retention;
pub mod alarm_text;
pub mod mock_storage_repository;
