pub mod common_state;
pub mod alarm_state;
pub mod monitoring_state;
pub mod chart_state;
