pub mod monitoring_reducer;
