//! The automation features: which processes each one touches, how it reports
//! and when it stops retrying.
pub mod background_efficiency;
pub mod candidates;
pub mod cpu_scheduler;
pub mod workload_engine;
pub mod process_control;
pub mod memory_trim;
