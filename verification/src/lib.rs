//! Process-steering policy for a Windows performance utility: process-name and
//! path matching, failure suppression, scheduler and workload policies, priority
//! mappings, power-plan profiles and the small binary/text formats the utility
//! exchanges with Windows.
pub mod text;
pub mod cpu;
pub mod cpu_allocation;
pub mod priority_class;
pub mod foreground;
pub mod rules;
pub mod action_log;
pub mod config;
pub mod gpu_priority;
pub mod io_priority;
pub mod memory_priority;
pub mod launch_priority;
pub mod power;
pub mod platform;
pub mod features;
pub mod performance_mode;
pub mod startup;
