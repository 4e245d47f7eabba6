//! Formats and rules of the Windows interfaces the utility drives, in plain
//! values: GUID text, power-setting strings, timer conversions, processor
//! set records and the classification of status codes.
pub mod power_plan;
pub mod cpu_limiter;
pub mod status;
pub mod suspension;
pub mod timer_resolution;
pub mod cpu_allocation;
