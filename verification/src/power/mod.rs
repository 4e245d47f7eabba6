//! Power plans: processor power profiles and the adaptive profile policy,
//! and the plan records that the power configuration tool reports.
pub mod plan;
pub mod powercfg;
