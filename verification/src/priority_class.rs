//! Windows process priority classes, and which existing classes a policy
//! leaves in place.
use vstd::prelude::*;

use crate::config::ProcessPrioritySetting;

verus! {

/// `IDLE_PRIORITY_CLASS`.
pub const IDLE_PRIORITY_CLASS: u32 = 0x40;
/// `BELOW_NORMAL_PRIORITY_CLASS`.
pub const BELOW_NORMAL_PRIORITY_CLASS: u32 = 0x4000;
/// `NORMAL_PRIORITY_CLASS`.
pub const NORMAL_PRIORITY_CLASS: u32 = 0x20;
/// `ABOVE_NORMAL_PRIORITY_CLASS`.
pub const ABOVE_NORMAL_PRIORITY_CLASS: u32 = 0x8000;
/// `HIGH_PRIORITY_CLASS`.
pub const HIGH_PRIORITY_CLASS: u32 = 0x80;
/// `REALTIME_PRIORITY_CLASS`.
pub const REALTIME_PRIORITY_CLASS: u32 = 0x100;

/// A process priority class that a policy can apply.
#[derive(Debug, Clone, Copy, PartialEq, Eq, Structural)]
pub enum PriorityClassValue {
    Idle,
    BelowNormal,
    Normal,
    AboveNormal,
    High,
    Realtime,
}

pub open spec fn priority_class_raw(v: PriorityClassValue) -> u32 {
    match v {
        PriorityClassValue::Idle => IDLE_PRIORITY_CLASS,
        PriorityClassValue::BelowNormal => BELOW_NORMAL_PRIORITY_CLASS,
        PriorityClassValue::Normal => NORMAL_PRIORITY_CLASS,
        PriorityClassValue::AboveNormal => ABOVE_NORMAL_PRIORITY_CLASS,
        PriorityClassValue::High => HIGH_PRIORITY_CLASS,
        PriorityClassValue::Realtime => REALTIME_PRIORITY_CLASS,
    }
}

/// The class a setting asks for; `None` for `Default`.
pub open spec fn class_of_setting(s: ProcessPrioritySetting) -> Option<PriorityClassValue> {
    match s {
        ProcessPrioritySetting::Default => None,
        ProcessPrioritySetting::Idle => Some(PriorityClassValue::Idle),
        ProcessPrioritySetting::BelowNormal => Some(PriorityClassValue::BelowNormal),
        ProcessPrioritySetting::Normal => Some(PriorityClassValue::Normal),
        ProcessPrioritySetting::AboveNormal => Some(PriorityClassValue::AboveNormal),
        ProcessPrioritySetting::High => Some(PriorityClassValue::High),
        ProcessPrioritySetting::Realtime => Some(PriorityClassValue::Realtime),
    }
}

/// The label of a priority class.
pub open spec fn priority_class_label(v: PriorityClassValue) -> Seq<char> {
    match v {
        PriorityClassValue::Idle => "Idle"@,
        PriorityClassValue::BelowNormal => "Below Normal"@,
        PriorityClassValue::Normal => "Normal"@,
        PriorityClassValue::AboveNormal => "Above Normal"@,
        PriorityClassValue::High => "High"@,
        PriorityClassValue::Realtime => "Realtime"@,
    }
}

impl PriorityClassValue {
    /// The label of the class.
    pub fn label(self) -> (r: &'static str)
        ensures
            r@ == priority_class_label(self),
    {
        match self {
            PriorityClassValue::Idle => "Idle",
            PriorityClassValue::BelowNormal => "Below Normal",
            PriorityClassValue::Normal => "Normal",
            PriorityClassValue::AboveNormal => "Above Normal",
            PriorityClassValue::High => "High",
            PriorityClassValue::Realtime => "Realtime",
        }
    }

    /// The Windows priority-class constant.
    pub fn raw(self) -> (r: u32)
        ensures
            r == priority_class_raw(self),
    {
        match self {
            PriorityClassValue::Idle => IDLE_PRIORITY_CLASS,
            PriorityClassValue::BelowNormal => BELOW_NORMAL_PRIORITY_CLASS,
            PriorityClassValue::Normal => NORMAL_PRIORITY_CLASS,
            PriorityClassValue::AboveNormal => ABOVE_NORMAL_PRIORITY_CLASS,
            PriorityClassValue::High => HIGH_PRIORITY_CLASS,
            PriorityClassValue::Realtime => REALTIME_PRIORITY_CLASS,
        }
    }

    /// The class a setting asks for; `None` for `Default`.
    pub fn from_setting(setting: ProcessPrioritySetting) -> (r: Option<PriorityClassValue>)
        ensures
            r == class_of_setting(setting),
    {
        match setting {
            ProcessPrioritySetting::Default => None,
            ProcessPrioritySetting::Idle => Some(PriorityClassValue::Idle),
            ProcessPrioritySetting::BelowNormal => Some(PriorityClassValue::BelowNormal),
            ProcessPrioritySetting::Normal => Some(PriorityClassValue::Normal),
            ProcessPrioritySetting::AboveNormal => Some(PriorityClassValue::AboveNormal),
            ProcessPrioritySetting::High => Some(PriorityClassValue::High),
            ProcessPrioritySetting::Realtime => Some(PriorityClassValue::Realtime),
        }
    }
}

/// Which classes a process already has that a policy leaves in place:
/// always high and realtime, and with preservation on, also classes above
/// (for raised tiers) or below (for lowered tiers) the target.
#[derive(Debug, Clone, Copy, PartialEq, Eq, Structural)]
pub enum PriorityClassPreservation {
    PreserveHighOrRealtime,
    PreserveHigherOrHighOrRealtime,
    PreserveLowerOrHighOrRealtime,
}

} // verus!
