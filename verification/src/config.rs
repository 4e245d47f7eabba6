//! The user-facing settings that the policies read.
use vstd::prelude::*;

use crate::foreground::process_list::path_key;
use crate::text::{eq_ignore_ascii_case, lower_seq};
use crate::foreground::process_list::executable_path_key;

verus! {

/// GPU scheduling priority classes, as the user picks them.
#[derive(Debug, Clone, Copy, PartialEq, Eq, Structural)]
pub enum ProcessGpuPriority {
    Realtime,
    High,
    AboveNormal,
    Normal,
    BelowNormal,
    Idle,
}

/// I/O priority hints.
#[derive(Debug, Clone, Copy, PartialEq, Eq, Structural)]
pub enum ProcessIoPriority {
    Critical,
    High,
    Normal,
    Low,
    VeryLow,
}

/// Memory (page) priorities.
#[derive(Debug, Clone, Copy, PartialEq, Eq, Structural)]
pub enum ProcessMemoryPriority {
    VeryLow,
    Low,
    Medium,
    BelowNormal,
    Normal,
}

impl ProcessMemoryPriority {
    /// Every memory priority, from the lowest.
    pub fn all() -> (r: [ProcessMemoryPriority; 5])
        ensures
            r@ == seq![
                ProcessMemoryPriority::VeryLow,
                ProcessMemoryPriority::Low,
                ProcessMemoryPriority::Medium,
                ProcessMemoryPriority::BelowNormal,
                ProcessMemoryPriority::Normal,
            ],
    {
        let r = [
            ProcessMemoryPriority::VeryLow,
            ProcessMemoryPriority::Low,
            ProcessMemoryPriority::Medium,
            ProcessMemoryPriority::BelowNormal,
            ProcessMemoryPriority::Normal,
        ];
        assert(r@ =~= seq![
            ProcessMemoryPriority::VeryLow,
            ProcessMemoryPriority::Low,
            ProcessMemoryPriority::Medium,
            ProcessMemoryPriority::BelowNormal,
            ProcessMemoryPriority::Normal,
        ]);
        r
    }
}

/// A launch CPU priority; `Default` leaves the system's choice.
#[derive(Debug, Clone, Copy, PartialEq, Eq, Structural)]
pub enum ProcessCpuPrioritySetting {
    Default,
    Idle,
    BelowNormal,
    Normal,
    AboveNormal,
    High,
}

/// A launch I/O priority; `Default` leaves the system's choice.
#[derive(Debug, Clone, Copy, PartialEq, Eq, Structural)]
pub enum ProcessIoPrioritySetting {
    Default,
    VeryLow,
    Low,
    Normal,
}

/// A launch memory priority; `Default` leaves the system's choice.
#[derive(Debug, Clone, Copy, PartialEq, Eq, Structural)]
pub enum ProcessMemoryPrioritySetting {
    Default,
    VeryLow,
    Low,
    Medium,
    BelowNormal,
    Normal,
}

pub open spec fn cpu_priority_registry_value(p: ProcessCpuPrioritySetting) -> Option<u32> {
    match p {
        ProcessCpuPrioritySetting::Default => None,
        ProcessCpuPrioritySetting::Idle => Some(1),
        ProcessCpuPrioritySetting::Normal => Some(2),
        ProcessCpuPrioritySetting::High => Some(3),
        ProcessCpuPrioritySetting::BelowNormal => Some(5),
        ProcessCpuPrioritySetting::AboveNormal => Some(6),
    }
}

impl ProcessCpuPrioritySetting {
    /// The `CpuPriorityClass` value that launches a process at this priority.
    pub fn registry_value(self) -> (r: Option<u32>)
        ensures
            r == cpu_priority_registry_value(self),
    {
        match self {
            ProcessCpuPrioritySetting::Default => None,
            ProcessCpuPrioritySetting::Idle => Some(1),
            ProcessCpuPrioritySetting::Normal => Some(2),
            ProcessCpuPrioritySetting::High => Some(3),
            ProcessCpuPrioritySetting::BelowNormal => Some(5),
            ProcessCpuPrioritySetting::AboveNormal => Some(6),
        }
    }
}

/// One launch priority rule.
#[derive(Debug, Clone, PartialEq, Eq)]
pub struct LaunchPriorityRule {
    pub enabled: bool,
    pub process_name: String,
    pub cpu_priority: ProcessCpuPrioritySetting,
    pub io_priority: ProcessIoPrioritySetting,
    pub memory_priority: ProcessMemoryPrioritySetting,
}

#[derive(Debug, Clone, PartialEq, Eq)]
pub struct LaunchPrioritySettings {
    pub enabled: bool,
    pub rules: Vec<LaunchPriorityRule>,
}

/// How many Windows processes Background Efficiency leaves alone.
#[derive(Debug, Clone, Copy, PartialEq, Eq, Structural)]
pub enum BackgroundEfficiencyAggressiveness {
    Safe,
    Balanced,
    Aggressive,
}

/// A user exclusion from Background Efficiency.
#[derive(Debug, Clone, PartialEq, Eq)]
pub struct BackgroundEfficiencyRule {
    pub enabled: bool,
    pub executable_path: String,
}

#[derive(Debug, Clone, PartialEq, Eq)]
pub struct BackgroundEfficiencySettings {
    pub enabled: bool,
    pub protect_foreground_app: bool,
    pub protect_visible_window_apps: bool,
    pub aggressiveness: BackgroundEfficiencyAggressiveness,
    pub custom_rules: Vec<BackgroundEfficiencyRule>,
}

/// Two executable paths denote the same rule target: equal path keys,
/// ignoring ASCII case.
pub open spec fn same_rule_path(a: Seq<char>, b: Seq<char>) -> bool {
    lower_seq(path_key(a)) == lower_seq(path_key(b))
}

pub open spec fn has_rule_for(rules: Seq<BackgroundEfficiencyRule>, path: Seq<char>, enabled_only: bool) -> bool {
    exists|i: int|
        0 <= i < rules.len() && (!enabled_only || rules[i].enabled) && same_rule_path(
            #[trigger] rules[i].executable_path@,
            path,
        )
}

impl Default for BackgroundEfficiencySettings {
    fn default() -> (r: Self)
        ensures
            r.enabled,
            r.protect_foreground_app,
            !r.protect_visible_window_apps,
            r.aggressiveness == BackgroundEfficiencyAggressiveness::Safe,
            r.custom_rules@.len() == 0,
    {
        BackgroundEfficiencySettings {
            enabled: true,
            protect_foreground_app: true,
            protect_visible_window_apps: false,
            aggressiveness: BackgroundEfficiencyAggressiveness::Safe,
            custom_rules: Vec::new(),
        }
    }
}

fn rule_matches(rule_path: &str, path: &str) -> (r: bool)
    ensures
        r == same_rule_path(rule_path@, path@),
{
    let a = executable_path_key(rule_path);
    let b = executable_path_key(path);
    eq_ignore_ascii_case(a.as_str(), b.as_str())
}

impl BackgroundEfficiencySettings {
    /// Whether some rule (enabled or not) names the executable.
    pub fn contains_custom_rule(&self, executable_path: &str) -> (r: bool)
        ensures
            r == has_rule_for(self.custom_rules@, executable_path@, false),
    {
        let mut i: usize = 0;
        while i < self.custom_rules.len()
            invariant
                i <= self.custom_rules@.len(),
                forall|j: int| 0 <= j < i ==> !same_rule_path(#[trigger] self.custom_rules@[j].executable_path@, executable_path@),
            decreases self.custom_rules@.len() - i,
        {
            if rule_matches(self.custom_rules[i].executable_path.as_str(), executable_path) {
                return true;
            }
            i = i + 1;
        }
        false
    }

    /// Whether an enabled rule names the executable.
    pub fn custom_rule_enabled_for(&self, executable_path: &str) -> (r: bool)
        ensures
            r == has_rule_for(self.custom_rules@, executable_path@, true),
    {
        let mut i: usize = 0;
        while i < self.custom_rules.len()
            invariant
                i <= self.custom_rules@.len(),
                forall|j: int| 0 <= j < i ==> !(self.custom_rules@[j].enabled && same_rule_path(#[trigger] self.custom_rules@[j].executable_path@, executable_path@)),
            decreases self.custom_rules@.len() - i,
        {
            if self.custom_rules[i].enabled && rule_matches(self.custom_rules[i].executable_path.as_str(), executable_path) {
                return true;
            }
            i = i + 1;
        }
        false
    }
}

/// A process priority class as the user picks it; `Default` leaves the
/// process's own class.
#[derive(Debug, Clone, Copy, PartialEq, Eq, Structural)]
pub enum ProcessPrioritySetting {
    Default,
    Idle,
    BelowNormal,
    Normal,
    AboveNormal,
    High,
    Realtime,
}

impl ProcessMemoryPrioritySetting {
    /// The memory priority to apply; `None` for `Default`.
    pub fn priority(self) -> (r: Option<ProcessMemoryPriority>)
        ensures
            r == match self {
                ProcessMemoryPrioritySetting::Default => None,
                ProcessMemoryPrioritySetting::VeryLow => Some(ProcessMemoryPriority::VeryLow),
                ProcessMemoryPrioritySetting::Low => Some(ProcessMemoryPriority::Low),
                ProcessMemoryPrioritySetting::Medium => Some(ProcessMemoryPriority::Medium),
                ProcessMemoryPrioritySetting::BelowNormal => Some(ProcessMemoryPriority::BelowNormal),
                ProcessMemoryPrioritySetting::Normal => Some(ProcessMemoryPriority::Normal),
            },
    {
        match self {
            ProcessMemoryPrioritySetting::Default => None,
            ProcessMemoryPrioritySetting::VeryLow => Some(ProcessMemoryPriority::VeryLow),
            ProcessMemoryPrioritySetting::Low => Some(ProcessMemoryPriority::Low),
            ProcessMemoryPrioritySetting::Medium => Some(ProcessMemoryPriority::Medium),
            ProcessMemoryPrioritySetting::BelowNormal => Some(ProcessMemoryPriority::BelowNormal),
            ProcessMemoryPrioritySetting::Normal => Some(ProcessMemoryPriority::Normal),
        }
    }
}

/// How background processes are confined to processors.
#[derive(Debug, Clone, Copy, PartialEq, Eq, Structural)]
pub enum CpuAllocationMethod {
    CpuSetsSoft,
    ProcessorAffinityHard,
}

/// Which processors restrained background processes may use.
#[derive(Debug, Clone, Copy, PartialEq, Eq, Structural)]
pub enum BackgroundProcessorSelection {
    LeastUsed,
    LeastUsedPerformanceCores,
    LeastUsedEfficiencyCores,
    PerformanceCores,
    EfficiencyCores,
    AllCoresNoSmt,
    PerformanceCoresNoSmt,
    Custom,
}

/// The CPU Scheduler's settings.
#[derive(Debug, Clone, PartialEq, Eq)]
pub struct CpuSchedulerSettings {
    pub process_priority_enabled: bool,
    pub process_priority_foreground_detection_enabled: bool,
    pub process_priority_visible_window_detection_enabled: bool,
    pub focus_process_priority: ProcessPrioritySetting,
    pub visible_window_priority: ProcessPrioritySetting,
    pub background_priority: ProcessPrioritySetting,
    pub process_priority_preserve_foreground: bool,
    pub process_priority_preserve_visible_window: bool,
    pub process_priority_preserve_background: bool,
    pub background_efficiency_enabled: bool,
    pub background_efficiency_mode: bool,
    pub focus_process_background_efficiency_mode: bool,
    pub visible_window_background_efficiency_mode: bool,
    pub focus_process_background_efficiency_override_enabled: bool,
    pub memory_priority_enabled: bool,
    pub memory_priority_foreground_detection_enabled: bool,
    pub memory_priority_visible_window_detection_enabled: bool,
    pub focus_process_memory_priority: ProcessMemoryPrioritySetting,
    pub visible_window_memory_priority: ProcessMemoryPrioritySetting,
    pub background_memory_priority: ProcessMemoryPrioritySetting,
    pub cpu_pressure_restraint_enabled: bool,
    pub limit_background_processors_enabled: bool,
    pub foreground_or_system_cpu_threshold_percent: u8,
    pub background_app_cpu_threshold_percent: u8,
    pub cpu_recovery_threshold_percent: u8,
    pub cpu_restraint_time_seconds: u64,
    pub cpu_recovery_time_seconds: u64,
    pub maximum_restrained_apps: u8,
    pub cpu_allocation_method: CpuAllocationMethod,
    pub background_processor_selection: BackgroundProcessorSelection,
    pub background_processor_percent: u8,
    pub specific_processors: Vec<u8>,
}

impl CpuSchedulerSettings {
    /// Whether a process of the given kind runs in efficiency mode: the
    /// focus process by its own switch when its override is on, a visible
    /// window's process by the visible-window switch, any other by the
    /// background switch.
    pub open spec fn efficiency_mode_for(&self, foreground: bool, visible_window: bool) -> bool {
        if foreground && self.focus_process_background_efficiency_override_enabled {
            self.focus_process_background_efficiency_mode
        } else if visible_window {
            self.visible_window_background_efficiency_mode
        } else {
            self.background_efficiency_mode
        }
    }

    pub fn background_efficiency_mode_for(&self, foreground: bool, visible_window: bool) -> (r: bool)
        ensures
            r == self.efficiency_mode_for(foreground, visible_window),
    {
        if foreground && self.focus_process_background_efficiency_override_enabled {
            self.focus_process_background_efficiency_mode
        } else if visible_window {
            self.visible_window_background_efficiency_mode
        } else {
            self.background_efficiency_mode
        }
    }
}

impl Default for CpuSchedulerSettings {
    fn default() -> (r: Self)
        ensures
            r.process_priority_enabled,
            r.process_priority_foreground_detection_enabled,
            r.process_priority_visible_window_detection_enabled,
            r.focus_process_priority == ProcessPrioritySetting::AboveNormal,
            r.visible_window_priority == ProcessPrioritySetting::Normal,
            r.background_priority == ProcessPrioritySetting::BelowNormal,
            !r.process_priority_preserve_foreground,
            !r.process_priority_preserve_visible_window,
            !r.process_priority_preserve_background,
            !r.background_efficiency_enabled,
            !r.background_efficiency_mode,
            !r.focus_process_background_efficiency_mode,
            !r.visible_window_background_efficiency_mode,
            r.focus_process_background_efficiency_override_enabled,
            !r.memory_priority_enabled,
            r.memory_priority_foreground_detection_enabled,
            r.memory_priority_visible_window_detection_enabled,
            r.focus_process_memory_priority == ProcessMemoryPrioritySetting::Default,
            r.visible_window_memory_priority == ProcessMemoryPrioritySetting::Default,
            r.background_memory_priority == ProcessMemoryPrioritySetting::Default,
            !r.cpu_pressure_restraint_enabled,
            !r.limit_background_processors_enabled,
            r.foreground_or_system_cpu_threshold_percent == 70,
            r.background_app_cpu_threshold_percent == 10,
            r.cpu_recovery_threshold_percent == 5,
            r.cpu_restraint_time_seconds == 10,
            r.cpu_recovery_time_seconds == 5,
            r.maximum_restrained_apps == 6,
            r.cpu_allocation_method == CpuAllocationMethod::CpuSetsSoft,
            r.background_processor_selection == BackgroundProcessorSelection::LeastUsed,
            r.background_processor_percent == 50,
            r.specific_processors@.len() == 0,
    {
        CpuSchedulerSettings {
            process_priority_enabled: true,
            process_priority_foreground_detection_enabled: true,
            process_priority_visible_window_detection_enabled: true,
            focus_process_priority: ProcessPrioritySetting::AboveNormal,
            visible_window_priority: ProcessPrioritySetting::Normal,
            background_priority: ProcessPrioritySetting::BelowNormal,
            process_priority_preserve_foreground: false,
            process_priority_preserve_visible_window: false,
            process_priority_preserve_background: false,
            background_efficiency_enabled: false,
            background_efficiency_mode: false,
            focus_process_background_efficiency_mode: false,
            visible_window_background_efficiency_mode: false,
            focus_process_background_efficiency_override_enabled: true,
            memory_priority_enabled: false,
            memory_priority_foreground_detection_enabled: true,
            memory_priority_visible_window_detection_enabled: true,
            focus_process_memory_priority: ProcessMemoryPrioritySetting::Default,
            visible_window_memory_priority: ProcessMemoryPrioritySetting::Default,
            background_memory_priority: ProcessMemoryPrioritySetting::Default,
            cpu_pressure_restraint_enabled: false,
            limit_background_processors_enabled: false,
            foreground_or_system_cpu_threshold_percent: 70,
            background_app_cpu_threshold_percent: 10,
            cpu_recovery_threshold_percent: 5,
            cpu_restraint_time_seconds: 10,
            cpu_recovery_time_seconds: 5,
            maximum_restrained_apps: 6,
            cpu_allocation_method: CpuAllocationMethod::CpuSetsSoft,
            background_processor_selection: BackgroundProcessorSelection::LeastUsed,
            background_processor_percent: 50,
            specific_processors: Vec::new(),
        }
    }
}

/// The priority a Workload Engine rule or restraint lowers a process to.
#[derive(Debug, Clone, Copy, PartialEq, Eq, Structural)]
pub enum ProcessPriority {
    Normal,
    BelowNormal,
    Idle,
}

/// The priority the foreground app is boosted to; `Auto` backs off while
/// the foreground saturates the CPU.
#[derive(Debug, Clone, Copy, PartialEq, Eq, Structural)]
pub enum ForegroundBoostPriority {
    Auto,
    Normal,
    AboveNormal,
}

/// How restrained processes are kept off processors.
#[derive(Debug, Clone, Copy, PartialEq, Eq, Structural)]
pub enum CpuRestrictionMode {
    SoftCpuSets,
    HardAffinity,
}

/// How processor steering is applied.
#[derive(Debug, Clone, Copy, PartialEq, Eq, Structural)]
pub enum CoreSteeringMode {
    Soft,
    Hard,
}

/// A per-process priority rule.
#[derive(Debug, Clone, PartialEq, Eq)]
pub struct PriorityRule {
    pub enabled: bool,
    pub process_name: String,
    pub priority: ProcessPriority,
}

/// The Workload Engine's settings.
#[derive(Debug, Clone, PartialEq, Eq)]
pub struct WorkloadEngineSettings {
    pub enabled: bool,
    pub lower_background_apps: bool,
    pub workload_engine_background_efficiency_enabled: bool,
    pub workload_engine_background_priority: ProcessPriority,
    pub lower_background_io_priority_enabled: bool,
    pub lower_background_io_priority: ProcessIoPriority,
    pub workload_engine_memory_priority_enabled: bool,
    pub workload_engine_foreground_memory_priority: ProcessMemoryPrioritySetting,
    pub workload_engine_memory_priority: ProcessMemoryPriority,
    pub lower_background_auto_cpu_percent: bool,
    pub workload_engine_enabled: bool,
    pub workload_engine_advanced_settings_enabled: bool,
    pub workload_engine_affinity_escalation_enabled: bool,
    pub workload_engine_affinity_mode: CpuRestrictionMode,
    pub workload_engine_cpu_percent: u8,
    pub workload_engine_max_logical_processors: u8,
    pub workload_engine_total_threshold_percent: u8,
    pub workload_engine_threshold_percent: u8,
    pub workload_engine_restore_threshold_percent: u8,
    pub workload_engine_sustain_seconds: u64,
    pub workload_engine_minimum_restraint_seconds: u64,
    pub workload_engine_cooldown_seconds: u64,
    pub workload_engine_max_targeted_processes: u8,
    pub workload_engine_exclusions: Vec<String>,
    pub boost_foreground_app: bool,
    pub foreground_boost: ForegroundBoostPriority,
    pub foreground_stability_delay_ms: u64,
    pub rules: Vec<PriorityRule>,
}

impl Default for WorkloadEngineSettings {
    fn default() -> (r: Self)
        ensures
            r.enabled,
            r.lower_background_apps,
            r.workload_engine_background_efficiency_enabled,
            r.workload_engine_background_priority == ProcessPriority::BelowNormal,
            !r.lower_background_io_priority_enabled,
            r.lower_background_io_priority == ProcessIoPriority::VeryLow,
            !r.workload_engine_memory_priority_enabled,
            r.workload_engine_foreground_memory_priority == ProcessMemoryPrioritySetting::Default,
            r.workload_engine_memory_priority == ProcessMemoryPriority::Low,
            !r.lower_background_auto_cpu_percent,
            !r.workload_engine_enabled,
            !r.workload_engine_advanced_settings_enabled,
            !r.workload_engine_affinity_escalation_enabled,
            r.workload_engine_affinity_mode == CpuRestrictionMode::SoftCpuSets,
            r.workload_engine_cpu_percent == 50,
            r.workload_engine_max_logical_processors == 0,
            r.workload_engine_total_threshold_percent == 70,
            r.workload_engine_threshold_percent == 25,
            r.workload_engine_restore_threshold_percent == 5,
            r.workload_engine_sustain_seconds == 2,
            r.workload_engine_minimum_restraint_seconds == 4,
            r.workload_engine_cooldown_seconds == 10,
            r.workload_engine_max_targeted_processes == 6,
            r.workload_engine_exclusions@.len() == 0,
            !r.boost_foreground_app,
            r.foreground_boost == ForegroundBoostPriority::AboveNormal,
            r.foreground_stability_delay_ms == 750,
            r.rules@.len() == 0,
    {
        WorkloadEngineSettings {
            enabled: true,
            lower_background_apps: true,
            workload_engine_background_efficiency_enabled: true,
            workload_engine_background_priority: ProcessPriority::BelowNormal,
            lower_background_io_priority_enabled: false,
            lower_background_io_priority: ProcessIoPriority::VeryLow,
            workload_engine_memory_priority_enabled: false,
            workload_engine_foreground_memory_priority: ProcessMemoryPrioritySetting::Default,
            workload_engine_memory_priority: ProcessMemoryPriority::Low,
            lower_background_auto_cpu_percent: false,
            workload_engine_enabled: false,
            workload_engine_advanced_settings_enabled: false,
            workload_engine_affinity_escalation_enabled: false,
            workload_engine_affinity_mode: CpuRestrictionMode::SoftCpuSets,
            workload_engine_cpu_percent: 50,
            workload_engine_max_logical_processors: 0,
            workload_engine_total_threshold_percent: 70,
            workload_engine_threshold_percent: 25,
            workload_engine_restore_threshold_percent: 5,
            workload_engine_sustain_seconds: 2,
            workload_engine_minimum_restraint_seconds: 4,
            workload_engine_cooldown_seconds: 10,
            workload_engine_max_targeted_processes: 6,
            workload_engine_exclusions: Vec::new(),
            boost_foreground_app: false,
            foreground_boost: ForegroundBoostPriority::AboveNormal,
            foreground_stability_delay_ms: 750,
            rules: Vec::new(),
        }
    }
}

/// A Running App Detection rule: while a process of this name runs, the
/// rule's power plan (or the global performance plan) is requested.
#[derive(Debug, Clone, PartialEq, Eq)]
pub struct PerformanceModeRule {
    pub enabled: bool,
    pub name: String,
    pub process_name: String,
    pub power_plan_guid: Option<String>,
}

/// Running App Detection's settings.
#[derive(Debug, Clone, PartialEq, Eq)]
pub struct PerformanceModeSettings {
    pub enabled: bool,
    pub rules: Vec<PerformanceModeRule>,
}

/// The power plans the user picked for saving power and for performance.
#[derive(Debug, Clone, PartialEq, Eq)]
pub struct PowerPlanSettings {
    pub power_save_guid: Option<String>,
    pub performance_guid: Option<String>,
}

impl Default for PowerPlanSettings {
    fn default() -> (r: Self)
        ensures
            r.power_save_guid.is_none(),
            r.performance_guid.is_none(),
    {
        PowerPlanSettings { power_save_guid: None, performance_guid: None }
    }
}

/// A GPU priority as chosen in the settings: `Auto` takes the foreground or
/// background default, the others name a priority.
#[derive(Debug, Clone, Copy, PartialEq, Eq, Structural)]
pub enum ProcessGpuPrioritySetting {
    Auto,
    Realtime,
    High,
    AboveNormal,
    Normal,
    BelowNormal,
    Idle,
}

impl ProcessGpuPrioritySetting {
    /// The priority the setting names; `None` for `Auto`.
    pub fn priority(self) -> (r: Option<ProcessGpuPriority>)
        ensures
            r == match self {
                ProcessGpuPrioritySetting::Auto => None,
                ProcessGpuPrioritySetting::Realtime => Some(ProcessGpuPriority::Realtime),
                ProcessGpuPrioritySetting::High => Some(ProcessGpuPriority::High),
                ProcessGpuPrioritySetting::AboveNormal => Some(ProcessGpuPriority::AboveNormal),
                ProcessGpuPrioritySetting::Normal => Some(ProcessGpuPriority::Normal),
                ProcessGpuPrioritySetting::BelowNormal => Some(ProcessGpuPriority::BelowNormal),
                ProcessGpuPrioritySetting::Idle => Some(ProcessGpuPriority::Idle),
            },
    {
        match self {
            ProcessGpuPrioritySetting::Auto => None,
            ProcessGpuPrioritySetting::Realtime => Some(ProcessGpuPriority::Realtime),
            ProcessGpuPrioritySetting::High => Some(ProcessGpuPriority::High),
            ProcessGpuPrioritySetting::AboveNormal => Some(ProcessGpuPriority::AboveNormal),
            ProcessGpuPrioritySetting::Normal => Some(ProcessGpuPriority::Normal),
            ProcessGpuPrioritySetting::BelowNormal => Some(ProcessGpuPriority::BelowNormal),
            ProcessGpuPrioritySetting::Idle => Some(ProcessGpuPriority::Idle),
        }
    }
}

/// The GPU priority defaults: on or off, the foreground and background
/// priorities, whether the foreground app is told apart, and whether a
/// process that already has a higher (foreground) or lower (background)
/// priority keeps it.
#[derive(Debug, Clone, Copy, PartialEq, Eq)]
pub struct GpuPrioritySettings {
    pub enabled: bool,
    pub foreground_detection_enabled: bool,
    pub foreground_priority: ProcessGpuPrioritySetting,
    pub background_priority: ProcessGpuPrioritySetting,
    pub preserve_foreground_priority: bool,
    pub preserve_background_priority: bool,
}

/// The I/O priority defaults: on or off, the foreground and background
/// priorities (`None` leaves a process as it is), whether the foreground app
/// is told apart, and whether a process that already has a higher
/// (foreground) or lower (background) priority keeps it.
#[derive(Debug, Clone, Copy, PartialEq, Eq)]
pub struct IoPrioritySettings {
    pub enabled: bool,
    pub foreground_detection_enabled: bool,
    pub foreground_priority: Option<ProcessIoPriority>,
    pub background_priority: Option<ProcessIoPriority>,
    pub preserve_foreground_priority: bool,
    pub preserve_background_priority: bool,
}

/// The memory priority defaults, laid out as the I/O priority ones.
#[derive(Debug, Clone, Copy, PartialEq, Eq)]
pub struct MemoryPrioritySettings {
    pub enabled: bool,
    pub foreground_detection_enabled: bool,
    pub foreground_priority: Option<ProcessMemoryPriority>,
    pub background_priority: Option<ProcessMemoryPriority>,
    pub preserve_foreground_priority: bool,
    pub preserve_background_priority: bool,
}

/// Memory Trim's settings; exclusions name executables it never trims.
#[derive(Debug, Clone, PartialEq, Eq)]
pub struct MemoryTrimSettings {
    pub enabled: bool,
    pub system_memory_load_threshold_percent: u8,
    pub process_working_set_threshold_mb: u64,
    pub process_idle_seconds: u64,
    pub exclusions: Vec<BackgroundEfficiencyRule>,
}

impl MemoryTrimSettings {
    /// Whether an enabled exclusion names the executable.
    pub fn exclusion_enabled_for(&self, executable_path: &str) -> (r: bool)
        ensures
            r == has_rule_for(self.exclusions@, executable_path@, true),
    {
        let mut i: usize = 0;
        while i < self.exclusions.len()
            invariant
                i <= self.exclusions@.len(),
                forall|j: int| 0 <= j < i ==> !(self.exclusions@[j].enabled && same_rule_path(#[trigger] self.exclusions@[j].executable_path@, executable_path@)),
            decreases self.exclusions@.len() - i,
        {
            if self.exclusions[i].enabled && rule_matches(self.exclusions[i].executable_path.as_str(), executable_path) {
                return true;
            }
            i = i + 1;
        }
        false
    }
}

impl Default for MemoryTrimSettings {
    fn default() -> (r: Self)
        ensures
            !r.enabled,
            r.system_memory_load_threshold_percent == 80,
            r.process_working_set_threshold_mb == 200,
            r.process_idle_seconds == 300,
            r.exclusions@.len() == 0,
    {
        MemoryTrimSettings {
            enabled: false,
            system_memory_load_threshold_percent: 80,
            process_working_set_threshold_mb: 200,
            process_idle_seconds: 300,
            exclusions: Vec::new(),
        }
    }
}

} // verus!
