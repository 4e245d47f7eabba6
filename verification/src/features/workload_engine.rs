//! Workload Engine: which processes it restrains, when CPU pressure starts
//! and ends its work, how restraints escalate, which candidates are
//! restrained, how many processors they keep, and how the foreground app is
//! boosted.
use vstd::prelude::*;

use crate::action_log::{ActionLog, ActionLogEntryView, ActionLogFeature, ActionLogResult};
use crate::config::{
    CoreSteeringMode, CpuRestrictionMode, ForegroundBoostPriority, PriorityRule, ProcessPriority,
    WorkloadEngineSettings,
};
use crate::cpu::{
    elapsed_nanos, elapsed_since, percent_tenths, percent_tenths_spec, process_cpu_usage_percent, usage_above,
    usage_above_exec, usage_at_least, usage_at_least_exec, CpuUsage, ProcessCpuSample, group_cpu_usage_step,
    group_sample_view, usage_between, GroupCpuSample,
};
use crate::cpu_allocation::{
    choose_core_mask, core_choice, index_bit, least_loaded_mask, least_loaded_processor_mask, CoreSelection,
    LoadedProcessor, LogicalProcessorInfo, LogicalProcessorKind,
};
use crate::features::candidates::{select_highest_scored, ScoredCandidate};
use crate::foreground::process_list::{
    contains_id, contains_process_name, count_label, extended_builtin_exclusions,
    extended_builtin_process_exclusions, list_contains_name, process_count_label, process_failure_key,
};
use crate::power::plan::at_least;
use crate::priority_class::{ABOVE_NORMAL_PRIORITY_CLASS, BELOW_NORMAL_PRIORITY_CLASS, IDLE_PRIORITY_CLASS, NORMAL_PRIORITY_CLASS};
use crate::rules::{
    check_and_report_suppression, failure_key, model_after_check, model_newly_suppressed, model_record,
    model_suppressed, ExecutionFailureTracker, FailureState,
};
use crate::features::process_control::PriorityFailures;
use crate::text::{decimal, decimal_string, insert_sorted_unique, same_name, same_name_seq, string_views, strictly_sorted, trim, trim_seq};

verus! {

/// Foreground usage from which the foreground alone saturates the CPU, in
/// thousandths of a percent.
pub const WORKLOAD_ENGINE_FOREGROUND_SATURATION: i64 = 85_000;

/// How far below the trigger pressure must fall before the engine stops.
pub const WORKLOAD_ENGINE_PRESSURE_RESTORE_BAND_PERCENT: u8 = 5;

/// The least time between two logged apply summaries, in nanoseconds.
pub const BACKGROUND_APPLY_SUMMARY_LOG_INTERVAL_NANOS: u128 = 30_000_000_000;

/// How long after its start the foreground app counts as launching, in
/// nanoseconds.
pub const FOREGROUND_LAUNCH_BOOST_WINDOW_NANOS: u128 = 8_000_000_000;

/// Repeat offenders wait this many times less before being lowered.
pub const WORKLOAD_ENGINE_REPEAT_OFFENDER_SUSTAIN_DIVISOR: u32 = 2;

/// `PROCESS_POWER_THROTTLING_CURRENT_VERSION`.
pub const PROCESS_POWER_THROTTLING_CURRENT_VERSION: u32 = 1;

/// `PROCESS_POWER_THROTTLING_EXECUTION_SPEED`.
pub const PROCESS_POWER_THROTTLING_EXECUTION_SPEED: u32 = 0x1;

/// `PROCESS_POWER_THROTTLING_IGNORE_TIMER_RESOLUTION`.
pub const PROCESS_POWER_THROTTLING_IGNORE_TIMER_RESOLUTION: u32 = 0x4;

/// Whether the Workload Engine always leaves the process alone.
pub fn is_builtin_excluded(process_name: &str) -> (r: bool)
    ensures
        r == list_contains_name(extended_builtin_exclusions(), process_name@),
{
    let list = extended_builtin_process_exclusions();
    contains_process_name(list.as_slice(), process_name)
}

/// Whole milliseconds of a duration in nanoseconds, saturating at `u64::MAX`.
pub fn duration_millis_u64(duration_nanos: u128) -> (r: u64)
    ensures
        r == if duration_nanos / 1_000_000 <= u64::MAX { (duration_nanos / 1_000_000) as int } else { u64::MAX as int },
{
    let millis = duration_nanos / 1_000_000;
    if millis <= u64::MAX as u128 {
        millis as u64
    } else {
        u64::MAX
    }
}

/// The first enabled rule that names the process.
pub fn matching_rule<'a>(settings: &'a WorkloadEngineSettings, process_name: &str) -> (r: Option<&'a PriorityRule>)
    ensures
        r is Some <==> exists|i: int|
            0 <= i < settings.rules@.len() && settings.rules@[i].enabled && same_name_seq(
                settings.rules@[i].process_name@,
                process_name@,
            ),
        r matches Some(rule) ==> exists|i: int|
            0 <= i < settings.rules@.len() && settings.rules@[i] == *rule && rule.enabled && same_name_seq(
                rule.process_name@,
                process_name@,
            ) && forall|j: int|
                0 <= j < i ==> !(settings.rules@[j].enabled && same_name_seq(
                    #[trigger] settings.rules@[j].process_name@,
                    process_name@,
                )),
{
    let mut i: usize = 0;
    while i < settings.rules.len()
        invariant
            i <= settings.rules@.len(),
            forall|j: int|
                0 <= j < i ==> !(settings.rules@[j].enabled && same_name_seq(
                    #[trigger] settings.rules@[j].process_name@,
                    process_name@,
                )),
        decreases settings.rules@.len() - i,
    {
        let rule = &settings.rules[i];
        if rule.enabled && same_name(rule.process_name.as_str(), process_name) {
            return Some(rule);
        }
        i = i + 1;
    }
    None
}

/// Whether the process is the foreground process, in its process group, or
/// has the foreground app's name.
pub fn should_skip_foreground_process(
    process_id: u32,
    process_name: &str,
    foreground_process_id: Option<u32>,
    foreground_process_group_ids: &Vec<u32>,
    foreground_process_name: Option<&str>,
) -> (r: bool)
    ensures
        r == (foreground_process_id == Some(process_id) || foreground_process_group_ids@.contains(process_id)
            || match foreground_process_name {
            Some(n) => same_name_seq(n@, process_name@),
            None => false,
        }),
{
    let is_foreground = match foreground_process_id {
        Some(id) => id == process_id,
        None => false,
    };
    let same_app = match foreground_process_name {
        Some(n) => same_name(n, process_name),
        None => false,
    };
    is_foreground || contains_id(foreground_process_group_ids, process_id) || same_app
}

/// Whether a process may be boosted as the foreground app: it has a name,
/// is neither the idle process nor this one, is not excluded, and runs in
/// this session.
pub fn foreground_boost_eligible(
    process_id: u32,
    process_name: &str,
    current_process_id: u32,
    current_session_id: u32,
    process_session_id: Option<u32>,
) -> (r: bool)
    ensures
        r == (trim_seq(process_name@).len() > 0 && process_id != 0 && process_id != current_process_id
            && !list_contains_name(extended_builtin_exclusions(), trim_seq(process_name@))
            && process_session_id == Some(current_session_id)),
{
    let name = trim(process_name);
    let same_session = match process_session_id {
        Some(s) => s == current_session_id,
        None => false,
    };
    name.unicode_len() > 0 && process_id != 0 && process_id != current_process_id && !is_builtin_excluded(name)
        && same_session
}

/// Whether the Workload Engine leaves a process alone.
pub fn should_skip_process(
    process_id: u32,
    process_name: &str,
    current_process_id: u32,
    foreground_process_id: Option<u32>,
    foreground_process_group_ids: &Vec<u32>,
    foreground_process_name: Option<&str>,
    background_efficiency_process_ids: &Vec<u32>,
) -> (r: bool)
    ensures
        r == (process_id == 0 || process_id == current_process_id || background_efficiency_process_ids@.contains(
            process_id,
        ) || list_contains_name(extended_builtin_exclusions(), process_name@) || foreground_process_id == Some(
            process_id,
        ) || foreground_process_group_ids@.contains(process_id) || match foreground_process_name {
            Some(n) => same_name_seq(n@, process_name@),
            None => false,
        }),
{
    process_id == 0 || process_id == current_process_id || contains_id(background_efficiency_process_ids, process_id)
        || is_builtin_excluded(process_name) || should_skip_foreground_process(
        process_id,
        process_name,
        foreground_process_id,
        foreground_process_group_ids,
        foreground_process_name,
    )
}

/// The engine's trigger, capped at 100%.
pub open spec fn total_trigger(settings: WorkloadEngineSettings) -> int {
    if settings.workload_engine_total_threshold_percent < 100 {
        settings.workload_engine_total_threshold_percent as int
    } else {
        100
    }
}

/// The level pressure must fall below before the engine stops.
pub open spec fn restore_level(settings: WorkloadEngineSettings) -> int {
    if total_trigger(settings) >= WORKLOAD_ENGINE_PRESSURE_RESTORE_BAND_PERCENT {
        total_trigger(settings) - WORKLOAD_ENGINE_PRESSURE_RESTORE_BAND_PERCENT
    } else {
        0
    }
}

/// Whether the foreground alone saturates the CPU (usage in thousandths).
pub open spec fn saturates(reading: Option<i64>) -> bool {
    at_least(reading, WORKLOAD_ENGINE_FOREGROUND_SATURATION as int)
}

/// CPU pressure: the foreground reaches the trigger without saturating the
/// CPU on its own, or the system reaches it while the foreground does not
/// saturate.
pub open spec fn pressure(settings: WorkloadEngineSettings, foreground: Option<i64>, total: Option<i64>) -> bool {
    let t = total_trigger(settings) * 1000;
    (at_least(foreground, t) && !saturates(foreground)) || (!saturates(foreground) && at_least(total, t))
}

/// Pressure stays above the restore level, with the foreground not
/// saturating the CPU.
pub open spec fn pressure_remains(settings: WorkloadEngineSettings, foreground: Option<i64>, total: Option<i64>) -> bool {
    !saturates(foreground) && (at_least(foreground, restore_level(settings) * 1000) || at_least(
        total,
        restore_level(settings) * 1000,
    ))
}

fn reading_at_least(reading: Option<i64>, thousandths: i64) -> (r: bool)
    ensures
        r == at_least(reading, thousandths as int),
{
    match reading {
        Some(v) => v >= thousandths,
        None => false,
    }
}

/// A usage in thousandths of a percent as tenths of a percent, clamped to
/// 0..=100% and rounded half up.
pub open spec fn thousandths_to_tenths(usage: i64) -> int {
    if usage <= 0 {
        0
    } else if usage >= 100_000 {
        1000
    } else {
        (usage + 50) / 100
    }
}

/// A usage in thousandths of a percent as tenths of a percent (see
/// `thousandths_to_tenths`).
pub fn usage_tenths(usage: i64) -> (r: u16)
    ensures
        r == thousandths_to_tenths(usage),
{
    if usage <= 0 {
        0
    } else if usage >= 100_000 {
        1000
    } else {
        ((usage + 50) / 100) as u16
    }
}

/// What the Workload Engine reports it is doing; usages in tenths of a
/// percent.
#[derive(Debug, Clone, Copy, PartialEq, Eq, Structural)]
pub enum WorkloadEngineStatus {
    Disabled,
    LaunchBoost,
    ForegroundSaturated { usage_tenths: u16 },
    WaitingForCpu { foreground_tenths: u16, total_tenths: u16, threshold_percent: u8 },
    WaitingForForegroundCpu { foreground_tenths: u16, threshold_percent: u8 },
    WaitingForSystemCpu { total_tenths: u16, threshold_percent: u8 },
    WaitingForSample,
    Watching,
    Balancing { count: usize },
}

/// What the Workload Engine reports: disabled; a launch boost first; while
/// not running, why it waits (a saturating foreground app, or the readings
/// against the trigger, capped at 100%); running, whether it restrains any
/// process. Usages are in thousandths of a percent.
pub open spec fn status_spec(
    settings: WorkloadEngineSettings,
    foreground_cpu_usage: Option<i64>,
    total_cpu_usage: Option<i64>,
    launch_boost_running: bool,
    running: bool,
    restrained_count: usize,
) -> WorkloadEngineStatus {
    let threshold = if settings.workload_engine_total_threshold_percent < 100 {
        settings.workload_engine_total_threshold_percent
    } else {
        100
    };
    if !settings.workload_engine_enabled {
        WorkloadEngineStatus::Disabled
    } else if launch_boost_running {
        WorkloadEngineStatus::LaunchBoost
    } else if !running {
        match (foreground_cpu_usage, total_cpu_usage) {
            (Some(f), _) if f >= WORKLOAD_ENGINE_FOREGROUND_SATURATION => WorkloadEngineStatus::ForegroundSaturated {
                usage_tenths: thousandths_to_tenths(f) as u16,
            },
            (Some(f), Some(t)) => WorkloadEngineStatus::WaitingForCpu {
                foreground_tenths: thousandths_to_tenths(f) as u16,
                total_tenths: thousandths_to_tenths(t) as u16,
                threshold_percent: threshold,
            },
            (Some(f), None) => WorkloadEngineStatus::WaitingForForegroundCpu {
                foreground_tenths: thousandths_to_tenths(f) as u16,
                threshold_percent: threshold,
            },
            (None, Some(t)) => WorkloadEngineStatus::WaitingForSystemCpu {
                total_tenths: thousandths_to_tenths(t) as u16,
                threshold_percent: threshold,
            },
            (None, None) => WorkloadEngineStatus::WaitingForSample,
        }
    } else if restrained_count == 0 {
        WorkloadEngineStatus::Watching
    } else {
        WorkloadEngineStatus::Balancing { count: restrained_count }
    }
}

/// What the Workload Engine reports (see `status_spec`).
pub fn workload_engine_status(
    settings: &WorkloadEngineSettings,
    foreground_cpu_usage: Option<i64>,
    total_cpu_usage: Option<i64>,
    launch_boost_running: bool,
    running: bool,
    restrained_count: usize,
) -> (r: WorkloadEngineStatus)
    ensures
        r == status_spec(*settings, foreground_cpu_usage, total_cpu_usage, launch_boost_running, running, restrained_count),
{
    if !settings.workload_engine_enabled {
        return WorkloadEngineStatus::Disabled;
    }
    if launch_boost_running {
        return WorkloadEngineStatus::LaunchBoost;
    }
    if !running {
        let threshold = if settings.workload_engine_total_threshold_percent < 100 {
            settings.workload_engine_total_threshold_percent
        } else {
            100
        };
        return match (foreground_cpu_usage, total_cpu_usage) {
            (Some(f), _) if foreground_cpu_saturates_workload(f) => WorkloadEngineStatus::ForegroundSaturated {
                usage_tenths: usage_tenths(f),
            },
            (Some(f), Some(t)) => WorkloadEngineStatus::WaitingForCpu {
                foreground_tenths: usage_tenths(f),
                total_tenths: usage_tenths(t),
                threshold_percent: threshold,
            },
            (Some(f), None) => WorkloadEngineStatus::WaitingForForegroundCpu {
                foreground_tenths: usage_tenths(f),
                threshold_percent: threshold,
            },
            (None, Some(t)) => WorkloadEngineStatus::WaitingForSystemCpu {
                total_tenths: usage_tenths(t),
                threshold_percent: threshold,
            },
            (None, None) => WorkloadEngineStatus::WaitingForSample,
        };
    }
    if restrained_count == 0 {
        WorkloadEngineStatus::Watching
    } else {
        WorkloadEngineStatus::Balancing { count: restrained_count }
    }
}

/// The English status line of a status whose text the project spells out
/// (disabled, launch boost); the other statuses are told through their
/// translated texts, which are not part of this library, and give `None`.
pub fn workload_engine_status_message(
    settings: &WorkloadEngineSettings,
    foreground_cpu_usage: Option<i64>,
    total_cpu_usage: Option<i64>,
    launch_boost_running: bool,
    running: bool,
    restrained_count: usize,
) -> (r: Option<&'static str>)
    ensures
        r == match status_spec(*settings, foreground_cpu_usage, total_cpu_usage, launch_boost_running, running, restrained_count) {
            WorkloadEngineStatus::Disabled => Some("Workload Engine disabled."),
            WorkloadEngineStatus::LaunchBoost => Some(
                "Launch boost active: boosting the foreground app while background restraints wait.",
            ),
            _ => None::<&'static str>,
        },
{
    match workload_engine_status(
        settings,
        foreground_cpu_usage,
        total_cpu_usage,
        launch_boost_running,
        running,
        restrained_count,
    ) {
        WorkloadEngineStatus::Disabled => Some("Workload Engine disabled."),
        WorkloadEngineStatus::LaunchBoost => Some(
            "Launch boost active: boosting the foreground app while background restraints wait.",
        ),
        _ => None,
    }
}

/// Whether the foreground alone saturates the CPU.
pub fn foreground_cpu_saturates_workload(usage: i64) -> (r: bool)
    ensures
        r == (usage >= WORKLOAD_ENGINE_FOREGROUND_SATURATION),
{
    usage >= WORKLOAD_ENGINE_FOREGROUND_SATURATION
}

/// Whether there is CPU pressure (usages in thousandths of a percent).
pub fn cpu_pressure_should_run(
    settings: &WorkloadEngineSettings,
    foreground_cpu_usage: Option<i64>,
    total_cpu_usage: Option<i64>,
) -> (r: bool)
    ensures
        r == pressure(*settings, foreground_cpu_usage, total_cpu_usage),
{
    let trigger: u8 = if settings.workload_engine_total_threshold_percent < 100 {
        settings.workload_engine_total_threshold_percent
    } else {
        100
    };
    let t = trigger as i64 * 1000;
    let saturated = reading_at_least(foreground_cpu_usage, WORKLOAD_ENGINE_FOREGROUND_SATURATION);
    let foreground_pressure = reading_at_least(foreground_cpu_usage, t) && !saturated;
    let system_pressure = !saturated && reading_at_least(total_cpu_usage, t);
    foreground_pressure || system_pressure
}

/// Whether the engine runs: it is on and there is CPU pressure.
pub fn workload_engine_should_run(
    settings: &WorkloadEngineSettings,
    foreground_cpu_usage: Option<i64>,
    total_cpu_usage: Option<i64>,
) -> (r: bool)
    ensures
        r == (settings.workload_engine_enabled && pressure(*settings, foreground_cpu_usage, total_cpu_usage)),
{
    settings.workload_engine_enabled && cpu_pressure_should_run(settings, foreground_cpu_usage, total_cpu_usage)
}

/// Whether smart efficiency runs: always, unless the CPU share is automatic,
/// in which case only under CPU pressure.
pub fn smart_efficiency_should_run(
    settings: &WorkloadEngineSettings,
    foreground_cpu_usage: Option<i64>,
    total_cpu_usage: Option<i64>,
) -> (r: bool)
    ensures
        r == (!settings.lower_background_auto_cpu_percent || pressure(*settings, foreground_cpu_usage, total_cpu_usage)),
{
    if !settings.lower_background_auto_cpu_percent {
        return true;
    }
    cpu_pressure_should_run(settings, foreground_cpu_usage, total_cpu_usage)
}

/// The restore level in percent.
pub fn workload_engine_pressure_restore_threshold(settings: &WorkloadEngineSettings) -> (r: u8)
    ensures
        r == restore_level(*settings),
{
    let trigger: u8 = if settings.workload_engine_total_threshold_percent < 100 {
        settings.workload_engine_total_threshold_percent
    } else {
        100
    };
    if trigger >= WORKLOAD_ENGINE_PRESSURE_RESTORE_BAND_PERCENT {
        trigger - WORKLOAD_ENGINE_PRESSURE_RESTORE_BAND_PERCENT
    } else {
        0
    }
}

/// Whether pressure is still above the restore level.
pub fn cpu_pressure_above_restore_threshold(
    settings: &WorkloadEngineSettings,
    foreground_cpu_usage: Option<i64>,
    total_cpu_usage: Option<i64>,
) -> (r: bool)
    ensures
        r == pressure_remains(*settings, foreground_cpu_usage, total_cpu_usage),
{
    if reading_at_least(foreground_cpu_usage, WORKLOAD_ENGINE_FOREGROUND_SATURATION) {
        return false;
    }
    let level = workload_engine_pressure_restore_threshold(settings) as i64 * 1000;
    reading_at_least(foreground_cpu_usage, level) || reading_at_least(total_cpu_usage, level)
}

/// The restriction mode: soft CPU sets when the CPU share is automatic,
/// else the configured one.
pub fn workload_engine_effective_restriction_mode(settings: &WorkloadEngineSettings) -> (r: CpuRestrictionMode)
    ensures
        r == if settings.lower_background_auto_cpu_percent {
            CpuRestrictionMode::SoftCpuSets
        } else {
            settings.workload_engine_affinity_mode
        },
{
    if settings.lower_background_auto_cpu_percent {
        CpuRestrictionMode::SoftCpuSets
    } else {
        settings.workload_engine_affinity_mode
    }
}

/// The steering mode of the effective restriction mode.
pub fn workload_engine_affinity_mode(settings: &WorkloadEngineSettings) -> (r: CoreSteeringMode)
    ensures
        r == if !settings.lower_background_auto_cpu_percent && settings.workload_engine_affinity_mode
            == CpuRestrictionMode::HardAffinity {
            CoreSteeringMode::Hard
        } else {
            CoreSteeringMode::Soft
        },
{
    match workload_engine_effective_restriction_mode(settings) {
        CpuRestrictionMode::SoftCpuSets => CoreSteeringMode::Soft,
        CpuRestrictionMode::HardAffinity => CoreSteeringMode::Hard,
    }
}

/// What restraining a process does.
#[derive(Clone, Copy, Debug, PartialEq, Eq, Structural)]
pub enum WorkloadEngineDecision {
    LowerPriority,
    RestrictAffinity,
}

/// A restraint's decision: affinity right away with a fixed CPU share;
/// with an automatic share, priority first, and affinity once escalation is
/// on and the process has been restrained for the sustain time (at least
/// one second).
pub open spec fn decision_spec(settings: WorkloadEngineSettings, active_since: Option<u128>, now: u128) -> WorkloadEngineDecision {
    if !settings.lower_background_auto_cpu_percent {
        WorkloadEngineDecision::RestrictAffinity
    } else if !settings.workload_engine_affinity_escalation_enabled {
        WorkloadEngineDecision::LowerPriority
    } else {
        match active_since {
            None => WorkloadEngineDecision::LowerPriority,
            Some(since) => {
                let delay = if settings.workload_engine_sustain_seconds >= 1 {
                    settings.workload_engine_sustain_seconds as int
                } else {
                    1
                };
                if elapsed_since(now, since) >= delay * 1_000_000_000 {
                    WorkloadEngineDecision::RestrictAffinity
                } else {
                    WorkloadEngineDecision::LowerPriority
                }
            },
        }
    }
}

/// The decision for a process restrained since `active_since`.
pub fn workload_engine_process_decision(
    settings: &WorkloadEngineSettings,
    active_since: Option<u128>,
    now: u128,
) -> (r: WorkloadEngineDecision)
    ensures
        r == decision_spec(*settings, active_since, now),
{
    if !settings.lower_background_auto_cpu_percent {
        return WorkloadEngineDecision::RestrictAffinity;
    }
    if !settings.workload_engine_affinity_escalation_enabled {
        return WorkloadEngineDecision::LowerPriority;
    }
    let since = match active_since {
        Some(t) => t,
        None => {
            return WorkloadEngineDecision::LowerPriority;
        },
    };
    let delay_seconds: u64 = if settings.workload_engine_sustain_seconds >= 1 {
        settings.workload_engine_sustain_seconds
    } else {
        1
    };
    if elapsed_nanos(now, since) >= delay_seconds as u128 * 1_000_000_000 {
        WorkloadEngineDecision::RestrictAffinity
    } else {
        WorkloadEngineDecision::LowerPriority
    }
}

/// How long a process must stay hot before it is lowered, in nanoseconds:
/// none for the fastest automatic setting, half the sustain time for repeat
/// offenders under the automatic share, else the sustain time.
pub open spec fn priority_sustain_spec(settings: WorkloadEngineSettings, restraint_count: u32) -> int {
    if settings.lower_background_auto_cpu_percent && settings.workload_engine_sustain_seconds <= 1 {
        0
    } else if settings.lower_background_auto_cpu_percent && restraint_count > 0 {
        (settings.workload_engine_sustain_seconds * 1_000_000_000) / 2
    } else {
        settings.workload_engine_sustain_seconds * 1_000_000_000
    }
}

/// The sustain time before a hot process is lowered.
pub fn workload_engine_priority_sustain(settings: &WorkloadEngineSettings, restraint_count: u32) -> (r: u128)
    ensures
        r == priority_sustain_spec(*settings, restraint_count),
{
    if settings.lower_background_auto_cpu_percent && settings.workload_engine_sustain_seconds <= 1 {
        return 0;
    }
    let sustain = settings.workload_engine_sustain_seconds as u128 * 1_000_000_000;
    if settings.lower_background_auto_cpu_percent && restraint_count > 0 {
        sustain / WORKLOAD_ENGINE_REPEAT_OFFENDER_SUSTAIN_DIVISOR as u128
    } else {
        sustain
    }
}

/// What the Workload Engine remembers of a process between passes.
/// Instants are nanoseconds on a monotonic clock.
#[derive(Clone, Debug)]
pub struct WorkloadEngineProcess {
    pub process_name: String,
    pub previous_cpu_time: Option<ProcessCpuSample>,
    pub last_usage_tenths: Option<u16>,
    pub high_since: Option<u128>,
    pub below_since: Option<u128>,
    pub active_since: Option<u128>,
    pub last_reaction_millis: Option<u64>,
    pub restraint_count: u32,
    pub decision: Option<WorkloadEngineDecision>,
    pub active: bool,
    pub selected: bool,
}

/// A process that may be restrained in this pass.
#[derive(Clone, Debug)]
pub struct WorkloadEngineCandidate {
    pub process_id: u32,
    pub process_name: String,
    pub decision: WorkloadEngineDecision,
    pub score: u32,
}

impl ScoredCandidate for WorkloadEngineCandidate {
    open spec fn score_spec(&self) -> u32 {
        self.score
    }

    open spec fn id_spec(&self) -> u32 {
        self.process_id
    }

    fn score(&self) -> (r: u32) {
        self.score
    }

    fn candidate_id(&self) -> (r: u32) {
        self.process_id
    }
}

pub open spec fn sat_u32(x: int) -> int {
    if x <= u32::MAX {
        x
    } else {
        u32::MAX as int
    }
}

/// Whole seconds (at most 60) the process has been restrained.
pub open spec fn active_seconds(process: WorkloadEngineProcess, now: u128) -> int {
    match process.active_since {
        Some(started) => {
            let secs = elapsed_since(now, started) / 1_000_000_000;
            if secs < 60 {
                secs
            } else {
                60
            }
        },
        None => 0,
    }
}

/// A candidate's score: 500 when already selected, 1000 for an affinity
/// restraint, four per tenth of a percent of CPU, 100 per earlier restraint
/// and 10 per second restrained (up to a minute).
pub open spec fn candidate_score(process: WorkloadEngineProcess, decision: WorkloadEngineDecision, now: u128) -> int {
    (if process.selected {
        500int
    } else {
        0
    }) + (if decision == WorkloadEngineDecision::RestrictAffinity {
        1000int
    } else {
        0
    }) + 4 * (match process.last_usage_tenths {
        Some(t) => t as int,
        None => 0,
    }) + sat_u32(process.restraint_count * 100) + 10 * active_seconds(process, now)
}

/// The candidate for a tracked process.
pub fn workload_engine_candidate(
    process_id: u32,
    process: &WorkloadEngineProcess,
    decision: WorkloadEngineDecision,
    now: u128,
) -> (r: WorkloadEngineCandidate)
    requires
        candidate_score(*process, decision, now) <= u32::MAX,
    ensures
        r.process_id == process_id,
        r.process_name@ == process.process_name@,
        r.decision == decision,
        r.score == candidate_score(*process, decision, now),
{
    let selected_bonus: u32 = if process.selected {
        500
    } else {
        0
    };
    let decision_bonus: u32 = if decision == WorkloadEngineDecision::RestrictAffinity {
        1000
    } else {
        0
    };
    let seconds: u32 = match process.active_since {
        Some(started) => {
            let secs = elapsed_nanos(now, started) / 1_000_000_000;
            if secs < 60 {
                secs as u32
            } else {
                60
            }
        },
        None => 0,
    };
    let usage: u32 = match process.last_usage_tenths {
        Some(t) => t as u32,
        None => 0,
    };
    let restraints: u32 = match process.restraint_count.checked_mul(100) {
        Some(v) => v,
        None => u32::MAX,
    };
    WorkloadEngineCandidate {
        process_id,
        process_name: String::from_str(process.process_name.as_str()),
        decision,
        score: selected_bonus + decision_bonus + usage * 4 + restraints + seconds * 10,
    }
}

/// The candidates to restrain: the highest scores first (ties by lower
/// process id, then input order), at most `max_targeted_processes` and at
/// least one.
pub fn select_workload_engine_candidates(candidates: Vec<WorkloadEngineCandidate>, max_targeted_processes: u8) -> (r:
    Vec<WorkloadEngineCandidate>)
    ensures
        r@.len() == crate::features::candidates::selection_len(candidates@.len(), max_targeted_processes),
        r@.to_multiset().subset_of(candidates@.to_multiset()),
        forall|i: int, j: int|
            0 <= i < j < r@.len() ==> crate::features::candidates::ranks_before(#[trigger] r@[i], #[trigger] r@[j]),
        forall|c: WorkloadEngineCandidate|
            #[trigger] candidates@.to_multiset().count(c) > r@.to_multiset().count(c) ==> forall|i: int|
                0 <= i < r@.len() ==> crate::features::candidates::ranks_before(#[trigger] r@[i], c),
        exists|idx: Seq<int>| crate::features::candidates::stable_choice(r@, candidates@, idx),
{
    select_highest_scored(candidates, max_targeted_processes)
}

/// The smallest CPU share (percent of the pool) restrained processes keep:
/// the configured share, or with an automatic share a floor that follows
/// the trigger and the processor topology.
pub open spec fn minimum_percent_spec(settings: WorkloadEngineSettings, has_efficiency_cores: bool) -> int {
    if !settings.lower_background_auto_cpu_percent {
        if settings.workload_engine_cpu_percent < 1 {
            1
        } else if settings.workload_engine_cpu_percent > 100 {
            100
        } else {
            settings.workload_engine_cpu_percent as int
        }
    } else if total_trigger(settings) >= 80 {
        80
    } else if total_trigger(settings) >= 70 {
        if has_efficiency_cores {
            70
        } else {
            65
        }
    } else {
        50
    }
}

/// Law: with the automatic CPU share, restrained processes keep at least
/// half of the pool, and more as the trigger rises: 80 % from a trigger of
/// 80 %, on every processor topology; 70 % (65 % without efficiency cores)
/// from 70 %; 50 % below. A configured share is kept within 1 to 100 %.
pub proof fn law_minimum_share_follows_the_trigger(settings: WorkloadEngineSettings, has_efficiency_cores: bool)
    ensures
        ({
            let m = minimum_percent_spec(settings, has_efficiency_cores);
            let t = settings.workload_engine_total_threshold_percent;
            &&& settings.lower_background_auto_cpu_percent && t >= 80 ==> m == 80
            &&& settings.lower_background_auto_cpu_percent && 70 <= t < 80 ==> m == (if has_efficiency_cores {
                70int
            } else {
                65int
            })
            &&& settings.lower_background_auto_cpu_percent && t < 70 ==> m == 50
            &&& 1 <= m <= 100
            &&& !settings.lower_background_auto_cpu_percent && 1 <= settings.workload_engine_cpu_percent <= 100
                ==> m == settings.workload_engine_cpu_percent
        }),
{
}

/// Law: with the automatic CPU share, a higher trigger never lowers the
/// share restrained processes keep, and efficiency cores never lower it
/// either.
pub proof fn law_minimum_share_monotone(
    settings: WorkloadEngineSettings,
    lower_trigger: u8,
    higher_trigger: u8,
    has_efficiency_cores: bool,
)
    requires
        settings.lower_background_auto_cpu_percent,
        lower_trigger <= higher_trigger,
    ensures
        minimum_percent_spec(
            WorkloadEngineSettings { workload_engine_total_threshold_percent: lower_trigger, ..settings },
            has_efficiency_cores,
        ) <= minimum_percent_spec(
            WorkloadEngineSettings { workload_engine_total_threshold_percent: higher_trigger, ..settings },
            has_efficiency_cores,
        ),
        minimum_percent_spec(settings, false) <= minimum_percent_spec(settings, true),
{
    law_minimum_share_follows_the_trigger(
        WorkloadEngineSettings { workload_engine_total_threshold_percent: lower_trigger, ..settings },
        has_efficiency_cores,
    );
    law_minimum_share_follows_the_trigger(
        WorkloadEngineSettings { workload_engine_total_threshold_percent: higher_trigger, ..settings },
        has_efficiency_cores,
    );
    law_minimum_share_follows_the_trigger(settings, false);
    law_minimum_share_follows_the_trigger(settings, true);
}

/// The smallest CPU share for the topology.
pub fn workload_engine_minimum_cpu_percent_for_topology(settings: &WorkloadEngineSettings, has_efficiency_cores: bool) -> (r:
    u8)
    ensures
        r == minimum_percent_spec(*settings, has_efficiency_cores),
        settings.lower_background_auto_cpu_percent && settings.workload_engine_total_threshold_percent >= 80 ==> r
            == 80,
        settings.lower_background_auto_cpu_percent && 70 <= settings.workload_engine_total_threshold_percent < 80
            ==> r == (if has_efficiency_cores {
            70u8
        } else {
            65u8
        }),
        settings.lower_background_auto_cpu_percent && settings.workload_engine_total_threshold_percent < 70 ==> r
            == 50,
        !settings.lower_background_auto_cpu_percent ==> 1 <= r <= 100 && (1 <= settings.workload_engine_cpu_percent
            <= 100 ==> r == settings.workload_engine_cpu_percent),
{
    if !settings.lower_background_auto_cpu_percent {
        return if settings.workload_engine_cpu_percent < 1 {
            1
        } else if settings.workload_engine_cpu_percent > 100 {
            100
        } else {
            settings.workload_engine_cpu_percent
        };
    }
    let trigger: u8 = if settings.workload_engine_total_threshold_percent < 100 {
        settings.workload_engine_total_threshold_percent
    } else {
        100
    };
    if has_efficiency_cores {
        if trigger >= 80 {
            80
        } else if trigger >= 70 {
            70
        } else {
            50
        }
    } else if trigger >= 80 {
        80
    } else if trigger >= 70 {
        65
    } else {
        50
    }
}

/// The CPU share restrained processes keep, given the foreground usage (in
/// thousandths of a percent): between the trigger and saturation it moves
/// linearly from a relaxed share (all, or halfway to all) down to the
/// minimum, rounded to the nearest percent (halves up); at saturation the
/// automatic share gives everything back.
pub open spec fn effective_percent_spec(
    settings: WorkloadEngineSettings,
    foreground: Option<i64>,
    has_efficiency_cores: bool,
) -> int {
    let configured = minimum_percent_spec(settings, has_efficiency_cores);
    match foreground {
        None => configured,
        Some(u) => {
            let t = total_trigger(settings);
            if u >= WORKLOAD_ENGINE_FOREGROUND_SATURATION || t >= 85 {
                if settings.lower_background_auto_cpu_percent {
                    100
                } else {
                    configured
                }
            } else {
                let relaxed = if settings.lower_background_auto_cpu_percent {
                    100
                } else {
                    (configured + 100) / 2
                };
                let span = (85 - t) * 1000;
                let over = if u <= t * 1000 {
                    0
                } else if u - t * 1000 >= span {
                    span
                } else {
                    u - t * 1000
                };
                let num = relaxed * span - (relaxed - configured) * over;
                let rounded = (2 * num + span) / (2 * span);
                if rounded < configured {
                    configured
                } else if rounded > 100 {
                    100
                } else {
                    rounded
                }
            }
        },
    }
}

/// The CPU share restrained processes keep for the topology.
pub fn workload_engine_effective_cpu_percent_for_topology(
    settings: &WorkloadEngineSettings,
    foreground_cpu_usage: Option<i64>,
    has_efficiency_cores: bool,
) -> (r: u8)
    ensures
        r == effective_percent_spec(*settings, foreground_cpu_usage, has_efficiency_cores),
{
    let configured = workload_engine_minimum_cpu_percent_for_topology(settings, has_efficiency_cores);
    let u = match foreground_cpu_usage {
        None => {
            return configured;
        },
        Some(u) => u,
    };
    let trigger: u8 = if settings.workload_engine_total_threshold_percent < 100 {
        settings.workload_engine_total_threshold_percent
    } else {
        100
    };
    if u >= WORKLOAD_ENGINE_FOREGROUND_SATURATION || trigger >= 85 {
        return if settings.lower_background_auto_cpu_percent {
            100
        } else {
            configured
        };
    }
    let relaxed: i64 = if settings.lower_background_auto_cpu_percent {
        100
    } else {
        (configured as i64 + 100) / 2
    };
    let t = trigger as i64;
    let span: i64 = (85 - t) * 1000;
    let over: i64 = if u <= t * 1000 {
        0
    } else if u - t * 1000 >= span {
        span
    } else {
        u - t * 1000
    };
    assert(0 <= relaxed - configured <= 100);
    assert((relaxed - configured) * over <= 100 * span) by (nonlinear_arith)
        requires
            0 <= relaxed - configured <= 100,
            0 <= over <= span,
    ;
    assert(relaxed * span <= 100 * span) by (nonlinear_arith)
        requires
            relaxed <= 100,
            span >= 0,
    ;
    let num = relaxed * span - (relaxed - configured as i64) * over;
    assert(num >= configured * span) by (nonlinear_arith)
        requires
            num == relaxed * span - (relaxed - configured) * over,
            0 <= over <= span,
            relaxed >= configured,
    ;
    let rounded = (2 * num + span) / (2 * span);
    if rounded < configured as i64 {
        configured
    } else if rounded > 100 {
        100
    } else {
        rounded as u8
    }
}

/// Whether a processor takes part in the Workload Engine's load-aware
/// selection: an efficiency processor when there are any, else any
/// processor, with a load reading and within the mask.
pub open spec fn engine_eligible(p: LogicalProcessorInfo, loads_len: nat, efficiency_only: bool) -> bool {
    (!efficiency_only || p.kind == LogicalProcessorKind::Efficiency) && p.index < loads_len && p.index < 64
}

pub open spec fn has_efficiency(ps: Seq<LogicalProcessorInfo>) -> bool {
    exists|i: int| 0 <= i < ps.len() && ps[i].kind == LogicalProcessorKind::Efficiency
}

/// The eligible processors with their loads, in listed order.
pub open spec fn engine_candidates(ps: Seq<LogicalProcessorInfo>, loads: Seq<i64>, efficiency_only: bool) -> Seq<
    LoadedProcessor,
>
    decreases ps.len(),
{
    if ps.len() == 0 {
        Seq::empty()
    } else {
        let rest = engine_candidates(ps.drop_last(), loads, efficiency_only);
        if engine_eligible(ps.last(), loads.len(), efficiency_only) {
            rest.push((ps.last().index, loads[ps.last().index as int]))
        } else {
            rest
        }
    }
}

/// How many of `n` processors are kept: `percent` of them rounded up, at
/// most `max_logical_processors` when that is not zero, at least one and at
/// most all.
pub open spec fn limited_count_spec(n: nat, percent: u8, max_logical_processors: u8) -> nat {
    let p: nat = if percent < 1 {
        1
    } else if percent > 100 {
        100
    } else {
        percent as nat
    };
    let c = (n * p + 99) / 100;
    let c = if max_logical_processors == 0 || c <= max_logical_processors {
        c
    } else {
        max_logical_processors as nat
    };
    if c < 1 {
        1
    } else if c > n {
        n
    } else {
        c
    }
}

fn limited_count(n: usize, percent: u8, max_logical_processors: u8) -> (r: usize)
    requires
        n <= 0xFFFF_FFFF,
    ensures
        r == limited_count_spec(n as nat, percent, max_logical_processors),
{
    let p: u64 = if percent < 1 {
        1
    } else if percent > 100 {
        100
    } else {
        percent as u64
    };
    assert(n as u64 * p <= 0xFFFF_FFFF * 100) by (nonlinear_arith)
        requires
            n <= 0xFFFF_FFFF,
            p <= 100,
    ;
    let c0 = (n as u64 * p + 99) / 100;
    let c = if max_logical_processors == 0 || c0 <= max_logical_processors as u64 {
        c0
    } else {
        max_logical_processors as u64
    };
    if c < 1 {
        1
    } else if c > n as u64 {
        n
    } else {
        c as usize
    }
}

fn collect_engine_candidates(processors: &Vec<LogicalProcessorInfo>, loads: &Vec<i64>, efficiency_only: bool) -> (r:
    Vec<LoadedProcessor>)
    ensures
        r@ == engine_candidates(processors@, loads@, efficiency_only),
        r@.len() <= processors@.len(),
{
    let mut out: Vec<LoadedProcessor> = Vec::new();
    let mut i: usize = 0;
    while i < processors.len()
        invariant
            i <= processors@.len(),
            out@ == engine_candidates(processors@.subrange(0, i as int), loads@, efficiency_only),
            out@.len() <= i,
        decreases processors@.len() - i,
    {
        let p = processors[i];
        if (!efficiency_only || p.kind == LogicalProcessorKind::Efficiency) && p.index < loads.len() && p.index < 64 {
            out.push((p.index, loads[p.index]));
        }
        proof {
            let next = processors@.subrange(0, i + 1);
            assert(next.drop_last() =~= processors@.subrange(0, i as int));
        }
        i = i + 1;
    }
    assert(processors@.subrange(0, processors@.len() as int) =~= processors@);
    out
}

/// The least-loaded processors for restrained processes: efficiency
/// processors when there are any; `None` when none is eligible. Loads are
/// in thousandths of a percent, indexed by processor.
pub open spec fn engine_load_mask_spec(
    ps: Seq<LogicalProcessorInfo>,
    loads: Seq<i64>,
    percent: u8,
    max_logical_processors: u8,
) -> Option<u64> {
    let cs = engine_candidates(ps, loads, has_efficiency(ps));
    let mask = least_loaded_mask(cs, cs, limited_count_spec(cs.len(), percent, max_logical_processors));
    if cs.len() == 0 || mask == 0 {
        None
    } else {
        Some(mask)
    }
}

pub fn load_aware_limited_core_mask(
    processors: &Vec<LogicalProcessorInfo>,
    loads: &Vec<i64>,
    percent: u8,
    max_logical_processors: u8,
) -> (r: Option<u64>)
    requires
        processors@.len() <= 0xFFFF_FFFF,
    ensures
        r == engine_load_mask_spec(processors@, loads@, percent, max_logical_processors),
        ({
            let cs = engine_candidates(processors@, loads@, has_efficiency(processors@));
            let mask = least_loaded_mask(cs, cs, limited_count_spec(cs.len(), percent, max_logical_processors));
            r == if cs.len() == 0 || mask == 0 {
                None::<u64>
            } else {
                Some(mask)
            }
        }),
{
    let mut efficiency_only = false;
    let mut i: usize = 0;
    while i < processors.len()
        invariant
            i <= processors@.len(),
            efficiency_only == exists|j: int|
                0 <= j < i && processors@[j].kind == LogicalProcessorKind::Efficiency,
        decreases processors@.len() - i,
    {
        if processors[i].kind == LogicalProcessorKind::Efficiency {
            efficiency_only = true;
        }
        i = i + 1;
    }
    let cs = collect_engine_candidates(processors, loads, efficiency_only);
    if cs.len() == 0 {
        return None;
    }
    let limit = limited_count(cs.len(), percent, max_logical_processors);
    let mask = least_loaded_processor_mask(&cs, limit);
    if mask == 0 {
        None
    } else {
        Some(mask)
    }
}

/// The bits of the first `limit` indices.
pub open spec fn prefix_mask(indices: Seq<usize>, limit: int) -> u64
    decreases indices.len(),
{
    if indices.len() == 0 {
        0
    } else {
        prefix_mask(indices.drop_last(), limit) | if indices.len() - 1 < limit {
            index_bit(indices.last() as int)
        } else {
            0
        }
    }
}

/// Whether any listed processor is an efficiency processor.
pub fn has_efficiency_cores(processors: &Vec<LogicalProcessorInfo>) -> (r: bool)
    ensures
        r == has_efficiency(processors@),
{
    let mut i: usize = 0;
    while i < processors.len()
        invariant
            i <= processors@.len(),
            forall|j: int| 0 <= j < i ==> processors@[j].kind != LogicalProcessorKind::Efficiency,
        decreases processors@.len() - i,
    {
        if processors[i].kind == LogicalProcessorKind::Efficiency {
            return true;
        }
        i = i + 1;
    }
    false
}

/// Indices in strictly increasing order.
pub open spec fn increasing_indices(v: Seq<usize>) -> bool {
    forall|i: int, j: int| 0 <= i < j < v.len() ==> v[i] < v[j]
}

/// Adds `x` to a strictly increasing vector of indices.
pub fn insert_sorted_index(v: &mut Vec<usize>, x: usize)
    requires
        increasing_indices(old(v)@),
    ensures
        increasing_indices(final(v)@),
        final(v)@.to_set() == old(v)@.to_set().insert(x),
        final(v)@.len() <= old(v)@.len() + 1,
{
    let mut pos: usize = 0;
    while pos < v.len() && v[pos] < x
        invariant
            pos <= v@.len(),
            forall|j: int| 0 <= j < pos ==> v@[j] < x,
        decreases v@.len() - pos,
    {
        pos = pos + 1;
    }
    if pos < v.len() && v[pos] == x {
        assert(v@.contains(x));
        assert(v@.to_set() =~= v@.to_set().insert(x));
        return;
    }
    let ghost before = v@;
    v.insert(pos, x);
    assert(v@ == before.insert(pos as int, x));
    assert forall|a: int, b: int| 0 <= a < b < v@.len() implies v@[a] < v@[b] by {
        if b < pos {
        } else if b == pos {
        } else if a < pos {
            assert(v@[b] == before[b - 1]);
            assert(before[pos as int] >= x);
            assert(before[pos as int] != x);
        } else if a == pos {
            assert(v@[b] == before[b - 1]);
            assert(before[pos as int] >= x);
            assert(before[pos as int] != x);
        } else {
            assert(v@[a] == before[a - 1] && v@[b] == before[b - 1]);
        }
    }
    assert forall|y: usize| #[trigger] v@.contains(y) <==> before.contains(y) || y == x by {
        if v@.contains(y) {
            let k = choose|k: int| 0 <= k < v@.len() && v@[k] == y;
            if k < pos {
                assert(before[k] == y);
            } else if k > pos {
                assert(before[k - 1] == y);
            }
        }
        if before.contains(y) {
            let k = choose|k: int| 0 <= k < before.len() && before[k] == y;
            if k < pos {
                assert(v@[k] == y);
            } else {
                assert(v@[k + 1] == y);
            }
        }
        if y == x {
            assert(v@[pos as int] == x);
        }
    }
    assert(v@.to_set() =~= before.to_set().insert(x));
}

/// The indices an efficiency-preferred mask draws from: those of the
/// efficiency processors when there are any, else all.
pub open spec fn preferred_indices(ps: Seq<LogicalProcessorInfo>) -> Set<usize> {
    Set::new(
        |i: usize|
            exists|k: int|
                0 <= k < ps.len() && (!has_efficiency(ps) || ps[k].kind == LogicalProcessorKind::Efficiency)
                    && (#[trigger] ps[k]).index == i,
    )
}

/// The limited mask over the efficiency processors (or all, without any),
/// taken in increasing index order; `None` without processors.
pub fn limited_efficiency_preferred_core_mask(
    processors: &Vec<LogicalProcessorInfo>,
    percent: u8,
    max_logical_processors: u8,
) -> (r: Option<u64>)
    requires
        processors@.len() <= 0xFFFF_FFFF,
    ensures
        processors@.len() == 0 ==> r is None,
        processors@.len() > 0 ==> exists|s: Seq<usize>|
            {
                &&& increasing_indices(s)
                &&& s.to_set() == preferred_indices(processors@)
                &&& r == ({
                    let mask = prefix_mask(s, limited_count_spec(s.len(), percent, max_logical_processors) as int);
                    if s.len() == 0 || mask == 0 {
                        None::<u64>
                    } else {
                        Some(mask)
                    }
                })
            },
{
    if processors.len() == 0 {
        return None;
    }
    let mut has_e = false;
    let mut k: usize = 0;
    while k < processors.len()
        invariant
            k <= processors@.len(),
            has_e == exists|j: int| 0 <= j < k && processors@[j].kind == LogicalProcessorKind::Efficiency,
        decreases processors@.len() - k,
    {
        if processors[k].kind == LogicalProcessorKind::Efficiency {
            has_e = true;
        }
        k = k + 1;
    }
    let ghost ps = processors@;
    let mut selected: Vec<usize> = Vec::new();
    let mut i: usize = 0;
    proof {
        assert(selected@.to_set() =~= Set::<usize>::empty());
    }
    while i < processors.len()
        invariant
            i <= processors@.len(),
            ps == processors@,
            has_e == has_efficiency(ps),
            increasing_indices(selected@),
            selected@.len() <= i,
            selected@.to_set() == Set::new(
                |x: usize|
                    exists|k: int|
                        0 <= k < i && (!has_e || ps[k].kind == LogicalProcessorKind::Efficiency) && (#[trigger] ps[k]).index
                            == x,
            ),
        decreases processors@.len() - i,
    {
        let ghost before = selected@.to_set();
        let p = &processors[i];
        if !has_e || p.kind == LogicalProcessorKind::Efficiency {
            insert_sorted_index(&mut selected, p.index);
        }
        proof {
            let next = Set::new(
                |x: usize|
                    exists|k: int|
                        0 <= k < i + 1 && (!has_e || ps[k].kind == LogicalProcessorKind::Efficiency) && (#[trigger] ps[k]).index
                            == x,
            );
            assert forall|x: usize| #[trigger] selected@.to_set().contains(x) <==> next.contains(x) by {
                if next.contains(x) {
                    let k = choose|k: int|
                        0 <= k < i + 1 && (!has_e || ps[k].kind == LogicalProcessorKind::Efficiency) && (#[trigger] ps[k]).index
                            == x;
                    if k < i {
                        assert(before.contains(x));
                    }
                }
                if before.contains(x) {
                    let k = choose|k: int|
                        0 <= k < i && (!has_e || ps[k].kind == LogicalProcessorKind::Efficiency) && (#[trigger] ps[k]).index
                            == x;
                    assert(0 <= k < i + 1);
                }
                if (!has_e || ps[i as int].kind == LogicalProcessorKind::Efficiency) && x == ps[i as int].index {
                    assert(next.contains(x));
                }
            }
            assert(selected@.to_set() =~= next);
        }
        i = i + 1;
    }
    proof {
        assert(selected@.to_set() =~= preferred_indices(processors@));
    }
    logical_indices_to_limited_mask(&selected, percent, max_logical_processors)
}

/// The mask of the first indices of an ordered list: `percent` of them
/// (rounded up), at most `max_logical_processors` when that is not zero, at
/// least one; `None` for an empty list or an empty mask.
pub fn logical_indices_to_limited_mask(indices: &Vec<usize>, percent: u8, max_logical_processors: u8) -> (r: Option<u64>)
    requires
        indices@.len() <= 0xFFFF_FFFF,
    ensures
        ({
            let mask = prefix_mask(indices@, limited_count_spec(indices@.len(), percent, max_logical_processors) as int);
            r == if indices@.len() == 0 || mask == 0 {
                None::<u64>
            } else {
                Some(mask)
            }
        }),
{
    if indices.len() == 0 {
        return None;
    }
    let limit = limited_count(indices.len(), percent, max_logical_processors);
    let mut mask: u64 = 0;
    let mut i: usize = 0;
    while i < indices.len()
        invariant
            i <= indices@.len(),
            mask == prefix_mask(indices@.subrange(0, i as int), limit as int),
        decreases indices@.len() - i,
    {
        if i < limit && indices[i] < 64 {
            mask = mask | (1u64 << (indices[i] as u64));
        } else {
            mask = mask | 0;
        }
        proof {
            let next = indices@.subrange(0, i + 1);
            assert(next.drop_last() =~= indices@.subrange(0, i as int));
        }
        i = i + 1;
    }
    assert(indices@.subrange(0, indices@.len() as int) =~= indices@);
    if mask == 0 {
        None
    } else {
        Some(mask)
    }
}

pub open spec fn priority_class_of(priority: ProcessPriority) -> u32 {
    match priority {
        ProcessPriority::Normal => NORMAL_PRIORITY_CLASS,
        ProcessPriority::BelowNormal => BELOW_NORMAL_PRIORITY_CLASS,
        ProcessPriority::Idle => IDLE_PRIORITY_CLASS,
    }
}

/// The Windows priority class of a restraint priority.
pub fn process_priority_class(priority: ProcessPriority) -> (r: u32)
    ensures
        r == priority_class_of(priority),
{
    match priority {
        ProcessPriority::Normal => NORMAL_PRIORITY_CLASS,
        ProcessPriority::BelowNormal => BELOW_NORMAL_PRIORITY_CLASS,
        ProcessPriority::Idle => IDLE_PRIORITY_CLASS,
    }
}

/// The class the foreground app is boosted to: `Auto` gives above normal,
/// or normal while the foreground saturates the CPU.
pub fn foreground_boost_priority_class(priority: ForegroundBoostPriority, foreground_cpu_usage: Option<i64>) -> (r: u32)
    ensures
        r == match priority {
            ForegroundBoostPriority::Auto => if saturates(foreground_cpu_usage) {
                NORMAL_PRIORITY_CLASS
            } else {
                ABOVE_NORMAL_PRIORITY_CLASS
            },
            ForegroundBoostPriority::Normal => NORMAL_PRIORITY_CLASS,
            ForegroundBoostPriority::AboveNormal => ABOVE_NORMAL_PRIORITY_CLASS,
        },
{
    match priority {
        ForegroundBoostPriority::Auto => {
            if reading_at_least(foreground_cpu_usage, WORKLOAD_ENGINE_FOREGROUND_SATURATION) {
                NORMAL_PRIORITY_CLASS
            } else {
                ABOVE_NORMAL_PRIORITY_CLASS
            }
        },
        ForegroundBoostPriority::Normal => NORMAL_PRIORITY_CLASS,
        ForegroundBoostPriority::AboveNormal => ABOVE_NORMAL_PRIORITY_CLASS,
    }
}

/// The launch boost runs only with the engine on and for a launching
/// foreground app.
pub fn workload_engine_launch_boost_enabled(settings: &WorkloadEngineSettings, foreground_is_launching: bool) -> (r:
    bool)
    ensures
        r == (settings.workload_engine_enabled && foreground_is_launching),
{
    settings.workload_engine_enabled && foreground_is_launching
}

/// Whether a process of this age (nanoseconds) is still launching.
pub fn process_age_in_launch_boost_window(age: u128, launch_window: u128) -> (r: bool)
    ensures
        r == (age <= launch_window),
{
    age <= launch_window
}

/// `Applied Workload Engine background restraint to <n> process(es).`
pub fn background_apply_summary_message(count: usize) -> (r: String)
    ensures
        r@ == "Applied Workload Engine background restraint to "@ + count_label(count as nat) + "."@,
{
    let mut s = String::from_str("Applied Workload Engine background restraint to ");
    s.append(process_count_label(count).as_str());
    s.append(".");
    s
}

/// `Restored background priority for <n> process(es): <reason>.`
pub fn background_priority_restore_summary_message(count: usize, reason: &str) -> (r: String)
    ensures
        r@ == "Restored background priority for "@ + count_label(count as nat) + ": "@ + reason@ + "."@,
{
    let mut s = String::from_str("Restored background priority for ");
    s.append(process_count_label(count).as_str());
    s.append(": ");
    s.append(reason);
    s.append(".");
    s
}

/// `Restored foreground boost for <n> process(es): <reason>.`
pub fn foreground_boost_restore_summary_message(count: usize, reason: &str) -> (r: String)
    ensures
        r@ == "Restored foreground boost for "@ + count_label(count as nat) + ": "@ + reason@ + "."@,
{
    let mut s = String::from_str("Restored foreground boost for ");
    s.append(process_count_label(count).as_str());
    s.append(": ");
    s.append(reason);
    s.append(".");
    s
}

/// Whether an apply summary may be logged: never logged, or at least the
/// interval ago.
pub fn background_apply_summary_log_due(last_logged_at: Option<u128>, now: u128) -> (r: bool)
    ensures
        r == match last_logged_at {
            None => true,
            Some(last) => elapsed_since(now, last) >= BACKGROUND_APPLY_SUMMARY_LOG_INTERVAL_NANOS,
        },
{
    match last_logged_at {
        None => true,
        Some(last) => elapsed_nanos(now, last) >= BACKGROUND_APPLY_SUMMARY_LOG_INTERVAL_NANOS,
    }
}

/// `<action> <process> (<pid>): <message>`, with `process` for an empty name.
pub fn process_failure_message(action: &str, process_id: u32, process_name: &str, message: &str) -> (r: String)
    ensures
        r@ == action@ + " "@ + (if process_name@.len() == 0 { "process"@ } else { process_name@ }) + " ("@
            + decimal(process_id as nat) + "): "@ + message@,
{
    let mut s = String::from_str(action);
    s.append(" ");
    if process_name.unicode_len() == 0 {
        s.append("process");
    } else {
        s.append(process_name);
    }
    s.append(" (");
    s.append(decimal_string(process_id as u64).as_str());
    s.append("): ");
    s.append(message);
    s
}

/// Whether a process may be told to ignore timer-resolution requests: only
/// when audio detection worked and the process is not playing audio.
pub fn ignore_timer_resolution_allowed(process_id: u32, active_audio_process_ids: Option<&Vec<u32>>) -> (r: bool)
    ensures
        r == match active_audio_process_ids {
            Some(ids) => !ids@.contains(process_id),
            None => false,
        },
{
    match active_audio_process_ids {
        Some(ids) => !contains_id(ids, process_id),
        None => false,
    }
}

/// A process power-throttling state (`PROCESS_POWER_THROTTLING_STATE`).
#[derive(Clone, Copy, Debug, PartialEq, Eq, Structural)]
pub struct PowerThrottlingState {
    pub version: u32,
    pub control_mask: u32,
    pub state_mask: u32,
}

/// The state that turns efficiency mode on: execution-speed throttling
/// always, ignoring timer resolution only when allowed (and cleared
/// otherwise); other bits of the previous state are kept.
pub fn power_throttling_enabled_state(previous: Option<PowerThrottlingState>, ignore_timer_resolution: bool) -> (r:
    PowerThrottlingState)
    ensures
        r.version == PROCESS_POWER_THROTTLING_CURRENT_VERSION,
        ({
            let (control, state) = match previous {
                Some(p) => (p.control_mask, p.state_mask),
                None => (0u32, 0u32),
            };
            &&& r.control_mask == (control | PROCESS_POWER_THROTTLING_EXECUTION_SPEED
                | PROCESS_POWER_THROTTLING_IGNORE_TIMER_RESOLUTION)
            &&& r.state_mask == if ignore_timer_resolution {
                state | PROCESS_POWER_THROTTLING_EXECUTION_SPEED | PROCESS_POWER_THROTTLING_IGNORE_TIMER_RESOLUTION
            } else {
                (state | PROCESS_POWER_THROTTLING_EXECUTION_SPEED) & !PROCESS_POWER_THROTTLING_IGNORE_TIMER_RESOLUTION
            }
        }),
{
    let (control, state) = match previous {
        Some(p) => (p.control_mask, p.state_mask),
        None => (0u32, 0u32),
    };
    let control_mask = control | PROCESS_POWER_THROTTLING_EXECUTION_SPEED | PROCESS_POWER_THROTTLING_IGNORE_TIMER_RESOLUTION;
    let state_mask = if ignore_timer_resolution {
        state | PROCESS_POWER_THROTTLING_EXECUTION_SPEED | PROCESS_POWER_THROTTLING_IGNORE_TIMER_RESOLUTION
    } else {
        (state | PROCESS_POWER_THROTTLING_EXECUTION_SPEED) & !PROCESS_POWER_THROTTLING_IGNORE_TIMER_RESOLUTION
    };
    PowerThrottlingState { version: PROCESS_POWER_THROTTLING_CURRENT_VERSION, control_mask, state_mask }
}

/// The restraint trigger for one process, capped at 100%.
pub open spec fn app_trigger(settings: WorkloadEngineSettings) -> int {
    if settings.workload_engine_threshold_percent < 100 {
        settings.workload_engine_threshold_percent as int
    } else {
        100
    }
}

/// The level a restrained process must fall to before its cooldown starts:
/// the restore threshold, at most the trigger.
pub open spec fn app_restore(settings: WorkloadEngineSettings) -> int {
    let r = if settings.workload_engine_restore_threshold_percent < settings.workload_engine_threshold_percent {
        settings.workload_engine_restore_threshold_percent as int
    } else {
        settings.workload_engine_threshold_percent as int
    };
    if r < 100 {
        r
    } else {
        100
    }
}

/// The state after a usage reading, and the decision the process is
/// restrained with (`None`: not a candidate). A hot process becomes active
/// once it has been hot for the sustain time (counting one more restraint
/// and its reaction time); an active process that is not selected drops
/// out as soon as it cools; a selected one stays restrained for the minimum
/// restraint time and while above the restore level, then is only lowered
/// in priority for the cooldown, and is then released.
pub open spec fn next_engine_state(
    s: WorkloadEngineProcess,
    u: CpuUsage,
    settings: WorkloadEngineSettings,
    sustain: int,
    now: u128,
) -> (WorkloadEngineProcess, Option<WorkloadEngineDecision>) {
    let s = WorkloadEngineProcess { last_usage_tenths: Some(percent_tenths_spec(u) as u16), ..s };
    if usage_at_least(u, app_trigger(settings)) {
        let high_since = match s.high_since {
            Some(t) => t,
            None => now,
        };
        let s = WorkloadEngineProcess { below_since: None, high_since: Some(high_since), ..s };
        if s.active || elapsed_since(now, high_since) >= sustain {
            let s = if !s.active {
                WorkloadEngineProcess {
                    active_since: Some(now),
                    last_reaction_millis: Some(
                        (if elapsed_since(now, high_since) / 1_000_000 <= u64::MAX {
                            elapsed_since(now, high_since) / 1_000_000
                        } else {
                            u64::MAX as int
                        }) as u64,
                    ),
                    restraint_count: if s.restraint_count < u32::MAX {
                        (s.restraint_count + 1) as u32
                    } else {
                        u32::MAX
                    },
                    ..s
                }
            } else {
                s
            };
            let d = decision_spec(settings, s.active_since, now);
            (WorkloadEngineProcess { active: true, decision: Some(d), ..s }, Some(d))
        } else {
            (s, None)
        }
    } else {
        let s = WorkloadEngineProcess { high_since: None, ..s };
        if s.active && !s.selected {
            (WorkloadEngineProcess { active: false, below_since: None, active_since: None, decision: None, ..s }, None)
        } else if s.active {
            let active_since = match s.active_since {
                Some(t) => t,
                None => now,
            };
            if usage_above(u, app_restore(settings)) || elapsed_since(now, active_since)
                < settings.workload_engine_minimum_restraint_seconds * 1_000_000_000 {
                let d = decision_spec(settings, s.active_since, now);
                (WorkloadEngineProcess { below_since: None, decision: Some(d), ..s }, Some(d))
            } else {
                let below_since = match s.below_since {
                    Some(t) => t,
                    None => now,
                };
                if elapsed_since(now, below_since) < settings.workload_engine_cooldown_seconds * 1_000_000_000 {
                    (
                        WorkloadEngineProcess {
                            below_since: Some(below_since),
                            decision: Some(WorkloadEngineDecision::LowerPriority),
                            ..s
                        },
                        Some(WorkloadEngineDecision::LowerPriority),
                    )
                } else {
                    (
                        WorkloadEngineProcess {
                            active: false,
                            selected: false,
                            below_since: None,
                            active_since: None,
                            decision: None,
                            ..s
                        },
                        None,
                    )
                }
            }
        } else {
            (s, None)
        }
    }
}

/// Whether every candidate score a process can reach fits in 32 bits.
pub open spec fn scores_fit(process: WorkloadEngineProcess) -> bool {
    1500 + 4 * 1000 + sat_u32((process.restraint_count + 1) * 100) + 600 <= u32::MAX
}

/// Takes a new CPU sample of a tracked process (usage spread over
/// `processor_count` processors) and decides whether it is a restraint
/// candidate. Without an earlier sample (or when time or CPU time went
/// back) it only records the sample.
pub fn update_workload_engine_process(
    state: &mut WorkloadEngineProcess,
    process_id: u32,
    current: ProcessCpuSample,
    processor_count: u32,
    settings: &WorkloadEngineSettings,
    now: u128,
) -> (r: Option<WorkloadEngineCandidate>)
    requires
        processor_count >= 1,
        scores_fit(*old(state)),
    ensures
        ({
            let sustain = priority_sustain_spec(*settings, old(state).restraint_count);
            let usage = match old(state).previous_cpu_time {
                Some(p) => if p.sampled_at < current.sampled_at && p.cpu_time_100ns <= current.cpu_time_100ns
                    && (current.sampled_at - p.sampled_at) * processor_count <= u128::MAX {
                    Some(
                        CpuUsage {
                            busy_nanos: ((current.cpu_time_100ns - p.cpu_time_100ns) * 100) as u128,
                            capacity_nanos: ((current.sampled_at - p.sampled_at) * processor_count) as u128,
                        },
                    )
                } else {
                    None
                },
                None => None,
            };
            let sampled = WorkloadEngineProcess { previous_cpu_time: Some(current), ..*old(state) };
            match usage {
                None => *final(state) == sampled && r is None,
                Some(u) => {
                    let (next, decision) = next_engine_state(sampled, u, *settings, sustain, now);
                    &&& *final(state) == next
                    &&& r is Some <==> decision is Some
                    &&& r matches Some(c) ==> c.process_id == process_id && c.process_name@ == next.process_name@
                        && Some(c.decision) == decision && c.score == candidate_score(next, c.decision, now)
                },
            }
        }),
{
    let sustain = workload_engine_priority_sustain(settings, state.restraint_count);
    let usage = match state.previous_cpu_time {
        Some(prev) => process_cpu_usage_percent(prev, current, processor_count),
        None => None,
    };
    state.previous_cpu_time = Some(current);
    let u = match usage {
        Some(u) => u,
        None => {
            return None;
        },
    };
    let tenths = percent_tenths(u);
    state.last_usage_tenths = Some(tenths);
    let trigger: u8 = if settings.workload_engine_threshold_percent < 100 {
        settings.workload_engine_threshold_percent
    } else {
        100
    };
    let r0: u8 = if settings.workload_engine_restore_threshold_percent < settings.workload_engine_threshold_percent {
        settings.workload_engine_restore_threshold_percent
    } else {
        settings.workload_engine_threshold_percent
    };
    let restore: u8 = if r0 < 100 {
        r0
    } else {
        100
    };
    if usage_at_least_exec(u, trigger) {
        state.below_since = None;
        let high_since = match state.high_since {
            Some(t) => t,
            None => now,
        };
        state.high_since = Some(high_since);
        if state.active || elapsed_nanos(now, high_since) >= sustain {
            if !state.active {
                state.active_since = Some(now);
                state.last_reaction_millis = Some(duration_millis_u64(elapsed_nanos(now, high_since)));
                state.restraint_count = if state.restraint_count < u32::MAX {
                    state.restraint_count + 1
                } else {
                    u32::MAX
                };
            }
            state.active = true;
            let d = workload_engine_process_decision(settings, state.active_since, now);
            state.decision = Some(d);
            return Some(workload_engine_candidate(process_id, state, d, now));
        }
        return None;
    }
    state.high_since = None;
    if state.active && !state.selected {
        state.active = false;
        state.below_since = None;
        state.active_since = None;
        state.decision = None;
    } else if state.active {
        let active_since = match state.active_since {
            Some(t) => t,
            None => now,
        };
        let minimum = settings.workload_engine_minimum_restraint_seconds as u128 * 1_000_000_000;
        if usage_above_exec(u, restore) || elapsed_nanos(now, active_since) < minimum {
            state.below_since = None;
            let d = workload_engine_process_decision(settings, state.active_since, now);
            state.decision = Some(d);
            return Some(workload_engine_candidate(process_id, state, d, now));
        }
        let below_since = match state.below_since {
            Some(t) => t,
            None => now,
        };
        state.below_since = Some(below_since);
        let cooldown = settings.workload_engine_cooldown_seconds as u128 * 1_000_000_000;
        if elapsed_nanos(now, below_since) < cooldown {
            state.decision = Some(WorkloadEngineDecision::LowerPriority);
            return Some(workload_engine_candidate(process_id, state, WorkloadEngineDecision::LowerPriority, now));
        }
        state.active = false;
        state.selected = false;
        state.below_since = None;
        state.active_since = None;
        state.decision = None;
    }
    None
}

/// What a tracked process is shown as.
#[derive(Debug, Clone, Copy, PartialEq, Eq, Structural)]
pub enum WorkloadEngineProcessState {
    Watching,
    Lowered,
    AffinityRestrained,
    CoolingDown,
}

/// One line of the Workload Engine's process list.
#[derive(Debug, Clone, PartialEq, Eq)]
pub struct WorkloadEngineProcessStatus {
    pub process_id: u32,
    pub process_name: String,
    pub state: WorkloadEngineProcessState,
    pub cpu_usage_tenths: Option<u16>,
    pub elapsed_seconds: Option<u64>,
    pub reaction_millis: Option<u64>,
    pub restraint_count: u32,
}

/// How a tracked process is shown: restrained (cooling down, affinity or
/// lowered) when active and selected, watching while hot, else not shown.
pub open spec fn shown_state(p: WorkloadEngineProcess) -> Option<WorkloadEngineProcessState> {
    if p.active && p.selected {
        if p.below_since is Some {
            Some(WorkloadEngineProcessState::CoolingDown)
        } else if p.decision == Some(WorkloadEngineDecision::RestrictAffinity) {
            Some(WorkloadEngineProcessState::AffinityRestrained)
        } else {
            Some(WorkloadEngineProcessState::Lowered)
        }
    } else if p.high_since is Some {
        Some(WorkloadEngineProcessState::Watching)
    } else {
        None
    }
}

/// The whole seconds a shown process has been in its state.
pub open spec fn shown_elapsed(p: WorkloadEngineProcess, state: WorkloadEngineProcessState, now: u128) -> Option<u64> {
    let started = if state == WorkloadEngineProcessState::Watching {
        p.high_since
    } else if p.active_since is Some {
        p.active_since
    } else {
        p.below_since
    };
    match started {
        Some(t) => Some((elapsed_since(now, t) / 1_000_000_000) as u64),
        None => None,
    }
}

/// Whether a status line describes a tracked process.
pub open spec fn status_of(s: WorkloadEngineProcessStatus, id: u32, p: WorkloadEngineProcess, now: u128) -> bool {
    &&& shown_state(p) == Some(s.state)
    &&& s.process_id == id
    &&& s.process_name@ == p.process_name@
    &&& s.cpu_usage_tenths == p.last_usage_tenths
    &&& s.elapsed_seconds == shown_elapsed(p, s.state, now)
    &&& s.reaction_millis == p.last_reaction_millis
    &&& s.restraint_count == p.restraint_count
}

/// The shown entries of a list of tracked processes, in order.
pub open spec fn shown_entries(ps: Seq<(u32, WorkloadEngineProcess)>) -> Seq<(u32, WorkloadEngineProcess)>
    decreases ps.len(),
{
    if ps.len() == 0 {
        Seq::empty()
    } else if shown_state(ps.last().1) is Some {
        shown_entries(ps.drop_last()).push(ps.last())
    } else {
        shown_entries(ps.drop_last())
    }
}

/// The status lines of the tracked processes that are shown, in order.
pub fn workload_engine_statuses(processes: &Vec<(u32, WorkloadEngineProcess)>, now: u128) -> (r: Vec<
    WorkloadEngineProcessStatus,
>)
    ensures
        r@.len() == shown_entries(processes@).len(),
        forall|k: int|
            0 <= k < r@.len() ==> status_of(
                #[trigger] r@[k],
                shown_entries(processes@)[k].0,
                shown_entries(processes@)[k].1,
                now,
            ),
{
    let mut out: Vec<WorkloadEngineProcessStatus> = Vec::new();
    let mut i: usize = 0;
    while i < processes.len()
        invariant
            i <= processes@.len(),
            out@.len() == shown_entries(processes@.subrange(0, i as int)).len(),
            forall|k: int|
                0 <= k < out@.len() ==> status_of(
                    #[trigger] out@[k],
                    shown_entries(processes@.subrange(0, i as int))[k].0,
                    shown_entries(processes@.subrange(0, i as int))[k].1,
                    now,
                ),
        decreases processes@.len() - i,
    {
        let (id, p) = &processes[i];
        let state = if p.active && p.selected {
            if p.below_since.is_some() {
                Some(WorkloadEngineProcessState::CoolingDown)
            } else if p.decision == Some(WorkloadEngineDecision::RestrictAffinity) {
                Some(WorkloadEngineProcessState::AffinityRestrained)
            } else {
                Some(WorkloadEngineProcessState::Lowered)
            }
        } else if p.high_since.is_some() {
            Some(WorkloadEngineProcessState::Watching)
        } else {
            None
        };
        let ghost before = out@;
        let ghost prefix = processes@.subrange(0, i as int);
        let ghost next = processes@.subrange(0, i + 1);
        proof {
            assert(next.drop_last() =~= prefix);
            assert(next.last() == processes@[i as int]);
        }
        match state {
            Some(st) => {
                let started = if st == WorkloadEngineProcessState::Watching {
                    p.high_since
                } else if p.active_since.is_some() {
                    p.active_since
                } else {
                    p.below_since
                };
                let elapsed = match started {
                    Some(t) => Some((elapsed_nanos(now, t) / 1_000_000_000) as u64),
                    None => None,
                };
                out.push(
                    WorkloadEngineProcessStatus {
                        process_id: *id,
                        process_name: String::from_str(p.process_name.as_str()),
                        state: st,
                        cpu_usage_tenths: p.last_usage_tenths,
                        elapsed_seconds: elapsed,
                        reaction_millis: p.last_reaction_millis,
                        restraint_count: p.restraint_count,
                    },
                );
                proof {
                    assert(shown_entries(next) == shown_entries(prefix).push(processes@[i as int]));
                    assert forall|k: int| 0 <= k < out@.len() implies status_of(
                        #[trigger] out@[k],
                        shown_entries(next)[k].0,
                        shown_entries(next)[k].1,
                        now,
                    ) by {
                        if k < before.len() {
                            assert(out@[k] == before[k]);
                        }
                    }
                }
            },
            None => {
                proof {
                    assert(shown_entries(next) == shown_entries(prefix));
                }
            },
        }
        i = i + 1;
    }
    assert(processes@.subrange(0, processes@.len() as int) =~= processes@);
    out
}

/// The decision of the last selected candidate with the id.
pub open spec fn last_decision_for(selected: Seq<WorkloadEngineCandidate>, id: u32) -> Option<WorkloadEngineDecision>
    decreases selected.len(),
{
    if selected.len() == 0 {
        None
    } else if selected.last().process_id == id {
        Some(selected.last().decision)
    } else {
        last_decision_for(selected.drop_last(), id)
    }
}

/// The decision of the last selected candidate with the id.
pub fn selected_decision(selected: &Vec<WorkloadEngineCandidate>, id: u32) -> (r: Option<WorkloadEngineDecision>)
    ensures
        r == last_decision_for(selected@, id),
{
    let mut i: usize = selected.len();
    proof {
        assert(selected@.subrange(0, selected@.len() as int) =~= selected@);
    }
    while i > 0
        invariant
            i <= selected@.len(),
            last_decision_for(selected@, id) == last_decision_for(selected@.subrange(0, i as int), id),
        decreases i,
    {
        let ghost head = selected@.subrange(0, i as int);
        assert(head.last() == selected@[i - 1]);
        if selected[i - 1].process_id == id {
            return Some(selected[i - 1].decision);
        }
        assert(head.drop_last() =~= selected@.subrange(0, i - 1));
        i = i - 1;
    }
    None
}

/// The foreground app the foreground boost waits to settle on, and since
/// when.
#[derive(Debug, Clone)]
pub struct ForegroundCandidate {
    pub process_id: u32,
    pub process_name: String,
    pub first_seen: u128,
}

/// The state the Workload Engine keeps between passes: its failures,
/// whether CPU pressure holds it on, the processes it tracks (by increasing
/// id), and the foreground app the boost waits on.
pub struct WorkloadEngineManager {
    pub failure_suppression: ExecutionFailureTracker,
    pub workload_engine_pressure_active: bool,
    pub workload_engine: Vec<(u32, WorkloadEngineProcess)>,
    pub foreground_candidate: Option<ForegroundCandidate>,
    pub workload_engine_core_selection: Option<CoreSelection>,
    /// The last CPU sample of the foreground app's processes.
    pub foreground_cpu_sample: Option<GroupCpuSample>,
}

impl WorkloadEngineManager {
    pub closed spec fn wf(&self) -> bool {
        self.failure_suppression.wf()
    }

    /// The failure state per key.
    pub closed spec fn failures(&self) -> Map<Seq<char>, FailureState> {
        self.failure_suppression@
    }

    pub fn new() -> (r: Self)
        ensures
            r.wf(),
            r.failures() == Map::<Seq<char>, FailureState>::empty(),
            !r.workload_engine_pressure_active,
            r.workload_engine@.len() == 0,
            r.foreground_candidate is None,
            r.workload_engine_core_selection is None,
            group_sample_view(r.foreground_cpu_sample) is None,
    {
        WorkloadEngineManager {
            failure_suppression: ExecutionFailureTracker::new(),
            workload_engine_pressure_active: false,
            workload_engine: Vec::new(),
            foreground_candidate: None,
            workload_engine_core_selection: None,
            foreground_cpu_sample: None,
        }
    }

    /// The foreground app's CPU usage since the last pass (see
    /// `group_cpu_usage_step`): `current` is the sample just read for the
    /// foreground process ids.
    pub fn update_foreground_cpu_usage(
        &mut self,
        foreground_process_ids: &Vec<u32>,
        current: Option<ProcessCpuSample>,
        processor_count: u32,
    ) -> (r: Option<CpuUsage>)
        requires
            processor_count >= 1,
        ensures
            final(self).failure_suppression == old(self).failure_suppression,
            final(self).workload_engine_pressure_active == old(self).workload_engine_pressure_active,
            final(self).workload_engine == old(self).workload_engine,
            final(self).foreground_candidate == old(self).foreground_candidate,
            final(self).workload_engine_core_selection == old(self).workload_engine_core_selection,
            foreground_process_ids@.len() == 0 ==> group_sample_view(final(self).foreground_cpu_sample) is None
                && r is None,
            foreground_process_ids@.len() > 0 && current is None ==> group_sample_view(
                final(self).foreground_cpu_sample,
            ) == group_sample_view(old(self).foreground_cpu_sample) && r is None,
            foreground_process_ids@.len() > 0 ==> (current matches Some(c) ==> {
                &&& group_sample_view(final(self).foreground_cpu_sample) == Some((foreground_process_ids@, c))
                &&& r == match group_sample_view(old(self).foreground_cpu_sample) {
                    Some((ids, previous)) => if ids == foreground_process_ids@ {
                        usage_between(previous, c, processor_count)
                    } else {
                        None
                    },
                    None => None,
                }
            }),
    {
        group_cpu_usage_step(&mut self.foreground_cpu_sample, foreground_process_ids, current, processor_count)
    }

    /// The boost candidate as plain values: id, name, first seen.
    pub open spec fn boost_candidate(&self) -> Option<(u32, Seq<char>, u128)> {
        match self.foreground_candidate {
            Some(c) => Some((c.process_id, c.process_name@, c.first_seen)),
            None => None,
        }
    }

    /// Whether the foreground app has stayed the same (by id and name) for
    /// the stability delay (in milliseconds): a launching app (no older than
    /// the launch boost window) counts at once; a new foreground app starts
    /// the wait over.
    pub fn foreground_boost_stable(
        &mut self,
        process_id: u32,
        process_name: &str,
        stability_delay_ms: u64,
        process_age: Option<u128>,
        now: u128,
    ) -> (r: bool)
        ensures
            final(self).failure_suppression == old(self).failure_suppression,
            final(self).workload_engine_pressure_active == old(self).workload_engine_pressure_active,
            final(self).workload_engine == old(self).workload_engine,
            ({
                let fresh = (process_id, process_name@, now);
                let launching = process_age matches Some(a) && a <= FOREGROUND_LAUNCH_BOOST_WINDOW_NANOS;
                let same = old(self).boost_candidate() matches Some(c) && c.0 == process_id && same_name_seq(
                    c.1,
                    process_name@,
                );
                let first_seen = match old(self).boost_candidate() {
                    Some(c) => c.2,
                    None => now,
                };
                if launching {
                    &&& r
                    &&& final(self).boost_candidate() == Some(fresh)
                } else if same {
                    &&& final(self).boost_candidate() == old(self).boost_candidate()
                    &&& r == ((if now >= first_seen { now - first_seen } else { 0 }) / 1_000_000 >= stability_delay_ms)
                } else {
                    &&& !r
                    &&& final(self).boost_candidate() == Some(fresh)
                }
            }),
    {
        let launching = match process_age {
            Some(age) => process_age_in_launch_boost_window(age, FOREGROUND_LAUNCH_BOOST_WINDOW_NANOS),
            None => false,
        };
        if launching {
            self.foreground_candidate = Some(
                ForegroundCandidate { process_id, process_name: String::from_str(process_name), first_seen: now },
            );
            return true;
        }
        let (same, first_seen) = match &self.foreground_candidate {
            Some(c) => (c.process_id == process_id && same_name(c.process_name.as_str(), process_name), c.first_seen),
            None => (false, now),
        };
        if same {
            let elapsed = if now >= first_seen {
                now - first_seen
            } else {
                0
            };
            elapsed / 1_000_000 >= stability_delay_ms as u128
        } else {
            self.foreground_candidate = Some(
                ForegroundCandidate { process_id, process_name: String::from_str(process_name), first_seen: now },
            );
            false
        }
    }

    /// Marks the selected candidates: a tracked process among them becomes
    /// selected with the decision of its last entry; an active tracked
    /// process not among them is deselected and loses its decision; the rest
    /// is unchanged.
    pub fn apply_selection(&mut self, selected: &Vec<WorkloadEngineCandidate>)
        ensures
            final(self).failure_suppression == old(self).failure_suppression,
            final(self).workload_engine_pressure_active == old(self).workload_engine_pressure_active,
            final(self).workload_engine@.len() == old(self).workload_engine@.len(),
            forall|i: int|
                0 <= i < old(self).workload_engine@.len() ==> {
                    let (id, p) = #[trigger] old(self).workload_engine@[i];
                    let q = final(self).workload_engine@[i].1;
                    &&& final(self).workload_engine@[i].0 == id
                    &&& q.process_name == p.process_name
                    &&& q.previous_cpu_time == p.previous_cpu_time
                    &&& q.last_usage_tenths == p.last_usage_tenths
                    &&& q.high_since == p.high_since
                    &&& q.below_since == p.below_since
                    &&& q.active_since == p.active_since
                    &&& q.last_reaction_millis == p.last_reaction_millis
                    &&& q.restraint_count == p.restraint_count
                    &&& q.active == p.active
                    &&& match last_decision_for(selected@, id) {
                        Some(d) => q.selected && q.decision == Some(d),
                        None => if p.active {
                            !q.selected && q.decision is None
                        } else {
                            q.selected == p.selected && q.decision == p.decision
                        },
                    }
                },
    {
        let mut i: usize = 0;
        while i < self.workload_engine.len()
            invariant
                i <= self.workload_engine@.len(),
                self.workload_engine@.len() == old(self).workload_engine@.len(),
                self.failure_suppression == old(self).failure_suppression,
                self.workload_engine_pressure_active == old(self).workload_engine_pressure_active,
                forall|j: int| i <= j < self.workload_engine@.len() ==> self.workload_engine@[j] == old(self).workload_engine@[j],
                forall|j: int|
                    0 <= j < i ==> {
                        let (id, p) = #[trigger] old(self).workload_engine@[j];
                        let q = self.workload_engine@[j].1;
                        &&& self.workload_engine@[j].0 == id
                        &&& q.process_name == p.process_name
                        &&& q.previous_cpu_time == p.previous_cpu_time
                        &&& q.last_usage_tenths == p.last_usage_tenths
                        &&& q.high_since == p.high_since
                        &&& q.below_since == p.below_since
                        &&& q.active_since == p.active_since
                        &&& q.last_reaction_millis == p.last_reaction_millis
                        &&& q.restraint_count == p.restraint_count
                        &&& q.active == p.active
                        &&& match last_decision_for(selected@, id) {
                            Some(d) => q.selected && q.decision == Some(d),
                            None => if p.active {
                                !q.selected && q.decision is None
                            } else {
                                q.selected == p.selected && q.decision == p.decision
                            },
                        }
                    },
            decreases self.workload_engine@.len() - i,
        {
            let id = self.workload_engine[i].0;
            let decision = selected_decision(selected, id);
            match decision {
                Some(d) => {
                    self.workload_engine[i].1.selected = true;
                    self.workload_engine[i].1.decision = Some(d);
                },
                None => {
                    if self.workload_engine[i].1.active {
                        self.workload_engine[i].1.selected = false;
                        self.workload_engine[i].1.decision = None;
                    }
                },
            }
            i = i + 1;
        }
    }

    /// Forgets the tracked processes that are no longer listed.
    pub fn retain_current_processes(&mut self, current_ids: &Vec<u32>)
        ensures
            final(self).failure_suppression == old(self).failure_suppression,
            final(self).workload_engine_pressure_active == old(self).workload_engine_pressure_active,
            final(self).workload_engine@ == old(self).workload_engine@.filter(
                |e: (u32, WorkloadEngineProcess)| current_ids@.contains(e.0),
            ),
    {
        let ghost keep = |e: (u32, WorkloadEngineProcess)| current_ids@.contains(e.0);
        let ghost all = self.workload_engine@;
        let n: usize = self.workload_engine.len();
        let mut k: usize = 0;
        let mut j: usize = 0;
        proof {
            reveal(Seq::filter);
            assert(all.subrange(0, 0).filter(keep) =~= Seq::<(u32, WorkloadEngineProcess)>::empty());
            assert(self.workload_engine@ =~= all.subrange(0, 0).filter(keep) + all.subrange(0, all.len() as int));
        }
        while j < self.workload_engine.len()
            invariant
                k <= all.len(),
                all.len() == n,
                j == all.subrange(0, k as int).filter(keep).len(),
                self.workload_engine@ == all.subrange(0, k as int).filter(keep) + all.subrange(k as int, all.len() as int),
                self.failure_suppression == old(self).failure_suppression,
                self.workload_engine_pressure_active == old(self).workload_engine_pressure_active,
                all == old(self).workload_engine@,
                keep == (|e: (u32, WorkloadEngineProcess)| current_ids@.contains(e.0)),
            decreases all.len() - k,
        {
            let ghost before = self.workload_engine@;
            let ghost pre = all.subrange(0, k as int).filter(keep);
            proof {
                assert(before.len() == j + (all.len() - k));
                assert(k < all.len());
                assert(before[j as int] == all[k as int]);
                assert(all.subrange(0, k + 1).drop_last() =~= all.subrange(0, k as int));
                assert(all.subrange(0, k + 1).last() == all[k as int]);
                reveal(Seq::filter);
            }
            if contains_id(current_ids, self.workload_engine[j].0) {
                proof {
                    assert(all.subrange(0, k + 1).filter(keep) == pre.push(all[k as int]));
                    assert(self.workload_engine@ =~= all.subrange(0, k + 1).filter(keep) + all.subrange(
                        k + 1,
                        all.len() as int,
                    ));
                }
                j = j + 1;
            } else {
                let _ = self.workload_engine.remove(j);
                proof {
                    assert(all.subrange(0, k + 1).filter(keep) == pre);
                    assert(self.workload_engine@ =~= all.subrange(0, k + 1).filter(keep) + all.subrange(
                        k + 1,
                        all.len() as int,
                    ));
                }
            }
            k = k + 1;
        }
        proof {
            assert(k == all.len()) by {
                if k < all.len() {
                    assert(self.workload_engine@.len() == j + (all.len() - k));
                }
            }
            assert(all.subrange(0, all.len() as int) =~= all);
            assert(self.workload_engine@ =~= all.filter(keep));
        }
    }

    /// Stops the engine: forgets every tracked process, the pressure hold and
    /// the core selection.
    pub fn clear_engine(&mut self)
        ensures
            final(self).failure_suppression == old(self).failure_suppression,
            !final(self).workload_engine_pressure_active,
            final(self).workload_engine@.len() == 0,
            final(self).workload_engine_core_selection is None,
            final(self).foreground_candidate == old(self).foreground_candidate,
    {
        self.workload_engine.clear();
        self.workload_engine_pressure_active = false;
        self.workload_engine_core_selection = None;
    }

    /// The least-loaded processors restrained processes are confined to,
    /// kept stable between passes (see `core_choice`); `None` without a load
    /// reading or eligible processors (the selection is kept).
    pub fn load_aware_workload_engine_core_mask(
        &mut self,
        processors: &Vec<LogicalProcessorInfo>,
        loads: Option<&Vec<i64>>,
        percent: u8,
        max_logical_processors: u8,
        now: u128,
    ) -> (r: Option<u64>)
        requires
            processors@.len() <= 0xFFFF_FFFF,
        ensures
            final(self).failure_suppression == old(self).failure_suppression,
            final(self).workload_engine == old(self).workload_engine,
            final(self).workload_engine_pressure_active == old(self).workload_engine_pressure_active,
            match loads {
                None => r is None && final(self).workload_engine_core_selection == old(self).workload_engine_core_selection,
                Some(l) => match engine_load_mask_spec(processors@, l@, percent, max_logical_processors) {
                    None => r is None && final(self).workload_engine_core_selection
                        == old(self).workload_engine_core_selection,
                    Some(next) => {
                        let choice = core_choice(old(self).workload_engine_core_selection, next, None, l@, now);
                        r == Some(choice.0) && final(self).workload_engine_core_selection == Some(choice.1)
                    },
                },
            },
    {
        let loads = match loads {
            Some(l) => l,
            None => {
                return None;
            },
        };
        let next = match load_aware_limited_core_mask(processors, loads, percent, max_logical_processors) {
            Some(m) => m,
            None => {
                return None;
            },
        };
        let (mask, selection) = choose_core_mask(self.workload_engine_core_selection, next, None, loads, now);
        self.workload_engine_core_selection = Some(selection);
        Some(mask)
    }

    /// The processors restrained processes are confined to: none at a
    /// share of 100% or more; with soft CPU sets the load-aware choice when
    /// there is one; else the efficiency-preferred mask.
    pub fn workload_engine_core_mask(
        &mut self,
        settings: &WorkloadEngineSettings,
        foreground_cpu_usage: Option<i64>,
        processors: &Vec<LogicalProcessorInfo>,
        loads: Option<&Vec<i64>>,
        now: u128,
    ) -> (r: Option<u64>)
        requires
            processors@.len() <= 0xFFFF_FFFF,
        ensures
            final(self).failure_suppression == old(self).failure_suppression,
            final(self).workload_engine == old(self).workload_engine,
            ({
                let percent = effective_percent_spec(*settings, foreground_cpu_usage, has_efficiency(processors@));
                let soft = (if settings.lower_background_auto_cpu_percent {
                    CpuRestrictionMode::SoftCpuSets
                } else {
                    settings.workload_engine_affinity_mode
                }) == CpuRestrictionMode::SoftCpuSets;
                let load_aware = match loads {
                    Some(l) => engine_load_mask_spec(processors@, l@, percent as u8, settings.workload_engine_max_logical_processors),
                    None => None,
                };
                if percent >= 100 {
                    r is None && final(self).workload_engine_core_selection == old(self).workload_engine_core_selection
                } else if soft && load_aware is Some {
                    let choice = core_choice(
                        old(self).workload_engine_core_selection,
                        load_aware->0,
                        None,
                        loads->0@,
                        now,
                    );
                    r == Some(choice.0) && final(self).workload_engine_core_selection == Some(choice.1)
                } else {
                    &&& final(self).workload_engine_core_selection == old(self).workload_engine_core_selection
                    &&& processors@.len() == 0 ==> r is None
                    &&& processors@.len() > 0 ==> exists|s: Seq<usize>|
                        {
                            &&& increasing_indices(s)
                            &&& s.to_set() == preferred_indices(processors@)
                            &&& r == ({
                                let mask = prefix_mask(
                                    s,
                                    limited_count_spec(s.len(), percent as u8, settings.workload_engine_max_logical_processors)
                                        as int,
                                );
                                if s.len() == 0 || mask == 0 {
                                    None::<u64>
                                } else {
                                    Some(mask)
                                }
                            })
                        }
                }
            }),
    {
        let has_e = has_efficiency_cores(processors);
        let percent = workload_engine_effective_cpu_percent_for_topology(settings, foreground_cpu_usage, has_e);
        if percent >= 100 {
            return None;
        }
        if workload_engine_effective_restriction_mode(settings) == CpuRestrictionMode::SoftCpuSets {
            if let Some(mask) = self.load_aware_workload_engine_core_mask(
                processors,
                loads,
                percent,
                settings.workload_engine_max_logical_processors,
                now,
            ) {
                return Some(mask);
            }
        }
        limited_efficiency_preferred_core_mask(processors, percent, settings.workload_engine_max_logical_processors)
    }

    /// Counts one more failure for the process name.
    pub fn record_process_failure(&mut self, process_name: &str)
        requires
            old(self).wf(),
        ensures
            final(self).wf(),
            final(self).failures() == model_record(old(self).failures(), failure_key(process_name@)),
    {
        self.failure_suppression.record_process_failure(process_name);
    }

    /// Forgets the failures of the process name.
    pub fn clear_process_failure(&mut self, process_name: &str)
        requires
            old(self).wf(),
        ensures
            final(self).wf(),
            final(self).failures() == old(self).failures().remove(failure_key(process_name@)),
    {
        self.failure_suppression.clear_process_failure(process_name);
    }

    /// Whether the process name is suppressed; the first time it is, adds its
    /// failure key to the auto-excluded set and logs that the Workload Engine
    /// stopped retrying it, under the trimmed name.
    pub fn is_process_suppressed(
        &mut self,
        process_id: u32,
        process_name: &str,
        action_log: &mut ActionLog,
        auto_excluded_processes: &mut Vec<String>,
    ) -> (r: bool)
        requires
            old(self).wf(),
            old(action_log).wf(),
            strictly_sorted(string_views(old(auto_excluded_processes)@)),
        ensures
            final(self).wf(),
            final(action_log).wf(),
            strictly_sorted(string_views(final(auto_excluded_processes)@)),
            r == model_suppressed(old(self).failures(), failure_key(process_name@)),
            final(self).failures() == model_after_check(old(self).failures(), failure_key(process_name@)),
            model_newly_suppressed(old(self).failures(), failure_key(process_name@)) ==> {
                &&& string_views(final(auto_excluded_processes)@).to_set() == string_views(
                    old(auto_excluded_processes)@,
                ).to_set().insert(crate::foreground::process_list::path_key(process_name@))
                &&& final(action_log).view_entries() == crate::action_log::log_after(
                    old(action_log).view_entries(),
                    old(action_log).capacity_spec(),
                    ActionLogEntryView {
                        feature: ActionLogFeature::WorkloadEngine,
                        process_id: Some(process_id),
                        process_name: trim_seq(process_name@),
                        action: crate::action_log::action_of_result(ActionLogResult::Skipped),
                        result: ActionLogResult::Skipped,
                        reason: crate::rules::stopped_retrying_message("Workload Engine"@),
                    },
                )
            },
            !model_newly_suppressed(old(self).failures(), failure_key(process_name@)) ==> {
                &&& final(auto_excluded_processes)@ == old(auto_excluded_processes)@
                &&& final(action_log).view_entries() == old(action_log).view_entries()
            },
    {
        let suppression = check_and_report_suppression(
            &mut self.failure_suppression,
            action_log,
            ActionLogFeature::WorkloadEngine,
            "Workload Engine",
            process_id,
            trim(process_name),
            process_name,
        );
        if suppression.newly_suppressed {
            let key = process_failure_key(process_name);
            insert_sorted_unique(auto_excluded_processes, key.as_str());
        }
        suppression.suppressed
    }

    /// Whether the engine runs this pass: off when disabled; it starts under
    /// CPU pressure, and once on it stays on while pressure stays above the
    /// restore level.
    pub fn update_workload_engine_pressure(
        &mut self,
        settings: &WorkloadEngineSettings,
        foreground_cpu_usage: Option<i64>,
        total_cpu_usage: Option<i64>,
    ) -> (r: bool)
        ensures
            r == (settings.workload_engine_enabled && (pressure(*settings, foreground_cpu_usage, total_cpu_usage)
                || old(self).workload_engine_pressure_active && pressure_remains(
                *settings,
                foreground_cpu_usage,
                total_cpu_usage,
            ))),
            final(self).workload_engine_pressure_active == r,
            final(self).failure_suppression == old(self).failure_suppression,
            final(self).workload_engine == old(self).workload_engine,
    {
        if !settings.workload_engine_enabled {
            self.workload_engine_pressure_active = false;
            return false;
        }
        if workload_engine_should_run(settings, foreground_cpu_usage, total_cpu_usage) {
            self.workload_engine_pressure_active = true;
            return true;
        }
        if self.workload_engine_pressure_active && cpu_pressure_above_restore_threshold(
            settings,
            foreground_cpu_usage,
            total_cpu_usage,
        ) {
            return true;
        }
        self.workload_engine_pressure_active = false;
        false
    }
}

impl Default for WorkloadEngineManager {
    fn default() -> (r: Self)
        ensures
            r.wf(),
            r.failures() == Map::<Seq<char>, FailureState>::empty(),
            !r.workload_engine_pressure_active,
            r.workload_engine@.len() == 0,
    {
        WorkloadEngineManager::new()
    }
}

/// Law: the foreground alone saturating the CPU never counts as pressure,
/// whatever the system usage.
pub proof fn law_saturated_foreground_is_not_pressure(
    settings: WorkloadEngineSettings,
    foreground: Option<i64>,
    total: Option<i64>,
)
    requires
        saturates(foreground),
    ensures
        !pressure(settings, foreground, total),
        !pressure_remains(settings, foreground, total),
{
}

/// Law: the restore level never lies above the trigger, so pressure that
/// starts the engine also keeps it on.
pub proof fn law_pressure_implies_remains(
    settings: WorkloadEngineSettings,
    foreground: Option<i64>,
    total: Option<i64>,
)
    ensures
        pressure(settings, foreground, total) ==> pressure_remains(settings, foreground, total),
{
}

/// Law: the CPU share restrained processes keep stays between the minimum
/// share and 100%.
pub proof fn law_effective_percent_bounds(
    settings: WorkloadEngineSettings,
    foreground: Option<i64>,
    has_efficiency_cores: bool,
)
    ensures
        minimum_percent_spec(settings, has_efficiency_cores) <= effective_percent_spec(
            settings,
            foreground,
            has_efficiency_cores,
        ) <= 100,
{
}

/// What a Workload Engine pass reports.
pub struct WorkloadEngineSnapshot {
    pub enabled: bool,
    pub scanned_processes: usize,
    pub background_adjusted_processes: usize,
    pub timer_resolution_ignored_processes: usize,
    pub foreground_boosted_process: Option<String>,
    pub launch_boost_active: bool,
    pub workload_engine_active: bool,
    pub workload_managed_processes: usize,
    pub workload_engine_message: String,
    pub workload_engine_total_cpu_usage_tenths: Option<u16>,
    pub adaptive_power_profile: Option<String>,
    pub skipped_processes: usize,
    pub failed_processes: usize,
    pub adjusted_apps: Vec<String>,
    pub auto_excluded_processes: Vec<String>,
    pub message: String,
    pub last_error: Option<String>,
}

/// Why a Workload Engine pass adjusts nothing: automation off, the engine
/// off (both turn it off), or an unknown session (a pause).
#[derive(Debug, Clone, Copy, PartialEq, Eq, Structural)]
pub enum WorkloadEngineHold {
    AutomationDisabled,
    FeatureDisabled,
    SessionUnknown,
}

/// The message of a held Workload Engine pass.
pub open spec fn engine_hold_message(hold: WorkloadEngineHold) -> Seq<char> {
    match hold {
        WorkloadEngineHold::AutomationDisabled => "Automation disabled."@,
        WorkloadEngineHold::FeatureDisabled => "Workload Engine disabled."@,
        WorkloadEngineHold::SessionUnknown => "Paused: current Windows session is unknown."@,
    }
}

/// The reason every adjustment is released with on a held pass.
pub open spec fn engine_hold_reason(hold: WorkloadEngineHold) -> Seq<char> {
    match hold {
        WorkloadEngineHold::AutomationDisabled => "automation disabled"@,
        WorkloadEngineHold::FeatureDisabled => "Workload Engine disabled"@,
        WorkloadEngineHold::SessionUnknown => "current Windows session is unknown"@,
    }
}

impl WorkloadEngineHold {
    /// Whether the hold turns the engine off (and forgets the failures).
    pub fn turns_off(&self) -> (r: bool)
        ensures
            r == !(*self is SessionUnknown),
    {
        match self {
            WorkloadEngineHold::SessionUnknown => false,
            _ => true,
        }
    }

    /// The reason every adjustment is released with.
    pub fn reason(&self) -> (r: &'static str)
        ensures
            r@ == engine_hold_reason(*self),
    {
        match self {
            WorkloadEngineHold::AutomationDisabled => "automation disabled",
            WorkloadEngineHold::FeatureDisabled => "Workload Engine disabled",
            WorkloadEngineHold::SessionUnknown => "current Windows session is unknown",
        }
    }
}

/// The hold a Workload Engine pass starts with, if any: automation off, the
/// feature off (`settings.enabled`), or this process's session unknown.
pub fn workload_engine_hold(
    automation_enabled: bool,
    settings: &WorkloadEngineSettings,
    current_session_id: Option<u32>,
) -> (r: Option<WorkloadEngineHold>)
    ensures
        r == if !automation_enabled {
            Some(WorkloadEngineHold::AutomationDisabled)
        } else if !settings.enabled {
            Some(WorkloadEngineHold::FeatureDisabled)
        } else if current_session_id is None {
            Some(WorkloadEngineHold::SessionUnknown)
        } else {
            None
        },
{
    if !automation_enabled {
        Some(WorkloadEngineHold::AutomationDisabled)
    } else if !settings.enabled {
        Some(WorkloadEngineHold::FeatureDisabled)
    } else if current_session_id.is_none() {
        Some(WorkloadEngineHold::SessionUnknown)
    } else {
        None
    }
}

/// A report with nothing adjusted, scanned or active.
fn idle_engine_snapshot(enabled: bool, message: String, failures: PriorityFailures) -> (r: WorkloadEngineSnapshot)
    ensures
        r.enabled == enabled,
        r.scanned_processes == 0 && r.background_adjusted_processes == 0 && r.timer_resolution_ignored_processes
            == 0 && r.workload_managed_processes == 0 && r.skipped_processes == 0,
        r.foreground_boosted_process is None,
        !r.launch_boost_active && !r.workload_engine_active,
        r.workload_engine_message@ == "Workload Engine disabled."@,
        r.workload_engine_total_cpu_usage_tenths is None,
        r.adaptive_power_profile is None,
        r.adjusted_apps@.len() == 0 && r.auto_excluded_processes@.len() == 0,
        r.failed_processes == failures.count,
        r.message@ == message@,
        r.last_error == failures.last_error,
{
    WorkloadEngineSnapshot {
        enabled,
        scanned_processes: 0,
        background_adjusted_processes: 0,
        timer_resolution_ignored_processes: 0,
        foreground_boosted_process: None,
        launch_boost_active: false,
        workload_engine_active: false,
        workload_managed_processes: 0,
        workload_engine_message: String::from_str("Workload Engine disabled."),
        workload_engine_total_cpu_usage_tenths: None,
        adaptive_power_profile: None,
        skipped_processes: 0,
        failed_processes: failures.count,
        adjusted_apps: Vec::new(),
        auto_excluded_processes: Vec::new(),
        message,
        last_error: failures.last_error,
    }
}

impl WorkloadEngineManager {
    /// Forgets what a pass carries to the next once every adjustment was
    /// released: the boost candidate, the foreground CPU sample, the tracked
    /// processes and the pressure.
    fn forget_pass_state(&mut self)
        ensures
            final(self).failure_suppression == old(self).failure_suppression,
            final(self).workload_engine_core_selection == old(self).workload_engine_core_selection,
            final(self).foreground_candidate is None,
            group_sample_view(final(self).foreground_cpu_sample) is None,
            final(self).workload_engine@.len() == 0,
            !final(self).workload_engine_pressure_active,
    {
        self.foreground_candidate = None;
        self.foreground_cpu_sample = None;
        self.workload_engine = Vec::new();
        self.workload_engine_pressure_active = false;
    }

    /// Ends a held pass once every adjustment was released with the hold's
    /// reason (`failures` are the release's): the pass state is forgotten,
    /// and so is every failure when the hold turns the engine off. The
    /// report: enabled unless turned off, the hold's message, the release's
    /// failures, nothing scanned, adjusted or active.
    pub fn hold_snapshot(&mut self, hold: WorkloadEngineHold, failures: PriorityFailures) -> (r: WorkloadEngineSnapshot)
        requires
            old(self).wf(),
        ensures
            final(self).wf(),
            final(self).failures() == if hold is SessionUnknown {
                old(self).failures()
            } else {
                Map::<Seq<char>, FailureState>::empty()
            },
            final(self).foreground_candidate is None,
            group_sample_view(final(self).foreground_cpu_sample) is None,
            final(self).workload_engine@.len() == 0,
            !final(self).workload_engine_pressure_active,
            r.enabled == (hold is SessionUnknown),
            r.scanned_processes == 0 && r.background_adjusted_processes == 0 && r.workload_managed_processes == 0
                && r.skipped_processes == 0,
            !r.launch_boost_active && !r.workload_engine_active,
            r.foreground_boosted_process is None,
            r.failed_processes == failures.count,
            r.message@ == engine_hold_message(hold),
            r.last_error == failures.last_error,
    {
        self.forget_pass_state();
        let off = hold.turns_off();
        if off {
            self.failure_suppression.clear();
        }
        let message = match hold {
            WorkloadEngineHold::AutomationDisabled => "Automation disabled.",
            WorkloadEngineHold::FeatureDisabled => "Workload Engine disabled.",
            WorkloadEngineHold::SessionUnknown => "Paused: current Windows session is unknown.",
        };
        idle_engine_snapshot(!off, String::from_str(message), failures)
    }

    /// Ends a pass whose process list could not be read, once every
    /// adjustment was released with reason `process list unavailable`: the
    /// pass state is forgotten, the failures kept. The report: enabled, the
    /// list's error as message, the release's failures, nothing scanned.
    pub fn list_unavailable_snapshot(&mut self, error: String, failures: PriorityFailures) -> (r: WorkloadEngineSnapshot)
        requires
            old(self).wf(),
        ensures
            final(self).wf(),
            final(self).failures() == old(self).failures(),
            final(self).foreground_candidate is None,
            final(self).workload_engine@.len() == 0,
            !final(self).workload_engine_pressure_active,
            r.enabled,
            r.scanned_processes == 0 && r.background_adjusted_processes == 0 && r.workload_managed_processes == 0
                && r.skipped_processes == 0,
            !r.launch_boost_active && !r.workload_engine_active,
            r.failed_processes == failures.count,
            r.message@ == error@,
            r.last_error == failures.last_error,
    {
        self.forget_pass_state();
        idle_engine_snapshot(true, error, failures)
    }
}

} // verus!
