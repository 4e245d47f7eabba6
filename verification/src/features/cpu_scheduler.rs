//! CPU Scheduler: which processes it leaves alone, when CPU pressure starts
//! and ends its restraint, which tier a process is restrained as, which
//! candidates are restrained, and which processors they are confined to.
use std::collections::BTreeMap;
use vstd::prelude::*;

use crate::action_log::{ActionLog, ActionLogEntryView, ActionLogFeature, ActionLogResult};
use crate::config::{
    BackgroundProcessorSelection, CpuAllocationMethod, CpuSchedulerSettings, ProcessMemoryPriority,
    ProcessMemoryPrioritySetting,
};
use crate::cpu::{
    elapsed_nanos, elapsed_since, percent_tenths, percent_tenths_spec, process_cpu_demand_percent, usage_above,
    usage_above_exec, usage_at_least, usage_at_least_exec, CpuUsage, ProcessCpuSample, group_cpu_usage_step,
    group_sample_view, usage_between, GroupCpuSample,
};
use crate::cpu_allocation::{
    all_mask, indices_mask, kind_mask, least_loaded_mask, least_loaded_processor_mask, logical_processor_indices_mask,
    logical_processor_kind_mask, logical_processor_mask, logical_processor_no_smt_mask, no_smt_mask,
    CpuAllocationMode, LoadedProcessor, LogicalProcessorInfo, LogicalProcessorKind, choose_core_mask, core_choice,
    CoreSelection,
};
use crate::features::candidates::{select_highest_scored, ScoredCandidate};
use crate::foreground::process_list::{
    contains_id, contains_process_name, count_label, extended_builtin_exclusions,
    extended_builtin_process_exclusions, list_contains_name, process_count_label,
};
use crate::power::plan::at_least;
use crate::priority_class::{class_of_setting, priority_class_label, PriorityClassPreservation, PriorityClassValue};
use crate::features::process_control::{control_error_text, PriorityFailures, ProcessControlError, ProcessPropertyApplyOutcome};
use crate::action_log::{action_of_result, log_after};
use crate::foreground::process_list::{same_executable_path, same_executable_path_spec, CanonicalPath, CanonicalPaths, ProcessInfo};
use crate::rules::model_suppress;
use crate::text::{same_name, same_name_seq};
use crate::rules::{
    check_and_report_suppression, failure_key, model_after_check, model_newly_suppressed, model_record,
    model_suppressed, ExecutionFailureTracker, FailureState,
};
use crate::text::{insert_sorted_unique, string_views, strictly_sorted, trim, trim_seq};

verus! {

/// How far below the trigger CPU pressure must fall before restraint stops.
pub const CPU_SCHEDULER_RECOVERY_BAND_PERCENT: u8 = 5;

/// The score bonus that keeps an already selected process selected.
pub const CPU_SCHEDULER_SELECTION_STICKINESS_TENTHS: u32 = 50;

/// The least time between two logged apply summaries, in nanoseconds.
pub const BACKGROUND_APPLY_SUMMARY_LOG_INTERVAL_NANOS: u128 = 30_000_000_000;

/// How long after its start a process counts as launching, in nanoseconds.
pub const FOCUS_AND_LAUNCH_PROFILE_WINDOW_NANOS: u128 = 8_000_000_000;

/// Whether the CPU Scheduler always leaves the process alone.
pub fn is_builtin_excluded(process_name: &str) -> (r: bool)
    ensures
        r == list_contains_name(extended_builtin_exclusions(), process_name@),
{
    let list = extended_builtin_process_exclusions();
    contains_process_name(list.as_slice(), process_name)
}

/// Whether the process is the foreground process or in its process group.
pub fn should_skip_foreground_process(
    process_id: u32,
    foreground_process_id: Option<u32>,
    foreground_process_group_ids: &Vec<u32>,
) -> (r: bool)
    ensures
        r == (foreground_process_id == Some(process_id) || foreground_process_group_ids@.contains(process_id)),
{
    let is_foreground = match foreground_process_id {
        Some(id) => id == process_id,
        None => false,
    };
    is_foreground || contains_id(foreground_process_group_ids, process_id)
}

/// Whether a process may get the focus priority: it has a name, is neither
/// the idle process nor this one, is not excluded, and runs in this session.
pub fn focus_process_priority_eligible(
    process_id: u32,
    process_name: &str,
    current_process_id: u32,
    current_session_id: u32,
    process_session_id: Option<u32>,
) -> (r: bool)
    ensures
        r == (trim_seq(process_name@).len() > 0 && process_id != 0 && process_id != current_process_id
            && !list_contains_name(extended_builtin_exclusions(), trim_seq(process_name@))
            && process_session_id == Some(current_session_id)),
{
    let name = trim(process_name);
    let same_session = match process_session_id {
        Some(s) => s == current_session_id,
        None => false,
    };
    name.unicode_len() > 0 && process_id != 0 && process_id != current_process_id && !is_builtin_excluded(name)
        && same_session
}

/// Whether the CPU Scheduler leaves a process alone: the idle process, this
/// process, one that Background Efficiency manages, a built-in exclusion, or
/// the foreground group.
pub fn should_skip_process(
    process_id: u32,
    process_name: &str,
    current_process_id: u32,
    foreground_process_id: Option<u32>,
    foreground_process_group_ids: &Vec<u32>,
    background_efficiency_process_ids: &Vec<u32>,
) -> (r: bool)
    ensures
        r == (process_id == 0 || process_id == current_process_id || background_efficiency_process_ids@.contains(
            process_id,
        ) || list_contains_name(extended_builtin_exclusions(), process_name@) || foreground_process_id == Some(
            process_id,
        ) || foreground_process_group_ids@.contains(process_id)),
{
    process_id == 0 || process_id == current_process_id || contains_id(background_efficiency_process_ids, process_id)
        || is_builtin_excluded(process_name) || should_skip_foreground_process(
        process_id,
        foreground_process_id,
        foreground_process_group_ids,
    )
}

/// Whether the CPU Scheduler may restrain a listed process: verifiably not
/// critical, its information settable, not left alone (see
/// `should_skip_process`), and in this session unless cross-session control
/// is allowed.
pub open spec fn restrainable(
    p: ProcessInfo,
    current_process_id: u32,
    foreground_process_id: Option<u32>,
    foreground_process_group_ids: Seq<u32>,
    excluded_process_ids: Seq<u32>,
    allow_cross_session_process_control: bool,
    current_session_id: u32,
) -> bool {
    &&& p.is_critical == Some(false)
    &&& p.can_set_information
    &&& !(p.id == 0 || p.id == current_process_id || excluded_process_ids.contains(p.id) || list_contains_name(
        extended_builtin_exclusions(),
        p.name@,
    ) || foreground_process_id == Some(p.id) || foreground_process_group_ids.contains(p.id))
    &&& (allow_cross_session_process_control || p.session_id == Some(current_session_id))
}

/// The tier a restrainable process is restrained as: a visible window's
/// group, or the background.
pub open spec fn tier_of(p: ProcessInfo, visible_window_process_group_ids: Seq<u32>) -> CpuSchedulerTier {
    if visible_window_process_group_ids.contains(p.id) {
        CpuSchedulerTier::VisibleWindow
    } else {
        CpuSchedulerTier::Background
    }
}

/// The restrainable processes by id, with name and tier, as a map filled in
/// list order (a repeated id keeps its last entry).
pub open spec fn restrainable_map(
    ps: Seq<ProcessInfo>,
    current_process_id: u32,
    foreground_process_id: Option<u32>,
    foreground_process_group_ids: Seq<u32>,
    excluded_process_ids: Seq<u32>,
    allow_cross_session_process_control: bool,
    current_session_id: u32,
    visible_window_process_group_ids: Seq<u32>,
) -> Map<u32, (Seq<char>, CpuSchedulerTier)>
    decreases ps.len(),
{
    if ps.len() == 0 {
        Map::empty()
    } else {
        let m = restrainable_map(
            ps.drop_last(),
            current_process_id,
            foreground_process_id,
            foreground_process_group_ids,
            excluded_process_ids,
            allow_cross_session_process_control,
            current_session_id,
            visible_window_process_group_ids,
        );
        let p = ps.last();
        if restrainable(
            p,
            current_process_id,
            foreground_process_id,
            foreground_process_group_ids,
            excluded_process_ids,
            allow_cross_session_process_control,
            current_session_id,
        ) {
            m.insert(p.id, (p.name@, tier_of(p, visible_window_process_group_ids)))
        } else {
            m
        }
    }
}

/// The processes the CPU Scheduler may restrain this pass, by id, with name
/// and tier (see `restrainable_map`).
pub fn restrainable_processes(
    processes: &Vec<ProcessInfo>,
    current_process_id: u32,
    foreground_process_id: Option<u32>,
    foreground_process_group_ids: &Vec<u32>,
    excluded_process_ids: &Vec<u32>,
    allow_cross_session_process_control: bool,
    current_session_id: u32,
    visible_window_process_group_ids: &Vec<u32>,
) -> (r: BTreeMap<u32, (String, CpuSchedulerTier)>)
    ensures
        r@.map_values(|v: (String, CpuSchedulerTier)| (v.0@, v.1)) == restrainable_map(
            processes@,
            current_process_id,
            foreground_process_id,
            foreground_process_group_ids@,
            excluded_process_ids@,
            allow_cross_session_process_control,
            current_session_id,
            visible_window_process_group_ids@,
        ),
{
    proof {
        broadcast use vstd::std_specs::btree::group_btree_axioms;
    }
    let mut out: BTreeMap<u32, (String, CpuSchedulerTier)> = BTreeMap::new();
    let mut i: usize = 0;
    proof {
        assert(out@.map_values(|v: (String, CpuSchedulerTier)| (v.0@, v.1)) =~= Map::<
            u32,
            (Seq<char>, CpuSchedulerTier),
        >::empty());
    }
    while i < processes.len()
        invariant
            i <= processes@.len(),
            out@.map_values(|v: (String, CpuSchedulerTier)| (v.0@, v.1)) == restrainable_map(
                processes@.subrange(0, i as int),
                current_process_id,
                foreground_process_id,
                foreground_process_group_ids@,
                excluded_process_ids@,
                allow_cross_session_process_control,
                current_session_id,
                visible_window_process_group_ids@,
            ),
        decreases processes@.len() - i,
    {
        let p = &processes[i];
        let ghost next = processes@.subrange(0, i + 1);
        proof {
            assert(next.drop_last() =~= processes@.subrange(0, i as int));
            assert(next.last() == processes@[i as int]);
        }
        let same_session = match p.session_id {
            Some(sid) => sid == current_session_id,
            None => false,
        };
        if p.is_critical == Some(false) && p.can_set_information && !should_skip_process(
            p.id,
            p.name.as_str(),
            current_process_id,
            foreground_process_id,
            foreground_process_group_ids,
            excluded_process_ids,
        ) && (allow_cross_session_process_control || same_session) {
            let tier = if contains_id(visible_window_process_group_ids, p.id) {
                CpuSchedulerTier::VisibleWindow
            } else {
                CpuSchedulerTier::Background
            };
            let ghost before = out@.map_values(|v: (String, CpuSchedulerTier)| (v.0@, v.1));
            let name = String::from_str(p.name.as_str());
            let ghost entry = (name@, tier);
            out.insert(p.id, (name, tier));
            proof {
                assert(out@.map_values(|v: (String, CpuSchedulerTier)| (v.0@, v.1)) =~= before.insert(p.id, entry));
            }
        }
        i = i + 1;
    }
    proof {
        assert(processes@.subrange(0, processes@.len() as int) =~= processes@);
    }
    out
}

/// The pressure trigger, capped at 100%.
pub open spec fn trigger_percent(settings: CpuSchedulerSettings) -> int {
    if settings.foreground_or_system_cpu_threshold_percent < 100 {
        settings.foreground_or_system_cpu_threshold_percent as int
    } else {
        100
    }
}

/// The level pressure must fall below before restraint stops.
pub open spec fn recovery_percent(settings: CpuSchedulerSettings) -> int {
    if trigger_percent(settings) >= CPU_SCHEDULER_RECOVERY_BAND_PERCENT {
        trigger_percent(settings) - CPU_SCHEDULER_RECOVERY_BAND_PERCENT
    } else {
        0
    }
}

/// Pressure starts when the foreground or the system CPU usage reaches the
/// trigger, and only when restraint or processor limiting is on.
pub open spec fn pressure_starts(settings: CpuSchedulerSettings, foreground: Option<i64>, total: Option<i64>) -> bool {
    (settings.cpu_pressure_restraint_enabled || settings.limit_background_processors_enabled) && (at_least(
        foreground,
        trigger_percent(settings) * 1000,
    ) || at_least(total, trigger_percent(settings) * 1000))
}

/// Pressure stays above the recovery level.
pub open spec fn pressure_holds(settings: CpuSchedulerSettings, foreground: Option<i64>, total: Option<i64>) -> bool {
    at_least(foreground, recovery_percent(settings) * 1000) || at_least(total, recovery_percent(settings) * 1000)
}

fn reading_at_least(reading: Option<i64>, thousandths: i64) -> (r: bool)
    ensures
        r == at_least(reading, thousandths as int),
{
    match reading {
        Some(v) => v >= thousandths,
        None => false,
    }
}

/// Whether CPU pressure calls for restraint. Usages are in thousandths of a
/// percent.
pub fn cpu_pressure_restraint_should_run(
    settings: &CpuSchedulerSettings,
    foreground_cpu_usage: Option<i64>,
    total_cpu_usage: Option<i64>,
) -> (r: bool)
    ensures
        r == pressure_starts(*settings, foreground_cpu_usage, total_cpu_usage),
{
    if !settings.cpu_pressure_restraint_enabled && !settings.limit_background_processors_enabled {
        return false;
    }
    let trigger: u8 = if settings.foreground_or_system_cpu_threshold_percent < 100 {
        settings.foreground_or_system_cpu_threshold_percent
    } else {
        100
    };
    let threshold = trigger as i64 * 1000;
    reading_at_least(foreground_cpu_usage, threshold) || reading_at_least(total_cpu_usage, threshold)
}

/// Whether CPU pressure is still above the recovery level.
pub fn cpu_pressure_above_recovery_threshold(
    settings: &CpuSchedulerSettings,
    foreground_cpu_usage: Option<i64>,
    total_cpu_usage: Option<i64>,
) -> (r: bool)
    ensures
        r == pressure_holds(*settings, foreground_cpu_usage, total_cpu_usage),
{
    let trigger: u8 = if settings.foreground_or_system_cpu_threshold_percent < 100 {
        settings.foreground_or_system_cpu_threshold_percent
    } else {
        100
    };
    let recovery: u8 = if trigger >= CPU_SCHEDULER_RECOVERY_BAND_PERCENT {
        trigger - CPU_SCHEDULER_RECOVERY_BAND_PERCENT
    } else {
        0
    };
    let threshold = recovery as i64 * 1000;
    reading_at_least(foreground_cpu_usage, threshold) || reading_at_least(total_cpu_usage, threshold)
}

/// How restraints confine processors under the settings.
pub fn cpu_allocation_method(settings: &CpuSchedulerSettings) -> (r: CpuAllocationMode)
    ensures
        r == match settings.cpu_allocation_method {
            CpuAllocationMethod::CpuSetsSoft => CpuAllocationMode::SoftCpuSets,
            CpuAllocationMethod::ProcessorAffinityHard => CpuAllocationMode::HardAffinity,
        },
{
    match settings.cpu_allocation_method {
        CpuAllocationMethod::CpuSetsSoft => CpuAllocationMode::SoftCpuSets,
        CpuAllocationMethod::ProcessorAffinityHard => CpuAllocationMode::HardAffinity,
    }
}

/// What restraining a process does.
#[derive(Clone, Copy, Debug, PartialEq, Eq, Structural)]
pub enum CpuSchedulerDecision {
    LowerPriority,
    LimitProcessors,
}

/// Whether a restrained process owns a visible window or runs in the
/// background.
#[derive(Clone, Copy, Debug, PartialEq, Eq, Structural)]
pub enum CpuSchedulerTier {
    VisibleWindow,
    Background,
}

pub open spec fn decision_for(settings: CpuSchedulerSettings, tier: CpuSchedulerTier) -> CpuSchedulerDecision {
    if settings.limit_background_processors_enabled && tier == CpuSchedulerTier::Background {
        CpuSchedulerDecision::LimitProcessors
    } else {
        CpuSchedulerDecision::LowerPriority
    }
}

/// Background processes have their processors limited when that is on;
/// everything else only has its priority lowered.
pub fn cpu_scheduler_process_decision(settings: &CpuSchedulerSettings, tier: CpuSchedulerTier) -> (r:
    CpuSchedulerDecision)
    ensures
        r == decision_for(*settings, tier),
{
    if settings.limit_background_processors_enabled && tier == CpuSchedulerTier::Background {
        CpuSchedulerDecision::LimitProcessors
    } else {
        CpuSchedulerDecision::LowerPriority
    }
}

/// The tier a process is treated as: foreground and visible-window
/// detection count only when switched on, and fall through otherwise.
pub open spec fn priority_policy_spec(settings: CpuSchedulerSettings, foreground: bool, visible_window: bool) -> (
    Option<PriorityClassValue>,
    PriorityClassPreservation,
) {
    let fg = foreground && settings.process_priority_foreground_detection_enabled;
    let vis = visible_window && settings.process_priority_visible_window_detection_enabled;
    let (value, preserve) = if fg {
        (settings.focus_process_priority, settings.process_priority_preserve_foreground)
    } else if vis {
        (settings.visible_window_priority, settings.process_priority_preserve_visible_window)
    } else {
        (settings.background_priority, settings.process_priority_preserve_background)
    };
    let preservation = if !preserve {
        PriorityClassPreservation::PreserveHighOrRealtime
    } else if fg || vis {
        PriorityClassPreservation::PreserveHigherOrHighOrRealtime
    } else {
        PriorityClassPreservation::PreserveLowerOrHighOrRealtime
    };
    (
        if settings.process_priority_enabled {
            class_of_setting(value)
        } else {
            None
        },
        preservation,
    )
}

/// The priority class for a process of the given kind, and which existing
/// classes it leaves in place.
pub fn process_priority_policy(settings: &CpuSchedulerSettings, foreground: bool, visible_window: bool) -> (r: (
    Option<PriorityClassValue>,
    PriorityClassPreservation,
))
    ensures
        r == priority_policy_spec(*settings, foreground, visible_window),
{
    let fg = foreground && settings.process_priority_foreground_detection_enabled;
    let vis = visible_window && settings.process_priority_visible_window_detection_enabled;
    let (value, preserve) = if fg {
        (settings.focus_process_priority, settings.process_priority_preserve_foreground)
    } else if vis {
        (settings.visible_window_priority, settings.process_priority_preserve_visible_window)
    } else {
        (settings.background_priority, settings.process_priority_preserve_background)
    };
    let preservation = if !preserve {
        PriorityClassPreservation::PreserveHighOrRealtime
    } else if fg || vis {
        PriorityClassPreservation::PreserveHigherOrHighOrRealtime
    } else {
        PriorityClassPreservation::PreserveLowerOrHighOrRealtime
    };
    let priority = if settings.process_priority_enabled {
        PriorityClassValue::from_setting(value)
    } else {
        None
    };
    (priority, preservation)
}

pub open spec fn memory_policy_spec(settings: CpuSchedulerSettings, foreground: bool, visible_window: bool) -> (
    ProcessMemoryPrioritySetting,
    bool,
    bool,
) {
    let fg = foreground && settings.memory_priority_foreground_detection_enabled;
    let vis = !fg && visible_window && settings.memory_priority_visible_window_detection_enabled;
    (
        if fg {
            settings.focus_process_memory_priority
        } else if vis {
            settings.visible_window_memory_priority
        } else {
            settings.background_memory_priority
        },
        fg,
        vis,
    )
}

/// The memory priority for a process of the given kind, and whether it was
/// treated as the foreground or as a visible window.
pub fn memory_priority_policy(settings: &CpuSchedulerSettings, foreground: bool, visible_window: bool) -> (r: (
    ProcessMemoryPrioritySetting,
    bool,
    bool,
))
    ensures
        r == memory_policy_spec(*settings, foreground, visible_window),
{
    let fg = foreground && settings.memory_priority_foreground_detection_enabled;
    let vis = !fg && visible_window && settings.memory_priority_visible_window_detection_enabled;
    let priority = if fg {
        settings.focus_process_memory_priority
    } else if vis {
        settings.visible_window_memory_priority
    } else {
        settings.background_memory_priority
    };
    (priority, fg, vis)
}

/// What pressure restraint does to one process.
#[derive(Clone, Copy, Debug, PartialEq, Eq, Structural)]
pub struct PressureTargetPolicy {
    pub priority: Option<PriorityClassValue>,
    pub preservation: PriorityClassPreservation,
    pub apply_background_efficiency: bool,
}

/// The restraint for a process of a tier under pressure; `None` when it
/// would change nothing. Efficiency mode is left to Background Efficiency
/// when that already manages the process.
pub fn cpu_pressure_restraint_target(
    settings: &CpuSchedulerSettings,
    tier: CpuSchedulerTier,
    background_efficiency_managed: bool,
) -> (r: Option<PressureTargetPolicy>)
    ensures
        ({
            let (priority, preservation) = priority_policy_spec(*settings, false, tier == CpuSchedulerTier::VisibleWindow);
            let apply = !background_efficiency_managed && settings.background_efficiency_enabled
                && settings.efficiency_mode_for(false, tier == CpuSchedulerTier::VisibleWindow);
            r == if priority is Some || apply {
                Some(PressureTargetPolicy { priority, preservation, apply_background_efficiency: apply })
            } else {
                None
            }
        }),
{
    let visible = tier == CpuSchedulerTier::VisibleWindow;
    let (priority, preservation) = process_priority_policy(settings, false, visible);
    let apply = !background_efficiency_managed && settings.background_efficiency_enabled
        && settings.background_efficiency_mode_for(false, visible);
    if priority.is_some() || apply {
        Some(PressureTargetPolicy { priority, preservation, apply_background_efficiency: apply })
    } else {
        None
    }
}

/// What the CPU Scheduler remembers of a process between passes. Instants
/// are nanoseconds on a monotonic clock.
#[derive(Clone, Debug)]
pub struct CpuSchedulerProcess {
    pub process_name: String,
    pub executable_path: String,
    pub creation_time: u64,
    pub previous_cpu_time: Option<ProcessCpuSample>,
    pub last_usage_tenths: Option<u16>,
    pub high_since: Option<u128>,
    pub below_since: Option<u128>,
    pub active_since: Option<u128>,
    pub decision: Option<CpuSchedulerDecision>,
    pub active: bool,
    pub selected: bool,
}

/// A process that may be restrained in this pass.
#[derive(Clone, Debug)]
pub struct CpuSchedulerCandidate {
    pub process_id: u32,
    pub process_name: String,
    pub decision: CpuSchedulerDecision,
    pub tier: CpuSchedulerTier,
    pub score: u32,
}

impl ScoredCandidate for CpuSchedulerCandidate {
    open spec fn score_spec(&self) -> u32 {
        self.score
    }

    open spec fn id_spec(&self) -> u32 {
        self.process_id
    }

    fn score(&self) -> (r: u32) {
        self.score
    }

    fn candidate_id(&self) -> (r: u32) {
        self.process_id
    }
}

/// A candidate's score: its last CPU usage in tenths of a percent, plus the
/// stickiness bonus when it is already selected.
pub open spec fn candidate_score(process: CpuSchedulerProcess) -> int {
    (match process.last_usage_tenths {
        Some(t) => t as int,
        None => 0,
    }) + if process.selected {
        CPU_SCHEDULER_SELECTION_STICKINESS_TENTHS as int
    } else {
        0
    }
}

/// The candidate for a tracked process.
pub fn cpu_scheduler_candidate(
    process_id: u32,
    process: &CpuSchedulerProcess,
    decision: CpuSchedulerDecision,
    tier: CpuSchedulerTier,
) -> (r: CpuSchedulerCandidate)
    ensures
        r.process_id == process_id,
        r.process_name@ == process.process_name@,
        r.decision == decision,
        r.tier == tier,
        r.score == candidate_score(*process),
{
    let usage: u32 = match process.last_usage_tenths {
        Some(t) => t as u32,
        None => 0,
    };
    let bonus: u32 = if process.selected {
        CPU_SCHEDULER_SELECTION_STICKINESS_TENTHS
    } else {
        0
    };
    CpuSchedulerCandidate {
        process_id,
        process_name: String::from_str(process.process_name.as_str()),
        decision,
        tier,
        score: usage + bonus,
    }
}

/// The candidates to restrain: the highest scores first (ties by lower
/// process id, then input order), at most `maximum_restrained_apps` and at
/// least one.
pub fn select_cpu_scheduler_candidates(candidates: Vec<CpuSchedulerCandidate>, maximum_restrained_apps: u8) -> (r:
    Vec<CpuSchedulerCandidate>)
    ensures
        r@.len() == crate::features::candidates::selection_len(candidates@.len(), maximum_restrained_apps),
        r@.to_multiset().subset_of(candidates@.to_multiset()),
        forall|i: int, j: int|
            0 <= i < j < r@.len() ==> crate::features::candidates::ranks_before(#[trigger] r@[i], #[trigger] r@[j]),
        forall|c: CpuSchedulerCandidate|
            #[trigger] candidates@.to_multiset().count(c) > r@.to_multiset().count(c) ==> forall|i: int|
                0 <= i < r@.len() ==> crate::features::candidates::ranks_before(#[trigger] r@[i], c),
        exists|idx: Seq<int>| crate::features::candidates::stable_choice(r@, candidates@, idx),
{
    select_highest_scored(candidates, maximum_restrained_apps)
}

/// The mask a fixed processor selection asks for; `None` for the
/// load-aware selections, and when the mask is empty or every processor.
pub open spec fn selected_mask_spec(
    ps: Seq<LogicalProcessorInfo>,
    selection: BackgroundProcessorSelection,
    specific: Seq<u8>,
) -> Option<u64> {
    let all = all_mask(ps);
    let mask: Option<u64> = match selection {
        BackgroundProcessorSelection::LeastUsed => None,
        BackgroundProcessorSelection::LeastUsedPerformanceCores => None,
        BackgroundProcessorSelection::LeastUsedEfficiencyCores => None,
        BackgroundProcessorSelection::PerformanceCores => Some(kind_mask(ps, LogicalProcessorKind::Performance)),
        BackgroundProcessorSelection::EfficiencyCores => Some(kind_mask(ps, LogicalProcessorKind::Efficiency)),
        BackgroundProcessorSelection::AllCoresNoSmt => Some(no_smt_mask(ps)),
        BackgroundProcessorSelection::PerformanceCoresNoSmt => Some(
            kind_mask(ps, LogicalProcessorKind::Performance) & no_smt_mask(ps),
        ),
        BackgroundProcessorSelection::Custom => Some(indices_mask(specific) & all),
    };
    match mask {
        Some(m) => if m != 0 && m != all {
            Some(m)
        } else {
            None
        },
        None => None,
    }
}

/// The processors a fixed selection confines background processes to.
pub fn selected_background_processor_mask(
    processors: &Vec<LogicalProcessorInfo>,
    selection: BackgroundProcessorSelection,
    specific_processors: &Vec<u8>,
) -> (r: Option<u64>)
    ensures
        r == selected_mask_spec(processors@, selection, specific_processors@),
{
    let all = logical_processor_mask(processors);
    let mask = match selection {
        BackgroundProcessorSelection::LeastUsed => {
            return None;
        },
        BackgroundProcessorSelection::LeastUsedPerformanceCores => {
            return None;
        },
        BackgroundProcessorSelection::LeastUsedEfficiencyCores => {
            return None;
        },
        BackgroundProcessorSelection::PerformanceCores => logical_processor_kind_mask(
            processors,
            LogicalProcessorKind::Performance,
        ),
        BackgroundProcessorSelection::EfficiencyCores => logical_processor_kind_mask(
            processors,
            LogicalProcessorKind::Efficiency,
        ),
        BackgroundProcessorSelection::AllCoresNoSmt => logical_processor_no_smt_mask(processors),
        BackgroundProcessorSelection::PerformanceCoresNoSmt => logical_processor_kind_mask(
            processors,
            LogicalProcessorKind::Performance,
        ) & logical_processor_no_smt_mask(processors),
        BackgroundProcessorSelection::Custom => logical_processor_indices_mask(specific_processors) & all,
    };
    if mask != 0 && mask != all {
        Some(mask)
    } else {
        None
    }
}

/// Whether a processor takes part in a load-aware selection: of the kind
/// asked for (any kind for `None`), with a load reading, and within the mask.
pub open spec fn load_eligible(p: LogicalProcessorInfo, loads_len: nat, kind: Option<LogicalProcessorKind>) -> bool {
    (match kind {
        Some(k) => p.kind == k,
        None => true,
    }) && p.index < loads_len && p.index < 64
}

/// The eligible processors with their loads, in listed order.
pub open spec fn load_candidates(
    ps: Seq<LogicalProcessorInfo>,
    loads: Seq<i64>,
    kind: Option<LogicalProcessorKind>,
) -> Seq<LoadedProcessor>
    decreases ps.len(),
{
    if ps.len() == 0 {
        Seq::empty()
    } else {
        let rest = load_candidates(ps.drop_last(), loads, kind);
        if load_eligible(ps.last(), loads.len(), kind) {
            rest.push((ps.last().index, loads[ps.last().index as int]))
        } else {
            rest
        }
    }
}

/// How many of `n` processors `percent` percent (1..=100) keeps: rounded up,
/// at least one, at most all.
pub open spec fn percent_count(n: nat, percent: u8) -> nat {
    let p: nat = if percent < 1 {
        1
    } else if percent > 100 {
        100
    } else {
        percent as nat
    };
    let c = (n * p + 99) / 100;
    if c < 1 {
        1
    } else if c > n {
        n
    } else {
        c
    }
}

fn collect_load_candidates(
    processors: &Vec<LogicalProcessorInfo>,
    loads: &Vec<i64>,
    kind: Option<LogicalProcessorKind>,
) -> (r: Vec<LoadedProcessor>)
    ensures
        r@ == load_candidates(processors@, loads@, kind),
{
    let mut out: Vec<LoadedProcessor> = Vec::new();
    let mut i: usize = 0;
    while i < processors.len()
        invariant
            i <= processors@.len(),
            out@ == load_candidates(processors@.subrange(0, i as int), loads@, kind),
        decreases processors@.len() - i,
    {
        let p = processors[i];
        let kind_ok = match kind {
            Some(k) => p.kind == k,
            None => true,
        };
        if kind_ok && p.index < loads.len() && p.index < 64 {
            out.push((p.index, loads[p.index]));
        }
        proof {
            let next = processors@.subrange(0, i + 1);
            assert(next.drop_last() =~= processors@.subrange(0, i as int));
        }
        i = i + 1;
    }
    assert(processors@.subrange(0, processors@.len() as int) =~= processors@);
    out
}

fn limited_count(n: usize, percent: u8) -> (r: usize)
    requires
        n <= 0xFFFF_FFFF,
    ensures
        r == percent_count(n as nat, percent),
{
    let p: u64 = if percent < 1 {
        1
    } else if percent > 100 {
        100
    } else {
        percent as u64
    };
    assert(n as u64 * p <= 0xFFFF_FFFF * 100) by (nonlinear_arith)
        requires
            n <= 0xFFFF_FFFF,
            p <= 100,
    ;
    let c = (n as u64 * p + 99) / 100;
    if c < 1 {
        1
    } else if c > n as u64 {
        n
    } else {
        c as usize
    }
}

/// The `percent` least-loaded eligible processors as a mask; `None` when no
/// processor is eligible or the mask is empty.
pub open spec fn load_aware_mask_spec(
    ps: Seq<LogicalProcessorInfo>,
    loads: Seq<i64>,
    percent: u8,
    kind: Option<LogicalProcessorKind>,
) -> Option<u64> {
    let cs = load_candidates(ps, loads, kind);
    let mask = least_loaded_mask(cs, cs, percent_count(cs.len(), percent));
    if cs.len() == 0 || mask == 0 {
        None
    } else {
        Some(mask)
    }
}

/// What a load-aware choice returns and keeps: nothing without a load
/// reading or eligible processors (the kept selection stays); nothing when
/// the choice is every processor (the selection is dropped); else the mask
/// and selection of `core_choice`.
pub open spec fn load_aware_outcome(
    selection: Option<CoreSelection>,
    ps: Seq<LogicalProcessorInfo>,
    loads: Option<Seq<i64>>,
    percent: u8,
    kind: Option<LogicalProcessorKind>,
    now: u128,
) -> (Option<u64>, Option<CoreSelection>) {
    match loads {
        None => (None, selection),
        Some(l) => match load_aware_mask_spec(ps, l, percent, kind) {
            None => (None, selection),
            Some(next) => if next == all_mask(ps) {
                (None, None)
            } else {
                let choice = core_choice(selection, next, kind, l, now);
                (Some(choice.0), Some(choice.1))
            },
        },
    }
}

/// The `percent` least-loaded eligible processors; `None` when no processor
/// is eligible. Loads are in thousandths of a percent, indexed by processor.
pub fn load_aware_limited_core_mask(
    processors: &Vec<LogicalProcessorInfo>,
    loads: &Vec<i64>,
    percent: u8,
    kind: Option<LogicalProcessorKind>,
) -> (r: Option<u64>)
    requires
        processors@.len() <= 0xFFFF_FFFF,
    ensures
        ({
            let cs = load_candidates(processors@, loads@, kind);
            let mask = least_loaded_mask(cs, cs, percent_count(cs.len(), percent));
            r == if cs.len() == 0 || mask == 0 {
                None::<u64>
            } else {
                Some(mask)
            }
        }),
        r == load_aware_mask_spec(processors@, loads@, percent, kind),
{
    let cs = collect_load_candidates(processors, loads, kind);
    if cs.len() == 0 {
        return None;
    }
    proof {
        lemma_load_candidates_len(processors@, loads@, kind);
    }
    let limit = limited_count(cs.len(), percent);
    let mask = least_loaded_processor_mask(&cs, limit);
    if mask == 0 {
        None
    } else {
        Some(mask)
    }
}

proof fn lemma_load_candidates_len(ps: Seq<LogicalProcessorInfo>, loads: Seq<i64>, kind: Option<LogicalProcessorKind>)
    ensures
        load_candidates(ps, loads, kind).len() <= ps.len(),
    decreases ps.len(),
{
    if ps.len() > 0 {
        lemma_load_candidates_len(ps.drop_last(), loads, kind);
    }
}

/// The share of processors left to the background when the foreground
/// keeps `foreground_percent` (at most 99%): at least 1%.
pub fn dynamic_background_zone_percent(foreground_percent: u8) -> (r: u8)
    ensures
        r == (if foreground_percent < 99 { 100 - foreground_percent } else { 1 }),
{
    let fg: u8 = if foreground_percent < 99 {
        foreground_percent
    } else {
        99
    };
    let bg = 100 - fg;
    if bg < 1 {
        1
    } else {
        bg
    }
}

/// The disjoint foreground and background processor zones: the background
/// zone within all processors and the foreground zone the rest; `None`
/// when either is empty.
pub fn dynamic_resource_zone_masks(all_mask: u64, background_mask: u64) -> (r: Option<(u64, u64)>)
    ensures
        ({
            let bg = background_mask & all_mask;
            let fg = all_mask & !bg;
            r == if fg != 0 && bg != 0 {
                Some((fg, bg))
            } else {
                None::<(u64, u64)>
            }
        }),
{
    let bg = background_mask & all_mask;
    let fg = all_mask & !bg;
    if fg != 0 && bg != 0 {
        Some((fg, bg))
    } else {
        None
    }
}

/// The launch profile runs only with pressure restraint on and for a
/// launching foreground app.
pub fn focus_and_launch_profile_enabled(settings: &CpuSchedulerSettings, focus_and_launch_profile_target: bool) -> (r:
    bool)
    ensures
        r == (settings.cpu_pressure_restraint_enabled && focus_and_launch_profile_target),
{
    settings.cpu_pressure_restraint_enabled && focus_and_launch_profile_target
}

/// Whether a process of this age (nanoseconds) is still launching.
pub fn process_age_in_focus_and_launch_window(age: u128, profile_window: u128) -> (r: bool)
    ensures
        r == (age <= profile_window),
{
    age <= profile_window
}

/// `Applied CPU Scheduler restraint to <n> process(es).`
pub fn background_apply_summary_message(count: usize) -> (r: String)
    ensures
        r@ == "Applied CPU Scheduler restraint to "@ + count_label(count as nat) + "."@,
{
    let mut s = String::from_str("Applied CPU Scheduler restraint to ");
    s.append(process_count_label(count).as_str());
    s.append(".");
    s
}

/// Whether an apply summary may be logged: never logged, or at least the
/// interval ago.
pub fn background_apply_summary_log_due(last_logged_at: Option<u128>, now: u128) -> (r: bool)
    ensures
        r == match last_logged_at {
            None => true,
            Some(last) => (if now >= last { now - last } else { 0 }) >= BACKGROUND_APPLY_SUMMARY_LOG_INTERVAL_NANOS,
        },
{
    match last_logged_at {
        None => true,
        Some(last) => {
            let elapsed = if now >= last {
                now - last
            } else {
                0
            };
            elapsed >= BACKGROUND_APPLY_SUMMARY_LOG_INTERVAL_NANOS
        },
    }
}

/// The restraint trigger for one process: the background-app threshold,
/// capped at 100%.
pub open spec fn app_trigger(settings: CpuSchedulerSettings) -> int {
    if settings.background_app_cpu_threshold_percent < 100 {
        settings.background_app_cpu_threshold_percent as int
    } else {
        100
    }
}

/// The level a restrained process must fall to before its recovery starts:
/// the recovery threshold, at most the trigger.
pub open spec fn app_recovery(settings: CpuSchedulerSettings) -> int {
    let r = if settings.cpu_recovery_threshold_percent < settings.background_app_cpu_threshold_percent {
        settings.cpu_recovery_threshold_percent as int
    } else {
        settings.background_app_cpu_threshold_percent as int
    };
    if r < 100 {
        r
    } else {
        100
    }
}

/// The state after a usage reading, and the decision the process is
/// restrained with (`None`: not a candidate). A process becomes active when
/// its usage reaches the trigger; an active process that is not selected
/// drops out as soon as it falls below; a selected one stays restrained for
/// the restraint time and while above the recovery level, then is only
/// lowered in priority for the recovery time, and is then released.
pub open spec fn next_process_state(
    s: CpuSchedulerProcess,
    u: CpuUsage,
    settings: CpuSchedulerSettings,
    tier: CpuSchedulerTier,
    now: u128,
) -> (CpuSchedulerProcess, Option<CpuSchedulerDecision>) {
    let s = CpuSchedulerProcess { last_usage_tenths: Some(percent_tenths_spec(u) as u16), ..s };
    let d = decision_for(settings, tier);
    if usage_at_least(u, app_trigger(settings)) {
        (
            CpuSchedulerProcess {
                below_since: None,
                high_since: Some(
                    match s.high_since {
                        Some(t) => t,
                        None => now,
                    },
                ),
                active: true,
                active_since: if s.active {
                    s.active_since
                } else {
                    Some(now)
                },
                decision: Some(d),
                ..s
            },
            Some(d),
        )
    } else if !s.active {
        (CpuSchedulerProcess { high_since: None, below_since: None, ..s }, None)
    } else if !s.selected {
        (
            CpuSchedulerProcess {
                active: false,
                high_since: None,
                below_since: None,
                active_since: None,
                decision: None,
                ..s
            },
            None,
        )
    } else {
        let active_since = match s.active_since {
            Some(t) => t,
            None => now,
        };
        if usage_above(u, app_recovery(settings)) || elapsed_since(now, active_since)
            < settings.cpu_restraint_time_seconds * 1_000_000_000 {
            (CpuSchedulerProcess { below_since: None, decision: Some(d), ..s }, Some(d))
        } else {
            let below_since = match s.below_since {
                Some(t) => t,
                None => now,
            };
            if elapsed_since(now, below_since) < settings.cpu_recovery_time_seconds * 1_000_000_000 {
                (
                    CpuSchedulerProcess {
                        below_since: Some(below_since),
                        decision: Some(CpuSchedulerDecision::LowerPriority),
                        ..s
                    },
                    Some(CpuSchedulerDecision::LowerPriority),
                )
            } else {
                (
                    CpuSchedulerProcess {
                        active: false,
                        selected: false,
                        high_since: None,
                        below_since: None,
                        active_since: None,
                        decision: None,
                        ..s
                    },
                    None,
                )
            }
        }
    }
}

/// One CPU sample of a watched process: the state after it, and the
/// candidate it gives (without an earlier usable sample, only the sample is
/// recorded).
pub open spec fn cpu_sample_step(
    before: CpuSchedulerProcess,
    process_id: u32,
    current: ProcessCpuSample,
    settings: CpuSchedulerSettings,
    tier: CpuSchedulerTier,
    now: u128,
    after: CpuSchedulerProcess,
    r: Option<CpuSchedulerCandidate>,
) -> bool {
    let usage = match before.previous_cpu_time {
        Some(p) => if p.sampled_at < current.sampled_at && p.cpu_time_100ns <= current.cpu_time_100ns {
            Some(
                CpuUsage {
                    busy_nanos: ((current.cpu_time_100ns - p.cpu_time_100ns) * 100) as u128,
                    capacity_nanos: (current.sampled_at - p.sampled_at) as u128,
                },
            )
        } else {
            None
        },
        None => None,
    };
    let sampled = CpuSchedulerProcess { previous_cpu_time: Some(current), ..before };
    match usage {
        None => after == sampled && r is None,
        Some(u) => {
            let (next, decision) = next_process_state(sampled, u, settings, tier, now);
            &&& after == next
            &&& r is Some <==> decision is Some
            &&& r matches Some(c) ==> c.process_id == process_id && c.process_name@ == next.process_name@
                && c.tier == tier && Some(c.decision) == decision && c.score == candidate_score(next)
        },
    }
}

/// Takes a new CPU sample of a tracked process and decides whether it is a
/// restraint candidate. Without an earlier sample (or when time or CPU time
/// went back) it only records the sample.
pub fn update_cpu_scheduler_process(
    state: &mut CpuSchedulerProcess,
    process_id: u32,
    current: ProcessCpuSample,
    settings: &CpuSchedulerSettings,
    tier: CpuSchedulerTier,
    now: u128,
) -> (r: Option<CpuSchedulerCandidate>)
    ensures
        cpu_sample_step(*old(state), process_id, current, *settings, tier, now, *final(state), r),
{
    let usage = match state.previous_cpu_time {
        Some(prev) => process_cpu_demand_percent(prev, current),
        None => None,
    };
    state.previous_cpu_time = Some(current);
    let u = match usage {
        Some(u) => u,
        None => {
            return None;
        },
    };
    state.last_usage_tenths = Some(percent_tenths(u));
    let trigger: u8 = if settings.background_app_cpu_threshold_percent < 100 {
        settings.background_app_cpu_threshold_percent
    } else {
        100
    };
    let r0: u8 = if settings.cpu_recovery_threshold_percent < settings.background_app_cpu_threshold_percent {
        settings.cpu_recovery_threshold_percent
    } else {
        settings.background_app_cpu_threshold_percent
    };
    let recovery: u8 = if r0 < 100 {
        r0
    } else {
        100
    };
    let d = cpu_scheduler_process_decision(settings, tier);
    if usage_at_least_exec(u, trigger) {
        state.below_since = None;
        if state.high_since.is_none() {
            state.high_since = Some(now);
        }
        if !state.active {
            state.active = true;
            state.active_since = Some(now);
        }
        state.decision = Some(d);
        return Some(cpu_scheduler_candidate(process_id, state, d, tier));
    }
    if !state.active {
        state.high_since = None;
        state.below_since = None;
        return None;
    }
    if !state.selected {
        state.active = false;
        state.high_since = None;
        state.below_since = None;
        state.active_since = None;
        state.decision = None;
        return None;
    }
    let active_since = match state.active_since {
        Some(t) => t,
        None => now,
    };
    let restraint_nanos = settings.cpu_restraint_time_seconds as u128 * 1_000_000_000;
    if usage_above_exec(u, recovery) || elapsed_nanos(now, active_since) < restraint_nanos {
        state.below_since = None;
        state.decision = Some(d);
        return Some(cpu_scheduler_candidate(process_id, state, d, tier));
    }
    let below_since = match state.below_since {
        Some(t) => t,
        None => now,
    };
    state.below_since = Some(below_since);
    let recovery_nanos = settings.cpu_recovery_time_seconds as u128 * 1_000_000_000;
    if elapsed_nanos(now, below_since) < recovery_nanos {
        state.decision = Some(CpuSchedulerDecision::LowerPriority);
        return Some(cpu_scheduler_candidate(process_id, state, CpuSchedulerDecision::LowerPriority, tier));
    }
    state.active = false;
    state.selected = false;
    state.high_since = None;
    state.below_since = None;
    state.active_since = None;
    state.decision = None;
    None
}

/// The results of one CPU Scheduler pass.
#[derive(Debug, Clone, PartialEq, Eq)]
pub struct CpuSchedulerSnapshot {
    pub enabled: bool,
    pub scanned_processes: usize,
    pub adjusted_processes: usize,
    pub focus_and_launch_profile_active: bool,
    pub cpu_pressure_restraint_active: bool,
    pub foreground_cpu_usage_tenths: Option<u16>,
    pub skipped_processes: usize,
    pub failed_processes: usize,
    pub adjusted_apps: Vec<String>,
    pub auto_excluded_processes: Vec<String>,
    pub message: String,
    pub last_error: Option<String>,
}

impl Default for CpuSchedulerSnapshot {
    fn default() -> (r: Self)
        ensures
            !r.enabled,
            r.scanned_processes == 0,
            r.adjusted_processes == 0,
            !r.focus_and_launch_profile_active,
            !r.cpu_pressure_restraint_active,
            r.foreground_cpu_usage_tenths.is_none(),
            r.skipped_processes == 0,
            r.failed_processes == 0,
            r.adjusted_apps@.len() == 0,
            r.auto_excluded_processes@.len() == 0,
            r.message@ == "CPU Scheduler disabled."@,
            r.last_error.is_none(),
    {
        CpuSchedulerSnapshot {
            enabled: false,
            scanned_processes: 0,
            adjusted_processes: 0,
            focus_and_launch_profile_active: false,
            cpu_pressure_restraint_active: false,
            foreground_cpu_usage_tenths: None,
            skipped_processes: 0,
            failed_processes: 0,
            adjusted_apps: Vec::new(),
            auto_excluded_processes: Vec::new(),
            message: String::from_str("CPU Scheduler disabled."),
            last_error: None,
        }
    }
}

/// The foreground app the focus priority waits to settle on, and since when.
#[derive(Debug, Clone)]
pub struct FocusProcessCandidate {
    pub process_id: u32,
    pub process_name: String,
    pub executable_path: String,
    pub creation_time: u64,
    pub first_seen: u128,
}

/// A focus candidate as plain values: id, name, executable path, start time,
/// first seen.
pub open spec fn focus_candidate_view(c: FocusProcessCandidate) -> (u32, Seq<char>, Seq<char>, u64, u128) {
    (c.process_id, c.process_name@, c.executable_path@, c.creation_time, c.first_seen)
}

/// Whether a candidate is the given process: same id, name, start time and
/// executable.
pub open spec fn same_focus_process(
    c: (u32, Seq<char>, Seq<char>, u64, u128),
    process_id: u32,
    process_name: Seq<char>,
    executable_path: Seq<char>,
    creation_time: u64,
    canonical: Seq<CanonicalPath>,
) -> bool {
    &&& c.0 == process_id
    &&& same_name_seq(c.1, process_name)
    &&& c.3 == creation_time
    &&& same_executable_path_spec(c.2, executable_path, canonical)
}

/// How a focus-priority group starts: not eligible (no foreground name or no
/// targets), the foreground app missing from the targets, or the
/// foreground app's executable and start time.
pub enum FocusGroupStart {
    NotEligible,
    IdentityUnavailable,
    Foreground { executable_path: String, creation_time: u64 },
}

/// The first target with the given id.
pub open spec fn first_target_with_id(targets: Seq<(u32, String, String, u64)>, id: u32) -> Option<(Seq<char>, u64)>
    decreases targets.len(),
{
    if targets.len() == 0 {
        None
    } else if targets[0].0 == id {
        Some((targets[0].2@, targets[0].3))
    } else {
        first_target_with_id(targets.drop_first(), id)
    }
}

/// How a focus-priority group over `targets` (id, name, executable, start
/// time) starts for the foreground app.
pub fn focus_group_start(
    foreground_id: u32,
    foreground_process_name: Option<&str>,
    targets: &Vec<(u32, String, String, u64)>,
) -> (r: FocusGroupStart)
    ensures
        ({
            let name = match foreground_process_name {
                Some(n) => trim_seq(n@),
                None => Seq::<char>::empty(),
            };
            if name.len() == 0 || targets@.len() == 0 {
                r is NotEligible
            } else {
                match first_target_with_id(targets@, foreground_id) {
                    None => r is IdentityUnavailable,
                    Some((path, creation_time)) => r matches FocusGroupStart::Foreground {
                        executable_path,
                        creation_time: c,
                    } && executable_path@ == path && c == creation_time,
                }
            }
        }),
{
    let name = match foreground_process_name {
        Some(n) => trim(n),
        None => "",
    };
    proof {
        if foreground_process_name is None {
            reveal_strlit("");
        }
    }
    if name.unicode_len() == 0 || targets.len() == 0 {
        return FocusGroupStart::NotEligible;
    }
    let mut i: usize = 0;
    proof {
        assert(targets@.subrange(0, targets@.len() as int) =~= targets@);
    }
    while i < targets.len()
        invariant
            i <= targets@.len(),
            targets@.len() > 0,
            (match foreground_process_name {
                Some(n) => trim_seq(n@),
                None => Seq::<char>::empty(),
            }).len() > 0,
            first_target_with_id(targets@, foreground_id) == first_target_with_id(
                targets@.subrange(i as int, targets@.len() as int),
                foreground_id,
            ),
        decreases targets@.len() - i,
    {
        let ghost rest = targets@.subrange(i as int, targets@.len() as int);
        assert(rest[0] == targets@[i as int]);
        if targets[i].0 == foreground_id {
            return FocusGroupStart::Foreground {
                executable_path: String::from_str(targets[i].2.as_str()),
                creation_time: targets[i].3,
            };
        }
        assert(rest.drop_first() =~= targets@.subrange(i + 1, targets@.len() as int));
        i = i + 1;
    }
    FocusGroupStart::IdentityUnavailable
}

/// What a focus-priority group did: how many targets it skipped, and its
/// failures.
pub struct FocusGroupResult {
    pub skipped: usize,
    pub failures: PriorityFailures,
}

/// The state the CPU Scheduler keeps between passes: its failures, whether
/// CPU pressure restraint is on, and the foreground app the focus priority
/// waits on.
pub struct CpuSchedulerManager {
    pub failure_suppression: ExecutionFailureTracker,
    pub background_pressure_active: bool,
    pub focus_process_candidate: Option<FocusProcessCandidate>,
    pub cpu_allocation_selection: Option<CoreSelection>,
    /// The last CPU sample of the foreground app's processes.
    pub foreground_cpu_sample: Option<GroupCpuSample>,
    /// The processes watched for restraint, by process id.
    pub tracked_processes: Vec<(u32, CpuSchedulerProcess)>,
}

impl CpuSchedulerManager {
    pub closed spec fn wf(&self) -> bool {
        self.failure_suppression.wf()
    }

    /// The failure state per key.
    pub closed spec fn failures(&self) -> Map<Seq<char>, FailureState> {
        self.failure_suppression@
    }

    pub fn new() -> (r: Self)
        ensures
            r.wf(),
            r.failures() == Map::<Seq<char>, FailureState>::empty(),
            !r.background_pressure_active,
            r.focus_process_candidate is None,
            r.cpu_allocation_selection is None,
            group_sample_view(r.foreground_cpu_sample) is None,
            r.tracked_processes@.len() == 0,
    {
        CpuSchedulerManager {
            failure_suppression: ExecutionFailureTracker::new(),
            background_pressure_active: false,
            focus_process_candidate: None,
            cpu_allocation_selection: None,
            foreground_cpu_sample: None,
            tracked_processes: Vec::new(),
        }
    }

    /// The foreground app's CPU usage since the last pass (see
    /// `group_cpu_usage_step`): `current` is the sample just read for the
    /// foreground process ids.
    pub fn update_foreground_cpu_usage(
        &mut self,
        foreground_process_ids: &Vec<u32>,
        current: Option<ProcessCpuSample>,
        processor_count: u32,
    ) -> (r: Option<CpuUsage>)
        requires
            processor_count >= 1,
        ensures
            final(self).failure_suppression == old(self).failure_suppression,
            final(self).background_pressure_active == old(self).background_pressure_active,
            final(self).focus_process_candidate == old(self).focus_process_candidate,
            final(self).cpu_allocation_selection == old(self).cpu_allocation_selection,
            foreground_process_ids@.len() == 0 ==> group_sample_view(final(self).foreground_cpu_sample) is None
                && r is None,
            foreground_process_ids@.len() > 0 && current is None ==> group_sample_view(
                final(self).foreground_cpu_sample,
            ) == group_sample_view(old(self).foreground_cpu_sample) && r is None,
            foreground_process_ids@.len() > 0 ==> (current matches Some(c) ==> {
                &&& group_sample_view(final(self).foreground_cpu_sample) == Some((foreground_process_ids@, c))
                &&& r == match group_sample_view(old(self).foreground_cpu_sample) {
                    Some((ids, previous)) => if ids == foreground_process_ids@ {
                        usage_between(previous, c, processor_count)
                    } else {
                        None
                    },
                    None => None,
                }
            }),
    {
        group_cpu_usage_step(&mut self.foreground_cpu_sample, foreground_process_ids, current, processor_count)
    }

    /// Counts one more failure for the executable.
    pub fn record_process_failure(&mut self, executable_path: &str)
        requires
            old(self).wf(),
        ensures
            final(self).wf(),
            final(self).failures() == model_record(old(self).failures(), failure_key(executable_path@)),
            final(self).background_pressure_active == old(self).background_pressure_active,
    {
        self.failure_suppression.record_process_failure(executable_path);
    }

    /// Forgets the failures of the executable.
    pub fn clear_process_failure(&mut self, executable_path: &str)
        requires
            old(self).wf(),
        ensures
            final(self).wf(),
            final(self).failures() == old(self).failures().remove(failure_key(executable_path@)),
            final(self).background_pressure_active == old(self).background_pressure_active,
    {
        self.failure_suppression.clear_process_failure(executable_path);
    }

    /// Whether the executable is suppressed; the first time it is, adds it to
    /// the auto-excluded set and logs that the CPU Scheduler stopped
    /// retrying it, under the trimmed process name.
    pub fn is_executable_path_suppressed(
        &mut self,
        process_id: u32,
        process_name: &str,
        executable_path: &str,
        action_log: &mut ActionLog,
        auto_excluded_processes: &mut Vec<String>,
    ) -> (r: bool)
        requires
            old(self).wf(),
            old(action_log).wf(),
            strictly_sorted(string_views(old(auto_excluded_processes)@)),
        ensures
            final(self).wf(),
            final(action_log).wf(),
            final(self).background_pressure_active == old(self).background_pressure_active,
            strictly_sorted(string_views(final(auto_excluded_processes)@)),
            r == model_suppressed(old(self).failures(), failure_key(executable_path@)),
            final(self).failures() == model_after_check(old(self).failures(), failure_key(executable_path@)),
            model_newly_suppressed(old(self).failures(), failure_key(executable_path@)) ==> {
                &&& string_views(final(auto_excluded_processes)@).to_set() == string_views(
                    old(auto_excluded_processes)@,
                ).to_set().insert(executable_path@)
                &&& final(action_log).view_entries() == crate::action_log::log_after(
                    old(action_log).view_entries(),
                    old(action_log).capacity_spec(),
                    ActionLogEntryView {
                        feature: ActionLogFeature::CpuScheduler,
                        process_id: Some(process_id),
                        process_name: trim_seq(process_name@),
                        action: crate::action_log::action_of_result(ActionLogResult::Skipped),
                        result: ActionLogResult::Skipped,
                        reason: crate::rules::stopped_retrying_message("CPU Scheduler"@),
                    },
                )
            },
            !model_newly_suppressed(old(self).failures(), failure_key(executable_path@)) ==> {
                &&& final(auto_excluded_processes)@ == old(auto_excluded_processes)@
                &&& final(action_log).view_entries() == old(action_log).view_entries()
            },
    {
        let suppression = check_and_report_suppression(
            &mut self.failure_suppression,
            action_log,
            ActionLogFeature::CpuScheduler,
            "CPU Scheduler",
            process_id,
            trim(process_name),
            executable_path,
        );
        if suppression.newly_suppressed {
            insert_sorted_unique(auto_excluded_processes, executable_path);
        }
        suppression.suppressed
    }

    /// The focus candidate as plain values.
    pub open spec fn focus_candidate(&self) -> Option<(u32, Seq<char>, Seq<char>, u64, u128)> {
        match self.focus_process_candidate {
            Some(c) => Some(focus_candidate_view(c)),
            None => None,
        }
    }

    /// Whether the foreground app has stayed the same for the stability delay
    /// (in milliseconds): a launching app (no older than the focus and launch
    /// window) counts at once; a new foreground app starts the wait over.
    pub fn foreground_boost_stable(
        &mut self,
        process_id: u32,
        process_name: &str,
        executable_path: &str,
        creation_time: u64,
        stability_delay_ms: u64,
        process_age: Option<u128>,
        canonical: &CanonicalPaths,
        now: u128,
    ) -> (r: bool)
        ensures
            final(self).failure_suppression == old(self).failure_suppression,
            final(self).background_pressure_active == old(self).background_pressure_active,
            ({
                let fresh = (process_id, process_name@, executable_path@, creation_time, now);
                let launching = process_age matches Some(a) && a <= FOCUS_AND_LAUNCH_PROFILE_WINDOW_NANOS;
                let same = old(self).focus_candidate() matches Some(c) && same_focus_process(
                    c,
                    process_id,
                    process_name@,
                    executable_path@,
                    creation_time,
                    canonical.entries@,
                );
                let first_seen = match old(self).focus_candidate() {
                    Some(c) => c.4,
                    None => now,
                };
                if launching {
                    &&& r
                    &&& final(self).focus_candidate() == Some(fresh)
                } else if same {
                    &&& final(self).focus_candidate() == old(self).focus_candidate()
                    &&& r == ((if now >= first_seen { now - first_seen } else { 0 }) / 1_000_000 >= stability_delay_ms)
                } else {
                    &&& !r
                    &&& final(self).focus_candidate() == Some(fresh)
                }
            }),
    {
        let launching = match process_age {
            Some(age) => process_age_in_focus_and_launch_window(age, FOCUS_AND_LAUNCH_PROFILE_WINDOW_NANOS),
            None => false,
        };
        if launching {
            self.focus_process_candidate = Some(
                FocusProcessCandidate {
                    process_id,
                    process_name: String::from_str(process_name),
                    executable_path: String::from_str(executable_path),
                    creation_time,
                    first_seen: now,
                },
            );
            return true;
        }
        let same = match &self.focus_process_candidate {
            Some(c) => c.process_id == process_id && same_name(c.process_name.as_str(), process_name)
                && c.creation_time == creation_time && same_executable_path(
                c.executable_path.as_str(),
                executable_path,
                canonical,
            ),
            None => false,
        };
        if same {
            let first_seen = match &self.focus_process_candidate {
                Some(c) => c.first_seen,
                None => now,
            };
            let elapsed = if now >= first_seen {
                now - first_seen
            } else {
                0
            };
            elapsed / 1_000_000 >= stability_delay_ms as u128
        } else {
            self.focus_process_candidate = Some(
                FocusProcessCandidate {
                    process_id,
                    process_name: String::from_str(process_name),
                    executable_path: String::from_str(executable_path),
                    creation_time,
                    first_seen: now,
                },
            );
            false
        }
    }

    /// Takes the result of applying the focus priority to a target (id, name,
    /// executable): a change clears its failures and is logged; a preserved
    /// priority clears them and is skipped; no change clears them; an exited
    /// process is skipped; denied access is skipped, suppressed at once and
    /// logged; any other error counts toward suppression and is recorded.
    pub fn record_focus_priority_result(
        &mut self,
        result: &mut FocusGroupResult,
        process_id: u32,
        process_name: &str,
        executable_path: &str,
        priority: PriorityClassValue,
        outcome: &Result<ProcessPropertyApplyOutcome, ProcessControlError>,
        action_log: &mut ActionLog,
    )
        requires
            old(self).wf(),
            old(action_log).wf(),
            old(result).skipped < usize::MAX,
            old(result).failures.count < usize::MAX,
        ensures
            final(self).wf(),
            final(action_log).wf(),
            final(self).background_pressure_active == old(self).background_pressure_active,
            ({
                let key = failure_key(executable_path@);
                let f = old(self).failures();
                let skipped = final(result).skipped - old(result).skipped;
                let entry = |r: ActionLogResult, text: Seq<char>| ActionLogEntryView {
                    feature: ActionLogFeature::CpuScheduler,
                    process_id: Some(process_id),
                    process_name: process_name@,
                    action: action_of_result(r),
                    result: r,
                    reason: text,
                };
                let old_log = old(action_log).view_entries();
                let cap = old(action_log).capacity_spec();
                &&& (!(outcome matches Err(ProcessControlError::Failed(_))) && !(outcome matches Err(
                    ProcessControlError::Unavailable(_),
                ))) ==> final(result).failures.count == old(result).failures.count
                    && final(result).failures.last_error == old(result).failures.last_error
                &&& match outcome {
                    Ok(o) => {
                        &&& final(self).failures() == f.remove(key)
                        &&& skipped == (if *o == ProcessPropertyApplyOutcome::Preserved { 1int } else { 0 })
                        &&& final(action_log).view_entries() == if *o == ProcessPropertyApplyOutcome::Applied {
                            log_after(
                                old_log,
                                cap,
                                entry(
                                    ActionLogResult::Applied,
                                    "Set focus process priority to "@ + priority_class_label(priority) + "."@,
                                ),
                            )
                        } else {
                            old_log
                        }
                    },
                    Err(ProcessControlError::ProcessExited) => {
                        &&& final(self).failures() == f
                        &&& skipped == 1
                        &&& final(action_log).view_entries() == old_log
                    },
                    Err(ProcessControlError::AccessDenied(m)) => {
                        &&& final(self).failures() == model_suppress(f, key)
                        &&& skipped == 1
                        &&& final(action_log).view_entries() == log_after(old_log, cap, entry(ActionLogResult::Skipped, m@))
                    },
                    Err(e) => {
                        &&& final(self).failures() == model_record(f, key)
                        &&& skipped == 0
                        &&& final(result).failures.count == old(result).failures.count + 1
                        &&& old(result).failures.last_error is Some ==> final(result).failures.last_error == old(
                            result,
                        ).failures.last_error
                        &&& old(result).failures.last_error is None ==> (final(result).failures.last_error matches Some(
                            t,
                        ) && t@ == crate::features::process_control::failure_text(
                            "Set Focus Process Priority"@,
                            process_id,
                            process_name@,
                            control_error_text(*e),
                        ))
                        &&& final(action_log).view_entries() == log_after(
                            old_log,
                            cap,
                            entry(ActionLogResult::Failed, control_error_text(*e)),
                        )
                    },
                }
            }),
    {
        match outcome {
            Ok(o) => {
                self.clear_process_failure(executable_path);
                match o {
                    ProcessPropertyApplyOutcome::Applied => {
                        let mut text = String::from_str("Set focus process priority to ");
                        text.append(priority.label());
                        text.append(".");
                        action_log.record(
                            ActionLogFeature::CpuScheduler,
                            Some(process_id),
                            String::from_str(process_name),
                            ActionLogResult::Applied,
                            text,
                        );
                    },
                    ProcessPropertyApplyOutcome::Preserved => {
                        result.skipped = result.skipped + 1;
                    },
                    _ => {},
                }
            },
            Err(ProcessControlError::ProcessExited) => {
                result.skipped = result.skipped + 1;
            },
            Err(ProcessControlError::AccessDenied(m)) => {
                result.skipped = result.skipped + 1;
                self.failure_suppression.suppress_process_failure(executable_path);
                action_log.record(
                    ActionLogFeature::CpuScheduler,
                    Some(process_id),
                    String::from_str(process_name),
                    ActionLogResult::Skipped,
                    String::from_str(m.as_str()),
                );
            },
            Err(e) => {
                self.record_process_failure(executable_path);
                result.failures.record_control_error(
                    ActionLogFeature::CpuScheduler,
                    "Set Focus Process Priority",
                    process_id,
                    process_name,
                    e,
                    action_log,
                );
            },
        }
    }

    /// The least-loaded processors of a kind (any, without one) that
    /// restrained processes are confined to, kept stable between passes (see
    /// `core_choice`); `None` without a load reading (the selection is kept),
    /// without eligible processors, or when the choice would be every
    /// processor (the selection is dropped).
    pub fn load_aware_cpu_allocation_mask(
        &mut self,
        processors: &Vec<LogicalProcessorInfo>,
        loads: Option<&Vec<i64>>,
        percent: u8,
        kind: Option<LogicalProcessorKind>,
        now: u128,
    ) -> (r: Option<u64>)
        requires
            processors@.len() <= 0xFFFF_FFFF,
        ensures
            final(self).failure_suppression == old(self).failure_suppression,
            final(self).background_pressure_active == old(self).background_pressure_active,
            (r, final(self).cpu_allocation_selection) == load_aware_outcome(
                old(self).cpu_allocation_selection,
                processors@,
                match loads {
                    Some(l) => Some(l@),
                    None => None,
                },
                percent,
                kind,
                now,
            ),
    {
        let loads = match loads {
            Some(l) => l,
            None => {
                return None;
            },
        };
        let next = match load_aware_limited_core_mask(processors, loads, percent, kind) {
            Some(m) => m,
            None => {
                return None;
            },
        };
        if next == logical_processor_mask(processors) {
            self.cpu_allocation_selection = None;
            return None;
        }
        let (mask, selection) = choose_core_mask(self.cpu_allocation_selection, next, kind, loads, now);
        self.cpu_allocation_selection = Some(selection);
        Some(mask)
    }

    /// The processors background processes are confined to under the
    /// selection setting: a least-used selection goes by load (see
    /// `load_aware_cpu_allocation_mask`); any other drops the kept selection
    /// and takes the fixed mask (see `selected_background_processor_mask`).
    pub fn cpu_allocation_mask(
        &mut self,
        settings: &CpuSchedulerSettings,
        processors: &Vec<LogicalProcessorInfo>,
        loads: Option<&Vec<i64>>,
        percent: u8,
        now: u128,
    ) -> (r: Option<u64>)
        requires
            processors@.len() <= 0xFFFF_FFFF,
        ensures
            final(self).failure_suppression == old(self).failure_suppression,
            final(self).background_pressure_active == old(self).background_pressure_active,
            match settings.background_processor_selection {
                BackgroundProcessorSelection::LeastUsed | BackgroundProcessorSelection::LeastUsedPerformanceCores
                | BackgroundProcessorSelection::LeastUsedEfficiencyCores => {
                    (r, final(self).cpu_allocation_selection) == load_aware_outcome(
                        old(self).cpu_allocation_selection,
                        processors@,
                        match loads {
                            Some(l) => Some(l@),
                            None => None,
                        },
                        percent,
                        match settings.background_processor_selection {
                            BackgroundProcessorSelection::LeastUsedPerformanceCores => Some(LogicalProcessorKind::Performance),
                            BackgroundProcessorSelection::LeastUsedEfficiencyCores => Some(LogicalProcessorKind::Efficiency),
                            _ => None,
                        },
                        now,
                    )
                },
                _ => {
                    &&& final(self).cpu_allocation_selection is None
                    &&& r == selected_mask_spec(
                        processors@,
                        settings.background_processor_selection,
                        settings.specific_processors@,
                    )
                },
            },
    {
        match settings.background_processor_selection {
            BackgroundProcessorSelection::LeastUsed => {
                return self.load_aware_cpu_allocation_mask(processors, loads, percent, None, now);
            },
            BackgroundProcessorSelection::LeastUsedPerformanceCores => {
                return self.load_aware_cpu_allocation_mask(
                    processors,
                    loads,
                    percent,
                    Some(LogicalProcessorKind::Performance),
                    now,
                );
            },
            BackgroundProcessorSelection::LeastUsedEfficiencyCores => {
                return self.load_aware_cpu_allocation_mask(
                    processors,
                    loads,
                    percent,
                    Some(LogicalProcessorKind::Efficiency),
                    now,
                );
            },
            _ => {},
        }
        self.cpu_allocation_selection = None;
        selected_background_processor_mask(processors, settings.background_processor_selection, &settings.specific_processors)
    }

    /// Whether a process, identified by its executable path, is suppressed.
    pub fn is_process_suppressed(
        &mut self,
        process_id: u32,
        executable_path: &str,
        action_log: &mut ActionLog,
        auto_excluded_processes: &mut Vec<String>,
    ) -> (r: bool)
        requires
            old(self).wf(),
            old(action_log).wf(),
            strictly_sorted(string_views(old(auto_excluded_processes)@)),
        ensures
            final(self).wf(),
            final(action_log).wf(),
            strictly_sorted(string_views(final(auto_excluded_processes)@)),
            r == model_suppressed(old(self).failures(), failure_key(executable_path@)),
            final(self).failures() == model_after_check(old(self).failures(), failure_key(executable_path@)),
    {
        self.is_executable_path_suppressed(
            process_id,
            executable_path,
            executable_path,
            action_log,
            auto_excluded_processes,
        )
    }

    /// Whether pressure restraint runs this pass: it starts when pressure
    /// reaches the trigger, and once on it stays on while no reading is
    /// available or pressure stays above the recovery level.
    pub fn update_background_pressure(
        &mut self,
        settings: &CpuSchedulerSettings,
        foreground_cpu_usage: Option<i64>,
        total_cpu_usage: Option<i64>,
    ) -> (r: bool)
        ensures
            r == (pressure_starts(*settings, foreground_cpu_usage, total_cpu_usage) || old(
                self,
            ).background_pressure_active && ((foreground_cpu_usage is None && total_cpu_usage is None)
                || pressure_holds(*settings, foreground_cpu_usage, total_cpu_usage))),
            final(self).background_pressure_active == r,
            final(self).failure_suppression == old(self).failure_suppression,
    {
        if cpu_pressure_restraint_should_run(settings, foreground_cpu_usage, total_cpu_usage) {
            self.background_pressure_active = true;
            return true;
        }
        if self.background_pressure_active && foreground_cpu_usage.is_none() && total_cpu_usage.is_none() {
            return true;
        }
        if self.background_pressure_active && cpu_pressure_above_recovery_threshold(
            settings,
            foreground_cpu_usage,
            total_cpu_usage,
        ) {
            return true;
        }
        self.background_pressure_active = false;
        false
    }
}

impl Default for CpuSchedulerManager {
    fn default() -> (r: Self)
        ensures
            r.wf(),
            r.failures() == Map::<Seq<char>, FailureState>::empty(),
            !r.background_pressure_active,
    {
        CpuSchedulerManager::new()
    }
}

/// Law: the recovery level never lies above the trigger, so a reading that
/// starts restraint also keeps it on.
pub proof fn law_pressure_start_implies_hold(
    settings: CpuSchedulerSettings,
    foreground: Option<i64>,
    total: Option<i64>,
)
    ensures
        pressure_starts(settings, foreground, total) ==> pressure_holds(settings, foreground, total),
{
}

/// Law: restraint, once on, is not switched off by a pass without readings
/// nor by one above the recovery level; it is off after a pass below the
/// recovery level (with a reading) that does not reach the trigger.
pub proof fn law_pressure_hysteresis(
    settings: CpuSchedulerSettings,
    active: bool,
    foreground: Option<i64>,
    total: Option<i64>,
)
    ensures
        active && foreground is None && total is None ==> (pressure_starts(settings, foreground, total) || active),
        (foreground is Some || total is Some) && !pressure_holds(settings, foreground, total) ==> !(pressure_starts(
            settings,
            foreground,
            total,
        ) || active && ((foreground is None && total is None) || pressure_holds(settings, foreground, total))),
{
}

/// Why a CPU Scheduler pass restrains nothing: automation off, the feature
/// off (both turn it off), or an unknown session or unreadable visible
/// windows (both pause it).
#[derive(Debug, Clone, Copy, PartialEq, Eq, Structural)]
pub enum CpuSchedulerHold {
    AutomationDisabled,
    FeatureDisabled,
    SessionUnknown,
    VisibleWindowsUnavailable,
}

/// The message of a held CPU Scheduler pass.
pub open spec fn cpu_hold_message(hold: CpuSchedulerHold) -> Seq<char> {
    match hold {
        CpuSchedulerHold::AutomationDisabled => "Automation disabled."@,
        CpuSchedulerHold::FeatureDisabled => "CPU Scheduler disabled."@,
        CpuSchedulerHold::SessionUnknown => "Paused: current Windows session is unknown."@,
        CpuSchedulerHold::VisibleWindowsUnavailable => "Paused: visible windows are unavailable."@,
    }
}

/// The reason every claim is released with on a held pass.
pub open spec fn cpu_hold_reason(hold: CpuSchedulerHold) -> Seq<char> {
    match hold {
        CpuSchedulerHold::AutomationDisabled => "automation disabled"@,
        CpuSchedulerHold::FeatureDisabled => "CPU Scheduler disabled"@,
        CpuSchedulerHold::SessionUnknown => "current Windows session is unknown"@,
        CpuSchedulerHold::VisibleWindowsUnavailable => "visible windows are unavailable"@,
    }
}

impl CpuSchedulerHold {
    /// Whether the hold turns the feature off (and forgets the failures).
    pub fn turns_off(&self) -> (r: bool)
        ensures
            r == (*self is AutomationDisabled || *self is FeatureDisabled),
    {
        match self {
            CpuSchedulerHold::AutomationDisabled | CpuSchedulerHold::FeatureDisabled => true,
            _ => false,
        }
    }

    /// The reason every claim is released with.
    pub fn reason(&self) -> (r: &'static str)
        ensures
            r@ == cpu_hold_reason(*self),
    {
        match self {
            CpuSchedulerHold::AutomationDisabled => "automation disabled",
            CpuSchedulerHold::FeatureDisabled => "CPU Scheduler disabled",
            CpuSchedulerHold::SessionUnknown => "current Windows session is unknown",
            CpuSchedulerHold::VisibleWindowsUnavailable => "visible windows are unavailable",
        }
    }
}

/// The hold a CPU Scheduler pass starts with, if any: automation off, both
/// of its policies off, or this process's session unknown. (Unreadable
/// visible windows hold it later, once the process list was read.)
pub fn cpu_scheduler_hold(
    automation_enabled: bool,
    settings: &CpuSchedulerSettings,
    current_session_id: Option<u32>,
) -> (r: Option<CpuSchedulerHold>)
    ensures
        r == if !automation_enabled {
            Some(CpuSchedulerHold::AutomationDisabled)
        } else if !settings.cpu_pressure_restraint_enabled && !settings.limit_background_processors_enabled {
            Some(CpuSchedulerHold::FeatureDisabled)
        } else if current_session_id is None {
            Some(CpuSchedulerHold::SessionUnknown)
        } else {
            None
        },
{
    if !automation_enabled {
        Some(CpuSchedulerHold::AutomationDisabled)
    } else if !settings.cpu_pressure_restraint_enabled && !settings.limit_background_processors_enabled {
        Some(CpuSchedulerHold::FeatureDisabled)
    } else if current_session_id.is_none() {
        Some(CpuSchedulerHold::SessionUnknown)
    } else {
        None
    }
}


/// The watched state of a process after it is listed again: what was
/// observed is kept only while it is the same process (same start time and
/// executable path); its name, path and start time are the current ones.
pub open spec fn tracked_state_of(
    r: CpuSchedulerProcess,
    prior: Option<CpuSchedulerProcess>,
    process_name: Seq<char>,
    executable_path: Seq<char>,
    creation_time: u64,
    canonical: Seq<CanonicalPath>,
) -> bool {
    &&& r.process_name@ == process_name
    &&& r.executable_path@ == executable_path
    &&& r.creation_time == creation_time
    &&& match prior {
        Some(p) => if p.creation_time == creation_time && same_executable_path_spec(
            p.executable_path@,
            executable_path,
            canonical,
        ) {
            &&& r.previous_cpu_time == p.previous_cpu_time
            &&& r.last_usage_tenths == p.last_usage_tenths
            &&& r.high_since == p.high_since
            &&& r.below_since == p.below_since
            &&& r.active_since == p.active_since
            &&& r.decision == p.decision
            &&& r.active == p.active
            &&& r.selected == p.selected
        } else {
            fresh_tracked(r)
        },
        None => fresh_tracked(r),
    }
}

/// Whether no process id is watched twice.
pub open spec fn tracked_ids_distinct(s: Seq<(u32, CpuSchedulerProcess)>) -> bool {
    forall|i: int, j: int| 0 <= i < j < s.len() ==> #[trigger] s[i].0 != #[trigger] s[j].0
}

/// Keeping some of the watched processes keeps their ids distinct.
pub proof fn lemma_filter_keeps_ids_distinct(
    s: Seq<(u32, CpuSchedulerProcess)>,
    keep: spec_fn((u32, CpuSchedulerProcess)) -> bool,
)
    requires
        tracked_ids_distinct(s),
    ensures
        tracked_ids_distinct(s.filter(keep)),
    decreases s.len(),
{
    reveal(Seq::filter);
    if s.len() > 0 {
        let rest = s.drop_last();
        assert(tracked_ids_distinct(rest)) by {
            assert forall|i: int, j: int| 0 <= i < j < rest.len() implies #[trigger] rest[i].0 != #[trigger] rest[j].0 by {
                assert(rest[i] == s[i]);
                assert(rest[j] == s[j]);
            }
        }
        lemma_filter_keeps_ids_distinct(rest, keep);
        let kept = rest.filter(keep);
        if keep(s.last()) {
            assert forall|i: int| 0 <= i < kept.len() implies kept[i].0 != s.last().0 by {
                assert(kept.contains(kept[i]));
                rest.lemma_filter_contains_rev(keep, kept[i]);
                let k = choose|k: int| 0 <= k < rest.len() && rest[k] == kept[i];
                assert(rest[k] == s[k]);
                assert(s[k].0 != s[s.len() - 1].0);
            }
            let out = s.filter(keep);
            assert(out == kept.push(s.last()));
            assert forall|i: int, j: int| 0 <= i < j < out.len() implies #[trigger] out[i].0 != #[trigger] out[j].0 by {
                assert(out[i] == kept[i]);
                if j < kept.len() {
                    assert(out[j] == kept[j]);
                }
            }
        } else {
            assert(s.filter(keep) == kept);
        }
    }
}

/// How taking a process's entry out of the watched list changes it: the
/// first entry with the id leaves and its state is handed out, or, with no
/// such entry, the list stays.
pub open spec fn taken_from(
    before: Seq<(u32, CpuSchedulerProcess)>,
    after: Seq<(u32, CpuSchedulerProcess)>,
    process_id: u32,
    taken: Option<CpuSchedulerProcess>,
) -> bool {
    match taken {
        Some(p) => exists|k: int|
            0 <= k < before.len() && before[k] == (process_id, p) && (forall|m: int|
                0 <= m < k ==> before[m].0 != process_id) && after == before.remove(k),
        None => (forall|m: int| 0 <= m < before.len() ==> before[m].0 != process_id) && after == before,
    }
}

/// A watched process's state for this pass: the previous state when it is
/// the same process instance (same start time and executable), with the
/// name, path and start time refreshed; otherwise a fresh state.
pub fn tracked_state(
    prior: Option<CpuSchedulerProcess>,
    process_name: &str,
    executable_path: &str,
    creation_time: u64,
    canonical: &CanonicalPaths,
) -> (r: CpuSchedulerProcess)
    ensures
        tracked_state_of(r, prior, process_name@, executable_path@, creation_time, canonical.entries@),
{
    match prior {
        Some(p) => if p.creation_time == creation_time && same_executable_path(
            p.executable_path.as_str(),
            executable_path,
            canonical,
        ) {
            CpuSchedulerProcess {
                process_name: String::from_str(process_name),
                executable_path: String::from_str(executable_path),
                creation_time,
                ..p
            }
        } else {
            fresh_tracked_state(process_name, executable_path, creation_time)
        },
        None => fresh_tracked_state(process_name, executable_path, creation_time),
    }
}

/// A state with nothing observed yet.
pub open spec fn fresh_tracked(r: CpuSchedulerProcess) -> bool {
    &&& r.previous_cpu_time is None
    &&& r.last_usage_tenths is None
    &&& r.high_since is None
    &&& r.below_since is None
    &&& r.active_since is None
    &&& r.decision is None
    &&& !r.active
    &&& !r.selected
}

fn fresh_tracked_state(process_name: &str, executable_path: &str, creation_time: u64) -> (r: CpuSchedulerProcess)
    ensures
        r.process_name@ == process_name@,
        r.executable_path@ == executable_path@,
        r.creation_time == creation_time,
        fresh_tracked(r),
{
    CpuSchedulerProcess {
        process_name: String::from_str(process_name),
        executable_path: String::from_str(executable_path),
        creation_time,
        previous_cpu_time: None,
        last_usage_tenths: None,
        high_since: None,
        below_since: None,
        active_since: None,
        decision: None,
        active: false,
        selected: false,
    }
}

pub open spec fn cpu_last_decision_for(selected: Seq<CpuSchedulerCandidate>, id: u32) -> Option<CpuSchedulerDecision>
    decreases selected.len(),
{
    if selected.len() == 0 {
        None
    } else if selected.last().process_id == id {
        Some(selected.last().decision)
    } else {
        cpu_last_decision_for(selected.drop_last(), id)
    }
}

/// The decision of the last selected candidate with the id.
pub fn cpu_selected_decision(selected: &Vec<CpuSchedulerCandidate>, id: u32) -> (r: Option<CpuSchedulerDecision>)
    ensures
        r == cpu_last_decision_for(selected@, id),
{
    let mut i: usize = selected.len();
    proof {
        assert(selected@.subrange(0, selected@.len() as int) =~= selected@);
    }
    while i > 0
        invariant
            i <= selected@.len(),
            cpu_last_decision_for(selected@, id) == cpu_last_decision_for(selected@.subrange(0, i as int), id),
        decreases i,
    {
        let ghost head = selected@.subrange(0, i as int);
        assert(head.last() == selected@[i - 1]);
        if selected[i - 1].process_id == id {
            return Some(selected[i - 1].decision);
        }
        assert(head.drop_last() =~= selected@.subrange(0, i - 1));
        i = i - 1;
    }
    None
}


/// The memory priority a setting applies, if any.
pub open spec fn memory_priority_of(setting: ProcessMemoryPrioritySetting) -> Option<ProcessMemoryPriority> {
    match setting {
        ProcessMemoryPrioritySetting::Default => None,
        ProcessMemoryPrioritySetting::VeryLow => Some(ProcessMemoryPriority::VeryLow),
        ProcessMemoryPrioritySetting::Low => Some(ProcessMemoryPriority::Low),
        ProcessMemoryPrioritySetting::Medium => Some(ProcessMemoryPriority::Medium),
        ProcessMemoryPrioritySetting::BelowNormal => Some(ProcessMemoryPriority::BelowNormal),
        ProcessMemoryPrioritySetting::Normal => Some(ProcessMemoryPriority::Normal),
    }
}

/// What a pass applies to a selected candidate besides its priority.
#[derive(Clone, Copy, Debug, PartialEq, Eq)]
pub struct SelectedRestraint {
    /// The memory priority, and whether the process counted as the
    /// foreground or as a visible window for it.
    pub memory_priority: Option<(ProcessMemoryPriority, bool, bool)>,
    /// How the process is confined, and to which processors.
    pub cpu_allocation: Option<(CpuAllocationMode, u64)>,
}

/// What restraining a selected candidate adds: with pressure restraint and
/// memory priority on, the memory priority of its kind (never the
/// foreground's); and a background process to be limited to processors,
/// unless an explicit allocation rule names it, is confined to `core_mask`
/// (when one was chosen), by soft CPU sets under dynamic resource zones, else
/// by the configured method.
pub fn selected_restraint(
    settings: &CpuSchedulerSettings,
    decision: CpuSchedulerDecision,
    tier: CpuSchedulerTier,
    explicitly_allocated: bool,
    dynamic_resource_zones_apply: bool,
    core_mask: Option<u64>,
) -> (r: SelectedRestraint)
    ensures
        r.memory_priority == (if settings.cpu_pressure_restraint_enabled && settings.memory_priority_enabled {
            let (value, fg, vis) = memory_policy_spec(*settings, false, tier is VisibleWindow);
            match memory_priority_of(value) {
                Some(p) => Some((p, fg, vis)),
                None => None,
            }
        } else {
            None
        }),
        r.cpu_allocation == (if decision is LimitProcessors && tier is Background && !explicitly_allocated {
            match core_mask {
                Some(m) => Some(
                    (
                        if dynamic_resource_zones_apply {
                            CpuAllocationMode::SoftCpuSets
                        } else {
                            match settings.cpu_allocation_method {
                                CpuAllocationMethod::CpuSetsSoft => CpuAllocationMode::SoftCpuSets,
                                CpuAllocationMethod::ProcessorAffinityHard => CpuAllocationMode::HardAffinity,
                            }
                        },
                        m,
                    ),
                ),
                None => None,
            }
        } else {
            None
        }),
{
    let memory_priority = if settings.cpu_pressure_restraint_enabled && settings.memory_priority_enabled {
        let visible = match tier {
            CpuSchedulerTier::VisibleWindow => true,
            _ => false,
        };
        let (value, fg, vis) = memory_priority_policy(settings, false, visible);
        match value.priority() {
            Some(p) => Some((p, fg, vis)),
            None => None,
        }
    } else {
        None
    };
    let limits = match (decision, tier) {
        (CpuSchedulerDecision::LimitProcessors, CpuSchedulerTier::Background) => !explicitly_allocated,
        _ => false,
    };
    let cpu_allocation = if limits {
        match core_mask {
            Some(m) => {
                let mode = if dynamic_resource_zones_apply {
                    CpuAllocationMode::SoftCpuSets
                } else {
                    cpu_allocation_method(settings)
                };
                Some((mode, m))
            },
            None => None,
        }
    } else {
        None
    };
    SelectedRestraint { memory_priority, cpu_allocation }
}

impl CpuSchedulerManager {
    /// Takes the watched state of a process out (the first entry for its
    /// id), to update it.
    pub fn take_tracked(&mut self, process_id: u32) -> (r: Option<CpuSchedulerProcess>)
        ensures
            final(self).failure_suppression == old(self).failure_suppression,
            final(self).background_pressure_active == old(self).background_pressure_active,
            final(self).cpu_allocation_selection == old(self).cpu_allocation_selection,
            taken_from(old(self).tracked_processes@, final(self).tracked_processes@, process_id, r),
    {
        let mut k: usize = 0;
        while k < self.tracked_processes.len()
            invariant
                k <= self.tracked_processes@.len(),
                self.tracked_processes@ == old(self).tracked_processes@,
                self.failure_suppression == old(self).failure_suppression,
                self.background_pressure_active == old(self).background_pressure_active,
                self.cpu_allocation_selection == old(self).cpu_allocation_selection,
                forall|m: int| 0 <= m < k ==> self.tracked_processes@[m].0 != process_id,
            decreases self.tracked_processes@.len() - k,
        {
            if self.tracked_processes[k].0 == process_id {
                let (_, p) = self.tracked_processes.remove(k);
                return Some(p);
            }
            k = k + 1;
        }
        None
    }

    /// Puts a process's watched state back.
    pub fn put_tracked(&mut self, process_id: u32, state: CpuSchedulerProcess)
        ensures
            final(self).failure_suppression == old(self).failure_suppression,
            final(self).background_pressure_active == old(self).background_pressure_active,
            final(self).cpu_allocation_selection == old(self).cpu_allocation_selection,
            final(self).tracked_processes@ == old(self).tracked_processes@.push((process_id, state)),
    {
        self.tracked_processes.push((process_id, state));
    }

    /// Observes a restrainable process in a pass: its watched state (kept
    /// only while it is the same process) takes the new CPU sample, and the
    /// sample decides whether it is a candidate for restraint.
    pub fn observe_process(
        &mut self,
        process_id: u32,
        process_name: &str,
        executable_path: &str,
        creation_time: u64,
        current: ProcessCpuSample,
        settings: &CpuSchedulerSettings,
        tier: CpuSchedulerTier,
        canonical: &CanonicalPaths,
        now: u128,
    ) -> (r: Option<CpuSchedulerCandidate>)
        ensures
            final(self).failure_suppression == old(self).failure_suppression,
            final(self).background_pressure_active == old(self).background_pressure_active,
            final(self).cpu_allocation_selection == old(self).cpu_allocation_selection,
            exists|prior: Option<CpuSchedulerProcess>, rest: Seq<(u32, CpuSchedulerProcess)>, state: CpuSchedulerProcess|
                {
                    &&& taken_from(old(self).tracked_processes@, rest, process_id, prior)
                    &&& tracked_state_of(state, prior, process_name@, executable_path@, creation_time, canonical.entries@)
                    &&& final(self).tracked_processes@.len() == rest.len() + 1
                    &&& final(self).tracked_processes@.drop_last() == rest
                    &&& final(self).tracked_processes@.last().0 == process_id
                    &&& cpu_sample_step(
                        state,
                        process_id,
                        current,
                        *settings,
                        tier,
                        now,
                        final(self).tracked_processes@.last().1,
                        r,
                    )
                },
            tracked_ids_distinct(old(self).tracked_processes@) ==> tracked_ids_distinct(
                final(self).tracked_processes@,
            ),
    {
        let prior = self.take_tracked(process_id);
        let ghost rest = self.tracked_processes@;
        let mut state = tracked_state(prior, process_name, executable_path, creation_time, canonical);
        let ghost identity = state;
        let r = update_cpu_scheduler_process(&mut state, process_id, current, settings, tier, now);
        self.put_tracked(process_id, state);
        proof {
            assert(self.tracked_processes@.drop_last() =~= rest);
            if tracked_ids_distinct(old(self).tracked_processes@) {
                let before = old(self).tracked_processes@;
                let after = self.tracked_processes@;
                assert(forall|m: int| 0 <= m < rest.len() ==> rest[m].0 != process_id) by {
                    match prior {
                        Some(p) => {
                            let k = choose|k: int|
                                0 <= k < before.len() && before[k] == (process_id, p) && (forall|m: int|
                                    0 <= m < k ==> before[m].0 != process_id) && rest == before.remove(k);
                            assert forall|m: int| 0 <= m < rest.len() implies rest[m].0 != process_id by {
                                if m < k {
                                    assert(rest[m] == before[m]);
                                } else {
                                    assert(rest[m] == before[m + 1]);
                                    assert(before[k].0 != before[m + 1].0);
                                }
                            }
                        },
                        None => {},
                    }
                }
                assert(tracked_ids_distinct(rest)) by {
                    match prior {
                        Some(p) => {
                            let k = choose|k: int|
                                0 <= k < before.len() && before[k] == (process_id, p) && (forall|m: int|
                                    0 <= m < k ==> before[m].0 != process_id) && rest == before.remove(k);
                            assert forall|i: int, j: int| 0 <= i < j < rest.len() implies #[trigger] rest[i].0
                                != #[trigger] rest[j].0 by {
                                let bi = if i < k { i } else { i + 1 };
                                let bj = if j < k { j } else { j + 1 };
                                assert(rest[i] == before[bi]);
                                assert(rest[j] == before[bj]);
                                assert(before[bi].0 != before[bj].0);
                            }
                        },
                        None => {},
                    }
                }
                assert forall|i: int, j: int| 0 <= i < j < after.len() implies #[trigger] after[i].0
                    != #[trigger] after[j].0 by {
                    if j == after.len() - 1 {
                        assert(after[i] == rest[i]);
                    } else {
                        assert(after[i] == rest[i]);
                        assert(after[j] == rest[j]);
                    }
                }
            }
            assert(taken_from(old(self).tracked_processes@, rest, process_id, prior));
            assert(tracked_state_of(identity, prior, process_name@, executable_path@, creation_time, canonical.entries@));
        }
        r
    }

    /// Forgets every watched process (when restraint does not apply), and
    /// the core selection.
    pub fn clear_tracked(&mut self)
        ensures
            final(self).failure_suppression == old(self).failure_suppression,
            final(self).background_pressure_active == old(self).background_pressure_active,
            final(self).tracked_processes@.len() == 0,
            final(self).cpu_allocation_selection is None,
    {
        self.tracked_processes = Vec::new();
        self.cpu_allocation_selection = None;
    }

    /// Marks this pass's selection on the watched processes: a selected one
    /// takes its (last) candidate's decision; an active one that was not
    /// selected is unselected and its decision dropped.
    pub fn mark_selection(&mut self, selected: &Vec<CpuSchedulerCandidate>)
        ensures
            final(self).failure_suppression == old(self).failure_suppression,
            final(self).background_pressure_active == old(self).background_pressure_active,
            tracked_ids_distinct(old(self).tracked_processes@) ==> tracked_ids_distinct(final(self).tracked_processes@),
            final(self).tracked_processes@.len() == old(self).tracked_processes@.len(),
            forall|i: int|
                0 <= i < old(self).tracked_processes@.len() ==> {
                    let (id, p) = #[trigger] old(self).tracked_processes@[i];
                    let q = final(self).tracked_processes@[i].1;
                    &&& final(self).tracked_processes@[i].0 == id
                    &&& q.process_name == p.process_name
                    &&& q.previous_cpu_time == p.previous_cpu_time
                    &&& q.last_usage_tenths == p.last_usage_tenths
                    &&& q.high_since == p.high_since
                    &&& q.below_since == p.below_since
                    &&& q.active_since == p.active_since
                    &&& q.executable_path == p.executable_path
                    &&& q.creation_time == p.creation_time
                    &&& q.active == p.active
                    &&& match cpu_last_decision_for(selected@, id) {
                        Some(d) => q.selected && q.decision == Some(d),
                        None => if p.active {
                            !q.selected && q.decision is None
                        } else {
                            q.selected == p.selected && q.decision == p.decision
                        },
                    }
                },
    {
        let mut i: usize = 0;
        while i < self.tracked_processes.len()
            invariant
                i <= self.tracked_processes@.len(),
                self.tracked_processes@.len() == old(self).tracked_processes@.len(),
                self.failure_suppression == old(self).failure_suppression,
                self.background_pressure_active == old(self).background_pressure_active,
                forall|j: int| i <= j < self.tracked_processes@.len() ==> self.tracked_processes@[j] == old(self).tracked_processes@[j],
                forall|j: int|
                    0 <= j < i ==> {
                        let (id, p) = #[trigger] old(self).tracked_processes@[j];
                        let q = self.tracked_processes@[j].1;
                        &&& self.tracked_processes@[j].0 == id
                        &&& q.process_name == p.process_name
                        &&& q.previous_cpu_time == p.previous_cpu_time
                        &&& q.last_usage_tenths == p.last_usage_tenths
                        &&& q.high_since == p.high_since
                        &&& q.below_since == p.below_since
                        &&& q.active_since == p.active_since
                        &&& q.executable_path == p.executable_path
                        &&& q.creation_time == p.creation_time
                        &&& q.active == p.active
                        &&& match cpu_last_decision_for(selected@, id) {
                            Some(d) => q.selected && q.decision == Some(d),
                            None => if p.active {
                                !q.selected && q.decision is None
                            } else {
                                q.selected == p.selected && q.decision == p.decision
                            },
                        }
                    },
            decreases self.tracked_processes@.len() - i,
        {
            let id = self.tracked_processes[i].0;
            let decision = cpu_selected_decision(selected, id);
            match decision {
                Some(d) => {
                    self.tracked_processes[i].1.selected = true;
                    self.tracked_processes[i].1.decision = Some(d);
                },
                None => {
                    if self.tracked_processes[i].1.active {
                        self.tracked_processes[i].1.selected = false;
                        self.tracked_processes[i].1.decision = None;
                    }
                },
            }
            i = i + 1;
        }
        proof {
            let before = old(self).tracked_processes@;
            let after = self.tracked_processes@;
            if tracked_ids_distinct(before) {
                assert forall|a: int, b: int| 0 <= a < b < after.len() implies #[trigger] after[a].0
                    != #[trigger] after[b].0 by {
                    let ea = before[a];
                    let eb = before[b];
                    assert(after[a].0 == ea.0);
                    assert(after[b].0 == eb.0);
                }
            }
        }
    }

    /// Forgets the tracked processes that are no longer listed.
    pub fn retain_tracked(&mut self, current_ids: &Vec<u32>)
        ensures
            final(self).failure_suppression == old(self).failure_suppression,
            final(self).background_pressure_active == old(self).background_pressure_active,
            tracked_ids_distinct(old(self).tracked_processes@) ==> tracked_ids_distinct(final(self).tracked_processes@),
            final(self).tracked_processes@ == old(self).tracked_processes@.filter(
                |e: (u32, CpuSchedulerProcess)| current_ids@.contains(e.0),
            ),
    {
        let ghost keep = |e: (u32, CpuSchedulerProcess)| current_ids@.contains(e.0);
        let ghost all = self.tracked_processes@;
        let n: usize = self.tracked_processes.len();
        let mut k: usize = 0;
        let mut j: usize = 0;
        proof {
            reveal(Seq::filter);
            assert(all.subrange(0, 0).filter(keep) =~= Seq::<(u32, CpuSchedulerProcess)>::empty());
            assert(self.tracked_processes@ =~= all.subrange(0, 0).filter(keep) + all.subrange(0, all.len() as int));
        }
        while j < self.tracked_processes.len()
            invariant
                k <= all.len(),
                all.len() == n,
                j == all.subrange(0, k as int).filter(keep).len(),
                self.tracked_processes@ == all.subrange(0, k as int).filter(keep) + all.subrange(k as int, all.len() as int),
                self.failure_suppression == old(self).failure_suppression,
                self.background_pressure_active == old(self).background_pressure_active,
                all == old(self).tracked_processes@,
                keep == (|e: (u32, CpuSchedulerProcess)| current_ids@.contains(e.0)),
            decreases all.len() - k,
        {
            let ghost before = self.tracked_processes@;
            let ghost pre = all.subrange(0, k as int).filter(keep);
            proof {
                assert(before.len() == j + (all.len() - k));
                assert(k < all.len());
                assert(before[j as int] == all[k as int]);
                assert(all.subrange(0, k + 1).drop_last() =~= all.subrange(0, k as int));
                assert(all.subrange(0, k + 1).last() == all[k as int]);
                reveal(Seq::filter);
            }
            if contains_id(current_ids, self.tracked_processes[j].0) {
                proof {
                    assert(all.subrange(0, k + 1).filter(keep) == pre.push(all[k as int]));
                    assert(self.tracked_processes@ =~= all.subrange(0, k + 1).filter(keep) + all.subrange(
                        k + 1,
                        all.len() as int,
                    ));
                }
                j = j + 1;
            } else {
                let _ = self.tracked_processes.remove(j);
                proof {
                    assert(all.subrange(0, k + 1).filter(keep) == pre);
                    assert(self.tracked_processes@ =~= all.subrange(0, k + 1).filter(keep) + all.subrange(
                        k + 1,
                        all.len() as int,
                    ));
                }
            }
            k = k + 1;
        }
        proof {
            assert(k == all.len()) by {
                if k < all.len() {
                    assert(self.tracked_processes@.len() == j + (all.len() - k));
                }
            }
            assert(all.subrange(0, all.len() as int) =~= all);
            assert(self.tracked_processes@ =~= all.filter(keep));
            if tracked_ids_distinct(all) {
                lemma_filter_keeps_ids_distinct(all, keep);
            }
        }
    }
}

/// A kind of claim the CPU Scheduler holds on processes.
#[derive(Debug, Clone, Copy, PartialEq, Eq, Structural)]
pub enum CpuSchedulerClaim {
    FocusProcessPriority,
    ProcessPriority,
    PowerPolicy,
    CpuAllocation,
    MemoryPriority,
}

/// Every kind of claim, in the order a release gives them back.
pub open spec fn all_cpu_scheduler_claims() -> Seq<CpuSchedulerClaim> {
    seq![
        CpuSchedulerClaim::FocusProcessPriority,
        CpuSchedulerClaim::ProcessPriority,
        CpuSchedulerClaim::PowerPolicy,
        CpuSchedulerClaim::CpuAllocation,
        CpuSchedulerClaim::MemoryPriority,
    ]
}

/// What a CPU Scheduler pass does before it restrains anything.
pub enum CpuSchedulerStep {
    /// Release every claim of `releases`, in order, with `reason`, and apply
    /// none; the pass reports `hold` (`None`: the process list could not be
    /// read).
    ReleaseAll { hold: Option<CpuSchedulerHold>, reason: &'static str, releases: Vec<CpuSchedulerClaim> },
    /// Look at the processes.
    Scan,
}

/// The step a pass takes from what it read: automation off, both policies
/// off, an unknown session, an unreadable process list or unreadable visible
/// windows (in that order) release every claim and apply none; otherwise
/// the pass looks at the processes.
pub fn cpu_scheduler_step(
    automation_enabled: bool,
    settings: &CpuSchedulerSettings,
    current_session_id: Option<u32>,
    process_list_read: bool,
    visible_windows_read: bool,
) -> (r: CpuSchedulerStep)
    ensures
        ({
            let hold = if !automation_enabled {
                Some(CpuSchedulerHold::AutomationDisabled)
            } else if !settings.cpu_pressure_restraint_enabled && !settings.limit_background_processors_enabled {
                Some(CpuSchedulerHold::FeatureDisabled)
            } else if current_session_id is None {
                Some(CpuSchedulerHold::SessionUnknown)
            } else if !process_list_read {
                None
            } else if !visible_windows_read {
                Some(CpuSchedulerHold::VisibleWindowsUnavailable)
            } else {
                None
            };
            if hold is None && process_list_read {
                r is Scan
            } else {
                &&& r matches CpuSchedulerStep::ReleaseAll { hold: h, reason, releases }
                &&& h == hold
                &&& releases@ == all_cpu_scheduler_claims()
                &&& reason@ == match hold {
                    Some(k) => cpu_hold_reason(k),
                    None => "process list unavailable"@,
                }
            }
        }),
{
    let hold = match cpu_scheduler_hold(automation_enabled, settings, current_session_id) {
        Some(h) => Some(h),
        None => if !process_list_read {
            None
        } else if !visible_windows_read {
            Some(CpuSchedulerHold::VisibleWindowsUnavailable)
        } else {
            return CpuSchedulerStep::Scan;
        },
    };
    let mut releases = Vec::new();
    releases.push(CpuSchedulerClaim::FocusProcessPriority);
    releases.push(CpuSchedulerClaim::ProcessPriority);
    releases.push(CpuSchedulerClaim::PowerPolicy);
    releases.push(CpuSchedulerClaim::CpuAllocation);
    releases.push(CpuSchedulerClaim::MemoryPriority);
    assert(releases@ =~= all_cpu_scheduler_claims());
    let reason = match hold {
        Some(h) => h.reason(),
        None => "process list unavailable",
    };
    CpuSchedulerStep::ReleaseAll { hold, reason, releases }
}

impl CpuSchedulerManager {
    /// Forgets what a pass carries to the next once every claim was
    /// released: the focus candidate, the foreground CPU sample and the
    /// background pressure.
    fn forget_pass_state(&mut self)
        ensures
            final(self).failure_suppression == old(self).failure_suppression,
            final(self).cpu_allocation_selection == old(self).cpu_allocation_selection,
            final(self).focus_process_candidate is None,
            group_sample_view(final(self).foreground_cpu_sample) is None,
            !final(self).background_pressure_active,
            final(self).tracked_processes@.len() == 0,
    {
        self.focus_process_candidate = None;
        self.foreground_cpu_sample = None;
        self.background_pressure_active = false;
        self.tracked_processes = Vec::new();
    }

    /// Ends a held pass once every claim was released with the hold's reason
    /// (`failures` are the release's): the pass state is forgotten, and so
    /// is every failure when the hold turns the feature off. The report:
    /// enabled unless turned off, the hold's message, the release's
    /// failures, nothing scanned, adjusted or skipped, no pressure.
    pub fn hold_snapshot(&mut self, hold: CpuSchedulerHold, failures: PriorityFailures) -> (r: CpuSchedulerSnapshot)
        requires
            old(self).wf(),
        ensures
            final(self).wf(),
            final(self).failures() == if hold is AutomationDisabled || hold is FeatureDisabled {
                Map::<Seq<char>, FailureState>::empty()
            } else {
                old(self).failures()
            },
            final(self).focus_process_candidate is None,
            group_sample_view(final(self).foreground_cpu_sample) is None,
            !final(self).background_pressure_active,
            final(self).tracked_processes@.len() == 0,
            r.enabled == !(hold is AutomationDisabled || hold is FeatureDisabled),
            r.scanned_processes == 0,
            r.adjusted_processes == 0,
            !r.focus_and_launch_profile_active,
            !r.cpu_pressure_restraint_active,
            r.foreground_cpu_usage_tenths is None,
            r.skipped_processes == 0,
            r.failed_processes == failures.count,
            r.adjusted_apps@.len() == 0,
            r.auto_excluded_processes@.len() == 0,
            r.message@ == cpu_hold_message(hold),
            r.last_error == failures.last_error,
    {
        self.forget_pass_state();
        let off = hold.turns_off();
        if off {
            self.failure_suppression.clear();
        }
        let message = match hold {
            CpuSchedulerHold::AutomationDisabled => "Automation disabled.",
            CpuSchedulerHold::FeatureDisabled => "CPU Scheduler disabled.",
            CpuSchedulerHold::SessionUnknown => "Paused: current Windows session is unknown.",
            CpuSchedulerHold::VisibleWindowsUnavailable => "Paused: visible windows are unavailable.",
        };
        CpuSchedulerSnapshot {
            enabled: !off,
            scanned_processes: 0,
            adjusted_processes: 0,
            focus_and_launch_profile_active: false,
            cpu_pressure_restraint_active: false,
            foreground_cpu_usage_tenths: None,
            skipped_processes: 0,
            failed_processes: failures.count,
            adjusted_apps: Vec::new(),
            auto_excluded_processes: Vec::new(),
            message: String::from_str(message),
            last_error: failures.last_error,
        }
    }

    /// Ends a pass whose process list could not be read, once every claim
    /// was released with reason `process list unavailable`: the pass state
    /// is forgotten, the failures kept. The report: enabled, the list's
    /// error as message, the release's failures, nothing scanned.
    pub fn list_unavailable_snapshot(&mut self, error: String, failures: PriorityFailures) -> (r: CpuSchedulerSnapshot)
        requires
            old(self).wf(),
        ensures
            final(self).wf(),
            final(self).failures() == old(self).failures(),
            final(self).focus_process_candidate is None,
            group_sample_view(final(self).foreground_cpu_sample) is None,
            !final(self).background_pressure_active,
            r.enabled,
            r.scanned_processes == 0,
            r.adjusted_processes == 0,
            !r.focus_and_launch_profile_active,
            !r.cpu_pressure_restraint_active,
            r.foreground_cpu_usage_tenths is None,
            r.skipped_processes == 0,
            r.failed_processes == failures.count,
            r.adjusted_apps@.len() == 0,
            r.auto_excluded_processes@.len() == 0,
            r.message@ == error@,
            r.last_error == failures.last_error,
    {
        self.forget_pass_state();
        CpuSchedulerSnapshot {
            enabled: true,
            scanned_processes: 0,
            adjusted_processes: 0,
            focus_and_launch_profile_active: false,
            cpu_pressure_restraint_active: false,
            foreground_cpu_usage_tenths: None,
            skipped_processes: 0,
            failed_processes: failures.count,
            adjusted_apps: Vec::new(),
            auto_excluded_processes: Vec::new(),
            message: error,
            last_error: failures.last_error,
        }
    }
}

/// The report of a CPU Scheduler pass that looked at processes: the
/// processes adjusted are the larger of those under its priority policy and
/// those its CPU allocation adjusted; the message is `CPU Scheduler active.`
pub fn cpu_scheduler_active_snapshot(
    scanned_processes: usize,
    policy_managed_processes: usize,
    allocation_adjusted_processes: usize,
    focus_and_launch_profile_active: bool,
    cpu_pressure_restraint_active: bool,
    foreground_cpu_usage_tenths: Option<u16>,
    skipped_processes: usize,
    failures: PriorityFailures,
    adjusted_apps: Vec<String>,
    auto_excluded_processes: Vec<String>,
) -> (r: CpuSchedulerSnapshot)
    ensures
        r.enabled,
        r.scanned_processes == scanned_processes,
        r.adjusted_processes == if policy_managed_processes >= allocation_adjusted_processes {
            policy_managed_processes
        } else {
            allocation_adjusted_processes
        },
        r.focus_and_launch_profile_active == focus_and_launch_profile_active,
        r.cpu_pressure_restraint_active == cpu_pressure_restraint_active,
        r.foreground_cpu_usage_tenths == foreground_cpu_usage_tenths,
        r.skipped_processes == skipped_processes,
        r.failed_processes == failures.count,
        r.adjusted_apps@ == adjusted_apps@,
        r.auto_excluded_processes@ == auto_excluded_processes@,
        r.message@ == "CPU Scheduler active."@,
        r.last_error == failures.last_error,
{
    CpuSchedulerSnapshot {
        enabled: true,
        scanned_processes,
        adjusted_processes: if policy_managed_processes >= allocation_adjusted_processes {
            policy_managed_processes
        } else {
            allocation_adjusted_processes
        },
        focus_and_launch_profile_active,
        cpu_pressure_restraint_active,
        foreground_cpu_usage_tenths,
        skipped_processes,
        failed_processes: failures.count,
        adjusted_apps,
        auto_excluded_processes,
        message: String::from_str("CPU Scheduler active."),
        last_error: failures.last_error,
    }
}

} // verus!
