use winderust::action_log::{ActionLog, ActionLogResult};
use winderust::config::{
    BackgroundProcessorSelection, CpuSchedulerSettings, ProcessMemoryPrioritySetting, ProcessPrioritySetting,
};
use winderust::cpu::{process_cpu_demand_percent, ProcessCpuSample};
use winderust::cpu_allocation::{LogicalProcessorInfo, LogicalProcessorKind};
use winderust::features::cpu_scheduler::{
    background_apply_summary_log_due, background_apply_summary_message, cpu_pressure_restraint_should_run,
    cpu_pressure_restraint_target, cpu_scheduler_candidate, cpu_scheduler_process_decision,
    dynamic_background_zone_percent, dynamic_resource_zone_masks, focus_and_launch_profile_enabled,
    is_builtin_excluded, load_aware_limited_core_mask, memory_priority_policy, process_age_in_focus_and_launch_window,
    process_priority_policy, select_cpu_scheduler_candidates, selected_background_processor_mask,
    should_skip_foreground_process, update_cpu_scheduler_process, CpuSchedulerCandidate, CpuSchedulerDecision,
    CpuSchedulerManager, CpuSchedulerProcess, CpuSchedulerTier, BACKGROUND_APPLY_SUMMARY_LOG_INTERVAL_NANOS,
    CPU_SCHEDULER_SELECTION_STICKINESS_TENTHS, FOCUS_AND_LAUNCH_PROFILE_WINDOW_NANOS,
};
use winderust::foreground::process_list::ProcessInfo;
use winderust::foreground::process_tree::foreground_process_group_ids;
use winderust::priority_class::{
    PriorityClassPreservation, PriorityClassValue, ABOVE_NORMAL_PRIORITY_CLASS, BELOW_NORMAL_PRIORITY_CLASS,
    HIGH_PRIORITY_CLASS, IDLE_PRIORITY_CLASS, NORMAL_PRIORITY_CLASS, REALTIME_PRIORITY_CLASS,
};

const SECOND: u128 = 1_000_000_000;
const MILLISECOND: u128 = 1_000_000;

fn cpu_scheduler_priority_value(setting: ProcessPrioritySetting) -> Option<PriorityClassValue> {
    PriorityClassValue::from_setting(setting)
}

#[test]
fn adaptive_efficiency_uses_the_configured_process_tier() {
    let mut settings = CpuSchedulerSettings {
        background_efficiency_mode: false,
        focus_process_background_efficiency_mode: true,
        visible_window_background_efficiency_mode: true,
        ..Default::default()
    };
    assert!(settings.background_efficiency_mode_for(true, false));
    assert!(settings.background_efficiency_mode_for(false, true));
    assert!(!settings.background_efficiency_mode_for(false, false));
    settings.focus_process_background_efficiency_override_enabled = false;
    assert!(!settings.background_efficiency_mode_for(true, false));
}

#[test]
fn repeated_failures_suppress_future_cpu_scheduler_attempts_once() {
    let mut manager = CpuSchedulerManager::default();
    let mut log = ActionLog::new(8);
    let executable_path = r"C:\Apps\app.exe";

    manager.record_process_failure(executable_path);
    manager.record_process_failure(r"C:/Apps/app.exe");
    assert!(!manager.is_process_suppressed(42, executable_path, &mut log, &mut Vec::new()));
    assert!(log.entries().is_empty());

    manager.record_process_failure(executable_path);
    assert!(manager.is_process_suppressed(42, executable_path, &mut log, &mut Vec::new()));
    assert!(manager.is_process_suppressed(43, r"C:/Apps/app.exe", &mut log, &mut Vec::new()));

    let entries = log.entries();
    assert_eq!(entries.len(), 1);
    assert_eq!(entries[0].process_name, executable_path);
    assert_eq!(entries[0].result, ActionLogResult::Skipped);
}

#[test]
fn priority_mapping_matches_configured_classes() {
    assert_eq!(cpu_scheduler_priority_value(ProcessPrioritySetting::Normal).unwrap().raw(), NORMAL_PRIORITY_CLASS);
    assert_eq!(
        cpu_scheduler_priority_value(ProcessPrioritySetting::BelowNormal).unwrap().raw(),
        BELOW_NORMAL_PRIORITY_CLASS
    );
    assert_eq!(cpu_scheduler_priority_value(ProcessPrioritySetting::Idle).unwrap().raw(), IDLE_PRIORITY_CLASS);
    assert_eq!(
        cpu_scheduler_priority_value(ProcessPrioritySetting::AboveNormal).unwrap().raw(),
        ABOVE_NORMAL_PRIORITY_CLASS
    );
    assert_eq!(cpu_scheduler_priority_value(ProcessPrioritySetting::Default), None);
    assert_eq!(cpu_scheduler_priority_value(ProcessPrioritySetting::High).unwrap().raw(), HIGH_PRIORITY_CLASS);
    assert_eq!(
        cpu_scheduler_priority_value(ProcessPrioritySetting::Realtime).unwrap().raw(),
        REALTIME_PRIORITY_CLASS
    );
    assert_eq!(NORMAL_PRIORITY_CLASS, 0x20);
    assert_eq!(BELOW_NORMAL_PRIORITY_CLASS, 0x4000);
    assert_eq!(IDLE_PRIORITY_CLASS, 0x40);
    assert_eq!(ABOVE_NORMAL_PRIORITY_CLASS, 0x8000);
    assert_eq!(HIGH_PRIORITY_CLASS, 0x80);
    assert_eq!(REALTIME_PRIORITY_CLASS, 0x100);
}

#[test]
fn cpu_pressure_restraint_respects_tiers_and_existing_ownership() {
    let settings = CpuSchedulerSettings {
        process_priority_enabled: true,
        background_priority: ProcessPrioritySetting::BelowNormal,
        visible_window_priority: ProcessPrioritySetting::Normal,
        background_efficiency_enabled: true,
        visible_window_background_efficiency_mode: true,
        background_efficiency_mode: true,
        ..Default::default()
    };

    let visible = cpu_pressure_restraint_target(&settings, CpuSchedulerTier::VisibleWindow, false).unwrap();
    assert_eq!(visible.priority.unwrap().raw(), NORMAL_PRIORITY_CLASS);
    assert!(visible.apply_background_efficiency);

    let background = cpu_pressure_restraint_target(&settings, CpuSchedulerTier::Background, true).unwrap();
    assert_eq!(background.priority.unwrap().raw(), BELOW_NORMAL_PRIORITY_CLASS);
    assert!(!background.apply_background_efficiency);
}

#[test]
fn focus_and_launch_profile_window_includes_new_processes_only() {
    assert!(process_age_in_focus_and_launch_window(2 * SECOND, FOCUS_AND_LAUNCH_PROFILE_WINDOW_NANOS));
    assert!(process_age_in_focus_and_launch_window(
        FOCUS_AND_LAUNCH_PROFILE_WINDOW_NANOS,
        FOCUS_AND_LAUNCH_PROFILE_WINDOW_NANOS
    ));
    assert!(!process_age_in_focus_and_launch_window(
        FOCUS_AND_LAUNCH_PROFILE_WINDOW_NANOS + MILLISECOND,
        FOCUS_AND_LAUNCH_PROFILE_WINDOW_NANOS
    ));
}

#[test]
fn focus_and_launch_profile_active_runs_for_any_cpu_scheduler_preset_while_app_is_launching() {
    let settings = CpuSchedulerSettings { cpu_pressure_restraint_enabled: true, ..Default::default() };

    assert!(focus_and_launch_profile_enabled(&settings, true));
    assert!(!focus_and_launch_profile_enabled(&settings, false));
    assert!(!focus_and_launch_profile_enabled(
        &CpuSchedulerSettings { cpu_pressure_restraint_enabled: false, ..settings.clone() },
        true
    ));
}

#[test]
fn background_apply_summary_message_uses_process_count() {
    assert_eq!(background_apply_summary_message(1), "Applied CPU Scheduler restraint to 1 process.");
    assert_eq!(background_apply_summary_message(3), "Applied CPU Scheduler restraint to 3 processes.");
}

#[test]
fn background_apply_summary_log_is_rate_limited() {
    let now: u128 = 1_000 * SECOND;

    assert!(background_apply_summary_log_due(None, now));
    assert!(!background_apply_summary_log_due(Some(now), now));
    assert!(!background_apply_summary_log_due(
        Some(now),
        now + BACKGROUND_APPLY_SUMMARY_LOG_INTERVAL_NANOS - MILLISECOND
    ));
    assert!(background_apply_summary_log_due(Some(now), now + BACKGROUND_APPLY_SUMMARY_LOG_INTERVAL_NANOS));
}

#[test]
fn builtin_exclusions_cover_system_shell_processes() {
    assert!(is_builtin_excluded("explorer.exe"));
    assert!(is_builtin_excluded("winlogon.exe"));
    assert!(!is_builtin_excluded("browser.exe"));
}

#[test]
fn foreground_skip_matches_pid_or_process_group() {
    let foreground_group = vec![42u32, 43];
    assert!(should_skip_foreground_process(42, Some(42), &foreground_group));
    assert!(should_skip_foreground_process(43, Some(42), &foreground_group));
    assert!(!should_skip_foreground_process(99, Some(42), &foreground_group));
}

fn process(id: u32, parent_id: Option<u32>, name: &str) -> ProcessInfo {
    ProcessInfo {
        id,
        creation_time: Some(1),
        parent_id,
        session_id: None,
        user_name: None,
        is_service_account: None,
        is_critical: Some(false),
        can_set_information: true,
        name: name.to_owned(),
        image_path: Some(name.to_owned()),
    }
}

#[test]
fn foreground_group_includes_child_processes() {
    let processes = vec![
        process(42, None, "foreground.exe"),
        process(99, Some(42), "worker.exe"),
        process(100, Some(99), "helper.exe"),
        process(101, None, "background.exe"),
    ];

    let group = foreground_process_group_ids(&processes, Some(42));

    assert!(group.contains(&42));
    assert!(group.contains(&99));
    assert!(group.contains(&100));
    assert!(!group.contains(&101));
    assert_eq!(group, vec![42, 99, 100]);
    assert!(foreground_process_group_ids(&processes, None).is_empty());
}

#[test]
fn foreground_group_finds_children_listed_before_their_parents() {
    let processes = vec![process(7, Some(5), "c.exe"), process(5, Some(1), "b.exe"), process(3, None, "x.exe")];
    assert_eq!(foreground_process_group_ids(&processes, Some(1)), vec![1, 5, 7]);
}

#[test]
fn cpu_scheduler_keeps_relative_restraints_when_foreground_saturates_cpu() {
    let settings = CpuSchedulerSettings {
        cpu_pressure_restraint_enabled: true,
        foreground_or_system_cpu_threshold_percent: 70,
        ..Default::default()
    };

    assert!(!cpu_pressure_restraint_should_run(&settings, Some(69_000), None));
    assert!(cpu_pressure_restraint_should_run(&settings, Some(70_000), None));
    assert!(cpu_pressure_restraint_should_run(&settings, Some(85_000), None));
    assert!(cpu_pressure_restraint_should_run(&settings, Some(100_000), None));
    assert!(cpu_pressure_restraint_should_run(&settings, Some(85_000), Some(100_000)));
}

#[test]
fn cpu_scheduler_runs_under_system_cpu_pressure() {
    let settings = CpuSchedulerSettings {
        cpu_pressure_restraint_enabled: true,
        foreground_or_system_cpu_threshold_percent: 70,
        ..Default::default()
    };

    assert!(!cpu_pressure_restraint_should_run(&settings, Some(10_000), Some(69_000)));
    assert!(cpu_pressure_restraint_should_run(&settings, Some(10_000), Some(70_000)));
    assert!(cpu_pressure_restraint_should_run(&settings, None, Some(70_000)));
}

#[test]
fn cpu_pressure_restraint_uses_recovery_band_before_stopping() {
    let settings = CpuSchedulerSettings {
        cpu_pressure_restraint_enabled: true,
        foreground_or_system_cpu_threshold_percent: 70,
        cpu_recovery_threshold_percent: 20,
        ..Default::default()
    };
    let mut manager = CpuSchedulerManager::default();

    assert!(!manager.update_background_pressure(&settings, Some(10_000), Some(69_000)));
    assert!(manager.update_background_pressure(&settings, Some(10_000), Some(70_000)));
    assert!(manager.update_background_pressure(&settings, None, None));
    assert!(manager.update_background_pressure(&settings, Some(10_000), Some(66_000)));
    assert!(manager.update_background_pressure(&settings, Some(10_000), Some(65_000)));
    assert!(manager.update_background_pressure(&settings, Some(85_000), Some(65_000)));
    assert!(!manager.update_background_pressure(&settings, Some(10_000), Some(64_900)));
}

#[test]
fn cpu_scheduler_selects_highest_scored_candidates() {
    let max_targeted: u8 = 6;
    let candidates = (0..=u32::from(max_targeted))
        .map(|process_id| CpuSchedulerCandidate {
            process_id,
            process_name: format!("app{process_id}.exe"),
            decision: CpuSchedulerDecision::LowerPriority,
            tier: CpuSchedulerTier::Background,
            score: process_id,
        })
        .collect::<Vec<_>>();

    let selected = select_cpu_scheduler_candidates(candidates, max_targeted);

    assert_eq!(selected.len(), usize::from(max_targeted));
    assert!(!selected.iter().any(|candidate| candidate.process_id == 0));
    assert_eq!(selected[0].process_id, 6);
}

fn watched(name: &str, usage_tenths: u16, now: u128, active_for: u128, selected: bool) -> CpuSchedulerProcess {
    CpuSchedulerProcess {
        process_name: name.to_owned(),
        executable_path: format!(r"C:\Apps\{name}"),
        creation_time: 1,
        previous_cpu_time: None,
        last_usage_tenths: Some(usage_tenths),
        high_since: Some(now - active_for),
        below_since: None,
        active_since: Some(now - active_for),
        decision: Some(CpuSchedulerDecision::LowerPriority),
        active: true,
        selected,
    }
}

#[test]
fn cpu_scheduler_selection_can_replace_cooler_selected_process() {
    let now: u128 = 1_000 * SECOND;
    let selected = watched("selected.exe", 100, now, 60 * SECOND, true);
    let hotter = watched("hotter.exe", 900, now, 0, false);

    let selected = select_cpu_scheduler_candidates(
        vec![
            cpu_scheduler_candidate(1, &selected, CpuSchedulerDecision::LowerPriority, CpuSchedulerTier::Background),
            cpu_scheduler_candidate(2, &hotter, CpuSchedulerDecision::LowerPriority, CpuSchedulerTier::Background),
        ],
        1,
    );

    assert_eq!(selected[0].process_id, 2);
}

#[test]
fn cpu_scheduler_candidate_score_uses_only_cpu_and_selection_stickiness() {
    let now: u128 = 1_000 * SECOND;
    let first = cpu_scheduler_candidate(
        1,
        &watched("worker.exe", 100, now, 0, false),
        CpuSchedulerDecision::LowerPriority,
        CpuSchedulerTier::Background,
    );
    let repeated = cpu_scheduler_candidate(
        1,
        &watched("worker.exe", 100, now, 0, false),
        CpuSchedulerDecision::LowerPriority,
        CpuSchedulerTier::Background,
    );

    assert_eq!(first.score, repeated.score);
    let selected = cpu_scheduler_candidate(
        1,
        &watched("worker.exe", 100, now, 0, true),
        CpuSchedulerDecision::LowerPriority,
        CpuSchedulerTier::Background,
    );
    assert_eq!(selected.score, first.score + CPU_SCHEDULER_SELECTION_STICKINESS_TENTHS);
    assert_eq!(first.score, 100);
}

#[test]
fn limit_background_processors_is_immediate_for_background_only() {
    let settings = CpuSchedulerSettings {
        cpu_pressure_restraint_enabled: true,
        limit_background_processors_enabled: true,
        ..Default::default()
    };

    assert_eq!(
        cpu_scheduler_process_decision(&settings, CpuSchedulerTier::VisibleWindow),
        CpuSchedulerDecision::LowerPriority
    );
    assert_eq!(
        cpu_scheduler_process_decision(&settings, CpuSchedulerTier::Background),
        CpuSchedulerDecision::LimitProcessors
    );

    let priority_only = CpuSchedulerSettings { limit_background_processors_enabled: false, ..settings };
    assert_eq!(
        cpu_scheduler_process_decision(&priority_only, CpuSchedulerTier::Background),
        CpuSchedulerDecision::LowerPriority
    );
}

fn processor(index: usize, core_index: u32, kind: LogicalProcessorKind, efficiency_class: u8) -> LogicalProcessorInfo {
    LogicalProcessorInfo { index, core_index, kind, efficiency_class }
}

#[test]
fn load_aware_core_mask_picks_low_load_standard_processors() {
    let processors = vec![
        processor(0, 0, LogicalProcessorKind::Standard, 0),
        processor(1, 1, LogicalProcessorKind::Standard, 0),
        processor(2, 2, LogicalProcessorKind::Standard, 0),
        processor(3, 3, LogicalProcessorKind::Standard, 0),
    ];
    let usages = vec![80_000i64, 10_000, 70_000, 20_000];

    let mask = load_aware_limited_core_mask(&processors, &usages, 50, None).unwrap();

    assert_eq!(mask, 0b1010);
}

#[test]
fn processor_limiting_detects_pressure_without_priority_restraint() {
    let settings = CpuSchedulerSettings {
        cpu_pressure_restraint_enabled: false,
        limit_background_processors_enabled: true,
        foreground_or_system_cpu_threshold_percent: 70,
        ..Default::default()
    };

    assert!(cpu_pressure_restraint_should_run(&settings, None, Some(70_000)));
}

#[test]
fn dynamic_resource_zones_keep_foreground_and_background_disjoint() {
    assert_eq!(dynamic_background_zone_percent(75), 25);
    assert_eq!(dynamic_background_zone_percent(100), 1);
    assert_eq!(dynamic_resource_zone_masks(0xFFFF, 0xF000), Some((0x0FFF, 0xF000)));
    assert_eq!(dynamic_resource_zone_masks(0xFFFF, 0xFFFF), None);
    assert_eq!(dynamic_resource_zone_masks(0xFFFF, 0), None);
}

#[test]
fn load_aware_core_mask_respects_all_performance_and_efficiency_pools() {
    let processors = vec![
        processor(0, 0, LogicalProcessorKind::Performance, 1),
        processor(1, 1, LogicalProcessorKind::Efficiency, 0),
        processor(2, 2, LogicalProcessorKind::Efficiency, 0),
        processor(3, 3, LogicalProcessorKind::Performance, 1),
    ];
    let usages = vec![1_000i64, 90_000, 10_000, 2_000];

    assert_eq!(load_aware_limited_core_mask(&processors, &usages, 50, None), Some(0b1001));
    assert_eq!(
        load_aware_limited_core_mask(&processors, &usages, 50, Some(LogicalProcessorKind::Performance)),
        Some(0b0001)
    );
    assert_eq!(
        load_aware_limited_core_mask(&processors, &usages, 50, Some(LogicalProcessorKind::Efficiency)),
        Some(0b0100)
    );
    assert_eq!(
        load_aware_limited_core_mask(&processors, &usages, 100, Some(LogicalProcessorKind::Performance)),
        Some(0b1001)
    );
    assert_eq!(
        load_aware_limited_core_mask(&processors, &usages, 100, Some(LogicalProcessorKind::Efficiency)),
        Some(0b0110)
    );
    assert_eq!(load_aware_limited_core_mask(&processors, &Vec::new(), 50, None), None);
}

#[test]
fn processor_selection_resolves_topology_and_custom_masks() {
    let processors = vec![
        processor(0, 0, LogicalProcessorKind::Performance, 1),
        processor(1, 0, LogicalProcessorKind::Performance, 1),
        processor(2, 1, LogicalProcessorKind::Efficiency, 0),
        processor(3, 2, LogicalProcessorKind::Efficiency, 0),
    ];

    assert_eq!(
        selected_background_processor_mask(&processors, BackgroundProcessorSelection::EfficiencyCores, &Vec::new()),
        Some(0b1100)
    );
    assert_eq!(
        selected_background_processor_mask(&processors, BackgroundProcessorSelection::AllCoresNoSmt, &Vec::new()),
        Some(0b1101)
    );
    assert_eq!(
        selected_background_processor_mask(&processors, BackgroundProcessorSelection::Custom, &vec![1, 4]),
        Some(0b0010)
    );
    assert_eq!(
        selected_background_processor_mask(&processors, BackgroundProcessorSelection::LeastUsed, &Vec::new()),
        None
    );
    assert_eq!(
        selected_background_processor_mask(
            &processors,
            BackgroundProcessorSelection::PerformanceCoresNoSmt,
            &Vec::new()
        ),
        Some(0b0001)
    );
}

#[test]
fn process_cpu_demand_percent_uses_one_logical_processor_capacity() {
    let now: u128 = 5 * SECOND;
    let previous = ProcessCpuSample { cpu_time_100ns: 0, sampled_at: now };
    let current = ProcessCpuSample { cpu_time_100ns: 10_000_000, sampled_at: now + SECOND };

    let usage = process_cpu_demand_percent(previous, current).unwrap();

    assert_eq!(usage.percent_thousandths(), 100_000);
}

#[test]
fn process_detection_falls_through_and_preservation_follows_selected_tier() {
    let mut settings = CpuSchedulerSettings {
        process_priority_preserve_foreground: true,
        process_priority_preserve_visible_window: true,
        process_priority_preserve_background: true,
        ..Default::default()
    };
    assert_eq!(
        process_priority_policy(&settings, true, true),
        (Some(PriorityClassValue::AboveNormal), PriorityClassPreservation::PreserveHigherOrHighOrRealtime)
    );
    settings.process_priority_foreground_detection_enabled = false;
    assert_eq!(
        process_priority_policy(&settings, true, true),
        (Some(PriorityClassValue::Normal), PriorityClassPreservation::PreserveHigherOrHighOrRealtime)
    );
    settings.process_priority_visible_window_detection_enabled = false;
    assert_eq!(
        process_priority_policy(&settings, true, true),
        (Some(PriorityClassValue::BelowNormal), PriorityClassPreservation::PreserveLowerOrHighOrRealtime)
    );
    let pressure = cpu_pressure_restraint_target(&settings, CpuSchedulerTier::VisibleWindow, true).unwrap();
    assert_eq!(pressure.priority, Some(PriorityClassValue::BelowNormal));
    assert_eq!(pressure.preservation, PriorityClassPreservation::PreserveLowerOrHighOrRealtime);
    settings.process_priority_preserve_background = false;
    assert_eq!(process_priority_policy(&settings, true, true).1, PriorityClassPreservation::PreserveHighOrRealtime);
    settings.process_priority_enabled = false;
    assert_eq!(process_priority_policy(&settings, true, true).0, None);
}

#[test]
fn memory_detection_falls_through_without_changing_default_semantics() {
    let mut settings = CpuSchedulerSettings {
        focus_process_memory_priority: ProcessMemoryPrioritySetting::Normal,
        visible_window_memory_priority: ProcessMemoryPrioritySetting::Medium,
        background_memory_priority: ProcessMemoryPrioritySetting::Low,
        ..Default::default()
    };
    assert_eq!(memory_priority_policy(&settings, true, true), (ProcessMemoryPrioritySetting::Normal, true, false));
    settings.memory_priority_foreground_detection_enabled = false;
    assert_eq!(memory_priority_policy(&settings, true, true), (ProcessMemoryPrioritySetting::Medium, false, true));
    settings.memory_priority_visible_window_detection_enabled = false;
    assert_eq!(memory_priority_policy(&settings, true, true), (ProcessMemoryPrioritySetting::Low, false, false));
    settings.background_memory_priority = ProcessMemoryPrioritySetting::Default;
    assert!(memory_priority_policy(&settings, false, true).0.priority().is_none());
}

fn sample(cpu_seconds: u64, at: u128) -> ProcessCpuSample {
    ProcessCpuSample { cpu_time_100ns: cpu_seconds * 10_000_000, sampled_at: at }
}

#[test]
fn tracked_process_is_restrained_then_recovers() {
    let settings = CpuSchedulerSettings {
        background_app_cpu_threshold_percent: 10,
        cpu_recovery_threshold_percent: 5,
        cpu_restraint_time_seconds: 10,
        cpu_recovery_time_seconds: 5,
        ..Default::default()
    };
    let mut state = CpuSchedulerProcess {
        process_name: "worker.exe".to_owned(),
        executable_path: r"C:\Apps\worker.exe".to_owned(),
        creation_time: 1,
        previous_cpu_time: None,
        last_usage_tenths: None,
        high_since: None,
        below_since: None,
        active_since: None,
        decision: None,
        active: false,
        selected: false,
    };
    let tier = CpuSchedulerTier::Background;
    // The first sample only records the CPU time.
    assert!(update_cpu_scheduler_process(&mut state, 7, sample(0, 0), &settings, tier, 0).is_none());
    // 50% of one processor over one second: a candidate.
    let c = update_cpu_scheduler_process(&mut state, 7, ProcessCpuSample { cpu_time_100ns: 5_000_000, sampled_at: SECOND }, &settings, tier, SECOND).unwrap();
    assert_eq!(c.score, 500);
    assert!(state.active);
    assert_eq!(state.active_since, Some(SECOND));
    state.selected = true;
    // Idle now, but the restraint time has not passed.
    let c = update_cpu_scheduler_process(&mut state, 7, ProcessCpuSample { cpu_time_100ns: 5_000_000, sampled_at: 2 * SECOND }, &settings, tier, 2 * SECOND).unwrap();
    assert_eq!(c.decision, CpuSchedulerDecision::LowerPriority);
    assert_eq!(state.last_usage_tenths, Some(0));
    // After the restraint time: recovery starts.
    let c = update_cpu_scheduler_process(&mut state, 7, ProcessCpuSample { cpu_time_100ns: 5_000_000, sampled_at: 20 * SECOND }, &settings, tier, 20 * SECOND).unwrap();
    assert_eq!(c.decision, CpuSchedulerDecision::LowerPriority);
    assert_eq!(state.below_since, Some(20 * SECOND));
    // After the recovery time: released.
    assert!(update_cpu_scheduler_process(&mut state, 7, ProcessCpuSample { cpu_time_100ns: 5_000_000, sampled_at: 25 * SECOND }, &settings, tier, 25 * SECOND).is_none());
    assert!(!state.active);
    assert!(!state.selected);
}
