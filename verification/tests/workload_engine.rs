use winderust::action_log::{ActionLog, ActionLogAction, ActionLogResult};
use winderust::config::{
    CpuRestrictionMode, ForegroundBoostPriority, PriorityRule, ProcessIoPriority, ProcessMemoryPriority,
    ProcessMemoryPrioritySetting, ProcessPriority, WorkloadEngineSettings,
};
use winderust::cpu::{process_cpu_usage_percent, ProcessCpuSample};
use winderust::cpu_allocation::{LogicalProcessorInfo, LogicalProcessorKind};
use winderust::features::workload_engine::{
    background_apply_summary_log_due, background_apply_summary_message, background_priority_restore_summary_message,
    foreground_boost_priority_class, foreground_boost_restore_summary_message, is_builtin_excluded,
    load_aware_limited_core_mask, logical_indices_to_limited_mask, matching_rule, power_throttling_enabled_state,
    process_age_in_launch_boost_window, process_failure_message, process_priority_class,
    select_workload_engine_candidates, should_skip_foreground_process, smart_efficiency_should_run,
    update_workload_engine_process, workload_engine_candidate, workload_engine_effective_cpu_percent_for_topology,
    workload_engine_launch_boost_enabled, workload_engine_minimum_cpu_percent_for_topology,
    workload_engine_priority_sustain, workload_engine_process_decision, workload_engine_should_run,
    workload_engine_statuses, limited_efficiency_preferred_core_mask, WorkloadEngineCandidate, WorkloadEngineDecision, WorkloadEngineManager,
    WorkloadEngineProcess, WorkloadEngineProcessState, BACKGROUND_APPLY_SUMMARY_LOG_INTERVAL_NANOS,
    FOREGROUND_LAUNCH_BOOST_WINDOW_NANOS, PROCESS_POWER_THROTTLING_EXECUTION_SPEED,
    PROCESS_POWER_THROTTLING_IGNORE_TIMER_RESOLUTION,
};
use winderust::foreground::process_list::ProcessInfo;
use winderust::foreground::process_tree::foreground_process_group_ids;
use winderust::priority_class::{
    ABOVE_NORMAL_PRIORITY_CLASS, BELOW_NORMAL_PRIORITY_CLASS, IDLE_PRIORITY_CLASS, NORMAL_PRIORITY_CLASS,
};

const SECOND: u128 = 1_000_000_000;
const MILLISECOND: u128 = 1_000_000;

#[test]
fn repeated_failures_suppress_future_workload_engine_attempts_once() {
    let mut manager = WorkloadEngineManager::default();
    let mut log = ActionLog::new(8);

    manager.record_process_failure("APP.exe");
    manager.record_process_failure("app.exe");
    assert!(!manager.is_process_suppressed(42, "app.exe", &mut log, &mut Vec::new()));
    assert!(log.entries().is_empty());

    manager.record_process_failure("app.exe");
    assert!(manager.is_process_suppressed(42, "app.exe", &mut log, &mut Vec::new()));
    assert!(manager.is_process_suppressed(43, "APP.exe", &mut log, &mut Vec::new()));

    let entries = log.entries();
    assert_eq!(entries.len(), 1);
    assert_eq!(entries[0].process_name, "app.exe");
    assert_eq!(entries[0].action, ActionLogAction::Skip);
    assert_eq!(entries[0].result, ActionLogResult::Skipped);
}

#[test]
fn priority_mapping_uses_safe_classes() {
    assert_eq!(process_priority_class(ProcessPriority::Normal), NORMAL_PRIORITY_CLASS);
    assert_eq!(process_priority_class(ProcessPriority::BelowNormal), BELOW_NORMAL_PRIORITY_CLASS);
    assert_eq!(process_priority_class(ProcessPriority::Idle), IDLE_PRIORITY_CLASS);
    assert_eq!(foreground_boost_priority_class(ForegroundBoostPriority::Auto, None), ABOVE_NORMAL_PRIORITY_CLASS);
    assert_eq!(foreground_boost_priority_class(ForegroundBoostPriority::Auto, Some(85_000)), NORMAL_PRIORITY_CLASS);
    assert_eq!(
        foreground_boost_priority_class(ForegroundBoostPriority::AboveNormal, Some(100_000)),
        ABOVE_NORMAL_PRIORITY_CLASS
    );
}

#[test]
fn foreground_launch_boost_window_includes_new_processes_only() {
    assert!(process_age_in_launch_boost_window(2 * SECOND, FOREGROUND_LAUNCH_BOOST_WINDOW_NANOS));
    assert!(process_age_in_launch_boost_window(
        FOREGROUND_LAUNCH_BOOST_WINDOW_NANOS,
        FOREGROUND_LAUNCH_BOOST_WINDOW_NANOS
    ));
    assert!(!process_age_in_launch_boost_window(
        FOREGROUND_LAUNCH_BOOST_WINDOW_NANOS + MILLISECOND,
        FOREGROUND_LAUNCH_BOOST_WINDOW_NANOS
    ));
}

#[test]
fn launch_boost_runs_for_any_workload_engine_preset_while_app_is_launching() {
    let settings =
        WorkloadEngineSettings { workload_engine_enabled: true, boost_foreground_app: false, ..Default::default() };

    assert!(workload_engine_launch_boost_enabled(&settings, true));
    assert!(!workload_engine_launch_boost_enabled(&settings, false));
    assert!(!workload_engine_launch_boost_enabled(
        &WorkloadEngineSettings { workload_engine_enabled: false, ..settings.clone() },
        true
    ));
}

#[test]
fn tests_background_apply_summary_message_uses_process_count() {
    assert_eq!(background_apply_summary_message(1), "Applied Workload Engine background restraint to 1 process.");
    assert_eq!(background_apply_summary_message(3), "Applied Workload Engine background restraint to 3 processes.");
}

#[test]
fn workload_engine_restore_summary_messages_use_process_count() {
    assert_eq!(
        background_priority_restore_summary_message(1, "process no longer matches a Workload Engine rule"),
        "Restored background priority for 1 process: process no longer matches a Workload Engine rule."
    );
    assert_eq!(
        background_priority_restore_summary_message(20, "process no longer matches a Workload Engine rule"),
        "Restored background priority for 20 processes: process no longer matches a Workload Engine rule."
    );
    assert_eq!(
        foreground_boost_restore_summary_message(17, "foreground app changed before stability delay"),
        "Restored foreground boost for 17 processes: foreground app changed before stability delay."
    );
}

#[test]
fn tests_background_apply_summary_log_is_rate_limited() {
    let now: u128 = 1_000 * SECOND;

    assert!(background_apply_summary_log_due(None, now));
    assert!(!background_apply_summary_log_due(Some(now), now));
    assert!(!background_apply_summary_log_due(
        Some(now),
        now + BACKGROUND_APPLY_SUMMARY_LOG_INTERVAL_NANOS - MILLISECOND
    ));
    assert!(background_apply_summary_log_due(Some(now), now + BACKGROUND_APPLY_SUMMARY_LOG_INTERVAL_NANOS));
}

#[test]
fn matching_rule_is_case_insensitive() {
    let settings = WorkloadEngineSettings {
        enabled: true,
        lower_background_apps: true,
        workload_engine_background_efficiency_enabled: true,
        workload_engine_background_priority: ProcessPriority::BelowNormal,
        lower_background_io_priority_enabled: false,
        lower_background_io_priority: ProcessIoPriority::VeryLow,
        workload_engine_memory_priority_enabled: false,
        workload_engine_foreground_memory_priority: ProcessMemoryPrioritySetting::Default,
        workload_engine_memory_priority: ProcessMemoryPriority::Low,
        lower_background_auto_cpu_percent: false,
        workload_engine_enabled: false,
        workload_engine_advanced_settings_enabled: false,
        workload_engine_affinity_escalation_enabled: false,
        workload_engine_affinity_mode: CpuRestrictionMode::SoftCpuSets,
        workload_engine_cpu_percent: 50,
        workload_engine_max_logical_processors: 0,
        workload_engine_total_threshold_percent: 70,
        workload_engine_threshold_percent: 25,
        workload_engine_restore_threshold_percent: 5,
        workload_engine_sustain_seconds: 2,
        workload_engine_minimum_restraint_seconds: 4,
        workload_engine_cooldown_seconds: 10,
        workload_engine_max_targeted_processes: 6,
        workload_engine_exclusions: Vec::new(),
        boost_foreground_app: false,
        foreground_boost: ForegroundBoostPriority::AboveNormal,
        foreground_stability_delay_ms: 750,
        rules: vec![PriorityRule {
            enabled: true,
            process_name: " Worker.EXE ".to_owned(),
            priority: ProcessPriority::BelowNormal,
        }],
    };

    assert!(matching_rule(&settings, "worker.exe").is_some());
    assert!(matching_rule(&settings, "other.exe").is_none());
}

#[test]
fn disabled_rules_do_not_match() {
    let settings = WorkloadEngineSettings {
        rules: vec![
            PriorityRule { enabled: false, process_name: "a.exe".to_owned(), priority: ProcessPriority::Idle },
            PriorityRule { enabled: true, process_name: "A.exe".to_owned(), priority: ProcessPriority::Normal },
        ],
        ..Default::default()
    };
    assert_eq!(matching_rule(&settings, "a.exe").unwrap().priority, ProcessPriority::Normal);
}

#[test]
fn tests_builtin_exclusions_cover_system_shell_processes() {
    assert!(is_builtin_excluded("explorer.exe"));
    assert!(is_builtin_excluded("winlogon.exe"));
    assert!(!is_builtin_excluded("browser.exe"));
}

#[test]
fn foreground_skip_matches_pid_or_process_name() {
    let foreground_group = vec![42u32];
    assert!(should_skip_foreground_process(42, "helper.exe", Some(42), &foreground_group, Some("app.exe")));
    assert!(should_skip_foreground_process(99, "APP.EXE", Some(42), &foreground_group, Some("app.exe")));
    assert!(!should_skip_foreground_process(99, "other.exe", Some(42), &foreground_group, Some("app.exe")));
}

fn process(id: u32, parent_id: Option<u32>, name: &str) -> ProcessInfo {
    ProcessInfo {
        id,
        parent_id,
        session_id: None,
        user_name: None,
        is_service_account: None,
        is_critical: None,
        can_set_information: false,
        name: name.to_owned(),
        image_path: None,
        creation_time: None,
    }
}

#[test]
fn tests_foreground_group_includes_child_processes() {
    let processes = vec![
        process(42, None, "foreground.exe"),
        process(99, Some(42), "worker.exe"),
        process(100, Some(99), "helper.exe"),
        process(101, None, "background.exe"),
    ];

    let group = foreground_process_group_ids(&processes, Some(42));

    assert!(group.contains(&42));
    assert!(group.contains(&99));
    assert!(group.contains(&100));
    assert!(!group.contains(&101));
}

#[test]
fn workload_engine_pauses_when_foreground_saturates_cpu() {
    let settings = WorkloadEngineSettings {
        workload_engine_enabled: true,
        workload_engine_total_threshold_percent: 70,
        ..Default::default()
    };

    assert!(!workload_engine_should_run(&settings, Some(69_000), None));
    assert!(workload_engine_should_run(&settings, Some(70_000), None));
    assert!(!workload_engine_should_run(&settings, Some(85_000), None));
    assert!(!workload_engine_should_run(&settings, Some(100_000), None));
    assert!(!workload_engine_should_run(&settings, Some(85_000), Some(100_000)));
}

#[test]
fn workload_engine_runs_under_system_cpu_pressure() {
    let settings = WorkloadEngineSettings {
        workload_engine_enabled: true,
        workload_engine_total_threshold_percent: 70,
        ..Default::default()
    };

    assert!(!workload_engine_should_run(&settings, Some(10_000), Some(69_000)));
    assert!(workload_engine_should_run(&settings, Some(10_000), Some(70_000)));
    assert!(workload_engine_should_run(&settings, None, Some(70_000)));
}

#[test]
fn workload_engine_pressure_uses_restore_band_before_stopping() {
    let settings = WorkloadEngineSettings {
        workload_engine_enabled: true,
        workload_engine_total_threshold_percent: 70,
        workload_engine_restore_threshold_percent: 20,
        ..Default::default()
    };
    let mut manager = WorkloadEngineManager::default();

    assert!(!manager.update_workload_engine_pressure(&settings, Some(10_000), Some(69_000)));
    assert!(manager.update_workload_engine_pressure(&settings, Some(10_000), Some(70_000)));
    assert!(manager.update_workload_engine_pressure(&settings, Some(10_000), Some(66_000)));
    assert!(!manager.update_workload_engine_pressure(&settings, Some(10_000), Some(64_000)));
}

#[test]
fn workload_engine_selects_highest_scored_candidates() {
    let max_targeted: u8 = 6;
    let candidates = (0..=u32::from(max_targeted))
        .map(|process_id| WorkloadEngineCandidate {
            process_id,
            process_name: format!("app{process_id}.exe"),
            decision: WorkloadEngineDecision::LowerPriority,
            score: process_id,
        })
        .collect::<Vec<_>>();

    let selected = select_workload_engine_candidates(candidates, max_targeted);

    assert_eq!(selected.len(), usize::from(max_targeted));
    assert!(!selected.iter().any(|candidate| candidate.process_id == 0));
}

fn engine_process(
    name: &str,
    usage_tenths: u16,
    high_since: u128,
    active_since: u128,
    restraint_count: u32,
    decision: WorkloadEngineDecision,
    selected: bool,
) -> WorkloadEngineProcess {
    WorkloadEngineProcess {
        process_name: name.to_owned(),
        previous_cpu_time: None,
        last_usage_tenths: Some(usage_tenths),
        high_since: Some(high_since),
        below_since: None,
        active_since: Some(active_since),
        last_reaction_millis: Some(100),
        restraint_count,
        decision: Some(decision),
        active: true,
        selected,
    }
}

#[test]
fn workload_engine_selection_can_replace_cooler_selected_process() {
    let now: u128 = 1_000 * SECOND;
    let selected = engine_process(
        "selected.exe",
        100,
        now - 60 * SECOND,
        now - 60 * SECOND,
        3,
        WorkloadEngineDecision::LowerPriority,
        true,
    );
    let hotter = engine_process("hotter.exe", 900, now, now, 0, WorkloadEngineDecision::LowerPriority, false);

    let selected = select_workload_engine_candidates(
        vec![
            workload_engine_candidate(1, &selected, WorkloadEngineDecision::LowerPriority, now),
            workload_engine_candidate(2, &hotter, WorkloadEngineDecision::LowerPriority, now),
        ],
        1,
    );

    assert_eq!(selected[0].process_id, 2);
}

#[test]
fn workload_engine_candidate_score_adds_every_bonus() {
    let now: u128 = 1_000 * SECOND;
    let p = engine_process("a.exe", 250, now, now - 90 * SECOND, 2, WorkloadEngineDecision::RestrictAffinity, true);
    let c = workload_engine_candidate(5, &p, WorkloadEngineDecision::RestrictAffinity, now);
    assert_eq!(c.score, 500 + 1000 + 1000 + 200 + 600);
}

#[test]
fn workload_engine_status_treats_unselected_hot_process_as_watching() {
    let now: u128 = 1_000 * SECOND;
    let mut manager = WorkloadEngineManager::default();
    manager.workload_engine.push((
        42,
        engine_process(
            "worker.exe",
            900,
            now - 2 * SECOND,
            now - SECOND,
            1,
            WorkloadEngineDecision::RestrictAffinity,
            false,
        ),
    ));

    let statuses = workload_engine_statuses(&manager.workload_engine, now);

    assert_eq!(statuses.len(), 1);
    assert_eq!(statuses[0].state, WorkloadEngineProcessState::Watching);
    assert_eq!(statuses[0].elapsed_seconds, Some(2));
}

#[test]
fn workload_engine_cpu_percent_relaxes_under_moderate_pressure() {
    let settings = WorkloadEngineSettings {
        lower_background_auto_cpu_percent: false,
        workload_engine_cpu_percent: 50,
        workload_engine_total_threshold_percent: 70,
        ..Default::default()
    };

    for has_efficiency_cores in [false, true] {
        assert_eq!(workload_engine_effective_cpu_percent_for_topology(&settings, None, has_efficiency_cores), 50);
        assert_eq!(
            workload_engine_effective_cpu_percent_for_topology(&settings, Some(70_000), has_efficiency_cores),
            75
        );
        assert_eq!(
            workload_engine_effective_cpu_percent_for_topology(&settings, Some(77_500), has_efficiency_cores),
            63
        );
        assert_eq!(
            workload_engine_effective_cpu_percent_for_topology(&settings, Some(85_000), has_efficiency_cores),
            50
        );
    }
}

#[test]
fn workload_engine_auto_cpu_percent_uses_topology_behavior_floor() {
    let settings = WorkloadEngineSettings {
        lower_background_auto_cpu_percent: true,
        workload_engine_cpu_percent: 25,
        workload_engine_total_threshold_percent: 75,
        ..Default::default()
    };

    assert_eq!(workload_engine_minimum_cpu_percent_for_topology(&settings, true), 70);
    let foreground_first = WorkloadEngineSettings { workload_engine_total_threshold_percent: 45, ..settings.clone() };
    assert_eq!(workload_engine_minimum_cpu_percent_for_topology(&foreground_first, true), 50);
    assert_eq!(workload_engine_effective_cpu_percent_for_topology(&settings, Some(75_000), true), 100);
    assert_eq!(workload_engine_effective_cpu_percent_for_topology(&settings, Some(80_000), true), 85);

    assert_eq!(workload_engine_minimum_cpu_percent_for_topology(&settings, false), 65);
    assert_eq!(workload_engine_effective_cpu_percent_for_topology(&settings, Some(75_000), false), 100);
    assert_eq!(workload_engine_effective_cpu_percent_for_topology(&settings, Some(80_000), false), 83);
}

#[test]
fn workload_engine_auto_mode_escalates_from_priority_to_affinity() {
    let settings = WorkloadEngineSettings {
        lower_background_auto_cpu_percent: true,
        workload_engine_affinity_escalation_enabled: false,
        workload_engine_sustain_seconds: 3,
        ..Default::default()
    };
    let now: u128 = 1_000 * SECOND;

    assert_eq!(
        workload_engine_process_decision(&settings, Some(now), now + 2 * SECOND),
        WorkloadEngineDecision::LowerPriority
    );
    assert_eq!(
        workload_engine_process_decision(&settings, Some(now), now + 3 * SECOND),
        WorkloadEngineDecision::LowerPriority
    );

    let escalating_settings =
        WorkloadEngineSettings { workload_engine_affinity_escalation_enabled: true, ..settings.clone() };
    assert_eq!(
        workload_engine_process_decision(&escalating_settings, Some(now), now + 3 * SECOND),
        WorkloadEngineDecision::RestrictAffinity
    );

    let manual_settings = WorkloadEngineSettings { lower_background_auto_cpu_percent: false, ..escalating_settings };
    assert_eq!(workload_engine_process_decision(&manual_settings, Some(now), now), WorkloadEngineDecision::RestrictAffinity);
}

#[test]
fn workload_engine_fast_priority_sustain_is_immediate() {
    let fast_settings = WorkloadEngineSettings {
        lower_background_auto_cpu_percent: true,
        workload_engine_sustain_seconds: 1,
        ..Default::default()
    };
    assert_eq!(workload_engine_priority_sustain(&fast_settings, 0), 0);

    let balanced_settings = WorkloadEngineSettings {
        lower_background_auto_cpu_percent: true,
        workload_engine_sustain_seconds: 2,
        ..Default::default()
    };
    assert_eq!(workload_engine_priority_sustain(&balanced_settings, 0), 2 * SECOND);
    assert_eq!(workload_engine_priority_sustain(&balanced_settings, 1), SECOND);

    let manual_settings = WorkloadEngineSettings {
        lower_background_auto_cpu_percent: false,
        workload_engine_sustain_seconds: 1,
        ..Default::default()
    };
    assert_eq!(workload_engine_priority_sustain(&manual_settings, 1), SECOND);
}

#[test]
fn smart_efficiency_auto_mode_runs_under_cpu_pressure() {
    let settings = WorkloadEngineSettings {
        lower_background_auto_cpu_percent: true,
        workload_engine_total_threshold_percent: 75,
        ..Default::default()
    };

    assert!(!smart_efficiency_should_run(&settings, None, None));
    assert!(!smart_efficiency_should_run(&settings, Some(74_000), None));
    assert!(smart_efficiency_should_run(&settings, Some(75_000), None));
    assert!(smart_efficiency_should_run(&settings, Some(10_000), Some(75_000)));
    assert!(!smart_efficiency_should_run(&settings, Some(85_000), Some(100_000)));

    let manual_settings = WorkloadEngineSettings { lower_background_auto_cpu_percent: false, ..settings };
    assert!(smart_efficiency_should_run(&manual_settings, None, None));
}

fn processor(index: usize, core_index: u32, kind: LogicalProcessorKind, efficiency_class: u8) -> LogicalProcessorInfo {
    LogicalProcessorInfo { index, core_index, kind, efficiency_class }
}

#[test]
fn tests_load_aware_core_mask_picks_low_load_standard_processors() {
    let processors = vec![
        processor(0, 0, LogicalProcessorKind::Standard, 0),
        processor(1, 1, LogicalProcessorKind::Standard, 0),
        processor(2, 2, LogicalProcessorKind::Standard, 0),
        processor(3, 3, LogicalProcessorKind::Standard, 0),
    ];
    let usages = vec![80_000i64, 10_000, 70_000, 20_000];

    let mask = load_aware_limited_core_mask(&processors, &usages, 50, 0).unwrap();

    assert_eq!(mask, 0b1010);
}

#[test]
fn load_aware_core_mask_prefers_efficiency_processors() {
    let processors = vec![
        processor(0, 0, LogicalProcessorKind::Performance, 1),
        processor(1, 1, LogicalProcessorKind::Efficiency, 0),
        processor(2, 2, LogicalProcessorKind::Efficiency, 0),
        processor(3, 3, LogicalProcessorKind::Performance, 1),
    ];
    let usages = vec![1_000i64, 90_000, 10_000, 2_000];

    let mask = load_aware_limited_core_mask(&processors, &usages, 50, 0).unwrap();

    assert_eq!(mask, 0b0100);
}

#[test]
fn limited_masks_respect_the_processor_cap() {
    assert_eq!(logical_indices_to_limited_mask(&vec![3, 1, 2, 0], 100, 2), Some(0b1010));
    assert_eq!(logical_indices_to_limited_mask(&vec![5, 70], 100, 0), Some(0b100000));
    assert_eq!(logical_indices_to_limited_mask(&vec![70], 100, 0), None);
    assert_eq!(logical_indices_to_limited_mask(&Vec::new(), 50, 0), None);
}

#[test]
fn tests_process_cpu_usage_percent_scales_by_processor_count() {
    let now: u128 = 5 * SECOND;
    let previous = ProcessCpuSample { cpu_time_100ns: 0, sampled_at: now };
    let current = ProcessCpuSample { cpu_time_100ns: 10_000_000, sampled_at: now + SECOND };

    let usage = process_cpu_usage_percent(previous, current, 8).unwrap();

    assert!(usage.percent_thousandths() > 0);
    assert!(usage.percent_thousandths() <= 100_000);
    assert_eq!(usage.percent_thousandths(), 12_500);
}

#[test]
fn power_throttling_state_sets_timer_ignore_only_when_allowed() {
    let allowed = power_throttling_enabled_state(None, true);
    assert_ne!(allowed.state_mask & PROCESS_POWER_THROTTLING_EXECUTION_SPEED, 0);
    assert_ne!(allowed.state_mask & PROCESS_POWER_THROTTLING_IGNORE_TIMER_RESOLUTION, 0);

    let blocked = power_throttling_enabled_state(None, false);
    assert_ne!(blocked.state_mask & PROCESS_POWER_THROTTLING_EXECUTION_SPEED, 0);
    assert_eq!(blocked.state_mask & PROCESS_POWER_THROTTLING_IGNORE_TIMER_RESOLUTION, 0);
}

#[test]
fn failure_messages_name_an_unnamed_process() {
    assert_eq!(process_failure_message("Restore", 7, "", "gone"), "Restore process (7): gone");
    assert_eq!(process_failure_message("Apply", 8, "a.exe", "denied"), "Apply a.exe (8): denied");
}

#[test]
fn hot_process_waits_for_the_sustain_time_then_is_restrained() {
    let settings = WorkloadEngineSettings {
        workload_engine_threshold_percent: 25,
        workload_engine_sustain_seconds: 2,
        ..Default::default()
    };
    let mut state = WorkloadEngineProcess {
        process_name: "worker.exe".to_owned(),
        previous_cpu_time: Some(ProcessCpuSample { cpu_time_100ns: 0, sampled_at: 0 }),
        last_usage_tenths: None,
        high_since: None,
        below_since: None,
        active_since: None,
        last_reaction_millis: None,
        restraint_count: 0,
        decision: None,
        active: false,
        selected: false,
    };
    // 50% of one processor: hot, but not for long enough.
    let sample = |cpu_seconds_tenths: u64, at: u128| ProcessCpuSample { cpu_time_100ns: cpu_seconds_tenths * 1_000_000, sampled_at: at };
    assert!(update_workload_engine_process(&mut state, 9, sample(5, SECOND), 1, &settings, SECOND).is_none());
    assert_eq!(state.high_since, Some(SECOND));
    let c = update_workload_engine_process(&mut state, 9, sample(20, 4 * SECOND), 1, &settings, 4 * SECOND).unwrap();
    assert_eq!(c.decision, WorkloadEngineDecision::RestrictAffinity);
    assert_eq!(state.restraint_count, 1);
    assert_eq!(state.last_reaction_millis, Some(3_000));
    assert!(state.active);
}

#[test]
fn selection_marks_selected_and_releases_the_rest() {
    let mut manager = WorkloadEngineManager::new();
    let mut idle = engine_process("idle.exe", 0, 0, 0, 0, WorkloadEngineDecision::LowerPriority, false);
    idle.active = false;
    manager.workload_engine = vec![
        (1, engine_process("a.exe", 500, 0, 0, 0, WorkloadEngineDecision::LowerPriority, false)),
        (2, engine_process("b.exe", 500, 0, 0, 0, WorkloadEngineDecision::LowerPriority, true)),
        (3, idle),
    ];
    let selected = vec![
        WorkloadEngineCandidate {
            process_id: 1,
            process_name: "a.exe".to_owned(),
            decision: WorkloadEngineDecision::LowerPriority,
            score: 10,
        },
        WorkloadEngineCandidate {
            process_id: 1,
            process_name: "a.exe".to_owned(),
            decision: WorkloadEngineDecision::RestrictAffinity,
            score: 10,
        },
    ];
    manager.apply_selection(&selected);
    assert!(manager.workload_engine[0].1.selected);
    assert_eq!(manager.workload_engine[0].1.decision, Some(WorkloadEngineDecision::RestrictAffinity));
    assert!(!manager.workload_engine[1].1.selected);
    assert_eq!(manager.workload_engine[1].1.decision, None);
    assert_eq!(manager.workload_engine[2].1.decision, Some(WorkloadEngineDecision::LowerPriority));

    manager.retain_current_processes(&vec![3, 1, 9]);
    let ids: Vec<u32> = manager.workload_engine.iter().map(|(id, _)| *id).collect();
    assert_eq!(ids, vec![1, 3]);
    manager.clear_engine();
    assert!(manager.workload_engine.is_empty());
    assert!(!manager.workload_engine_pressure_active);
}

#[test]
fn efficiency_preferred_mask_takes_the_lowest_efficiency_indices() {
    let e = LogicalProcessorKind::Efficiency;
    let p = LogicalProcessorKind::Performance;
    let processors = vec![
        processor(0, 0, p, 1),
        processor(6, 4, e, 0),
        processor(1, 0, p, 1),
        processor(4, 2, e, 0),
        processor(5, 3, e, 0),
        processor(4, 2, e, 0),
    ];
    assert_eq!(limited_efficiency_preferred_core_mask(&processors, 50, 0), Some(0b11_0000));
    assert_eq!(limited_efficiency_preferred_core_mask(&processors, 100, 1), Some(0b1_0000));
    let standard = vec![processor(3, 1, p, 1), processor(2, 1, p, 1), processor(0, 0, p, 1)];
    assert_eq!(limited_efficiency_preferred_core_mask(&standard, 50, 0), Some(0b101));
    assert_eq!(limited_efficiency_preferred_core_mask(&Vec::new(), 50, 0), None);
}

#[test]
fn engine_status_reports_launch_boost_before_waiting() {
    let settings = WorkloadEngineSettings { workload_engine_enabled: true, ..WorkloadEngineSettings::default() };
    assert_eq!(
        winderust::features::workload_engine::workload_engine_status(&settings, None, None, true, false, 0),
        winderust::features::workload_engine::WorkloadEngineStatus::LaunchBoost
    );
    let waiting = winderust::features::workload_engine::workload_engine_status(
        &settings,
        Some(12_345),
        Some(55_550),
        false,
        false,
        0,
    );
    assert_eq!(
        waiting,
        winderust::features::workload_engine::WorkloadEngineStatus::WaitingForCpu {
            foreground_tenths: 123,
            total_tenths: 556,
            threshold_percent: settings.workload_engine_total_threshold_percent.min(100),
        }
    );
    assert_eq!(
        winderust::features::workload_engine::workload_engine_status(&settings, None, None, false, true, 2),
        winderust::features::workload_engine::WorkloadEngineStatus::Balancing { count: 2 }
    );
    let off = WorkloadEngineSettings { workload_engine_enabled: false, ..WorkloadEngineSettings::default() };
    assert_eq!(
        winderust::features::workload_engine::workload_engine_status(&off, None, None, true, true, 2),
        winderust::features::workload_engine::WorkloadEngineStatus::Disabled
    );
}

#[test]
fn workload_engine_status_reports_launch_boost_before_cpu_waiting() {
    let settings = WorkloadEngineSettings { workload_engine_enabled: true, ..WorkloadEngineSettings::default() };

    assert_eq!(
        winderust::features::workload_engine::workload_engine_status_message(&settings, None, None, true, false, 0),
        Some("Launch boost active: boosting the foreground app while background restraints wait.")
    );
}
