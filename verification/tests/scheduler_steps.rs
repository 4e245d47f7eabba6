use winderust::config::{
    BackgroundEfficiencySettings, CpuAllocationMethod, CpuSchedulerSettings, ProcessMemoryPriority,
    ProcessMemoryPrioritySetting,
};
use winderust::cpu_allocation::CpuAllocationMode;
use winderust::cpu::ProcessCpuSample;
use winderust::features::background_efficiency::{
    background_efficiency_step, BackgroundEfficiencyHold, BackgroundEfficiencyStep,
};
use winderust::features::cpu_scheduler::{
    cpu_scheduler_step, select_cpu_scheduler_candidates, selected_restraint, tracked_state, CpuSchedulerCandidate, CpuSchedulerClaim,
    CpuSchedulerDecision, CpuSchedulerHold, CpuSchedulerManager, CpuSchedulerProcess, CpuSchedulerStep,
    CpuSchedulerTier,
};
use winderust::foreground::process_list::CanonicalPaths;

const SECOND: u128 = 1_000_000_000;

fn all_claims() -> Vec<CpuSchedulerClaim> {
    vec![
        CpuSchedulerClaim::FocusProcessPriority,
        CpuSchedulerClaim::ProcessPriority,
        CpuSchedulerClaim::PowerPolicy,
        CpuSchedulerClaim::CpuAllocation,
        CpuSchedulerClaim::MemoryPriority,
    ]
}

fn restraint_on() -> CpuSchedulerSettings {
    CpuSchedulerSettings { cpu_pressure_restraint_enabled: true, ..Default::default() }
}

fn candidate(process_id: u32, name: &str, score: u32, decision: CpuSchedulerDecision) -> CpuSchedulerCandidate {
    CpuSchedulerCandidate {
        process_id,
        process_name: name.to_owned(),
        decision,
        tier: CpuSchedulerTier::Background,
        score,
    }
}

fn watched(path: &str, creation_time: u64) -> CpuSchedulerProcess {
    CpuSchedulerProcess {
        process_name: "worker.exe".to_owned(),
        executable_path: path.to_owned(),
        creation_time,
        previous_cpu_time: Some(ProcessCpuSample { cpu_time_100ns: 10, sampled_at: SECOND }),
        last_usage_tenths: Some(500),
        high_since: Some(SECOND),
        below_since: None,
        active_since: Some(SECOND),
        decision: Some(CpuSchedulerDecision::LowerPriority),
        active: true,
        selected: true,
    }
}

#[test]
fn cpu_scheduler_step_releases_every_claim_when_automation_is_off() {
    match cpu_scheduler_step(false, &restraint_on(), Some(1), true, true) {
        CpuSchedulerStep::ReleaseAll { hold, reason, releases } => {
            assert_eq!(hold, Some(CpuSchedulerHold::AutomationDisabled));
            assert_eq!(reason, "automation disabled");
            assert_eq!(releases, all_claims());
        }
        CpuSchedulerStep::Scan => panic!("automation off must release"),
    }
}

#[test]
fn cpu_scheduler_step_releases_every_claim_when_both_policies_are_off() {
    let settings = CpuSchedulerSettings {
        cpu_pressure_restraint_enabled: false,
        limit_background_processors_enabled: false,
        ..Default::default()
    };
    match cpu_scheduler_step(true, &settings, Some(1), true, true) {
        CpuSchedulerStep::ReleaseAll { hold, reason, releases } => {
            assert_eq!(hold, Some(CpuSchedulerHold::FeatureDisabled));
            assert_eq!(reason, "CPU Scheduler disabled");
            assert_eq!(releases, all_claims());
        }
        CpuSchedulerStep::Scan => panic!("a disabled scheduler must release"),
    }
}

#[test]
fn cpu_scheduler_step_pauses_on_unknown_session_then_list_then_windows() {
    let settings = restraint_on();
    match cpu_scheduler_step(true, &settings, None, false, false) {
        CpuSchedulerStep::ReleaseAll { hold, reason, .. } => {
            assert_eq!(hold, Some(CpuSchedulerHold::SessionUnknown));
            assert_eq!(reason, "current Windows session is unknown");
        }
        CpuSchedulerStep::Scan => panic!("unknown session must release"),
    }
    match cpu_scheduler_step(true, &settings, Some(1), false, false) {
        CpuSchedulerStep::ReleaseAll { hold, reason, releases } => {
            assert_eq!(hold, None);
            assert_eq!(reason, "process list unavailable");
            assert_eq!(releases, all_claims());
        }
        CpuSchedulerStep::Scan => panic!("an unreadable list must release"),
    }
    match cpu_scheduler_step(true, &settings, Some(1), true, false) {
        CpuSchedulerStep::ReleaseAll { hold, reason, .. } => {
            assert_eq!(hold, Some(CpuSchedulerHold::VisibleWindowsUnavailable));
            assert_eq!(reason, "visible windows are unavailable");
        }
        CpuSchedulerStep::Scan => panic!("unreadable windows must release"),
    }
    assert!(matches!(cpu_scheduler_step(true, &settings, Some(1), true, true), CpuSchedulerStep::Scan));
}

#[test]
fn background_efficiency_step_releases_when_automation_or_feature_is_off() {
    let settings = BackgroundEfficiencySettings { enabled: true, ..Default::default() };
    match background_efficiency_step(false, &settings, Some(4), true, Some(1), true) {
        BackgroundEfficiencyStep::ReleaseAll { hold, reason } => {
            assert_eq!(hold, Some(BackgroundEfficiencyHold::AutomationDisabled));
            assert_eq!(reason, "automation disabled");
        }
        BackgroundEfficiencyStep::Scan => panic!("automation off must release"),
    }
    let off = BackgroundEfficiencySettings { enabled: false, ..Default::default() };
    match background_efficiency_step(true, &off, Some(4), true, Some(1), true) {
        BackgroundEfficiencyStep::ReleaseAll { hold, reason } => {
            assert_eq!(hold, Some(BackgroundEfficiencyHold::FeatureDisabled));
            assert_eq!(reason, "Background Efficiency disabled");
        }
        BackgroundEfficiencyStep::Scan => panic!("a disabled feature must release"),
    }
}

#[test]
fn background_efficiency_step_pauses_then_scans() {
    let settings = BackgroundEfficiencySettings {
        enabled: true,
        protect_foreground_app: true,
        protect_visible_window_apps: true,
        ..Default::default()
    };
    match background_efficiency_step(true, &settings, None, true, Some(1), true) {
        BackgroundEfficiencyStep::ReleaseAll { hold, .. } => {
            assert_eq!(hold, Some(BackgroundEfficiencyHold::ForegroundUnknown))
        }
        BackgroundEfficiencyStep::Scan => panic!("unknown foreground must release"),
    }
    match background_efficiency_step(true, &settings, Some(4), false, Some(1), true) {
        BackgroundEfficiencyStep::ReleaseAll { hold, .. } => {
            assert_eq!(hold, Some(BackgroundEfficiencyHold::VisibleWindowsUnavailable))
        }
        BackgroundEfficiencyStep::Scan => panic!("unreadable windows must release"),
    }
    match background_efficiency_step(true, &settings, Some(4), true, None, true) {
        BackgroundEfficiencyStep::ReleaseAll { hold, .. } => {
            assert_eq!(hold, Some(BackgroundEfficiencyHold::SessionUnknown))
        }
        BackgroundEfficiencyStep::Scan => panic!("unknown session must release"),
    }
    match background_efficiency_step(true, &settings, Some(4), true, Some(1), false) {
        BackgroundEfficiencyStep::ReleaseAll { hold, reason } => {
            assert_eq!(hold, None);
            assert_eq!(reason, "process list unavailable");
        }
        BackgroundEfficiencyStep::Scan => panic!("an unreadable list must release"),
    }
    assert!(matches!(
        background_efficiency_step(true, &settings, Some(4), true, Some(1), true),
        BackgroundEfficiencyStep::Scan
    ));
}

#[test]
fn tracked_state_keeps_observations_of_the_same_process() {
    let canonical = CanonicalPaths { entries: Vec::new() };
    let kept = tracked_state(Some(watched(r"C:\Apps\worker.exe", 7)), "worker.exe", "C:/Apps/worker.exe", 7, &canonical);
    assert_eq!(kept.executable_path, "C:/Apps/worker.exe");
    assert_eq!(kept.last_usage_tenths, Some(500));
    assert_eq!(kept.decision, Some(CpuSchedulerDecision::LowerPriority));
    assert!(kept.active);
    assert!(kept.selected);
}

#[test]
fn tracked_state_resets_when_the_process_id_was_reused() {
    let canonical = CanonicalPaths { entries: Vec::new() };
    let restarted = tracked_state(Some(watched(r"C:\Apps\worker.exe", 7)), "worker.exe", r"C:\Apps\worker.exe", 8, &canonical);
    assert_eq!(restarted.creation_time, 8);
    assert_eq!(restarted.previous_cpu_time, None);
    assert_eq!(restarted.decision, None);
    assert!(!restarted.active);
    let other = tracked_state(Some(watched(r"C:\Apps\worker.exe", 7)), "other.exe", r"C:\Apps\other.exe", 7, &canonical);
    assert_eq!(other.process_name, "other.exe");
    assert_eq!(other.last_usage_tenths, None);
    assert!(!other.selected);
    let first = tracked_state(None, "new.exe", r"C:\Apps\new.exe", 3, &canonical);
    assert_eq!(first.high_since, None);
    assert!(!first.active);
}

#[test]
fn observe_process_samples_then_reports_a_candidate() {
    let canonical = CanonicalPaths { entries: Vec::new() };
    let settings = CpuSchedulerSettings { background_app_cpu_threshold_percent: 10, ..Default::default() };
    let mut manager = CpuSchedulerManager::new();
    let first = manager.observe_process(
        7,
        "worker.exe",
        r"C:\Apps\worker.exe",
        1,
        ProcessCpuSample { cpu_time_100ns: 0, sampled_at: 0 },
        &settings,
        CpuSchedulerTier::Background,
        &canonical,
        0,
    );
    assert!(first.is_none());
    assert_eq!(manager.tracked_processes.len(), 1);
    let c = manager
        .observe_process(
            7,
            "worker.exe",
            r"C:\Apps\worker.exe",
            1,
            ProcessCpuSample { cpu_time_100ns: 5_000_000, sampled_at: SECOND },
            &settings,
            CpuSchedulerTier::Background,
            &canonical,
            SECOND,
        )
        .unwrap();
    assert_eq!(c.process_id, 7);
    assert_eq!(c.score, 500);
    assert_eq!(manager.tracked_processes.len(), 1);
    assert_eq!(manager.tracked_processes[0].0, 7);
    // The id now belongs to a new process: the old observations are dropped.
    let again = manager.observe_process(
        7,
        "worker.exe",
        r"C:\Apps\worker.exe",
        2,
        ProcessCpuSample { cpu_time_100ns: 9_000_000, sampled_at: 2 * SECOND },
        &settings,
        CpuSchedulerTier::Background,
        &canonical,
        2 * SECOND,
    );
    assert!(again.is_none());
    assert_eq!(manager.tracked_processes.len(), 1);
    assert!(!manager.tracked_processes[0].1.active);
}

#[test]
fn mark_selection_selects_chosen_and_unselects_dropped_active_processes() {
    let mut manager = CpuSchedulerManager::new();
    manager.put_tracked(1, watched(r"C:\Apps\a.exe", 1));
    manager.put_tracked(2, watched(r"C:\Apps\b.exe", 2));
    let mut idle = watched(r"C:\Apps\c.exe", 3);
    idle.active = false;
    idle.selected = true;
    manager.put_tracked(3, idle);
    let selected = vec![candidate(1, "a.exe", 10, CpuSchedulerDecision::LimitProcessors)];
    manager.mark_selection(&selected);
    assert!(manager.tracked_processes[0].1.selected);
    assert_eq!(manager.tracked_processes[0].1.decision, Some(CpuSchedulerDecision::LimitProcessors));
    assert!(!manager.tracked_processes[1].1.selected);
    assert_eq!(manager.tracked_processes[1].1.decision, None);
    assert!(manager.tracked_processes[2].1.selected);
    assert_eq!(manager.tracked_processes[2].1.decision, Some(CpuSchedulerDecision::LowerPriority));
}

#[test]
fn retain_tracked_forgets_processes_no_longer_listed() {
    let mut manager = CpuSchedulerManager::new();
    manager.put_tracked(1, watched(r"C:\Apps\a.exe", 1));
    manager.put_tracked(2, watched(r"C:\Apps\b.exe", 2));
    manager.put_tracked(3, watched(r"C:\Apps\c.exe", 3));
    manager.retain_tracked(&vec![3, 1]);
    let ids: Vec<u32> = manager.tracked_processes.iter().map(|(id, _)| *id).collect();
    assert_eq!(ids, vec![1, 3]);
    assert!(manager.take_tracked(2).is_none());
    let taken = manager.take_tracked(3).unwrap();
    assert_eq!(taken.creation_time, 3);
    assert_eq!(manager.tracked_processes.len(), 1);
    manager.clear_tracked();
    assert!(manager.tracked_processes.is_empty());
}

#[test]
fn selection_keeps_input_order_among_equal_candidates() {
    let candidates = vec![
        candidate(5, "first.exe", 300, CpuSchedulerDecision::LowerPriority),
        candidate(9, "high.exe", 900, CpuSchedulerDecision::LowerPriority),
        candidate(5, "second.exe", 300, CpuSchedulerDecision::LimitProcessors),
        candidate(5, "third.exe", 300, CpuSchedulerDecision::LowerPriority),
    ];
    let selected = select_cpu_scheduler_candidates(candidates, 3);
    let names: Vec<&str> = selected.iter().map(|c| c.process_name.as_str()).collect();
    assert_eq!(names, vec!["high.exe", "first.exe", "second.exe"]);
}

fn restraint_settings() -> CpuSchedulerSettings {
    CpuSchedulerSettings {
        cpu_pressure_restraint_enabled: true,
        limit_background_processors_enabled: true,
        memory_priority_enabled: true,
        background_memory_priority: ProcessMemoryPrioritySetting::Low,
        visible_window_memory_priority: ProcessMemoryPrioritySetting::Medium,
        cpu_allocation_method: CpuAllocationMethod::ProcessorAffinityHard,
        ..Default::default()
    }
}

#[test]
fn selected_background_process_gets_memory_priority_and_processors() {
    let settings = restraint_settings();
    let r = selected_restraint(
        &settings,
        CpuSchedulerDecision::LimitProcessors,
        CpuSchedulerTier::Background,
        false,
        false,
        Some(0b1100),
    );
    assert_eq!(r.memory_priority, Some((ProcessMemoryPriority::Low, false, false)));
    assert_eq!(r.cpu_allocation, Some((CpuAllocationMode::HardAffinity, 0b1100)));
    let zoned = selected_restraint(
        &settings,
        CpuSchedulerDecision::LimitProcessors,
        CpuSchedulerTier::Background,
        false,
        true,
        Some(0b1100),
    );
    assert_eq!(zoned.cpu_allocation, Some((CpuAllocationMode::SoftCpuSets, 0b1100)));
}

#[test]
fn selected_restraint_skips_explicit_rules_windows_and_missing_masks() {
    let settings = restraint_settings();
    let explicit = selected_restraint(
        &settings,
        CpuSchedulerDecision::LimitProcessors,
        CpuSchedulerTier::Background,
        true,
        false,
        Some(0b11),
    );
    assert_eq!(explicit.cpu_allocation, None);
    let window = selected_restraint(
        &settings,
        CpuSchedulerDecision::LowerPriority,
        CpuSchedulerTier::VisibleWindow,
        false,
        false,
        Some(0b11),
    );
    assert_eq!(window.memory_priority, Some((ProcessMemoryPriority::Medium, false, true)));
    assert_eq!(window.cpu_allocation, None);
    let no_mask = selected_restraint(
        &settings,
        CpuSchedulerDecision::LimitProcessors,
        CpuSchedulerTier::Background,
        false,
        false,
        None,
    );
    assert_eq!(no_mask.cpu_allocation, None);
    let memory_off = CpuSchedulerSettings { memory_priority_enabled: false, ..restraint_settings() };
    let r = selected_restraint(
        &memory_off,
        CpuSchedulerDecision::LowerPriority,
        CpuSchedulerTier::Background,
        false,
        false,
        None,
    );
    assert_eq!(r.memory_priority, None);
    let default_priority =
        CpuSchedulerSettings { background_memory_priority: ProcessMemoryPrioritySetting::Default, ..restraint_settings() };
    let r = selected_restraint(
        &default_priority,
        CpuSchedulerDecision::LowerPriority,
        CpuSchedulerTier::Background,
        false,
        false,
        None,
    );
    assert_eq!(r.memory_priority, None);
}
