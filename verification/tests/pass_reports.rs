use winderust::action_log::{ActionLog, ActionLogAction, ActionLogResult};
use winderust::config::{
    CpuSchedulerSettings, LaunchPrioritySettings, PerformanceModeRule, PerformanceModeSettings, PowerPlanSettings,
    WorkloadEngineSettings,
};
use winderust::features::background_efficiency::{
    BackgroundEfficiencyHold, BackgroundEfficiencyManager, PriorityEfficiencyReleaseSummary, ReleaseFailure,
};
use winderust::features::cpu_scheduler::{cpu_scheduler_active_snapshot, cpu_scheduler_hold, CpuSchedulerHold, CpuSchedulerManager};
use winderust::features::process_control::{PriorityFailures, ProcessControlError};
use winderust::features::workload_engine::{workload_engine_hold, WorkloadEngineHold, WorkloadEngineManager};
use winderust::foreground::process_list::{executable_path_key, process_executable_path, ProcessInfo};
use winderust::foreground::process_tree::{process_tree_ids_postorder, process_tree_members, TreeMember};
use winderust::gpu_priority::{GpuPriorityFailures, GpuPriorityHold, GpuPriorityManager, GpuPriorityPass};
use winderust::io_priority::{IoPriorityFailures, IoPriorityHold, IoPriorityManager, IoPriorityPass};
use winderust::launch_priority::{
    desired_registry_rules, launch_priority_root_failure, launch_priority_sync_snapshot,
};
use winderust::memory_priority::{MemoryPriorityFailures, MemoryPriorityHold, MemoryPriorityManager};
use winderust::performance_mode::PerformanceModeManager;
use winderust::power::plan::{ProcessorBoostMode, ProcessorPowerValues};
use winderust::power::powercfg::{
    apply_processor_power_values, next_power_write, PowerWriteStep, ProcessorPowerAcDcValues, ProcessorPowerApplyStage,
};

fn process(id: u32, parent_id: Option<u32>, name: &str) -> ProcessInfo {
    ProcessInfo {
        id,
        parent_id,
        session_id: Some(1),
        user_name: None,
        is_service_account: Some(false),
        is_critical: Some(false),
        can_set_information: true,
        name: name.to_owned(),
        image_path: None,
        creation_time: Some(u64::from(id)),
    }
}

fn failures_with(count: usize, error: &str) -> GpuPriorityFailures {
    GpuPriorityFailures { count, last_error: Some(error.to_owned()) }
}

#[test]
fn gpu_hold_reports_off_or_paused_with_the_release_failures() {
    let mut manager = GpuPriorityManager::new();
    manager.record_process_failure("game.exe");
    let paused = manager.hold_snapshot(GpuPriorityHold::ForegroundUnknown, failures_with(2, "boom"));
    assert!(paused.enabled);
    assert_eq!(paused.message, "Paused: foreground app is unknown.");
    assert_eq!((paused.scanned_processes, paused.adjusted_processes, paused.failed_processes), (0, 0, 2));
    assert_eq!(paused.last_error.as_deref(), Some("boom"));
    manager.record_process_failure("game.exe");
    manager.record_process_failure("game.exe");
    let mut excluded = Vec::new();
    assert!(manager.is_process_suppressed("game.exe", &mut excluded));
    let off = manager.hold_snapshot(GpuPriorityHold::AutomationDisabled, GpuPriorityFailures::new());
    assert!(!off.enabled);
    assert_eq!(off.message, "Automation disabled.");
    // Turning off forgets the failures.
    assert!(!manager.is_process_suppressed("game.exe", &mut excluded));
    let listed = manager.list_unavailable_snapshot("snapshot failed".to_owned(), GpuPriorityFailures::new());
    assert!(listed.enabled);
    assert_eq!(listed.message, "snapshot failed");
    let pass = GpuPriorityPass { pending_processes: 1, ..GpuPriorityPass::new() };
    let done = manager.pass_snapshot(pass, 12, vec!["game".to_owned()], GpuPriorityFailures::new());
    assert_eq!(done.scanned_processes, 12);
    assert_eq!(done.adjusted_apps, vec!["game".to_owned()]);
    assert_eq!(done.message, "GPU priority defaults active; waiting for GPU scheduling contexts.");
}

#[test]
fn io_and_memory_hold_and_list_reports() {
    let mut io = IoPriorityManager::new();
    let held = io.hold_snapshot(IoPriorityHold::FeatureDisabled, IoPriorityFailures::new());
    assert!(!held.enabled);
    assert_eq!(held.message, "I/O priority defaults disabled.");
    let listed = io.list_unavailable_snapshot("no list".to_owned(), IoPriorityFailures { count: 1, last_error: None });
    assert!(listed.enabled);
    assert_eq!((listed.message.as_str(), listed.failed_processes), ("no list", 1));
    let pass = IoPriorityPass { skipped_processes: 3, applied_processes: 0, auto_excluded_processes: Vec::new() };
    let done = io.pass_snapshot(pass, 9, Vec::new(), IoPriorityFailures::new());
    assert_eq!((done.scanned_processes, done.skipped_processes), (9, 3));
    assert_eq!(done.message, "I/O priority defaults active.");

    let mut memory = MemoryPriorityManager::new();
    let paused = memory.hold_snapshot(MemoryPriorityHold::SessionUnknown, MemoryPriorityFailures::new());
    assert!(paused.enabled);
    let listed = memory.list_unavailable_snapshot("list failed".to_owned(), MemoryPriorityFailures { count: 2, last_error: None });
    assert!(listed.enabled);
    assert_eq!(listed.failed_processes, 3);
    assert_eq!(listed.last_error.as_deref(), Some("list failed"));
    assert_eq!(listed.adjusted_processes, 0);
}

#[test]
fn running_app_detection_disabled_and_matched_passes() {
    let settings = PerformanceModeSettings {
        enabled: true,
        rules: vec![PerformanceModeRule {
            enabled: true,
            name: "Game".to_owned(),
            process_name: "game.exe".to_owned(),
            power_plan_guid: Some("plan-guid".to_owned()),
        }],
    };
    let plans = PowerPlanSettings::default();
    let mut manager = PerformanceModeManager::new();
    let mut log = ActionLog::new(8);
    let processes = vec![process(0, None, "game.exe"), process(7, None, "game.exe"), process(8, None, "tool.exe")];
    let active = manager.update(&settings, &plans, true, 99, Some(1), Ok(processes.clone()), &mut log);
    assert!(active.enabled && active.active);
    assert_eq!(active.scanned_processes, 3);
    assert_eq!(active.matched_processes, 1);
    assert_eq!(active.active_process.as_deref(), Some("game.exe"));
    assert_eq!(active.target_guid.as_deref(), Some("plan-guid"));
    assert_eq!(log.entries().len(), 1);
    assert_eq!(log.entries()[0].action, ActionLogAction::Apply);
    // The same match again logs nothing.
    manager.update(&settings, &plans, true, 99, Some(1), Ok(processes), &mut log);
    assert_eq!(log.entries().len(), 1);

    let off = manager.update(&settings, &plans, false, 99, Some(1), Err("unused".to_owned()), &mut log);
    assert!(!off.enabled && !off.active);
    assert_eq!(off.message, "Automation disabled.");
    assert!(!manager.is_active());
    assert_eq!(log.entries().len(), 2);
    assert_eq!(log.entries()[1].result, ActionLogResult::Restored);
    assert_eq!(log.entries()[1].reason, "automation disabled; released Running App Detection decision.");

    let disabled = PerformanceModeSettings { enabled: false, ..settings.clone() };
    let report = manager.update(&disabled, &plans, true, 99, Some(1), Err("unused".to_owned()), &mut log);
    assert_eq!(report.message, "Running App Detection disabled.");
    assert_eq!(log.entries().len(), 2);
    let report = manager.update(&settings, &plans, true, 99, None, Err("unused".to_owned()), &mut log);
    assert!(report.enabled);
    assert_eq!(report.message, "Paused: current Windows session is unknown.");
    let report = manager.update(&settings, &plans, true, 99, Some(1), Err("list failed".to_owned()), &mut log);
    assert_eq!(report.message, "list failed");
    let report = manager.update(&settings, &plans, true, 99, Some(1), Ok(vec![process(8, None, "tool.exe")]), &mut log);
    assert!(!report.active);
    assert_eq!(report.message, "Running App Detection waiting for a matching process.");
}

#[test]
fn background_efficiency_held_pass_merges_one_release() {
    let mut manager = BackgroundEfficiencyManager::default();
    let mut log = ActionLog::new(8);
    let release = PriorityEfficiencyReleaseSummary {
        restored_processes: 1,
        failures: vec![ReleaseFailure {
            process_id: 4,
            process_name: "worker.exe".to_owned(),
            executable_path: r"C:\Apps\worker.exe".to_owned(),
            property: "EcoQoS".to_owned(),
            error: ProcessControlError::Failed("busy".to_owned()),
        }],
    };
    let report = manager.held_pass(BackgroundEfficiencyHold::AutomationDisabled, &release, &mut log);
    assert!(!report.enabled);
    assert_eq!(report.message, "Automation disabled.");
    assert_eq!(report.failed_processes, 1);
    assert_eq!(report.scanned_processes, 0);
    assert_eq!(log.entries().len(), 2);
    assert_eq!(log.entries()[0].reason, "Restored Background Efficiency for 1 process(es): automation disabled.");
    let paused = manager.held_pass(BackgroundEfficiencyHold::SessionUnknown, &release, &mut log);
    assert!(paused.enabled);
    assert_eq!(paused.message, "Paused: current Windows session is unknown.");
    let listed = manager.list_unavailable_pass("no list".to_owned(), &release, &mut log);
    assert!(listed.enabled);
    assert_eq!(listed.message, "no list");
}

#[test]
fn cpu_scheduler_and_workload_engine_hold_reports() {
    let mut settings = CpuSchedulerSettings::default();
    assert_eq!(cpu_scheduler_hold(false, &settings, Some(1)), Some(CpuSchedulerHold::AutomationDisabled));
    assert_eq!(cpu_scheduler_hold(true, &settings, Some(1)), Some(CpuSchedulerHold::FeatureDisabled));
    settings.cpu_pressure_restraint_enabled = true;
    assert_eq!(cpu_scheduler_hold(true, &settings, None), Some(CpuSchedulerHold::SessionUnknown));
    assert_eq!(cpu_scheduler_hold(true, &settings, Some(1)), None);
    let mut manager = CpuSchedulerManager::new();
    manager.background_pressure_active = true;
    let report = manager.hold_snapshot(
        CpuSchedulerHold::FeatureDisabled,
        PriorityFailures { count: 1, last_error: Some("x".to_owned()) },
    );
    assert!(!report.enabled);
    assert_eq!(report.message, "CPU Scheduler disabled.");
    assert_eq!(report.failed_processes, 1);
    assert!(!manager.background_pressure_active);
    let paused = manager.hold_snapshot(CpuSchedulerHold::VisibleWindowsUnavailable, PriorityFailures::new());
    assert!(paused.enabled);
    assert_eq!(paused.message, "Paused: visible windows are unavailable.");
    assert_eq!(CpuSchedulerHold::SessionUnknown.reason(), "current Windows session is unknown");

    let mut engine_settings = WorkloadEngineSettings::default();
    engine_settings.enabled = false;
    engine_settings.workload_engine_enabled = true;
    assert_eq!(workload_engine_hold(true, &engine_settings, Some(1)), Some(WorkloadEngineHold::FeatureDisabled));
    engine_settings.enabled = true;
    engine_settings.workload_engine_enabled = false;
    assert_eq!(workload_engine_hold(true, &engine_settings, None), Some(WorkloadEngineHold::SessionUnknown));
    assert_eq!(workload_engine_hold(true, &engine_settings, Some(1)), None);
    let mut engine = WorkloadEngineManager::new();
    let report = engine.hold_snapshot(WorkloadEngineHold::AutomationDisabled, PriorityFailures::new());
    assert!(!report.enabled);
    assert_eq!(report.message, "Automation disabled.");
    let listed = engine.list_unavailable_snapshot("no list".to_owned(), PriorityFailures::new());
    assert!(listed.enabled);
    assert_eq!(listed.message, "no list");
}

#[test]
fn power_writes_stop_at_the_first_failure() {
    let one = ProcessorPowerValues::new_with_boost_mode(0, 5, 45, 0, ProcessorBoostMode::Disabled);
    let values = ProcessorPowerAcDcValues::new(one, one);
    let writes = apply_processor_power_values("381b4222-f694-41f0-9685-ff5bb260df2e", values).unwrap();
    assert_eq!(writes.len(), 10);
    let mut results: Vec<Result<(), String>> = Vec::new();
    assert!(matches!(next_power_write(&writes, &results), PowerWriteStep::Write(0)));
    results.push(Ok(()));
    results.push(Err("denied".to_owned()));
    match next_power_write(&writes, &results) {
        PowerWriteStep::Finished(Err(e)) => {
            assert_eq!(e.stage, ProcessorPowerApplyStage::DcCoreParkingMinimum);
            assert_eq!(e.message(), "Failed to write battery core parking minimum: denied");
        },
        _ => panic!("expected the failed write"),
    }
    let all_ok: Vec<Result<(), String>> = (0..10).map(|_| Ok(())).collect();
    assert!(matches!(next_power_write(&writes, &all_ok), PowerWriteStep::Finished(Ok(()))));
}

#[test]
fn launch_priority_sync_counts_each_action() {
    let settings = LaunchPrioritySettings { enabled: false, rules: Vec::new() };
    let desired = desired_registry_rules(&settings);
    let clears = vec![Ok(()), Err("access denied".to_owned())];
    let report = launch_priority_sync_snapshot(settings.enabled, &desired, &clears, &Vec::new());
    assert_eq!(report.cleared_rules, 1);
    assert_eq!(report.failed_actions, 1);
    assert_eq!(report.last_error.as_deref(), Some("access denied"));
    assert_eq!(report.message, "Launch priority registry sync completed with errors.");
    let clean = launch_priority_sync_snapshot(false, &desired, &Vec::new(), &Vec::new());
    assert_eq!(clean.failed_actions, 0);
    assert_eq!(clean.message, "Launch priority registry rules disabled.");
    let root = launch_priority_root_failure(true, 2, "no root".to_owned());
    assert_eq!((root.failed_actions, root.configured_rules), (1, 2));
    assert_eq!(root.last_error.as_deref(), Some("no root"));
}

#[test]
fn process_tree_lists_later_roots_after_earlier_ones() {
    let processes = vec![process(10, None, "a.exe"), process(11, Some(10), "b.exe"), process(20, None, "c.exe"), process(21, Some(20), "d.exe")];
    assert_eq!(process_tree_ids_postorder(&vec![20, 10], &processes), vec![21, 20, 11, 10]);
    assert_eq!(process_tree_ids_postorder(&vec![10, 11], &processes), vec![11, 10]);
}

#[test]
fn executable_path_falls_back_to_the_reported_path_and_keys_are_stable() {
    let mut listed = process(5, None, "app.exe");
    assert_eq!(process_executable_path(&listed, Some(r"C:\Apps\app.exe")).as_deref(), Some(r"C:\Apps\app.exe"));
    assert_eq!(process_executable_path(&listed, None), None);
    listed.image_path = Some(r"C:\Listed\app.exe".to_owned());
    assert_eq!(process_executable_path(&listed, Some(r"C:\Apps\app.exe")).as_deref(), Some(r"C:\Listed\app.exe"));
    let key = executable_path_key("  C:/Apps/App.exe ");
    assert_eq!(key, r"C:\Apps\App.exe");
    assert_eq!(executable_path_key(&key), key);
    assert_eq!(executable_path_key(r"C:\Apps/App.exe"), key);
}

#[test]
fn tree_members_follow_the_post_order_and_stop_at_an_unknown_child() {
    let mut processes = vec![process(10, None, "a.exe"), process(11, Some(10), "b.exe")];
    processes[1].image_path = Some(r"C:\Apps\b.exe".to_owned());
    let order = process_tree_ids_postorder(&vec![10], &processes);
    let members = process_tree_members(&vec![10], &processes, &order).unwrap();
    assert_eq!(
        members,
        vec![TreeMember::Child { process_id: 11, executable_path: r"C:\Apps\b.exe".to_owned() }, TreeMember::Root(10)]
    );
    assert_eq!(process_tree_members(&Vec::new(), &processes, &Vec::new()).unwrap_err(), "No process targets were available.");
    processes[1].image_path = None;
    assert_eq!(
        process_tree_members(&vec![10], &processes, &order).unwrap_err(),
        "A child process could not be identified safely."
    );
    assert_eq!(
        process_tree_members(&vec![10], &processes, &vec![12, 10]).unwrap_err(),
        "A child process exited before it could be stopped."
    );
}

#[test]
fn cpu_scheduler_active_report_takes_the_larger_adjusted_count() {
    let report = cpu_scheduler_active_snapshot(
        30,
        2,
        5,
        true,
        false,
        Some(123),
        1,
        PriorityFailures::new(),
        vec!["app".to_owned()],
        Vec::new(),
    );
    assert!(report.enabled);
    assert_eq!(report.adjusted_processes, 5);
    assert_eq!(report.message, "CPU Scheduler active.");
    assert_eq!(report.foreground_cpu_usage_tenths, Some(123));
}
