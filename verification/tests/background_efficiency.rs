use winderust::action_log::{ActionLog, ActionLogResult};
use winderust::config::{BackgroundEfficiencyAggressiveness, BackgroundEfficiencyRule, BackgroundEfficiencySettings};
use winderust::features::background_efficiency::{
    active_snapshot, background_efficiency_hold, background_efficiency_targets, hold_release_reason, hold_snapshot,
    BackgroundEfficiencyFailures, BackgroundEfficiencyHold, BackgroundEfficiencyManager, BackgroundEfficiencyPass,
    PriorityEfficiencyReleaseSummary, ReleaseFailure,
};
use winderust::features::process_control::ProcessControlError;
use winderust::foreground::process_list::{CanonicalPaths, ProcessInfo, ProtectedProcesses};

fn settings() -> BackgroundEfficiencySettings {
    BackgroundEfficiencySettings {
        enabled: true,
        protect_foreground_app: true,
        protect_visible_window_apps: true,
        aggressiveness: BackgroundEfficiencyAggressiveness::Balanced,
        custom_rules: vec![BackgroundEfficiencyRule { enabled: true, executable_path: r"C:\Apps\keep.exe".to_owned() }],
    }
}

fn process(id: u32, name: &str, path: &str, session_id: u32) -> ProcessInfo {
    ProcessInfo {
        id,
        parent_id: None,
        session_id: Some(session_id),
        user_name: None,
        is_service_account: Some(false),
        is_critical: Some(false),
        can_set_information: true,
        name: name.to_owned(),
        image_path: Some(path.to_owned()),
        creation_time: Some(u64::from(id) * 10),
    }
}

#[test]
fn holds_come_in_order() {
    let s = settings();
    assert_eq!(background_efficiency_hold(false, &s, Some(1)), Some(BackgroundEfficiencyHold::AutomationDisabled));
    let off = BackgroundEfficiencySettings { enabled: false, ..settings() };
    assert_eq!(background_efficiency_hold(true, &off, None), Some(BackgroundEfficiencyHold::FeatureDisabled));
    assert_eq!(background_efficiency_hold(true, &s, None), Some(BackgroundEfficiencyHold::ForegroundUnknown));
    let unprotected = BackgroundEfficiencySettings { protect_foreground_app: false, ..settings() };
    assert_eq!(background_efficiency_hold(true, &unprotected, None), None);
    assert_eq!(hold_release_reason(BackgroundEfficiencyHold::FeatureDisabled), "Background Efficiency disabled");
}

#[test]
fn targets_leave_protected_excluded_and_foreign_processes_alone() {
    let mut critical = process(9, "svc.exe", r"C:\Apps\svc.exe", 1);
    critical.is_critical = Some(true);
    let processes = vec![
        process(4, "worker.exe", r"C:\Apps\worker.exe", 1),
        process(5, "player.exe", r"C:\Apps\player.exe", 1),
        process(6, "visible.exe", r"C:\Apps\visible.exe", 1),
        process(7, "keep.exe", r"C:\Apps\keep.exe", 1),
        process(8, "other.exe", r"C:\Apps\other.exe", 2),
        process(3, "me.exe", r"C:\Apps\me.exe", 1),
        critical,
    ];
    let protected = ProtectedProcesses { process_ids: vec![6], executable_paths: vec![r"C:\Apps\visible.exe".to_owned()] };
    let canonical = CanonicalPaths { entries: Vec::new() };
    let audio = vec![5];
    let targets = background_efficiency_targets(&processes, 3, 1, false, &settings(), &protected, &canonical, Some(&audio));
    let ids: Vec<(u32, bool)> = targets.iter().map(|t| (t.process_id, t.ignore_timer_resolution)).collect();
    assert_eq!(ids, vec![(4, true), (5, false)]);
    let across = background_efficiency_targets(&processes, 3, 1, true, &settings(), &protected, &canonical, None);
    let ids: Vec<(u32, bool)> = across.iter().map(|t| (t.process_id, t.ignore_timer_resolution)).collect();
    assert_eq!(ids, vec![(4, false), (5, false), (8, false)]);
}

#[test]
fn release_summaries_are_logged_and_counted() {
    let mut manager = BackgroundEfficiencyManager::default();
    let mut log = ActionLog::new(8);
    let mut failures = BackgroundEfficiencyFailures::new();
    let mut unsupported = false;
    let summary = PriorityEfficiencyReleaseSummary {
        restored_processes: 2,
        failures: vec![
            ReleaseFailure {
                process_id: 4,
                process_name: "worker.exe".to_owned(),
                executable_path: r"C:\Apps\worker.exe".to_owned(),
                property: "EcoQoS".to_owned(),
                error: ProcessControlError::Unavailable("not supported".to_owned()),
            },
            ReleaseFailure {
                process_id: 5,
                process_name: "player.exe".to_owned(),
                executable_path: r"C:\Apps\player.exe".to_owned(),
                property: "priority".to_owned(),
                error: ProcessControlError::Failed("busy".to_owned()),
            },
        ],
    };
    manager.merge_release_summary(&summary, &mut log, "automation disabled", &mut failures, &mut unsupported);
    assert!(unsupported);
    assert_eq!(failures.count, 2);
    assert_eq!(failures.last_error.as_deref(), Some("Restore EcoQoS worker.exe (4): not supported"));
    assert_eq!(log.entries().len(), 3);
    assert_eq!(log.entries()[0].result, ActionLogResult::Restored);
    assert_eq!(log.entries()[0].reason, "Restored Background Efficiency for 2 process(es): automation disabled.");
    assert_eq!(log.entries()[2].reason, "busy");

    let snapshot = hold_snapshot(BackgroundEfficiencyHold::AutomationDisabled, failures, unsupported);
    assert!(!snapshot.enabled);
    assert!(snapshot.unsupported);
    assert_eq!(snapshot.failed_processes, 2);
    assert_eq!(snapshot.message, "Automation disabled.");
    let paused = hold_snapshot(BackgroundEfficiencyHold::ForegroundUnknown, BackgroundEfficiencyFailures::new(), false);
    assert!(paused.enabled);

    let pass = BackgroundEfficiencyPass {
        skipped_processes: 1,
        access_denied_processes: 1,
        unsupported: false,
        failures: BackgroundEfficiencyFailures::new(),
    };
    let active = active_snapshot(10, 3, 2, pass);
    assert!(active.enabled);
    assert_eq!(active.scanned_processes, 10);
    assert_eq!(active.throttled_processes, 3);
    assert_eq!(active.timer_resolution_ignored_processes, 2);
    assert_eq!(active.skipped_processes, 1);
    assert_eq!(active.access_denied_processes, 1);
}
