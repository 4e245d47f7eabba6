use winderust::action_log::{ActionLog, ActionLogFeature, ActionLogResult};
use winderust::config::{
    BackgroundEfficiencyAggressiveness, BackgroundEfficiencyRule, BackgroundEfficiencySettings,
};
use winderust::features::background_efficiency::{
    ignore_timer_resolution_allowed, is_process_excluded, process_failure_message,
    BackgroundEfficiencyManager,
};
use winderust::cpu::{process_cpu_usage_percent, CpuUsage, ProcessCpuSample};
use winderust::features::memory_trim::{
    is_builtin_excluded, ready_to_trim, size_label, trim_reason, waiting_message, waits_for_memory_load,
    working_set_threshold_bytes, MemoryTrimFailures, MemoryTrimManager, MemoryTrimMode, MemoryTrimSnapshot,
    TrackedProcess,
};

#[test]
fn exclusions_include_builtin_and_user_entries() {
    let settings = BackgroundEfficiencySettings {
        enabled: true,
        protect_foreground_app: true,
        protect_visible_window_apps: false,
        aggressiveness: BackgroundEfficiencyAggressiveness::Safe,
        custom_rules: vec![BackgroundEfficiencyRule {
            enabled: true,
            executable_path: "mouse.exe".to_owned(),
        }],
    };

    assert!(is_process_excluded("EXPLORER.EXE", &settings));
    assert!(is_process_excluded("csrss.exe", &settings));
    assert!(is_process_excluded("winlogon.exe", &settings));
    assert!(is_process_excluded("Mouse.exe", &settings));
    assert!(!is_process_excluded("browser.exe", &settings));
}

#[test]
fn aggressiveness_profiles_control_builtin_exclusions() {
    let mut settings = BackgroundEfficiencySettings {
        aggressiveness: BackgroundEfficiencyAggressiveness::Safe,
        ..Default::default()
    };

    assert!(is_process_excluded("SearchHost.exe", &settings));
    assert!(is_process_excluded("dwm.exe", &settings));
    assert!(is_process_excluded("winlogon.exe", &settings));

    settings.aggressiveness = BackgroundEfficiencyAggressiveness::Balanced;
    assert!(!is_process_excluded("SearchHost.exe", &settings));
    assert!(is_process_excluded("dwm.exe", &settings));
    assert!(is_process_excluded("winlogon.exe", &settings));

    settings.aggressiveness = BackgroundEfficiencyAggressiveness::Aggressive;
    assert!(!is_process_excluded("SearchHost.exe", &settings));
    assert!(!is_process_excluded("dwm.exe", &settings));
    assert!(is_process_excluded("winlogon.exe", &settings));
}

#[test]
fn disabled_user_exclusions_do_not_exclude_processes() {
    let settings = BackgroundEfficiencySettings {
        custom_rules: vec![BackgroundEfficiencyRule {
            enabled: false,
            executable_path: "mouse.exe".to_owned(),
        }],
        ..Default::default()
    };

    assert!(settings.contains_custom_rule("MOUSE.EXE"));
    assert!(!is_process_excluded("mouse.exe", &settings));
}

#[test]
fn process_failure_message_includes_action_name_pid_and_error() {
    assert_eq!(
        process_failure_message("Restore", 42, "browser.exe", "OpenProcess failed."),
        "Restore browser.exe (42): OpenProcess failed."
    );
}

#[test]
fn repeated_failures_suppress_future_efficiency_attempts_once() {
    let mut manager = BackgroundEfficiencyManager::default();
    let mut log = ActionLog::new(8);
    let executable_path = r"C:\Apps\app.exe";

    manager.record_process_failure(executable_path);
    manager.record_process_failure(executable_path);
    assert!(
        !manager
            .check_process_suppression(42, "app.exe", executable_path, &mut log)
            .suppressed
    );
    assert!(log.entries().is_empty());

    manager.record_process_failure(executable_path);
    assert!(
        manager
            .check_process_suppression(42, "app.exe", executable_path, &mut log)
            .suppressed
    );
    assert!(manager.is_process_suppressed(43, r"C:/Apps/app.exe", &mut log));

    let entries = log.entries();
    assert_eq!(entries.len(), 1);
    assert_eq!(entries[0].process_name, "app.exe");
    assert_eq!(entries[0].result, ActionLogResult::Skipped);
}

#[test]
fn first_suppression_reports_once() {
    let mut manager = BackgroundEfficiencyManager::default();
    let mut log = ActionLog::new(8);

    manager.record_process_failure("app.exe");
    manager.record_process_failure("app.exe");
    manager.record_process_failure("app.exe");

    let first = manager.check_process_suppression(42, "app.exe", "app.exe", &mut log);
    let second = manager.check_process_suppression(42, "app.exe", "app.exe", &mut log);

    assert!(first.suppressed);
    assert!(first.newly_suppressed);
    assert!(second.suppressed);
    assert!(!second.newly_suppressed);
}

#[test]
fn timer_ignore_guard_fails_closed_for_audio_detection() {
    let audio_processes = vec![42u32];

    assert!(!ignore_timer_resolution_allowed(42, Some(&audio_processes)));
    assert!(ignore_timer_resolution_allowed(7, Some(&audio_processes)));
    assert!(!ignore_timer_resolution_allowed(7, None));
}

#[test]
fn repeated_process_failures_suppress_memory_trim_retries() {
    let mut manager = MemoryTrimManager::default();
    let mut log = ActionLog::new(8);
    let executable_path = r"C:\Apps\app.exe";

    manager.record_process_failure(executable_path);
    manager.record_process_failure(r"C:/Apps/app.exe");
    assert!(!manager.is_process_suppressed(42, "app.exe", executable_path, &mut log, &mut Vec::new()));

    manager.record_process_failure(executable_path);
    assert!(manager.is_process_suppressed(42, "app.exe", executable_path, &mut log, &mut Vec::new()));
    assert!(manager.is_process_suppressed(43, "app.exe", r"C:/Apps/app.exe", &mut log, &mut Vec::new()));

    let entries = log.entries();
    assert_eq!(entries.len(), 1);
    assert_eq!(entries[0].feature, ActionLogFeature::MemoryTrim);
    assert_eq!(entries[0].result, ActionLogResult::Skipped);
    assert!(entries[0].reason.contains("Stopped retrying Memory Trim"));
}

#[test]
fn successful_process_clears_memory_trim_failure_suppression() {
    let mut manager = MemoryTrimManager::default();
    let mut log = ActionLog::new(8);
    let executable_path = r"C:\Apps\app.exe";

    manager.record_process_failure(executable_path);
    manager.record_process_failure(executable_path);
    manager.record_process_failure(executable_path);
    assert!(manager.is_process_suppressed(42, "app.exe", executable_path, &mut log, &mut Vec::new()));

    manager.clear_process_failure(r"C:/Apps/app.exe");
    assert!(!manager.is_process_suppressed(42, "app.exe", executable_path, &mut log, &mut Vec::new()));
}

#[test]
fn memory_trim_builtin_exclusions_cover_sensitive_windows_processes() {
    assert!(is_builtin_excluded("csrss.exe"));
    assert!(is_builtin_excluded("winlogon.exe"));
    assert!(!is_builtin_excluded("worker.exe"));
}

fn idle(percent_thousandths: u128) -> CpuUsage {
    CpuUsage { busy_nanos: percent_thousandths, capacity_nanos: 100_000 }
}

#[test]
fn trim_eligibility_rearms_only_after_process_activity() {
    let now: u128 = 1_000_000_000;
    let mut process = TrackedProcess {
        executable_path: r"C:\Apps\app.exe".to_owned(),
        creation_time: 1,
        previous_cpu_time: None,
        idle_since: None,
        trimmed_while_idle: false,
    };
    let idle_duration: u128 = 300 * 1_000_000_000;

    assert!(!ready_to_trim(&mut process, idle(0), idle_duration, now));
    assert!(ready_to_trim(&mut process, idle(0), idle_duration, now + idle_duration));

    process.trimmed_while_idle = true;
    assert!(!ready_to_trim(&mut process, idle(0), idle_duration, now + idle_duration));
    assert!(!ready_to_trim(&mut process, idle(2_000), idle_duration, now + idle_duration));
    assert!(!process.trimmed_while_idle);
}

#[test]
fn memory_trim_process_cpu_usage_percent_scales_by_processor_count() {
    let now: u128 = 5_000_000_000;
    let previous = ProcessCpuSample { cpu_time_100ns: 0, sampled_at: now };
    let current = ProcessCpuSample { cpu_time_100ns: 10_000_000, sampled_at: now + 1_000_000_000 };

    let usage = process_cpu_usage_percent(previous, current, 4).unwrap();

    assert!(usage.percent_thousandths() > 0);
    assert!(usage.percent_thousandths() <= 100_000);
    assert_eq!(usage.percent_thousandths(), 25_000);
    assert_eq!(process_cpu_usage_percent(previous, current, 1).unwrap().percent_thousandths(), 100_000);
    assert!(process_cpu_usage_percent(current, previous, 1).is_none());
}

#[test]
fn one_percent_is_still_idle() {
    let mut process = TrackedProcess {
        executable_path: "app.exe".to_owned(),
        creation_time: 1,
        previous_cpu_time: None,
        idle_since: Some(10),
        trimmed_while_idle: false,
    };
    assert!(!idle(1_000).is_active());
    assert!(idle(1_001).is_active());
    assert!(ready_to_trim(&mut process, idle(1_000), 5, 20));
    assert_eq!(process.idle_since, Some(10));
}

#[test]
fn trim_reasons_report_the_estimate() {
    assert_eq!(size_label(3 * 1024 * 1024 + 5), "3 MiB");
    assert_eq!(size_label(2047), "1 KiB");
    assert_eq!(
        trim_reason(MemoryTrimMode::Automatic, Some(64 * 1024 * 1024)),
        "Trimmed working set; estimated freed 64 MiB."
    );
    assert_eq!(
        trim_reason(MemoryTrimMode::Manual, None),
        "Manually trimmed working set; freed-memory estimate unavailable."
    );
}

#[test]
fn memory_load_gate_caps_the_threshold() {
    assert!(waits_for_memory_load(MemoryTrimMode::Automatic, 79, 80));
    assert!(!waits_for_memory_load(MemoryTrimMode::Automatic, 80, 80));
    assert!(!waits_for_memory_load(MemoryTrimMode::Manual, 10, 80));
    assert!(!waits_for_memory_load(MemoryTrimMode::Automatic, 100, 200));
    assert_eq!(waiting_message(200), "Memory Trim waiting for system memory load >= 100%.");
    assert_eq!(working_set_threshold_bytes(2), 2 * 1024 * 1024);
    assert_eq!(working_set_threshold_bytes(u64::MAX), u64::MAX);
}

#[test]
fn first_trim_failure_is_kept() {
    let mut log = ActionLog::new(8);
    let mut failures = MemoryTrimFailures::new();
    failures.record(7, "a.exe", "denied", &mut log);
    failures.record(8, "b.exe", "gone", &mut log);
    assert_eq!(failures.count, 2);
    assert_eq!(failures.last_error.as_deref(), Some("Trim a.exe (7): denied"));
    assert_eq!(log.entries().len(), 2);
    assert_eq!(log.entries()[1].result, ActionLogResult::Failed);
    let snapshot = MemoryTrimSnapshot::default();
    assert_eq!(snapshot.message, "Memory Trim disabled.");
}

#[test]
fn newly_suppressed_paths_are_collected_once() {
    let mut manager = MemoryTrimManager::default();
    let mut log = ActionLog::new(8);
    let mut excluded = Vec::new();
    for _ in 0..3 {
        manager.record_process_failure("C:\\b.exe");
        manager.record_process_failure("C:\\a.exe");
    }
    assert!(manager.is_process_suppressed(1, "b.exe", "C:\\b.exe", &mut log, &mut excluded));
    assert!(manager.is_process_suppressed(2, "a.exe", "C:\\a.exe", &mut log, &mut excluded));
    assert!(manager.is_process_suppressed(2, "a.exe", "C:\\a.exe", &mut log, &mut excluded));
    assert_eq!(excluded, vec!["C:\\a.exe".to_owned(), "C:\\b.exe".to_owned()]);
}
