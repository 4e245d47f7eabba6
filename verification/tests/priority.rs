use winderust::action_log::ActionLogFeature;
use winderust::config::{
    ProcessCpuPrioritySetting, ProcessGpuPriority, ProcessIoPriority, ProcessIoPrioritySetting,
    ProcessMemoryPriority, ProcessMemoryPrioritySetting,
};
use winderust::gpu_priority::{
    gpu_priority_apply_summary_message, gpu_priority_error_message, gpu_priority_label, gpu_priority_raw,
    gpu_priority_raw_label, gpu_priority_skip_summary_message, gpu_priority_status_message,
    gpu_priority_summary_log_due, ntstatus_result as gpu_ntstatus_result, open_process_error,
    should_preserve_priority, GpuPriorityError, GPU_PRIORITY_SUMMARY_LOG_INTERVAL_NANOS,
    STATUS_INVALID_PARAMETER, STATUS_PROCESS_IS_TERMINATING,
};
use winderust::io_priority::{
    io_priority_apply_summary_message, io_priority_from_raw, io_priority_label, io_priority_raw,
    io_priority_restore_summary_message, ntstatus_result as io_ntstatus_result, IoPriorityError,
};
use winderust::launch_priority::{
    desired_registry_rules, io_priority_registry_value, memory_priority_registry_value,
    normalize_process_image_name, perf_options_path, registry_error_message,
    stale_launch_priority_processes, LaunchPrioritySnapshot,
};
use winderust::config::{LaunchPriorityRule, LaunchPrioritySettings};
use winderust::memory_priority::{
    memory_priority_apply_summary_message, memory_priority_from_raw, memory_priority_raw,
    memory_priority_restore_summary_message, memory_priority_summary_process_name,
};

#[test]
fn gpu_priority_raw_values_match_wddm_order() {
    assert_eq!(gpu_priority_raw(ProcessGpuPriority::Idle), 0);
    assert_eq!(gpu_priority_raw(ProcessGpuPriority::BelowNormal), 1);
    assert_eq!(gpu_priority_raw(ProcessGpuPriority::Normal), 2);
    assert_eq!(gpu_priority_raw(ProcessGpuPriority::AboveNormal), 3);
    assert_eq!(gpu_priority_raw(ProcessGpuPriority::High), 4);
    assert_eq!(gpu_priority_raw(ProcessGpuPriority::Realtime), 5);
}

#[test]
fn d3dkmt_invalid_parameter_waits_for_gpu_context_retry() {
    assert!(matches!(
        gpu_ntstatus_result(STATUS_INVALID_PARAMETER as i32),
        Err(GpuPriorityError::GpuContextUnavailable)
    ));
}

#[test]
fn gpu_priority_summary_messages_use_process_counts() {
    assert_eq!(gpu_priority_apply_summary_message(1), "Applied GPU priority to 1 process.");
    assert_eq!(gpu_priority_apply_summary_message(3), "Applied GPU priority to 3 processes.");
    assert_eq!(
        gpu_priority_skip_summary_message(2, 0),
        "Skipped GPU priority for 2 processes: waiting for GPU scheduling context."
    );
    assert_eq!(
        gpu_priority_skip_summary_message(0, 1),
        "Skipped GPU priority for 1 process: Windows denied access."
    );
    assert_eq!(
        gpu_priority_skip_summary_message(2, 1),
        "Skipped GPU priority for 3 processes: 2 processes waiting for GPU scheduling context, 1 process denied access."
    );
}

#[test]
fn gpu_priority_summary_log_is_rate_limited() {
    let now: u128 = 1_000_000_000_000;

    assert!(gpu_priority_summary_log_due(None, now));
    assert!(!gpu_priority_summary_log_due(Some(now), now));
    assert!(!gpu_priority_summary_log_due(
        Some(now),
        now + GPU_PRIORITY_SUMMARY_LOG_INTERVAL_NANOS - std::time::Duration::from_millis(1).as_nanos()
    ));
    assert!(gpu_priority_summary_log_due(Some(now), now + GPU_PRIORITY_SUMMARY_LOG_INTERVAL_NANOS));
}

#[test]
fn gpu_statuses_and_errors_have_exact_messages() {
    assert_eq!(gpu_ntstatus_result(0), Ok(()));
    assert_eq!(
        gpu_ntstatus_result(STATUS_PROCESS_IS_TERMINATING as i32),
        Err(GpuPriorityError::ProcessExited)
    );
    assert_eq!(
        gpu_ntstatus_result(0xC0000022u32 as i32),
        Err(GpuPriorityError::Failed("NTSTATUS 0xC0000022.".to_owned()))
    );
    assert_eq!(open_process_error(7, 5), GpuPriorityError::AccessDenied);
    assert_eq!(open_process_error(7, 87), GpuPriorityError::ProcessExited);
    assert_eq!(
        open_process_error(7, 1234),
        GpuPriorityError::Failed("OpenProcess(7) failed with error 1234.".to_owned())
    );
    assert_eq!(
        gpu_priority_error_message(GpuPriorityError::GpuContextUnavailable),
        "GPU scheduling priority is not available yet for this process."
    );
    assert_eq!(gpu_priority_raw_label(9), "Unknown (9)");
    assert_eq!(gpu_priority_label(ProcessGpuPriority::AboveNormal), "Above Normal");
    assert_eq!(gpu_priority_status_message(1, 0, 0, 0), "GPU priority defaults active; waiting for GPU scheduling contexts.");
    assert_eq!(gpu_priority_status_message(1, 1, 1, 1), "GPU priority defaults active with failures.");
    assert!(should_preserve_priority(true, true, false, 3, 2));
    assert!(!should_preserve_priority(false, true, false, 1, 2));
    assert!(should_preserve_priority(false, false, true, 1, 2));
}

#[test]
fn io_priority_restore_summary_message_uses_process_count() {
    assert_eq!(
        io_priority_restore_summary_message(1, "foreground app is unknown"),
        "Restored previous I/O priority for 1 process: foreground app is unknown."
    );
    assert_eq!(
        io_priority_restore_summary_message(68, "foreground app is unknown"),
        "Restored previous I/O priority for 68 processes: foreground app is unknown."
    );
}

#[test]
fn io_priority_apply_summary_message_uses_process_count() {
    assert_eq!(io_priority_apply_summary_message(1), "Applied I/O priority to 1 process.");
    assert_eq!(io_priority_apply_summary_message(68), "Applied I/O priority to 68 processes.");
}

#[test]
fn io_priority_raw_values_match_priority_hint_order() {
    assert_eq!(io_priority_raw(ProcessIoPriority::VeryLow), 0);
    assert_eq!(io_priority_raw(ProcessIoPriority::Low), 1);
    assert_eq!(io_priority_raw(ProcessIoPriority::Normal), 2);
    assert_eq!(io_priority_raw(ProcessIoPriority::High), 3);
    assert_eq!(io_priority_raw(ProcessIoPriority::Critical), 4);
}

#[test]
fn terminating_process_ntstatus_is_treated_as_process_exited() {
    assert!(matches!(
        io_ntstatus_result(STATUS_PROCESS_IS_TERMINATING as i32),
        Err(IoPriorityError::ProcessExited)
    ));
}

#[test]
fn unrelated_ntstatus_remains_failure() {
    assert!(matches!(
        io_ntstatus_result(0xC0000001_u32 as i32),
        Err(IoPriorityError::Failed(message)) if message == "NTSTATUS 0xC0000001."
    ));
}

#[test]
fn io_priorities_round_trip_and_have_labels() {
    for p in [
        ProcessIoPriority::VeryLow,
        ProcessIoPriority::Low,
        ProcessIoPriority::Normal,
        ProcessIoPriority::High,
        ProcessIoPriority::Critical,
    ] {
        assert_eq!(io_priority_from_raw(io_priority_raw(p)), p);
    }
    assert_eq!(io_priority_from_raw(17), ProcessIoPriority::Normal);
    assert_eq!(io_priority_label(ProcessIoPriority::VeryLow), "Very Low");
}

#[test]
fn raw_memory_priorities_round_trip() {
    for priority in ProcessMemoryPriority::all() {
        assert_eq!(memory_priority_from_raw(memory_priority_raw(priority)), priority);
    }
}

#[test]
fn memory_priority_summary_messages_use_process_count() {
    assert_eq!(memory_priority_apply_summary_message(1), "Applied memory priority to 1 process.");
    assert_eq!(memory_priority_apply_summary_message(5), "Applied memory priority to 5 processes.");
    assert_eq!(
        memory_priority_restore_summary_message(1, "foreground app is unknown"),
        "Restored previous memory priority for 1 process: foreground app is unknown."
    );
    assert_eq!(
        memory_priority_restore_summary_message(5, "foreground app is unknown"),
        "Restored previous memory priority for 5 processes: foreground app is unknown."
    );
}

#[test]
fn memory_priority_summary_process_name_matches_feature_context() {
    assert_eq!(
        memory_priority_summary_process_name(ActionLogFeature::MemoryPriority),
        "Memory Priority"
    );
    assert_eq!(
        memory_priority_summary_process_name(ActionLogFeature::ForegroundResponsiveness),
        "Auto Balance"
    );
}

#[test]
fn cpu_priority_registry_values_match_process_priority_class() {
    assert_eq!(ProcessCpuPrioritySetting::Default.registry_value(), None);
    assert_eq!(ProcessCpuPrioritySetting::Idle.registry_value(), Some(1));
    assert_eq!(ProcessCpuPrioritySetting::Normal.registry_value(), Some(2));
    assert_eq!(ProcessCpuPrioritySetting::High.registry_value(), Some(3));
    assert_eq!(ProcessCpuPrioritySetting::BelowNormal.registry_value(), Some(5));
    assert_eq!(ProcessCpuPrioritySetting::AboveNormal.registry_value(), Some(6));
}

#[test]
fn io_priority_registry_values_match_io_priority_hint() {
    assert_eq!(io_priority_registry_value(ProcessIoPrioritySetting::Default), None);
    assert_eq!(io_priority_registry_value(ProcessIoPrioritySetting::VeryLow), Some(0));
    assert_eq!(io_priority_registry_value(ProcessIoPrioritySetting::Low), Some(1));
    assert_eq!(io_priority_registry_value(ProcessIoPrioritySetting::Normal), Some(2));
}

#[test]
fn memory_priority_registry_values_match_page_priority() {
    assert_eq!(memory_priority_registry_value(ProcessMemoryPrioritySetting::Default), None);
    assert_eq!(memory_priority_registry_value(ProcessMemoryPrioritySetting::VeryLow), Some(1));
    assert_eq!(memory_priority_registry_value(ProcessMemoryPrioritySetting::Low), Some(2));
    assert_eq!(memory_priority_registry_value(ProcessMemoryPrioritySetting::Medium), Some(3));
    assert_eq!(memory_priority_registry_value(ProcessMemoryPrioritySetting::BelowNormal), Some(4));
    assert_eq!(memory_priority_registry_value(ProcessMemoryPrioritySetting::Normal), Some(5));
}

#[test]
fn process_image_names_reject_paths_and_patterns() {
    assert_eq!(normalize_process_image_name(" Game.EXE "), Some("game.exe".to_owned()));
    assert_eq!(normalize_process_image_name("folder\\game.exe"), None);
    assert_eq!(normalize_process_image_name("game*.exe"), None);
    assert_eq!(normalize_process_image_name(""), None);
}

fn rule(name: &str, cpu: ProcessCpuPrioritySetting) -> LaunchPriorityRule {
    LaunchPriorityRule {
        enabled: true,
        process_name: name.to_owned(),
        cpu_priority: cpu,
        io_priority: ProcessIoPrioritySetting::Default,
        memory_priority: ProcessMemoryPrioritySetting::Default,
    }
}

#[test]
fn desired_launch_rules_are_unique_sorted_and_last_wins() {
    let settings = LaunchPrioritySettings {
        enabled: true,
        rules: vec![
            rule("Zed.exe", ProcessCpuPrioritySetting::High),
            rule("app.exe", ProcessCpuPrioritySetting::Idle),
            rule("APP.EXE", ProcessCpuPrioritySetting::Normal),
            rule("none.exe", ProcessCpuPrioritySetting::Default),
            rule("bad/path.exe", ProcessCpuPrioritySetting::High),
        ],
    };
    let desired = desired_registry_rules(&settings);
    assert_eq!(desired.len(), 2);
    assert_eq!(desired[0].process_name, "app.exe");
    assert_eq!(desired[0].cpu_priority, Some(2));
    assert_eq!(desired[1].process_name, "zed.exe");
    let stale = stale_launch_priority_processes(&desired, &vec!["old.exe".to_owned(), "app.exe".to_owned()]);
    assert_eq!(stale, vec!["old.exe".to_owned()]);
    assert!(desired_registry_rules(&LaunchPrioritySettings { enabled: false, ..settings }).is_empty());
}

#[test]
fn launch_priority_paths_and_failures() {
    assert_eq!(
        perf_options_path("game.exe"),
        "SOFTWARE\\Microsoft\\Windows NT\\CurrentVersion\\Image File Execution Options\\game.exe\\PerfOptions"
    );
    assert_eq!(
        registry_error_message("open registry key", 5),
        "Failed to open registry key: Windows error 5."
    );
    let mut snapshot = LaunchPrioritySnapshot::for_settings(true, 2);
    snapshot.record_failure("first".to_owned());
    snapshot.record_failure("second".to_owned());
    snapshot.finish();
    assert_eq!(snapshot.failed_actions, 2);
    assert_eq!(snapshot.last_error.as_deref(), Some("first"));
    assert_eq!(snapshot.message, "Launch priority registry sync completed with errors.");
}
