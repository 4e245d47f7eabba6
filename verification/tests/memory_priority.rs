use winderust::action_log::{ActionLog, ActionLogAction, ActionLogFeature, ActionLogResult};
use winderust::config::ProcessMemoryPriority;
use winderust::memory_priority::{
    log_memory_apply_summary, log_memory_restore_summary, memory_priority_refresh_result, MemoryApplyOutcome,
    MemoryApplyPlan, MemoryPriorityError, MemoryPriorityFailures, MemoryPriorityManager, MemoryPriorityTarget,
};

#[test]
fn repeated_process_failures_suppress_memory_priority_retries() {
    let mut manager = MemoryPriorityManager::new();
    let mut log = ActionLog::new(8);

    manager.record_process_failure("APP.exe");
    manager.record_process_failure("app.exe");
    assert!(!manager.is_process_suppressed(42, "app.exe", ActionLogFeature::ForegroundResponsiveness, &mut log));

    manager.record_process_failure("app.exe");
    assert!(manager.is_process_suppressed(42, "app.exe", ActionLogFeature::ForegroundResponsiveness, &mut log));
    assert!(manager.is_process_suppressed(43, "APP.exe", ActionLogFeature::ForegroundResponsiveness, &mut log));

    let entries = log.entries();
    assert_eq!(entries.len(), 1);
    assert_eq!(entries[0].feature, ActionLogFeature::ForegroundResponsiveness);
    assert_eq!(entries[0].action, ActionLogAction::Skip);
    assert_eq!(entries[0].result, ActionLogResult::Skipped);
    assert!(entries[0].reason.contains("Stopped retrying memory priority"));
}

#[test]
fn memory_apply_plans_follow_the_recorded_change() {
    let mut manager = MemoryPriorityManager::new();
    let plan = manager.plan_apply(3, "bg.exe", ProcessMemoryPriority::Low, false, false, false, ProcessMemoryPriority::Normal);
    assert_eq!(plan, MemoryApplyPlan::Change { baseline: ProcessMemoryPriority::Normal });
    manager.commit_apply(3, "bg.exe", ProcessMemoryPriority::Low, ProcessMemoryPriority::Normal);
    assert_eq!(
        manager.plan_apply(3, "BG.exe", ProcessMemoryPriority::Low, false, false, false, ProcessMemoryPriority::Low),
        MemoryApplyPlan::AlreadyApplied
    );
    assert_eq!(
        manager.plan_apply(3, "bg.exe", ProcessMemoryPriority::Normal, false, false, true, ProcessMemoryPriority::Low),
        MemoryApplyPlan::Preserve { restore: Some(ProcessMemoryPriority::Normal) }
    );
    assert!(manager.adjusted.is_empty());
    assert_eq!(
        memory_priority_refresh_result(ProcessMemoryPriority::Medium, ProcessMemoryPriority::Low),
        Err(MemoryPriorityError::Failed("Memory priority remained Medium after requesting Low.".to_owned()))
    );
}

#[test]
fn memory_results_are_counted_and_summarized() {
    let mut manager = MemoryPriorityManager::new();
    let mut failures = MemoryPriorityFailures::new();
    let mut log = ActionLog::new(8);
    let target = MemoryPriorityTarget {
        process_id: 4,
        process_name: "bg.exe".to_owned(),
        priority: ProcessMemoryPriority::Low,
        foreground: false,
        preserve_foreground_priority: false,
        preserve_background_priority: false,
    };
    let feature = ActionLogFeature::MemoryPriority;
    assert_eq!(
        manager.record_apply_result(&mut failures, &target, &Ok(MemoryApplyOutcome::Applied { loggable: true }), feature, &mut log),
        (0, 1)
    );
    assert_eq!(
        manager.record_apply_result(&mut failures, &target, &Err(MemoryPriorityError::AccessDenied), feature, &mut log),
        (1, 0)
    );
    assert_eq!(log.entries()[0].reason, "Skipped because Windows denied memory priority access to the process.");
    assert_eq!(
        manager.record_apply_result(&mut failures, &target, &Err(MemoryPriorityError::Failed("x".to_owned())), feature, &mut log),
        (0, 0)
    );
    assert_eq!(failures.last_error.as_deref(), Some("Apply bg.exe (4): x"));
    log_memory_apply_summary(1, ActionLogFeature::ForegroundResponsiveness, &mut log);
    assert_eq!(log.entries()[2].process_name, "Auto Balance");
    assert_eq!(log.entries()[2].reason, "Applied memory priority to 1 process.");
    assert!(!manager.record_restore_result(&mut failures, 4, "bg.exe", &Err(MemoryPriorityError::AccessDenied), "automation disabled", feature, &mut log));
    assert_eq!(
        log.entries()[3].reason,
        "Skipped restoring previous memory priority because Windows denied access: automation disabled."
    );
    log_memory_restore_summary(2, "automation disabled", feature, &mut log);
    assert_eq!(log.entries()[4].reason, "Restored previous memory priority for 2 processes: automation disabled.");
}
