use winderust::action_log::{ActionLog, ActionLogAction, ActionLogFeature, ActionLogResult};
use winderust::config::ProcessIoPriority;
use winderust::io_priority::{
    io_priority_refresh_result, log_io_apply_summary, log_io_restore_summary, IoApplyOutcome, IoApplyPlan,
    IoPriorityError, IoPriorityFailures, IoPriorityManager, IoPriorityPass,
};

#[test]
fn repeated_process_failures_suppress_io_priority_retries() {
    let mut manager = IoPriorityManager::new();
    let mut log = ActionLog::new(8);

    manager.record_process_failure("APP.exe");
    manager.record_process_failure("app.exe");
    assert!(!manager.is_process_suppressed(42, "app.exe", &mut log, &mut Vec::new()));

    manager.record_process_failure("app.exe");
    assert!(manager.is_process_suppressed(42, "app.exe", &mut log, &mut Vec::new()));
    assert!(manager.is_process_suppressed(43, "APP.exe", &mut log, &mut Vec::new()));

    let entries = log.entries();
    assert_eq!(entries.len(), 1);
    assert_eq!(entries[0].feature, ActionLogFeature::IoPriority);
    assert_eq!(entries[0].action, ActionLogAction::Skip);
    assert_eq!(entries[0].result, ActionLogResult::Skipped);
    assert!(entries[0].reason.contains("Stopped retrying I/O Priority"));
}

#[test]
fn successful_process_clears_io_priority_failure_suppression() {
    let mut manager = IoPriorityManager::new();
    let mut log = ActionLog::new(8);

    manager.record_process_failure("app.exe");
    manager.record_process_failure("app.exe");
    manager.record_process_failure("app.exe");
    assert!(manager.is_process_suppressed(42, "app.exe", &mut log, &mut Vec::new()));

    manager.clear_process_failure("APP.exe");
    assert!(!manager.is_process_suppressed(42, "app.exe", &mut log, &mut Vec::new()));
}

#[test]
fn io_apply_plans_follow_the_recorded_change() {
    let mut manager = IoPriorityManager::new();
    let plan = manager.plan_apply(9, "copy.exe", 5, ProcessIoPriority::Low, false, false, false, ProcessIoPriority::Normal);
    assert_eq!(plan, IoApplyPlan::Change { baseline: ProcessIoPriority::Normal });
    manager.commit_apply(9, "copy.exe", 5, ProcessIoPriority::Low, ProcessIoPriority::Normal);
    assert_eq!(
        manager.plan_apply(9, "copy.exe", 5, ProcessIoPriority::Low, false, false, false, ProcessIoPriority::Low),
        IoApplyPlan::AlreadyApplied
    );
    // Another process under the same id starts from its own priority.
    assert_eq!(
        manager.plan_apply(9, "copy.exe", 6, ProcessIoPriority::Low, false, false, false, ProcessIoPriority::Low),
        IoApplyPlan::Record { baseline: ProcessIoPriority::Low }
    );
    // A background process whose priority was at most the desired one keeps it,
    // and gets back the priority it had.
    assert_eq!(
        manager.plan_apply(9, "copy.exe", 5, ProcessIoPriority::Normal, false, false, true, ProcessIoPriority::Low),
        IoApplyPlan::Preserve { restore: Some(ProcessIoPriority::Normal) }
    );
    assert_eq!(io_priority_refresh_result(ProcessIoPriority::Low, ProcessIoPriority::Low), Ok(()));
    assert_eq!(
        io_priority_refresh_result(ProcessIoPriority::Normal, ProcessIoPriority::VeryLow),
        Err(IoPriorityError::Failed("I/O priority remained Normal after requesting Very Low.".to_owned()))
    );
}

#[test]
fn io_results_are_counted_and_summarized() {
    let mut manager = IoPriorityManager::new();
    let mut pass = IoPriorityPass { skipped_processes: 0, applied_processes: 0, auto_excluded_processes: Vec::new() };
    let mut failures = IoPriorityFailures::new();
    let mut log = ActionLog::new(8);
    manager.record_apply_result(&mut pass, &mut failures, 1, "a.exe", &Ok(IoApplyOutcome::Applied { loggable: true }), &mut log);
    manager.record_apply_result(&mut pass, &mut failures, 2, "b.exe", &Ok(IoApplyOutcome::Applied { loggable: false }), &mut log);
    manager.record_apply_result(&mut pass, &mut failures, 3, "c.exe", &Err(IoPriorityError::AccessDenied), &mut log);
    manager.record_apply_result(&mut pass, &mut failures, 4, "d.exe", &Err(IoPriorityError::Failed("bad".to_owned())), &mut log);
    assert_eq!(pass.applied_processes, 1);
    assert_eq!(pass.skipped_processes, 1);
    assert_eq!(failures.count, 1);
    assert_eq!(failures.last_error.as_deref(), Some("Apply d.exe (4): bad"));
    assert_eq!(log.entries()[0].reason, "Skipped because the process could not be opened.");
    log_io_apply_summary(pass.applied_processes, &mut log);
    assert_eq!(log.entries()[2].reason, "Applied I/O priority to 1 process.");

    manager.commit_apply(5, "e.exe", 1, ProcessIoPriority::Low, ProcessIoPriority::Normal);
    assert!(manager.record_restore_result(&mut failures, 5, "e.exe", &Ok(()), &mut log));
    assert!(manager.adjusted.is_empty());
    log_io_restore_summary(1, "automation disabled", &mut log);
    assert_eq!(log.entries()[3].reason, "Restored previous I/O priority for 1 process: automation disabled.");
}
