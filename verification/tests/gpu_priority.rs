use winderust::action_log::{ActionLog, ActionLogResult};
use winderust::config::{GpuPrioritySettings, ProcessGpuPriority, ProcessGpuPrioritySetting};
use winderust::gpu_priority::{
    gpu_priority_hold, gpu_priority_refresh_result, gpu_target_priority, GpuApplyOutcome, GpuApplyPlan,
    GpuPriorityError, GpuPriorityFailures, GpuPriorityHold, GpuPriorityManager, GpuPriorityPass,
};

const SECOND: u128 = 1_000_000_000;

#[test]
fn pending_gpu_context_does_not_suppress_future_retries() {
    let mut manager = GpuPriorityManager::new();

    assert!(manager.record_process_pending_context("game.exe"));
    assert!(!manager.record_process_pending_context("GAME.exe"));

    assert!(!manager.is_process_suppressed("game.exe", &mut Vec::new()));
}

#[test]
fn repeated_process_failures_suppress_gpu_priority_retries() {
    let mut manager = GpuPriorityManager::new();

    assert!(manager.record_process_failure("APP.exe"));
    assert!(!manager.record_process_failure("app.exe"));
    assert!(!manager.is_process_suppressed("app.exe", &mut Vec::new()));

    assert!(!manager.record_process_failure("app.exe"));
    assert!(manager.is_process_suppressed("app.exe", &mut Vec::new()));
    assert!(manager.is_process_suppressed("APP.exe", &mut Vec::new()));
}

#[test]
fn newly_suppressed_gpu_processes_are_collected_by_key() {
    let mut manager = GpuPriorityManager::new();
    for _ in 0..3 {
        manager.record_process_failure("Game.exe");
    }
    let mut excluded = Vec::new();
    assert!(manager.is_process_suppressed("Game.exe", &mut excluded));
    assert!(manager.is_process_suppressed("Game.exe", &mut excluded));
    assert_eq!(excluded, vec!["game.exe".to_owned()]);
}

#[test]
fn apply_plans_follow_the_recorded_change() {
    let mut manager = GpuPriorityManager::new();
    // Normal (2) -> High (4): a change, logged.
    let plan = manager.plan_apply(7, "game.exe", ProcessGpuPriority::High, true, false, false, 2);
    assert_eq!(plan, GpuApplyPlan::Change { desired_raw: 4, baseline_raw: 2, loggable: true });
    manager.commit_apply(7, "game.exe", ProcessGpuPriority::High, 2);
    // Already at High with the same record: nothing to do.
    assert_eq!(
        manager.plan_apply(7, "GAME.exe", ProcessGpuPriority::High, true, false, false, 4),
        GpuApplyPlan::AlreadyApplied
    );
    // Reset by someone else: change again, not logged, same baseline.
    assert_eq!(
        manager.plan_apply(7, "game.exe", ProcessGpuPriority::High, true, false, false, 1),
        GpuApplyPlan::Change { desired_raw: 4, baseline_raw: 2, loggable: false }
    );
    // Same class, another priority recorded: record only.
    assert_eq!(
        manager.plan_apply(7, "game.exe", ProcessGpuPriority::AboveNormal, true, false, false, 3),
        GpuApplyPlan::Record { baseline_raw: 2 }
    );
    // Preserving a foreground app that already had at least the desired rank
    // restores its class and forgets it.
    assert_eq!(
        manager.plan_apply(7, "game.exe", ProcessGpuPriority::Normal, true, true, false, 4),
        GpuApplyPlan::Preserve { restore_raw: Some(2) }
    );
    assert!(manager.adjusted.is_empty());
    // A process that is already right and was never changed.
    assert_eq!(
        manager.plan_apply(8, "tool.exe", ProcessGpuPriority::Normal, false, false, false, 2),
        GpuApplyPlan::AlreadyApplied
    );
    // A background process already below the desired rank keeps it.
    assert_eq!(
        manager.plan_apply(8, "tool.exe", ProcessGpuPriority::Normal, false, false, true, 1),
        GpuApplyPlan::Preserve { restore_raw: None }
    );
    assert_eq!(gpu_priority_refresh_result(4, ProcessGpuPriority::High), Ok(()));
    assert_eq!(
        gpu_priority_refresh_result(1, ProcessGpuPriority::High),
        Err(GpuPriorityError::Failed("GPU priority remained Below Normal after requesting High.".to_owned()))
    );
}

#[test]
fn apply_results_are_counted() {
    let mut manager = GpuPriorityManager::new();
    let mut pass = GpuPriorityPass::new();
    let mut failures = GpuPriorityFailures::new();
    let mut log = ActionLog::new(8);
    manager.record_apply_result(&mut pass, &mut failures, 1, "a.exe", &Ok(GpuApplyOutcome::Applied { loggable: true }), &mut log);
    manager.record_apply_result(&mut pass, &mut failures, 2, "b.exe", &Ok(GpuApplyOutcome::Preserved), &mut log);
    manager.record_apply_result(&mut pass, &mut failures, 3, "c.exe", &Err(GpuPriorityError::AccessDenied), &mut log);
    manager.record_apply_result(&mut pass, &mut failures, 3, "c.exe", &Err(GpuPriorityError::AccessDenied), &mut log);
    manager.record_apply_result(&mut pass, &mut failures, 4, "d.exe", &Err(GpuPriorityError::GpuContextUnavailable), &mut log);
    manager.record_apply_result(&mut pass, &mut failures, 4, "d.exe", &Err(GpuPriorityError::GpuContextUnavailable), &mut log);
    manager.record_apply_result(&mut pass, &mut failures, 5, "e.exe", &Err(GpuPriorityError::ProcessExited), &mut log);
    manager.record_apply_result(&mut pass, &mut failures, 6, "f.exe", &Err(GpuPriorityError::Failed("bad".to_owned())), &mut log);
    assert_eq!(pass.applied_log_count, 1);
    assert_eq!(pass.skipped_processes, 6);
    assert_eq!(pass.denied_processes, 2);
    assert_eq!(pass.access_denied_log_count, 1);
    assert_eq!(pass.pending_processes, 2);
    assert_eq!(pass.pending_context_log_count, 1);
    assert_eq!(failures.count, 1);
    assert_eq!(failures.last_error.as_deref(), Some("Apply f.exe (6): bad"));
    assert_eq!(log.entries().len(), 1);
    assert_eq!(log.entries()[0].result, ActionLogResult::Failed);
    // A later success ends the wait for a GPU context.
    manager.record_apply_result(&mut pass, &mut failures, 4, "d.exe", &Ok(GpuApplyOutcome::AlreadyApplied), &mut log);
    assert!(manager.record_process_pending_context("d.exe"));
}

#[test]
fn summaries_are_logged_once_per_interval() {
    let mut manager = GpuPriorityManager::new();
    let mut log = ActionLog::new(8);
    manager.record_pending_log_summaries(2, 1, 1, 100 * SECOND, &mut log);
    assert_eq!(log.entries().len(), 2);
    assert_eq!(log.entries()[0].reason, "Applied GPU priority to 2 processes.");
    assert_eq!(
        log.entries()[1].reason,
        "Skipped GPU priority for 2 processes: 1 process waiting for GPU scheduling context, 1 process denied access."
    );
    manager.record_pending_log_summaries(1, 0, 2, 110 * SECOND, &mut log);
    assert_eq!(log.entries().len(), 2);
    assert_eq!(manager.pending_apply_log_count, 1);
    assert_eq!(manager.pending_access_denied_log_count, 2);
    manager.record_pending_log_summaries(0, 0, 0, 130 * SECOND, &mut log);
    assert_eq!(log.entries().len(), 4);
    assert_eq!(log.entries()[2].reason, "Applied GPU priority to 1 process.");
    assert_eq!(log.entries()[3].reason, "Skipped GPU priority for 2 processes: Windows denied access.");
    assert_eq!(manager.pending_apply_log_count, 0);
}

#[test]
fn restores_are_logged_by_outcome() {
    let mut manager = GpuPriorityManager::new();
    let mut failures = GpuPriorityFailures::new();
    let mut log = ActionLog::new(8);
    manager.record_restore_result(&mut failures, 1, "a.exe", &Ok(()), "automation disabled", &mut log);
    manager.record_restore_result(&mut failures, 2, "b.exe", &Err(GpuPriorityError::AccessDenied), "automation disabled", &mut log);
    manager.record_restore_result(&mut failures, 3, "c.exe", &Err(GpuPriorityError::ProcessExited), "automation disabled", &mut log);
    manager.record_restore_result(&mut failures, 4, "d.exe", &Err(GpuPriorityError::Failed("no".to_owned())), "automation disabled", &mut log);
    assert_eq!(log.entries().len(), 3);
    assert_eq!(log.entries()[0].result, ActionLogResult::Restored);
    assert_eq!(log.entries()[0].reason, "Restored previous GPU priority: automation disabled.");
    assert_eq!(
        log.entries()[1].reason,
        "Skipped restoring previous GPU priority because Windows denied access: automation disabled."
    );
    assert_eq!(failures.last_error.as_deref(), Some("Restore d.exe (4): no"));
}

#[test]
fn target_priority_follows_overrides_and_defaults() {
    let settings = GpuPrioritySettings {
        enabled: true,
        foreground_detection_enabled: true,
        foreground_priority: ProcessGpuPrioritySetting::High,
        background_priority: ProcessGpuPrioritySetting::BelowNormal,
        preserve_foreground_priority: false,
        preserve_background_priority: false,
    };
    assert_eq!(gpu_target_priority(&settings, true, None), Some(ProcessGpuPriority::High));
    assert_eq!(gpu_target_priority(&settings, false, None), Some(ProcessGpuPriority::BelowNormal));
    assert_eq!(
        gpu_target_priority(&settings, false, Some(Some(ProcessGpuPrioritySetting::Auto))),
        Some(ProcessGpuPriority::BelowNormal)
    );
    assert_eq!(
        gpu_target_priority(&settings, true, Some(Some(ProcessGpuPrioritySetting::Idle))),
        Some(ProcessGpuPriority::Idle)
    );
    assert_eq!(gpu_target_priority(&settings, true, Some(None)), None);
    assert_eq!(gpu_priority_hold(true, &settings, None, Some(1)), Some(GpuPriorityHold::ForegroundUnknown));
    assert_eq!(gpu_priority_hold(true, &settings, Some(3), None), Some(GpuPriorityHold::SessionUnknown));
    assert_eq!(gpu_priority_hold(false, &settings, Some(3), Some(1)), Some(GpuPriorityHold::AutomationDisabled));
    assert_eq!(gpu_priority_hold(true, &settings, Some(3), Some(1)), None);
}

#[test]
fn retaining_target_names_drops_other_waits_and_failures() {
    let mut manager = GpuPriorityManager::new();
    manager.record_process_pending_context("a.exe");
    manager.record_process_pending_context("b.exe");
    manager.record_process_pending_context("c.exe");
    manager.record_process_failure("a.exe");
    manager.record_process_failure("c.exe");
    manager.retain_target_names(&vec!["C.EXE".to_owned(), "b.exe".to_owned()]);
    assert_eq!(manager.pending_context, vec!["b.exe".to_owned(), "c.exe".to_owned()]);
    assert!(!manager.record_process_failure("c.exe"));
    assert!(manager.record_process_failure("a.exe"));
}
