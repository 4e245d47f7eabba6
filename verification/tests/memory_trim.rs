use winderust::action_log::{ActionLog, ActionLogResult};
use winderust::config::{BackgroundEfficiencyRule, MemoryTrimSettings};
use winderust::cpu::ProcessCpuSample;
use winderust::features::memory_trim::{
    memory_trim_candidates, memory_trim_targets, MemoryTrimAssessment, MemoryTrimHold, MemoryTrimManager,
    MemoryTrimMode, MemoryTrimPass, MemoryTrimProcessUpdate, MemoryTrimTarget,
};
use winderust::features::process_control::ProcessControlError;
use winderust::foreground::process_list::{CanonicalPaths, ProcessInfo};

fn process(id: u32, name: &str, path: &str, creation_time: u64) -> ProcessInfo {
    ProcessInfo {
        id,
        parent_id: None,
        session_id: Some(1),
        user_name: None,
        is_service_account: Some(false),
        is_critical: Some(false),
        can_set_information: true,
        name: name.to_owned(),
        image_path: Some(path.to_owned()),
        creation_time: Some(creation_time),
    }
}

fn target(id: u32, name: &str, path: &str, creation_time: u64) -> MemoryTrimTarget {
    MemoryTrimTarget {
        process_id: id,
        process_name: name.to_owned(),
        executable_path: path.to_owned(),
        creation_time,
    }
}

fn settings() -> MemoryTrimSettings {
    MemoryTrimSettings {
        enabled: true,
        system_memory_load_threshold_percent: 80,
        process_working_set_threshold_mb: 200,
        process_idle_seconds: 300,
        exclusions: vec![BackgroundEfficiencyRule { enabled: true, executable_path: r"C:\Apps\keep.exe".to_owned() }],
    }
}

const MB: u64 = 1024 * 1024;
const SECOND: u128 = 1_000_000_000;

#[test]
fn targets_skip_protected_and_foreground_processes_and_sort_by_id() {
    let mut critical = process(40, "svc.exe", r"C:\Apps\svc.exe", 1);
    critical.is_critical = Some(true);
    let mut no_start = process(41, "late.exe", r"C:\Apps\late.exe", 1);
    no_start.creation_time = None;
    let processes = vec![
        process(30, "b.exe", r"C:\Apps\b.exe", 3),
        process(0, "Idle", r"C:\Idle", 1),
        process(10, "a.exe", r"C:\Apps\a.exe", 1),
        process(7, "me.exe", r"C:\Apps\me.exe", 1),
        process(20, "front.exe", r"C:\Apps\front.exe", 1),
        process(21, "front.exe", r"C:\Apps\front.exe", 2),
        process(22, "csrss.exe", r"C:\Windows\csrss.exe", 1),
        process(23, "keep.exe", r"C:\Apps\keep.exe", 1),
        critical,
        no_start,
        process(10, "a2.exe", r"C:\Apps\a2.exe", 9),
    ];
    let canonical = CanonicalPaths { entries: Vec::new() };
    let all = memory_trim_candidates(&processes, 7, Some(20), &canonical, &settings());
    let ids: Vec<u32> = all.iter().map(|t| t.process_id).collect();
    assert_eq!(ids, vec![30, 10, 10]);

    let targets = memory_trim_targets(&processes, 7, Some(20), &canonical, &settings());
    let ids: Vec<u32> = targets.iter().map(|t| t.process_id).collect();
    assert_eq!(ids, vec![10, 30]);
    assert_eq!(targets[0].process_name, "a2.exe");
    assert_eq!(targets[0].creation_time, 9);
    assert_eq!(targets[1].executable_path, r"C:\Apps\b.exe");
}

#[test]
fn small_processes_wait_and_manual_passes_trim_at_once() {
    let mut manager = MemoryTrimManager::default();
    let canonical = CanonicalPaths { entries: Vec::new() };
    let t = target(5, "big.exe", r"C:\Apps\big.exe", 1);
    let sample = ProcessCpuSample { cpu_time_100ns: 0, sampled_at: SECOND };
    let r = manager.assess_process(&t, 200 * MB - 1, Some(sample), &settings(), MemoryTrimMode::Automatic, 1, &canonical, SECOND);
    assert_eq!(r, Ok(MemoryTrimAssessment::Waiting));
    let r = manager.assess_process(&t, 200 * MB, None, &settings(), MemoryTrimMode::Manual, 1, &canonical, SECOND);
    assert_eq!(r, Ok(MemoryTrimAssessment::TrimDue));
    assert!(manager.watched.is_empty());
    let r = manager.assess_process(&t, 200 * MB, None, &settings(), MemoryTrimMode::Automatic, 1, &canonical, SECOND);
    assert_eq!(r, Err(ProcessControlError::Failed("Memory Trim CPU sample is unavailable.".to_owned())));
}

#[test]
fn idle_large_process_is_trimmed_once_after_idle_time() {
    let mut manager = MemoryTrimManager::default();
    let canonical = CanonicalPaths { entries: Vec::new() };
    let s = settings();
    let t = target(5, "big.exe", r"C:\Apps\big.exe", 1);
    let ws = 300 * MB;
    let at = |secs: u128| ProcessCpuSample { cpu_time_100ns: 0, sampled_at: secs * SECOND };
    let mode = MemoryTrimMode::Automatic;
    assert_eq!(manager.assess_process(&t, ws, Some(at(1)), &s, mode, 2, &canonical, SECOND), Ok(MemoryTrimAssessment::Candidate));
    assert_eq!(manager.assess_process(&t, ws, Some(at(2)), &s, mode, 2, &canonical, 2 * SECOND), Ok(MemoryTrimAssessment::Candidate));
    assert_eq!(manager.watched.get(&5).unwrap().idle_since, Some(2 * SECOND));
    assert_eq!(
        manager.assess_process(&t, ws, Some(at(302)), &s, mode, 2, &canonical, 302 * SECOND),
        Ok(MemoryTrimAssessment::TrimDue)
    );
    let done = manager.finish_trim(&t, mode, Ok(Some(64 * MB)));
    assert_eq!(done, Ok(MemoryTrimProcessUpdate::Trimmed { freed_bytes: Some(64 * MB) }));
    assert!(manager.watched.get(&5).unwrap().trimmed_while_idle);
    assert_eq!(
        manager.assess_process(&t, ws, Some(at(900)), &s, mode, 2, &canonical, 900 * SECOND),
        Ok(MemoryTrimAssessment::Candidate)
    );

    // A new process under the same id starts over.
    let again = target(5, "big.exe", r"C:\Apps\big.exe", 2);
    assert_eq!(
        manager.assess_process(&again, ws, Some(at(901)), &s, mode, 2, &canonical, 901 * SECOND),
        Ok(MemoryTrimAssessment::Candidate)
    );
    let state = manager.watched.get(&5).unwrap();
    assert_eq!(state.creation_time, 2);
    assert!(!state.trimmed_while_idle);
    assert_eq!(state.idle_since, None);
}

#[test]
fn retain_targets_forgets_other_processes() {
    let mut manager = MemoryTrimManager::default();
    let canonical = CanonicalPaths { entries: Vec::new() };
    let sample = ProcessCpuSample { cpu_time_100ns: 0, sampled_at: SECOND };
    let a = target(1, "a.exe", r"C:\a.exe", 1);
    let b = target(2, "b.exe", r"C:\b.exe", 1);
    for t in [&a, &b] {
        manager.assess_process(t, 300 * MB, Some(sample), &settings(), MemoryTrimMode::Automatic, 1, &canonical, SECOND).unwrap();
    }
    manager.record_process_failure(r"C:\b.exe");
    manager.record_process_failure(r"C:\a.exe");
    manager.retain_targets(&vec![target(2, "b.exe", r"C:\b.exe", 1)]);
    assert_eq!(manager.watched.keys().copied().collect::<Vec<_>>(), vec![2]);
    let mut log = ActionLog::new(8);
    let mut excluded = Vec::new();
    manager.record_process_failure(r"C:\b.exe");
    manager.record_process_failure(r"C:\b.exe");
    manager.record_process_failure(r"C:\a.exe");
    manager.record_process_failure(r"C:\a.exe");
    assert!(manager.is_process_suppressed(2, "b.exe", r"C:\b.exe", &mut log, &mut excluded));
    assert!(!manager.is_process_suppressed(1, "a.exe", r"C:\a.exe", &mut log, &mut excluded));
}

#[test]
fn pass_results_are_counted_logged_and_suppressed() {
    let mut manager = MemoryTrimManager::default();
    let mut pass = MemoryTrimPass::new();
    let mut log = ActionLog::new(16);
    let mode = MemoryTrimMode::Automatic;
    let b = target(2, "b.exe", r"C:\b.exe", 1);
    let a = target(1, "a.exe", r"C:\a.exe", 1);
    manager.record_update_result(&mut pass, &b, &Ok(MemoryTrimProcessUpdate::Trimmed { freed_bytes: Some(2 * MB) }), mode, &mut log);
    manager.record_update_result(&mut pass, &a, &Ok(MemoryTrimProcessUpdate::Trimmed { freed_bytes: None }), mode, &mut log);
    manager.record_update_result(&mut pass, &a, &Ok(MemoryTrimProcessUpdate::Candidate), mode, &mut log);
    manager.record_update_result(&mut pass, &a, &Ok(MemoryTrimProcessUpdate::Waiting), mode, &mut log);
    assert_eq!(pass.candidate_processes, 3);
    assert_eq!(pass.trimmed_processes, 2);
    assert_eq!(pass.trimmed_apps, vec!["a.exe".to_owned(), "b.exe".to_owned()]);
    assert_eq!(log.entries().len(), 2);
    assert_eq!(log.entries()[0].result, ActionLogResult::Applied);

    let denied = target(3, "locked.exe", r"C:\locked.exe", 1);
    manager.record_update_result(&mut pass, &denied, &Err(ProcessControlError::AccessDenied("no".to_owned())), mode, &mut log);
    assert_eq!(pass.skipped_processes, 1);
    assert_eq!(log.entries().len(), 3);
    assert_eq!(log.entries()[2].result, ActionLogResult::Skipped);
    assert_eq!(log.entries()[2].reason, "Skipped because the process could not be opened.");
    assert!(manager.skip_if_suppressed(&mut pass, &denied, &mut log));
    assert_eq!(pass.skipped_processes, 2);
    assert_eq!(pass.auto_excluded_processes, vec![r"C:\locked.exe".to_owned()]);

    manager.record_update_result(&mut pass, &a, &Err(ProcessControlError::ProcessExited), mode, &mut log);
    assert_eq!(pass.skipped_processes, 3);
    manager.record_update_result(&mut pass, &a, &Err(ProcessControlError::Failed("boom".to_owned())), mode, &mut log);
    assert_eq!(pass.failures.count, 1);
    assert_eq!(pass.failures.last_error.as_deref(), Some("Trim a.exe (1): boom"));

    let snapshot = pass.snapshot(10, 85, mode);
    assert!(snapshot.enabled);
    assert_eq!(snapshot.scanned_processes, 10);
    assert_eq!(snapshot.failed_processes, 1);
    assert_eq!(snapshot.memory_load_percent, Some(85));
    assert_eq!(snapshot.message, "Memory Trim active.");
    assert_eq!(snapshot.last_error.as_deref(), Some("Trim a.exe (1): boom"));
}

#[test]
fn held_passes_report_why() {
    let mut manager = MemoryTrimManager::default();
    let snapshot = manager.hold_pass(MemoryTrimHold::AutomationDisabled);
    assert!(!snapshot.enabled);
    assert_eq!(snapshot.message, "Automation disabled.");
    let snapshot = manager.hold_pass(MemoryTrimHold::ForegroundUnknown);
    assert!(snapshot.enabled);
    assert_eq!(snapshot.message, "Paused: foreground app is unknown.");
    let snapshot = manager.wait_for_memory_load(42, 150);
    assert_eq!(snapshot.message, "Memory Trim waiting for system memory load >= 100%.");
    assert_eq!(snapshot.memory_load_percent, Some(42));
    let snapshot = manager.memory_load_unavailable("no status");
    assert_eq!(snapshot.last_error.as_deref(), Some("no status"));
    let snapshot = manager.process_list_unavailable(90, "no list");
    assert_eq!(snapshot.message, "no list");
    assert_eq!(snapshot.last_error, None);
}
