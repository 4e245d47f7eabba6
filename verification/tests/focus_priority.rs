use winderust::action_log::{ActionLog, ActionLogFeature, ActionLogResult};
use winderust::features::cpu_scheduler::{
    focus_group_start, restrainable_processes, CpuSchedulerManager, CpuSchedulerTier, FocusGroupResult, FocusGroupStart,
};
use winderust::features::workload_engine::WorkloadEngineManager;
use winderust::features::process_control::{PriorityFailures, ProcessControlError, ProcessPropertyApplyOutcome};
use winderust::foreground::process_list::{CanonicalPaths, ProcessInfo};
use winderust::priority_class::PriorityClassValue;

const MS: u128 = 1_000_000;

fn targets() -> Vec<(u32, String, String, u64)> {
    vec![
        (5, "helper.exe".to_owned(), r"C:\Game\helper.exe".to_owned(), 2),
        (4, "game.exe".to_owned(), r"C:\Game\game.exe".to_owned(), 1),
    ]
}

#[test]
fn focus_groups_need_a_named_foreground_among_the_targets() {
    assert!(matches!(focus_group_start(4, Some("  "), &targets()), FocusGroupStart::NotEligible));
    assert!(matches!(focus_group_start(4, Some("game.exe"), &Vec::new()), FocusGroupStart::NotEligible));
    assert!(matches!(focus_group_start(9, Some("game.exe"), &targets()), FocusGroupStart::IdentityUnavailable));
    match focus_group_start(4, Some("game.exe"), &targets()) {
        FocusGroupStart::Foreground { executable_path, creation_time } => {
            assert_eq!(executable_path, r"C:\Game\game.exe");
            assert_eq!(creation_time, 1);
        },
        _ => panic!("the foreground app is among the targets"),
    }
}

#[test]
fn foreground_boost_waits_for_the_stability_delay() {
    let mut manager = CpuSchedulerManager::new();
    let canonical = CanonicalPaths { entries: Vec::new() };
    let path = r"C:\Game\game.exe";
    assert!(!manager.foreground_boost_stable(4, "game.exe", path, 1, 500, None, &canonical, 1_000 * MS));
    assert!(!manager.foreground_boost_stable(4, "GAME.exe", path, 1, 500, None, &canonical, 1_400 * MS));
    assert!(manager.foreground_boost_stable(4, "game.exe", path, 1, 500, None, &canonical, 1_500 * MS));
    // Another process under the same id starts over.
    assert!(!manager.foreground_boost_stable(4, "game.exe", path, 2, 500, None, &canonical, 1_600 * MS));
    assert_eq!(manager.focus_process_candidate.as_ref().unwrap().first_seen, 1_600 * MS);
    // A launching app counts at once.
    assert!(manager.foreground_boost_stable(7, "new.exe", r"C:\new.exe", 3, 500, Some(MS), &canonical, 1_700 * MS));
}

#[test]
fn focus_priority_results_are_counted_and_logged() {
    let mut manager = CpuSchedulerManager::new();
    let mut result = FocusGroupResult { skipped: 0, failures: PriorityFailures::new() };
    let mut log = ActionLog::new(8);
    let high = PriorityClassValue::High;
    manager.record_focus_priority_result(&mut result, 4, "game.exe", r"C:\game.exe", high, &Ok(ProcessPropertyApplyOutcome::Applied), &mut log);
    assert_eq!(log.entries()[0].reason, "Set focus process priority to High.");
    assert_eq!(log.entries()[0].feature, ActionLogFeature::CpuScheduler);
    manager.record_focus_priority_result(&mut result, 4, "game.exe", r"C:\game.exe", high, &Ok(ProcessPropertyApplyOutcome::Preserved), &mut log);
    manager.record_focus_priority_result(&mut result, 5, "h.exe", r"C:\h.exe", high, &Err(ProcessControlError::ProcessExited), &mut log);
    manager.record_focus_priority_result(&mut result, 6, "p.exe", r"C:\p.exe", high, &Err(ProcessControlError::AccessDenied("denied".to_owned())), &mut log);
    assert_eq!(result.skipped, 3);
    assert_eq!(log.entries()[1].result, ActionLogResult::Skipped);
    assert_eq!(log.entries()[1].reason, "denied");
    manager.record_focus_priority_result(&mut result, 7, "", r"C:\q.exe", high, &Err(ProcessControlError::Failed("no".to_owned())), &mut log);
    assert_eq!(result.failures.count, 1);
    assert_eq!(result.failures.last_error.as_deref(), Some("Set Focus Process Priority process (7): no"));
    let mut more = PriorityFailures::new();
    more.record_control_error(ActionLogFeature::CpuScheduler, "Restore", 8, "x.exe", &ProcessControlError::ProcessExited, &mut log);
    assert_eq!(more.count, 0);
    more.record_control_error(ActionLogFeature::CpuScheduler, "Restore", 8, "x.exe", &ProcessControlError::Unavailable("gone".to_owned()), &mut log);
    result.failures.merge(more);
    assert_eq!(result.failures.count, 2);
    assert_eq!(result.failures.last_error.as_deref(), Some("Set Focus Process Priority process (7): no"));
}

#[test]
fn workload_engine_boost_waits_for_the_same_foreground_app() {
    let mut manager = WorkloadEngineManager::new();
    assert!(!manager.foreground_boost_stable(4, "game.exe", 250, None, 0));
    assert!(!manager.foreground_boost_stable(4, "Game.exe ", 250, None, 249 * MS));
    assert!(manager.foreground_boost_stable(4, "game.exe", 250, None, 250 * MS));
    assert!(!manager.foreground_boost_stable(5, "game.exe", 250, None, 300 * MS));
    assert!(manager.foreground_boost_stable(6, "new.exe", 250, Some(8_000 * MS), 301 * MS));
    assert!(!manager.foreground_boost_stable(7, "old.exe", 250, Some(8_001 * MS), 302 * MS));
}

fn listed(id: u32, name: &str, session_id: Option<u32>) -> ProcessInfo {
    ProcessInfo {
        id,
        parent_id: None,
        session_id,
        user_name: None,
        is_service_account: Some(false),
        is_critical: Some(false),
        can_set_information: true,
        name: name.to_owned(),
        image_path: None,
        creation_time: None,
    }
}

#[test]
fn restrainable_processes_get_their_tier() {
    let mut locked = listed(14, "locked.exe", Some(1));
    locked.can_set_information = false;
    let mut unknown = listed(15, "unknown.exe", Some(1));
    unknown.is_critical = None;
    let processes = vec![
        listed(12, "browser.exe", Some(1)),
        listed(10, "indexer.exe", Some(1)),
        listed(11, "other-session.exe", Some(2)),
        listed(3, "game.exe", Some(1)),
        listed(4, "game-helper.exe", Some(1)),
        listed(5, "managed.exe", Some(1)),
        listed(6, "me.exe", Some(1)),
        listed(7, "csrss.exe", Some(1)),
        locked,
        unknown,
    ];
    let r = restrainable_processes(&processes, 6, Some(3), &vec![3, 4], &vec![5], false, 1, &vec![12]);
    let got: Vec<(u32, String, CpuSchedulerTier)> = r.iter().map(|(id, (name, tier))| (*id, name.clone(), *tier)).collect();
    assert_eq!(
        got,
        vec![
            (10, "indexer.exe".to_owned(), CpuSchedulerTier::Background),
            (12, "browser.exe".to_owned(), CpuSchedulerTier::VisibleWindow),
        ]
    );
    let r = restrainable_processes(&processes, 6, Some(3), &vec![3, 4], &vec![5], true, 1, &vec![12]);
    assert_eq!(r.keys().copied().collect::<Vec<u32>>(), vec![10, 11, 12]);
}
