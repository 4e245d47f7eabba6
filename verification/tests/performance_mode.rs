use winderust::action_log::{ActionLog, ActionLogAction};
use winderust::config::{PerformanceModeRule, PerformanceModeSettings, PowerPlanSettings};
use winderust::foreground::active_window::is_shell_window_class;
use winderust::foreground::process_list::ProcessInfo;
use winderust::performance_mode::{
    is_builtin_excluded, matching_process_names, matching_rule_process, PerformanceModeManager,
};
use winderust::startup::{
    fnv1a64, next_startup_step, single_instance_digest, single_instance_mutex_name, startup_sequence, StartupStep,
};

fn process(id: u32, name: &str) -> ProcessInfo {
    ProcessInfo {
        id,
        parent_id: None,
        session_id: None,
        user_name: None,
        is_service_account: None,
        is_critical: None,
        can_set_information: false,
        name: name.to_owned(),
        image_path: None,
        creation_time: None,
    }
}

#[test]
fn matching_rule_uses_rule_plan_before_global_plan() {
    let settings = PerformanceModeSettings {
        enabled: true,
        rules: vec![PerformanceModeRule {
            enabled: true,
            name: "Game".to_owned(),
            process_name: "Game.EXE".to_owned(),
            power_plan_guid: Some("custom-guid".to_owned()),
        }],
    };
    let processes = vec![process(42, "game.exe")];

    let matched = matching_rule_process(
        &settings,
        &PowerPlanSettings { power_save_guid: None, performance_guid: Some("global-guid".to_owned()) },
        &processes,
    )
    .unwrap();

    assert_eq!(matched.rule_name, "Game");
    assert_eq!(matched.target_guid, "custom-guid");
}

#[test]
fn matching_rule_falls_back_to_global_performance_plan() {
    let settings = PerformanceModeSettings {
        enabled: true,
        rules: vec![PerformanceModeRule {
            enabled: true,
            name: String::new(),
            process_name: "game.exe".to_owned(),
            power_plan_guid: None,
        }],
    };
    let processes = vec![process(42, "game.exe")];

    let matched = matching_rule_process(
        &settings,
        &PowerPlanSettings { power_save_guid: None, performance_guid: Some("global-guid".to_owned()) },
        &processes,
    )
    .unwrap();

    assert_eq!(matched.rule_name, "game.exe");
    assert_eq!(matched.target_guid, "global-guid");
}

#[test]
fn matching_rule_ignores_disabled_and_missing_plan_rules() {
    let settings = PerformanceModeSettings {
        enabled: true,
        rules: vec![
            PerformanceModeRule {
                enabled: false,
                name: "Disabled".to_owned(),
                process_name: "game.exe".to_owned(),
                power_plan_guid: Some("disabled-guid".to_owned()),
            },
            PerformanceModeRule {
                enabled: true,
                name: "Missing plan".to_owned(),
                process_name: "game.exe".to_owned(),
                power_plan_guid: None,
            },
        ],
    };
    let processes = vec![process(42, "game.exe")];

    assert!(matching_rule_process(&settings, &PowerPlanSettings::default(), &processes).is_none());
}

#[test]
fn matching_rule_continues_past_unmatched_rules() {
    let settings = PerformanceModeSettings {
        enabled: true,
        rules: vec![
            PerformanceModeRule {
                enabled: true,
                name: "Missing process".to_owned(),
                process_name: "missing.exe".to_owned(),
                power_plan_guid: Some("missing-guid".to_owned()),
            },
            PerformanceModeRule {
                enabled: true,
                name: "Game".to_owned(),
                process_name: "game.exe".to_owned(),
                power_plan_guid: Some("game-guid".to_owned()),
            },
        ],
    };
    let processes = vec![process(42, "game.exe")];

    let matched = matching_rule_process(&settings, &PowerPlanSettings::default(), &processes).unwrap();

    assert_eq!(matched.rule_name, "Game");
    assert_eq!(matched.target_guid, "game-guid");
}

#[test]
fn mod_builtin_exclusions_cover_sensitive_windows_processes() {
    assert!(is_builtin_excluded("csrss.exe"));
    assert!(is_builtin_excluded("winlogon.exe"));
    assert!(!is_builtin_excluded("game.exe"));
}

#[test]
fn matched_names_are_sorted_and_unique() {
    let settings = PerformanceModeSettings {
        enabled: true,
        rules: vec![
            PerformanceModeRule { enabled: true, name: String::new(), process_name: "b.exe".to_owned(), power_plan_guid: None },
            PerformanceModeRule { enabled: true, name: String::new(), process_name: " A.EXE".to_owned(), power_plan_guid: None },
            PerformanceModeRule { enabled: false, name: String::new(), process_name: "c.exe".to_owned(), power_plan_guid: None },
        ],
    };
    let processes = vec![process(1, "b.exe"), process(2, "a.exe"), process(3, "b.exe"), process(4, "c.exe")];
    assert_eq!(matching_process_names(&settings, &processes), vec!["a.exe".to_owned(), "b.exe".to_owned()]);
}

#[test]
fn decisions_are_logged_once_and_released_with_a_reason() {
    let mut manager = PerformanceModeManager::default();
    let mut log = ActionLog::new(8);
    let settings = PerformanceModeSettings {
        enabled: true,
        rules: vec![PerformanceModeRule {
            enabled: true,
            name: "Game".to_owned(),
            process_name: "game.exe".to_owned(),
            power_plan_guid: Some("plan".to_owned()),
        }],
    };
    let processes = vec![process(42, "game.exe")];
    let matched = matching_rule_process(&settings, &PowerPlanSettings::default(), &processes).unwrap();
    manager.apply_match(matched.clone(), &mut log);
    manager.apply_match(matched, &mut log);
    assert_eq!(log.entries().len(), 1);
    assert_eq!(log.entries()[0].reason, "Rule 'Game' requested performance plan plan.");
    assert!(manager.is_active());
    assert_eq!(manager.active_process_ids(), vec![42]);
    assert_eq!(
        manager.active_decision(),
        Some(("Game".to_owned(), "game.exe".to_owned(), "plan".to_owned()))
    );
    let snapshot = manager.snapshot(true, 10, 1, None);
    assert_eq!(snapshot.message, "Running App Detection active.");
    manager.release(&mut log, "game closed");
    assert!(!manager.is_active());
    assert_eq!(manager.active_decision(), None);
    assert_eq!(log.entries()[1].action, ActionLogAction::Restore);
    assert_eq!(log.entries()[1].reason, "game closed; released Running App Detection decision.");
    assert_eq!(manager.snapshot(true, 0, 0, None).message, "Running App Detection waiting for a matching process.");
}

#[test]
fn shell_window_classes_include_taskbar_and_switcher_surfaces() {
    for class_name in [
        "Shell_TrayWnd",
        "Shell_SecondaryTrayWnd",
        "NotifyIconOverflowWindow",
        "TaskListThumbnailWnd",
        "TaskListOverlayWnd",
        "TaskSwitcherWnd",
        "MultitaskingViewFrame",
        "XamlExplorerHostIslandWindow",
    ] {
        assert!(is_shell_window_class(class_name), "{class_name}");
    }
}

#[test]
fn shell_window_classes_exclude_regular_app_windows() {
    assert!(!is_shell_window_class("Chrome_WidgetWin_1"));
    assert!(!is_shell_window_class("CabinetWClass"));
}

#[test]
fn executable_path_hash_preserves_non_unicode_units() {
    assert_ne!(fnv1a64(&vec![0xD800]), fnv1a64(&vec![0xFFFD]));
}

#[test]
fn fnv_hash_matches_the_reference_values() {
    assert_eq!(fnv1a64(&Vec::new()), 0xcbf29ce484222325);
    // "a" as UTF-16 is the bytes 0x61 0x00.
    let mut hash: u64 = 0xcbf29ce484222325;
    for byte in [0x61u8, 0x00] {
        hash ^= u64::from(byte);
        hash = hash.wrapping_mul(0x00000100000001b3);
    }
    assert_eq!(fnv1a64(&vec![0x61]), hash);
    assert_eq!(single_instance_digest(None), 0x5f3f_2a4e_13a5_59f0);
    assert_eq!(single_instance_mutex_name(0xab), "Local\\Winderust.SingleInstance.00000000000000ab");
}

#[test]
fn application_lifecycle_orders_settings_recovery_runtime_and_helper_finish() {
    let steps = startup_sequence();
    let position = |step: StartupStep| steps.iter().position(|s| *s == step).expect("step");
    let helper_mode = position(StartupStep::RunWatchdogIfRequested);
    let elevated_relaunch = position(StartupStep::CheckElevatedRelaunch);
    let single_instance = position(StartupStep::AcquireSingleInstance);
    let settings = position(StartupStep::LoadSettings);
    let recovery = position(StartupStep::StartRecoveryClient);
    let stale_plan_recovery = position(StartupStep::RestoreStaleAdaptivePlans);
    let application = position(StartupStep::RunApplication);
    let runtime = position(StartupStep::StartRuntime);
    let finish = position(StartupStep::FinishRecoveryClient);

    assert!(helper_mode < elevated_relaunch);
    assert!(elevated_relaunch < single_instance);
    assert!(single_instance < settings);
    assert!(settings < recovery);
    assert!(recovery < stale_plan_recovery);
    assert!(stale_plan_recovery < runtime);
    assert!(runtime < application);
    assert!(application < finish);
}

#[test]
fn startup_stops_early_for_the_watchdog_or_a_second_instance() {
    assert_eq!(next_startup_step(StartupStep::RunWatchdogIfRequested, true), StartupStep::Exit);
    assert_eq!(next_startup_step(StartupStep::AcquireSingleInstance, false), StartupStep::Exit);
    assert_eq!(next_startup_step(StartupStep::AcquireSingleInstance, true), StartupStep::LoadSettings);
}
