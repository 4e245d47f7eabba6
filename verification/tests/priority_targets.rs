use std::collections::BTreeMap;

use winderust::config::{
    GpuPrioritySettings, IoPrioritySettings, MemoryPrioritySettings, ProcessGpuPriority, ProcessGpuPrioritySetting,
    ProcessIoPriority, ProcessMemoryPriority,
};
use winderust::foreground::process_list::ProcessInfo;
use winderust::gpu_priority::{gpu_priority_targets, ids_not_in};
use winderust::io_priority::{io_priority_hold, io_priority_hold_texts, io_priority_targets, IoPriorityHold};
use winderust::memory_priority::{
    memory_priority_hold, memory_priority_targets, target_names_by_id, MemoryPriorityHold,
};

fn process(id: u32, name: &str, session_id: Option<u32>) -> ProcessInfo {
    ProcessInfo {
        id,
        parent_id: None,
        session_id,
        user_name: None,
        is_service_account: Some(false),
        is_critical: Some(false),
        can_set_information: true,
        name: name.to_owned(),
        image_path: None,
        creation_time: Some(u64::from(id)),
    }
}

fn listed() -> Vec<ProcessInfo> {
    vec![
        process(0, "System Idle Process", Some(1)),
        process(10, "app.exe", Some(1)),
        process(11, "game.exe", Some(1)),
        process(12, "other-session.exe", Some(2)),
        process(13, "dwm.exe", Some(1)),
        process(99, "winderust.exe", Some(1)),
        process(14, "unknown-session.exe", None),
        process(15, "GAME.EXE", Some(1)),
    ]
}

fn io_settings() -> IoPrioritySettings {
    IoPrioritySettings {
        enabled: true,
        foreground_detection_enabled: true,
        foreground_priority: Some(ProcessIoPriority::High),
        background_priority: Some(ProcessIoPriority::Low),
        preserve_foreground_priority: false,
        preserve_background_priority: false,
    }
}

fn memory_settings() -> MemoryPrioritySettings {
    MemoryPrioritySettings {
        enabled: true,
        foreground_detection_enabled: true,
        foreground_priority: Some(ProcessMemoryPriority::Normal),
        background_priority: Some(ProcessMemoryPriority::BelowNormal),
        preserve_foreground_priority: true,
        preserve_background_priority: false,
    }
}

#[test]
fn io_holds_come_in_order() {
    let s = io_settings();
    assert_eq!(io_priority_hold(false, &s, Some(1), Some(1)), Some(IoPriorityHold::AutomationDisabled));
    let off = IoPrioritySettings { enabled: false, ..io_settings() };
    assert_eq!(io_priority_hold(true, &off, None, None), Some(IoPriorityHold::FeatureDisabled));
    assert_eq!(io_priority_hold(true, &s, None, Some(1)), Some(IoPriorityHold::ForegroundUnknown));
    assert_eq!(io_priority_hold(true, &s, Some(1), None), Some(IoPriorityHold::SessionUnknown));
    assert_eq!(io_priority_hold(true, &s, Some(1), Some(1)), None);
    let same = IoPrioritySettings { foreground_priority: Some(ProcessIoPriority::Low), ..io_settings() };
    assert_eq!(io_priority_hold(true, &same, None, Some(1)), None);
}

#[test]
fn io_hold_texts_and_kinds() {
    assert_eq!(
        io_priority_hold_texts(IoPriorityHold::FeatureDisabled),
        ("I/O priority defaults disabled", "I/O priority defaults disabled.")
    );
    assert_eq!(
        io_priority_hold_texts(IoPriorityHold::ForegroundUnknown),
        ("foreground app is unknown", "Paused: foreground app is unknown.")
    );
    assert!(IoPriorityHold::AutomationDisabled.turns_off());
    assert!(IoPriorityHold::FeatureDisabled.turns_off());
    assert!(!IoPriorityHold::SessionUnknown.turns_off());
}

#[test]
fn io_targets_skip_system_own_and_foreign_processes() {
    let targets = io_priority_targets(&listed(), 99, 1, Some(11), Some("game.exe"), &io_settings());
    let ids: Vec<u32> = targets.keys().copied().collect();
    assert_eq!(ids, vec![10, 11, 15]);
    assert_eq!(targets[&10], ("app.exe".to_owned(), ProcessIoPriority::Low, false));
    assert_eq!(targets[&11], ("game.exe".to_owned(), ProcessIoPriority::High, true));
    assert_eq!(targets[&15], ("GAME.EXE".to_owned(), ProcessIoPriority::High, true));
}

#[test]
fn io_targets_leave_processes_without_a_priority_alone() {
    let s = IoPrioritySettings { background_priority: None, ..io_settings() };
    let targets = io_priority_targets(&listed(), 99, 1, Some(11), None, &s);
    let ids: Vec<u32> = targets.keys().copied().collect();
    assert_eq!(ids, vec![11]);
    let blind = IoPrioritySettings { foreground_detection_enabled: false, ..io_settings() };
    let targets = io_priority_targets(&listed(), 99, 1, Some(11), Some("game.exe"), &blind);
    assert!(targets.values().all(|(_, priority, foreground)| *priority == ProcessIoPriority::Low && !foreground));
}

#[test]
fn memory_holds_and_reasons() {
    let s = memory_settings();
    assert_eq!(memory_priority_hold(false, &s, None, None), Some(MemoryPriorityHold::AutomationDisabled));
    let off = MemoryPrioritySettings { enabled: false, ..memory_settings() };
    assert_eq!(memory_priority_hold(true, &off, None, None), Some(MemoryPriorityHold::FeatureDisabled));
    assert_eq!(memory_priority_hold(true, &s, None, Some(1)), Some(MemoryPriorityHold::ForegroundUnknown));
    assert_eq!(memory_priority_hold(true, &s, Some(3), None), Some(MemoryPriorityHold::SessionUnknown));
    assert_eq!(memory_priority_hold(true, &s, Some(3), Some(1)), None);
    assert_eq!(MemoryPriorityHold::FeatureDisabled.reason(), "memory priority defaults disabled");
    assert_eq!(MemoryPriorityHold::SessionUnknown.reason(), "current Windows session is unknown");
    assert!(!MemoryPriorityHold::ForegroundUnknown.turns_off());
}

#[test]
fn memory_targets_keep_list_order_and_preserve_flags() {
    let targets = memory_priority_targets(&listed(), 99, 1, Some(11), Some("game.exe"), &memory_settings());
    let summary: Vec<(u32, &str, ProcessMemoryPriority, bool)> = targets
        .iter()
        .map(|t| (t.process_id, t.process_name.as_str(), t.priority, t.foreground))
        .collect();
    assert_eq!(
        summary,
        vec![
            (10, "app.exe", ProcessMemoryPriority::BelowNormal, false),
            (11, "game.exe", ProcessMemoryPriority::Normal, true),
            (15, "GAME.EXE", ProcessMemoryPriority::Normal, true),
        ]
    );
    assert!(targets.iter().all(|t| t.preserve_foreground_priority && !t.preserve_background_priority));
}

#[test]
fn target_names_by_id_keeps_the_last_name() {
    let mut targets = memory_priority_targets(&listed(), 99, 1, Some(11), None, &memory_settings());
    let mut renamed = targets[0].clone();
    renamed.process_name = "renamed.exe".to_owned();
    targets.push(renamed);
    let names = target_names_by_id(&targets);
    assert_eq!(names.len(), 3);
    assert_eq!(names[&10], "renamed.exe");
    assert_eq!(names[&11], "game.exe");
}

#[test]
fn gpu_targets_use_the_defaults() {
    let s = GpuPrioritySettings {
        enabled: true,
        foreground_detection_enabled: true,
        foreground_priority: ProcessGpuPrioritySetting::High,
        background_priority: ProcessGpuPrioritySetting::BelowNormal,
        preserve_foreground_priority: false,
        preserve_background_priority: false,
    };
    let targets = gpu_priority_targets(&listed(), 99, 1, Some(10), Some("app.exe"), &s);
    let ids: Vec<u32> = targets.keys().copied().collect();
    assert_eq!(ids, vec![10, 11, 15]);
    assert_eq!(targets[&10], ("app.exe".to_owned(), ProcessGpuPriority::High, true));
    assert_eq!(targets[&11].1, ProcessGpuPriority::BelowNormal);
}

#[test]
fn ids_not_in_lists_what_is_no_longer_a_target() {
    let mut adjusted: BTreeMap<u32, &str> = BTreeMap::new();
    adjusted.insert(5, "a");
    adjusted.insert(7, "b");
    adjusted.insert(9, "c");
    let mut keep: BTreeMap<u32, u8> = BTreeMap::new();
    keep.insert(7, 0);
    keep.insert(8, 0);
    assert_eq!(ids_not_in(&adjusted, &keep), vec![5, 9]);
    assert_eq!(ids_not_in(&adjusted, &BTreeMap::<u32, u8>::new()), vec![5, 7, 9]);
    assert!(ids_not_in(&BTreeMap::<u32, u8>::new(), &keep).is_empty());
}
