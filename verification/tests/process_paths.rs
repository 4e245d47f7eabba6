use winderust::foreground::process_list::{
    capture_process_action_target, contains_process_name, executable_path_key, process_action_target_precheck,
    process_matches_executable_path, CanonicalPaths, OpenedProcess, ProcessActionTargetError, ProcessInfo,
    ProtectedProcesses,
};

fn unnamed_path(id: u32, name: &str) -> ProcessInfo {
    ProcessInfo {
        id,
        parent_id: None,
        session_id: None,
        user_name: None,
        is_service_account: None,
        is_critical: Some(false),
        can_set_information: true,
        name: name.to_owned(),
        image_path: None,
        creation_time: None,
    }
}

#[test]
fn capture_falls_back_to_the_reported_path() {
    let processes = vec![unnamed_path(42, "app.exe"), unnamed_path(77, "other.exe")];
    let reported = vec![Some(r"C:\Apps\app.exe".to_owned()), Some(r"C:\Apps\other.exe".to_owned())];
    let none = CanonicalPaths::new();
    let protected = ProtectedProcesses::capture(&processes, true, Some(42), &Vec::new(), &reported);
    assert!(protected.contains(5, r"c:\apps\APP.exe", &none));
    assert!(!protected.contains(5, r"C:\Apps\other.exe", &none));
    let without = ProtectedProcesses::capture(&processes, true, Some(42), &Vec::new(), &Vec::new());
    assert!(!without.contains(5, r"C:\Apps\app.exe", &none));
}

#[test]
fn path_matching_falls_back_to_the_reported_path() {
    let process = unnamed_path(42, "app.exe");
    let none = CanonicalPaths::new();
    assert!(process_matches_executable_path(&process, r"C:\Apps\app.exe", &none, Some(r"C:\Apps\app.exe")));
    assert!(!process_matches_executable_path(&process, r"C:\Apps\app.exe", &none, None));
    assert!(!process_matches_executable_path(&process, r"C:\Apps\app.exe", &none, Some(r"D:\app.exe")));
}

#[test]
fn path_keys_are_idempotent_and_separator_blind() {
    let key = executable_path_key("  C:/Apps/Tool/App.exe \t");
    assert_eq!(key, r"C:\Apps\Tool\App.exe");
    assert_eq!(executable_path_key(&key), key);
    assert_eq!(executable_path_key(r"C:\Apps\Tool\App.exe"), executable_path_key("C:/Apps/Tool/App.exe"));
    assert!(!key.contains('/'));
}

#[test]
fn process_name_lists_grow_monotonically() {
    let a = ["game.exe"];
    let ab = ["game.exe", "tool.exe"];
    let empty: [&str; 0] = [];
    assert!(!contains_process_name(&empty, "game.exe"));
    assert!(contains_process_name(&a, "GAME.EXE"));
    assert!(contains_process_name(&ab, "GAME.EXE"));
    assert!(!contains_process_name(&a, "tool.exe"));
    assert!(!contains_process_name(&ab, "tool"));
    assert!(contains_process_name(&ab, " Tool.EXE "));
}

fn opened(path: Option<&str>, critical: Option<bool>, creation_time: Option<u64>) -> OpenedProcess {
    OpenedProcess {
        is_critical: critical,
        executable_path: path.map(|p| p.to_owned()),
        creation_time,
        is_service_account: Some(false),
    }
}

#[test]
fn action_target_precheck_protects_and_confines_to_the_session() {
    assert_eq!(
        process_action_target_precheck(0, 10, true, Some(1), Some(1), true),
        Err(ProcessActionTargetError::ProtectedProcess)
    );
    assert_eq!(
        process_action_target_precheck(10, 10, true, Some(1), Some(1), true),
        Err(ProcessActionTargetError::ProtectedProcess)
    );
    assert_eq!(
        process_action_target_precheck(42, 10, false, Some(1), None, true),
        Err(ProcessActionTargetError::CurrentSessionUnavailable)
    );
    assert_eq!(
        process_action_target_precheck(42, 10, false, Some(2), Some(1), true),
        Err(ProcessActionTargetError::DifferentSession)
    );
    assert_eq!(
        process_action_target_precheck(42, 10, false, None, Some(1), true),
        Err(ProcessActionTargetError::DifferentSession)
    );
    assert_eq!(process_action_target_precheck(42, 10, true, Some(2), None, true), Ok(()));
    assert_eq!(
        process_action_target_precheck(42, 10, false, Some(1), Some(1), false),
        Err(ProcessActionTargetError::IdentityUnavailable)
    );
    assert_eq!(process_action_target_precheck(42, 10, false, Some(1), Some(1), true), Ok(()));
}

#[test]
fn action_target_is_pinned_to_the_running_instance() {
    let none = CanonicalPaths::new();
    let target = capture_process_action_target(
        42,
        r"c:\apps\tool.exe",
        Some(1),
        Ok(opened(Some(r"C:\Apps\Tool.EXE"), Some(false), Some(99))),
        &none,
    )
    .unwrap();
    assert_eq!(target.id, 42);
    assert_eq!(target.name, "tool.exe");
    assert_eq!(target.executable_path, r"C:\Apps\Tool.EXE");
    assert_eq!(target.creation_time, 99);
    assert_eq!(target.session_id, Some(1));
    assert_eq!(target.is_service_account, Some(false));
}

#[test]
fn action_target_capture_reports_each_failure() {
    let none = CanonicalPaths::new();
    let path = r"C:\Apps\tool.exe";
    assert_eq!(
        capture_process_action_target(42, path, None, Err(5), &none),
        Err(ProcessActionTargetError::ProcessUnavailable(5))
    );
    assert_eq!(
        capture_process_action_target(42, path, None, Ok(opened(Some(path), None, Some(1))), &none),
        Err(ProcessActionTargetError::ProtectedProcess)
    );
    assert_eq!(
        capture_process_action_target(42, path, None, Ok(opened(Some(path), Some(true), Some(1))), &none),
        Err(ProcessActionTargetError::ProtectedProcess)
    );
    assert_eq!(
        capture_process_action_target(42, path, None, Ok(opened(None, Some(false), Some(1))), &none),
        Err(ProcessActionTargetError::IdentityUnavailable)
    );
    assert_eq!(
        capture_process_action_target(42, path, None, Ok(opened(Some(r"C:\Other\tool.exe"), Some(false), Some(1))), &none),
        Err(ProcessActionTargetError::ProcessChanged)
    );
    assert_eq!(
        capture_process_action_target(42, path, None, Ok(opened(Some(path), Some(false), None)), &none),
        Err(ProcessActionTargetError::IdentityUnavailable)
    );
}
