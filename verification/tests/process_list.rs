use winderust::foreground::process_list::{
    contains_process_name, executable_path_key, is_system_process_name, process_candidates_from_processes,
    process_count_label, process_failure_key, process_matches_executable_path, same_executable_path,
    same_process_name, should_ignore_foreground_process, unique_app_names, CanonicalPath,
    CanonicalPaths, ProcessActionTargetError, ProcessInfo, ProtectedProcesses,
};

fn info(id: u32, name: &str, path: &str) -> ProcessInfo {
    ProcessInfo {
        id,
        parent_id: None,
        session_id: None,
        user_name: None,
        is_service_account: None,
        is_critical: Some(false),
        can_set_information: true,
        name: name.to_owned(),
        image_path: Some(path.to_owned()),
        creation_time: None,
    }
}

#[test]
fn process_action_target_errors_keep_typed_failures_and_win32_codes() {
    assert_eq!(
        ProcessActionTargetError::ProcessChanged.message(),
        "The selected process instance has changed."
    );
    assert_eq!(
        ProcessActionTargetError::ProcessUnavailable(5).message(),
        "The selected process is no longer available (Win32 error 5)."
    );
}

#[test]
fn protected_processes_match_foreground_and_visible_apps_by_pid_or_path() {
    let processes = vec![
        info(42, "app.exe", r"C:\Apps\Foreground\app.exe"),
        info(77, "app.exe", r"C:\Apps\Visible\app.exe"),
    ];
    let none = CanonicalPaths::new();
    let protected = ProtectedProcesses::capture(&processes, true, Some(42), &vec![77], &Vec::new());

    assert!(protected.contains(42, r"C:\Apps\helper.exe", &none));
    assert!(protected.contains(77, r"C:\Apps\helper.exe", &none));
    assert!(protected.contains(99, r"c:\apps\visible\APP.EXE", &none));
    assert!(!protected.contains(99, r"D:\Other\app.exe", &none));

    let unprotected = ProtectedProcesses::capture(&processes, false, Some(42), &Vec::new(), &Vec::new());
    assert!(!unprotected.contains(42, r"C:\Apps\Foreground\app.exe", &none));
}

#[test]
fn process_candidates_exclude_critical_and_unverifiable_processes() {
    let process = ProcessInfo {
        id: 42,
        parent_id: None,
        session_id: Some(1),
        user_name: Some("User".to_owned()),
        is_service_account: Some(false),
        is_critical: Some(false),
        can_set_information: true,
        name: "editor.exe".to_owned(),
        image_path: Some(r"C:\Apps\editor.exe".to_owned()),
        creation_time: None,
    };
    let mut critical = process.clone();
    critical.id = 43;
    critical.name = "critical.exe".to_owned();
    critical.image_path = Some(r"C:\Windows\critical.exe".to_owned());
    critical.is_critical = Some(true);
    let mut unverifiable = process.clone();
    unverifiable.id = 44;
    unverifiable.name = "unknown.exe".to_owned();
    unverifiable.image_path = Some(r"C:\Apps\unknown.exe".to_owned());
    unverifiable.is_critical = None;
    let mut inaccessible = process.clone();
    inaccessible.id = 45;
    inaccessible.name = "protected-service.exe".to_owned();
    inaccessible.image_path = Some(r"C:\Apps\protected-service.exe".to_owned());
    inaccessible.can_set_information = false;
    let mut session_zero = process.clone();
    session_zero.id = 46;
    session_zero.session_id = Some(0);
    let mut service_account = process.clone();
    service_account.id = 47;
    service_account.is_service_account = Some(true);

    let candidates = process_candidates_from_processes(&vec![
        session_zero.clone(),
        process,
        critical,
        unverifiable,
        inaccessible,
    ]);
    assert_eq!(candidates.len(), 1);
    assert_eq!(candidates[0].name, "editor.exe");
    assert!(candidates[0].has_suspendable_instance);

    let candidates = process_candidates_from_processes(&vec![session_zero]);
    assert_eq!(candidates.len(), 1);
    assert!(!candidates[0].has_suspendable_instance);

    let candidates = process_candidates_from_processes(&vec![service_account]);
    assert_eq!(candidates.len(), 1);
    assert!(!candidates[0].has_suspendable_instance);
}

#[test]
fn candidates_are_keyed_by_path_in_key_order() {
    let candidates = process_candidates_from_processes(&vec![
        info(1, "b.exe", r"C:\b.exe"),
        info(2, "a.exe", r"C:\a.exe"),
        info(3, "b2.exe", "C:/b.exe"),
    ]);
    assert_eq!(candidates.len(), 2);
    assert_eq!(candidates[0].image_path, r"C:\a.exe");
    assert_eq!(candidates[1].name, "b.exe");
}

#[test]
fn executable_path_matching_distinguishes_same_named_binaries() {
    let process = info(42, "game.exe", r"C:\Games\game.exe");
    let none = CanonicalPaths::new();

    assert!(process_matches_executable_path(&process, "C:/Games/game.exe", &none, None));
    assert!(process_matches_executable_path(&process, "c:/games/GAME.exe", &none, None));
    assert!(!process_matches_executable_path(&process, r"C:\Other\game.exe", &none, None));
    assert!(!process_matches_executable_path(&process, "game.exe", &none, None));
}

#[test]
fn case_variants_use_their_canonical_paths_when_resolved() {
    let canonical = CanonicalPaths {
        entries: vec![
            CanonicalPath { path: r"C:\Games\game.exe".to_owned(), canonical: Some(r"C:\Games\game.exe".to_owned()) },
            CanonicalPath { path: r"c:\games\GAME.exe".to_owned(), canonical: Some(r"C:\Games\Other.exe".to_owned()) },
        ],
    };
    assert!(!same_executable_path(r"C:\Games\game.exe", r"c:\games\GAME.exe", &canonical));
    assert!(same_executable_path(r"C:\Games\game.exe", "C:/Games/game.exe ", &canonical));
}

#[test]
fn process_failure_keys_preserve_exact_path_identity() {
    assert_eq!(process_failure_key(r"C:/Games/app.exe"), process_failure_key(r"C:\Games\app.exe"));
    assert_ne!(process_failure_key(r"C:\Games\APP.exe"), process_failure_key(r"C:\Games\app.exe"));
    assert_ne!(process_failure_key(r"C:\Games\app.exe"), process_failure_key(r"C:\Tools\app.exe"));
}

#[test]
fn foreground_skip_matches_pid_or_exact_path() {
    let foreground = r"C:\Apps\Foreground\app.exe";
    let none = CanonicalPaths::new();

    assert!(should_ignore_foreground_process(true, 42, r"C:\Apps\helper.exe", Some(42), Some(foreground), &none));
    assert!(should_ignore_foreground_process(
        true,
        99,
        r"c:\apps\foreground\APP.EXE",
        Some(42),
        Some(foreground),
        &none
    ));
    assert!(!should_ignore_foreground_process(true, 99, r"D:\Other\app.exe", Some(42), Some(foreground), &none));
}

#[test]
fn names_paths_and_counts() {
    assert!(same_process_name(" Explorer.EXE ", "explorer.exe"));
    assert!(contains_process_name(&["csrss.exe", "dwm.exe"], "DWM.exe"));
    assert_eq!(executable_path_key(" C:/A/b.exe "), r"C:\A\b.exe");
    assert_eq!(process_count_label(1), "1 process");
    assert_eq!(process_count_label(0), "0 processes");
    assert_eq!(
        unique_app_names(&vec![" B.exe", "a.exe", "b.EXE", "  "]),
        vec!["a.exe".to_owned(), "b.exe".to_owned()]
    );
}

#[test]
fn process_tree_postorder_covers_multiple_roots_once_and_children_first() {
    let process = |id: u32, parent_id: Option<u32>| ProcessInfo {
        id,
        parent_id,
        session_id: None,
        user_name: None,
        is_service_account: None,
        is_critical: Some(false),
        can_set_information: true,
        name: format!("process-{id}.exe"),
        image_path: Some(format!(r"C:\Apps\process-{id}.exe")),
        creation_time: None,
    };
    let processes = vec![process(10, None), process(11, Some(10)), process(20, None), process(21, Some(20))];

    assert_eq!(
        winderust::foreground::process_tree::process_tree_ids_postorder(&vec![10, 11, 20], &processes),
        vec![11, 10, 21, 20]
    );
}

#[test]
fn the_system_pseudo_process_is_recognized_by_name() {
    assert!(is_system_process_name("[System Process]"));
    assert!(is_system_process_name("  [system process] "));
    assert!(!is_system_process_name("System"));
}
