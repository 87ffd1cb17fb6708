//! Tests of path normalization, the safety checks, the portable lock
//! subsystem, and the handle-scan decision rules.

use rmx::paths::{normalize_path, str_eq};
use rmx::platform::{
    find_locking_processes, find_locking_processes_batch, force_close_file_handles, killable_pids,
    kill_locking_processes, kill_locking_processes_batch, kill_process, next_handle_buffer_size,
    path_matches_targets, should_inspect_handle, should_kill_pid, HandleEntry, LockingProcess,
    HANDLE_QUERY_ATTEMPTS, INITIAL_HANDLE_BUFFER,
};
use rmx::safety::{check_path_safety, get_danger_reason, is_system_directory, SafetyCheck};
use rmx::stats::DeletionStats;
use rmx::tree::{unlock_targets, FileEntry, Scanner};

#[test]
fn normalize_backslashes_and_prefix() {
    // Forward slashes become backslashes; a drive-absolute path
    // gains the long-path prefix.
    assert_eq!(normalize_path("C:/Users/x/node_modules"), "\\\\?\\C:\\Users\\x\\node_modules");
    // Already prefixed: unchanged.
    assert_eq!(normalize_path("\\\\?\\C:\\x"), "\\\\?\\C:\\x");
    // Relative paths only get their slashes rewritten.
    assert_eq!(normalize_path("a/b/c"), "a\\b\\c");
    // A unix-style absolute path is not drive-absolute.
    assert_eq!(normalize_path("/tmp/x"), "\\tmp\\x");
}

#[test]
fn normalize_is_idempotent_round_trip() {
    let once = normalize_path("C:/deep/tree");
    let twice = normalize_path(&once);
    assert_eq!(once, twice);
    // The forward-slash spelling and the backslashed, prefixed
    // spelling normalize to the same string.
    let other = normalize_path("\\\\?\\C:\\deep\\tree");
    assert_eq!(once, other);
}

#[test]
fn normalize_long_paths() {
    // A path well beyond the legacy 260-character limit still gets
    // the prefix and keeps every character.
    let mut p = String::from("C:/base");
    for i in 0..40 {
        p.push_str(&format!("/component-{:04}", i));
    }
    assert!(p.len() > 260);
    let n = normalize_path(&p);
    assert!(n.starts_with("\\\\?\\C:\\base"));
    assert_eq!(n.len(), p.len() + 4);
    assert!(!n.contains('/'));
}

#[test]
fn normalize_unicode() {
    let n = normalize_path("C:/数据/📁/files");
    assert_eq!(n, "\\\\?\\C:\\数据\\📁\\files");
    assert!(str_eq(&n, "\\\\?\\C:\\数据\\📁\\files"));
    assert!(!str_eq(&n, "C:/数据/📁/files"));
}

#[test]
fn system_directories_refused() {
    assert!(is_system_directory("/", None, false));
    assert!(is_system_directory("/usr", None, false));
    assert!(!is_system_directory("/home/user/project", None, false));
    // The canonical spelling counts too.
    let canon = "/etc".to_string();
    assert!(is_system_directory("/some/link", Some(&canon), false));
    // So does the home directory, resolved by the caller.
    assert!(is_system_directory("/home/user", None, true));

    match check_path_safety("/var", None, false, false) {
        SafetyCheck::Dangerous {
            reason,
            can_override,
        } => {
            assert!(!can_override);
            assert_eq!(
                reason,
                "'/var' is a system directory - deleting it could break your system"
            );
        }
        SafetyCheck::Safe => panic!("a system root must be dangerous"),
    }
}

#[test]
fn cwd_danger_can_be_overridden() {
    match check_path_safety("/home/u/project", None, false, true) {
        SafetyCheck::Dangerous {
            reason,
            can_override,
        } => {
            assert!(can_override);
            assert_eq!(
                reason,
                "'/home/u/project' contains or is your current working directory"
            );
        }
        SafetyCheck::Safe => panic!("the working directory must warn"),
    }
    assert!(matches!(
        check_path_safety("/home/u/other", None, false, false),
        SafetyCheck::Safe
    ));
    assert!(get_danger_reason("/home/u/other", None, false, false).is_none());
}

#[test]
fn portable_lock_subsystem_reports_nothing() {
    assert!(find_locking_processes("/x").unwrap().is_empty());
    assert!(find_locking_processes_batch(&vec!["/x".to_string()])
        .unwrap()
        .is_empty());
    assert!(kill_locking_processes("/x", false).unwrap().is_empty());
    assert!(kill_locking_processes_batch(&vec!["/x".to_string()], true)
        .unwrap()
        .is_empty());
    assert_eq!(force_close_file_handles(&vec!["/x".to_string()], false).unwrap(), 0);
    let e = kill_process(1234).unwrap_err();
    assert_eq!(e.code, None);
    assert_eq!(e.message, "Not supported on this platform");
}

#[test]
fn kernel_pids_never_killed() {
    assert!(!should_kill_pid(0));
    assert!(!should_kill_pid(4));
    assert!(should_kill_pid(1));
    assert!(should_kill_pid(4321));

    let procs = vec![
        LockingProcess {
            pid: 0,
            name: "idle".to_string(),
            exe_path: None,
        },
        LockingProcess {
            pid: 4,
            name: "system".to_string(),
            exe_path: None,
        },
        LockingProcess {
            pid: 512,
            name: "editor".to_string(),
            exe_path: Some("/bin/editor".to_string()),
        },
        LockingProcess {
            pid: 640,
            name: "viewer".to_string(),
            exe_path: None,
        },
    ];
    assert_eq!(killable_pids(&procs), vec![512, 640]);
}

#[test]
fn handle_scan_skips_self_and_kernel() {
    let entry = |pid: u32, idx: u8, access: u32| HandleEntry {
        pid,
        object_type_index: idx,
        handle_value: 0x40,
        granted_access: access,
    };
    let current = 777;
    // The engine's own process is always skipped, so a self-held
    // handle is never force-closed.
    assert!(!should_inspect_handle(&entry(777, 37, 1), current, Some(37)));
    assert!(!should_inspect_handle(&entry(0, 37, 1), current, Some(37)));
    assert!(!should_inspect_handle(&entry(4, 37, 1), current, Some(37)));
    assert!(!should_inspect_handle(&entry(900, 37, 0), current, Some(37)));
    // Only handles of the detected File class are inspected.
    assert!(!should_inspect_handle(&entry(900, 12, 1), current, Some(37)));
    assert!(should_inspect_handle(&entry(900, 37, 1), current, Some(37)));
    // With no detected class, every class passes.
    assert!(should_inspect_handle(&entry(900, 12, 1), current, None));
}

#[test]
fn object_type_detection() {
    let entry = |pid: u32, idx: u8, value: u16| HandleEntry {
        pid,
        object_type_index: idx,
        handle_value: value,
        granted_access: 1,
    };
    let table = vec![
        entry(100, 12, 0x10),
        entry(777, 14, 0x20),
        entry(777, 37, 0x30),
        entry(900, 37, 0x30),
    ];
    // The probe handle belongs to our own process: its class wins.
    assert_eq!(rmx::platform::find_object_type_index(&table, 777, 0x30), Some(37));
    // Another process's identical handle value does not count.
    assert_eq!(rmx::platform::find_object_type_index(&table, 555, 0x30), None);
    assert_eq!(rmx::platform::find_object_type_index(&table, 777, 0x99), None);
}

#[test]
fn handle_path_matching() {
    let targets = vec!["c:\\a\\b.txt".to_string(), "c:\\a\\c.txt".to_string()];
    assert!(path_matches_targets(&"c:\\a\\b.txt".to_string(), &targets));
    assert!(!path_matches_targets(&"c:\\a\\d.txt".to_string(), &targets));
    assert!(!path_matches_targets(&"C:\\A\\B.TXT".to_string(), &targets));

    assert_eq!(HANDLE_QUERY_ATTEMPTS, 10);
    assert_eq!(INITIAL_HANDLE_BUFFER, 4 * 1024 * 1024);
    assert_eq!(next_handle_buffer_size(1000), 1500);
    assert_eq!(next_handle_buffer_size(0), 0);
}

#[test]
fn unlock_targets_cover_everything() {
    let mut sc = Scanner::new("top".to_string());
    while let Some((id, path)) = sc.next_pending() {
        let entries = if path == "top" {
            vec![
                FileEntry {
                    path: "top/a.txt".to_string(),
                    is_dir: false,
                    is_symlink: false,
                    size: 1,
                },
                FileEntry {
                    path: "top/sub".to_string(),
                    is_dir: true,
                    is_symlink: false,
                    size: 0,
                },
            ]
        } else {
            vec![FileEntry {
                path: "top/sub/b.txt".to_string(),
                is_dir: false,
                is_symlink: false,
                size: 2,
            }]
        };
        sc.record_enumeration(id, entries);
    }
    let tree = sc.finish();
    let targets = unlock_targets(&tree, "top");
    assert_eq!(
        targets,
        vec![
            "top/a.txt".to_string(),
            "top/sub/b.txt".to_string(),
            "top".to_string(),
            "top/sub".to_string(),
            "top".to_string(),
        ]
    );
}

#[test]
fn scanner_ignores_stray_records() {
    let mut sc = Scanner::new("root".to_string());
    // Recording against a directory that was never handed out is a
    // no-op: id 0 is still queued, not active.
    sc.record_enumeration(
        0,
        vec![FileEntry {
            path: "root/ghost".to_string(),
            is_dir: true,
            is_symlink: false,
            size: 0,
        }],
    );
    sc.record_error(0);
    let (id, path) = sc.next_pending().unwrap();
    assert_eq!(id, 0);
    assert_eq!(path, "root");
    sc.record_enumeration(id, Vec::new());
    // A second record for the same directory is a no-op too.
    sc.record_enumeration(
        id,
        vec![FileEntry {
            path: "root/late".to_string(),
            is_dir: false,
            is_symlink: false,
            size: 9,
        }],
    );
    let tree = sc.finish();
    assert_eq!(tree.dirs, vec!["root".to_string()]);
    assert_eq!(tree.file_count, 0);
}

#[test]
fn stats_accumulate() {
    let mut total = DeletionStats::default();
    assert_eq!(total.total_items(), 0);
    let one = DeletionStats {
        dirs_deleted: 3,
        files_deleted: 40,
        total_bytes: 1000,
        total_millis: 15,
    };
    total.merge(&one);
    total.merge(&one);
    assert_eq!(total.dirs_deleted, 6);
    assert_eq!(total.files_deleted, 80);
    assert_eq!(total.total_bytes, 2000);
    assert_eq!(total.total_millis, 30);
    assert_eq!(total.total_items(), 86);
}

#[test]
fn enumeration_error_classification() {
    let gone = rmx::error::OsError {
        code: Some(2),
        not_found_kind: true,
        message: "gone".to_string(),
    };
    assert!(matches!(
        rmx::tree::enumeration_error_action(&gone),
        rmx::tree::EnumerationAction::TreatEmpty
    ));
    let raced = rmx::error::OsError {
        code: Some(3),
        not_found_kind: false,
        message: "path vanished".to_string(),
    };
    assert!(matches!(
        rmx::tree::enumeration_error_action(&raced),
        rmx::tree::EnumerationAction::TreatEmpty
    ));
    // Access denied propagates: skipping it could lose files.
    let denied = rmx::error::OsError {
        code: Some(5),
        not_found_kind: false,
        message: "denied".to_string(),
    };
    assert!(matches!(
        rmx::tree::enumeration_error_action(&denied),
        rmx::tree::EnumerationAction::Propagate
    ));
    // An invalid name is not a missing directory: it propagates,
    // though deletion treats it as "not found" for idempotence.
    let bad_name = rmx::error::OsError {
        code: Some(123),
        not_found_kind: false,
        message: "invalid name".to_string(),
    };
    assert!(matches!(
        rmx::tree::enumeration_error_action(&bad_name),
        rmx::tree::EnumerationAction::Propagate
    ));
    let bad_path = rmx::error::OsError {
        code: Some(161),
        not_found_kind: false,
        message: "bad pathname".to_string(),
    };
    assert!(matches!(
        rmx::tree::enumeration_error_action(&bad_path),
        rmx::tree::EnumerationAction::Propagate
    ));
}

#[test]
fn scanner_error_skips_subtree() {
    let mut sc = Scanner::new("root".to_string());
    let (id, path) = sc.next_pending().unwrap();
    assert_eq!(path, "root");
    sc.record_enumeration(
        id,
        vec![FileEntry {
            path: "root/broken".to_string(),
            is_dir: true,
            is_symlink: false,
            size: 0,
        }],
    );
    let (id2, path2) = sc.next_pending().unwrap();
    assert_eq!(path2, "root/broken");
    // Enumeration failed: the directory stays in the tree as a leaf.
    sc.record_error(id2);
    assert!(sc.next_pending().is_none());
    let tree = sc.finish();
    assert_eq!(tree.dirs.len(), 2);
    assert_eq!(tree.file_count, 0);
    assert!(tree.leaves.contains(&1));
}
