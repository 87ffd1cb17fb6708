//! Unit tests of the worker policies: error classification, the
//! retry and cleanup schedules, the escalation ladder, and batch
//! outcome partitioning.

use rmx::error::{
    is_dir_not_empty_error, is_file_in_use_error, is_not_found_error, is_retryable_error, Error,
    FailedItem, OsError,
};
use rmx::worker::{
    classify_file_error, cleanup_continue, cleanup_delay_ms, dir_removal_action, is_retryable,
    min_chunk_size, parallel_threshold, partition_file_outcomes, retry_delay_ms, DirRemovalAction,
    ErrorTracker, EscalationStage, FileAction, WorkerConfig, DIR_NOT_EMPTY_CLEANUP_ROUNDS,
    MAX_RETRIES,
};

fn err(code: Option<i32>, not_found_kind: bool, msg: &str) -> OsError {
    OsError {
        code,
        not_found_kind,
        message: msg.to_string(),
    }
}

#[test]
fn error_code_classification() {
    for c in [5, 32, 33] {
        assert!(is_file_in_use_error(&err(Some(c), false, "in use")));
    }
    assert!(!is_file_in_use_error(&err(Some(2), false, "gone")));
    assert!(!is_file_in_use_error(&err(None, false, "other")));

    assert!(is_dir_not_empty_error(&err(Some(145), false, "not empty")));
    assert!(!is_dir_not_empty_error(&err(Some(5), false, "denied")));

    for c in [2, 3, 123, 161] {
        assert!(is_not_found_error(&err(Some(c), false, "gone")));
    }
    assert!(is_not_found_error(&err(None, true, "gone")));
    assert!(!is_not_found_error(&err(Some(5), false, "denied")));

    for c in [32, 33, 5, 145] {
        assert!(is_retryable_error(c));
    }
    assert!(!is_retryable_error(2));
    assert!(!is_retryable_error(0));
}

#[test]
fn retry_schedule() {
    assert_eq!(MAX_RETRIES, 4);
    let delays: Vec<u64> = (0..4).map(retry_delay_ms).collect();
    assert_eq!(delays, vec![0, 1, 5, 10]);

    assert_eq!(DIR_NOT_EMPTY_CLEANUP_ROUNDS, 5);
    let cleanup: Vec<u64> = (0..5).map(cleanup_delay_ms).collect();
    assert_eq!(cleanup, vec![1, 10, 50, 100, 200]);

    assert!(is_retryable(&err(Some(32), false, "sharing")));
    assert!(!is_retryable(&err(None, false, "no code")));

    // The hardlink cleanup keeps going while the error stays
    // "not empty" or transient, and aborts on anything else.
    assert!(cleanup_continue(&err(Some(145), false, "not empty")));
    assert!(cleanup_continue(&err(Some(32), false, "sharing")));
    assert!(!cleanup_continue(&err(Some(123), false, "bad name")));
}

/// A hardlink-heavy removal that keeps returning "not empty" stays
/// inside the bounded cleanup: the policy continues for each of the
/// five rounds and the delays are the documented ladder.
#[test]
fn hardlink_cleanup_rounds() {
    let e = err(Some(145), false, "directory not empty");
    let mut delays: Vec<u64> = Vec::new();
    for round in 0..DIR_NOT_EMPTY_CLEANUP_ROUNDS {
        assert!(cleanup_continue(&e));
        delays.push(cleanup_delay_ms(round));
    }
    assert_eq!(delays, vec![1, 10, 50, 100, 200]);
}

#[test]
fn file_outcome_classification() {
    // Not found: idempotent success, at any setting.
    assert!(matches!(
        classify_file_error(&err(Some(2), false, "gone"), false),
        FileAction::Ignore
    ));
    assert!(matches!(
        classify_file_error(&err(Some(3), false, "gone"), true),
        FileAction::Ignore
    ));
    // Locked: collected only when escalation is enabled.
    assert!(matches!(
        classify_file_error(&err(Some(32), false, "locked"), true),
        FileAction::CollectLocked
    ));
    assert!(matches!(
        classify_file_error(&err(Some(32), false, "locked"), false),
        FileAction::Record
    ));
    // Anything else: recorded.
    assert!(matches!(
        classify_file_error(&err(Some(87), false, "invalid"), true),
        FileAction::Record
    ));
}

#[test]
fn escalation_ladder() {
    let locked = err(Some(32), false, "held open");
    let gone = err(Some(2), false, "gone");
    let hard = err(Some(87), false, "invalid parameter");

    // Success or not-found: removed, at every stage.
    assert!(matches!(
        dir_removal_action(None, true, EscalationStage::Initial),
        DirRemovalAction::TreatRemoved
    ));
    assert!(matches!(
        dir_removal_action(Some(&gone), false, EscalationStage::Initial),
        DirRemovalAction::TreatRemoved
    ));
    assert!(matches!(
        dir_removal_action(Some(&gone), true, EscalationStage::AfterForceClose),
        DirRemovalAction::TreatRemoved
    ));

    // Locked without escalation: recorded as a failure.
    assert!(matches!(
        dir_removal_action(Some(&locked), false, EscalationStage::Initial),
        DirRemovalAction::RecordFailure
    ));
    // Locked with escalation: kill, then force-close, then record.
    assert!(matches!(
        dir_removal_action(Some(&locked), true, EscalationStage::Initial),
        DirRemovalAction::KillProcesses
    ));
    assert!(matches!(
        dir_removal_action(Some(&locked), true, EscalationStage::AfterKill),
        DirRemovalAction::ForceCloseHandles
    ));
    assert!(matches!(
        dir_removal_action(Some(&locked), true, EscalationStage::AfterForceClose),
        DirRemovalAction::RecordFailure
    ));
    // A hard error never escalates.
    assert!(matches!(
        dir_removal_action(Some(&hard), true, EscalationStage::Initial),
        DirRemovalAction::RecordFailure
    ));
}

/// A locked file with escalation disabled is recorded as a failure;
/// with escalation enabled it enters the ladder instead.
#[test]
fn locked_file_recorded_or_escalated() {
    let paths = vec!["root/dir-5/file-10.txt".to_string()];
    let outcomes = vec![Some(err(Some(32), false, "held open read-write"))];

    let (locked, failed) = partition_file_outcomes(paths.clone(), outcomes, false);
    assert!(locked.is_empty());
    assert_eq!(failed.len(), 1);
    assert_eq!(failed[0].path, "root/dir-5/file-10.txt");
    assert_eq!(failed[0].error, "held open read-write");
    assert!(!failed[0].is_dir);

    let outcomes = vec![Some(err(Some(32), false, "held open read-write"))];
    let (locked, failed) = partition_file_outcomes(paths, outcomes, true);
    assert_eq!(locked, vec!["root/dir-5/file-10.txt".to_string()]);
    assert!(failed.is_empty());
}

#[test]
fn partition_mixed_outcomes() {
    let paths: Vec<String> = (0..5).map(|i| format!("p{}", i)).collect();
    let outcomes = vec![
        None,                                   // deleted
        Some(err(Some(2), false, "gone")),      // already gone: ignored
        Some(err(Some(33), false, "locked")),   // locked: collected
        Some(err(Some(87), false, "invalid")),  // hard: recorded
        Some(err(Some(5), false, "denied")),    // in-use: collected
    ];
    let (locked, failed) = partition_file_outcomes(paths, outcomes, true);
    assert_eq!(locked, vec!["p2".to_string(), "p4".to_string()]);
    assert_eq!(failed.len(), 1);
    assert_eq!(failed[0].path, "p3");
}

#[test]
fn thresholds_by_core_count() {
    assert_eq!(parallel_threshold(1), 24);
    assert_eq!(parallel_threshold(4), 24);
    assert_eq!(parallel_threshold(5), 16);
    assert_eq!(parallel_threshold(8), 16);
    assert_eq!(parallel_threshold(9), 12);
    assert_eq!(parallel_threshold(16), 12);
    assert_eq!(parallel_threshold(32), 8);
    assert_eq!(parallel_threshold(0), 8);

    assert_eq!(min_chunk_size(1), 4);
    assert_eq!(min_chunk_size(2), 4);
    assert_eq!(min_chunk_size(3), 6);
    assert_eq!(min_chunk_size(8), 16);
    assert_eq!(min_chunk_size(64), 16);

    assert_eq!(rmx::tree::scan_parallel_threshold(4), 3);
    assert_eq!(rmx::tree::scan_parallel_threshold(8), 2);
    assert_eq!(rmx::tree::scan_parallel_threshold(16), 2);
}

#[test]
fn tracker_drains_once() {
    let mut t = ErrorTracker::new();
    t.record_failure(FailedItem {
        path: "a".to_string(),
        error: "boom".to_string(),
        is_dir: false,
    });
    t.record_failure(FailedItem {
        path: "b".to_string(),
        error: "bang".to_string(),
        is_dir: true,
    });
    let drained = t.get_failures();
    assert_eq!(drained.len(), 2);
    assert_eq!(drained[0].path, "a");
    assert_eq!(drained[1].path, "b");
    assert!(drained[1].is_dir);
    assert!(t.get_failures().is_empty());
}

#[test]
fn worker_config_default() {
    let c = WorkerConfig::default();
    assert!(!c.verbose);
    assert!(c.ignore_errors);
    assert!(!c.kill_processes);
}

#[test]
fn error_exit_codes() {
    let io = Error::io_with_path("x".to_string(), err(Some(5), false, "denied"));
    assert_eq!(io.exit_code(), 2);
    let invalid = Error::InvalidPath {
        path: "y".to_string(),
        reason: "No such file or directory".to_string(),
    };
    assert_eq!(invalid.exit_code(), 1);
    let partial = Error::PartialFailure {
        total: 10,
        failed: 2,
        errors: Vec::new(),
    };
    assert_eq!(partial.exit_code(), 1);
    match io {
        Error::Io { path, source } => {
            assert_eq!(path.as_deref(), Some("x"));
            assert_eq!(source.code, Some(5));
        }
        _ => panic!("expected an I/O error"),
    }
}

#[test]
fn batch_count_values() {
    assert_eq!(rmx::broker::batch_count(0), 0);
    assert_eq!(rmx::broker::batch_count(1), 1);
    assert_eq!(rmx::broker::batch_count(256), 1);
    assert_eq!(rmx::broker::batch_count(257), 2);
    assert_eq!(rmx::broker::batch_count(5000), 20);
    assert_eq!(rmx::broker::batch_count(1024), 4);
    assert_eq!(rmx::broker::batch_count(1025), 5);
}
