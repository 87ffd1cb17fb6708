//! Decision logic of the worker protocol.
//!
//! Workers delete files and remove directories through platform
//! primitives driven by the embedding application; every decision —
//! how an outcome is classified, which files enter the lock-escalation
//! ladder, when a directory removal escalates to process termination
//! or handle closing, and the retry policy of the primitives — is a
//! verified function here, taking outcomes as plain values. The
//! outcome of one deletion attempt is `None` for success or
//! `Some(OsError)` for the error it returned.

use crate::error::{
    spec_is_dir_not_empty_error, spec_is_file_in_use_error, spec_is_not_found_error,
    spec_is_retryable_code, FailedItem, OsError,
};
use vstd::prelude::*;

verus! {

/// Worker behaviour switches, as the caller configures them.
#[derive(Debug, Clone)]
pub struct WorkerConfig {
    /// Print diagnostic output (read only by the embedding application).
    pub verbose: bool,
    /// Reserved: plumbed through but never branched on.
    pub ignore_errors: bool,
    /// Enables the escalation ladder for locked targets: process
    /// termination, then cross-process handle closing.
    pub kill_processes: bool,
}

impl Default for WorkerConfig {
    /// Quiet, error-tolerant, no escalation.
    fn default() -> (c: WorkerConfig)
        ensures
            !c.verbose,
            c.ignore_errors,
            !c.kill_processes,
    {
        WorkerConfig { verbose: false, ignore_errors: true, kill_processes: false }
    }
}

/// Collects per-path failures across a deletion; drained once at the
/// end. The embedding application serializes access across workers.
pub struct ErrorTracker {
    pub failures: Vec<FailedItem>,
}

impl ErrorTracker {
    /// An empty tracker.
    pub fn new() -> (t: ErrorTracker)
        ensures
            t.failures@.len() == 0,
    {
        ErrorTracker { failures: Vec::new() }
    }

    /// Appends one failure.
    pub fn record_failure(&mut self, item: FailedItem)
        ensures
            final(self).failures@ == old(self).failures@.push(item),
    {
        self.failures.push(item);
    }

    /// Drains and returns everything recorded so far.
    pub fn get_failures(&mut self) -> (r: Vec<FailedItem>)
        ensures
            r@ == old(self).failures@,
            final(self).failures@.len() == 0,
    {
        let mut out: Vec<FailedItem> = Vec::new();
        core::mem::swap(&mut out, &mut self.failures);
        out
    }
}

/// Batch length at which file deletion switches from a sequential
/// loop to a data-parallel map; higher on machines with few cores.
pub fn parallel_threshold(cpus: usize) -> (t: usize)
    ensures
        t == (if 1 <= cpus <= 4 {
            24int
        } else if 5 <= cpus <= 8 {
            16int
        } else if 9 <= cpus <= 16 {
            12int
        } else {
            8int
        }),
{
    if 1 <= cpus && cpus <= 4 {
        24
    } else if 5 <= cpus && cpus <= 8 {
        16
    } else if 9 <= cpus && cpus <= 16 {
        12
    } else {
        8
    }
}

/// Smallest work unit of the data-parallel map: twice the core count,
/// clamped to `4 ..= 16`.
pub fn min_chunk_size(cpus: usize) -> (m: usize)
    ensures
        m == (if cpus * 2 < 4 {
            4int
        } else if cpus * 2 > 16 {
            16int
        } else {
            (cpus * 2) as int
        }),
{
    if cpus >= 8 {
        16
    } else if cpus < 2 {
        4
    } else {
        cpus * 2
    }
}

// ---------------------------------------------------------------------
// Classification of one file-deletion outcome.
// ---------------------------------------------------------------------

/// What a worker does with one failed file deletion.
#[derive(Debug)]
pub enum FileAction {
    /// "Not found": the file is already gone — idempotent success.
    Ignore,
    /// Locked and escalation is enabled: collect for the ladder.
    CollectLocked,
    /// Anything else: record the failure.
    Record,
}

/// The classification rule for one file-deletion error.
pub open spec fn spec_classify_file_error(e: OsError, kill_processes: bool) -> FileAction {
    if spec_is_not_found_error(e) {
        FileAction::Ignore
    } else if kill_processes && spec_is_file_in_use_error(e) {
        FileAction::CollectLocked
    } else {
        FileAction::Record
    }
}

/// Classifies one failed file deletion: "not found" is ignored, a
/// lock error enters the escalation ladder when enabled, everything
/// else is recorded.
pub fn classify_file_error(error: &OsError, kill_processes: bool) -> (a: FileAction)
    ensures
        a == spec_classify_file_error(*error, kill_processes),
{
    if crate::error::is_not_found_error(error) {
        FileAction::Ignore
    } else if kill_processes && crate::error::is_file_in_use_error(error) {
        FileAction::CollectLocked
    } else {
        FileAction::Record
    }
}

/// The paths of a batch whose outcome classifies as `CollectLocked`.
pub open spec fn spec_locked_paths(
    paths: Seq<String>,
    outs: Seq<Option<OsError>>,
    kill: bool,
) -> Seq<String>
    decreases paths.len(),
{
    if paths.len() == 0 || paths.len() != outs.len() {
        Seq::empty()
    } else {
        let prev = spec_locked_paths(paths.drop_last(), outs.drop_last(), kill);
        if outs.last() matches Some(e) && spec_classify_file_error(e, kill)
            is CollectLocked {
            prev.push(paths.last())
        } else {
            prev
        }
    }
}

/// The failure records of a batch: one per outcome that classifies as
/// `Record`, carrying the path and the error message.
pub open spec fn spec_failed_files(
    paths: Seq<String>,
    outs: Seq<Option<OsError>>,
    kill: bool,
) -> Seq<FailedItem>
    decreases paths.len(),
{
    if paths.len() == 0 || paths.len() != outs.len() {
        Seq::empty()
    } else {
        let prev = spec_failed_files(paths.drop_last(), outs.drop_last(), kill);
        match outs.last() {
            Some(e) => if spec_classify_file_error(e, kill) is Record {
                prev.push(FailedItem { path: paths.last(), error: e.message, is_dir: false })
            } else {
                prev
            },
            None => prev,
        }
    }
}

/// Splits the outcomes of one deleted batch into the still-locked
/// paths (kept for the escalation ladder) and the failures to record.
/// Successes and "not found" outcomes are dropped: deletion is
/// idempotent on targets that are already gone.
pub fn partition_file_outcomes(paths: Vec<String>, outcomes: Vec<Option<OsError>>, kill: bool) -> (r: (
    Vec<String>,
    Vec<FailedItem>,
))
    requires
        paths@.len() == outcomes@.len(),
    ensures
        r.0@ == spec_locked_paths(paths@, outcomes@, kill),
        r.1@ == spec_failed_files(paths@, outcomes@, kill),
{
    let mut locked: Vec<String> = Vec::new();
    let mut failed: Vec<FailedItem> = Vec::new();
    let n = paths.len();
    let mut i: usize = 0;
    while i < n
        invariant
            n == paths@.len(),
            n == outcomes@.len(),
            i <= n,
            locked@ == spec_locked_paths(paths@.take(i as int), outcomes@.take(i as int), kill),
            failed@ == spec_failed_files(paths@.take(i as int), outcomes@.take(i as int), kill),
        decreases n - i,
    {
        proof {
            assert(paths@.take(i + 1).drop_last() =~= paths@.take(i as int));
            assert(outcomes@.take(i + 1).drop_last() =~= outcomes@.take(i as int));
        }
        match &outcomes[i] {
            None => (),
            Some(e) => {
                match classify_file_error(e, kill) {
                    FileAction::Ignore => (),
                    FileAction::CollectLocked => {
                        locked.push(paths[i].clone());
                    },
                    FileAction::Record => {
                        failed.push(
                            FailedItem {
                                path: paths[i].clone(),
                                error: e.message.clone(),
                                is_dir: false,
                            },
                        );
                    },
                }
            },
        }
        i += 1;
    }
    proof {
        assert(paths@.take(n as int) =~= paths@);
        assert(outcomes@.take(n as int) =~= outcomes@);
    }
    (locked, failed)
}

// ---------------------------------------------------------------------
// Escalation of a failed directory removal.
// ---------------------------------------------------------------------

/// How far the escalation ladder has climbed for one directory.
#[derive(Debug, Clone, Copy)]
pub enum EscalationStage {
    /// The first removal attempt just failed.
    Initial,
    /// The removal retried after terminating the locking processes.
    AfterKill,
    /// The removal retried after force-closing the remaining handles.
    AfterForceClose,
}

/// What a worker does after one directory-removal attempt.
#[derive(Debug)]
pub enum DirRemovalAction {
    /// Success, or the directory was already gone: report complete.
    TreatRemoved,
    /// Terminate the processes locking the directory, then retry.
    KillProcesses,
    /// Force-close the remaining handles on it, then retry.
    ForceCloseHandles,
    /// Record the failure, then still report complete so the
    /// scheduler makes progress.
    RecordFailure,
}

/// The escalation rule for one directory-removal outcome.
pub open spec fn spec_dir_removal_action(
    outcome: Option<OsError>,
    kill_processes: bool,
    stage: EscalationStage,
) -> DirRemovalAction {
    match outcome {
        None => DirRemovalAction::TreatRemoved,
        Some(e) => if spec_is_not_found_error(e) {
            DirRemovalAction::TreatRemoved
        } else {
            match stage {
                EscalationStage::Initial => if kill_processes && spec_is_file_in_use_error(e) {
                    DirRemovalAction::KillProcesses
                } else {
                    DirRemovalAction::RecordFailure
                },
                EscalationStage::AfterKill => DirRemovalAction::ForceCloseHandles,
                EscalationStage::AfterForceClose => DirRemovalAction::RecordFailure,
            }
        },
    }
}

/// Decides the next step after a directory-removal attempt. Success
/// and "not found" always count as removed; an in-use error climbs
/// the ladder only when `kill_processes` is enabled; at the top of
/// the ladder, or for any other error, the failure is recorded and
/// the directory still reports complete.
pub fn dir_removal_action(
    outcome: Option<&OsError>,
    kill_processes: bool,
    stage: EscalationStage,
) -> (a: DirRemovalAction)
    ensures
        outcome is Some ==> a == spec_dir_removal_action(
            Some(*outcome.unwrap()),
            kill_processes,
            stage,
        ),
        outcome is None ==> a == spec_dir_removal_action(None, kill_processes, stage),
{
    match outcome {
        None => DirRemovalAction::TreatRemoved,
        Some(e) => {
            if crate::error::is_not_found_error(e) {
                DirRemovalAction::TreatRemoved
            } else {
                match stage {
                    EscalationStage::Initial => {
                        if kill_processes && crate::error::is_file_in_use_error(e) {
                            DirRemovalAction::KillProcesses
                        } else {
                            DirRemovalAction::RecordFailure
                        }
                    },
                    EscalationStage::AfterKill => DirRemovalAction::ForceCloseHandles,
                    EscalationStage::AfterForceClose => DirRemovalAction::RecordFailure,
                }
            }
        },
    }
}

// ---------------------------------------------------------------------
// Retry policy of the delete primitives.
// ---------------------------------------------------------------------

/// Number of attempts of the in-primitive retry loop.
pub const MAX_RETRIES: u32 = 4;

/// Additional active-cleanup passes after "directory not empty"
/// persists through the standard retries.
pub const DIR_NOT_EMPTY_CLEANUP_ROUNDS: usize = 5;

/// Delay before retry attempt `attempt` of the delete primitives.
pub fn retry_delay_ms(attempt: usize) -> (d: u64)
    requires
        attempt < MAX_RETRIES as usize,
    ensures
        d == (if attempt == 0 {
            0int
        } else if attempt == 1 {
            1int
        } else if attempt == 2 {
            5int
        } else {
            10int
        }),
{
    if attempt == 0 {
        0
    } else if attempt == 1 {
        1
    } else if attempt == 2 {
        5
    } else {
        10
    }
}

/// Delay before active-cleanup pass `round` of a stubborn
/// "directory not empty" removal.
pub fn cleanup_delay_ms(round: usize) -> (d: u64)
    requires
        round < DIR_NOT_EMPTY_CLEANUP_ROUNDS,
    ensures
        d == (if round == 0 {
            1int
        } else if round == 1 {
            10int
        } else if round == 2 {
            50int
        } else if round == 3 {
            100int
        } else {
            200int
        }),
{
    if round == 0 {
        1
    } else if round == 1 {
        10
    } else if round == 2 {
        50
    } else if round == 3 {
        100
    } else {
        200
    }
}

/// Whether a failed delete attempt is worth retrying: exactly the
/// transient error codes (sharing violation, lock violation, access
/// denied, dir not empty). An error without a raw code is final.
pub fn is_retryable(error: &OsError) -> (r: bool)
    ensures
        r == (error.code matches Some(c) && spec_is_retryable_code(c)),
{
    match error.code {
        Some(c) => crate::error::is_retryable_error(c),
        None => false,
    }
}

/// Whether the active-cleanup loop of `remove_dir` keeps going after
/// one more failed attempt: only while the error stays "directory
/// not empty" or transient; any other error aborts the cleanup.
pub fn cleanup_continue(error: &OsError) -> (r: bool)
    ensures
        r == (spec_is_dir_not_empty_error(*error) || (error.code matches Some(c)
            && spec_is_retryable_code(c))),
{
    crate::error::is_dir_not_empty_error(error) || is_retryable(error)
}

} // verus!
