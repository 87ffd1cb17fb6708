//! The process-lock subsystem, portable part.
//!
//! The real lock subsystem — Restart-Manager queries, process
//! termination, system-wide handle enumeration and duplicate-closing —
//! exists only on the native platform and is driven by the embedding
//! application. This module holds the portable fallbacks (which report
//! no locks and support no killing, exactly as the engine behaves on
//! other platforms) and the decision rules of the native algorithms:
//! which processes may be terminated and which handle-table entries
//! are inspected. The rules protect the kernel (pids 0 and 4) and the
//! engine's own process.

use crate::error::OsError;
use vstd::prelude::*;

verus! {

/// A process holding a target path open, as the platform reports it.
#[derive(Debug, Clone)]
pub struct LockingProcess {
    pub pid: u32,
    pub name: String,
    /// Full path of the process executable, when it could be queried.
    pub exe_path: Option<String>,
}

/// One entry of the system handle table, reduced to the fields the
/// scan reads.
#[derive(Debug, Clone)]
pub struct HandleEntry {
    /// Owning process id.
    pub pid: u32,
    /// Kernel object class of the handle; its numeric value differs
    /// across platform versions and is detected at runtime.
    pub object_type_index: u8,
    /// The handle's value in the owning process.
    pub handle_value: u16,
    /// Access mask the handle was granted.
    pub granted_access: u32,
}

/// Attempts to enumerate the system handle table before giving up on
/// a persistently growing length report.
pub const HANDLE_QUERY_ATTEMPTS: usize = 10;

/// First buffer size tried for the handle-table query.
pub const INITIAL_HANDLE_BUFFER: usize = 4 * 1024 * 1024;

/// Watchdog timeout for resolving one handle's path; some handle
/// kinds block the resolution indefinitely.
pub const RESOLVE_TIMEOUT_MS: u64 = 200;

/// Pause after killing a process, letting the platform release the
/// handles it held.
pub const KILL_SETTLE_MS: u64 = 50;

/// A process may be terminated only if it is not one of the
/// system-critical kernel pids (0 and 4).
pub fn should_kill_pid(pid: u32) -> (r: bool)
    ensures
        r == (pid != 0 && pid != 4),
{
    pid != 0 && pid != 4
}

/// The pids of the reported locking processes that the engine is
/// allowed to terminate, in order.
pub open spec fn spec_killable_pids(procs: Seq<LockingProcess>) -> Seq<u32>
    decreases procs.len(),
{
    if procs.len() == 0 {
        Seq::empty()
    } else {
        let prev = spec_killable_pids(procs.drop_last());
        if procs.last().pid != 0 && procs.last().pid != 4 {
            prev.push(procs.last().pid)
        } else {
            prev
        }
    }
}

/// Filters a locking-process report down to the pids that may be
/// terminated: every pid except the system-critical ones.
pub fn killable_pids(procs: &Vec<LockingProcess>) -> (r: Vec<u32>)
    ensures
        r@ == spec_killable_pids(procs@),
{
    let mut out: Vec<u32> = Vec::new();
    let n = procs.len();
    let mut i: usize = 0;
    while i < n
        invariant
            n == procs@.len(),
            i <= n,
            out@ == spec_killable_pids(procs@.take(i as int)),
        decreases n - i,
    {
        proof {
            assert(procs@.take(i + 1).drop_last() =~= procs@.take(i as int));
        }
        if should_kill_pid(procs[i].pid) {
            out.push(procs[i].pid);
        }
        i += 1;
    }
    proof {
        assert(procs@.take(n as int) =~= procs@);
    }
    out
}

/// Whether one handle-table entry is a candidate for path resolution:
/// never the engine's own process, never the kernel pids, never a
/// handle without granted access, and only handles of the detected
/// "File" object class when that class is known.
pub fn should_inspect_handle(
    entry: &HandleEntry,
    current_pid: u32,
    file_type_index: Option<u8>,
) -> (r: bool)
    ensures
        r == (entry.pid != current_pid && entry.pid != 0 && entry.pid != 4 && entry.granted_access
            != 0 && (file_type_index matches Some(t) ==> entry.object_type_index == t)),
{
    if entry.pid == current_pid || entry.pid == 0 || entry.pid == 4 || entry.granted_access == 0 {
        return false;
    }
    match file_type_index {
        Some(t) => entry.object_type_index == t,
        None => true,
    }
}

/// Whether a resolved handle path is one of the targets. The caller
/// canonicalizes and lowercases both sides, so the match is exact.
pub fn path_matches_targets(resolved: &String, targets: &Vec<String>) -> (r: bool)
    ensures
        r == (exists|i: int| 0 <= i < targets@.len() && (#[trigger] targets@[i])@ == resolved@),
{
    let n = targets.len();
    let mut i: usize = 0;
    while i < n
        invariant
            n == targets@.len(),
            i <= n,
            forall|j: int| 0 <= j < i ==> (#[trigger] targets@[j])@ != resolved@,
        decreases n - i,
    {
        if targets[i].eq(resolved) {
            return true;
        }
        i += 1;
    }
    false
}

/// Detects the platform's "File" object class at runtime: the class
/// of the first handle-table entry owned by the engine's own process
/// whose value is the probe handle (a known open file). `None` when
/// the probe does not appear in the table.
pub fn find_object_type_index(
    entries: &Vec<HandleEntry>,
    current_pid: u32,
    probe_handle: u16,
) -> (r: Option<u8>)
    ensures
        r matches Some(t) ==> exists|i: int|
            0 <= i < entries@.len() && (#[trigger] entries@[i]).pid == current_pid
                && entries@[i].handle_value == probe_handle && entries@[i].object_type_index == t,
        r is None ==> forall|i: int|
            0 <= i < entries@.len() ==> !((#[trigger] entries@[i]).pid == current_pid
                && entries@[i].handle_value == probe_handle),
{
    let n = entries.len();
    let mut i: usize = 0;
    while i < n
        invariant
            n == entries@.len(),
            i <= n,
            forall|j: int|
                0 <= j < i ==> !((#[trigger] entries@[j]).pid == current_pid
                    && entries@[j].handle_value == probe_handle),
        decreases n - i,
    {
        if entries[i].pid == current_pid && entries[i].handle_value == probe_handle {
            return Some(entries[i].object_type_index);
        }
        i += 1;
    }
    None
}

/// Next buffer size after the handle-table query reported a larger
/// requirement: one and a half times the report, saturating.
pub fn next_handle_buffer_size(reported: u32) -> (r: usize)
    ensures
        r as int == (if (reported as int) * 3 / 2 <= usize::MAX {
            (reported as int) * 3 / 2
        } else {
            usize::MAX as int
        }),
{
    let grown: u64 = (reported as u64) * 3 / 2;
    if grown <= usize::MAX as u64 {
        grown as usize
    } else {
        usize::MAX
    }
}

// ---------------------------------------------------------------------
// Portable fallbacks.
//
// On platforms without a Restart-Manager equivalent or a system
// handle table, lock queries report nothing, handle closing closes
// nothing, and process termination is unsupported.
// ---------------------------------------------------------------------

/// Reports the processes holding `path` open: none, on this platform.
pub fn find_locking_processes(_path: &str) -> (r: Result<Vec<LockingProcess>, OsError>)
    ensures
        r matches Ok(v) && v@.len() == 0,
{
    Ok(Vec::new())
}

/// Reports the processes holding any of `paths` open: none, on this
/// platform.
pub fn find_locking_processes_batch(_paths: &Vec<String>) -> (r: Result<
    Vec<LockingProcess>,
    OsError,
>)
    ensures
        r matches Ok(v) && v@.len() == 0,
{
    Ok(Vec::new())
}

/// Terminates a process by pid: unsupported on this platform.
pub fn kill_process(_pid: u32) -> (r: Result<(), OsError>)
    ensures
        r matches Err(e) && e.code is None && !e.not_found_kind,
{
    Err(OsError { code: None, not_found_kind: false, message: unsupported_message() })
}

/// Kills every process locking `path` and reports the kills: none,
/// on this platform.
pub fn kill_locking_processes(_path: &str, _verbose: bool) -> (r: Result<
    Vec<LockingProcess>,
    OsError,
>)
    ensures
        r matches Ok(v) && v@.len() == 0,
{
    Ok(Vec::new())
}

/// Kills every process locking any of `paths` and reports the kills:
/// none, on this platform.
pub fn kill_locking_processes_batch(_paths: &Vec<String>, _verbose: bool) -> (r: Result<
    Vec<LockingProcess>,
    OsError,
>)
    ensures
        r matches Ok(v) && v@.len() == 0,
{
    Ok(Vec::new())
}

/// Force-closes the handles other processes hold on `paths` and
/// counts the closes: zero, on this platform.
pub fn force_close_file_handles(_paths: &Vec<String>, _verbose: bool) -> (r: Result<usize, OsError>)
    ensures
        r matches Ok(c) && c == 0,
{
    Ok(0)
}

/// The message of the "unsupported on this platform" error.
fn unsupported_message() -> (r: String)
    ensures
        r@ == "Not supported on this platform"@,
{
    "Not supported on this platform".to_owned()
}

} // verus!
