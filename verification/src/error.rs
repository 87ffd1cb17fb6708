//! Error model of the deletion engine.
//!
//! Operating-system errors reach the library as plain values: the raw OS
//! error code, if one exists, and whether the error's kind is "not found".
//! The embedding application converts its platform error type into
//! [`OsError`] before handing an outcome to the library.

use vstd::prelude::*;

verus! {

/// A platform error, reduced to the facts the deletion logic reads:
/// the raw OS error code (if any), whether the error kind is "not
/// found", and a human-readable message used in failure reports.
#[derive(Debug, Clone)]
pub struct OsError {
    pub code: Option<i32>,
    pub not_found_kind: bool,
    pub message: String,
}

/// A single path that could not be deleted, surfaced to the caller
/// after all workers have finished.
#[derive(Debug, Clone)]
pub struct FailedItem {
    pub path: String,
    pub error: String,
    pub is_dir: bool,
}

/// Top-level error of one deletion invocation.
#[allow(inconsistent_fields)]
#[derive(Debug)]
pub enum Error {
    /// An I/O error, optionally tied to the path that produced it.
    Io { path: Option<String>, source: OsError },
    /// The input path was rejected before any deletion started.
    InvalidPath { path: String, reason: String },
    /// Some paths could not be deleted; the rest of the tree was removed.
    PartialFailure { total: usize, failed: usize, errors: Vec<FailedItem> },
}

impl Error {
    /// Wraps an OS error together with the path it occurred on.
    pub fn io_with_path(path: String, source: OsError) -> (r: Error)
        ensures
            r == (Error::Io { path: Some(path), source }),
    {
        Error::Io { path: Some(path), source }
    }

    /// Process exit code reported for this error.
    pub fn exit_code(&self) -> (r: i32)
        ensures
            r == (match self {
                Error::Io { .. } => 2i32,
                Error::InvalidPath { .. } => 1i32,
                Error::PartialFailure { .. } => 1i32,
            }),
    {
        match self {
            Error::Io { .. } => 2,
            Error::InvalidPath { .. } => 1,
            Error::PartialFailure { .. } => 1,
        }
    }
}

/// True of the error codes meaning that another process holds the
/// target open: access denied, sharing violation, lock violation.
pub open spec fn spec_is_file_in_use_error(e: OsError) -> bool {
    e.code == Some(5i32) || e.code == Some(32i32) || e.code == Some(33i32)
}

/// True exactly of the "file in use" error codes.
pub fn is_file_in_use_error(error: &OsError) -> (r: bool)
    ensures
        r == spec_is_file_in_use_error(*error),
{
    match error.code {
        Some(c) => c == 5 || c == 32 || c == 33,
        None => false,
    }
}

/// True of the "directory not empty" error code.
pub open spec fn spec_is_dir_not_empty_error(e: OsError) -> bool {
    e.code == Some(145i32)
}

/// True exactly of the "directory not empty" error code.
pub fn is_dir_not_empty_error(error: &OsError) -> (r: bool)
    ensures
        r == spec_is_dir_not_empty_error(*error),
{
    match error.code {
        Some(c) => c == 145,
        None => false,
    }
}

/// True of the error codes and kind meaning that the target does not
/// exist: file not found, path not found, invalid name, bad pathname,
/// or the generic "not found" kind.
pub open spec fn spec_is_not_found_error(e: OsError) -> bool {
    e.code == Some(2i32) || e.code == Some(3i32) || e.code == Some(123i32) || e.code == Some(
        161i32,
    ) || e.not_found_kind
}

/// True exactly of the "not found" errors.
pub fn is_not_found_error(error: &OsError) -> (r: bool)
    ensures
        r == spec_is_not_found_error(*error),
{
    let by_code = match error.code {
        Some(c) => c == 2 || c == 3 || c == 123 || c == 161,
        None => false,
    };
    by_code || error.not_found_kind
}

/// True of the raw codes that the delete primitives retry on:
/// sharing violation, lock violation, access denied, dir not empty.
pub open spec fn spec_is_retryable_code(code: i32) -> bool {
    code == 32 || code == 33 || code == 5 || code == 145
}

/// True exactly of the retryable raw OS error codes.
pub fn is_retryable_error(code: i32) -> (r: bool)
    ensures
        r == spec_is_retryable_code(code),
{
    code == 32 || code == 33 || code == 5 || code == 145
}

} // verus!
