//! Choices among candidate file locations. The caller builds the candidate
//! paths and tests which exist; these functions decide which one is used.
use vstd::prelude::*;
use crate::text::{ends_with, starts_with};

verus! {

/// Where the log file is looked for, relative to the resources directory.
#[derive(Debug, Clone, Copy, PartialEq, Eq)]
pub enum LogLocation {
    /// `<base>/logs/os_assistant.log`
    LogsDir,
    /// `<base>/os_assistant.log`
    BaseDir,
}

/// The first candidate that exists, if any.
pub fn first_existing(exists: &Vec<bool>) -> (r: Option<usize>)
    ensures
        r matches Some(i) ==> i < exists@.len() && exists@[i as int]
            && forall|j: int| 0 <= j < i ==> !exists@[j],
        r is None ==> forall|j: int| 0 <= j < exists@.len() ==> !exists@[j],
{
    let mut i: usize = 0;
    while i < exists.len()
        invariant
            i <= exists@.len(),
            forall|j: int| 0 <= j < i ==> !exists@[j],
        decreases exists@.len() - i,
    {
        if exists[i] {
            return Some(i);
        }
        i = i + 1;
    }
    None
}

/// Chooses the log file's location: none without a resources directory;
/// the `logs` folder when the file is there or is nowhere yet, so that a
/// poller has a stable path before the file is created; the directory
/// itself when the file is only there.
pub fn resolve_log_path(base_found: bool, in_logs_dir: bool, in_base_dir: bool) -> (r: Option<LogLocation>)
    ensures
        r is None <==> !base_found,
        r == Some(LogLocation::BaseDir) <==> base_found && !in_logs_dir && in_base_dir,
{
    if !base_found {
        None
    } else if in_logs_dir {
        Some(LogLocation::LogsDir)
    } else if in_base_dir {
        Some(LogLocation::BaseDir)
    } else {
        Some(LogLocation::LogsDir)
    }
}

/// Whether a file name is that of a versioned sidecar executable,
/// `main-<anything>.exe`.
pub fn is_sidecar_name(name: &str) -> (r: bool)
    ensures
        r == ("main-"@.is_prefix_of(name@) && ".exe"@.is_suffix_of(name@)),
{
    starts_with(name, "main-") && ends_with(name, ".exe")
}

} // verus!
