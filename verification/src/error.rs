//! Domain errors and their code-based construction from host I/O failures.

use vstd::prelude::*;
use crate::types::InstallType;

verus! {

/// The error taxonomy of the installer core. Construction from lower-level
/// failures is code-based: a specific OS error number means the target
/// process holds the file open on Windows, another means the host OS denies
/// the edit on macOS; anything else degrades to `Unknown`.
#[derive(Clone, Debug)]
pub enum MoonlightError {
    WindowsFileLock(String),
    MacOSNoPermission(String),
    NetworkFailed(String),
    Unknown(String),
}

impl MoonlightError {
    /// A short description of the error, with its original message.
    pub fn message(&self) -> (r: &String)
        ensures
            match self {
                MoonlightError::WindowsFileLock(m) => r == m,
                MoonlightError::MacOSNoPermission(m) => r == m,
                MoonlightError::NetworkFailed(m) => r == m,
                MoonlightError::Unknown(m) => r == m,
            },
    {
        match self {
            MoonlightError::WindowsFileLock(m) => m,
            MoonlightError::MacOSNoPermission(m) => m,
            MoonlightError::NetworkFailed(m) => m,
            MoonlightError::Unknown(m) => m,
        }
    }
}

/// Classifies a host I/O failure by its raw OS error number and the platform:
/// number 32 on Windows is a file lock held by the client process, number 1 on
/// macOS is a denied filesystem edit, everything else is unknown.
pub fn classify_io_error(raw_os_error: Option<i32>, os: InstallType, message: String) -> (r:
    MoonlightError)
    ensures
        raw_os_error == Some(32i32) && os is Windows ==> r == MoonlightError::WindowsFileLock(
            message,
        ),
        raw_os_error == Some(1i32) && os is MacOS ==> r == MoonlightError::MacOSNoPermission(
            message,
        ),
        !(raw_os_error == Some(32i32) && os is Windows) && !(raw_os_error == Some(1i32)
            && os is MacOS) ==> r == MoonlightError::Unknown(message),
{
    match (raw_os_error, os) {
        (Some(32i32), InstallType::Windows) => MoonlightError::WindowsFileLock(message),
        (Some(1i32), InstallType::MacOS) => MoonlightError::MacOSNoPermission(message),
        _ => MoonlightError::Unknown(message),
    }
}

} // verus!
