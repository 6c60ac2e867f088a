//! The ways in which the launcher's work fails.

use vstd::prelude::*;

verus! {

/// What went wrong.
#[derive(Debug, Clone, Copy, PartialEq, Eq, Structural)]
pub enum LauncherError {
    /// The machine's system or processor is none that releases are made for.
    UnsupportedPlatform,
    /// No release, none with the wanted tag, or no asset for the machine.
    NotFound,
    /// The source of releases could not be reached.
    NetworkError,
    /// A file could not be read, written, renamed or given its permissions.
    IoError,
    /// The Ollama server did not answer after it was started.
    StartupFailed,
    /// A process could not be started or stopped.
    ProcessError,
}

impl LauncherError {
    /// A sentence that says what went wrong.
    pub fn message(&self) -> (text: &'static str)
        ensures
            text@ == match *self {
                LauncherError::UnsupportedPlatform => "unsupported platform"@,
                LauncherError::NotFound => "not found"@,
                LauncherError::NetworkError => "network error"@,
                LauncherError::IoError => "input or output failed"@,
                LauncherError::StartupFailed => "Ollama failed to start"@,
                LauncherError::ProcessError => "a process could not be started or stopped"@,
            },
    {
        match self {
            LauncherError::UnsupportedPlatform => "unsupported platform",
            LauncherError::NotFound => "not found",
            LauncherError::NetworkError => "network error",
            LauncherError::IoError => "input or output failed",
            LauncherError::StartupFailed => "Ollama failed to start",
            LauncherError::ProcessError => "a process could not be started or stopped",
        }
    }
}

} // verus!
