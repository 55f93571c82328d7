//! Choice of logging backend.

use vstd::prelude::*;

verus! {

/// Identifies which logging backend was selected.
#[derive(Debug, Clone, Copy, PartialEq, Eq, Structural)]
pub enum LogBackend {
    /// Structured events sent over the journal socket.
    Journald,
    /// Human-readable text on stderr (default for development runs).
    Stderr,
}

impl LogBackend {
    /// Stable name of the backend.
    pub fn as_str(self) -> (s: &'static str)
        ensures
            s@ == match self {
                LogBackend::Journald => "journald"@,
                LogBackend::Stderr => "stderr"@,
            },
    {
        match self {
            LogBackend::Journald => "journald",
            LogBackend::Stderr => "stderr",
        }
    }

    /// The backend to use: journald when running under a systemd unit and
    /// the journal layer could be built, stderr otherwise.
    pub fn select(under_systemd: bool, journald_available: bool) -> (b: LogBackend)
        ensures
            b == if under_systemd && journald_available {
                LogBackend::Journald
            } else {
                LogBackend::Stderr
            },
    {
        if under_systemd && journald_available {
            LogBackend::Journald
        } else {
            LogBackend::Stderr
        }
    }
}

} // verus!
