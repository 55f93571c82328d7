//! Daemon-wide runtime configuration: which D-Bus the daemon attaches to, and
//! the database path that follows from it.

use vstd::prelude::*;

use crate::text::{concat, concat3};

verus! {

/// Top-level error type for daemon startup and IPC wiring.
#[derive(Debug)]
pub enum AlarmError {
    /// Error returned by the D-Bus transport or protocol operations.
    DBus(String),
    /// Error constructing or validating D-Bus names.
    DBusName(String),
    /// Underlying OS I/O error.
    Io(String),
    /// Invalid runtime configuration provided by environment or flags.
    Config(String),
}

impl AlarmError {
    /// The message that [`AlarmError::to_string`] returns.
    pub open spec fn message(&self) -> Seq<char> {
        match self {
            AlarmError::DBus(m) => "D-Bus error: "@ + m@,
            AlarmError::DBusName(m) => "D-Bus name error: "@ + m@,
            AlarmError::Io(m) => "I/O error: "@ + m@,
            AlarmError::Config(m) => "invalid configuration: "@ + m@,
        }
    }

    /// The human-readable message of this error.
    pub fn to_string(&self) -> (s: String)
        ensures
            s@ == self.message(),
    {
        match self {
            AlarmError::DBus(m) => concat("D-Bus error: ", m.as_str()),
            AlarmError::DBusName(m) => concat("D-Bus name error: ", m.as_str()),
            AlarmError::Io(m) => concat("I/O error: ", m.as_str()),
            AlarmError::Config(m) => concat("invalid configuration: ", m.as_str()),
        }
    }
}

/// Name for the text that `format!("{:?}", s)` gives for a string with
/// characters `s`: the characters quoted, with special ones escaped.
pub uninterp spec fn str_debug(s: Seq<char>) -> Seq<char>;

/// Renders `s` with `str`'s `Debug` formatting. Trusted: the result is the
/// text named by `str_debug`, a function of the characters alone.
#[verifier::external_body]
fn debug_str(s: &str) -> (r: String)
    ensures
        r@ == str_debug(s@),
{
    format!("{s:?}")
}

/// Which D-Bus the daemon attaches to.
#[derive(Debug, Clone, Copy, PartialEq, Eq, Structural)]
pub enum BusKind {
    /// The per-user session bus (the development default).
    Session,
    /// The per-host system bus (the production posture).
    System,
}

impl Default for BusKind {
    fn default() -> (b: BusKind)
        ensures
            b == BusKind::Session,
    {
        BusKind::Session
    }
}

/// The stable name of a bus kind.
pub open spec fn bus_name(kind: BusKind) -> Seq<char> {
    match kind {
        BusKind::Session => "session"@,
        BusKind::System => "system"@,
    }
}

/// The bus kind that the setting `raw` selects, if it is a valid one: unset
/// and empty select the session bus.
pub open spec fn selected_bus(raw: Option<Seq<char>>) -> Option<BusKind> {
    match raw {
        None => Some(BusKind::Session),
        Some(s) => if s == ""@ || s == "session"@ {
            Some(BusKind::Session)
        } else if s == "system"@ {
            Some(BusKind::System)
        } else {
            None
        },
    }
}

/// The message of the error for an unrecognised setting `s`.
pub open spec fn bad_bus_message(s: Seq<char>) -> Seq<char> {
    "ALARM_DAEMON_BUS must be 'session' or 'system' (got "@ + str_debug(s) + ")"@
}

/// The view of an optional string slice.
pub open spec fn opt_view(raw: Option<&str>) -> Option<Seq<char>> {
    match raw {
        Some(s) => Some(s@),
        None => None,
    }
}

/// Where the database lives for a bus kind, given the home directory.
pub open spec fn db_path(kind: BusKind, home: Seq<char>) -> Seq<char> {
    match kind {
        BusKind::System => "/var/lib/helm/alarm-daemon.redb"@,
        BusKind::Session => home + "/.local/state/helm/alarm-daemon.redb"@,
    }
}

impl BusKind {
    /// Parses the value of the `ALARM_DAEMON_BUS` setting.
    pub fn parse(raw: Option<&str>) -> (r: Result<BusKind, AlarmError>)
        ensures
            match selected_bus(opt_view(raw)) {
                Some(k) => r == Ok::<BusKind, AlarmError>(k),
                None => r matches Err(AlarmError::Config(m)) && m@ == bad_bus_message(
                    raw.unwrap()@,
                ),
            },
    {
        match raw {
            None => Ok(BusKind::Session),
            Some(s) => {
                if crate::text::str_eq(s, "") || crate::text::str_eq(s, "session") {
                    Ok(BusKind::Session)
                } else if crate::text::str_eq(s, "system") {
                    Ok(BusKind::System)
                } else {
                    let shown = debug_str(s);
                    Err(
                        AlarmError::Config(
                            concat3(
                                "ALARM_DAEMON_BUS must be 'session' or 'system' (got ",
                                shown.as_str(),
                                ")",
                            ),
                        ),
                    )
                }
            },
        }
    }

    /// Stable string used in logs and error messages.
    pub fn as_str(self) -> (s: &'static str)
        ensures
            s@ == bus_name(self),
    {
        match self {
            BusKind::Session => "session",
            BusKind::System => "system",
        }
    }

    /// The default database path for this bus kind, with `home` as the
    /// user's home directory.
    pub fn default_db_path_with_home(self, home: &str) -> (p: String)
        ensures
            p@ == db_path(self, home@),
    {
        match self {
            BusKind::System => String::from_str("/var/lib/helm/alarm-daemon.redb"),
            BusKind::Session => concat(home, "/.local/state/helm/alarm-daemon.redb"),
        }
    }
}

/// Law: the name of a bus kind parses back to that kind.
pub proof fn lemma_bus_name_parses_back(kind: BusKind)
    ensures
        selected_bus(Some(bus_name(kind))) == Some(kind),
{
    reveal_strlit("");
    reveal_strlit("session");
    reveal_strlit("system");
    assert("session"@.len() != ""@.len());
    assert("system"@.len() != ""@.len());
    assert("system"@ != "session"@) by {
        assert("system"@[1] != "session"@[1]);
    }
}

} // verus!
