use std::path::PathBuf;

use alarm_daemon::config::{AlarmError, BusKind};

#[test]
fn defaults_to_session_when_unset() {
    assert_eq!(BusKind::parse(None).ok(), Some(BusKind::Session));
}

#[test]
fn empty_value_is_treated_as_unset() {
    assert_eq!(BusKind::parse(Some("")).ok(), Some(BusKind::Session));
}

#[test]
fn parses_session_value() {
    assert_eq!(BusKind::parse(Some("session")).ok(), Some(BusKind::Session));
}

#[test]
fn parses_system_value() {
    assert_eq!(BusKind::parse(Some("system")).ok(), Some(BusKind::System));
}

#[test]
fn rejects_unknown_value() {
    let Err(err) = BusKind::parse(Some("tcp")) else {
        panic!("expected parse error for 'tcp'");
    };
    let msg = err.to_string();
    assert!(msg.contains("ALARM_DAEMON_BUS"), "{msg}");
    assert!(msg.contains("tcp"), "{msg}");
}

#[test]
fn as_str_is_stable() {
    assert_eq!(BusKind::Session.as_str(), "session");
    assert_eq!(BusKind::System.as_str(), "system");
}

#[test]
fn system_default_db_path_is_under_var_lib_helm() {
    assert_eq!(
        PathBuf::from(BusKind::System.default_db_path_with_home("/anything")),
        PathBuf::from("/var/lib/helm/alarm-daemon.redb")
    );
}

#[test]
fn session_default_db_path_is_under_home() {
    assert_eq!(
        PathBuf::from(BusKind::Session.default_db_path_with_home("/tmp/some-fake-home")),
        PathBuf::from("/tmp/some-fake-home/.local/state/helm/alarm-daemon.redb")
    );
}

#[test]
fn bad_bus_message_quotes_the_value() {
    let Err(err) = BusKind::parse(Some("tcp")) else {
        panic!("expected parse error");
    };
    assert_eq!(
        err.to_string(),
        "invalid configuration: ALARM_DAEMON_BUS must be 'session' or 'system' (got \"tcp\")"
    );
    assert!(matches!(err, AlarmError::Config(_)));
}

#[test]
fn bus_name_parses_back() {
    for kind in [BusKind::Session, BusKind::System] {
        assert_eq!(BusKind::parse(Some(kind.as_str())).ok(), Some(kind));
    }
}

#[test]
fn default_bus_is_session() {
    assert_eq!(BusKind::default(), BusKind::Session);
}

#[test]
fn alarm_error_messages() {
    assert_eq!(AlarmError::Io("boom".to_string()).to_string(), "I/O error: boom");
    assert_eq!(AlarmError::DBus("x".to_string()).to_string(), "D-Bus error: x");
    assert_eq!(AlarmError::DBusName("y".to_string()).to_string(), "D-Bus name error: y");
}
