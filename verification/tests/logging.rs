use alarm_daemon::logging::LogBackend;

#[test]
fn log_backend_as_str_is_stable() {
    assert_eq!(LogBackend::Journald.as_str(), "journald");
    assert_eq!(LogBackend::Stderr.as_str(), "stderr");
}

#[test]
fn journald_only_under_systemd_with_a_working_journal() {
    assert_eq!(LogBackend::select(true, true), LogBackend::Journald);
    assert_eq!(LogBackend::select(true, false), LogBackend::Stderr);
    assert_eq!(LogBackend::select(false, true), LogBackend::Stderr);
    assert_eq!(LogBackend::select(false, false), LogBackend::Stderr);
}
