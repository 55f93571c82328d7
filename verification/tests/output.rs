use alarm_daemon::audio::AudioError;
use alarm_daemon::output::{
    reply_for, CpalConfig, WorkerEvent, WorkerState, WorkerStep, DEVICE_RETRY_INTERVAL_MS,
};

#[test]
fn default_config_uses_the_host_default_device() {
    assert_eq!(CpalConfig::default().device_name, None);
    assert_eq!(DEVICE_RETRY_INTERVAL_MS, 5_000);
}

#[test]
fn worker_refuses_play_while_no_stream_and_recovers() {
    let mut s = WorkerState::start(false);
    assert!(!s.stream_open && s.device_lost);
    assert!(!s.check_stream());
    assert_eq!(s.on_event(WorkerEvent::Play), WorkerStep::RefusePlayback);
    assert!(matches!(
        reply_for(WorkerStep::RefusePlayback),
        Some(Err(AudioError::DeviceUnavailable))
    ));
    assert!(!s.retry_due(4_999));
    assert!(s.retry_due(5_000));
    s.on_retry(false);
    assert!(!s.stream_open);
    s.on_retry(true);
    assert!(s.stream_open && !s.device_lost);
    assert!(!s.retry_due(60_000));
    assert_eq!(s.on_event(WorkerEvent::Play), WorkerStep::StartPlayback);
    assert!(matches!(reply_for(WorkerStep::StartPlayback), Some(Ok(()))));
}

#[test]
fn worker_drops_a_lost_stream_and_answers_commands() {
    let mut s = WorkerState::start(true);
    assert!(!s.check_stream());
    s.on_stream_error();
    assert!(s.stream_open);
    assert!(s.check_stream());
    assert!(!s.stream_open);
    assert_eq!(s.on_event(WorkerEvent::Stop), WorkerStep::StopPlayback);
    assert!(matches!(reply_for(WorkerStep::StopPlayback), Some(Ok(()))));
    assert_eq!(s.on_event(WorkerEvent::Shutdown), WorkerStep::Exit);
    assert_eq!(s.on_event(WorkerEvent::Timeout), WorkerStep::Wait);
    assert!(reply_for(WorkerStep::Exit).is_none());
    assert!(reply_for(WorkerStep::Wait).is_none());
}
