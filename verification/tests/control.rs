use alarm_daemon::control::{
    reply_to_sound, sound_to_reply, trigger_delay_from, Control, ControlError,
};
use alarm_daemon::daemon::{AlarmDaemon, AlarmStatus, Transition};
use alarm_daemon::sounds::SoundLibrary;
use alarm_daemon::time::Duration;

fn control() -> Control {
    let lib = SoundLibrary::new("/s/builtin".to_string(), "/s/custom".to_string());
    Control::new(AlarmDaemon::new(), lib, None)
}

fn existing() -> Vec<String> {
    vec!["/s/builtin/collision.wav".to_string()]
}

#[test]
fn trigger_delay_setting() {
    assert_eq!(trigger_delay_from(None), Duration::from_secs(3));
    assert_eq!(trigger_delay_from(Some("250")), Duration::from_millis(250));
    assert_eq!(trigger_delay_from(Some("+7")), Duration::from_millis(7));
    assert_eq!(trigger_delay_from(Some("-7")), Duration::from_secs(3));
    assert_eq!(trigger_delay_from(Some("")), Duration::from_secs(3));
    assert_eq!(trigger_delay_from(Some("18446744073709551616")), Duration::from_secs(3));
    assert_eq!(
        trigger_delay_from(Some("18446744073709551615")),
        Duration::from_millis(u64::MAX)
    );
}

#[test]
fn arm_schedules_and_signals_once() {
    let mut c = control();
    let plan = c.arm("builtin:collision", &existing(), Duration::from_millis(1_000)).unwrap();
    assert_eq!(plan.sound_path, "/s/builtin/collision.wav");
    assert_eq!(plan.delay, Duration::from_secs(3));
    assert_eq!(plan.fire_at_unix_ms, 4_000);
    assert_eq!(plan.state_changed, Some(true));
    assert!(c.status());
    assert_eq!(c.current_sound(), "builtin:collision");

    let again = c.arm("builtin:collision", &existing(), Duration::from_millis(2_000)).unwrap();
    assert_eq!(
        again.transition,
        Transition::Changed { from: AlarmStatus::Armed, to: AlarmStatus::Armed }
    );
    assert_eq!(again.state_changed, None);
}

#[test]
fn arm_rejects_unknown_sound_without_change() {
    let mut c = control();
    match c.arm("builtin:nope", &existing(), Duration::from_millis(0)) {
        Err(ControlError::InvalidArgs(m)) => assert_eq!(m, "unknown sound id: builtin:nope"),
        other => panic!("unexpected {other:?}"),
    }
    assert!(!c.status());
}

#[test]
fn snooze_rules() {
    let mut c = control();
    match c.snooze(0, &existing(), Duration::from_millis(0)) {
        Err(ControlError::InvalidArgs(m)) => assert_eq!(m, "duration_s must be > 0"),
        other => panic!("unexpected {other:?}"),
    }
    match c.snooze(5, &existing(), Duration::from_millis(0)) {
        Err(ControlError::Failed(m)) => assert_eq!(m, "cannot snooze: no armed alarm sound"),
        other => panic!("unexpected {other:?}"),
    }
    let _ = c.arm("builtin:collision", &existing(), Duration::from_millis(0)).unwrap();
    let plan = c.snooze(5, &existing(), Duration::from_millis(10_000)).unwrap();
    assert_eq!(plan.delay, Duration::from_secs(5));
    assert_eq!(plan.fire_at_unix_ms, 15_000);
    assert_eq!(plan.state_changed, None);
    assert!(c.status());
    assert_eq!(c.current_sound(), "builtin:collision");
}

#[test]
fn disarm_and_dismiss_are_idempotent() {
    let mut c = control();
    let _ = c.arm("builtin:collision", &existing(), Duration::from_millis(0)).unwrap();
    let p = c.dismiss();
    assert_eq!(p.state_changed, Some(false));
    assert_eq!(c.current_sound(), "");
    let p = c.disarm();
    assert_eq!(p.transition, Transition::NoChange);
    assert_eq!(p.state_changed, None);
}

#[test]
fn fire_time_saturates() {
    let mut c = control();
    let plan = c
        .schedule_trigger_with_delay(
            "builtin:collision".to_string(),
            Duration::from_secs(u64::MAX),
            &existing(),
            Duration::from_millis(5),
        )
        .unwrap();
    assert_eq!(plan.fire_at_unix_ms, i64::MAX);
}

#[test]
fn current_sound_reply_round_trip() {
    assert_eq!(sound_to_reply(None), "");
    assert_eq!(sound_to_reply(Some("custom:x".to_string())), "custom:x");
    assert_eq!(reply_to_sound(String::new()), None);
    assert_eq!(reply_to_sound("custom:x".to_string()), Some("custom:x".to_string()));
}

#[test]
fn list_sounds_reports_ids() {
    let c = control();
    let builtin = vec![alarm_daemon::sounds::SoundFile { name: "b.wav".to_string(), bytes: 1 }];
    assert_eq!(c.list_sounds(&builtin, &Vec::new()), vec!["builtin:b".to_string()]);
}

#[test]
fn arm_rejects_path_like_sound_id_without_change() {
    let mut c = control();
    let files = vec!["/s/builtin/../../etc/x.wav".to_string(), "/etc/x.wav".to_string()];
    match c.arm("builtin:../../etc/x", &files, Duration::from_millis(0)) {
        Err(ControlError::InvalidArgs(m)) => {
            assert_eq!(m, "invalid sound id: builtin:../../etc/x")
        }
        other => panic!("unexpected {other:?}"),
    }
    assert!(!c.status());
    assert_eq!(c.current_sound(), "");
}
