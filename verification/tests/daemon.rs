use alarm_daemon::daemon::{AlarmDaemon, AlarmStatus, State, Transition};

#[test]
fn starts_disarmed() {
    let d = AlarmDaemon::new();
    assert_eq!(d.status(), AlarmStatus::Disarmed);
    assert!(!d.status().is_armed());
}

#[test]
fn arm_then_disarm_reports_transitions() {
    let mut d = AlarmDaemon::new();

    let t = d.arm();
    assert_eq!(
        t,
        Transition::Changed {
            from: AlarmStatus::Disarmed,
            to: AlarmStatus::Armed,
        }
    );
    assert_eq!(d.status(), AlarmStatus::Armed);

    let t = d.disarm();
    assert_eq!(
        t,
        Transition::Changed {
            from: AlarmStatus::Armed,
            to: AlarmStatus::Disarmed,
        }
    );
    assert_eq!(d.status(), AlarmStatus::Disarmed);
}

#[test]
fn idempotent_arm_and_disarm_are_nochange() {
    let mut d = AlarmDaemon::new();
    let _ = d.arm();
    assert_eq!(d.arm(), Transition::NoChange);
    let _ = d.disarm();
    assert_eq!(d.disarm(), Transition::NoChange);
}

#[test]
fn rearming_with_another_sound_is_a_change_between_armed_states() {
    let mut d = AlarmDaemon::new();
    let _ = d.arm_with_sound("builtin:a".to_string(), Some(5));
    assert_eq!(
        d.arm_with_sound("builtin:b".to_string(), Some(5)),
        Transition::Changed { from: AlarmStatus::Armed, to: AlarmStatus::Armed }
    );
    assert_eq!(d.arm_with_sound("builtin:b".to_string(), Some(5)), Transition::NoChange);
    assert_eq!(d.current_sound().as_deref(), Some("builtin:b"));
}

#[test]
fn state_constructors_and_persisted_form() {
    let s = State::armed(Some("custom:x".to_string()), Some(7));
    let p = s.to_persisted();
    assert!(p.armed);
    assert_eq!(p.next_fire_unix_ms, Some(7));
    assert_eq!(p.current_sound.as_deref(), Some("custom:x"));
    assert!(State::from_persisted(p).same_as(&s));
    assert!(!State::disarmed().same_as(&s));
    assert_eq!(AlarmStatus::default(), AlarmStatus::Disarmed);
}

#[test]
fn transition_to_reports_changes_between_equal_statuses() {
    let mut d = AlarmDaemon::new();
    let t = d.transition_to(State::armed(Some("builtin:a".to_string()), Some(10)));
    assert_eq!(t, Transition::Changed { from: AlarmStatus::Disarmed, to: AlarmStatus::Armed });
    let t = d.transition_to(State::armed(Some("builtin:b".to_string()), Some(10)));
    assert_eq!(t, Transition::Changed { from: AlarmStatus::Armed, to: AlarmStatus::Armed });
    assert_eq!(d.current_sound(), Some("builtin:b".to_string()));
    let t = d.transition_to(State::armed(Some("builtin:b".to_string()), Some(10)));
    assert_eq!(t, Transition::NoChange);
    assert_eq!(d.current_sound(), Some("builtin:b".to_string()));
}
