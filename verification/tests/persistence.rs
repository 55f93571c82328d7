use alarm_daemon::daemon::AlarmDaemon;
use alarm_daemon::persistence::{
    decode_body_v1, decode_state, encode_body_v1, encode_state, evaluate_recovery, PersistedState,
    PersistenceError, SCHEMA_MAGIC_0, SCHEMA_MAGIC_1, SCHEMA_VERSION,
};

fn round_trip(state: &PersistedState) -> PersistedState {
    decode_state(&encode_state(state)).unwrap()
}

#[test]
fn round_trip_state() {
    let loaded = round_trip(&PersistedState {
        armed: true,
        next_fire_unix_ms: Some(1_700_000_000_000),
        current_sound: Some("builtin:collision".to_string()),
    });
    assert!(loaded.armed);
    assert_eq!(loaded.next_fire_unix_ms, Some(1_700_000_000_000));
    assert_eq!(loaded.current_sound.as_deref(), Some("builtin:collision"));
}

#[test]
fn round_trip_default_state() {
    let loaded = round_trip(&PersistedState::default());
    assert!(!loaded.armed);
    assert_eq!(loaded.next_fire_unix_ms, None);
    assert_eq!(loaded.current_sound, None);
}

#[test]
fn encoded_payload_starts_with_magic_and_version() {
    let mut out = Vec::new();
    out.push(SCHEMA_MAGIC_0);
    out.push(SCHEMA_MAGIC_1);
    out.push(SCHEMA_VERSION);
    let encoded = encode_state(&PersistedState::default());
    assert!(encoded.starts_with(&out));
}

#[test]
fn legacy_payload_without_magic_is_accepted() {
    let legacy = vec![1u8, 0u8, 0u8];
    let state = decode_state(&legacy).unwrap();
    assert!(state.armed);
    assert_eq!(state.next_fire_unix_ms, None);
    assert_eq!(state.current_sound, None);
}

#[test]
fn unknown_schema_version_is_rejected() {
    let mut payload = Vec::new();
    payload.push(SCHEMA_MAGIC_0);
    payload.push(SCHEMA_MAGIC_1);
    payload.push(99);
    payload.push(0);
    let err = decode_state(&payload).unwrap_err();
    assert!(matches!(err, PersistenceError::Corrupted(_)));
}

#[test]
fn truncated_body_is_reported_corrupted() {
    let mut payload = Vec::new();
    payload.push(SCHEMA_MAGIC_0);
    payload.push(SCHEMA_MAGIC_1);
    payload.push(SCHEMA_VERSION);
    payload.push(1); // armed
    payload.push(1); // has next_fire
    payload.extend_from_slice(&[0, 0, 0]); // only 3 of 8 bytes
    let err = decode_state(&payload).unwrap_err();
    assert!(matches!(err, PersistenceError::Corrupted(_)));
}

#[test]
fn exact_encoding_of_a_full_state() {
    let encoded = encode_state(&PersistedState {
        armed: true,
        next_fire_unix_ms: Some(-2),
        current_sound: Some("é".to_string()),
    });
    assert_eq!(
        encoded,
        vec![
            0x41, 0x44, 1, 1, 1, 0xfe, 0xff, 0xff, 0xff, 0xff, 0xff, 0xff, 0xff, 1, 2, 0, 0xc3,
            0xa9
        ]
    );
    let back = decode_state(&encoded).unwrap();
    assert_eq!(back.next_fire_unix_ms, Some(-2));
    assert_eq!(back.current_sound.as_deref(), Some("é"));
}

#[test]
fn corruption_messages_name_the_fault() {
    let msg = |bytes: &[u8]| match decode_state(bytes) {
        Err(PersistenceError::Corrupted(m)) => m,
        other => panic!("unexpected {other:?}"),
    };
    assert_eq!(msg(&[0x41, 0x44, 7]), "unsupported schema version 7");
    assert_eq!(msg(&[1, 5]), "unknown next_fire tag: 5");
    assert_eq!(msg(&[1, 1, 0]), "missing next_fire bytes");
    assert_eq!(msg(&[1, 0, 9]), "unknown sound tag: 9");
    assert_eq!(msg(&[1, 0, 1, 4]), "missing sound length bytes");
    assert_eq!(msg(&[1, 0, 1, 4, 0, b'a']), "missing sound body bytes");
    assert!(msg(&[1, 0, 1, 1, 0, 0xff]).starts_with("sound id utf8: "));
}

#[test]
fn bodies_shorter_than_the_layout_are_corrupted() {
    let msg = |bytes: &[u8]| match decode_body_v1(bytes) {
        Err(PersistenceError::Corrupted(m)) => m,
        other => panic!("unexpected {other:?}"),
    };
    assert_eq!(msg(&[]), "missing armed byte");
    assert_eq!(msg(&[3]), "missing next_fire tag");
    assert_eq!(msg(&[1, 0]), "missing sound tag");
    assert_eq!(msg(&[1, 1, 0, 0, 0, 0, 0, 0, 0, 0]), "missing sound tag");
    match decode_state(&[0x41, 0x44, 1]) {
        Err(PersistenceError::Corrupted(m)) => assert_eq!(m, "missing armed byte"),
        other => panic!("unexpected {other:?}"),
    }
    let trailing = decode_body_v1(&[0, 0, 0, 42, 42]).unwrap();
    assert!(!trailing.armed && trailing.current_sound.is_none());
}

#[test]
fn long_sound_ids_are_cut_to_the_length_field() {
    let long = "a".repeat(70_000);
    let back = round_trip(&PersistedState {
        armed: true,
        next_fire_unix_ms: None,
        current_sound: Some(long),
    });
    assert_eq!(back.current_sound.map(|s| s.len()), Some(65_535));
}

#[test]
fn recovery_flag_only_for_past_fire_times() {
    let past = PersistedState { armed: true, next_fire_unix_ms: Some(999), current_sound: None };
    assert!(evaluate_recovery(&past, 1_000).missed_while_down);
    assert!(evaluate_recovery(&past, 999).missed_while_down);
    assert!(!evaluate_recovery(&past, 998).missed_while_down);
    let disarmed = PersistedState { armed: false, ..past.clone() };
    assert!(!evaluate_recovery(&disarmed, 1_000).missed_while_down);
    let unscheduled = PersistedState { armed: true, next_fire_unix_ms: None, current_sound: None };
    assert!(!evaluate_recovery(&unscheduled, 1_000).missed_while_down);
}

#[test]
fn persistent_state_round_trip_and_recovery_flag() {
    let (mut d, first_recovery) = AlarmDaemon::restore(PersistedState::default(), 2_000);
    assert!(!first_recovery.missed_while_down);
    let _ = d.arm_with_next_fire(Some(1_000));
    assert!(d.current_sound().is_none());
    let stored = encode_state(&d.to_persisted());
    let (_d2, second_recovery) = AlarmDaemon::restore(decode_state(&stored).unwrap(), 2_000);
    assert!(second_recovery.missed_while_down);
}

#[test]
fn current_sound_round_trip_with_persistence() {
    let (mut d, _recovery) = AlarmDaemon::restore(PersistedState::default(), 0);
    let _ = d.arm_with_sound("builtin:collision".to_string(), Some(1_700_000_000_000));
    assert_eq!(d.current_sound().as_deref(), Some("builtin:collision"));
    let stored = encode_state(&d.to_persisted());
    let (mut d2, _recovery2) = AlarmDaemon::restore(decode_state(&stored).unwrap(), 0);
    assert_eq!(d2.current_sound().as_deref(), Some("builtin:collision"));
    let _ = d2.disarm();
    assert!(d2.current_sound().is_none());
}

#[test]
fn persistence_error_messages() {
    assert_eq!(
        PersistenceError::Corrupted("x".to_string()).to_string(),
        "persistence corrupted: x"
    );
    assert_eq!(PersistenceError::Io("y".to_string()).to_string(), "i/o error: y");
}

#[test]
fn bare_body_round_trips_through_both_decoders() {
    let state = PersistedState {
        armed: true,
        next_fire_unix_ms: Some(-5),
        current_sound: Some("custom:watch".to_string()),
    };
    let mut body = Vec::new();
    encode_body_v1(&state, &mut body);
    assert_eq!(body[0], 1);
    for loaded in [decode_body_v1(&body).unwrap(), decode_state(&body).unwrap()] {
        assert!(loaded.armed);
        assert_eq!(loaded.next_fire_unix_ms, Some(-5));
        assert_eq!(loaded.current_sound.as_deref(), Some("custom:watch"));
    }
}

#[test]
fn restart_after_a_past_fire_time_reports_missed() {
    let mut d = AlarmDaemon::new();
    d.arm_with_next_fire(Some(9_000));
    let stored = encode_state(&d.to_persisted());
    let (before, r0) = AlarmDaemon::restore(decode_state(&stored).unwrap(), 8_999);
    assert!(!r0.missed_while_down);
    assert_eq!(before.current_sound(), None);
    let (_, r1) = AlarmDaemon::restore(decode_state(&stored).unwrap(), 9_000);
    assert!(r1.missed_while_down);
    let (_, fresh) = AlarmDaemon::restore(PersistedState::default(), i64::MAX);
    assert!(!fresh.missed_while_down);
}
