use alarm_daemon::audio::{
    channel_count, check_custom_sound, check_sample_layout, frame_count, sample_rate_of, AudioError, Ramp, SoundFormat, MAX_CUSTOM_SOUND_BYTES};
use alarm_daemon::time::Duration;

#[test]
fn ramp_rejects_durations_outside_2_to_10_seconds() {
    assert!(Ramp::linear(Duration::from_millis(1999)).is_err());
    assert!(Ramp::linear(Duration::from_millis(10_001)).is_err());
    assert!(Ramp::linear(Duration::from_secs(2)).is_ok());
    assert!(Ramp::linear(Duration::from_secs(10)).is_ok());
}

#[test]
fn linear_ramp_keeps_its_duration() {
    assert_eq!(
        Ramp::linear(Duration::from_secs(4)).ok(),
        Some(Ramp::Linear { duration: Duration::from_secs(4) })
    );
    assert_eq!(Ramp::immediate(), Ramp::Immediate);
}

#[test]
fn invalid_ramp_message_shows_the_duration() {
    let err = Ramp::linear(Duration::from_millis(1999)).unwrap_err();
    assert_eq!(
        err.to_string(),
        "invalid ramp duration: must be 2..=10 seconds, got 1.999s"
    );
}

#[test]
fn rejects_unsupported_bytes() {
    let err = check_custom_sound(b"not-a-wave").unwrap_err();
    assert!(matches!(err, AudioError::UnsupportedFormat(_)));
}

#[test]
fn sniffs_wav_and_flac() {
    let mut wav = Vec::new();
    wav.extend_from_slice(b"RIFF");
    wav.extend_from_slice(&[0, 0, 0, 0]);
    wav.extend_from_slice(b"WAVE");
    assert_eq!(SoundFormat::sniff(&wav).ok(), Some(SoundFormat::Wav));
    assert_eq!(SoundFormat::sniff(b"fLaC").ok(), Some(SoundFormat::Flac));
    assert!(SoundFormat::sniff(b"RIFF").is_err());
}

#[test]
fn rejects_oversized_sound() {
    let data = vec![0u8; MAX_CUSTOM_SOUND_BYTES + 1];
    match check_custom_sound(&data) {
        Err(AudioError::SoundTooLarge { size, max }) => {
            assert_eq!(size, MAX_CUSTOM_SOUND_BYTES + 1);
            assert_eq!(max, MAX_CUSTOM_SOUND_BYTES);
        }
        other => panic!("unexpected {other:?}"),
    }
}

#[test]
fn audio_error_messages() {
    assert_eq!(
        AudioError::UnknownSound("builtin:x".to_string()).to_string(),
        "unknown sound id: builtin:x"
    );
    assert_eq!(
        AudioError::SoundTooLarge { size: 10, max: 5 }.to_string(),
        "sound is too large: 10 bytes (max 5 bytes)"
    );
    assert_eq!(SoundFormat::Flac.extension(), "flac");
}

fn decode_message(r: Result<(), AudioError>) -> String {
    match r {
        Err(AudioError::Decode(m)) => m,
        other => panic!("unexpected {other:?}"),
    }
}

#[test]
fn decoded_layout_checks() {
    assert_eq!(sample_rate_of(Some(44_100)).unwrap(), 44_100);
    assert_eq!(decode_message(sample_rate_of(None).map(|_| ())), "unknown sample rate");
    assert_eq!(channel_count(Some(2)).unwrap(), 2);
    assert_eq!(channel_count(Some(65_535)).unwrap(), 65_535);
    for bad in [None, Some(0), Some(65_536)] {
        assert_eq!(
            decode_message(channel_count(bad).map(|_| ())),
            "unknown or invalid channel layout"
        );
    }
    assert!(check_sample_layout(960, 2).is_ok());
    assert_eq!(decode_message(check_sample_layout(0, 2)), "decoded zero samples");
    assert_eq!(
        decode_message(check_sample_layout(961, 2)),
        "decoded 961 samples, not a multiple of 2 channels"
    );
    assert_eq!(frame_count(960, 2), 480);
    assert_eq!(frame_count(4_410, 1), 4_410);
}
