use alarm_daemon::audio::{AudioError, SoundFormat};
use alarm_daemon::sounds::{SoundFile, SoundLibrary, SoundSource};

fn file(name: &str, bytes: u64) -> SoundFile {
    SoundFile { name: name.to_string(), bytes }
}

fn lib() -> SoundLibrary {
    SoundLibrary::new("/usr/share/helm/sounds".to_string(), "/var/lib/helm/sounds".to_string())
}

#[test]
fn format_follows_the_last_extension() {
    assert_eq!(SoundFormat::from_file_name("collision.wav"), Some(SoundFormat::Wav));
    assert_eq!(SoundFormat::from_file_name("a.b.flac"), Some(SoundFormat::Flac));
    assert_eq!(SoundFormat::from_file_name(".wav"), None);
    assert_eq!(SoundFormat::from_file_name("notes.txt"), None);
    assert_eq!(SoundFormat::from_file_name("wav"), None);
    assert_eq!(SoundFormat::from_file_name("x.WAV"), None);
}

#[test]
fn lists_builtins_before_customs_sorted_by_id() {
    let builtin = vec![file("zulu.wav", 10), file("readme.txt", 3), file("alpha.flac", 20)];
    let custom = vec![file("aaa.wav", 5)];
    let listed = lib().list_sounds(&builtin, &custom);
    let ids: Vec<&str> = listed.iter().map(|s| s.id.as_str()).collect();
    assert_eq!(ids, vec!["builtin:alpha", "builtin:zulu", "custom:aaa"]);
    assert_eq!(listed[0].name, "alpha");
    assert_eq!(listed[0].bytes, 20);
    assert_eq!(listed[0].source, SoundSource::Builtin);
    assert_eq!(listed[2].source, SoundSource::Custom);
}

#[test]
fn later_file_with_the_same_id_wins() {
    let builtin = vec![file("dup.wav", 1), file("dup.flac", 2)];
    let listed = lib().list_sounds(&builtin, &Vec::new());
    assert_eq!(listed.len(), 1);
    assert_eq!(listed[0].id, "builtin:dup");
    assert_eq!(listed[0].bytes, 2);
}

#[test]
fn resolves_wav_before_flac() {
    let l = lib();
    let both = vec![
        "/usr/share/helm/sounds/collision.flac".to_string(),
        "/usr/share/helm/sounds/collision.wav".to_string(),
    ];
    assert_eq!(
        l.resolve_path("builtin:collision", &both).unwrap(),
        "/usr/share/helm/sounds/collision.wav"
    );
    let flac_only = vec!["/var/lib/helm/sounds/watch.flac".to_string()];
    assert_eq!(
        l.resolve_path("custom:watch", &flac_only).unwrap(),
        "/var/lib/helm/sounds/watch.flac"
    );
}

#[test]
fn resolve_errors() {
    let l = lib();
    match l.resolve_path("builtin:missing", &Vec::new()) {
        Err(AudioError::UnknownSound(m)) => assert_eq!(m, "builtin:missing"),
        other => panic!("unexpected {other:?}"),
    }
    match l.resolve_path("other:x", &Vec::new()) {
        Err(AudioError::InvalidSoundId(m)) => assert_eq!(m, "other:x"),
        other => panic!("unexpected {other:?}"),
    }
}

#[test]
fn candidate_paths_follow_path_joining() {
    let l = SoundLibrary::new("/b/".to_string(), "".to_string());
    assert_eq!(
        l.candidate_paths("builtin:x"),
        vec!["/b/x.wav".to_string(), "/b/x.flac".to_string()]
    );
    assert_eq!(
        l.candidate_paths("custom:y"),
        vec!["y.wav".to_string(), "y.flac".to_string()]
    );
    assert!(l.candidate_paths("builtin:/etc/z").is_empty());
    assert!(l.candidate_paths("custom:../y").is_empty());
    assert!(l.candidate_paths("nope").is_empty());
}

#[test]
fn path_like_names_are_invalid_ids() {
    let l = lib();
    let escape = vec![
        "/usr/share/helm/sounds/../../etc/x.wav".to_string(),
        "/etc/x.wav".to_string(),
        "/usr/share/helm/sounds/a/b.wav".to_string(),
        "/var/lib/helm/sounds/.wav".to_string(),
    ];
    for id in ["builtin:../../etc/x", "builtin:/etc/x", "builtin:a/b", "custom:", "custom:x..y"] {
        match l.resolve_path(id, &escape) {
            Err(AudioError::InvalidSoundId(m)) => assert_eq!(m, id),
            other => panic!("unexpected {other:?} for {id}"),
        }
    }
    let dotted = vec!["/var/lib/helm/sounds/x.y.wav".to_string()];
    assert_eq!(l.resolve_path("custom:x.y", &dotted).unwrap(), "/var/lib/helm/sounds/x.y.wav");
}

#[test]
fn resolve_in_refuses_path_like_names() {
    match SoundLibrary::resolve_in("/d", "custom", "../x", &vec!["/x.wav".to_string()]) {
        Err(AudioError::InvalidSoundId(m)) => assert_eq!(m, "custom:../x"),
        other => panic!("unexpected {other:?}"),
    }
}

#[test]
fn listing_leaves_out_names_that_cannot_be_armed() {
    let l = lib();
    let builtin = vec![file("a..b.wav", 1), file("ok.wav", 2), file("x.y.flac", 3)];
    let listed = l.list_sounds(&builtin, &Vec::new());
    let ids: Vec<&str> = listed.iter().map(|s| s.id.as_str()).collect();
    assert_eq!(ids, vec!["builtin:ok", "builtin:x.y"]);
    let present = vec![
        "/usr/share/helm/sounds/ok.wav".to_string(),
        "/usr/share/helm/sounds/x.y.flac".to_string(),
    ];
    for s in &listed {
        assert!(l.resolve_path(&s.id, &present).is_ok());
    }
}
