use narrate_this::storage::{audio_location, FsAudioStorage};

#[test]
fn audio_is_stored_under_its_hash() {
    let loc = audio_location(b"hello world");
    let hash = "b94d27b9934d3e08a52e52d7da7dabfac484efe37a5380ee9088f7ace2efcde9";
    assert_eq!(loc.subdir, "b9");
    assert_eq!(loc.file_name, format!("{hash}.mp3"));
    assert_eq!(loc.rel_path, format!("b9/{hash}.mp3"));
}

#[test]
fn identical_audio_shares_a_path() {
    assert_eq!(audio_location(&[1, 2, 3]).rel_path, audio_location(&[1, 2, 3]).rel_path);
    assert_ne!(audio_location(&[1, 2, 3]).rel_path, audio_location(&[1, 2, 4]).rel_path);
}

#[test]
fn storage_keeps_its_base_dir() {
    let s = FsAudioStorage::new("./audio_cache".to_string());
    assert_eq!(s.base_dir(), "./audio_cache");
}
