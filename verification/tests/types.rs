use narrate_this::types::{
    category_to_str, AudioTrack, CacheCategory, MediaAsset, MediaKind, MediaSource, NarrationStyle,
};

#[test]
fn narration_style_defaults_and_builders() {
    let s = NarrationStyle::default();
    assert_eq!(s.role, "news broadcast scriptwriter");
    assert_eq!(s.persona, "a news anchor");
    assert_eq!(s.tone, "Conversational and engaging");
    let s = s
        .role("podcast host".to_string())
        .persona("a friendly tech enthusiast".to_string())
        .tone("Casual and upbeat".to_string())
        .length("3-5 paragraphs".to_string())
        .structure("Open with a hook".to_string());
    assert_eq!(s.role, "podcast host");
    assert_eq!(s.persona, "a friendly tech enthusiast");
    assert_eq!(s.tone, "Casual and upbeat");
    assert_eq!(s.length, "3-5 paragraphs");
    assert_eq!(s.structure, "Open with a hook");
}

#[test]
fn display_short_of_sources() {
    let long = format!("https://example.com/{}", "a".repeat(100));
    let shown = MediaSource::Url(long.clone()).display_short();
    assert_eq!(shown, format!("{}…", &long[..80]));
    let short = "https://example.com/a.jpg".to_string();
    assert_eq!(MediaSource::Url(short.clone()).display_short(), short);
    assert_eq!(MediaSource::FilePath("./hero.jpg".to_string()).display_short(), "./hero.jpg");
    assert_eq!(MediaSource::Bytes(vec![1, 2, 3]).display_short(), "<3 bytes>");
}

#[test]
fn display_short_counts_characters_not_bytes() {
    let wide = "é".repeat(41);
    assert_eq!(MediaSource::Url(wide.clone()).display_short(), wide);
    let long = "é".repeat(81);
    assert_eq!(MediaSource::Url(long).display_short(), format!("{}…", "é".repeat(80)));
    let exact = "x".repeat(80);
    assert_eq!(MediaSource::Url(exact.clone()).display_short(), exact);
}

#[test]
fn locations_become_urls_or_paths() {
    assert!(matches!(MediaSource::from_location("https://x/a.jpg".to_string()), MediaSource::Url(_)));
    assert!(matches!(MediaSource::from_location("http://x/a.jpg".to_string()), MediaSource::Url(_)));
    assert!(matches!(MediaSource::from_location("./a.jpg".to_string()), MediaSource::FilePath(_)));
    assert!(matches!(MediaSource::from_location("httpx".to_string()), MediaSource::FilePath(_)));
}

#[test]
fn audio_track_builders() {
    let t = AudioTrack::new("./music.mp3".to_string());
    assert_eq!(t.volume_percent, 30);
    assert!(t.loop_track);
    assert_eq!((t.start_ms, t.end_ms), (None, None));
    let t = t.volume(15).start_at(2000).end_at(9000).no_loop();
    assert_eq!(t.volume_percent, 15);
    assert_eq!((t.start_ms, t.end_ms), (Some(2000), Some(9000)));
    assert!(!t.loop_track);
    assert_eq!(AudioTrack::new("m".to_string()).volume(250).volume_percent, 100);
}

#[test]
fn media_asset_constructors() {
    let a = MediaAsset::image(MediaSource::FilePath("./hero.jpg".to_string()), "A rocket".to_string());
    assert_eq!(a.kind, MediaKind::Image);
    assert_eq!(a.description, "A rocket");
    let v = MediaAsset::video(MediaSource::Url("https://x/d.mp4".to_string()), "Demo".to_string());
    assert_eq!(v.kind, MediaKind::Video);
    let b = MediaAsset::image_bytes(vec![9, 9], "Shot".to_string());
    assert!(matches!(b.source, MediaSource::Bytes(ref d) if d == &vec![9, 9]));
    assert_eq!(b.kind, MediaKind::Image);
    let vb = MediaAsset::video_bytes(vec![1], "Clip".to_string());
    assert_eq!(vb.kind, MediaKind::Video);
}

#[test]
fn cache_categories_by_name() {
    assert_eq!(category_to_str(&CacheCategory::Narration), "narration");
    assert_eq!(category_to_str(&CacheCategory::Tts), "tts");
    assert_eq!(category_to_str(&CacheCategory::Media), "media");
    assert_eq!(MediaKind::default(), MediaKind::Image);
}
