use narrate_this::pexels::{pick_best_video_file, photo_results, video_results, VideoFile};
use narrate_this::types::MediaKind;

fn file(quality: Option<&str>, file_type: Option<&str>, width: Option<u32>, link: &str) -> VideoFile {
    VideoFile {
        quality: quality.map(|s| s.to_string()),
        file_type: file_type.map(|s| s.to_string()),
        width,
        link: link.to_string(),
    }
}

#[test]
fn best_file_is_smallest_sd_mp4() {
    let files = vec![
        file(Some("hd"), Some("video/mp4"), Some(640), "hd640"),
        file(Some("sd"), Some("video/mp4"), Some(960), "sd960"),
        file(Some("sd"), Some("video/mp4"), Some(640), "sd640"),
        file(Some("sd"), Some("video/webm"), Some(320), "webm"),
    ];
    assert_eq!(pick_best_video_file(&files).as_deref(), Some("sd640"));
}

#[test]
fn best_file_falls_back_to_any_mp4() {
    let files = vec![
        file(Some("hd"), Some("video/mp4"), None, "nowidth"),
        file(Some("hd"), Some("video/mp4"), Some(1280), "hd1280"),
        file(None, Some("video/quicktime"), Some(100), "mov"),
    ];
    assert_eq!(pick_best_video_file(&files).as_deref(), Some("hd1280"));
    let ties = vec![
        file(Some("sd"), Some("video/mp4"), Some(640), "first"),
        file(Some("sd"), Some("video/mp4"), Some(640), "second"),
    ];
    assert_eq!(pick_best_video_file(&ties).as_deref(), Some("first"));
    assert_eq!(pick_best_video_file(&[file(None, None, None, "x")]), None);
}

#[test]
fn video_results_take_at_most_count() {
    let videos = vec![
        vec![file(Some("sd"), Some("video/mp4"), Some(640), "v1")],
        vec![file(None, Some("image/gif"), None, "none")],
        vec![file(Some("hd"), Some("video/mp4"), Some(1920), "v3")],
        vec![file(Some("sd"), Some("video/mp4"), Some(640), "v4")],
    ];
    let r = video_results(&videos, 2);
    let urls: Vec<&str> = r.iter().map(|x| x.url.as_str()).collect();
    assert_eq!(urls, vec!["v1", "v3"]);
    assert!(r.iter().all(|x| x.kind == MediaKind::Video));
}

#[test]
fn photos_are_images() {
    let photos = photo_results(vec!["p1".to_string(), "p2".to_string()]);
    assert_eq!(photos.len(), 2);
    assert_eq!(photos[1].url, "p2");
    assert!(photos.iter().all(|x| x.kind == MediaKind::Image));
}
