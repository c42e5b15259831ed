use narrate_this::error::SdkError;
use narrate_this::render::{
    check_renderable, escape_filter_path, ffmpeg_args, media_file_name, segment_is_image,
    stderr_tail, PreparedMedia, RenderConfig,
};
use narrate_this::types::{AudioTrack, ContentOutput, MediaKind, MediaSegment, MediaSource};

fn output_with_audio(audio: Vec<u8>) -> ContentOutput {
    ContentOutput {
        narration: "n".to_string(),
        audio,
        captions: vec![],
        media_segments: vec![],
        audio_path: None,
        video_path: None,
    }
}

#[test]
fn render_needs_audio() {
    let r = check_renderable(&output_with_audio(vec![]));
    assert!(matches!(r, Err(SdkError::VideoRender(ref m)) if m == "no audio data to render"));
    assert!(check_renderable(&output_with_audio(vec![1])).is_ok());
}

#[test]
fn media_file_names() {
    assert_eq!(media_file_name(3, true), "media_3.jpg");
    assert_eq!(media_file_name(0, false), "media_0.mp4");
}

#[test]
fn filter_paths_are_escaped() {
    assert_eq!(escape_filter_path("C:\\tmp\\subs.srt"), "C\\:/tmp/subs.srt");
}

#[test]
fn segments_are_images_unless_video() {
    let seg = |loc: &str, kind: MediaKind| MediaSegment {
        source: MediaSource::Url(loc.to_string()),
        start_ms: 0,
        end_ms: 1,
        kind,
    };
    assert!(segment_is_image(&seg("https://x/a.jpg", MediaKind::Image)));
    assert!(!segment_is_image(&seg("https://x/clip.mp4", MediaKind::Image)));
    assert!(!segment_is_image(&seg("https://x/a.jpg", MediaKind::Video)));
}

#[test]
fn render_config_defaults() {
    let c = RenderConfig::default();
    assert_eq!((c.width, c.height, c.fps), (1920, 1080, 30));
    assert_eq!(c.output_path, "output.mp4");
    assert!(c.audio_tracks.is_empty());
    let c = c.crf(23).pix_fmt("yuv420p".to_string());
    assert_eq!(c.crf, Some(23));
    assert_eq!(c.pix_fmt.as_deref(), Some("yuv420p"));
}

#[test]
fn ffmpeg_args_for_one_image() {
    let media = vec![PreparedMedia {
        path: "media_0.jpg".to_string(),
        start_ms: 0,
        end_ms: 5000,
        is_image: true,
    }];
    let args = ffmpeg_args(&media, "subs.srt", false, "narr.mp3", &RenderConfig::default());
    let fc = "[0:v]loop=-1:1:0,setpts=N/30/TB,scale=1920:1080:force_original_aspect_ratio=decrease,pad=1920:1080:(ow-iw)/2:(oh-ih)/2[v0]; \
              [v0]concat=n=1:v=1:a=0[vout]; [vout]copy[vfinal]";
    let expected: Vec<String> = [
        "-y", "-i", "media_0.jpg", "-i", "narr.mp3", "-filter_complex", fc, "-map", "[vfinal]",
        "-map", "1:a", "-c:v", "libx264", "-preset", "fast", "-c:a", "aac", "-shortest", "-r",
        "30", "output.mp4",
    ]
    .iter()
    .map(|s| s.to_string())
    .collect();
    assert_eq!(args, expected);
}

#[test]
fn ffmpeg_args_with_subtitles_and_background_track() {
    let media = vec![
        PreparedMedia { path: "media_0.mp4".to_string(), start_ms: 0, end_ms: 2500, is_image: false },
        PreparedMedia { path: "media_1.jpg".to_string(), start_ms: 2500, end_ms: 6000, is_image: true },
    ];
    let mut cfg = RenderConfig::default();
    cfg.audio_tracks = vec![AudioTrack::new("bg.mp3".to_string()).volume(15).start_at(2000).no_loop()];
    let args = ffmpeg_args(&media, "subs.srt", true, "narr.mp3", &cfg);
    let fit = "scale=1920:1080:force_original_aspect_ratio=decrease,pad=1920:1080:(ow-iw)/2:(oh-ih)/2";
    let fc = [
        format!("[0:v]{fit},setpts=PTS-STARTPTS,trim=duration=2.500[v0]"),
        format!("[1:v]loop=-1:1:0,setpts=N/30/TB,{fit}[v1]"),
        "[v0][v1]concat=n=2:v=1:a=0[vout]".to_string(),
        "[vout]subtitles='subs.srt':force_style='FontSize=24,PrimaryColour=&HFFFFFF&'[vfinal]".to_string(),
        "[2:a]volume=1.0[anarr]".to_string(),
        "[3:a]volume=0.15,adelay=2000|2000[at0]".to_string(),
        "[anarr][at0]amix=inputs=2:duration=first:dropout_transition=0:normalize=0[afinal]".to_string(),
    ]
    .join("; ");
    let expected: Vec<String> = [
        "-y", "-i", "media_0.mp4", "-i", "media_1.jpg", "-i", "narr.mp3", "-i", "bg.mp3",
        "-filter_complex", &fc, "-map", "[vfinal]", "-map", "[afinal]", "-c:v", "libx264",
        "-preset", "fast", "-c:a", "aac", "-shortest", "-r", "30", "output.mp4",
    ]
    .iter()
    .map(|s| s.to_string())
    .collect();
    assert_eq!(args, expected);
}

#[test]
fn ffmpeg_args_without_media_use_black_frame() {
    let args = ffmpeg_args(&[], "s.srt", true, "a.mp3", &RenderConfig::default());
    assert_eq!(args[0], "-y");
    assert_eq!(args[1..3], ["-i".to_string(), "a.mp3".to_string()]);
    assert_eq!(
        args[4],
        "color=c=black:s=1920x1080:r=30,subtitles='s.srt':force_style='FontSize=24,PrimaryColour=&HFFFFFF&'[vfinal]"
    );
    assert_eq!(args[8], "0:a");
}

#[test]
fn stderr_tail_keeps_last_characters() {
    assert_eq!(stderr_tail("banner\nerror: bad input", 15), "error: bad input"[1..].to_string());
    assert_eq!(stderr_tail("short", 1000), "short");
    assert_eq!(stderr_tail("aéé", 2), "éé");
}
