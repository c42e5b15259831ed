use narrate_this::codec::{b64_encode, content_hash};
use narrate_this::error::SdkError;
use narrate_this::pipeline::{Command, Event, Mode, Phase, PipelineRun, StageConfig, Step};
use narrate_this::types::{
    CacheCategory, CaptionSegment, ContentSource, MediaKind, MediaSource, PipelineProgress,
    PlannedMedia, TtsResult,
};

fn config() -> StageConfig {
    StageConfig {
        has_content: false,
        transforms: 0,
        has_cache: false,
        has_planner: false,
        has_storage: false,
        has_renderer: false,
    }
}

fn text(s: &str) -> ContentSource {
    ContentSource::Text(s.to_string())
}

fn caption(text: &str, start_ms: u64, duration_ms: u64) -> CaptionSegment {
    CaptionSegment { text: text.to_string(), start_ms, duration_ms }
}

fn speech() -> TtsResult {
    TtsResult {
        audio: vec![1, 2, 3],
        captions: vec![caption("One.", 0, 3000), caption("Two.", 3000, 3000)],
    }
}

#[test]
fn only_tts_synthesizes_text_and_finishes() {
    let (mut run, step) = PipelineRun::start(config(), Mode::Process, text("One. Two."));
    assert!(matches!(step.command, Command::Synthesize));
    assert!(matches!(
        step.progress.as_slice(),
        [
            PipelineProgress::NarrationStarted,
            PipelineProgress::NarrationComplete { narration_len: 9 },
            PipelineProgress::TtsStarted
        ]
    ));
    let step = run.handle(Event::Synthesized(Ok(speech())));
    assert!(matches!(step.command, Command::Finish));
    assert!(matches!(
        step.progress.as_slice(),
        [PipelineProgress::TtsComplete { audio_bytes: 3, caption_count: 2 }]
    ));
    assert_eq!(run.phase(), Phase::Done);
    let out = run.into_output();
    assert_eq!(out.narration, "One. Two.");
    assert_eq!(out.audio, vec![1, 2, 3]);
    assert!(out.media_segments.is_empty());
    assert_eq!((out.audio_path, out.video_path), (None, None));
}

#[test]
fn cache_keys_are_content_hashes() {
    let mut c = config();
    c.has_cache = true;
    let (mut run, step) = PipelineRun::start(c, Mode::Process, text("Hello."));
    let key = content_hash(b"Hello.");
    assert!(matches!(step.command, Command::CacheGet { category: CacheCategory::Narration, key: ref k } if *k == key));
    let step = run.handle(Event::NarrationCached(None));
    assert!(matches!(step.command, Command::CacheSet { category: CacheCategory::Narration, key: ref k } if *k == key));
    let step = run.handle(Event::CacheStored);
    assert!(matches!(step.command, Command::CacheGet { category: CacheCategory::Tts, key: ref k } if *k == key));
    let cached = (b64_encode(b"abc"), vec![caption("Hello.", 0, 900)]);
    let step = run.handle(Event::TtsCached(Some(cached)));
    assert!(matches!(step.command, Command::Finish));
    assert_eq!(run.audio(), &b"abc".to_vec());
    assert_eq!(run.captions().len(), 1);
}

#[test]
fn narration_cache_hit_skips_the_scraper() {
    let mut c = config();
    c.has_cache = true;
    c.has_content = true;
    let source = ContentSource::ArticleUrl { url: "https://e.com/a".to_string(), title: Some("T".to_string()) };
    let (mut run, step) = PipelineRun::start(c, Mode::Process, source);
    let key = content_hash(b"https://e.com/aT");
    assert!(matches!(step.command, Command::CacheGet { category: CacheCategory::Narration, key: ref k } if *k == key));
    let step = run.handle(Event::NarrationCached(Some("Cached story.".to_string())));
    assert!(matches!(step.command, Command::CacheGet { category: CacheCategory::Tts, .. }));
    assert_eq!(run.narration(), "Cached story.");
}

#[test]
fn article_needs_a_content_provider() {
    let source = ContentSource::ArticleUrl { url: "https://e.com/a".to_string(), title: None };
    let (run, step) = PipelineRun::start(config(), Mode::Process, source);
    assert!(matches!(
        step.command,
        Command::Fail(SdkError::Config(ref m)) if m == "content provider required for ArticleUrl source"
    ));
    assert_eq!(run.phase(), Phase::Failed);
    let (_, step) = PipelineRun::start(config(), Mode::Process, ContentSource::SearchQuery("q".to_string()));
    assert!(matches!(
        step.command,
        Command::Fail(SdkError::Config(ref m)) if m == "content provider required for SearchQuery source"
    ));
}

#[test]
fn scraper_is_asked_with_title_hint() {
    let mut c = config();
    c.has_content = true;
    let source = ContentSource::ArticleUrl { url: "https://e.com/a".to_string(), title: Some("T".to_string()) };
    let (mut run, step) = PipelineRun::start(c, Mode::Process, source);
    assert!(matches!(step.command, Command::Scrape { ref url, ref title_hint } if url == "https://e.com/a" && title_hint == "T"));
    let step = run.handle(Event::NarrationFetched(Ok(None)));
    assert_eq!(run.narration(), "T");
    assert!(matches!(step.command, Command::Synthesize));
}

#[test]
fn transforms_run_in_order() {
    let mut c = config();
    c.transforms = 2;
    let (mut run, step) = PipelineRun::start(c, Mode::Process, text("raw"));
    assert!(matches!(step.command, Command::Transform { index: 0 }));
    let step = run.handle(Event::Transformed(Ok("first".to_string())));
    assert!(matches!(step.command, Command::Transform { index: 1 }));
    assert_eq!(run.narration(), "first");
    let step = run.handle(Event::Transformed(Ok("second!".to_string())));
    assert!(matches!(step.command, Command::Synthesize));
    assert!(matches!(
        step.progress.as_slice(),
        [PipelineProgress::TextTransformComplete { narration_len: 7 }, PipelineProgress::TtsStarted]
    ));
}

#[test]
fn provider_errors_end_the_run() {
    let (mut run, _) = PipelineRun::start(config(), Mode::Process, text("x"));
    let step = run.handle(Event::Synthesized(Err(SdkError::Tts("boom".to_string()))));
    assert!(matches!(step.command, Command::Fail(SdkError::Tts(ref m)) if m == "boom"));
    assert_eq!(run.phase(), Phase::Failed);
}

#[test]
fn failed_media_plan_is_not_fatal() {
    let mut c = config();
    c.has_planner = true;
    let (mut run, _) = PipelineRun::start(c, Mode::Process, text("One. Two."));
    let step = run.handle(Event::Synthesized(Ok(speech())));
    assert!(matches!(step.command, Command::Plan));
    assert_eq!(run.chunks().len(), 1);
    let step = run.handle(Event::Planned(Err(SdkError::MediaPlanner("x".to_string()))));
    assert!(matches!(step.command, Command::Finish));
    assert!(matches!(step.progress.as_slice(), [PipelineProgress::MediaSearchComplete { segment_count: 0 }]));
    assert!(run.media_segments().is_empty());
}

#[test]
fn planned_media_takes_chunk_timing() {
    let mut c = config();
    c.has_planner = true;
    let (mut run, _) = PipelineRun::start(c, Mode::Process, text("One. Two."));
    let _ = run.handle(Event::Synthesized(Ok(speech())));
    let plan = vec![Some(PlannedMedia { source: MediaSource::Url("u".to_string()), kind: MediaKind::Video })];
    let step = run.handle(Event::Planned(Ok(plan)));
    assert!(matches!(step.command, Command::Finish));
    let segs = run.media_segments();
    assert_eq!(segs.len(), 1);
    assert_eq!((segs[0].start_ms, segs[0].end_ms), (0, 6000));
    assert!(matches!(
        step.progress.as_slice(),
        [
            PipelineProgress::MediaSegmentFound { index: 0, kind: MediaKind::Video },
            PipelineProgress::MediaSearchComplete { segment_count: 1 }
        ]
    ));
}

#[test]
fn narrate_only_stops_after_narration() {
    let mut c = config();
    c.transforms = 3;
    let (run, step) = PipelineRun::start(c, Mode::NarrateOnly, text("Just this."));
    assert!(matches!(step.command, Command::Finish));
    assert_eq!(run.narration(), "Just this.");
    assert_eq!(run.phase(), Phase::Done);
}

#[test]
fn storage_and_render_paths_are_kept() {
    let mut c = config();
    c.has_storage = true;
    c.has_renderer = true;
    let (mut run, _) = PipelineRun::start(c, Mode::Process, text("x"));
    let step = run.handle(Event::Synthesized(Ok(speech())));
    assert!(matches!(step.command, Command::Store));
    let step = run.handle(Event::Stored(Ok("ab/abc.mp3".to_string())));
    assert!(matches!(step.command, Command::Render));
    assert!(matches!(
        step.progress.as_slice(),
        [PipelineProgress::AudioStored { ref path }, PipelineProgress::RenderStarted] if path == "ab/abc.mp3"
    ));
    let Step { command, .. } = run.handle(Event::Rendered(Ok("out.mp4".to_string())));
    assert!(matches!(command, Command::Finish));
    let out = run.output();
    assert_eq!(out.audio_path.as_deref(), Some("ab/abc.mp3"));
    assert_eq!(out.video_path.as_deref(), Some("out.mp4"));
}
