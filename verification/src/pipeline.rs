//! The decisions of a pipeline run, as a state machine.
//!
//! A run goes narration → text transforms → TTS → media → audio storage →
//! video render. Each stage that needs outside work (a cache, a scraper, a
//! TTS engine, a media planner, storage, a renderer) is asked for by a
//! [`Command`]; the caller performs it and hands the result back to the
//! matching handler, which decides what comes next.
use vstd::prelude::*;

use crate::chunks::{captions_in_range, chunks_view, group_chunks, split_into_timed_chunks};
use crate::codec::{b64_decode_or_empty, content_hash, decoded_or_empty, hex_lower, sha256};
use crate::error::SdkError;
use crate::sentences::sentences;
use crate::types::{
    CacheCategory, CaptionSegment, ContentOutput, ContentSource, MediaSegment, PipelineProgress,
    PlannedMedia, TimedChunk, TtsResult,
};
use vstd::utf8::encode_utf8;

verus! {

/// Which optional stages a pipeline has.
#[derive(Debug, Clone, Copy, PartialEq, Eq, Structural)]
pub struct StageConfig {
    /// A content provider (scraper) is set.
    pub has_content: bool,
    /// Number of text transforms, applied in order.
    pub transforms: usize,
    /// A cache is set.
    pub has_cache: bool,
    /// A media planner is set.
    pub has_planner: bool,
    /// An audio storage is set.
    pub has_storage: bool,
    /// A video renderer is set.
    pub has_renderer: bool,
}

/// What a run produces: the full output, or the narration only.
#[derive(Debug, Clone, Copy, PartialEq, Eq, Structural)]
pub enum Mode {
    Process,
    NarrateOnly,
}

/// Where a run stands: the stage whose outside result it waits for.
#[derive(Debug, Clone, Copy, PartialEq, Eq, Structural)]
pub enum Phase {
    NarrationLookup,
    NarrationFetch,
    NarrationStore,
    Transforming(usize),
    TtsLookup,
    Synthesizing,
    TtsStore,
    MediaLookup,
    Planning,
    MediaStore,
    Storing,
    Rendering,
    Done,
    Failed,
}

/// The outside work a run asks for next.
#[derive(Debug)]
pub enum Command {
    /// Look `key` up in the cache under `category`.
    CacheGet { category: CacheCategory, key: String },
    /// Store under `key` and `category`: the narration, the speech (audio and
    /// captions) or the media segments of the run, as the category says.
    CacheSet { category: CacheCategory, key: String },
    /// Scrape the article at `url` into narration.
    Scrape { url: String, title_hint: String },
    /// Search the web for `query` and narrate the results.
    Search { query: String },
    /// Apply text transform number `index` to the current narration.
    Transform { index: usize },
    /// Synthesize speech for the current narration.
    Synthesize,
    /// Ask the media planner for media for the run's chunks.
    Plan,
    /// Store the run's audio.
    Store,
    /// Render the run's output.
    Render,
    /// The run is complete.
    Finish,
    /// The run failed with this error.
    Fail(SdkError),
}

/// Progress events to report, then the next command.
#[derive(Debug)]
pub struct Step {
    pub progress: Vec<PipelineProgress>,
    pub command: Command,
}

/// An error as the specification sees it: configuration errors by message,
/// every other error as itself.
pub enum ErrModel {
    Config(Seq<char>),
    Other(SdkError),
}

pub open spec fn err_model(e: SdkError) -> ErrModel {
    match e {
        SdkError::Config(m) => ErrModel::Config(m@),
        _ => ErrModel::Other(e),
    }
}

/// A command as the specification sees it.
pub enum CommandModel {
    CacheGet { category: CacheCategory, key: Seq<char> },
    CacheSet { category: CacheCategory, key: Seq<char> },
    Scrape { url: Seq<char>, title_hint: Seq<char> },
    Search { query: Seq<char> },
    Transform { index: usize },
    Synthesize,
    Plan,
    Store,
    Render,
    Finish,
    Fail(ErrModel),
}

pub open spec fn command_model(c: Command) -> CommandModel {
    match c {
        Command::CacheGet { category, key } => CommandModel::CacheGet { category, key: key@ },
        Command::CacheSet { category, key } => CommandModel::CacheSet { category, key: key@ },
        Command::Scrape { url, title_hint } => CommandModel::Scrape {
            url: url@,
            title_hint: title_hint@,
        },
        Command::Search { query } => CommandModel::Search { query: query@ },
        Command::Transform { index } => CommandModel::Transform { index },
        Command::Synthesize => CommandModel::Synthesize,
        Command::Plan => CommandModel::Plan,
        Command::Store => CommandModel::Store,
        Command::Render => CommandModel::Render,
        Command::Finish => CommandModel::Finish,
        Command::Fail(e) => CommandModel::Fail(err_model(e)),
    }
}

/// The state of a run, as the specification sees it.
pub struct RunModel {
    pub config: StageConfig,
    pub mode: Mode,
    pub source: ContentSource,
    pub phase: Phase,
    pub narration_key: Seq<char>,
    pub narration: Seq<char>,
    pub audio: Seq<u8>,
    pub captions: Seq<CaptionSegment>,
    pub tts_key: Seq<char>,
    pub chunks: Seq<(Seq<char>, int, int)>,
    pub segments: Seq<MediaSegment>,
    pub audio_path: Option<Seq<char>>,
    pub video_path: Option<Seq<char>>,
}

/// The run after a step, what it reports, and what it asks for.
pub struct Outcome {
    pub run: RunModel,
    pub progress: Seq<PipelineProgress>,
    pub command: CommandModel,
}

/// Content hash of a text: SHA-256 of its UTF-8 bytes in lower-case hex.
pub open spec fn hash_of(text: Seq<char>) -> Seq<char> {
    hex_lower(sha256(encode_utf8(text)))
}

/// The text whose hash keys the narration cache: the text itself, the URL
/// followed by the title (if any), or the query.
pub open spec fn narration_input(source: ContentSource) -> Seq<char> {
    match source {
        ContentSource::Text(t) => t@,
        ContentSource::ArticleUrl { url, title } => url@ + match title {
            Some(t) => t@,
            None => Seq::empty(),
        },
        ContentSource::SearchQuery(q) => q@,
    }
}

/// The narration of a fetch: what the provider gave, or else the title, the
/// URL or the query.
pub open spec fn fetched_narration(source: ContentSource, got: Option<String>) -> Seq<char> {
    match got {
        Some(n) => n@,
        None => match source {
            ContentSource::Text(t) => t@,
            ContentSource::ArticleUrl { url, title } => match title {
                Some(t) => t@,
                None => url@,
            },
            ContentSource::SearchQuery(q) => q@,
        },
    }
}

/// Byte length of a text in UTF-8, as `String::len` reports it.
pub open spec fn byte_len(s: Seq<char>) -> usize {
    encode_utf8(s).len() as usize
}

/// The media segment for chunk `i` if the plan has media for it.
pub open spec fn planned_segments(
    chunks: Seq<(Seq<char>, int, int)>,
    plans: Seq<Option<PlannedMedia>>,
    n: nat,
) -> Seq<MediaSegment>
    decreases n,
{
    if n == 0 {
        Seq::empty()
    } else {
        let prev = planned_segments(chunks, plans, (n - 1) as nat);
        match plans[n - 1] {
            Some(pm) => prev.push(
                MediaSegment {
                    source: pm.source,
                    start_ms: chunks[n - 1].1 as u64,
                    end_ms: chunks[n - 1].2 as u64,
                    kind: pm.kind,
                },
            ),
            None => prev,
        }
    }
}

/// A `MediaSegmentFound` event for each chunk the plan has media for.
pub open spec fn found_events(plans: Seq<Option<PlannedMedia>>, n: nat) -> Seq<PipelineProgress>
    decreases n,
{
    if n == 0 {
        Seq::empty()
    } else {
        let prev = found_events(plans, (n - 1) as nat);
        match plans[n - 1] {
            Some(pm) => prev.push(
                PipelineProgress::MediaSegmentFound { index: (n - 1) as usize, kind: pm.kind },
            ),
            None => prev,
        }
    }
}

pub open spec fn min_len(a: nat, b: nat) -> nat {
    if a < b {
        a
    } else {
        b
    }
}

pub open spec fn with_phase(m: RunModel, p: Phase) -> RunModel {
    RunModel { phase: p, ..m }
}

pub open spec fn outcome(m: RunModel, progress: Seq<PipelineProgress>, command: CommandModel) -> Outcome {
    Outcome { run: m, progress, command }
}

pub open spec fn fail(m: RunModel, progress: Seq<PipelineProgress>, e: ErrModel) -> Outcome {
    outcome(with_phase(m, Phase::Failed), progress, CommandModel::Fail(e))
}

/// Rendering, if a renderer is set; else the run is done.
pub open spec fn begin_render(m: RunModel, p: Seq<PipelineProgress>) -> Outcome {
    if m.config.has_renderer {
        outcome(
            with_phase(m, Phase::Rendering),
            p.push(PipelineProgress::RenderStarted),
            CommandModel::Render,
        )
    } else {
        outcome(with_phase(m, Phase::Done), p, CommandModel::Finish)
    }
}

/// Audio storage, if a storage is set; else rendering.
pub open spec fn begin_storage(m: RunModel, p: Seq<PipelineProgress>) -> Outcome {
    if m.config.has_storage {
        outcome(
            with_phase(m, Phase::Storing),
            p.push(PipelineProgress::AudioStorageStarted),
            CommandModel::Store,
        )
    } else {
        begin_render(m, p)
    }
}

/// Chunking of the narration; planning when there are chunks, else no media.
pub open spec fn begin_chunking(m: RunModel, p: Seq<PipelineProgress>) -> Outcome {
    let c = group_chunks(sentences(m.narration), m.captions);
    if c.len() == 0 {
        begin_storage(RunModel { chunks: c, segments: Seq::empty(), ..m }, p)
    } else {
        outcome(
            RunModel { chunks: c, phase: Phase::Planning, ..m },
            p.push(PipelineProgress::MediaSearchStarted { chunk_count: c.len() as usize }),
            CommandModel::Plan,
        )
    }
}

/// Media: none without a planner, narration or captions; else a cache
/// lookup (keyed by the narration hash) when a cache is set, else chunking.
pub open spec fn begin_media(m: RunModel, p: Seq<PipelineProgress>) -> Outcome {
    if !m.config.has_planner || m.narration.len() == 0 || m.captions.len() == 0 {
        begin_storage(RunModel { segments: Seq::empty(), ..m }, p)
    } else if m.config.has_cache {
        outcome(
            with_phase(m, Phase::MediaLookup),
            p,
            CommandModel::CacheGet { category: CacheCategory::Media, key: m.tts_key },
        )
    } else {
        begin_chunking(m, p)
    }
}

/// Speech is known: report it and go on to media.
pub open spec fn tts_done(m: RunModel, p: Seq<PipelineProgress>) -> Outcome {
    begin_media(
        m,
        p.push(
            PipelineProgress::TtsComplete {
                audio_bytes: m.audio.len() as usize,
                caption_count: m.captions.len() as usize,
            },
        ),
    )
}

/// Speech: keyed by the narration hash; a cache lookup when a cache is set,
/// else synthesis.
pub open spec fn begin_tts(m: RunModel, p: Seq<PipelineProgress>) -> Outcome {
    let key = hash_of(m.narration);
    let m2 = RunModel { tts_key: key, ..m };
    let p2 = p.push(PipelineProgress::TtsStarted);
    if m.config.has_cache {
        outcome(
            with_phase(m2, Phase::TtsLookup),
            p2,
            CommandModel::CacheGet { category: CacheCategory::Tts, key },
        )
    } else {
        outcome(with_phase(m2, Phase::Synthesizing), p2, CommandModel::Synthesize)
    }
}

/// Narration is known: done when only narration is wanted; else the first
/// text transform, if any, else speech.
pub open spec fn after_narration(m: RunModel, p: Seq<PipelineProgress>) -> Outcome {
    if m.mode == Mode::NarrateOnly {
        outcome(with_phase(m, Phase::Done), p, CommandModel::Finish)
    } else if m.config.transforms > 0 {
        outcome(
            with_phase(m, Phase::Transforming(0)),
            p.push(PipelineProgress::TextTransformStarted),
            CommandModel::Transform { index: 0 },
        )
    } else {
        begin_tts(m, p)
    }
}

/// A freshly fetched narration: cached when a cache is set, else reported.
pub open spec fn fetched(m: RunModel, p: Seq<PipelineProgress>) -> Outcome {
    if m.config.has_cache {
        outcome(
            with_phase(m, Phase::NarrationStore),
            p,
            CommandModel::CacheSet { category: CacheCategory::Narration, key: m.narration_key },
        )
    } else {
        after_narration(
            m,
            p.push(PipelineProgress::NarrationComplete { narration_len: byte_len(m.narration) }),
        )
    }
}

/// Getting narration: raw text is the narration; an article or a search
/// goes to the content provider, and fails without one.
pub open spec fn begin_fetch(m: RunModel, p: Seq<PipelineProgress>) -> Outcome {
    match m.source {
        ContentSource::Text(t) => fetched(RunModel { narration: t@, ..m }, p),
        ContentSource::ArticleUrl { url, title } => if m.config.has_content {
            outcome(
                with_phase(m, Phase::NarrationFetch),
                p,
                CommandModel::Scrape {
                    url: url@,
                    title_hint: match title {
                        Some(t) => t@,
                        None => Seq::empty(),
                    },
                },
            )
        } else {
            fail(m, p, ErrModel::Config("content provider required for ArticleUrl source"@))
        },
        ContentSource::SearchQuery(q) => if m.config.has_content {
            outcome(with_phase(m, Phase::NarrationFetch), p, CommandModel::Search { query: q@ })
        } else {
            fail(m, p, ErrModel::Config("content provider required for SearchQuery source"@))
        },
    }
}

/// The state of a new run.
pub open spec fn initial_model(config: StageConfig, mode: Mode, source: ContentSource) -> RunModel {
    RunModel {
        config,
        mode,
        source,
        phase: Phase::NarrationLookup,
        narration_key: hash_of(narration_input(source)),
        narration: Seq::empty(),
        audio: Seq::empty(),
        captions: Seq::empty(),
        tts_key: Seq::empty(),
        chunks: Seq::empty(),
        segments: Seq::empty(),
        audio_path: None,
        video_path: None,
    }
}

/// Start: report that narration started; look the narration up in the cache
/// when there is one, else fetch it.
pub open spec fn start_spec(config: StageConfig, mode: Mode, source: ContentSource) -> Outcome {
    let m = initial_model(config, mode, source);
    let p = seq![PipelineProgress::NarrationStarted];
    if config.has_cache {
        outcome(
            m,
            p,
            CommandModel::CacheGet { category: CacheCategory::Narration, key: m.narration_key },
        )
    } else {
        begin_fetch(m, p)
    }
}

/// A narration cache answer: a hit is the narration; a miss fetches it.
pub open spec fn on_narration_cached(m: RunModel, v: Option<String>) -> Outcome {
    match v {
        Some(s) => after_narration(
            RunModel { narration: s@, ..m },
            seq![PipelineProgress::NarrationComplete { narration_len: byte_len(s@) }],
        ),
        None => begin_fetch(m, Seq::empty()),
    }
}

/// A content provider answer: its narration, or the fallback when it had
/// none; its error ends the run.
pub open spec fn on_narration_fetched(m: RunModel, r: Result<Option<String>, SdkError>) -> Outcome {
    match r {
        Ok(got) => fetched(
            RunModel { narration: fetched_narration(m.source, got), ..m },
            Seq::empty(),
        ),
        Err(e) => fail(m, Seq::empty(), err_model(e)),
    }
}

/// A text transform answer: the new narration goes to the next transform,
/// or to speech after the last; an error ends the run.
pub open spec fn on_transformed(m: RunModel, i: usize, r: Result<String, SdkError>) -> Outcome {
    match r {
        Ok(t) => {
            let m2 = RunModel { narration: t@, ..m };
            if i + 1 < m.config.transforms {
                outcome(
                    with_phase(m2, Phase::Transforming((i + 1) as usize)),
                    Seq::empty(),
                    CommandModel::Transform { index: (i + 1) as usize },
                )
            } else {
                begin_tts(
                    m2,
                    seq![PipelineProgress::TextTransformComplete { narration_len: byte_len(t@) }],
                )
            }
        },
        Err(e) => fail(m, Seq::empty(), err_model(e)),
    }
}

/// A speech cache answer: a hit gives the decoded audio (none when it does
/// not decode) and the captions; a miss synthesizes.
pub open spec fn on_tts_cached(m: RunModel, v: Option<(String, Vec<CaptionSegment>)>) -> Outcome {
    match v {
        Some((b, caps)) => tts_done(
            RunModel { audio: decoded_or_empty(b@), captions: caps@, ..m },
            Seq::empty(),
        ),
        None => outcome(with_phase(m, Phase::Synthesizing), Seq::empty(), CommandModel::Synthesize),
    }
}

/// A synthesis answer: audio and captions, cached when a cache is set; an
/// error ends the run.
pub open spec fn on_synthesized(m: RunModel, r: Result<TtsResult, SdkError>) -> Outcome {
    match r {
        Ok(res) => {
            let m2 = RunModel { audio: res.audio@, captions: res.captions@, ..m };
            if m.config.has_cache {
                outcome(
                    with_phase(m2, Phase::TtsStore),
                    Seq::empty(),
                    CommandModel::CacheSet { category: CacheCategory::Tts, key: m.tts_key },
                )
            } else {
                tts_done(m2, Seq::empty())
            }
        },
        Err(e) => fail(m, Seq::empty(), err_model(e)),
    }
}

/// A media cache answer: a hit gives the segments; a miss chunks the narration.
pub open spec fn on_media_cached(m: RunModel, v: Option<Vec<MediaSegment>>) -> Outcome {
    match v {
        Some(segs) => begin_storage(
            RunModel { segments: segs@, ..m },
            seq![PipelineProgress::MediaSearchComplete { segment_count: segs@.len() as usize }],
        ),
        None => begin_chunking(m, Seq::empty()),
    }
}

/// A media plan: a segment with the chunk's timing for each chunk that got
/// media, cached when a cache is set; a failed plan leaves the run without
/// media and goes on.
pub open spec fn on_planned(m: RunModel, r: Result<Vec<Option<PlannedMedia>>, SdkError>) -> Outcome {
    match r {
        Ok(plans) => {
            let n = min_len(m.chunks.len(), plans@.len());
            let segs = planned_segments(m.chunks, plans@, n);
            let found = found_events(plans@, n);
            if m.config.has_cache {
                outcome(
                    RunModel { segments: segs, phase: Phase::MediaStore, ..m },
                    found,
                    CommandModel::CacheSet { category: CacheCategory::Media, key: m.tts_key },
                )
            } else {
                begin_storage(
                    RunModel { segments: segs, ..m },
                    found.push(
                        PipelineProgress::MediaSearchComplete { segment_count: segs.len() as usize },
                    ),
                )
            }
        },
        Err(_) => begin_storage(
            RunModel { segments: Seq::empty(), ..m },
            seq![PipelineProgress::MediaSearchComplete { segment_count: 0 }],
        ),
    }
}

/// A cache write is done: the stage it belonged to goes on.
pub open spec fn on_cache_stored(m: RunModel) -> Outcome {
    match m.phase {
        Phase::NarrationStore => after_narration(
            m,
            seq![PipelineProgress::NarrationComplete { narration_len: byte_len(m.narration) }],
        ),
        Phase::TtsStore => tts_done(m, Seq::empty()),
        _ => begin_storage(
            m,
            seq![PipelineProgress::MediaSearchComplete { segment_count: m.segments.len() as usize }],
        ),
    }
}

/// An audio storage answer: its path is reported and kept; an error ends the run.
pub open spec fn on_stored(m: RunModel, r: Result<String, SdkError>) -> Outcome {
    match r {
        Ok(p) => begin_render(
            RunModel { audio_path: Some(p@), ..m },
            seq![PipelineProgress::AudioStored { path: p }],
        ),
        Err(e) => fail(m, Seq::empty(), err_model(e)),
    }
}

/// A render answer: the video path completes the run; an error ends it.
pub open spec fn on_rendered(m: RunModel, r: Result<String, SdkError>) -> Outcome {
    match r {
        Ok(p) => outcome(
            RunModel { video_path: Some(p@), phase: Phase::Done, ..m },
            seq![PipelineProgress::RenderComplete { path: p }],
            CommandModel::Finish,
        ),
        Err(e) => fail(m, Seq::empty(), err_model(e)),
    }
}

/// The phases still ahead of a run; every step lowers it.
pub open spec fn rank(m: RunModel) -> nat {
    let t = m.config.transforms as nat;
    match m.phase {
        Phase::NarrationLookup => t + 12,
        Phase::NarrationFetch => t + 11,
        Phase::NarrationStore => t + 10,
        Phase::Transforming(i) => if i < t {
            (9 + t - i) as nat
        } else {
            9
        },
        Phase::TtsLookup => 8,
        Phase::Synthesizing => 7,
        Phase::TtsStore => 6,
        Phase::MediaLookup => 5,
        Phase::Planning => 4,
        Phase::MediaStore => 3,
        Phase::Storing => 2,
        Phase::Rendering => 1,
        Phase::Done => 0,
        Phase::Failed => 0,
    }
}

/// The answer to a command, handed back to the run.
#[derive(Debug)]
pub enum Event {
    /// The narration cache's answer.
    NarrationCached(Option<String>),
    /// The content provider's answer.
    NarrationFetched(Result<Option<String>, SdkError>),
    /// A text transform's answer.
    Transformed(Result<String, SdkError>),
    /// The speech cache's answer: the Base64 audio and the captions of a
    /// readable entry, or `None` on a miss or an unreadable entry.
    TtsCached(Option<(String, Vec<CaptionSegment>)>),
    /// The TTS provider's answer.
    Synthesized(Result<TtsResult, SdkError>),
    /// The media cache's answer: the segments of a readable entry, or `None`
    /// on a miss or an unreadable entry.
    MediaCached(Option<Vec<MediaSegment>>),
    /// The media planner's answer.
    Planned(Result<Vec<Option<PlannedMedia>>, SdkError>),
    /// The cache write the run asked for is done.
    CacheStored,
    /// The audio storage's answer.
    Stored(Result<String, SdkError>),
    /// The renderer's answer.
    Rendered(Result<String, SdkError>),
}

/// The events a run waits for in each phase (and captions whose timings fit
/// in milliseconds).
pub open spec fn accepts(m: RunModel, e: Event) -> bool {
    match e {
        Event::NarrationCached(_) => m.phase == Phase::NarrationLookup,
        Event::NarrationFetched(_) => m.phase == Phase::NarrationFetch,
        Event::Transformed(_) => m.phase matches Phase::Transforming(i) && i < m.config.transforms,
        Event::TtsCached(v) => m.phase == Phase::TtsLookup && (v matches Some(x) ==> captions_in_range(x.1@)),
        Event::Synthesized(r) => m.phase == Phase::Synthesizing && (r matches Ok(res) ==> captions_in_range(res.captions@)),
        Event::MediaCached(_) => m.phase == Phase::MediaLookup,
        Event::Planned(_) => m.phase == Phase::Planning,
        Event::CacheStored => m.phase == Phase::NarrationStore || m.phase == Phase::TtsStore || m.phase == Phase::MediaStore,
        Event::Stored(_) => m.phase == Phase::Storing,
        Event::Rendered(_) => m.phase == Phase::Rendering,
    }
}

/// What a run does with an event.
pub open spec fn next(m: RunModel, e: Event) -> Outcome {
    match e {
        Event::NarrationCached(v) => on_narration_cached(m, v),
        Event::NarrationFetched(r) => on_narration_fetched(m, r),
        Event::Transformed(r) => match m.phase {
            Phase::Transforming(i) => on_transformed(m, i, r),
            _ => on_transformed(m, 0, r),
        },
        Event::TtsCached(v) => on_tts_cached(m, v),
        Event::Synthesized(r) => on_synthesized(m, r),
        Event::MediaCached(v) => on_media_cached(m, v),
        Event::Planned(r) => on_planned(m, r),
        Event::CacheStored => on_cache_stored(m),
        Event::Stored(r) => on_stored(m, r),
        Event::Rendered(r) => on_rendered(m, r),
    }
}

/// The phases in which speech is keyed: from the speech lookup to the render.
pub open spec fn speech_keyed(p: Phase) -> bool {
    match p {
        Phase::TtsLookup | Phase::Synthesizing | Phase::TtsStore | Phase::MediaLookup
        | Phase::Planning | Phase::MediaStore | Phase::Storing | Phase::Rendering => true,
        _ => false,
    }
}

/// The phases a narration-only run can be in.
pub open spec fn narration_phase(p: Phase) -> bool {
    match p {
        Phase::NarrationLookup | Phase::NarrationFetch | Phase::NarrationStore | Phase::Done
        | Phase::Failed => true,
        _ => false,
    }
}

/// The stages a phase waits on are set.
pub open spec fn phase_stages_set(m: RunModel) -> bool {
    match m.phase {
        Phase::NarrationFetch => m.config.has_content,
        Phase::NarrationStore | Phase::TtsLookup | Phase::TtsStore => m.config.has_cache,
        Phase::MediaLookup | Phase::MediaStore => m.config.has_cache && m.config.has_planner,
        Phase::Planning => m.config.has_planner,
        _ => true,
    }
}

/// What holds of every run between steps.
pub open spec fn run_inv(m: RunModel) -> bool {
    &&& captions_in_range(m.captions)
    &&& phase_stages_set(m)
    &&& m.narration_key == hash_of(narration_input(m.source))
    &&& speech_keyed(m.phase) ==> m.tts_key == hash_of(m.narration)
    &&& m.mode == Mode::NarrateOnly ==> narration_phase(m.phase) && m.audio_path is None
        && m.video_path is None
    &&& m.video_path is Some ==> m.phase == Phase::Done
    &&& match m.phase {
        Phase::Storing => m.audio_path is None && m.config.has_storage,
        Phase::Rendering => m.config.has_renderer && (m.audio_path is Some <==> m.config.has_storage),
        Phase::Done => m.mode == Mode::Process ==> (m.audio_path is Some <==> m.config.has_storage)
            && (m.video_path is Some <==> m.config.has_renderer),
        Phase::Failed => true,
        _ => m.audio_path is None,
    }
}

/// The cache is keyed by content: narration under the hash of what the
/// source holds, speech and media under the hash of the narration.
pub open spec fn keyed_by_content(o: Outcome) -> bool {
    match o.command {
        CommandModel::CacheGet { category, key } => if category is Narration {
            key == hash_of(narration_input(o.run.source))
        } else {
            key == hash_of(o.run.narration)
        },
        CommandModel::CacheSet { category, key } => if category is Narration {
            key == hash_of(narration_input(o.run.source))
        } else {
            key == hash_of(o.run.narration)
        },
        _ => true,
    }
}

/// A new run meets the invariant and keys its cache by content.
pub proof fn lemma_start_inv(config: StageConfig, mode: Mode, source: ContentSource)
    ensures
        run_inv(start_spec(config, mode, source).run),
        keyed_by_content(start_spec(config, mode, source)),
{
}

/// Every step keeps the invariant, keeps the run's configuration, mode and
/// source, keys the cache by content, and brings the run closer to its end.
pub proof fn lemma_step_keeps_inv(m: RunModel, e: Event)
    requires
        run_inv(m),
        accepts(m, e),
    ensures
        run_inv(next(m, e).run),
        keyed_by_content(next(m, e)),
        next(m, e).run.config == m.config,
        next(m, e).run.mode == m.mode,
        next(m, e).run.source == m.source,
        rank(next(m, e).run) < rank(m),
{
    match e {
        Event::NarrationCached(v) => lemma_narration_cached_inv(m, v),
        Event::NarrationFetched(r) => lemma_narration_fetched_inv(m, r),
        Event::Transformed(r) => lemma_transformed_inv(m, r),
        Event::TtsCached(v) => lemma_tts_cached_inv(m, v),
        Event::Synthesized(r) => lemma_synthesized_inv(m, r),
        Event::MediaCached(v) => lemma_media_cached_inv(m, v),
        Event::Planned(r) => lemma_planned_inv(m, r),
        Event::CacheStored => lemma_cache_stored_inv(m),
        Event::Stored(r) => {},
        Event::Rendered(r) => {},
    }
}

/// Raw text needs no content provider: a run on `Text` never asks for a
/// scrape or a search, and never fails for want of a provider.
pub proof fn lemma_text_needs_no_provider(config: StageConfig, mode: Mode, t: String, m: RunModel, e: Event)
    requires
        run_inv(m),
        accepts(m, e),
        m.source is Text,
    ensures
        !(start_spec(config, mode, ContentSource::Text(t)).command is Scrape),
        !(start_spec(config, mode, ContentSource::Text(t)).command is Search),
        !(start_spec(config, mode, ContentSource::Text(t)).command is Fail),
        !(next(m, e).command is Scrape),
        !(next(m, e).command is Search),
        m.phase == Phase::NarrationLookup ==> !(next(m, e).command is Fail),
{
}

/// A cache hit stands in for the provider: a narration hit asks for no
/// scrape or search, a speech hit for no synthesis, a media hit for no plan.
pub proof fn lemma_cache_hit_skips_provider(
    m: RunModel,
    narration: String,
    speech: (String, Vec<CaptionSegment>),
    segments: Vec<MediaSegment>,
)
    requires
        run_inv(m),
    ensures
        m.phase == Phase::NarrationLookup ==> !(next(m, Event::NarrationCached(Some(narration))).command is Scrape)
            && !(next(m, Event::NarrationCached(Some(narration))).command is Search)
            && next(m, Event::NarrationCached(Some(narration))).run.narration == narration@,
        m.phase == Phase::TtsLookup && captions_in_range(speech.1@) ==> !(next(m, Event::TtsCached(Some(speech))).command is Synthesize)
            && next(m, Event::TtsCached(Some(speech))).run.audio == decoded_or_empty(speech.0@)
            && next(m, Event::TtsCached(Some(speech))).run.captions == speech.1@,
        m.phase == Phase::MediaLookup ==> !(next(m, Event::MediaCached(Some(segments))).command is Plan)
            && next(m, Event::MediaCached(Some(segments))).run.segments == segments@,
{
}

/// A failed media plan does not stop the run: it goes on without media.
pub proof fn lemma_plan_failure_not_fatal(m: RunModel, err: SdkError)
    requires
        run_inv(m),
        m.phase == Phase::Planning,
    ensures
        !(next(m, Event::Planned(Err(err))).command is Fail),
        next(m, Event::Planned(Err(err))).run.segments == Seq::<MediaSegment>::empty(),
        next(m, Event::Planned(Err(err))).progress[0] == (PipelineProgress::MediaSearchComplete { segment_count: 0 }),
{
}

/// The errors of the content provider, the text transforms, the TTS
/// provider, the audio storage and the renderer end the run with that error.
#[verifier::rlimit(40)]
pub proof fn lemma_errors_end_run(m: RunModel, err: SdkError)
    ensures
        m.phase == Phase::NarrationFetch ==> next(m, Event::NarrationFetched(Err(err))).command == CommandModel::Fail(err_model(err))
            && next(m, Event::NarrationFetched(Err(err))).run.phase == Phase::Failed,
        m.phase is Transforming ==> next(m, Event::Transformed(Err(err))).command == CommandModel::Fail(err_model(err))
            && next(m, Event::Transformed(Err(err))).run.phase == Phase::Failed,
        m.phase == Phase::Synthesizing ==> next(m, Event::Synthesized(Err(err))).command == CommandModel::Fail(err_model(err))
            && next(m, Event::Synthesized(Err(err))).run.phase == Phase::Failed,
        m.phase == Phase::Storing ==> next(m, Event::Stored(Err(err))).command == CommandModel::Fail(err_model(err))
            && next(m, Event::Stored(Err(err))).run.phase == Phase::Failed,
        m.phase == Phase::Rendering ==> next(m, Event::Rendered(Err(err))).command == CommandModel::Fail(err_model(err))
            && next(m, Event::Rendered(Err(err))).run.phase == Phase::Failed,
{
    if m.phase == Phase::NarrationFetch {
        assert(next(m, Event::NarrationFetched(Err(err))) == fail(m, Seq::empty(), err_model(err)));
    } else if m.phase is Transforming {
        assert(next(m, Event::Transformed(Err(err))) == fail(m, Seq::empty(), err_model(err)));
    } else if m.phase == Phase::Synthesizing {
        assert(next(m, Event::Synthesized(Err(err))) == fail(m, Seq::empty(), err_model(err)));
    } else if m.phase == Phase::Storing {
        assert(next(m, Event::Stored(Err(err))) == fail(m, Seq::empty(), err_model(err)));
    } else if m.phase == Phase::Rendering {
        assert(next(m, Event::Rendered(Err(err))) == fail(m, Seq::empty(), err_model(err)));
    }
}

/// Text transforms run in order, each on the output of the one before; after
/// the last, speech starts on the final text.
pub proof fn lemma_transforms_in_order(m: RunModel, i: usize, text: String)
    requires
        run_inv(m),
        m.phase == Phase::Transforming(i),
        i < m.config.transforms,
    ensures
        next(m, Event::Transformed(Ok(text))).run.narration == text@,
        i + 1 < m.config.transforms ==> next(m, Event::Transformed(Ok(text))).command
            == (CommandModel::Transform { index: (i + 1) as usize }),
        i + 1 == m.config.transforms ==> next(m, Event::Transformed(Ok(text))).run.tts_key == hash_of(text@)
            && (next(m, Event::Transformed(Ok(text))).command == CommandModel::Synthesize
            || next(m, Event::Transformed(Ok(text))).command == (CommandModel::CacheGet {
            category: CacheCategory::Tts,
            key: hash_of(text@),
        })),
{
}

/// Work that comes after the narration.
pub open spec fn past_narration(c: CommandModel) -> bool {
    match c {
        CommandModel::Transform { .. } | CommandModel::Synthesize | CommandModel::Plan
        | CommandModel::Store | CommandModel::Render => true,
        _ => false,
    }
}

/// A narration-only run asks for nothing past the narration: no transform,
/// speech, media, storage or render.
pub proof fn lemma_narrate_only(config: StageConfig, source: ContentSource, m: RunModel, e: Event)
    requires
        run_inv(m),
        accepts(m, e),
        m.mode == Mode::NarrateOnly,
    ensures
        narration_phase(start_spec(config, Mode::NarrateOnly, source).run.phase),
        narration_phase(next(m, e).run.phase),
        !past_narration(next(m, e).command),
{
    lemma_step_keeps_inv(m, e);
}

/// A command that only a configured stage can answer.
pub open spec fn stage_is_set(c: StageConfig, command: CommandModel) -> bool {
    match command {
        CommandModel::CacheGet { .. } | CommandModel::CacheSet { .. } => c.has_cache,
        CommandModel::Scrape { .. } | CommandModel::Search { .. } => c.has_content,
        CommandModel::Transform { index } => index < c.transforms,
        CommandModel::Plan => c.has_planner,
        CommandModel::Store => c.has_storage,
        CommandModel::Render => c.has_renderer,
        _ => true,
    }
}

/// Every stage but speech is optional: a run asks a cache, a content
/// provider, a text transform, a media planner, a storage or a renderer only
/// when that stage is set.
pub proof fn lemma_stages_only_when_set(config: StageConfig, mode: Mode, source: ContentSource, m: RunModel, e: Event)
    requires
        run_inv(m),
        accepts(m, e),
    ensures
        stage_is_set(config, start_spec(config, mode, source).command),
        stage_is_set(m.config, next(m, e).command),
{
    lemma_stages_by_event(m, e);
}

#[verifier::rlimit(30)]
proof fn lemma_stages_by_event(m: RunModel, e: Event)
    requires
        run_inv(m),
        accepts(m, e),
    ensures
        stage_is_set(m.config, next(m, e).command),
{
    match e {
        Event::NarrationCached(v) => {
            assert(stage_is_set(m.config, on_narration_cached(m, v).command));
        },
        Event::NarrationFetched(r) => {
            assert(stage_is_set(m.config, on_narration_fetched(m, r).command));
        },
        Event::Transformed(r) => {},
        Event::TtsCached(v) => {
            assert(stage_is_set(m.config, on_tts_cached(m, v).command));
        },
        Event::Synthesized(r) => {
            assert(stage_is_set(m.config, on_synthesized(m, r).command));
        },
        Event::MediaCached(v) => {
            assert(stage_is_set(m.config, on_media_cached(m, v).command));
        },
        Event::Planned(r) => {
            assert(stage_is_set(m.config, on_planned(m, r).command));
        },
        Event::CacheStored => {
            assert(stage_is_set(m.config, on_cache_stored(m).command));
        },
        Event::Stored(r) => {},
        Event::Rendered(r) => {},
    }
}

/// `segs` are the media of the first `n` chunks, through `idx`: segment `k`
/// belongs to chunk `idx[k]`, in chunk order; every chunk planned with
/// media has exactly one segment, which carries the planned source and kind
/// and that chunk's own start and end.
pub open spec fn segments_follow_chunks(
    chunks: Seq<(Seq<char>, int, int)>,
    plans: Seq<Option<PlannedMedia>>,
    n: nat,
    segs: Seq<MediaSegment>,
    idx: Seq<int>,
) -> bool {
    &&& idx.len() == segs.len()
    &&& forall|k: int| 0 <= k < idx.len() ==> 0 <= #[trigger] idx[k] < n
    &&& forall|a: int, b: int| 0 <= a < b < idx.len() ==> idx[a] < idx[b]
    &&& forall|i: int| 0 <= i < n && (#[trigger] plans[i]) is Some ==> exists|k: int| 0 <= k < idx.len() && idx[k] == i
    &&& forall|k: int|
        0 <= k < idx.len() ==> (#[trigger] plans[idx[k]]) is Some && segs[k].source == plans[idx[k]]->0.source
            && segs[k].kind == plans[idx[k]]->0.kind && segs[k].start_ms == chunks[idx[k]].1 as u64
            && segs[k].end_ms == chunks[idx[k]].2 as u64
}

proof fn lemma_planned_index(chunks: Seq<(Seq<char>, int, int)>, plans: Seq<Option<PlannedMedia>>, n: nat) -> (idx: Seq<int>)
    ensures
        segments_follow_chunks(chunks, plans, n, planned_segments(chunks, plans, n), idx),
    decreases n,
{
    if n == 0 {
        Seq::empty()
    } else {
        let prev_idx = lemma_planned_index(chunks, plans, (n - 1) as nat);
        let prev = planned_segments(chunks, plans, (n - 1) as nat);
        match plans[n - 1] {
            Some(pm) => {
                let idx = prev_idx.push(n - 1);
                let segs = planned_segments(chunks, plans, n);
                assert forall|i: int| 0 <= i < n && (#[trigger] plans[i]) is Some implies exists|k: int|
                    0 <= k < idx.len() && idx[k] == i by {
                    if i < n - 1 {
                        let k = choose|k: int| 0 <= k < prev_idx.len() && prev_idx[k] == i;
                        assert(idx[k] == i);
                    } else {
                        assert(idx[idx.len() - 1] == i);
                    }
                }
                assert forall|k: int| 0 <= k < idx.len() implies (#[trigger] plans[idx[k]]) is Some
                    && segs[k].source == plans[idx[k]]->0.source && segs[k].kind == plans[idx[k]]->0.kind
                    && segs[k].start_ms == chunks[idx[k]].1 as u64 && segs[k].end_ms == chunks[idx[k]].2 as u64 by {
                    if k < prev_idx.len() {
                        assert(idx[k] == prev_idx[k]);
                        assert(segs[k] == prev[k]);
                    }
                }
                idx
            },
            None => {
                assert forall|i: int| 0 <= i < n && (#[trigger] plans[i]) is Some implies exists|k: int|
                    0 <= k < prev_idx.len() && prev_idx[k] == i by {}
                prev_idx
            },
        }
    }
}

/// A media plan's segments follow the chunks index by index: each chunk
/// planned with media gives one segment, in chunk order, with the planned
/// source and kind and that chunk's own start and end times.
pub proof fn lemma_segments_follow_chunks(m: RunModel, plans: Vec<Option<PlannedMedia>>)
    requires
        m.phase == Phase::Planning,
    ensures
        exists|idx: Seq<int>|
            segments_follow_chunks(
                m.chunks,
                plans@,
                min_len(m.chunks.len(), plans@.len()),
                #[trigger] next(m, Event::Planned(Ok(plans))).run.segments,
                idx,
            ),
{
    let n = min_len(m.chunks.len(), plans@.len());
    let idx = lemma_planned_index(m.chunks, plans@, n);
    assert(next(m, Event::Planned(Ok(plans))).run.segments == planned_segments(m.chunks, plans@, n));
}

/// A finished run has an audio path exactly when storage is set, and a video
/// path exactly when a renderer is set.
pub proof fn lemma_finished_outputs(m: RunModel, e: Event)
    requires
        run_inv(m),
        accepts(m, e),
        m.mode == Mode::Process,
        next(m, e).command == CommandModel::Finish,
    ensures
        next(m, e).run.phase == Phase::Done,
        next(m, e).run.audio_path is Some <==> m.config.has_storage,
        next(m, e).run.video_path is Some <==> m.config.has_renderer,
{
    lemma_step_keeps_inv(m, e);
    lemma_finish_is_done(m, e);
}

/// A step asks to finish exactly when it leaves the run done, and fails
/// exactly when it leaves the run failed.
pub proof fn lemma_finish_is_done(m: RunModel, e: Event)
    requires
        run_inv(m),
        accepts(m, e),
    ensures
        next(m, e).command == CommandModel::Finish <==> next(m, e).run.phase == Phase::Done,
        next(m, e).command is Fail <==> next(m, e).run.phase == Phase::Failed,
{
    match e {
        Event::NarrationCached(v) => {},
        Event::NarrationFetched(r) => {},
        Event::Transformed(r) => {},
        Event::TtsCached(v) => {},
        Event::Synthesized(r) => {},
        Event::MediaCached(v) => {},
        Event::Planned(r) => {},
        Event::CacheStored => {},
        Event::Stored(r) => {},
        Event::Rendered(r) => {},
    }
}

/// Only speech is required: a pipeline with nothing but a TTS provider
/// narrates raw text by synthesizing it, and then finishes with that speech.
pub proof fn lemma_only_tts_required(t: String, res: TtsResult)
    requires
        captions_in_range(res.captions@),
    ensures
        ({
            let config = StageConfig {
                has_content: false,
                transforms: 0,
                has_cache: false,
                has_planner: false,
                has_storage: false,
                has_renderer: false,
            };
            let o = start_spec(config, Mode::Process, ContentSource::Text(t));
            let o2 = next(o.run, Event::Synthesized(Ok(res)));
            &&& o.command == CommandModel::Synthesize
            &&& o.run.narration == t@
            &&& o2.command == CommandModel::Finish
            &&& o2.run.narration == t@
            &&& o2.run.audio == res.audio@
            &&& o2.run.captions == res.captions@
            &&& o2.run.segments.len() == 0
            &&& o2.run.audio_path is None
            &&& o2.run.video_path is None
        }),
{
}

/// Keeps the invariant once speech is known (the tail shared by several steps).
proof fn lemma_tts_done_inv(m: RunModel, p: Seq<PipelineProgress>)
    requires
        run_inv(m),
        m.mode == Mode::Process,
        m.tts_key == hash_of(m.narration),
        m.audio_path is None,
        m.video_path is None,
    ensures
        run_inv(tts_done(m, p).run),
        keyed_by_content(tts_done(m, p)),
        tts_done(m, p).run.config == m.config,
        tts_done(m, p).run.mode == m.mode,
        tts_done(m, p).run.source == m.source,
        rank(tts_done(m, p).run) <= 5,
{
}

/// Keeps the invariant once the narration is known.
proof fn lemma_after_narration_inv(m: RunModel, p: Seq<PipelineProgress>)
    requires
        run_inv(with_phase(m, Phase::NarrationLookup)),
        m.audio_path is None,
        m.video_path is None,
    ensures
        run_inv(after_narration(m, p).run),
        keyed_by_content(after_narration(m, p)),
        after_narration(m, p).run.config == m.config,
        after_narration(m, p).run.mode == m.mode,
        after_narration(m, p).run.source == m.source,
        rank(after_narration(m, p).run) <= m.config.transforms + 9,
{
}

proof fn lemma_fetched_inv(m: RunModel, p: Seq<PipelineProgress>)
    requires
        run_inv(with_phase(m, Phase::NarrationLookup)),
        m.audio_path is None,
        m.video_path is None,
    ensures
        run_inv(fetched(m, p).run),
        keyed_by_content(fetched(m, p)),
        fetched(m, p).run.config == m.config,
        fetched(m, p).run.mode == m.mode,
        fetched(m, p).run.source == m.source,
        rank(fetched(m, p).run) <= m.config.transforms + 10,
{
    lemma_after_narration_inv(m, p.push(PipelineProgress::NarrationComplete { narration_len: byte_len(m.narration) }));
}

proof fn lemma_narration_cached_inv(m: RunModel, v: Option<String>)
    requires
        run_inv(m),
        m.phase == Phase::NarrationLookup,
    ensures
        run_inv(on_narration_cached(m, v).run),
        keyed_by_content(on_narration_cached(m, v)),
        on_narration_cached(m, v).run.config == m.config,
        on_narration_cached(m, v).run.mode == m.mode,
        on_narration_cached(m, v).run.source == m.source,
        rank(on_narration_cached(m, v).run) < rank(m),
{
    match v {
        Some(s) => lemma_after_narration_inv(RunModel { narration: s@, ..m }, seq![PipelineProgress::NarrationComplete { narration_len: byte_len(s@) }]),
        None => match m.source {
            ContentSource::Text(t) => lemma_fetched_inv(RunModel { narration: t@, ..m }, Seq::empty()),
            _ => {},
        },
    }
}

proof fn lemma_narration_fetched_inv(m: RunModel, r: Result<Option<String>, SdkError>)
    requires
        run_inv(m),
        m.phase == Phase::NarrationFetch,
    ensures
        run_inv(on_narration_fetched(m, r).run),
        keyed_by_content(on_narration_fetched(m, r)),
        on_narration_fetched(m, r).run.config == m.config,
        on_narration_fetched(m, r).run.mode == m.mode,
        on_narration_fetched(m, r).run.source == m.source,
        rank(on_narration_fetched(m, r).run) < rank(m),
{
    match r {
        Ok(got) => lemma_fetched_inv(RunModel { narration: fetched_narration(m.source, got), ..m }, Seq::empty()),
        Err(_) => {},
    }
}

proof fn lemma_transformed_inv(m: RunModel, r: Result<String, SdkError>)
    requires
        run_inv(m),
        m.phase matches Phase::Transforming(i) && i < m.config.transforms,
    ensures
        run_inv(next(m, Event::Transformed(r)).run),
        keyed_by_content(next(m, Event::Transformed(r))),
        next(m, Event::Transformed(r)).run.config == m.config,
        next(m, Event::Transformed(r)).run.mode == m.mode,
        next(m, Event::Transformed(r)).run.source == m.source,
        rank(next(m, Event::Transformed(r)).run) < rank(m),
{
}

proof fn lemma_tts_cached_inv(m: RunModel, v: Option<(String, Vec<CaptionSegment>)>)
    requires
        run_inv(m),
        m.phase == Phase::TtsLookup,
        v matches Some(x) ==> captions_in_range(x.1@),
    ensures
        run_inv(on_tts_cached(m, v).run),
        keyed_by_content(on_tts_cached(m, v)),
        on_tts_cached(m, v).run.config == m.config,
        on_tts_cached(m, v).run.mode == m.mode,
        on_tts_cached(m, v).run.source == m.source,
        rank(on_tts_cached(m, v).run) < rank(m),
{
    match v {
        Some((b, caps)) => lemma_tts_done_inv(RunModel { audio: decoded_or_empty(b@), captions: caps@, ..m }, Seq::empty()),
        None => {},
    }
}

proof fn lemma_synthesized_inv(m: RunModel, r: Result<TtsResult, SdkError>)
    requires
        run_inv(m),
        m.phase == Phase::Synthesizing,
        r matches Ok(res) ==> captions_in_range(res.captions@),
    ensures
        run_inv(on_synthesized(m, r).run),
        keyed_by_content(on_synthesized(m, r)),
        on_synthesized(m, r).run.config == m.config,
        on_synthesized(m, r).run.mode == m.mode,
        on_synthesized(m, r).run.source == m.source,
        rank(on_synthesized(m, r).run) < rank(m),
{
    match r {
        Ok(res) => if !m.config.has_cache {
            lemma_tts_done_inv(RunModel { audio: res.audio@, captions: res.captions@, ..m }, Seq::empty());
        },
        Err(_) => {},
    }
}

proof fn lemma_media_cached_inv(m: RunModel, v: Option<Vec<MediaSegment>>)
    requires
        run_inv(m),
        m.phase == Phase::MediaLookup,
    ensures
        run_inv(on_media_cached(m, v).run),
        keyed_by_content(on_media_cached(m, v)),
        on_media_cached(m, v).run.config == m.config,
        on_media_cached(m, v).run.mode == m.mode,
        on_media_cached(m, v).run.source == m.source,
        rank(on_media_cached(m, v).run) < rank(m),
{
}

proof fn lemma_planned_inv(m: RunModel, r: Result<Vec<Option<PlannedMedia>>, SdkError>)
    requires
        run_inv(m),
        m.phase == Phase::Planning,
    ensures
        run_inv(on_planned(m, r).run),
        keyed_by_content(on_planned(m, r)),
        on_planned(m, r).run.config == m.config,
        on_planned(m, r).run.mode == m.mode,
        on_planned(m, r).run.source == m.source,
        rank(on_planned(m, r).run) < rank(m),
{
}

proof fn lemma_cache_stored_inv(m: RunModel)
    requires
        run_inv(m),
        m.phase == Phase::NarrationStore || m.phase == Phase::TtsStore || m.phase == Phase::MediaStore,
    ensures
        run_inv(on_cache_stored(m).run),
        keyed_by_content(on_cache_stored(m)),
        on_cache_stored(m).run.config == m.config,
        on_cache_stored(m).run.mode == m.mode,
        on_cache_stored(m).run.source == m.source,
        rank(on_cache_stored(m).run) < rank(m),
{
    if m.phase == Phase::NarrationStore {
        lemma_after_narration_inv(m, seq![PipelineProgress::NarrationComplete { narration_len: byte_len(m.narration) }]);
    } else if m.phase == Phase::TtsStore {
        lemma_tts_done_inv(m, Seq::empty());
    }
}

/// A run of the pipeline's decisions.
pub struct PipelineRun {
    config: StageConfig,
    mode: Mode,
    source: ContentSource,
    phase: Phase,
    narration_key: String,
    tts_key: String,
    chunks: Vec<TimedChunk>,
    out: ContentOutput,
}

pub open spec fn opt_view(o: Option<String>) -> Option<Seq<char>> {
    match o {
        Some(s) => Some(s@),
        None => None,
    }
}

/// The step a run took matches the outcome the specification gives.
pub open spec fn took(run: RunModel, step: Step, o: Outcome) -> bool {
    &&& run == o.run
    &&& step.progress@ == o.progress
    &&& command_model(step.command) == o.command
}

impl PipelineRun {
    /// The run as the specification sees it.
    pub closed spec fn model(&self) -> RunModel {
        RunModel {
            config: self.config,
            mode: self.mode,
            source: self.source,
            phase: self.phase,
            narration_key: self.narration_key@,
            narration: self.out.narration@,
            audio: self.out.audio@,
            captions: self.out.captions@,
            tts_key: self.tts_key@,
            chunks: chunks_view(self.chunks@),
            segments: self.out.media_segments@,
            audio_path: opt_view(self.out.audio_path),
            video_path: opt_view(self.out.video_path),
        }
    }

    /// A run as steps leave it: see [`run_inv`].
    pub open spec fn wf(&self) -> bool {
        run_inv(self.model())
    }

    /// Where the run stands.
    pub fn phase(&self) -> (p: Phase)
        ensures
            p == self.model().phase,
    {
        self.phase
    }

    /// The current narration.
    pub fn narration(&self) -> (r: &String)
        ensures
            r@ == self.model().narration,
    {
        &self.out.narration
    }

    /// The run's audio.
    pub fn audio(&self) -> (r: &Vec<u8>)
        ensures
            r@ == self.model().audio,
    {
        &self.out.audio
    }

    /// The run's captions.
    pub fn captions(&self) -> (r: &Vec<CaptionSegment>)
        ensures
            r@ == self.model().captions,
    {
        &self.out.captions
    }

    /// The chunks the narration was cut into for media planning.
    pub fn chunks(&self) -> (r: &Vec<TimedChunk>)
        ensures
            chunks_view(r@) == self.model().chunks,
    {
        &self.chunks
    }

    /// The run's media segments.
    pub fn media_segments(&self) -> (r: &Vec<MediaSegment>)
        ensures
            r@ == self.model().segments,
    {
        &self.out.media_segments
    }

    /// Everything the run has produced so far.
    pub fn output(&self) -> (r: &ContentOutput)
        ensures
            r.narration@ == self.model().narration,
            r.audio@ == self.model().audio,
            r.captions@ == self.model().captions,
            r.media_segments@ == self.model().segments,
            opt_view(r.audio_path) == self.model().audio_path,
            opt_view(r.video_path) == self.model().video_path,
    {
        &self.out
    }

    /// The output of a finished run.
    pub fn into_output(self) -> (r: ContentOutput)
        ensures
            r.narration@ == self.model().narration,
            r.audio@ == self.model().audio,
            r.captions@ == self.model().captions,
            r.media_segments@ == self.model().segments,
            opt_view(r.audio_path) == self.model().audio_path,
            opt_view(r.video_path) == self.model().video_path,
    {
        self.out
    }

    fn set_phase(&mut self, p: Phase)
        ensures
            final(self).model() == with_phase(old(self).model(), p),
    {
        self.phase = p;
    }

    fn fail_with(&mut self, progress: Vec<PipelineProgress>, e: SdkError) -> (r: Step)
        ensures
            took(final(self).model(), r, fail(old(self).model(), progress@, err_model(e))),
    {
        self.set_phase(Phase::Failed);
        Step { progress, command: Command::Fail(e) }
    }

    fn begin_render(&mut self, progress: Vec<PipelineProgress>) -> (r: Step)
        ensures
            took(final(self).model(), r, begin_render(old(self).model(), progress@)),
    {
        let mut progress = progress;
        if self.config.has_renderer {
            progress.push(PipelineProgress::RenderStarted);
            self.set_phase(Phase::Rendering);
            Step { progress, command: Command::Render }
        } else {
            self.set_phase(Phase::Done);
            Step { progress, command: Command::Finish }
        }
    }

    fn begin_storage(&mut self, progress: Vec<PipelineProgress>) -> (r: Step)
        ensures
            took(final(self).model(), r, begin_storage(old(self).model(), progress@)),
    {
        let mut progress = progress;
        if self.config.has_storage {
            progress.push(PipelineProgress::AudioStorageStarted);
            self.set_phase(Phase::Storing);
            Step { progress, command: Command::Store }
        } else {
            self.begin_render(progress)
        }
    }

    fn begin_chunking(&mut self, progress: Vec<PipelineProgress>) -> (r: Step)
        requires
            captions_in_range(old(self).model().captions),
        ensures
            took(final(self).model(), r, begin_chunking(old(self).model(), progress@)),
    {
        let mut progress = progress;
        let c = split_into_timed_chunks(self.out.narration.as_str(), self.out.captions.as_slice());
        let n = c.len();
        self.chunks = c;
        if n == 0 {
            self.out.media_segments = Vec::new();
            self.begin_storage(progress)
        } else {
            progress.push(PipelineProgress::MediaSearchStarted { chunk_count: n });
            self.set_phase(Phase::Planning);
            Step { progress, command: Command::Plan }
        }
    }

    fn begin_media(&mut self, progress: Vec<PipelineProgress>) -> (r: Step)
        requires
            captions_in_range(old(self).model().captions),
        ensures
            took(final(self).model(), r, begin_media(old(self).model(), progress@)),
    {
        if !self.config.has_planner || self.out.narration.as_str().is_empty()
            || self.out.captions.len() == 0 {
            self.out.media_segments = Vec::new();
            self.begin_storage(progress)
        } else if self.config.has_cache {
            self.set_phase(Phase::MediaLookup);
            let key = self.tts_key.clone();
            Step { progress, command: Command::CacheGet { category: CacheCategory::Media, key } }
        } else {
            self.begin_chunking(progress)
        }
    }

    fn tts_done(&mut self, progress: Vec<PipelineProgress>) -> (r: Step)
        requires
            captions_in_range(old(self).model().captions),
        ensures
            took(final(self).model(), r, tts_done(old(self).model(), progress@)),
    {
        let mut progress = progress;
        progress.push(
            PipelineProgress::TtsComplete {
                audio_bytes: self.out.audio.len(),
                caption_count: self.out.captions.len(),
            },
        );
        self.begin_media(progress)
    }

    fn begin_tts(&mut self, progress: Vec<PipelineProgress>) -> (r: Step)
        ensures
            took(final(self).model(), r, begin_tts(old(self).model(), progress@)),
    {
        let mut progress = progress;
        let key = content_hash(self.out.narration.as_str().as_bytes());
        self.tts_key = key.clone();
        progress.push(PipelineProgress::TtsStarted);
        if self.config.has_cache {
            self.set_phase(Phase::TtsLookup);
            Step { progress, command: Command::CacheGet { category: CacheCategory::Tts, key } }
        } else {
            self.set_phase(Phase::Synthesizing);
            Step { progress, command: Command::Synthesize }
        }
    }

    fn after_narration(&mut self, progress: Vec<PipelineProgress>) -> (r: Step)
        ensures
            took(final(self).model(), r, after_narration(old(self).model(), progress@)),
    {
        let mut progress = progress;
        if self.mode == Mode::NarrateOnly {
            self.set_phase(Phase::Done);
            Step { progress, command: Command::Finish }
        } else if self.config.transforms > 0 {
            progress.push(PipelineProgress::TextTransformStarted);
            self.set_phase(Phase::Transforming(0));
            Step { progress, command: Command::Transform { index: 0 } }
        } else {
            self.begin_tts(progress)
        }
    }

    fn fetched(&mut self, progress: Vec<PipelineProgress>) -> (r: Step)
        ensures
            took(final(self).model(), r, fetched(old(self).model(), progress@)),
    {
        let mut progress = progress;
        if self.config.has_cache {
            self.set_phase(Phase::NarrationStore);
            let key = self.narration_key.clone();
            Step {
                progress,
                command: Command::CacheSet { category: CacheCategory::Narration, key },
            }
        } else {
            progress.push(
                PipelineProgress::NarrationComplete {
                    narration_len: self.out.narration.as_str().len(),
                },
            );
            self.after_narration(progress)
        }
    }

    fn begin_fetch(&mut self, progress: Vec<PipelineProgress>) -> (r: Step)
        ensures
            took(final(self).model(), r, begin_fetch(old(self).model(), progress@)),
    {
        match &self.source {
            ContentSource::Text(t) => {
                self.out.narration = t.clone();
                self.fetched(progress)
            },
            ContentSource::ArticleUrl { url, title } => {
                if self.config.has_content {
                    let hint = match title {
                        Some(t) => t.clone(),
                        None => String::new(),
                    };
                    let url = url.clone();
                    self.set_phase(Phase::NarrationFetch);
                    Step { progress, command: Command::Scrape { url, title_hint: hint } }
                } else {
                    let msg = String::from_str("content provider required for ArticleUrl source");
                    self.fail_with(progress, SdkError::Config(msg))
                }
            },
            ContentSource::SearchQuery(q) => {
                if self.config.has_content {
                    let query = q.clone();
                    self.set_phase(Phase::NarrationFetch);
                    Step { progress, command: Command::Search { query } }
                } else {
                    let msg = String::from_str("content provider required for SearchQuery source");
                    self.fail_with(progress, SdkError::Config(msg))
                }
            },
        }
    }

    /// Hands over the narration cache's answer.
    fn narration_cached(&mut self, value: Option<String>) -> (r: Step)
        requires
            old(self).model().phase == Phase::NarrationLookup,
        ensures
            took(final(self).model(), r, on_narration_cached(old(self).model(), value)),
            rank(final(self).model()) < rank(old(self).model()),
    {
        match value {
            Some(s) => {
                let mut progress: Vec<PipelineProgress> = Vec::new();
                progress.push(PipelineProgress::NarrationComplete { narration_len: s.as_str().len() });
                self.out.narration = s;
                self.after_narration(progress)
            },
            None => self.begin_fetch(Vec::new()),
        }
    }

    /// Hands over the content provider's answer.
    fn narration_fetched(&mut self, result: Result<Option<String>, SdkError>) -> (r: Step)
        requires
            old(self).model().phase == Phase::NarrationFetch,
        ensures
            took(final(self).model(), r, on_narration_fetched(old(self).model(), result)),
            rank(final(self).model()) < rank(old(self).model()),
    {
        match result {
            Ok(got) => {
                let narration = match got {
                    Some(n) => n,
                    None => match &self.source {
                        ContentSource::Text(t) => t.clone(),
                        ContentSource::ArticleUrl { url, title } => match title {
                            Some(t) => t.clone(),
                            None => url.clone(),
                        },
                        ContentSource::SearchQuery(q) => q.clone(),
                    },
                };
                self.out.narration = narration;
                self.fetched(Vec::new())
            },
            Err(e) => self.fail_with(Vec::new(), e),
        }
    }

    /// Hands over a text transform's answer.
    fn transformed(&mut self, result: Result<String, SdkError>) -> (r: Step)
        requires
            old(self).model().phase matches Phase::Transforming(i) && i < old(self).model().config.transforms,
        ensures
            old(self).model().phase matches Phase::Transforming(i) && took(
                final(self).model(),
                r,
                on_transformed(old(self).model(), i, result),
            ),
            rank(final(self).model()) < rank(old(self).model()),
    {
        let i = match self.phase {
            Phase::Transforming(i) => i,
            _ => 0,
        };
        match result {
            Ok(t) => {
                self.out.narration = t;
                if i + 1 < self.config.transforms {
                    self.set_phase(Phase::Transforming(i + 1));
                    Step { progress: Vec::new(), command: Command::Transform { index: i + 1 } }
                } else {
                    let mut progress: Vec<PipelineProgress> = Vec::new();
                    progress.push(
                        PipelineProgress::TextTransformComplete {
                            narration_len: self.out.narration.as_str().len(),
                        },
                    );
                    self.begin_tts(progress)
                }
            },
            Err(e) => self.fail_with(Vec::new(), e),
        }
    }

    /// Hands over the speech cache's answer: the Base64 audio and the
    /// captions of a readable entry, or `None` on a miss or an unreadable entry.
    fn tts_cached(&mut self, value: Option<(String, Vec<CaptionSegment>)>) -> (r: Step)
        requires
            old(self).model().phase == Phase::TtsLookup,
            value matches Some(v) ==> captions_in_range(v.1@),
        ensures
            took(final(self).model(), r, on_tts_cached(old(self).model(), value)),
            rank(final(self).model()) < rank(old(self).model()),
    {
        match value {
            Some((b, caps)) => {
                let audio = b64_decode_or_empty(b.as_str());
                self.out.audio = audio;
                self.out.captions = caps;
                self.tts_done(Vec::new())
            },
            None => {
                self.set_phase(Phase::Synthesizing);
                Step { progress: Vec::new(), command: Command::Synthesize }
            },
        }
    }

    /// Hands over the TTS provider's answer.
    fn synthesized(&mut self, result: Result<TtsResult, SdkError>) -> (r: Step)
        requires
            old(self).model().phase == Phase::Synthesizing,
            result matches Ok(res) ==> captions_in_range(res.captions@),
        ensures
            took(final(self).model(), r, on_synthesized(old(self).model(), result)),
            rank(final(self).model()) < rank(old(self).model()),
    {
        match result {
            Ok(res) => {
                self.out.audio = res.audio;
                self.out.captions = res.captions;
                if self.config.has_cache {
                    self.set_phase(Phase::TtsStore);
                    let key = self.tts_key.clone();
                    Step {
                        progress: Vec::new(),
                        command: Command::CacheSet { category: CacheCategory::Tts, key },
                    }
                } else {
                    self.tts_done(Vec::new())
                }
            },
            Err(e) => self.fail_with(Vec::new(), e),
        }
    }

    /// Hands over the media cache's answer: the segments of a readable entry,
    /// or `None` on a miss or an unreadable entry.
    fn media_cached(&mut self, value: Option<Vec<MediaSegment>>) -> (r: Step)
        requires
            old(self).model().phase == Phase::MediaLookup,
            captions_in_range(old(self).model().captions),
        ensures
            took(final(self).model(), r, on_media_cached(old(self).model(), value)),
            rank(final(self).model()) < rank(old(self).model()),
    {
        match value {
            Some(segs) => {
                let mut progress: Vec<PipelineProgress> = Vec::new();
                progress.push(PipelineProgress::MediaSearchComplete { segment_count: segs.len() });
                self.out.media_segments = segs;
                self.begin_storage(progress)
            },
            None => self.begin_chunking(Vec::new()),
        }
    }

    /// Hands over the media planner's answer; a failed plan is not fatal.
    fn planned(&mut self, result: Result<Vec<Option<PlannedMedia>>, SdkError>) -> (r: Step)
        requires
            old(self).model().phase == Phase::Planning,
        ensures
            took(final(self).model(), r, on_planned(old(self).model(), result)),
            rank(final(self).model()) < rank(old(self).model()),
    {
        match result {
            Ok(plans) => {
                let n = if self.chunks.len() < plans.len() {
                    self.chunks.len()
                } else {
                    plans.len()
                };
                let mut segs: Vec<MediaSegment> = Vec::new();
                let mut found: Vec<PipelineProgress> = Vec::new();
                let mut rest = plans;
                let ghost all = rest@;
                let mut i: usize = 0;
                assert(rest@ =~= all.subrange(0, all.len() as int));
                while i < n
                    invariant
                        i <= n,
                        n == min_len(chunks_view(self.chunks@).len(), all.len()),
                        n <= self.chunks@.len(),
                        n <= all.len(),
                        rest@ == all.subrange(i as int, all.len() as int),
                        segs@ == planned_segments(chunks_view(self.chunks@), all, i as nat),
                        found@ == found_events(all, i as nat),
                    decreases n - i,
                {
                    let item = rest.remove(0);
                    assert(item == all[i as int]);
                    assert(rest@ =~= all.subrange(i + 1, all.len() as int));
                    let item = Some(item);
                    match item {
                        Some(Some(pm)) => {
                            let c = &self.chunks[i];
                            found.push(PipelineProgress::MediaSegmentFound { index: i, kind: pm.kind });
                            segs.push(
                                MediaSegment {
                                    source: pm.source,
                                    start_ms: c.start_ms,
                                    end_ms: c.end_ms,
                                    kind: pm.kind,
                                },
                            );
                        },
                        _ => {},
                    }
                    i = i + 1;
                }
                let count = segs.len();
                self.out.media_segments = segs;
                if self.config.has_cache {
                    self.set_phase(Phase::MediaStore);
                    let key = self.tts_key.clone();
                    Step {
                        progress: found,
                        command: Command::CacheSet { category: CacheCategory::Media, key },
                    }
                } else {
                    found.push(PipelineProgress::MediaSearchComplete { segment_count: count });
                    self.begin_storage(found)
                }
            },
            Err(_) => {
                self.out.media_segments = Vec::new();
                let mut progress: Vec<PipelineProgress> = Vec::new();
                progress.push(PipelineProgress::MediaSearchComplete { segment_count: 0 });
                self.begin_storage(progress)
            },
        }
    }

    /// Reports that the cache write the run asked for is done.
    fn cache_stored(&mut self) -> (r: Step)
        requires
            old(self).model().phase == Phase::NarrationStore || old(self).model().phase
                == Phase::TtsStore || old(self).model().phase == Phase::MediaStore,
            captions_in_range(old(self).model().captions),
        ensures
            took(final(self).model(), r, on_cache_stored(old(self).model())),
            rank(final(self).model()) < rank(old(self).model()),
    {
        match self.phase {
            Phase::NarrationStore => {
                let mut progress: Vec<PipelineProgress> = Vec::new();
                progress.push(
                    PipelineProgress::NarrationComplete {
                        narration_len: self.out.narration.as_str().len(),
                    },
                );
                self.after_narration(progress)
            },
            Phase::TtsStore => self.tts_done(Vec::new()),
            _ => {
                let mut progress: Vec<PipelineProgress> = Vec::new();
                progress.push(
                    PipelineProgress::MediaSearchComplete {
                        segment_count: self.out.media_segments.len(),
                    },
                );
                self.begin_storage(progress)
            },
        }
    }

    /// Hands over the audio storage's answer.
    fn stored(&mut self, result: Result<String, SdkError>) -> (r: Step)
        requires
            old(self).model().phase == Phase::Storing,
        ensures
            took(final(self).model(), r, on_stored(old(self).model(), result)),
            rank(final(self).model()) < rank(old(self).model()),
    {
        match result {
            Ok(p) => {
                let mut progress: Vec<PipelineProgress> = Vec::new();
                progress.push(PipelineProgress::AudioStored { path: p.clone() });
                self.out.audio_path = Some(p);
                self.begin_render(progress)
            },
            Err(e) => self.fail_with(Vec::new(), e),
        }
    }

    /// Hands over the renderer's answer.
    fn rendered(&mut self, result: Result<String, SdkError>) -> (r: Step)
        requires
            old(self).model().phase == Phase::Rendering,
        ensures
            took(final(self).model(), r, on_rendered(old(self).model(), result)),
            rank(final(self).model()) < rank(old(self).model()),
    {
        match result {
            Ok(p) => {
                let mut progress: Vec<PipelineProgress> = Vec::new();
                progress.push(PipelineProgress::RenderComplete { path: p.clone() });
                self.out.video_path = Some(p);
                self.set_phase(Phase::Done);
                Step { progress, command: Command::Finish }
            },
            Err(e) => self.fail_with(Vec::new(), e),
        }
    }

    /// Hands the answer to the last command over to the run, and gets the
    /// next step.
    pub fn handle(&mut self, event: Event) -> (r: Step)
        requires
            old(self).wf(),
            accepts(old(self).model(), event),
        ensures
            took(final(self).model(), r, next(old(self).model(), event)),
            final(self).wf(),
            rank(final(self).model()) < rank(old(self).model()),
    {
        let ghost ev = event;
        let ghost m0 = self.model();
        proof {
            lemma_step_keeps_inv(m0, ev);
        }
        match event {
            Event::NarrationCached(v) => self.narration_cached(v),
            Event::NarrationFetched(r) => self.narration_fetched(r),
            Event::Transformed(r) => self.transformed(r),
            Event::TtsCached(v) => self.tts_cached(v),
            Event::Synthesized(r) => self.synthesized(r),
            Event::MediaCached(v) => self.media_cached(v),
            Event::Planned(r) => self.planned(r),
            Event::CacheStored => self.cache_stored(),
            Event::Stored(r) => self.stored(r),
            Event::Rendered(r) => self.rendered(r),
        }
    }

    /// Starts a run on `source`.
    pub fn start(config: StageConfig, mode: Mode, source: ContentSource) -> (r: (PipelineRun, Step))
        ensures
            took(r.0.model(), r.1, start_spec(config, mode, source)),
            r.0.wf(),
    {
        proof {
            lemma_start_inv(config, mode, source);
        }
        let input: String = match &source {
            ContentSource::Text(t) => t.clone(),
            ContentSource::ArticleUrl { url, title } => {
                let mut s = url.clone();
                match title {
                    Some(t) => s.append(t.as_str()),
                    None => {},
                }
                s
            },
            ContentSource::SearchQuery(q) => q.clone(),
        };
        assert(input@ =~= narration_input(source));
        let key = content_hash(input.as_str().as_bytes());
        let mut run = PipelineRun {
            config,
            mode,
            source,
            phase: Phase::NarrationLookup,
            narration_key: key,
            tts_key: String::new(),
            chunks: Vec::new(),
            out: ContentOutput {
                narration: String::new(),
                audio: Vec::new(),
                captions: Vec::new(),
                media_segments: Vec::new(),
                audio_path: None,
                video_path: None,
            },
        };
        assert(chunks_view(run.chunks@) =~= Seq::<(Seq<char>, int, int)>::empty());
        assert(run.model() == initial_model(config, mode, source));
        let mut progress: Vec<PipelineProgress> = Vec::new();
        progress.push(PipelineProgress::NarrationStarted);
        assert(progress@ =~= seq![PipelineProgress::NarrationStarted]);
        if config.has_cache {
            let key = run.narration_key.clone();
            (run, Step { progress, command: Command::CacheGet { category: CacheCategory::Narration, key } })
        } else {
            let step = run.begin_fetch(progress);
            (run, step)
        }
    }
}

} // verus!
