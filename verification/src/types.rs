//! Data carried through the pipeline: captions, media, chunks, sources,
//! progress events and the narration style.
use vstd::prelude::*;

use crate::text::{dec, dec_chars, extend_chars, push_str_chars, string_from_chars};

verus! {

/// Style variables interpolated into the narration prompt templates.
#[derive(Debug, Clone)]
pub struct NarrationStyle {
    /// Writer role, e.g. "news broadcast scriptwriter".
    pub role: String,
    /// Reader persona, e.g. "a news anchor".
    pub persona: String,
    /// Output length, e.g. "2-4 paragraphs, 30-90 seconds when read aloud".
    pub length: String,
    /// Tone description, e.g. "Conversational and engaging".
    pub tone: String,
    /// Structural guidance.
    pub structure: String,
}

impl Default for NarrationStyle {
    fn default() -> (r: Self)
        ensures
            r.role@ == "news broadcast scriptwriter"@,
            r.persona@ == "a news anchor"@,
            r.length@ == "2-4 paragraphs, 30-90 seconds when read aloud"@,
            r.tone@ == "Conversational and engaging"@,
            r.structure@ == "Start with the key headline/finding, then provide context"@,
    {
        NarrationStyle {
            role: String::from_str("news broadcast scriptwriter"),
            persona: String::from_str("a news anchor"),
            length: String::from_str("2-4 paragraphs, 30-90 seconds when read aloud"),
            tone: String::from_str("Conversational and engaging"),
            structure: String::from_str(
                "Start with the key headline/finding, then provide context",
            ),
        }
    }
}

impl NarrationStyle {
    pub fn role(self, role: String) -> (r: Self)
        ensures
            r == (NarrationStyle { role, ..self }),
    {
        NarrationStyle { role, ..self }
    }

    pub fn persona(self, persona: String) -> (r: Self)
        ensures
            r == (NarrationStyle { persona, ..self }),
    {
        NarrationStyle { persona, ..self }
    }

    pub fn length(self, length: String) -> (r: Self)
        ensures
            r == (NarrationStyle { length, ..self }),
    {
        NarrationStyle { length, ..self }
    }

    pub fn tone(self, tone: String) -> (r: Self)
        ensures
            r == (NarrationStyle { tone, ..self }),
    {
        NarrationStyle { tone, ..self }
    }

    pub fn structure(self, structure: String) -> (r: Self)
        ensures
            r == (NarrationStyle { structure, ..self }),
    {
        NarrationStyle { structure, ..self }
    }
}

/// A single word-level caption with its timing in milliseconds.
#[derive(Debug, Clone)]
pub struct CaptionSegment {
    /// The word or token text.
    pub text: String,
    /// Start time from the beginning of the audio.
    pub start_ms: u64,
    /// Duration.
    pub duration_ms: u64,
}

/// Where a media asset comes from.
#[derive(Debug, Clone)]
pub enum MediaSource {
    /// A remote URL (http/https).
    Url(String),
    /// A local file path.
    FilePath(String),
    /// Raw bytes, e.g. an in-memory image.
    Bytes(Vec<u8>),
}

/// A media source by its contents.
pub enum SourceView {
    Url(Seq<char>),
    FilePath(Seq<char>),
    Bytes(Seq<u8>),
}

pub open spec fn source_view(s: MediaSource) -> SourceView {
    match s {
        MediaSource::Url(u) => SourceView::Url(u@),
        MediaSource::FilePath(p) => SourceView::FilePath(p@),
        MediaSource::Bytes(b) => SourceView::Bytes(b@),
    }
}

/// The display text of a media source: URLs of more than 80 characters are
/// cut to their first 80 characters and marked with an ellipsis; paths are
/// shown as they are; bytes as their count.
pub open spec fn display_short_spec(source: MediaSource) -> Seq<char> {
    match source {
        MediaSource::Url(u) => if u@.len() > 80 {
            u@.take(80).push('…')
        } else {
            u@
        },
        MediaSource::FilePath(p) => p@,
        MediaSource::Bytes(b) => "<"@ + dec(b@.len()) + " bytes>"@,
    }
}

/// `s` starts with "http://" or "https://".
pub open spec fn is_web_url(s: Seq<char>) -> bool {
    ||| (s.len() >= 7 && s.take(7) == "http://"@)
    ||| (s.len() >= 8 && s.take(8) == "https://"@)
}

/// `s` begins with `prefix`.
pub fn starts_with_chars(s: &[char], prefix: &[char]) -> (b: bool)
    ensures
        b == (s@.len() >= prefix@.len() && s@.take(prefix@.len() as int) == prefix@),
{
    if s.len() < prefix.len() {
        return false;
    }
    let mut i: usize = 0;
    while i < prefix.len()
        invariant
            i <= prefix@.len() <= s@.len(),
            forall|j: int| 0 <= j < i ==> s@[j] == prefix@[j],
        decreases prefix@.len() - i,
    {
        if s[i] != prefix[i] {
            assert(s@.take(prefix@.len() as int)[i as int] != prefix@[i as int]);
            return false;
        }
        i = i + 1;
    }
    assert(s@.take(prefix@.len() as int) =~= prefix@);
    true
}

impl MediaSource {
    /// A copy of this source.
    pub fn duplicate(&self) -> (r: MediaSource)
        ensures
            source_view(r) == source_view(*self),
    {
        match self {
            MediaSource::Url(u) => MediaSource::Url(u.clone()),
            MediaSource::FilePath(p) => MediaSource::FilePath(p.clone()),
            MediaSource::Bytes(b) => {
                let c = b.clone();
                assert(c@ =~= b@);
                MediaSource::Bytes(c)
            },
        }
    }

    /// A location string as a source: "http://" and "https://" prefixes make
    /// a URL, anything else a file path.
    pub fn from_location(s: String) -> (r: MediaSource)
        ensures
            is_web_url(s@) ==> r == MediaSource::Url(s),
            !is_web_url(s@) ==> r == MediaSource::FilePath(s),
    {
        let cs = crate::text::chars_of(s.as_str());
        let http = crate::text::chars_of("http://");
        let https = crate::text::chars_of("https://");
        proof {
            reveal_strlit("http://");
            reveal_strlit("https://");
        }
        if starts_with_chars(cs.as_slice(), http.as_slice()) || starts_with_chars(
            cs.as_slice(),
            https.as_slice(),
        ) {
            MediaSource::Url(s)
        } else {
            MediaSource::FilePath(s)
        }
    }

    /// A short display string for logging; URLs beyond 80 bytes are truncated.
    pub fn display_short(&self) -> (r: String)
        ensures
            r@ == display_short_spec(*self),
    {
        match self {
            MediaSource::Url(u) => {
                let cs = crate::text::chars_of(u.as_str());
                if cs.len() > 80 {
                    let mut out: Vec<char> = Vec::new();
                    let mut i: usize = 0;
                    while i < 80
                        invariant
                            i <= 80,
                            80 < cs@.len(),
                            out@ == cs@.take(i as int),
                        decreases 80 - i,
                    {
                        out.push(cs[i]);
                        assert(cs@.take(i + 1) =~= cs@.take(i as int).push(cs@[i as int]));
                        i = i + 1;
                    }
                    out.push('…');
                    string_from_chars(out.as_slice())
                } else {
                    u.clone()
                }
            },
            MediaSource::FilePath(p) => p.clone(),
            MediaSource::Bytes(b) => {
                let mut out: Vec<char> = Vec::new();
                out.push('<');
                let d = dec_chars(b.len() as u64);
                extend_chars(&mut out, d.as_slice());
                push_str_chars(&mut out, " bytes>");
                proof {
                    reveal_strlit(" bytes>");
                    reveal_strlit("<");
                }
                assert(out@ =~= "<"@ + dec(b@.len()) + " bytes>"@);
                string_from_chars(out.as_slice())
            },
        }
    }
}

/// Whether a media asset is an image or a video.
#[derive(Debug, Clone, Copy, PartialEq, Eq, Structural, Default)]
#[non_exhaustive]
pub enum MediaKind {
    #[default]
    Image,
    Video,
}

/// A media asset placed on the narration timeline.
#[derive(Debug, Clone)]
pub struct MediaSegment {
    /// Source of the media asset.
    pub source: MediaSource,
    /// Start time in milliseconds.
    pub start_ms: u64,
    /// End time in milliseconds.
    pub end_ms: u64,
    /// Whether this is an image or video.
    pub kind: MediaKind,
}

/// Output of a text-to-speech call.
#[derive(Debug, Clone)]
pub struct TtsResult {
    /// Raw audio bytes (typically MP3).
    pub audio: Vec<u8>,
    /// Word-level captions with timing.
    pub captions: Vec<CaptionSegment>,
}

/// Output of keyword extraction.
#[derive(Debug, Clone)]
pub struct KeywordResult {
    /// Search keywords for media lookup.
    pub keywords: Vec<String>,
}

/// Everything a pipeline run produces.
#[derive(Debug, Clone)]
pub struct ContentOutput {
    /// The narration text, after any text transforms.
    pub narration: String,
    /// Raw audio bytes (MP3).
    pub audio: Vec<u8>,
    /// Word-level captions.
    pub captions: Vec<CaptionSegment>,
    /// Media segments matched to the narration timeline.
    pub media_segments: Vec<MediaSegment>,
    /// Where the audio was stored, when an audio storage is configured.
    pub audio_path: Option<String>,
    /// The rendered video, when a renderer is configured.
    pub video_path: Option<String>,
}

/// A background audio track mixed under the narration. Tracks loop by
/// default and play at 30% volume.
#[derive(Debug, Clone)]
pub struct AudioTrack {
    /// File path of the audio file.
    pub path: String,
    /// Volume in percent, from 0 (silent) to 100 (full). Default: 30.
    pub volume_percent: u32,
    /// Delay before the track starts, in milliseconds.
    pub start_ms: Option<u64>,
    /// Time at which the track is cut, in milliseconds.
    pub end_ms: Option<u64>,
    /// Whether the track loops for the length of the narration. Default: `true`.
    pub loop_track: bool,
}

impl AudioTrack {
    pub fn new(path: String) -> (r: Self)
        ensures
            r == (AudioTrack {
                path,
                volume_percent: 30,
                start_ms: None,
                end_ms: None,
                loop_track: true,
            }),
    {
        AudioTrack { path, volume_percent: 30, start_ms: None, end_ms: None, loop_track: true }
    }

    /// Sets the volume, clamped to at most 100 percent.
    pub fn volume(self, percent: u32) -> (r: Self)
        ensures
            r == (AudioTrack { volume_percent: if percent > 100 { 100 } else { percent }, ..self }),
    {
        let v = if percent > 100 {
            100
        } else {
            percent
        };
        AudioTrack { volume_percent: v, ..self }
    }

    pub fn start_at(self, ms: u64) -> (r: Self)
        ensures
            r == (AudioTrack { start_ms: Some(ms), ..self }),
    {
        AudioTrack { start_ms: Some(ms), ..self }
    }

    pub fn end_at(self, ms: u64) -> (r: Self)
        ensures
            r == (AudioTrack { end_ms: Some(ms), ..self }),
    {
        AudioTrack { end_ms: Some(ms), ..self }
    }

    pub fn no_loop(self) -> (r: Self)
        ensures
            r == (AudioTrack { loop_track: false, ..self }),
    {
        AudioTrack { loop_track: false, ..self }
    }
}

/// Input of a pipeline run.
#[derive(Debug, Clone)]
#[non_exhaustive]
pub enum ContentSource {
    /// Raw text to narrate directly.
    Text(String),
    /// Article URL to scrape and narrate.
    ArticleUrl { url: String, title: Option<String> },
    /// Search query whose results are narrated.
    SearchQuery(String),
}

/// A user-provided media asset with a description used for matching.
#[derive(Debug, Clone)]
pub struct MediaAsset {
    /// The media source.
    pub source: MediaSource,
    /// What the asset depicts.
    pub description: String,
    /// Whether this is an image or video.
    pub kind: MediaKind,
}

impl MediaAsset {
    /// An image asset from a URL or file path.
    pub fn image(source: MediaSource, description: String) -> (r: Self)
        ensures
            r == (MediaAsset { source, description, kind: MediaKind::Image }),
    {
        MediaAsset { source, description, kind: MediaKind::Image }
    }

    /// A video asset from a URL or file path.
    pub fn video(source: MediaSource, description: String) -> (r: Self)
        ensures
            r == (MediaAsset { source, description, kind: MediaKind::Video }),
    {
        MediaAsset { source, description, kind: MediaKind::Video }
    }

    /// An image asset from raw bytes.
    pub fn image_bytes(data: Vec<u8>, description: String) -> (r: Self)
        ensures
            r == (MediaAsset { source: MediaSource::Bytes(data), description, kind: MediaKind::Image }),
    {
        MediaAsset { source: MediaSource::Bytes(data), description, kind: MediaKind::Image }
    }

    /// A video asset from raw bytes.
    pub fn video_bytes(data: Vec<u8>, description: String) -> (r: Self)
        ensures
            r == (MediaAsset { source: MediaSource::Bytes(data), description, kind: MediaKind::Video }),
    {
        MediaAsset { source: MediaSource::Bytes(data), description, kind: MediaKind::Video }
    }
}

/// What to do with a narration chunk that no user asset matches.
#[derive(Debug, Clone, Copy, PartialEq, Eq, Structural, Default)]
#[non_exhaustive]
pub enum MediaFallback {
    /// Fall back to keyword extraction and stock media search.
    #[default]
    StockSearch,
    /// Leave the chunk without media.
    Skip,
}

/// A narration chunk with its timing in milliseconds.
#[derive(Debug, Clone)]
pub struct TimedChunk {
    /// The text of the chunk.
    pub text: String,
    /// Start time.
    pub start_ms: u64,
    /// End time.
    pub end_ms: u64,
}

/// Progress events of a pipeline run.
#[derive(Debug, Clone)]
#[non_exhaustive]
pub enum PipelineProgress {
    NarrationStarted,
    NarrationComplete { narration_len: usize },
    TextTransformStarted,
    TextTransformComplete { narration_len: usize },
    TtsStarted,
    TtsComplete { audio_bytes: usize, caption_count: usize },
    MediaSearchStarted { chunk_count: usize },
    MediaSegmentFound { index: usize, kind: MediaKind },
    MediaSearchComplete { segment_count: usize },
    AudioStorageStarted,
    AudioStored { path: String },
    RenderStarted,
    RenderComplete { path: String },
}

/// A media item chosen for one narration chunk.
#[derive(Debug, Clone)]
pub struct PlannedMedia {
    /// Source of the media asset.
    pub source: MediaSource,
    /// Whether this is an image or video.
    pub kind: MediaKind,
}

/// One hit of a stock media search.
#[derive(Debug, Clone)]
pub struct MediaSearchResult {
    pub url: String,
    pub kind: MediaKind,
}

/// The kind of data held in a cache entry.
#[derive(Debug, Clone, Copy, PartialEq, Eq, Structural, Hash)]
pub enum CacheCategory {
    /// Narration text generated from a content source.
    Narration,
    /// TTS audio and caption data.
    Tts,
    /// Media search results.
    Media,
}

/// The name a cache backend stores a category under.
pub open spec fn category_name(category: CacheCategory) -> Seq<char> {
    match category {
        CacheCategory::Narration => "narration"@,
        CacheCategory::Tts => "tts"@,
        CacheCategory::Media => "media"@,
    }
}

/// The name a cache backend stores a category under.
pub fn category_to_str(category: &CacheCategory) -> (r: &'static str)
    ensures
        r@ == category_name(*category),
{
    match category {
        CacheCategory::Narration => "narration",
        CacheCategory::Tts => "tts",
        CacheCategory::Media => "media",
    }
}

/// Type-state marker: nothing configured yet.
pub struct Init;

/// Type-state marker: a content provider is set.
pub struct HasContent;

/// Type-state marker: a TTS provider is set.
pub struct HasTts;

} // verus!
