//! Render configuration and the FFmpeg invocation that composites media,
//! narration, background tracks and subtitles into a video.
use vstd::prelude::*;

use crate::error::SdkError;
use crate::text::{chars_of, contains_chars, contains_seq, dec, dec_chars, dec_pad, dec_pad_chars, extend_chars, push_str_chars, string_from_chars};
use crate::types::{AudioTrack, ContentOutput, MediaKind, MediaSegment, MediaSource};

verus! {

broadcast use vstd::seq_lib::group_seq_properties;

/// Video rendering settings.
#[derive(Debug, Clone)]
pub struct RenderConfig {
    /// Output width in pixels. Default: 1920.
    pub width: u32,
    /// Output height in pixels. Default: 1080.
    pub height: u32,
    /// Frames per second. Default: 30.
    pub fps: u32,
    /// Output file path. Default: `"output.mp4"`.
    pub output_path: String,
    /// Background audio tracks mixed with the narration.
    pub audio_tracks: Vec<AudioTrack>,
    /// Video codec (`-c:v`). Default: `"libx264"`.
    pub video_codec: Option<String>,
    /// Audio codec (`-c:a`). Default: `"aac"`.
    pub audio_codec: Option<String>,
    /// Encoder preset (`-preset`). Default: `"fast"`.
    pub preset: Option<String>,
    /// Constant Rate Factor (`-crf`); FFmpeg's own default when `None`.
    pub crf: Option<u32>,
    /// Pixel format (`-pix_fmt`).
    pub pix_fmt: Option<String>,
    /// ASS force_style string for subtitles. Default: `"FontSize=24,PrimaryColour=&HFFFFFF&"`.
    pub subtitle_style: Option<String>,
    /// Extra FFmpeg arguments placed before the output path.
    pub extra_output_args: Vec<String>,
}

impl Default for RenderConfig {
    fn default() -> (r: Self)
        ensures
            r.width == 1920,
            r.height == 1080,
            r.fps == 30,
            r.output_path@ == "output.mp4"@,
            r.audio_tracks@.len() == 0,
            r.video_codec is None,
            r.audio_codec is None,
            r.preset is None,
            r.crf is None,
            r.pix_fmt is None,
            r.subtitle_style is None,
            r.extra_output_args@.len() == 0,
    {
        RenderConfig {
            width: 1920,
            height: 1080,
            fps: 30,
            output_path: String::from_str("output.mp4"),
            audio_tracks: Vec::new(),
            video_codec: None,
            audio_codec: None,
            preset: None,
            crf: None,
            pix_fmt: None,
            subtitle_style: None,
            extra_output_args: Vec::new(),
        }
    }
}

impl RenderConfig {
    /// Sets the video codec (`-c:v`).
    pub fn video_codec(self, codec: String) -> (r: Self)
        ensures
            r == (RenderConfig { video_codec: Some(codec), ..self }),
    {
        RenderConfig { video_codec: Some(codec), ..self }
    }

    /// Sets the audio codec (`-c:a`).
    pub fn audio_codec(self, codec: String) -> (r: Self)
        ensures
            r == (RenderConfig { audio_codec: Some(codec), ..self }),
    {
        RenderConfig { audio_codec: Some(codec), ..self }
    }

    /// Sets the encoder preset (`-preset`).
    pub fn preset(self, preset: String) -> (r: Self)
        ensures
            r == (RenderConfig { preset: Some(preset), ..self }),
    {
        RenderConfig { preset: Some(preset), ..self }
    }

    /// Sets the Constant Rate Factor (`-crf`).
    pub fn crf(self, crf: u32) -> (r: Self)
        ensures
            r == (RenderConfig { crf: Some(crf), ..self }),
    {
        RenderConfig { crf: Some(crf), ..self }
    }

    /// Sets the pixel format (`-pix_fmt`).
    pub fn pix_fmt(self, fmt: String) -> (r: Self)
        ensures
            r == (RenderConfig { pix_fmt: Some(fmt), ..self }),
    {
        RenderConfig { pix_fmt: Some(fmt), ..self }
    }

    /// Sets the subtitle force_style string.
    pub fn subtitle_style(self, style: String) -> (r: Self)
        ensures
            r == (RenderConfig { subtitle_style: Some(style), ..self }),
    {
        RenderConfig { subtitle_style: Some(style), ..self }
    }

    /// Sets the extra FFmpeg arguments placed before the output path.
    pub fn extra_output_args(self, args: Vec<String>) -> (r: Self)
        ensures
            r == (RenderConfig { extra_output_args: args, ..self }),
    {
        RenderConfig { extra_output_args: args, ..self }
    }
}

/// The last `n` characters of `s` (all of it when it is shorter).
pub open spec fn tail_spec(s: Seq<char>, n: nat) -> Seq<char> {
    if s.len() > n {
        s.skip(s.len() - n)
    } else {
        s
    }
}

/// The end of FFmpeg's error output: its last `n` characters, where the
/// actual error is (the start is FFmpeg's banner).
pub fn stderr_tail(s: &str, n: usize) -> (r: String)
    ensures
        r@ == tail_spec(s@, n as nat),
{
    let cs = chars_of(s);
    if cs.len() <= n {
        return string_from_chars(cs.as_slice());
    }
    let start = cs.len() - n;
    let mut out: Vec<char> = Vec::new();
    let mut i: usize = start;
    while i < cs.len()
        invariant
            start <= i <= cs@.len(),
            start == cs@.len() - n,
            out@ == cs@.subrange(start as int, i as int),
        decreases cs@.len() - i,
    {
        out.push(cs[i]);
        assert(cs@.subrange(start as int, i + 1) =~= cs@.subrange(start as int, i as int).push(cs@[i as int]));
        i = i + 1;
    }
    assert(out@ =~= cs@.skip(start as int));
    string_from_chars(out.as_slice())
}

/// A media file ready for compositing, with the time range it covers.
#[derive(Debug, Clone)]
pub struct PreparedMedia {
    pub path: String,
    pub start_ms: u64,
    pub end_ms: u64,
    pub is_image: bool,
}

/// Rendering needs narration audio.
pub fn check_renderable(output: &ContentOutput) -> (r: Result<(), SdkError>)
    ensures
        r is Ok <==> output.audio@.len() > 0,
        r matches Err(e) ==> e matches SdkError::VideoRender(m) && m@ == "no audio data to render"@,
{
    if output.audio.len() == 0 {
        Err(SdkError::VideoRender(String::from_str("no audio data to render")))
    } else {
        Ok(())
    }
}

/// The location a media source names: the URL or path, or nothing for bytes.
pub open spec fn location_of(source: MediaSource) -> Seq<char> {
    match source {
        MediaSource::Url(u) => u@,
        MediaSource::FilePath(p) => p@,
        MediaSource::Bytes(_) => Seq::empty(),
    }
}

/// A segment is treated as an image unless it is marked as a video or its
/// location mentions ".mp4".
pub open spec fn is_image_segment(seg: MediaSegment) -> bool {
    !contains_seq(location_of(seg.source), ".mp4"@) && seg.kind != MediaKind::Video
}

/// Whether a media segment is composited as an image.
pub fn segment_is_image(seg: &MediaSegment) -> (b: bool)
    ensures
        b == is_image_segment(*seg),
{
    let loc: Vec<char> = match &seg.source {
        MediaSource::Url(u) => chars_of(u.as_str()),
        MediaSource::FilePath(p) => chars_of(p.as_str()),
        MediaSource::Bytes(_) => Vec::new(),
    };
    let mp4 = chars_of(".mp4");
    !contains_chars(loc.as_slice(), mp4.as_slice()) && seg.kind != MediaKind::Video
}

/// The working-directory file name of media number `i`.
pub open spec fn media_file_name_spec(i: nat, is_image: bool) -> Seq<char> {
    "media_"@ + dec(i) + if is_image {
        ".jpg"@
    } else {
        ".mp4"@
    }
}

/// `media_{i}.jpg` for images, `media_{i}.mp4` for videos.
pub fn media_file_name(i: usize, is_image: bool) -> (r: String)
    ensures
        r@ == media_file_name_spec(i as nat, is_image),
{
    let mut out: Vec<char> = Vec::new();
    push_str_chars(&mut out, "media_");
    let d = dec_chars(i as u64);
    extend_chars(&mut out, d.as_slice());
    if is_image {
        push_str_chars(&mut out, ".jpg");
    } else {
        push_str_chars(&mut out, ".mp4");
    }
    string_from_chars(out.as_slice())
}

/// A path as FFmpeg's filter syntax needs it: backslashes become slashes
/// and colons are escaped.
pub open spec fn escape_filter_path_spec(p: Seq<char>) -> Seq<char>
    decreases p.len(),
{
    if p.len() == 0 {
        Seq::empty()
    } else {
        let c = p.last();
        escape_filter_path_spec(p.drop_last()) + if c == '\\' {
            seq!['/']
        } else if c == ':' {
            seq!['\\', ':']
        } else {
            seq![c]
        }
    }
}

/// `path.replace('\\', "/").replace(':', "\\:")`.
pub fn escape_filter_path(path: &str) -> (r: String)
    ensures
        r@ == escape_filter_path_spec(path@),
{
    let cs = chars_of(path);
    let mut out: Vec<char> = Vec::new();
    let mut i: usize = 0;
    while i < cs.len()
        invariant
            i <= cs@.len(),
            out@ == escape_filter_path_spec(cs@.take(i as int)),
        decreases cs@.len() - i,
    {
        let c = cs[i];
        if c == '\\' {
            out.push('/');
        } else if c == ':' {
            out.push('\\');
            out.push(':');
        } else {
            out.push(c);
        }
        assert(cs@.take(i + 1).drop_last() =~= cs@.take(i as int));
        assert(out@ =~= escape_filter_path_spec(cs@.take(i + 1)));
        i = i + 1;
    }
    assert(cs@.take(cs@.len() as int) =~= cs@);
    string_from_chars(out.as_slice())
}

/// Milliseconds as seconds with three decimals.
pub open spec fn secs3(ms: nat) -> Seq<char> {
    dec(ms / 1000) + seq!['.'] + dec_pad(ms % 1000, 3)
}

/// The signed span from `start` to `end` as seconds with three decimals.
pub open spec fn span_secs3(start: nat, end: nat) -> Seq<char> {
    if end >= start {
        secs3((end - start) as nat)
    } else {
        seq!['-'] + secs3((start - end) as nat)
    }
}

/// A volume percentage as a fraction with two decimals.
pub open spec fn volume2(percent: nat) -> Seq<char> {
    dec(percent / 100) + seq!['.'] + dec_pad(percent % 100, 2)
}

fn push_dec(out: &mut Vec<char>, n: u64)
    ensures
        final(out)@ == old(out)@ + dec(n as nat),
{
    let d = dec_chars(n);
    extend_chars(out, d.as_slice());
}

fn push_secs3(out: &mut Vec<char>, ms: u64)
    ensures
        final(out)@ == old(out)@ + secs3(ms as nat),
{
    let ghost o = out@;
    push_dec(out, ms / 1000);
    out.push('.');
    let d = dec_pad_chars(ms % 1000, 3);
    extend_chars(out, d.as_slice());
    assert(out@ =~= o + secs3(ms as nat));
}

fn push_span_secs3(out: &mut Vec<char>, start: u64, end: u64)
    ensures
        final(out)@ == old(out)@ + span_secs3(start as nat, end as nat),
{
    let ghost o = out@;
    if end >= start {
        push_secs3(out, end - start);
    } else {
        out.push('-');
        push_secs3(out, start - end);
        assert(out@ =~= o + span_secs3(start as nat, end as nat));
    }
}

fn push_string(out: &mut Vec<char>, s: &String)
    ensures
        final(out)@ == old(out)@ + s@,
{
    push_str_chars(out, s.as_str());
}

/// The subtitle filter for an escaped SRT path and a force_style string.
pub open spec fn subtitle_filter(srt: Seq<char>, style: Seq<char>) -> Seq<char> {
    "subtitles='"@ + srt + "':force_style='"@ + style + "'"@
}

/// The style used when the configuration sets none.
pub open spec fn default_subtitle_style() -> Seq<char> {
    "FontSize=24,PrimaryColour=&HFFFFFF&"@
}

pub open spec fn or_default(o: Option<String>, d: Seq<char>) -> Seq<char> {
    match o {
        Some(s) => s@,
        None => d,
    }
}

/// The filter for media input `i`: images loop as a still frame, videos
/// restart their timestamps; both are scaled and padded to the frame; all
/// but the last are trimmed to the span they cover.
pub open spec fn media_filter(i: nat, m: PreparedMedia, last: bool, w: nat, h: nat, fps: nat) -> Seq<char> {
    let trim = if last {
        Seq::empty()
    } else {
        ",trim=duration="@ + span_secs3(m.start_ms as nat, m.end_ms as nat)
    };
    let fit = "scale="@ + dec(w) + seq![':'] + dec(h) + ":force_original_aspect_ratio=decrease,pad="@
        + dec(w) + seq![':'] + dec(h) + ":(ow-iw)/2:(oh-ih)/2"@;
    if m.is_image {
        seq!['['] + dec(i) + ":v]loop=-1:1:0,setpts=N/"@ + dec(fps) + "/TB,"@ + fit + trim + "[v"@
            + dec(i) + seq![']']
    } else {
        seq!['['] + dec(i) + ":v]"@ + fit + ",setpts=PTS-STARTPTS"@ + trim + "[v"@ + dec(i) + seq![
            ']',
        ]
    }
}

pub open spec fn media_filters(media: Seq<PreparedMedia>, n: nat, w: nat, h: nat, fps: nat) -> Seq<Seq<char>>
    decreases n,
{
    if n == 0 {
        Seq::empty()
    } else {
        media_filters(media, (n - 1) as nat, w, h, fps).push(
            media_filter((n - 1) as nat, media[n - 1], n == media.len(), w, h, fps),
        )
    }
}

/// `[v0][v1]...[v{n-1}]`.
pub open spec fn concat_labels(n: nat) -> Seq<char>
    decreases n,
{
    if n == 0 {
        Seq::empty()
    } else {
        concat_labels((n - 1) as nat) + "[v"@ + dec((n - 1) as nat) + seq![']']
    }
}

/// The video part of the filter graph, ending in `[vfinal]`.
pub open spec fn video_filters(
    media: Seq<PreparedMedia>,
    srt: Seq<char>,
    has_subtitles: bool,
    cfg: RenderConfig,
) -> Seq<Seq<char>> {
    let style = or_default(cfg.subtitle_style, default_subtitle_style());
    let (w, h, fps) = (cfg.width as nat, cfg.height as nat, cfg.fps as nat);
    if media.len() == 0 {
        seq![
            "color=c=black:s="@ + dec(w) + seq!['x'] + dec(h) + ":r="@ + dec(fps) + if has_subtitles {
                seq![','] + subtitle_filter(srt, style)
            } else {
                Seq::empty()
            } + "[vfinal]"@,
        ]
    } else {
        media_filters(media, media.len(), w, h, fps).push(
            concat_labels(media.len()) + "concat=n="@ + dec(media.len()) + ":v=1:a=0[vout]"@,
        ).push(
            if has_subtitles {
                "[vout]"@ + subtitle_filter(srt, style) + "[vfinal]"@
            } else {
                "[vout]copy[vfinal]"@
            },
        )
    }
}

/// The filter of background track `i`, read from input `input`.
pub open spec fn track_filter(i: nat, input: nat, t: AudioTrack) -> Seq<char> {
    seq!['['] + dec(input) + ":a]volume="@ + volume2(t.volume_percent as nat) + match t.start_ms {
        Some(s) => ",adelay="@ + dec(s as nat) + seq!['|'] + dec(s as nat),
        None => Seq::empty(),
    } + match t.end_ms {
        Some(e) => ",atrim=end="@ + secs3(e as nat),
        None => Seq::empty(),
    } + "[at"@ + dec(i) + seq![']']
}

pub open spec fn track_filters(tracks: Seq<AudioTrack>, narr: nat, n: nat) -> Seq<Seq<char>>
    decreases n,
{
    if n == 0 {
        Seq::empty()
    } else {
        track_filters(tracks, narr, (n - 1) as nat).push(
            track_filter((n - 1) as nat, narr + n, tracks[n - 1]),
        )
    }
}

/// `[at0][at1]...[at{n-1}]`.
pub open spec fn mix_labels(n: nat) -> Seq<char>
    decreases n,
{
    if n == 0 {
        Seq::empty()
    } else {
        mix_labels((n - 1) as nat) + "[at"@ + dec((n - 1) as nat) + seq![']']
    }
}

/// The audio mixing part of the filter graph, ending in `[afinal]`; the
/// narration is input `narr` and the tracks follow it.
pub open spec fn audio_filters(tracks: Seq<AudioTrack>, narr: nat) -> Seq<Seq<char>> {
    seq![seq!['['] + dec(narr) + ":a]volume=1.0[anarr]"@] + track_filters(tracks, narr, tracks.len())
        .push(
        "[anarr]"@ + mix_labels(tracks.len()) + "amix=inputs="@ + dec(tracks.len() + 1)
            + ":duration=first:dropout_transition=0:normalize=0[afinal]"@,
    )
}

/// Pieces joined with `"; "`.
pub open spec fn join_semi(x: Seq<Seq<char>>) -> Seq<char>
    decreases x.len(),
{
    if x.len() == 0 {
        Seq::empty()
    } else if x.len() == 1 {
        x[0]
    } else {
        join_semi(x.drop_last()) + "; "@ + x.last()
    }
}

/// The inputs: each media file (the last video looping), the narration,
/// then each background track (looping ones with `-stream_loop -1`).
pub open spec fn media_inputs(media: Seq<PreparedMedia>, n: nat) -> Seq<Seq<char>>
    decreases n,
{
    if n == 0 {
        Seq::empty()
    } else {
        let m = media[n - 1];
        let lp = if n == media.len() && !m.is_image {
            seq!["-stream_loop"@, "-1"@]
        } else {
            Seq::empty()
        };
        media_inputs(media, (n - 1) as nat) + lp + seq!["-i"@, m.path@]
    }
}

pub open spec fn track_inputs(tracks: Seq<AudioTrack>, n: nat) -> Seq<Seq<char>>
    decreases n,
{
    if n == 0 {
        Seq::empty()
    } else {
        let t = tracks[n - 1];
        let lp = if t.loop_track {
            seq!["-stream_loop"@, "-1"@]
        } else {
            Seq::empty()
        };
        track_inputs(tracks, (n - 1) as nat) + lp + seq!["-i"@, t.path@]
    }
}

pub open spec fn strings_seq(v: Seq<String>) -> Seq<Seq<char>> {
    v.map_values(|s: String| s@)
}

/// The full FFmpeg argument list: overwrite, the inputs, the filter graph
/// and its mapped streams, then the encoder and output arguments.
pub open spec fn ffmpeg_args_spec(
    media: Seq<PreparedMedia>,
    srt: Seq<char>,
    has_subtitles: bool,
    audio_path: Seq<char>,
    cfg: RenderConfig,
) -> Seq<Seq<char>> {
    let tracks = cfg.audio_tracks@;
    let (fc, amap) = filter_and_map(media, srt, has_subtitles, cfg);
    seq!["-y"@] + media_inputs(media, media.len()) + seq!["-i"@, audio_path] + track_inputs(
        tracks,
        tracks.len(),
    ) + seq!["-filter_complex"@, fc, "-map"@, "[vfinal]"@, "-map"@, amap] + output_args(cfg)
}

pub open spec fn chars_seqs(v: Seq<Vec<char>>) -> Seq<Seq<char>> {
    v.map_values(|x: Vec<char>| x@)
}

fn push_fit(out: &mut Vec<char>, w: u32, h: u32)
    ensures
        final(out)@ == old(out)@ + ("scale="@ + dec(w as nat) + seq![':'] + dec(h as nat)
            + ":force_original_aspect_ratio=decrease,pad="@ + dec(w as nat) + seq![':'] + dec(
            h as nat,
        ) + ":(ow-iw)/2:(oh-ih)/2"@),
{
    let ghost o = out@;
    push_str_chars(out, "scale=");
    push_dec(out, w as u64);
    out.push(':');
    push_dec(out, h as u64);
    push_str_chars(out, ":force_original_aspect_ratio=decrease,pad=");
    push_dec(out, w as u64);
    out.push(':');
    push_dec(out, h as u64);
    push_str_chars(out, ":(ow-iw)/2:(oh-ih)/2");
    assert(out@ =~= o + ("scale="@ + dec(w as nat) + seq![':'] + dec(h as nat)
        + ":force_original_aspect_ratio=decrease,pad="@ + dec(w as nat) + seq![':'] + dec(h as nat)
        + ":(ow-iw)/2:(oh-ih)/2"@));
}

proof fn lemma_media_filters_index(media: Seq<PreparedMedia>, n: nat, w: nat, h: nat, fps: nat, i: int)
    requires
        0 <= i < n,
    ensures
        media_filters(media, n, w, h, fps).len() == n,
        media_filters(media, n, w, h, fps)[i] == media_filter(i as nat, media[i], i + 1 == media.len(), w, h, fps),
    decreases n,
{
    if i < n - 1 {
        lemma_media_filters_index(media, (n - 1) as nat, w, h, fps, i);
    } else if n > 1 {
        lemma_media_filters_index(media, (n - 1) as nat, w, h, fps, 0);
    }
    if n == 1 {
        assert(media_filters(media, 0, w, h, fps).len() == 0);
    }
}

/// Every media segment but the last plays for exactly its own span: its
/// filter ends by trimming to `end_ms - start_ms` milliseconds, written as
/// seconds with three decimals, before naming its output `[v<i>]`.
pub proof fn lemma_segments_trimmed_to_span(
    media: Seq<PreparedMedia>,
    srt: Seq<char>,
    has_subtitles: bool,
    cfg: RenderConfig,
    i: int,
)
    requires
        0 <= i < media.len() - 1,
        media[i].start_ms <= media[i].end_ms,
    ensures
        ({
            let d = (media[i].end_ms - media[i].start_ms) as nat;
            exists|head: Seq<char>|
                video_filters(media, srt, has_subtitles, cfg)[i] == head + ",trim=duration="@ + dec(d / 1000)
                    + seq!['.'] + dec_pad(d % 1000, 3) + "[v"@ + dec(i as nat) + seq![']']
        }),
{
    let (w, h, fps) = (cfg.width as nat, cfg.height as nat, cfg.fps as nat);
    lemma_media_filters_index(media, media.len(), w, h, fps, i);
    let m = media[i];
    let d = (m.end_ms - m.start_ms) as nat;
    let fit = "scale="@ + dec(w) + seq![':'] + dec(h) + ":force_original_aspect_ratio=decrease,pad="@
        + dec(w) + seq![':'] + dec(h) + ":(ow-iw)/2:(oh-ih)/2"@;
    let head = if m.is_image {
        seq!['['] + dec(i as nat) + ":v]loop=-1:1:0,setpts=N/"@ + dec(fps) + "/TB,"@ + fit
    } else {
        seq!['['] + dec(i as nat) + ":v]"@ + fit + ",setpts=PTS-STARTPTS"@
    };
    assert(video_filters(media, srt, has_subtitles, cfg)[i] == media_filter(i as nat, m, false, w, h, fps));
    assert(span_secs3(m.start_ms as nat, m.end_ms as nat) == dec(d / 1000) + seq!['.'] + dec_pad(d % 1000, 3));
    assert(video_filters(media, srt, has_subtitles, cfg)[i] =~= head + ",trim=duration="@ + dec(d / 1000)
        + seq!['.'] + dec_pad(d % 1000, 3) + "[v"@ + dec(i as nat) + seq![']']);
}

fn media_filter_exec(i: usize, m: &PreparedMedia, last: bool, w: u32, h: u32, fps: u32) -> (r: Vec<char>)
    ensures
        r@ == media_filter(i as nat, *m, last, w as nat, h as nat, fps as nat),
{
    let mut trim: Vec<char> = Vec::new();
    if !last {
        push_str_chars(&mut trim, ",trim=duration=");
        push_span_secs3(&mut trim, m.start_ms, m.end_ms);
    }
    let mut out: Vec<char> = Vec::new();
    out.push('[');
    push_dec(&mut out, i as u64);
    if m.is_image {
        push_str_chars(&mut out, ":v]loop=-1:1:0,setpts=N/");
        push_dec(&mut out, fps as u64);
        push_str_chars(&mut out, "/TB,");
        push_fit(&mut out, w, h);
    } else {
        push_str_chars(&mut out, ":v]");
        push_fit(&mut out, w, h);
        push_str_chars(&mut out, ",setpts=PTS-STARTPTS");
    }
    extend_chars(&mut out, trim.as_slice());
    push_str_chars(&mut out, "[v");
    push_dec(&mut out, i as u64);
    out.push(']');
    assert(out@ =~= media_filter(i as nat, *m, last, w as nat, h as nat, fps as nat));
    out
}

fn push_subtitle_filter(out: &mut Vec<char>, srt: &str, style: &Option<String>)
    ensures
        final(out)@ == old(out)@ + subtitle_filter(srt@, or_default(*style, default_subtitle_style())),
{
    let ghost o = out@;
    push_str_chars(out, "subtitles='");
    push_str_chars(out, srt);
    push_str_chars(out, "':force_style='");
    match style {
        Some(st) => push_string(out, st),
        None => push_str_chars(out, "FontSize=24,PrimaryColour=&HFFFFFF&"),
    }
    push_str_chars(out, "'");
    assert(out@ =~= o + subtitle_filter(srt@, or_default(*style, default_subtitle_style())));
}

fn video_filters_exec(media: &[PreparedMedia], srt: &str, has_subtitles: bool, cfg: &RenderConfig) -> (r: Vec<Vec<char>>)
    ensures
        chars_seqs(r@) == video_filters(media@, srt@, has_subtitles, *cfg),
{
    let mut parts: Vec<Vec<char>> = Vec::new();
    let n = media.len();
    if n == 0 {
        let mut p: Vec<char> = Vec::new();
        push_str_chars(&mut p, "color=c=black:s=");
        push_dec(&mut p, cfg.width as u64);
        p.push('x');
        push_dec(&mut p, cfg.height as u64);
        push_str_chars(&mut p, ":r=");
        push_dec(&mut p, cfg.fps as u64);
        if has_subtitles {
            p.push(',');
            push_subtitle_filter(&mut p, srt, &cfg.subtitle_style);
        }
        push_str_chars(&mut p, "[vfinal]");
        parts.push(p);
        proof {
            let style = or_default(cfg.subtitle_style, default_subtitle_style());
            let (w, h, fps) = (cfg.width as nat, cfg.height as nat, cfg.fps as nat);
            assert(parts@[0]@ =~= "color=c=black:s="@ + dec(w) + seq!['x'] + dec(h) + ":r="@ + dec(fps)
                + if has_subtitles {
                seq![','] + subtitle_filter(srt@, style)
            } else {
                Seq::empty()
            } + "[vfinal]"@);
        }
        assert(chars_seqs(parts@) =~= video_filters(media@, srt@, has_subtitles, *cfg));
        return parts;
    }
    let mut labels: Vec<char> = Vec::new();
    let mut i: usize = 0;
    while i < n
        invariant
            i <= n,
            n == media@.len(),
            n > 0,
            chars_seqs(parts@) == media_filters(media@, i as nat, cfg.width as nat, cfg.height as nat, cfg.fps as nat),
            labels@ == concat_labels(i as nat),
        decreases n - i,
    {
        let f = media_filter_exec(i, &media[i], i + 1 == n, cfg.width, cfg.height, cfg.fps);
        parts.push(f);
        push_str_chars(&mut labels, "[v");
        push_dec(&mut labels, i as u64);
        labels.push(']');
        assert(chars_seqs(parts@) =~= media_filters(media@, (i + 1) as nat, cfg.width as nat, cfg.height as nat, cfg.fps as nat));
        assert(labels@ =~= concat_labels((i + 1) as nat));
        i = i + 1;
    }
    let mut c = labels;
    push_str_chars(&mut c, "concat=n=");
    push_dec(&mut c, n as u64);
    push_str_chars(&mut c, ":v=1:a=0[vout]");
    let ghost cv = c@;
    parts.push(c);
    let mut last: Vec<char> = Vec::new();
    if has_subtitles {
        push_str_chars(&mut last, "[vout]");
        push_subtitle_filter(&mut last, srt, &cfg.subtitle_style);
        push_str_chars(&mut last, "[vfinal]");
    } else {
        push_str_chars(&mut last, "[vout]copy[vfinal]");
    }
    let ghost lv = last@;
    parts.push(last);
    proof {
        let style = or_default(cfg.subtitle_style, default_subtitle_style());
        assert(cv =~= concat_labels(n as nat) + "concat=n="@ + dec(n as nat) + ":v=1:a=0[vout]"@);
        assert(lv =~= if has_subtitles {
            "[vout]"@ + subtitle_filter(srt@, style) + "[vfinal]"@
        } else {
            "[vout]copy[vfinal]"@
        });
    }
    assert(chars_seqs(parts@) =~= video_filters(media@, srt@, has_subtitles, *cfg));
    parts
}

fn track_filter_exec(i: usize, input: u64, t: &AudioTrack) -> (r: Vec<char>)
    ensures
        r@ == track_filter(i as nat, input as nat, *t),
{
    let mut out: Vec<char> = Vec::new();
    out.push('[');
    push_dec(&mut out, input);
    push_str_chars(&mut out, ":a]volume=");
    let v = t.volume_percent as u64;
    push_dec(&mut out, v / 100);
    out.push('.');
    let d = dec_pad_chars(v % 100, 2);
    extend_chars(&mut out, d.as_slice());
    match t.start_ms {
        Some(s) => {
            push_str_chars(&mut out, ",adelay=");
            push_dec(&mut out, s);
            out.push('|');
            push_dec(&mut out, s);
        },
        None => {},
    }
    match t.end_ms {
        Some(e) => {
            push_str_chars(&mut out, ",atrim=end=");
            push_secs3(&mut out, e);
        },
        None => {},
    }
    push_str_chars(&mut out, "[at");
    push_dec(&mut out, i as u64);
    out.push(']');
    assert(out@ =~= track_filter(i as nat, input as nat, *t));
    out
}

fn audio_filters_exec(parts: &mut Vec<Vec<char>>, tracks: &[AudioTrack], narr: usize)
    requires
        narr + tracks@.len() + 1 <= usize::MAX,
    ensures
        chars_seqs(final(parts)@) == chars_seqs(old(parts)@) + audio_filters(tracks@, narr as nat),
{
    let ghost base = chars_seqs(parts@);
    let mut first: Vec<char> = Vec::new();
    first.push('[');
    push_dec(&mut first, narr as u64);
    push_str_chars(&mut first, ":a]volume=1.0[anarr]");
    let ghost fv = first@;
    parts.push(first);
    assert(chars_seqs(parts@) =~= base + seq![fv]);
    let n = tracks.len();
    let mut labels: Vec<char> = Vec::new();
    let mut i: usize = 0;
    while i < n
        invariant
            i <= n,
            n == tracks@.len(),
            narr + n + 1 <= usize::MAX,
            fv == seq!['['] + dec(narr as nat) + ":a]volume=1.0[anarr]"@,
            chars_seqs(parts@) == base + seq![fv] + track_filters(tracks@, narr as nat, i as nat),
            labels@ == mix_labels(i as nat),
        decreases n - i,
    {
        let f = track_filter_exec(i, (narr + 1 + i) as u64, &tracks[i]);
        let ghost ffv = f@;
        let ghost before = chars_seqs(parts@);
        parts.push(f);
        assert(chars_seqs(parts@) =~= before.push(ffv));
        push_str_chars(&mut labels, "[at");
        push_dec(&mut labels, i as u64);
        labels.push(']');
        assert(chars_seqs(parts@) =~= base + seq![fv] + track_filters(tracks@, narr as nat, (i + 1) as nat));
        assert(labels@ =~= mix_labels((i + 1) as nat));
        i = i + 1;
    }
    let mut mix: Vec<char> = Vec::new();
    push_str_chars(&mut mix, "[anarr]");
    extend_chars(&mut mix, labels.as_slice());
    push_str_chars(&mut mix, "amix=inputs=");
    push_dec(&mut mix, (n + 1) as u64);
    push_str_chars(&mut mix, ":duration=first:dropout_transition=0:normalize=0[afinal]");
    let ghost mv = mix@;
    let ghost before = chars_seqs(parts@);
    parts.push(mix);
    assert(chars_seqs(parts@) =~= before.push(mv));
    assert(chars_seqs(parts@) =~= base + audio_filters(tracks@, narr as nat));
}

fn join_semi_exec(parts: &[Vec<char>]) -> (r: Vec<char>)
    ensures
        r@ == join_semi(chars_seqs(parts@)),
{
    let mut out: Vec<char> = Vec::new();
    let mut i: usize = 0;
    while i < parts.len()
        invariant
            i <= parts@.len(),
            out@ == join_semi(chars_seqs(parts@.take(i as int))),
        decreases parts@.len() - i,
    {
        if i > 0 {
            push_str_chars(&mut out, "; ");
        }
        extend_chars(&mut out, parts[i].as_slice());
        proof {
            let x = chars_seqs(parts@.take(i + 1));
            assert(x.drop_last() =~= chars_seqs(parts@.take(i as int)));
            assert(x.last() == parts@[i as int]@);
            if i == 0 {
                assert(x.len() == 1);
            }
        }
        i = i + 1;
    }
    assert(parts@.take(parts@.len() as int) =~= parts@);
    out
}

fn push_arg(args: &mut Vec<String>, s: &str)
    ensures
        strings_seq(final(args)@) == strings_seq(old(args)@).push(s@),
{
    let c = chars_of(s);
    args.push(string_from_chars(c.as_slice()));
    assert(strings_seq(args@) =~= strings_seq(old(args)@).push(s@));
}

fn push_arg_chars(args: &mut Vec<String>, s: &[char])
    ensures
        strings_seq(final(args)@) == strings_seq(old(args)@).push(s@),
{
    args.push(string_from_chars(s));
    assert(strings_seq(args@) =~= strings_seq(old(args)@).push(s@));
}

fn push_arg_or(args: &mut Vec<String>, v: &Option<String>, d: &str)
    ensures
        strings_seq(final(args)@) == strings_seq(old(args)@).push(or_default(*v, d@)),
{
    match v {
        Some(s) => push_arg(args, s.as_str()),
        None => push_arg(args, d),
    }
}

fn push_input_args(args: &mut Vec<String>, media: &[PreparedMedia], audio_path: &str, tracks: &Vec<AudioTrack>)
    ensures
        strings_seq(final(args)@) == strings_seq(old(args)@) + media_inputs(media@, media@.len())
            + seq!["-i"@, audio_path@] + track_inputs(tracks@, tracks@.len()),
{
    let ghost base = strings_seq(args@);
    let n = media.len();
    let mut i: usize = 0;
    while i < n
        invariant
            i <= n,
            n == media@.len(),
            strings_seq(args@) == base + media_inputs(media@, i as nat),
        decreases n - i,
    {
        if i + 1 == n && !media[i].is_image {
            push_arg(args, "-stream_loop");
            push_arg(args, "-1");
        }
        push_arg(args, "-i");
        push_arg(args, media[i].path.as_str());
        assert(strings_seq(args@) =~= base + media_inputs(media@, (i + 1) as nat));
        i = i + 1;
    }
    push_arg(args, "-i");
    push_arg(args, audio_path);
    let ghost mid = strings_seq(args@);
    assert(mid =~= base + media_inputs(media@, media@.len()) + seq!["-i"@, audio_path@]);
    let mut j: usize = 0;
    while j < tracks.len()
        invariant
            j <= tracks@.len(),
            strings_seq(args@) == mid + track_inputs(tracks@, j as nat),
        decreases tracks@.len() - j,
    {
        if tracks[j].loop_track {
            push_arg(args, "-stream_loop");
            push_arg(args, "-1");
        }
        push_arg(args, "-i");
        push_arg(args, tracks[j].path.as_str());
        assert(strings_seq(args@) =~= mid + track_inputs(tracks@, (j + 1) as nat));
        j = j + 1;
    }
}

/// The filter graph and the audio stream to map.
pub open spec fn filter_and_map(
    media: Seq<PreparedMedia>,
    srt: Seq<char>,
    has_subtitles: bool,
    cfg: RenderConfig,
) -> (Seq<char>, Seq<char>) {
    let tracks = cfg.audio_tracks@;
    let vf = video_filters(media, srt, has_subtitles, cfg);
    if tracks.len() == 0 {
        (join_semi(vf), dec(media.len()) + ":a"@)
    } else {
        (join_semi(vf + audio_filters(tracks, media.len())), "[afinal]"@)
    }
}

fn filter_and_map_exec(media: &[PreparedMedia], srt: &str, has_subtitles: bool, cfg: &RenderConfig) -> (r: (Vec<char>, Vec<char>))
    requires
        media@.len() + cfg.audio_tracks@.len() + 1 <= usize::MAX,
    ensures
        (r.0@, r.1@) == filter_and_map(media@, srt@, has_subtitles, *cfg),
{
    let mut parts = video_filters_exec(media, srt, has_subtitles, cfg);
    if cfg.audio_tracks.len() == 0 {
        let fc = join_semi_exec(parts.as_slice());
        let mut amap: Vec<char> = Vec::new();
        push_dec(&mut amap, media.len() as u64);
        push_str_chars(&mut amap, ":a");
        (fc, amap)
    } else {
        audio_filters_exec(&mut parts, cfg.audio_tracks.as_slice(), media.len());
        let fc = join_semi_exec(parts.as_slice());
        let mut amap: Vec<char> = Vec::new();
        push_str_chars(&mut amap, "[afinal]");
        (fc, amap)
    }
}

/// The encoder and output arguments.
pub open spec fn output_args(cfg: RenderConfig) -> Seq<Seq<char>> {
    seq![
        "-c:v"@,
        or_default(cfg.video_codec, "libx264"@),
        "-preset"@,
        or_default(cfg.preset, "fast"@),
        "-c:a"@,
        or_default(cfg.audio_codec, "aac"@),
    ] + match cfg.crf {
        Some(c) => seq!["-crf"@, dec(c as nat)],
        None => Seq::empty(),
    } + match cfg.pix_fmt {
        Some(p) => seq!["-pix_fmt"@, p@],
        None => Seq::empty(),
    } + seq!["-shortest"@, "-r"@, dec(cfg.fps as nat)] + strings_seq(cfg.extra_output_args@)
        + seq![cfg.output_path@]
}

fn push_output_args(args: &mut Vec<String>, cfg: &RenderConfig)
    ensures
        strings_seq(final(args)@) == strings_seq(old(args)@) + output_args(*cfg),
{
    let ghost base = strings_seq(args@);
    push_arg(args, "-c:v");
    push_arg_or(args, &cfg.video_codec, "libx264");
    push_arg(args, "-preset");
    push_arg_or(args, &cfg.preset, "fast");
    push_arg(args, "-c:a");
    push_arg_or(args, &cfg.audio_codec, "aac");
    match cfg.crf {
        Some(c) => {
            push_arg(args, "-crf");
            let d = dec_chars(c as u64);
            push_arg_chars(args, d.as_slice());
        },
        None => {},
    }
    match &cfg.pix_fmt {
        Some(p) => {
            push_arg(args, "-pix_fmt");
            push_arg(args, p.as_str());
        },
        None => {},
    }
    push_arg(args, "-shortest");
    push_arg(args, "-r");
    let d = dec_chars(cfg.fps as u64);
    push_arg_chars(args, d.as_slice());
    let ghost before_extra = strings_seq(args@);
    let mut e: usize = 0;
    while e < cfg.extra_output_args.len()
        invariant
            e <= cfg.extra_output_args@.len(),
            strings_seq(args@) == before_extra + strings_seq(cfg.extra_output_args@).take(e as int),
        decreases cfg.extra_output_args@.len() - e,
    {
        push_arg(args, cfg.extra_output_args[e].as_str());
        assert(strings_seq(args@) =~= before_extra + strings_seq(cfg.extra_output_args@).take(e + 1));
        e = e + 1;
    }
    assert(strings_seq(cfg.extra_output_args@).take(cfg.extra_output_args@.len() as int) =~= strings_seq(cfg.extra_output_args@));
    push_arg(args, cfg.output_path.as_str());
    assert(strings_seq(args@) =~= base + output_args(*cfg));
}

/// The FFmpeg arguments that composite `media` (in order) over the
/// narration at `audio_path`, with the configured background tracks,
/// subtitles from `srt` (an escaped path, used when `has_subtitles`),
/// codecs and output path.
pub fn ffmpeg_args(
    media: &[PreparedMedia],
    srt: &str,
    has_subtitles: bool,
    audio_path: &str,
    cfg: &RenderConfig,
) -> (r: Vec<String>)
    requires
        media@.len() + cfg.audio_tracks@.len() + 1 <= usize::MAX,
    ensures
        strings_seq(r@) == ffmpeg_args_spec(media@, srt@, has_subtitles, audio_path@, *cfg),
{
    let mut args: Vec<String> = Vec::new();
    push_arg(&mut args, "-y");
    push_input_args(&mut args, media, audio_path, &cfg.audio_tracks);
    let (fc, amap) = filter_and_map_exec(media, srt, has_subtitles, cfg);
    push_arg(&mut args, "-filter_complex");
    push_arg_chars(&mut args, fc.as_slice());
    push_arg(&mut args, "-map");
    push_arg(&mut args, "[vfinal]");
    push_arg(&mut args, "-map");
    push_arg_chars(&mut args, amap.as_slice());
    push_output_args(&mut args, cfg);
    let ghost fm = filter_and_map(media@, srt@, has_subtitles, *cfg);
    assert(strings_seq(args@) =~= seq!["-y"@] + media_inputs(media@, media@.len()) + seq!["-i"@, audio_path@]
        + track_inputs(cfg.audio_tracks@, cfg.audio_tracks@.len()) + seq![
        "-filter_complex"@, fm.0, "-map"@, "[vfinal]"@, "-map"@, fm.1] + output_args(*cfg));
    args
}

} // verus!
