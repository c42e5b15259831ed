//! Speech synthesis logic: endpoint URLs, the ElevenLabs timestamp stream
//! (Base64 audio chunks, and character alignment grouped into words) and the
//! choice of how Whisper word timings are laid over the source text.
use vstd::prelude::*;

use crate::codec::{b64_decode_or_empty, decoded_or_empty};
use crate::openai::{split_trimmed, trim_slashes, trim_trailing_slashes, trimmed_pieces};
use crate::sentences::{split_words, strings_view, words};
use crate::text::{chars_of, extend_chars, same_text, string_from_chars, trim, trim_chars};

verus! {

/// The ElevenLabs streaming-with-timestamps endpoint of a voice.
pub open spec fn elevenlabs_url_spec(voice_id: Seq<char>) -> Seq<char> {
    "https://api.elevenlabs.io/v1/text-to-speech/"@ + voice_id + "/stream/with-timestamps"@
}

pub fn elevenlabs_tts_url(voice_id: &str) -> (r: String)
    ensures
        r@ == elevenlabs_url_spec(voice_id@),
{
    let mut r = String::from_str("https://api.elevenlabs.io/v1/text-to-speech/");
    r.append(voice_id);
    r.append("/stream/with-timestamps");
    r
}

/// The lines of a streamed reply that carry data: each line trimmed, blank
/// lines dropped.
pub fn stream_lines(body: &str) -> (r: Vec<String>)
    ensures
        strings_view(r@) == trimmed_pieces(body@, '\n'),
{
    split_trimmed(body, '\n')
}

/// The audio of one stream chunk: its Base64 field decoded; nothing when the
/// field is missing, empty or not valid Base64.
pub open spec fn chunk_audio(chunk: Option<Seq<char>>) -> Seq<u8> {
    match chunk {
        Some(s) => if s.len() > 0 {
            decoded_or_empty(s)
        } else {
            Seq::empty()
        },
        None => Seq::empty(),
    }
}

/// The audio of a stream: the audio of each chunk, in order, concatenated.
pub open spec fn stream_audio_spec(chunks: Seq<Option<Seq<char>>>) -> Seq<u8>
    decreases chunks.len(),
{
    if chunks.len() == 0 {
        Seq::empty()
    } else {
        stream_audio_spec(chunks.drop_last()) + chunk_audio(chunks.last())
    }
}

pub open spec fn opt_view(o: Option<String>) -> Option<Seq<char>> {
    match o {
        Some(s) => Some(s@),
        None => None,
    }
}

pub open spec fn opt_views(v: Seq<Option<String>>) -> Seq<Option<Seq<char>>> {
    v.map_values(|o: Option<String>| opt_view(o))
}

/// Joins the audio of the chunks of a timestamp stream.
pub fn stream_audio(chunks: &[Option<String>]) -> (r: Vec<u8>)
    ensures
        r@ == stream_audio_spec(opt_views(chunks@)),
{
    let mut out: Vec<u8> = Vec::new();
    let mut i: usize = 0;
    while i < chunks.len()
        invariant
            i <= chunks@.len(),
            out@ == stream_audio_spec(opt_views(chunks@).take(i as int)),
        decreases chunks@.len() - i,
    {
        let ghost pre = opt_views(chunks@).take(i + 1);
        assert(pre.drop_last() =~= opt_views(chunks@).take(i as int));
        assert(pre.last() == opt_view(chunks@[i as int]));
        match &chunks[i] {
            Some(s) => {
                if !s.as_str().is_empty() {
                    let d = b64_decode_or_empty(s.as_str());
                    out.extend_from_slice(d.as_slice());
                }
            },
            None => {},
        }
        i = i + 1;
    }
    assert(opt_views(chunks@).take(chunks@.len() as int) =~= opt_views(chunks@));
    out
}

/// An alignment character that is only whitespace ends a word.
pub open spec fn is_blank(s: Seq<char>) -> bool {
    trim(s).len() == 0
}

/// Word grouping of the first `n` alignment characters: the words closed so
/// far (text, index of the first character, index of the last) and the word
/// being read, with the indices of its first and last character.
pub open spec fn scan_spans(chars: Seq<Seq<char>>, n: nat) -> (
    Seq<(Seq<char>, int, int)>,
    Seq<char>,
    int,
    int,
)
    decreases n,
{
    if n == 0 {
        (Seq::empty(), Seq::empty(), 0, 0)
    } else {
        let (done, word, first, last) = scan_spans(chars, (n - 1) as nat);
        let c = chars[n - 1];
        if is_blank(c) {
            if word.len() > 0 {
                (done.push((word, first, last)), Seq::empty(), first, last)
            } else {
                (done, word, first, last)
            }
        } else {
            (
                done,
                word + c,
                if word.len() == 0 {
                    n - 1
                } else {
                    first
                },
                n - 1,
            )
        }
    }
}

/// The words of the first `n` alignment characters: runs of non-blank
/// characters joined, each with the index of its first and last character.
pub open spec fn word_spans(chars: Seq<Seq<char>>, n: nat) -> Seq<(Seq<char>, int, int)> {
    let (done, word, first, last) = scan_spans(chars, n);
    if word.len() > 0 {
        done.push((word, first, last))
    } else {
        done
    }
}

/// A word of the alignment, with the indices of its first and last character
/// (whose start and end times time the word).
pub struct WordSpan {
    pub text: String,
    pub first: usize,
    pub last: usize,
}

pub open spec fn span_view(s: WordSpan) -> (Seq<char>, int, int) {
    (s.text@, s.first as int, s.last as int)
}

pub open spec fn spans_view(v: Seq<WordSpan>) -> Seq<(Seq<char>, int, int)> {
    v.map_values(|s: WordSpan| span_view(s))
}

pub open spec fn min_len(a: nat, b: nat, c: nat) -> nat {
    if a <= b && a <= c {
        a
    } else if b <= c {
        b
    } else {
        c
    }
}

fn is_blank_text(s: &str) -> (r: bool)
    ensures
        r == is_blank(s@),
{
    let cs = chars_of(s);
    let t = trim_chars(cs.as_slice());
    t.len() == 0
}

/// Groups character-level alignment into words. Only the first
/// `min(chars, starts, ends)` characters count, as the three lists of the
/// alignment may differ in length.
pub fn group_words(chars: &[String], starts_len: usize, ends_len: usize) -> (r: Vec<WordSpan>)
    ensures
        spans_view(r@) == word_spans(
            strings_view(chars@),
            min_len(chars@.len(), starts_len as nat, ends_len as nat),
        ),
        forall|k: int|
            0 <= k < r@.len() ==> (#[trigger] r@[k]).first <= r@[k].last && r@[k].last < min_len(
                chars@.len(),
                starts_len as nat,
                ends_len as nat,
            ),
{
    let mut n = chars.len();
    if starts_len < n {
        n = starts_len;
    }
    if ends_len < n {
        n = ends_len;
    }
    assert(n == min_len(chars@.len(), starts_len as nat, ends_len as nat));
    let ghost cv = strings_view(chars@);
    let mut out: Vec<WordSpan> = Vec::new();
    let mut word: Vec<char> = Vec::new();
    let mut first: usize = 0;
    let mut last: usize = 0;
    let mut i: usize = 0;
    while i < n
        invariant
            i <= n,
            n <= chars@.len(),
            cv == strings_view(chars@),
            spans_view(out@) == scan_spans(cv, i as nat).0,
            word@ == scan_spans(cv, i as nat).1,
            first == scan_spans(cv, i as nat).2,
            last == scan_spans(cv, i as nat).3,
            word@.len() > 0 ==> first <= last && last < i,
            forall|k: int| 0 <= k < out@.len() ==> (#[trigger] out@[k]).first <= out@[k].last && out@[k].last < i,
        decreases n - i,
    {
        let s = chars[i].as_str();
        assert(cv[i as int] == s@);
        if is_blank_text(s) {
            if word.len() > 0 {
                let ghost before = out@;
                out.push(WordSpan { text: string_from_chars(word.as_slice()), first, last });
                assert(spans_view(out@) =~= spans_view(before).push((word@, first as int, last as int)));
                word = Vec::new();
            }
        } else {
            if word.len() == 0 {
                first = i;
            }
            let cs = chars_of(s);
            extend_chars(&mut word, cs.as_slice());
            last = i;
        }
        i = i + 1;
    }
    if word.len() > 0 {
        let ghost before = out@;
        out.push(WordSpan { text: string_from_chars(word.as_slice()), first, last });
        assert(spans_view(out@) =~= spans_view(before).push((word@, first as int, last as int)));
    }
    out
}

/// How Whisper's word timings are laid over the source text.
pub enum CaptionAlignment {
    /// Whisper found no words: no captions.
    NoCaptions,
    /// The source text has no words: Whisper's own words and timings.
    WhisperWords,
    /// As many source words as Whisper words: the source words, one for one,
    /// with Whisper's timings.
    OneToOne(Vec<String>),
    /// The counts differ: the source words spread evenly over the time from
    /// Whisper's first start to its last end.
    Interpolated(Vec<String>),
}

/// Chooses how to align `whisper_count` Whisper words to the source text.
pub fn plan_alignment(source_text: &str, whisper_count: usize) -> (r: CaptionAlignment)
    ensures
        match r {
            CaptionAlignment::NoCaptions => whisper_count == 0,
            CaptionAlignment::WhisperWords => whisper_count > 0 && words(source_text@).len() == 0,
            CaptionAlignment::OneToOne(w) => whisper_count > 0 && words(source_text@).len()
                == whisper_count && strings_view(w@) == words(source_text@),
            CaptionAlignment::Interpolated(w) => whisper_count > 0 && words(source_text@).len() > 0
                && words(source_text@).len() != whisper_count && strings_view(w@) == words(
                source_text@,
            ),
        },
{
    if whisper_count == 0 {
        return CaptionAlignment::NoCaptions;
    }
    let w = split_words(source_text);
    if w.len() == 0 {
        CaptionAlignment::WhisperWords
    } else if w.len() == whisper_count {
        CaptionAlignment::OneToOne(w)
    } else {
        CaptionAlignment::Interpolated(w)
    }
}

/// The MIME type sent with audio of a given format.
pub open spec fn mime_spec(format: Seq<char>) -> Seq<char> {
    if format == "mp3"@ {
        "audio/mpeg"@
    } else if format == "opus"@ {
        "audio/opus"@
    } else if format == "aac"@ {
        "audio/aac"@
    } else if format == "flac"@ {
        "audio/flac"@
    } else if format == "wav"@ {
        "audio/wav"@
    } else if format == "pcm"@ {
        "audio/L16"@
    } else {
        "application/octet-stream"@
    }
}

pub fn mime_for_format(format: &str) -> (r: String)
    ensures
        r@ == mime_spec(format@),
{
    if same_text(format, "mp3") {
        String::from_str("audio/mpeg")
    } else if same_text(format, "opus") {
        String::from_str("audio/opus")
    } else if same_text(format, "aac") {
        String::from_str("audio/aac")
    } else if same_text(format, "flac") {
        String::from_str("audio/flac")
    } else if same_text(format, "wav") {
        String::from_str("audio/wav")
    } else if same_text(format, "pcm") {
        String::from_str("audio/L16")
    } else {
        String::from_str("application/octet-stream")
    }
}

/// The speech endpoint of an OpenAI-compatible server.
pub fn speech_url(base_url: &str) -> (r: String)
    ensures
        r@ == trim_slashes(base_url@) + "/v1/audio/speech"@,
{
    let mut r = trim_trailing_slashes(base_url);
    r.append("/v1/audio/speech");
    r
}

/// The transcription endpoint of an OpenAI-compatible server.
pub fn transcriptions_url(base_url: &str) -> (r: String)
    ensures
        r@ == trim_slashes(base_url@) + "/v1/audio/transcriptions"@,
{
    let mut r = trim_trailing_slashes(base_url);
    r.append("/v1/audio/transcriptions");
    r
}

/// The file name under which synthesized audio is sent for transcription.
pub fn speech_file_name(format: &str) -> (r: String)
    ensures
        r@ == "speech."@ + format@,
{
    let mut r = String::from_str("speech.");
    r.append(format);
    r
}

} // verus!
