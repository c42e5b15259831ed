//! SubRip (SRT) subtitles from word captions, six words per line.
use vstd::prelude::*;

use crate::chunks::{caption_end, captions_in_range, join_space};
use crate::text::{chars_of, dec, dec_chars, dec_pad, dec_pad_chars, extend_chars, push_str_chars, string_from_chars};
use crate::types::CaptionSegment;

verus! {

broadcast use vstd::seq_lib::group_seq_properties;

/// Words per subtitle line.
pub const WORDS_PER_LINE: usize = 6;

/// An SRT timestamp `HH:MM:SS,mmm`; hours take more digits when needed.
pub open spec fn srt_time(ms: nat) -> Seq<char> {
    dec_pad(ms / 3_600_000, 2) + seq![':'] + dec_pad((ms % 3_600_000) / 60_000, 2) + seq![':']
        + dec_pad((ms % 60_000) / 1_000, 2) + seq![','] + dec_pad(ms % 1_000, 3)
}

/// One SRT entry: its number, its time range and its text.
pub open spec fn srt_entry(index: nat, start: nat, end: nat, text: Seq<char>) -> Seq<char> {
    dec(index) + seq!['\n'] + srt_time(start) + " --> "@ + srt_time(end) + seq!['\n'] + text
        + seq!['\n', '\n']
}

pub open spec fn caption_texts(caps: Seq<CaptionSegment>) -> Seq<Seq<char>> {
    caps.map_values(|c: CaptionSegment| c.text@)
}

/// Size of the next line group: six captions, or what is left.
pub open spec fn group_len(n: nat) -> nat {
    if n < 6 {
        n
    } else {
        6
    }
}

/// The SRT entries for `caps`, numbered from `index`: each line holds six
/// consecutive captions (the last line what is left), spans from the start
/// of its first caption to the end of its last, and shows their words
/// joined by spaces.
pub open spec fn srt_lines(caps: Seq<CaptionSegment>, index: nat) -> Seq<char>
    decreases caps.len(),
{
    if caps.len() == 0 {
        Seq::empty()
    } else {
        let k = group_len(caps.len());
        let g = caps.take(k as int);
        srt_entry(index, g[0].start_ms as nat, caption_end(g.last()) as nat, join_space(caption_texts(g)))
            + srt_lines(caps.skip(k as int), index + 1)
    }
}

/// The SRT document for a caption track.
pub open spec fn srt_spec(caps: Seq<CaptionSegment>) -> Seq<char> {
    srt_lines(caps, 1)
}

fn push_pad(out: &mut Vec<char>, n: u64, width: usize)
    ensures
        final(out)@ == old(out)@ + dec_pad(n as nat, width as nat),
{
    let d = dec_pad_chars(n, width);
    extend_chars(out, d.as_slice());
}

fn push_srt_time(out: &mut Vec<char>, ms: u64)
    ensures
        final(out)@ == old(out)@ + srt_time(ms as nat),
{
    let ghost o = out@;
    push_pad(out, ms / 3_600_000, 2);
    out.push(':');
    push_pad(out, (ms % 3_600_000) / 60_000, 2);
    out.push(':');
    push_pad(out, (ms % 60_000) / 1_000, 2);
    out.push(',');
    push_pad(out, ms % 1_000, 3);
    assert(out@ =~= o + srt_time(ms as nat));
}

/// `HH:MM:SS,mmm` for a time in milliseconds.
pub fn format_srt_time(ms: u64) -> (r: String)
    ensures
        r@ == srt_time(ms as nat),
{
    let mut out: Vec<char> = Vec::new();
    push_srt_time(&mut out, ms);
    assert(out@ =~= srt_time(ms as nat));
    string_from_chars(out.as_slice())
}

fn push_srt_entry(out: &mut Vec<char>, index: u32, start_ms: u64, end_ms: u64, text: &[char])
    ensures
        final(out)@ == old(out)@ + srt_entry(index as nat, start_ms as nat, end_ms as nat, text@),
{
    let ghost o = out@;
    let d = dec_chars(index as u64);
    extend_chars(out, d.as_slice());
    out.push('\n');
    push_srt_time(out, start_ms);
    push_str_chars(out, " --> ");
    push_srt_time(out, end_ms);
    out.push('\n');
    extend_chars(out, text);
    out.push('\n');
    out.push('\n');
    assert(out@ =~= o + srt_entry(index as nat, start_ms as nat, end_ms as nat, text@));
}

/// One SRT entry.
pub fn format_srt_entry(index: u32, start_ms: u64, end_ms: u64, text: &str) -> (r: String)
    ensures
        r@ == srt_entry(index as nat, start_ms as nat, end_ms as nat, text@),
{
    let mut out: Vec<char> = Vec::new();
    let t = chars_of(text);
    push_srt_entry(&mut out, index, start_ms, end_ms, t.as_slice());
    assert(out@ =~= srt_entry(index as nat, start_ms as nat, end_ms as nat, text@));
    string_from_chars(out.as_slice())
}

fn group_line(captions: &[CaptionSegment], pos: usize, k: usize) -> (line: Vec<char>)
    requires
        pos + k <= captions@.len(),
    ensures
        line@ == join_space(caption_texts(captions@.skip(pos as int).take(k as int))),
{
    let ghost g = captions@.skip(pos as int).take(k as int);
    let mut line: Vec<char> = Vec::new();
    let mut j: usize = 0;
    while j < k
        invariant
            j <= k,
            pos + k <= captions.len(),
            g == captions@.skip(pos as int).take(k as int),
            line@ == join_space(caption_texts(g.take(j as int))),
        decreases k - j,
    {
        if j > 0 {
            line.push(' ');
        }
        let w = chars_of(captions[pos + j].text.as_str());
        extend_chars(&mut line, w.as_slice());
        proof {
            let t = caption_texts(g.take(j + 1));
            assert(t.drop_last() =~= caption_texts(g.take(j as int)));
            assert(t.last() == captions@[pos + j].text@);
        }
        j = j + 1;
    }
    assert(g.take(k as int) =~= g);
    line
}

proof fn lemma_srt_lines_unfold(caps: Seq<CaptionSegment>, index: nat)
    requires
        caps.len() > 0,
    ensures
        srt_lines(caps, index) == srt_entry(
            index,
            caps[0].start_ms as nat,
            caption_end(caps[group_len(caps.len()) - 1]) as nat,
            join_space(caption_texts(caps.take(group_len(caps.len()) as int))),
        ) + srt_lines(caps.skip(group_len(caps.len()) as int), index + 1),
{
    let k = group_len(caps.len());
    let g = caps.take(k as int);
    assert(g[0] == caps[0]);
    assert(g.last() == caps[k - 1]);
}

/// Subtitles for a caption track: lines of six words, each spanning its words' times.
#[verifier::rlimit(50)]
pub fn generate_srt(captions: &[CaptionSegment]) -> (r: String)
    requires
        captions_in_range(captions@),
        captions@.len() < 0x5_FFFF_FFA0,
    ensures
        r@ == srt_spec(captions@),
{
    let n = captions.len();
    let mut out: Vec<char> = Vec::new();
    let mut pos: usize = 0;
    let mut index: u32 = 1;
    assert(captions@.skip(0) =~= captions@);
    while pos < n
        invariant
            pos <= n,
            n == captions@.len(),
            n < 0x5_FFFF_FFA0,
            captions_in_range(captions@),
            index as int * 6 == pos + 6 || pos == n,
            out@ + srt_lines(captions@.skip(pos as int), index as nat) == srt_spec(captions@),
        decreases n - pos,
    {
        let ghost rest = captions@.skip(pos as int);
        let k: usize = if n - pos < 6 {
            n - pos
        } else {
            6
        };
        let line = group_line(captions, pos, k);
        let first = &captions[pos];
        let last = &captions[pos + k - 1];
        assert(caption_end(captions@[pos + k - 1]) <= u64::MAX);
        let end_ms = last.start_ms + last.duration_ms;
        proof {
            lemma_srt_lines_unfold(rest, index as nat);
            assert(rest[k - 1] == captions@[pos + k - 1]);
            assert(rest[0] == captions@[pos as int]);
            assert(rest.skip(k as int) =~= captions@.skip(pos + k));
        }
        let ghost o = out@;
        push_srt_entry(&mut out, index, first.start_ms, end_ms, line.as_slice());
        assert(out@ + srt_lines(captions@.skip(pos + k), (index + 1) as nat) =~= o + srt_lines(
            rest,
            index as nat,
        ));
        pos = pos + k;
        if pos < n {
            index = index + 1;
        }
    }
    assert(captions@.skip(n as int) =~= Seq::<CaptionSegment>::empty());
    assert(out@ =~= srt_spec(captions@));
    string_from_chars(out.as_slice())
}

} // verus!
