//! Grouping of narration sentences into timed chunks for media planning.
use vstd::prelude::*;

use crate::sentences::{
    all_clean, count_words, lemma_sentences_cover_text, sentences, split_sentences, strings_view,
    word_count,
};
use crate::text::{chars_of, extend_chars, string_from_chars};
use crate::types::{CaptionSegment, TimedChunk};

verus! {

broadcast use vstd::seq_lib::group_seq_properties;

/// Minimum duration of a media chunk, in milliseconds.
pub const MIN_SEGMENT_MS: u64 = 5000;

/// Number of words in the first `k` sentences.
pub open spec fn word_offset(sents: Seq<Seq<char>>, k: int) -> int
    decreases k,
{
    if k <= 0 {
        0
    } else {
        word_offset(sents, k - 1) + word_count(sents[k - 1])
    }
}

/// End time of a caption.
pub open spec fn caption_end(c: CaptionSegment) -> int {
    c.start_ms + c.duration_ms
}

/// Start time of a sentence whose first word is word number `off`: the start
/// of that caption, clamped to the last caption; 0 without captions.
pub open spec fn sentence_start_ms(caps: Seq<CaptionSegment>, off: int) -> int {
    if caps.len() == 0 {
        0
    } else if off < caps.len() - 1 {
        caps[off].start_ms as int
    } else {
        caps[caps.len() - 1].start_ms as int
    }
}

/// End time of a sentence of `wc` words starting at word `off`: the end of
/// its last word's caption, clamped to the captions there are; the start
/// time without captions.
pub open spec fn sentence_end_ms(caps: Seq<CaptionSegment>, off: int, wc: int) -> int {
    if caps.len() == 0 {
        sentence_start_ms(caps, off)
    } else {
        let lim = if off + wc < caps.len() {
            off + wc
        } else {
            caps.len() as int
        };
        let idx = if lim > 0 {
            lim - 1
        } else {
            0
        };
        caption_end(caps[idx])
    }
}

/// Timing of sentence `k` as (start, end) in milliseconds.
pub open spec fn sentence_timing(sents: Seq<Seq<char>>, caps: Seq<CaptionSegment>, k: int) -> (
    int,
    int,
) {
    let off = word_offset(sents, k);
    (sentence_start_ms(caps, off), sentence_end_ms(caps, off, word_count(sents[k]) as int))
}

/// Grouping state after `k` sentences: closed chunks as (text, start, end),
/// the text of the open chunk, its start, and the end of the last sentence.
pub struct GroupState {
    pub closed: Seq<(Seq<char>, int, int)>,
    pub text: Seq<char>,
    pub start: Option<int>,
    pub end: int,
}

pub open spec fn group_scan(sents: Seq<Seq<char>>, caps: Seq<CaptionSegment>, k: nat) -> GroupState
    decreases k,
{
    if k == 0 {
        GroupState { closed: Seq::empty(), text: Seq::empty(), start: None, end: 0 }
    } else {
        let g = group_scan(sents, caps, (k - 1) as nat);
        let (s_start, s_end) = sentence_timing(sents, caps, k - 1);
        let start = match g.start {
            Some(s) => s,
            None => s_start,
        };
        let text = if g.text.len() > 0 {
            g.text + seq![' '] + sents[k - 1]
        } else {
            sents[k - 1]
        };
        if s_end - start >= MIN_SEGMENT_MS {
            GroupState {
                closed: g.closed.push((text, start, s_end)),
                text: Seq::empty(),
                start: None,
                end: s_end,
            }
        } else {
            GroupState { closed: g.closed, text, start: Some(start), end: s_end }
        }
    }
}

/// Sentences grouped into chunks: sentences are appended (joined by a space)
/// to the open chunk, which closes once it spans at least `MIN_SEGMENT_MS`;
/// what remains open at the end becomes the last chunk.
pub open spec fn group_chunks(sents: Seq<Seq<char>>, caps: Seq<CaptionSegment>) -> Seq<
    (Seq<char>, int, int),
> {
    let g = group_scan(sents, caps, sents.len());
    if g.text.len() > 0 {
        g.closed.push(
            (
                g.text,
                match g.start {
                    Some(s) => s,
                    None => 0,
                },
                g.end,
            ),
        )
    } else {
        g.closed
    }
}

/// Pieces joined with single spaces.
pub open spec fn join_space(x: Seq<Seq<char>>) -> Seq<char>
    decreases x.len(),
{
    if x.len() == 0 {
        Seq::empty()
    } else if x.len() == 1 {
        x[0]
    } else {
        join_space(x.drop_last()) + seq![' '] + x.last()
    }
}

pub open spec fn chunk_texts(c: Seq<(Seq<char>, int, int)>) -> Seq<Seq<char>> {
    c.map_values(|t: (Seq<char>, int, int)| t.0)
}

/// The texts of the closed chunks followed by the open one, if any.
pub open spec fn open_texts(g: GroupState) -> Seq<Seq<char>> {
    if g.text.len() > 0 {
        chunk_texts(g.closed).push(g.text)
    } else {
        chunk_texts(g.closed)
    }
}

proof fn lemma_join_push(x: Seq<Seq<char>>, t: Seq<char>)
    ensures
        join_space(x.push(t)) == if x.len() == 0 {
            t
        } else {
            join_space(x) + seq![' '] + t
        },
{
    assert(x.push(t).drop_last() =~= x);
    if x.len() == 0 {
        assert(x.push(t).len() == 1);
    }
}

proof fn lemma_group_scan(sents: Seq<Seq<char>>, caps: Seq<CaptionSegment>, k: nat)
    requires
        k <= sents.len(),
        all_clean(sents),
    ensures
        join_space(open_texts(group_scan(sents, caps, k))) == join_space(sents.take(k as int)),
        open_texts(group_scan(sents, caps, k)).len() > 0 <==> k > 0,
        group_scan(sents, caps, k).text.len() > 0 <==> group_scan(sents, caps, k).start is Some,
        forall|i: int|
            0 <= i < group_scan(sents, caps, k).closed.len() ==> (#[trigger] group_scan(
                sents,
                caps,
                k,
            ).closed[i]).2 - group_scan(sents, caps, k).closed[i].1 >= MIN_SEGMENT_MS,
    decreases k,
{
    if k == 0 {
        assert(sents.take(0) =~= Seq::<Seq<char>>::empty());
        assert(open_texts(group_scan(sents, caps, k)) =~= Seq::<Seq<char>>::empty());
    } else {
        let j = (k - 1) as nat;
        lemma_group_scan(sents, caps, j);
        let g = group_scan(sents, caps, j);
        let g2 = group_scan(sents, caps, k);
        let s = sents[k - 1];
        assert(s.len() > 0);
        assert(sents.take(k as int) =~= sents.take(j as int).push(s));
        lemma_join_push(sents.take(j as int), s);
        assert(sents.take(j as int).len() == j);
        let text = if g.text.len() > 0 {
            g.text + seq![' '] + s
        } else {
            s
        };
        assert(text.len() > 0);
        assert(open_texts(g2) =~= chunk_texts(g.closed).push(text));
        lemma_join_push(chunk_texts(g.closed), text);
        if g.text.len() > 0 {
            lemma_join_push(chunk_texts(g.closed), g.text);
            assert(open_texts(g) =~= chunk_texts(g.closed).push(g.text));
        } else {
            assert(open_texts(g) =~= chunk_texts(g.closed));
        }
    }
}

/// Chunks break only at sentence boundaries: the chunk texts joined with
/// spaces are the sentences joined with spaces; and every chunk but the
/// last spans at least `MIN_SEGMENT_MS`.
pub proof fn lemma_chunks_respect_sentences(narration: Seq<char>, caps: Seq<CaptionSegment>)
    ensures
        join_space(chunk_texts(group_chunks(sentences(narration), caps))) == join_space(
            sentences(narration),
        ),
        forall|i: int|
            0 <= i < group_chunks(sentences(narration), caps).len() - 1 ==> (#[trigger] group_chunks(
                sentences(narration),
                caps,
            )[i]).2 - group_chunks(sentences(narration), caps)[i].1 >= MIN_SEGMENT_MS,
        group_chunks(sentences(narration), caps).len() == 0 <==> sentences(narration).len() == 0,
{
    let sents = sentences(narration);
    lemma_sentences_cover_text(narration);
    lemma_group_scan(sents, caps, sents.len());
    let g = group_scan(sents, caps, sents.len());
    assert(sents.take(sents.len() as int) =~= sents);
    assert(chunk_texts(group_chunks(sents, caps)) =~= open_texts(g));
    let c = group_chunks(sents, caps);
    assert forall|i: int| 0 <= i < c.len() - 1 implies (#[trigger] c[i]).2 - c[i].1
        >= MIN_SEGMENT_MS by {
        assert(c[i] == g.closed[i]);
    }
}

/// The chunks as (text, start, end).
pub open spec fn chunks_view(v: Seq<TimedChunk>) -> Seq<(Seq<char>, int, int)> {
    v.map_values(|c: TimedChunk| (c.text@, c.start_ms as int, c.end_ms as int))
}

/// No caption's end time overflows.
pub open spec fn captions_in_range(caps: Seq<CaptionSegment>) -> bool {
    forall|i: int| 0 <= i < caps.len() ==> caption_end(#[trigger] caps[i]) <= u64::MAX
}

fn sentence_times(captions: &[CaptionSegment], offset: u128, wc: usize) -> (r: (u64, u64))
    requires
        captions_in_range(captions@),
        offset + wc <= u128::MAX,
    ensures
        r.0 == sentence_start_ms(captions@, offset as int),
        r.1 == sentence_end_ms(captions@, offset as int, wc as int),
{
    let n = captions.len();
    if n == 0 {
        return (0, 0);
    }
    let last = n - 1;
    let start_idx: usize = if offset < last as u128 {
        offset as usize
    } else {
        last
    };
    let lim: u128 = if offset + (wc as u128) < n as u128 {
        offset + (wc as u128)
    } else {
        n as u128
    };
    let end_idx: usize = if lim > 0 {
        (lim - 1) as usize
    } else {
        0
    };
    let s = captions[start_idx].start_ms;
    let c = &captions[end_idx];
    assert(caption_end(captions@[end_idx as int]) <= u64::MAX);
    let e = c.start_ms + c.duration_ms;
    (s, e)
}

/// Splits narration into chunks of at least `MIN_SEGMENT_MS`, breaking only
/// at sentence boundaries; each sentence is timed through the captions of its
/// words, counted in order.
pub fn split_into_timed_chunks(narration: &str, captions: &[CaptionSegment]) -> (r: Vec<TimedChunk>)
    requires
        captions_in_range(captions@),
    ensures
        chunks_view(r@) == group_chunks(sentences(narration@), captions@),
{
    let sents = split_sentences(narration);
    let ghost sv = strings_view(sents@);
    let mut chunks: Vec<TimedChunk> = Vec::new();
    let mut chunk_text: Vec<char> = Vec::new();
    let mut chunk_start: Option<u64> = None;
    let mut chunk_end: u64 = 0;
    let mut offset: u128 = 0;
    let mut k: usize = 0;
    proof {
        lemma_sentences_cover_text(narration@);
    }
    while k < sents.len()
        invariant
            k <= sents@.len(),
            sv == strings_view(sents@),
            sv == sentences(narration@),
            all_clean(sv),
            captions_in_range(captions@),
            offset == word_offset(sv, k as int),
            offset <= k * 0x1_0000_0000_0000_0000,
            ({
                let g = group_scan(sv, captions@, k as nat);
                &&& chunks_view(chunks@) == g.closed
                &&& chunk_text@ == g.text
                &&& chunk_end == g.end
                &&& match chunk_start {
                    Some(s) => g.start == Some(s as int),
                    None => g.start is None,
                }
            }),
        decreases sents@.len() - k,
    {
        let sc = chars_of(sents[k].as_str());
        assert(sc@ == sv[k as int]);
        let wc = count_words(sc.as_slice());
        let (s_start, s_end) = sentence_times(captions, offset, wc);
        assert(sentence_timing(sv, captions@, k as int) == (s_start as int, s_end as int));
        let ghost g = group_scan(sv, captions@, k as nat);
        let ghost old_chunks = chunks@;
        let start = match chunk_start {
            Some(s) => s,
            None => s_start,
        };
        if chunk_text.len() > 0 {
            chunk_text.push(' ');
        }
        extend_chars(&mut chunk_text, sc.as_slice());
        chunk_end = s_end;
        assert(chunk_text@ =~= if g.text.len() > 0 {
            g.text + seq![' '] + sv[k as int]
        } else {
            sv[k as int]
        });
        assert(group_scan(sv, captions@, (k + 1) as nat) == {
            let text = if g.text.len() > 0 {
                g.text + seq![' '] + sv[k as int]
            } else {
                sv[k as int]
            };
            if s_end - start >= MIN_SEGMENT_MS {
                GroupState {
                    closed: g.closed.push((text, start as int, s_end as int)),
                    text: Seq::empty(),
                    start: None,
                    end: s_end as int,
                }
            } else {
                GroupState { closed: g.closed, text, start: Some(start as int), end: s_end as int }
            }
        });
        if s_end >= start && s_end - start >= MIN_SEGMENT_MS {
            let t = string_from_chars(chunk_text.as_slice());
            chunks.push(TimedChunk { text: t, start_ms: start, end_ms: s_end });
            assert(chunks_view(chunks@) =~= chunks_view(old_chunks).push(
                (chunk_text@, start as int, s_end as int),
            ));
            chunk_text = Vec::new();
            chunk_start = None;
            assert(chunks_view(chunks@) =~= group_scan(sv, captions@, (k + 1) as nat).closed);
        } else {
            chunk_start = Some(start);
        }
        offset = offset + (wc as u128);
        k = k + 1;
    }
    if chunk_text.len() > 0 {
        let t = string_from_chars(chunk_text.as_slice());
        let st = match chunk_start {
            Some(s) => s,
            None => 0,
        };
        chunks.push(TimedChunk { text: t, start_ms: st, end_ms: chunk_end });
        assert(chunks_view(chunks@) =~= group_chunks(sv, captions@));
    }
    chunks
}

} // verus!
