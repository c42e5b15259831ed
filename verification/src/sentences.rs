//! Sentence and word splitting of narration text.
use vstd::prelude::*;

use crate::text::{
    chars_of, is_trimmed, is_whitespace, is_ws, lemma_trim_end_prefix, lemma_trim_props,
    lemma_trim_start_suffix, non_ws, string_from_chars, trim, trim_chars, trim_end, trim_start,
};

verus! {

broadcast use vstd::seq_lib::group_seq_properties;

/// Sentence-ending punctuation.
pub open spec fn is_terminal(c: char) -> bool {
    c == '.' || c == '!' || c == '?'
}

/// Position `i` of `s` closes a sentence: it holds `.`, `!` or `?` and is
/// followed by whitespace or by the end of the text.
pub open spec fn is_break(s: Seq<char>, i: int) -> bool {
    &&& 0 <= i < s.len()
    &&& is_terminal(s[i])
    &&& (i + 1 == s.len() || is_ws(s[i + 1]))
}

/// `acc` with the trimmed `piece` appended, unless the trimmed piece is empty.
pub open spec fn keep_piece(acc: Seq<Seq<char>>, piece: Seq<char>) -> Seq<Seq<char>> {
    if trim(piece).len() > 0 {
        acc.push(trim(piece))
    } else {
        acc
    }
}

/// The sentences closed within the first `n` characters of `s`, and the
/// characters read since the last close.
pub open spec fn scan_sentences(s: Seq<char>, n: nat) -> (Seq<Seq<char>>, Seq<char>)
    decreases n,
{
    if n == 0 {
        (Seq::empty(), Seq::empty())
    } else {
        let (acc, cur) = scan_sentences(s, (n - 1) as nat);
        let cur2 = cur.push(s[n - 1]);
        if is_break(s, n - 1) {
            (keep_piece(acc, cur2), Seq::empty())
        } else {
            (acc, cur2)
        }
    }
}

/// The sentences of `s`: the text is cut after every break position, each
/// piece is trimmed and empty pieces are dropped.
pub open spec fn sentences(s: Seq<char>) -> Seq<Seq<char>> {
    let (acc, cur) = scan_sentences(s, s.len());
    keep_piece(acc, cur)
}

/// Concatenation of a sequence of character sequences.
pub open spec fn concat_all(x: Seq<Seq<char>>) -> Seq<char>
    decreases x.len(),
{
    if x.len() == 0 {
        Seq::empty()
    } else {
        concat_all(x.drop_last()) + x.last()
    }
}

/// Every piece is non-empty and has no surrounding whitespace.
pub open spec fn all_clean(x: Seq<Seq<char>>) -> bool {
    forall|k: int| 0 <= k < x.len() ==> (#[trigger] x[k]).len() > 0 && is_trimmed(x[k])
}

pub open spec fn strings_view(v: Seq<String>) -> Seq<Seq<char>> {
    v.map_values(|x: String| x@)
}

proof fn lemma_non_ws_add(a: Seq<char>, b: Seq<char>)
    ensures
        non_ws(a + b) == non_ws(a) + non_ws(b),
{
    Seq::filter_distributes_over_add(a, b, |c: char| !is_ws(c));
}

proof fn lemma_keep_piece(acc: Seq<Seq<char>>, piece: Seq<char>)
    requires
        all_clean(acc),
    ensures
        all_clean(keep_piece(acc, piece)),
        non_ws(concat_all(keep_piece(acc, piece))) == non_ws(concat_all(acc)) + non_ws(piece),
{
    lemma_trim_props(piece);
    if trim(piece).len() > 0 {
        assert(keep_piece(acc, piece).drop_last() =~= acc);
        lemma_non_ws_add(concat_all(acc), trim(piece));
    } else {
        assert(non_ws(piece) =~= Seq::<char>::empty());
        assert(non_ws(concat_all(acc)) + non_ws(piece) =~= non_ws(concat_all(acc)));
    }
}

proof fn lemma_scan_invariant(s: Seq<char>, n: nat)
    requires
        n <= s.len(),
    ensures
        all_clean(scan_sentences(s, n).0),
        non_ws(concat_all(scan_sentences(s, n).0)) + non_ws(scan_sentences(s, n).1) == non_ws(
            s.take(n as int),
        ),
    decreases n,
{
    if n == 0 {
        assert(non_ws(Seq::<char>::empty()) =~= Seq::<char>::empty());
        assert(s.take(0) =~= Seq::<char>::empty());
    } else {
        lemma_scan_invariant(s, (n - 1) as nat);
        let (acc, cur) = scan_sentences(s, (n - 1) as nat);
        let cur2 = cur.push(s[n - 1]);
        assert(s.take(n as int) =~= s.take(n - 1) + seq![s[n - 1]]);
        assert(cur2 =~= cur + seq![s[n - 1]]);
        lemma_non_ws_add(s.take(n - 1), seq![s[n - 1]]);
        lemma_non_ws_add(cur, seq![s[n - 1]]);
        if is_break(s, n - 1) {
            lemma_keep_piece(acc, cur2);
            assert(non_ws(Seq::<char>::empty()) =~= Seq::<char>::empty());
        }
    }
}

/// Every sentence is non-empty and trimmed, and no non-whitespace character
/// of the text is lost or added: read without whitespace, the sentences are the text.
pub proof fn lemma_sentences_cover_text(s: Seq<char>)
    ensures
        all_clean(sentences(s)),
        non_ws(concat_all(sentences(s))) == non_ws(s),
{
    lemma_scan_invariant(s, s.len());
    let (acc, cur) = scan_sentences(s, s.len());
    lemma_keep_piece(acc, cur);
    assert(s.take(s.len() as int) =~= s);
}

/// No sentence break inside `x`, except possibly at its last character.
pub open spec fn no_inner_break(x: Seq<char>) -> bool {
    forall|i: int| 0 <= i < x.len() - 1 ==> !#[trigger] is_break(x, i)
}

/// A closed sentence: non-empty, no break inside, ending in `.`, `!` or `?`.
pub open spec fn closed_piece(x: Seq<char>) -> bool {
    &&& x.len() > 0
    &&& no_inner_break(x)
    &&& is_terminal(x.last())
}

/// Trimming cuts a window out of `c`; when `c` ends in a non-whitespace
/// character the window reaches the end.
proof fn lemma_trim_window(c: Seq<char>)
    ensures
        exists|a: int, b: int|
            0 <= a <= b <= c.len() && trim(c) == c.subrange(a, b) && (c.len() > 0 && !is_ws(c.last())
                ==> a < b == c.len()),
{
    lemma_trim_start_suffix(c);
    let k1 = choose|k: int|
        0 <= k <= c.len() && trim_start(c) == c.subrange(k, c.len() as int) && (forall|i: int|
            0 <= i < k ==> is_ws(#[trigger] c[i]));
    let t = trim_start(c);
    lemma_trim_end_prefix(t);
    let k2 = choose|k: int|
        0 <= k <= t.len() && trim_end(t) == t.subrange(0, k) && (forall|i: int|
            k <= i < t.len() ==> is_ws(#[trigger] t[i]));
    assert(trim(c) =~= c.subrange(k1, k1 + k2));
    if c.len() > 0 && !is_ws(c.last()) {
        if k1 == c.len() {
            assert(is_ws(c[c.len() - 1]));
        }
        assert(t.last() == c.last());
        if k2 < t.len() {
            assert(is_ws(t[t.len() - 1]));
        }
    }
}

/// The trimmed text of a stretch with no sentence break before its last
/// character has no break inside.
proof fn lemma_window_no_inner_break(s: Seq<char>, st: int, e: int)
    requires
        0 <= st <= e <= s.len(),
        forall|p: int| st <= p < e - 1 ==> !#[trigger] is_break(s, p),
    ensures
        no_inner_break(trim(s.subrange(st, e))),
{
    let c = s.subrange(st, e);
    lemma_trim_window(c);
    let (a, b) = choose|a: int, b: int|
        0 <= a <= b <= c.len() && trim(c) == c.subrange(a, b) && (c.len() > 0 && !is_ws(c.last())
            ==> a < b == c.len());
    let x = trim(c);
    assert forall|i: int| 0 <= i < x.len() - 1 implies !#[trigger] is_break(x, i) by {
        let p = st + a + i;
        assert(x[i] == s[p]);
        assert(x[i + 1] == s[p + 1]);
        assert(!is_break(s, p));
    }
}

/// A stretch ending in sentence punctuation, trimmed, still ends in it.
proof fn lemma_window_keeps_end(c: Seq<char>)
    requires
        c.len() > 0,
        is_terminal(c.last()),
    ensures
        trim(c).len() > 0,
        trim(c).last() == c.last(),
{
    lemma_trim_window(c);
    let (a, b) = choose|a: int, b: int|
        0 <= a <= b <= c.len() && trim(c) == c.subrange(a, b) && (c.len() > 0 && !is_ws(c.last())
            ==> a < b == c.len());
    assert(!is_ws(c.last()));
}

/// While scanning, the closed sentences are closed pieces, and the piece
/// being read is a stretch of the text holding no break.
proof fn lemma_scan_pieces(s: Seq<char>, n: nat)
    requires
        n <= s.len(),
    ensures
        forall|k: int| 0 <= k < scan_sentences(s, n).0.len() ==> closed_piece(#[trigger] scan_sentences(s, n).0[k]),
        exists|st: int|
            0 <= st <= n && scan_sentences(s, n).1 == #[trigger] s.subrange(st, n as int) && (forall|p: int|
                st <= p < n ==> !#[trigger] is_break(s, p)),
    decreases n,
{
    if n == 0 {
        assert(scan_sentences(s, 0).1 =~= s.subrange(0, 0));
    } else {
        lemma_scan_pieces(s, (n - 1) as nat);
        let (acc, cur) = scan_sentences(s, (n - 1) as nat);
        let st = choose|st: int|
            0 <= st <= n - 1 && cur == #[trigger] s.subrange(st, n - 1) && (forall|p: int|
                st <= p < n - 1 ==> !#[trigger] is_break(s, p));
        let cur2 = cur.push(s[n - 1]);
        assert(cur2 =~= s.subrange(st, n as int));
        if is_break(s, n - 1) {
            lemma_window_no_inner_break(s, st, n as int);
            lemma_window_keeps_end(cur2);
            assert(scan_sentences(s, n).1 =~= s.subrange(n as int, n as int));
        }
    }
}

/// Each sentence splits into itself alone, and every sentence but the last
/// ends in `.`, `!` or `?`.
pub proof fn lemma_sentences_resplit(s: Seq<char>)
    ensures
        forall|k: int| 0 <= k < sentences(s).len() ==> sentences(#[trigger] sentences(s)[k]) == seq![sentences(s)[k]],
        forall|k: int|
            0 <= k < sentences(s).len() - 1 ==> (#[trigger] sentences(s)[k].last() == '.'
                || sentences(s)[k].last() == '!' || sentences(s)[k].last() == '?'),
{
    lemma_scan_pieces(s, s.len());
    lemma_sentences_cover_text(s);
    let (acc, cur) = scan_sentences(s, s.len());
    let st = choose|st: int|
        0 <= st <= s.len() && cur == #[trigger] s.subrange(st, s.len() as int) && (forall|p: int|
            st <= p < s.len() ==> !#[trigger] is_break(s, p));
    lemma_window_no_inner_break(s, st, s.len() as int);
    let ss = sentences(s);
    assert forall|k: int| 0 <= k < ss.len() implies sentences(#[trigger] ss[k]) == seq![ss[k]] by {
        if k < acc.len() {
            assert(ss[k] == acc[k]);
            assert(closed_piece(acc[k]));
        } else {
            assert(ss[k] == trim(cur));
        }
        lemma_single_sentence(ss[k]);
    }
    assert forall|k: int| 0 <= k < ss.len() - 1 implies is_terminal(#[trigger] ss[k].last()) by {
        assert(ss[k] == acc[k]);
        assert(closed_piece(acc[k]));
    }
}

/// A text with no `.`, `!` or `?` is one sentence: itself, trimmed (or
/// none, when it is only whitespace).
pub proof fn lemma_no_punctuation_one_sentence(s: Seq<char>)
    requires
        forall|i: int| 0 <= i < s.len() ==> #[trigger] s[i] != '.' && s[i] != '!' && s[i] != '?',
    ensures
        trim(s).len() > 0 ==> sentences(s) == seq![trim(s)],
        trim(s).len() == 0 ==> sentences(s).len() == 0,
{
    lemma_scan_no_break(s, s.len());
    assert(s.take(s.len() as int) =~= s);
}

proof fn lemma_scan_no_break(s: Seq<char>, k: nat)
    requires
        k <= s.len(),
        forall|i: int| 0 <= i < s.len() ==> #[trigger] s[i] != '.' && s[i] != '!' && s[i] != '?',
    ensures
        scan_sentences(s, k) == (Seq::<Seq<char>>::empty(), s.take(k as int)),
    decreases k,
{
    if k > 0 {
        lemma_scan_no_break(s, (k - 1) as nat);
        assert(s[k - 1] != '.' && s[k - 1] != '!' && s[k - 1] != '?');
        assert(!is_break(s, k - 1));
        assert(s.take(k - 1).push(s[k - 1]) =~= s.take(k as int));
    } else {
        assert(s.take(0) =~= Seq::<char>::empty());
    }
}

/// A trimmed, non-empty text with no break inside is one sentence.
proof fn lemma_single_sentence(x: Seq<char>)
    requires
        x.len() > 0,
        is_trimmed(x),
        no_inner_break(x),
    ensures
        sentences(x) == seq![x],
{
    lemma_scan_prefix(x, (x.len() - 1) as nat);
    assert(trim_start(x) == x);
    assert(trim_end(x) == x);
    assert(trim(x) == x);
    let e = Seq::<char>::empty();
    assert(trim_start(e) == e);
    assert(trim_end(e) == e);
    assert(x.take(x.len() - 1).push(x[x.len() - 1]) =~= x);
}

proof fn lemma_scan_prefix(x: Seq<char>, k: nat)
    requires
        k < x.len(),
        no_inner_break(x),
    ensures
        scan_sentences(x, k) == (Seq::<Seq<char>>::empty(), x.take(k as int)),
    decreases k,
{
    if k > 0 {
        lemma_scan_prefix(x, (k - 1) as nat);
        assert(!is_break(x, k - 1));
        assert(x.take(k - 1).push(x[k - 1]) =~= x.take(k as int));
    } else {
        assert(x.take(0) =~= Seq::<char>::empty());
    }
}

fn push_trimmed(sentences: &mut Vec<String>, current: &Vec<char>)
    ensures
        strings_view(final(sentences)@) == keep_piece(strings_view(old(sentences)@), current@),
{
    let t = trim_chars(current.as_slice());
    if t.len() > 0 {
        let st = string_from_chars(t.as_slice());
        sentences.push(st);
        assert(strings_view(sentences@) =~= strings_view(old(sentences)@).push(t@));
    }
}

/// Splits text into sentences after `.`, `!` or `?` followed by whitespace or
/// the end of the text, keeping the punctuation with its sentence; each
/// sentence is trimmed and empty ones are dropped.
pub fn split_sentences(text: &str) -> (r: Vec<String>)
    ensures
        strings_view(r@) == sentences(text@),
{
    let chars = chars_of(text);
    let n = chars.len();
    let mut sentences_out: Vec<String> = Vec::new();
    let mut current: Vec<char> = Vec::new();
    let mut i: usize = 0;
    while i < n
        invariant
            i <= n,
            n == chars@.len(),
            chars@ == text@,
            strings_view(sentences_out@) == scan_sentences(chars@, i as nat).0,
            current@ == scan_sentences(chars@, i as nat).1,
        decreases n - i,
    {
        let ch = chars[i];
        current.push(ch);
        if ch == '.' || ch == '!' || ch == '?' {
            let at_end = i + 1 >= n;
            let next_is_ws = i + 1 < n && is_whitespace(chars[i + 1]);
            if at_end || next_is_ws {
                push_trimmed(&mut sentences_out, &current);
                current = Vec::new();
            }
        }
        i = i + 1;
    }
    push_trimmed(&mut sentences_out, &current);
    sentences_out
}

/// `s[i]` starts a whitespace-separated word.
pub open spec fn starts_word(s: Seq<char>, i: int) -> bool {
    &&& 0 <= i < s.len()
    &&& !is_ws(s[i])
    &&& (i == 0 || is_ws(s[i - 1]))
}

/// Number of whitespace-separated words in the first `n` characters of `s`.
pub open spec fn words_in_prefix(s: Seq<char>, n: nat) -> nat
    decreases n,
{
    if n == 0 {
        0
    } else {
        words_in_prefix(s, (n - 1) as nat) + if starts_word(s, n - 1) {
            1nat
        } else {
            0nat
        }
    }
}

/// Number of whitespace-separated words of `s` (`s.split_whitespace().count()`).
pub open spec fn word_count(s: Seq<char>) -> nat {
    words_in_prefix(s, s.len())
}

proof fn lemma_words_in_prefix_bound(s: Seq<char>, n: nat)
    ensures
        words_in_prefix(s, n) <= n,
    decreases n,
{
    if n > 0 {
        lemma_words_in_prefix_bound(s, (n - 1) as nat);
    }
}

/// `text.split_whitespace().count()`.
pub fn count_words(text: &[char]) -> (c: usize)
    ensures
        c == word_count(text@),
{
    let n = text.len();
    let mut c: usize = 0;
    let mut i: usize = 0;
    while i < n
        invariant
            i <= n,
            n == text@.len(),
            c == words_in_prefix(text@, i as nat),
        decreases n - i,
    {
        proof {
            lemma_words_in_prefix_bound(text@, (i + 1) as nat);
        }
        if !is_whitespace(text[i]) && (i == 0 || is_whitespace(text[i - 1])) {
            c = c + 1;
        }
        i = i + 1;
    }
    c
}

/// The whitespace-separated words of the first `n` characters, and the word
/// still being read.
pub open spec fn scan_words(s: Seq<char>, n: nat) -> (Seq<Seq<char>>, Seq<char>)
    decreases n,
{
    if n == 0 {
        (Seq::empty(), Seq::empty())
    } else {
        let (acc, cur) = scan_words(s, (n - 1) as nat);
        if is_ws(s[n - 1]) {
            if cur.len() > 0 {
                (acc.push(cur), Seq::empty())
            } else {
                (acc, cur)
            }
        } else {
            (acc, cur.push(s[n - 1]))
        }
    }
}

/// The whitespace-separated words of `s` (`s.split_whitespace()`).
pub open spec fn words(s: Seq<char>) -> Seq<Seq<char>> {
    let (acc, cur) = scan_words(s, s.len());
    if cur.len() > 0 {
        acc.push(cur)
    } else {
        acc
    }
}

/// `text.split_whitespace()`, each word as a `String`.
pub fn split_words(text: &str) -> (r: Vec<String>)
    ensures
        strings_view(r@) == words(text@),
{
    let chars = chars_of(text);
    let n = chars.len();
    let mut out: Vec<String> = Vec::new();
    let mut current: Vec<char> = Vec::new();
    let mut i: usize = 0;
    while i < n
        invariant
            i <= n,
            n == chars@.len(),
            chars@ == text@,
            strings_view(out@) == scan_words(chars@, i as nat).0,
            current@ == scan_words(chars@, i as nat).1,
        decreases n - i,
    {
        let ch = chars[i];
        if is_whitespace(ch) {
            if current.len() > 0 {
                let w = string_from_chars(current.as_slice());
                out.push(w);
                assert(strings_view(out@) =~= scan_words(chars@, i as nat).0.push(current@));
                current = Vec::new();
            }
        } else {
            current.push(ch);
        }
        i = i + 1;
    }
    if current.len() > 0 {
        let w = string_from_chars(current.as_slice());
        out.push(w);
        assert(strings_view(out@) =~= scan_words(chars@, n as nat).0.push(current@));
    }
    out
}

} // verus!
